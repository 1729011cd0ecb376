//! A model of Rust items rich enough for attribute work: every kind of item
//! carries its attribute list, its name where it has one, and functions keep
//! their signature, visibility and body.

use vstd::prelude::*;
use crate::attribute::Attribute;
use crate::error::Error;
use crate::path::{spec_path_ident, GetIdent, Path};

verus! {

/// A function body, kept as text.
#[derive(Debug)]
pub struct Block {
    pub text: String,
}

/// A function signature: the parts the accessors read.
#[derive(Debug)]
pub struct Signature {
    pub ident: String,
}

/// Item visibility.
#[derive(Debug)]
pub enum Visibility {
    Public,
    Inherited,
}

/// A function-shaped item: a free function, an inherent or trait method.
#[derive(Debug)]
pub struct Function {
    pub attrs: Vec<Attribute>,
    pub vis: Visibility,
    pub sig: Signature,
    pub block: Option<Block>,
}

/// What a `use` declaration brings in, as far as the accessors read it.
#[derive(Debug)]
pub enum UseTree {
    /// A plain `use` of one name.
    Name(String),
    /// Anything else: a path, a glob, a group, a rename.
    Other,
}

/// A module item, with its content when it is inline.
#[derive(Debug)]
pub struct ItemMod {
    pub attrs: Vec<Attribute>,
    pub ident: String,
    pub content: Option<Vec<Item>>,
}

/// A top-level item.
#[derive(Debug)]
pub enum Item {
    Const { attrs: Vec<Attribute>, ident: String },
    Enum { attrs: Vec<Attribute>, ident: String },
    CrateImport { attrs: Vec<Attribute>, ident: String },
    Fn(Function),
    ForeignMod { attrs: Vec<Attribute> },
    Impl { attrs: Vec<Attribute> },
    Macro { attrs: Vec<Attribute>, ident: Option<String> },
    Macro2 { attrs: Vec<Attribute>, ident: String },
    Mod(ItemMod),
    Static { attrs: Vec<Attribute>, ident: String },
    Struct { attrs: Vec<Attribute>, ident: String },
    Trait { attrs: Vec<Attribute>, ident: String },
    TraitAlias { attrs: Vec<Attribute>, ident: String },
    Type { attrs: Vec<Attribute>, ident: String },
    Union { attrs: Vec<Attribute>, ident: String },
    Use { attrs: Vec<Attribute>, tree: UseTree },
    Verbatim,
}

/// An item inside an `impl` block.
#[derive(Debug)]
pub enum ImplItem {
    Const { attrs: Vec<Attribute>, ident: String },
    Method(Function),
    Type { attrs: Vec<Attribute>, ident: String },
    Macro { attrs: Vec<Attribute>, path: Path },
    Verbatim,
}

/// An item inside a `trait` block.
#[derive(Debug)]
pub enum TraitItem {
    Const { attrs: Vec<Attribute>, ident: String },
    Method(Function),
    Type { attrs: Vec<Attribute>, ident: String },
    Macro { attrs: Vec<Attribute>, path: Path },
    Verbatim,
}

/// Accessors shared by every kind of item.
pub trait ItemLike: Sized {
    /// The attribute list, for the kinds of item that carry one.
    spec fn spec_attrs(&self) -> Option<Seq<Attribute>>;

    /// The function the item holds, when it is one.
    spec fn spec_function(&self) -> Option<Function>;

    /// Everything but the attribute list agrees.
    spec fn same_shape(a: &Self, b: &Self) -> bool;

    /// Whether the item is a constant.
    spec fn spec_is_const(&self) -> bool;

    /// Whether the item is a type alias or associated type.
    spec fn spec_is_type(&self) -> bool;

    /// Whether the item is a macro invocation.
    spec fn spec_is_macro(&self) -> bool;

    /// The item's attributes; an error for item kinds that have none.
    fn attrs(&self) -> (r: Result<&Vec<Attribute>, Error>)
        ensures
            match r {
                Ok(a) => self.spec_attrs() == Some(a@),
                Err(e) => self.spec_attrs() is None && e == Error::NoAttrs,
            },
    ;

    /// Replaces the item's attributes; an error for item kinds that have
    /// none.
    fn set_attrs(&mut self, attrs: Vec<Attribute>) -> (r: Result<(), Error>)
        ensures
            match r {
                Ok(()) => old(self).spec_attrs() is Some && final(self).spec_attrs() == Some(
                    attrs@,
                ) && Self::same_shape(old(self), final(self)),
                Err(e) => old(self).spec_attrs() is None && e == Error::NoAttrs && *final(self)
                    == *old(self),
            },
    ;

    /// The function or method the item holds; an error otherwise.
    fn function_or_method(&self) -> (r: Result<&Function, Error>)
        ensures
            match r {
                Ok(f) => self.spec_function() == Some(*f),
                Err(e) => self.spec_function() is None && e == Error::NotAFunction,
            },
    ;

    /// Returns `true` if the item is a constant.
    fn is_const(&self) -> (r: bool)
        ensures
            r == self.spec_is_const(),
    ;

    /// Returns `true` if the item is a type alias or associated type.
    fn is_type(&self) -> (r: bool)
        ensures
            r == self.spec_is_type(),
    ;

    /// Returns `true` if the item is a macro invocation.
    fn is_macro(&self) -> (r: bool)
        ensures
            r == self.spec_is_macro(),
    ;
}

impl ItemLike for Item {
    open spec fn spec_attrs(&self) -> Option<Seq<Attribute>> {
        match self {
            Item::Const { attrs, .. } => Some(attrs@),
            Item::Enum { attrs, .. } => Some(attrs@),
            Item::CrateImport { attrs, .. } => Some(attrs@),
            Item::Fn(f) => Some(f.attrs@),
            Item::ForeignMod { attrs } => Some(attrs@),
            Item::Impl { attrs } => Some(attrs@),
            Item::Macro { attrs, .. } => Some(attrs@),
            Item::Macro2 { attrs, .. } => Some(attrs@),
            Item::Mod(m) => Some(m.attrs@),
            Item::Static { attrs, .. } => Some(attrs@),
            Item::Struct { attrs, .. } => Some(attrs@),
            Item::Trait { attrs, .. } => Some(attrs@),
            Item::TraitAlias { attrs, .. } => Some(attrs@),
            Item::Type { attrs, .. } => Some(attrs@),
            Item::Union { attrs, .. } => Some(attrs@),
            Item::Use { attrs, .. } => Some(attrs@),
            Item::Verbatim => None,
        }
    }

    open spec fn spec_function(&self) -> Option<Function> {
        match self {
            Item::Fn(f) => Some(*f),
            _ => None,
        }
    }

    open spec fn same_shape(a: &Item, b: &Item) -> bool {
        match (a, b) {
            (Item::Const { ident: ia, .. }, Item::Const { ident: ib, .. }) => ia == ib,
            (Item::Enum { ident: ia, .. }, Item::Enum { ident: ib, .. }) => ia == ib,
            (Item::CrateImport { ident: ia, .. }, Item::CrateImport { ident: ib, .. }) => ia
                == ib,
            (Item::Fn(fa), Item::Fn(fb)) => fa.vis == fb.vis && fa.sig == fb.sig && fa.block
                == fb.block,
            (Item::ForeignMod { .. }, Item::ForeignMod { .. }) => true,
            (Item::Impl { .. }, Item::Impl { .. }) => true,
            (Item::Macro { ident: ia, .. }, Item::Macro { ident: ib, .. }) => ia == ib,
            (Item::Macro2 { ident: ia, .. }, Item::Macro2 { ident: ib, .. }) => ia == ib,
            (Item::Mod(ma), Item::Mod(mb)) => ma.ident == mb.ident && ma.content == mb.content,
            (Item::Static { ident: ia, .. }, Item::Static { ident: ib, .. }) => ia == ib,
            (Item::Struct { ident: ia, .. }, Item::Struct { ident: ib, .. }) => ia == ib,
            (Item::Trait { ident: ia, .. }, Item::Trait { ident: ib, .. }) => ia == ib,
            (Item::TraitAlias { ident: ia, .. }, Item::TraitAlias { ident: ib, .. }) => ia
                == ib,
            (Item::Type { ident: ia, .. }, Item::Type { ident: ib, .. }) => ia == ib,
            (Item::Union { ident: ia, .. }, Item::Union { ident: ib, .. }) => ia == ib,
            (Item::Use { tree: ta, .. }, Item::Use { tree: tb, .. }) => ta == tb,
            (Item::Verbatim, Item::Verbatim) => true,
            _ => false,
        }
    }

    open spec fn spec_is_const(&self) -> bool {
        self is Const
    }

    open spec fn spec_is_type(&self) -> bool {
        self is Type
    }

    open spec fn spec_is_macro(&self) -> bool {
        self is Macro
    }

    fn attrs(&self) -> (r: Result<&Vec<Attribute>, Error>) {
        match self {
            Item::Const { attrs, .. } => Ok(attrs),
            Item::Enum { attrs, .. } => Ok(attrs),
            Item::CrateImport { attrs, .. } => Ok(attrs),
            Item::Fn(f) => Ok(&f.attrs),
            Item::ForeignMod { attrs } => Ok(attrs),
            Item::Impl { attrs } => Ok(attrs),
            Item::Macro { attrs, .. } => Ok(attrs),
            Item::Macro2 { attrs, .. } => Ok(attrs),
            Item::Mod(m) => Ok(&m.attrs),
            Item::Static { attrs, .. } => Ok(attrs),
            Item::Struct { attrs, .. } => Ok(attrs),
            Item::Trait { attrs, .. } => Ok(attrs),
            Item::TraitAlias { attrs, .. } => Ok(attrs),
            Item::Type { attrs, .. } => Ok(attrs),
            Item::Union { attrs, .. } => Ok(attrs),
            Item::Use { attrs, .. } => Ok(attrs),
            Item::Verbatim => Err(Error::NoAttrs),
        }
    }

    fn set_attrs(&mut self, new_attrs: Vec<Attribute>) -> (r: Result<(), Error>) {
        match self {
            Item::Const { attrs, .. } => {
                *attrs = new_attrs;
                Ok(())
            },
            Item::Enum { attrs, .. } => {
                *attrs = new_attrs;
                Ok(())
            },
            Item::CrateImport { attrs, .. } => {
                *attrs = new_attrs;
                Ok(())
            },
            Item::Fn(f) => {
                f.attrs = new_attrs;
                Ok(())
            },
            Item::ForeignMod { attrs } => {
                *attrs = new_attrs;
                Ok(())
            },
            Item::Impl { attrs } => {
                *attrs = new_attrs;
                Ok(())
            },
            Item::Macro { attrs, .. } => {
                *attrs = new_attrs;
                Ok(())
            },
            Item::Macro2 { attrs, .. } => {
                *attrs = new_attrs;
                Ok(())
            },
            Item::Mod(m) => {
                m.attrs = new_attrs;
                Ok(())
            },
            Item::Static { attrs, .. } => {
                *attrs = new_attrs;
                Ok(())
            },
            Item::Struct { attrs, .. } => {
                *attrs = new_attrs;
                Ok(())
            },
            Item::Trait { attrs, .. } => {
                *attrs = new_attrs;
                Ok(())
            },
            Item::TraitAlias { attrs, .. } => {
                *attrs = new_attrs;
                Ok(())
            },
            Item::Type { attrs, .. } => {
                *attrs = new_attrs;
                Ok(())
            },
            Item::Union { attrs, .. } => {
                *attrs = new_attrs;
                Ok(())
            },
            Item::Use { attrs, .. } => {
                *attrs = new_attrs;
                Ok(())
            },
            Item::Verbatim => Err(Error::NoAttrs),
        }
    }

    fn function_or_method(&self) -> (r: Result<&Function, Error>) {
        match self {
            Item::Fn(f) => Ok(f),
            _ => Err(Error::NotAFunction),
        }
    }

    fn is_const(&self) -> (r: bool) {
        matches!(self, Item::Const { .. })
    }

    fn is_type(&self) -> (r: bool) {
        matches!(self, Item::Type { .. })
    }

    fn is_macro(&self) -> (r: bool) {
        matches!(self, Item::Macro { .. })
    }
}

impl ItemLike for ImplItem {
    open spec fn spec_attrs(&self) -> Option<Seq<Attribute>> {
        match self {
            ImplItem::Const { attrs, .. } => Some(attrs@),
            ImplItem::Method(f) => Some(f.attrs@),
            ImplItem::Type { attrs, .. } => Some(attrs@),
            ImplItem::Macro { attrs, .. } => Some(attrs@),
            ImplItem::Verbatim => None,
        }
    }

    open spec fn spec_function(&self) -> Option<Function> {
        match self {
            ImplItem::Method(f) => Some(*f),
            _ => None,
        }
    }

    open spec fn same_shape(a: &ImplItem, b: &ImplItem) -> bool {
        match (a, b) {
            (ImplItem::Const { ident: ia, .. }, ImplItem::Const { ident: ib, .. }) => ia == ib,
            (ImplItem::Method(fa), ImplItem::Method(fb)) => fa.vis == fb.vis && fa.sig == fb.sig
                && fa.block == fb.block,
            (ImplItem::Type { ident: ia, .. }, ImplItem::Type { ident: ib, .. }) => ia == ib,
            (ImplItem::Macro { path: pa, .. }, ImplItem::Macro { path: pb, .. }) => pa == pb,
            (ImplItem::Verbatim, ImplItem::Verbatim) => true,
            _ => false,
        }
    }

    open spec fn spec_is_const(&self) -> bool {
        self is Const
    }

    open spec fn spec_is_type(&self) -> bool {
        self is Type
    }

    open spec fn spec_is_macro(&self) -> bool {
        self is Macro
    }

    fn attrs(&self) -> (r: Result<&Vec<Attribute>, Error>) {
        match self {
            ImplItem::Const { attrs, .. } => Ok(attrs),
            ImplItem::Method(f) => Ok(&f.attrs),
            ImplItem::Type { attrs, .. } => Ok(attrs),
            ImplItem::Macro { attrs, .. } => Ok(attrs),
            ImplItem::Verbatim => Err(Error::NoAttrs),
        }
    }

    fn set_attrs(&mut self, new_attrs: Vec<Attribute>) -> (r: Result<(), Error>) {
        match self {
            ImplItem::Const { attrs, .. } => {
                *attrs = new_attrs;
                Ok(())
            },
            ImplItem::Method(f) => {
                f.attrs = new_attrs;
                Ok(())
            },
            ImplItem::Type { attrs, .. } => {
                *attrs = new_attrs;
                Ok(())
            },
            ImplItem::Macro { attrs, .. } => {
                *attrs = new_attrs;
                Ok(())
            },
            ImplItem::Verbatim => Err(Error::NoAttrs),
        }
    }

    fn function_or_method(&self) -> (r: Result<&Function, Error>) {
        match self {
            ImplItem::Method(f) => Ok(f),
            _ => Err(Error::NotAFunction),
        }
    }

    fn is_const(&self) -> (r: bool) {
        matches!(self, ImplItem::Const { .. })
    }

    fn is_type(&self) -> (r: bool) {
        matches!(self, ImplItem::Type { .. })
    }

    fn is_macro(&self) -> (r: bool) {
        matches!(self, ImplItem::Macro { .. })
    }
}

impl ItemLike for TraitItem {
    open spec fn spec_attrs(&self) -> Option<Seq<Attribute>> {
        match self {
            TraitItem::Const { attrs, .. } => Some(attrs@),
            TraitItem::Method(f) => Some(f.attrs@),
            TraitItem::Type { attrs, .. } => Some(attrs@),
            TraitItem::Macro { attrs, .. } => Some(attrs@),
            TraitItem::Verbatim => None,
        }
    }

    open spec fn spec_function(&self) -> Option<Function> {
        match self {
            TraitItem::Method(f) => Some(*f),
            _ => None,
        }
    }

    open spec fn same_shape(a: &TraitItem, b: &TraitItem) -> bool {
        match (a, b) {
            (TraitItem::Const { ident: ia, .. }, TraitItem::Const { ident: ib, .. }) => ia
                == ib,
            (TraitItem::Method(fa), TraitItem::Method(fb)) => fa.vis == fb.vis && fa.sig
                == fb.sig && fa.block == fb.block,
            (TraitItem::Type { ident: ia, .. }, TraitItem::Type { ident: ib, .. }) => ia == ib,
            (TraitItem::Macro { path: pa, .. }, TraitItem::Macro { path: pb, .. }) => pa == pb,
            (TraitItem::Verbatim, TraitItem::Verbatim) => true,
            _ => false,
        }
    }

    open spec fn spec_is_const(&self) -> bool {
        self is Const
    }

    open spec fn spec_is_type(&self) -> bool {
        self is Type
    }

    open spec fn spec_is_macro(&self) -> bool {
        self is Macro
    }

    fn attrs(&self) -> (r: Result<&Vec<Attribute>, Error>) {
        match self {
            TraitItem::Const { attrs, .. } => Ok(attrs),
            TraitItem::Method(f) => Ok(&f.attrs),
            TraitItem::Type { attrs, .. } => Ok(attrs),
            TraitItem::Macro { attrs, .. } => Ok(attrs),
            TraitItem::Verbatim => Err(Error::NoAttrs),
        }
    }

    fn set_attrs(&mut self, new_attrs: Vec<Attribute>) -> (r: Result<(), Error>) {
        match self {
            TraitItem::Const { attrs, .. } => {
                *attrs = new_attrs;
                Ok(())
            },
            TraitItem::Method(f) => {
                f.attrs = new_attrs;
                Ok(())
            },
            TraitItem::Type { attrs, .. } => {
                *attrs = new_attrs;
                Ok(())
            },
            TraitItem::Macro { attrs, .. } => {
                *attrs = new_attrs;
                Ok(())
            },
            TraitItem::Verbatim => Err(Error::NoAttrs),
        }
    }

    fn function_or_method(&self) -> (r: Result<&Function, Error>) {
        match self {
            TraitItem::Method(f) => Ok(f),
            _ => Err(Error::NotAFunction),
        }
    }

    fn is_const(&self) -> (r: bool) {
        matches!(self, TraitItem::Const { .. })
    }

    fn is_type(&self) -> (r: bool) {
        matches!(self, TraitItem::Type { .. })
    }

    fn is_macro(&self) -> (r: bool) {
        matches!(self, TraitItem::Macro { .. })
    }
}

/// Taking an item's attribute list out and handing it back: the two halves
/// of editing attributes separately from the item that carries them.
pub trait ItemAttrExt: ItemLike {
    /// Removes and returns the attributes, leaving an empty list behind;
    /// an error for item kinds that have none.
    fn take_attrs(&mut self) -> (r: Result<Vec<Attribute>, Error>)
        ensures
            match r {
                Ok(a) => old(self).spec_attrs() == Some(a@) && final(self).spec_attrs() == Some(
                    Seq::<Attribute>::empty(),
                ) && Self::same_shape(old(self), final(self)),
                Err(e) => old(self).spec_attrs() is None && e == Error::NoAttrs && *final(self)
                    == *old(self),
            },
    ;
}

impl ItemAttrExt for Item {
    fn take_attrs(&mut self) -> (r: Result<Vec<Attribute>, Error>) {
        let mut taken: Vec<Attribute> = Vec::new();
        match self {
            Item::Const { attrs, .. } => core::mem::swap(attrs, &mut taken),
            Item::Enum { attrs, .. } => core::mem::swap(attrs, &mut taken),
            Item::CrateImport { attrs, .. } => core::mem::swap(attrs, &mut taken),
            Item::Fn(f) => core::mem::swap(&mut f.attrs, &mut taken),
            Item::ForeignMod { attrs } => core::mem::swap(attrs, &mut taken),
            Item::Impl { attrs } => core::mem::swap(attrs, &mut taken),
            Item::Macro { attrs, .. } => core::mem::swap(attrs, &mut taken),
            Item::Macro2 { attrs, .. } => core::mem::swap(attrs, &mut taken),
            Item::Mod(m) => core::mem::swap(&mut m.attrs, &mut taken),
            Item::Static { attrs, .. } => core::mem::swap(attrs, &mut taken),
            Item::Struct { attrs, .. } => core::mem::swap(attrs, &mut taken),
            Item::Trait { attrs, .. } => core::mem::swap(attrs, &mut taken),
            Item::TraitAlias { attrs, .. } => core::mem::swap(attrs, &mut taken),
            Item::Type { attrs, .. } => core::mem::swap(attrs, &mut taken),
            Item::Union { attrs, .. } => core::mem::swap(attrs, &mut taken),
            Item::Use { attrs, .. } => core::mem::swap(attrs, &mut taken),
            Item::Verbatim => {
                return Err(Error::NoAttrs);
            },
        }
        Ok(taken)
    }
}

impl ItemAttrExt for ImplItem {
    fn take_attrs(&mut self) -> (r: Result<Vec<Attribute>, Error>) {
        let mut taken: Vec<Attribute> = Vec::new();
        match self {
            ImplItem::Const { attrs, .. } => core::mem::swap(attrs, &mut taken),
            ImplItem::Method(f) => core::mem::swap(&mut f.attrs, &mut taken),
            ImplItem::Type { attrs, .. } => core::mem::swap(attrs, &mut taken),
            ImplItem::Macro { attrs, .. } => core::mem::swap(attrs, &mut taken),
            ImplItem::Verbatim => {
                return Err(Error::NoAttrs);
            },
        }
        Ok(taken)
    }
}

impl ItemAttrExt for TraitItem {
    fn take_attrs(&mut self) -> (r: Result<Vec<Attribute>, Error>) {
        let mut taken: Vec<Attribute> = Vec::new();
        match self {
            TraitItem::Const { attrs, .. } => core::mem::swap(attrs, &mut taken),
            TraitItem::Method(f) => core::mem::swap(&mut f.attrs, &mut taken),
            TraitItem::Type { attrs, .. } => core::mem::swap(attrs, &mut taken),
            TraitItem::Macro { attrs, .. } => core::mem::swap(attrs, &mut taken),
            TraitItem::Verbatim => {
                return Err(Error::NoAttrs);
            },
        }
        Ok(taken)
    }
}

/// Content access for module items.
pub trait ItemModExt: Sized {
    /// The content items, when the module is inline rather than a
    /// declaration.
    spec fn spec_content(&self) -> Option<Seq<Item>>;

    /// Everything but the content agrees.
    spec fn same_mod_shape(a: &Self, b: &Self) -> bool;

    /// The content items, when the module is inline rather than a
    /// declaration.
    fn items(&self) -> (r: Option<&Vec<Item>>)
        ensures
            match r {
                Some(c) => self.spec_content() == Some(c@),
                None => self.spec_content() is None,
            },
    ;

    /// Replaces the content items; `false` and no change for a declaration.
    fn set_items(&mut self, items: Vec<Item>) -> (r: bool)
        ensures
            old(self).spec_content() is Some ==> r && final(self).spec_content() == Some(items@)
                && Self::same_mod_shape(old(self), final(self)),
            old(self).spec_content() is None ==> !r && *final(self) == *old(self),
    ;
}

impl ItemModExt for ItemMod {
    open spec fn spec_content(&self) -> Option<Seq<Item>> {
        match self.content {
            Some(c) => Some(c@),
            None => None,
        }
    }

    open spec fn same_mod_shape(a: &ItemMod, b: &ItemMod) -> bool {
        a.ident == b.ident && a.attrs == b.attrs
    }

    fn items(&self) -> (r: Option<&Vec<Item>>) {
        match &self.content {
            Some(c) => Some(c),
            None => None,
        }
    }

    fn set_items(&mut self, items: Vec<Item>) -> (r: bool) {
        match &mut self.content {
            Some(c) => {
                *c = items;
                true
            },
            None => false,
        }
    }
}

/// The identifier of an item, where it has a usable one: `impl` blocks have
/// none, a `use` names one only when it brings in a single plain name, and a
/// macro invocation names one only when it binds one.
pub open spec fn spec_item_ident(i: &Item) -> Option<Seq<char>> {
    match i {
        Item::Const { ident, .. } => Some(ident@),
        Item::Enum { ident, .. } => Some(ident@),
        Item::CrateImport { ident, .. } => Some(ident@),
        Item::Fn(f) => Some(f.sig.ident@),
        Item::ForeignMod { .. } => None,
        Item::Impl { .. } => None,
        Item::Macro { ident, .. } => match ident {
            Some(s) => Some(s@),
            None => None,
        },
        Item::Macro2 { ident, .. } => Some(ident@),
        Item::Mod(m) => Some(m.ident@),
        Item::Static { ident, .. } => Some(ident@),
        Item::Struct { ident, .. } => Some(ident@),
        Item::Trait { ident, .. } => Some(ident@),
        Item::TraitAlias { ident, .. } => Some(ident@),
        Item::Type { ident, .. } => Some(ident@),
        Item::Union { ident, .. } => Some(ident@),
        Item::Use { tree, .. } => match tree {
            UseTree::Name(s) => Some(s@),
            UseTree::Other => None,
        },
        Item::Verbatim => None,
    }
}

impl GetIdent for Item {
    open spec fn spec_get_ident(&self) -> Option<Seq<char>> {
        spec_item_ident(self)
    }

    /// The item's name, if it has one.
    fn get_ident(&self) -> (r: Option<&String>) {
        match self {
            Item::Const { ident, .. } => Some(ident),
            Item::Enum { ident, .. } => Some(ident),
            Item::CrateImport { ident, .. } => Some(ident),
            Item::Fn(f) => Some(&f.sig.ident),
            Item::ForeignMod { .. } => None,
            Item::Impl { .. } => None,
            Item::Macro { ident, .. } => match ident {
                Some(s) => Some(s),
                None => None,
            },
            Item::Macro2 { ident, .. } => Some(ident),
            Item::Mod(m) => Some(&m.ident),
            Item::Static { ident, .. } => Some(ident),
            Item::Struct { ident, .. } => Some(ident),
            Item::Trait { ident, .. } => Some(ident),
            Item::TraitAlias { ident, .. } => Some(ident),
            Item::Type { ident, .. } => Some(ident),
            Item::Union { ident, .. } => Some(ident),
            Item::Use { tree, .. } => match tree {
                UseTree::Name(s) => Some(s),
                UseTree::Other => None,
            },
            Item::Verbatim => None,
        }
    }
}

impl GetIdent for ImplItem {
    open spec fn spec_get_ident(&self) -> Option<Seq<char>> {
        match self {
            ImplItem::Const { ident, .. } => Some(ident@),
            ImplItem::Method(f) => Some(f.sig.ident@),
            ImplItem::Type { ident, .. } => Some(ident@),
            ImplItem::Macro { path, .. } => spec_path_ident(path@),
            ImplItem::Verbatim => None,
        }
    }

    /// The item's name, if it has one.
    fn get_ident(&self) -> (r: Option<&String>) {
        match self {
            ImplItem::Const { ident, .. } => Some(ident),
            ImplItem::Method(f) => Some(&f.sig.ident),
            ImplItem::Type { ident, .. } => Some(ident),
            ImplItem::Macro { path, .. } => path.get_ident(),
            ImplItem::Verbatim => None,
        }
    }
}

impl GetIdent for TraitItem {
    open spec fn spec_get_ident(&self) -> Option<Seq<char>> {
        match self {
            TraitItem::Const { ident, .. } => Some(ident@),
            TraitItem::Method(f) => Some(f.sig.ident@),
            TraitItem::Type { ident, .. } => Some(ident@),
            TraitItem::Macro { path, .. } => spec_path_ident(path@),
            TraitItem::Verbatim => None,
        }
    }

    /// The item's name, if it has one.
    fn get_ident(&self) -> (r: Option<&String>) {
        match self {
            TraitItem::Const { ident, .. } => Some(ident),
            TraitItem::Method(f) => Some(&f.sig.ident),
            TraitItem::Type { ident, .. } => Some(ident),
            TraitItem::Macro { path, .. } => path.get_ident(),
            TraitItem::Verbatim => None,
        }
    }
}

/// Accessors shared by function-shaped items.
pub trait FunctionLike {
    /// The attribute list.
    spec fn spec_fn_attrs(&self) -> Seq<Attribute>;

    /// The visibility.
    spec fn spec_vis(&self) -> Visibility;

    /// The signature.
    spec fn spec_sig(&self) -> Signature;

    /// The body, when there is one.
    spec fn spec_block(&self) -> Option<Block>;

    /// The function's attributes.
    fn attrs(&self) -> (r: &Vec<Attribute>)
        ensures
            r@ == self.spec_fn_attrs(),
    ;

    /// Replaces the function's attributes, leaving everything else alone.
    fn set_attrs(&mut self, attrs: Vec<Attribute>)
        ensures
            final(self).spec_fn_attrs() == attrs@,
            final(self).spec_vis() == old(self).spec_vis(),
            final(self).spec_sig() == old(self).spec_sig(),
            final(self).spec_block() == old(self).spec_block(),
    ;

    /// The function's visibility.
    fn vis(&self) -> (r: &Visibility)
        ensures
            *r == self.spec_vis(),
    ;

    /// The function's signature.
    fn sig(&self) -> (r: &Signature)
        ensures
            *r == self.spec_sig(),
    ;

    /// The function's body, when it has one.
    fn block(&self) -> (r: Option<&Block>)
        ensures
            match r {
                Some(b) => self.spec_block() == Some(*b),
                None => self.spec_block() is None,
            },
    ;
}

impl FunctionLike for Function {
    open spec fn spec_fn_attrs(&self) -> Seq<Attribute> {
        self.attrs@
    }

    open spec fn spec_vis(&self) -> Visibility {
        self.vis
    }

    open spec fn spec_sig(&self) -> Signature {
        self.sig
    }

    open spec fn spec_block(&self) -> Option<Block> {
        self.block
    }

    fn attrs(&self) -> (r: &Vec<Attribute>) {
        &self.attrs
    }

    fn set_attrs(&mut self, attrs: Vec<Attribute>) {
        self.attrs = attrs;
    }

    fn vis(&self) -> (r: &Visibility) {
        &self.vis
    }

    fn sig(&self) -> (r: &Signature) {
        &self.sig
    }

    fn block(&self) -> (r: Option<&Block>) {
        match &self.block {
            Some(b) => Some(b),
            None => None,
        }
    }
}

} // verus!
