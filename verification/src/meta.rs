//! The structured-attribute data model: metadata items, literal values,
//! nested lists, and the accessors that read and reshape them.

use vstd::prelude::*;
use crate::error::Error;
use crate::path::{GetPath, Path, PathV, spec_path_ident, wf_path};
use crate::text::{chars_to_string, spec_trim, str_to_chars, trim_chars, wf_ident};

verus! {

/// A literal value of the attribute micro-language.
#[derive(Debug, PartialEq, Eq)]
pub enum Lit {
    /// A string literal such as `"full"`.
    Str(String),
    /// An unsigned integer literal such as `7`.
    Int(u64),
    /// `true` or `false`.
    Bool(bool),
}

/// The mathematical value of a [`Lit`].
#[verifier::ext_equal]
pub enum LitV {
    Str(Seq<char>),
    Int(u64),
    Bool(bool),
}

impl View for Lit {
    type V = LitV;

    open spec fn view(&self) -> LitV {
        match self {
            Lit::Str(s) => LitV::Str(s@),
            Lit::Int(n) => LitV::Int(*n),
            Lit::Bool(b) => LitV::Bool(*b),
        }
    }
}

/// A `path = literal` metadata item.
#[derive(Debug, PartialEq, Eq)]
pub struct MetaNameValue {
    pub path: Path,
    pub value: Lit,
}

/// The mathematical value of a [`MetaNameValue`].
#[verifier::ext_equal]
pub struct MetaNameValueV {
    pub path: PathV,
    pub value: LitV,
}

impl View for MetaNameValue {
    type V = MetaNameValueV;

    open spec fn view(&self) -> MetaNameValueV {
        MetaNameValueV { path: self.path@, value: self.value@ }
    }
}

/// A `path(...)` metadata item: a path followed by nested items in
/// parentheses. Whether the source spelled a comma after the last element is
/// kept, so printing reproduces the tokens that were parsed.
#[derive(Debug, PartialEq, Eq)]
pub struct MetaList1 {
    pub path: Path,
    pub nested: Vec<NestedMeta>,
    pub trailing_comma: bool,
}

/// The mathematical value of a [`MetaList1`].
#[verifier::ext_equal]
pub struct MetaListV {
    pub path: PathV,
    pub nested: Seq<NestedMetaV>,
    pub trailing_comma: bool,
}

/// One metadata item: a bare path, a parenthesised list, or a name-value
/// pair.
#[derive(Debug, PartialEq, Eq)]
pub enum Meta1 {
    Path(Path),
    List(MetaList1),
    NameValue(MetaNameValue),
}

/// The mathematical value of a [`Meta1`].
#[verifier::ext_equal]
pub enum MetaV {
    Path(PathV),
    List(MetaListV),
    NameValue(MetaNameValueV),
}

/// One element of a metadata list: a nested metadata item or a bare literal.
#[derive(Debug, PartialEq, Eq)]
pub enum NestedMeta {
    Meta(Meta1),
    Lit(Lit),
}

/// The mathematical value of a [`NestedMeta`].
#[verifier::ext_equal]
pub enum NestedMetaV {
    Meta(MetaV),
    Lit(LitV),
}

/// The nested-item list type used by [`MetaList1`].
pub type PunctuatedNestedMeta = Vec<NestedMeta>;

/// The values of a sequence of nested elements, element by element.
pub open spec fn nested_views(s: Seq<NestedMeta>) -> Seq<NestedMetaV>
    decreases s,
{
    if s.len() == 0 {
        Seq::empty()
    } else {
        seq![s[0]@] + nested_views(s.drop_first())
    }
}

/// `nested_views` maps the view over the sequence, index by index.
pub proof fn lemma_nested_views(s: Seq<NestedMeta>)
    ensures
        nested_views(s).len() == s.len(),
        forall|i: int| 0 <= i < s.len() ==> #[trigger] nested_views(s)[i] == s[i]@,
    decreases s.len(),
{
    if s.len() > 0 {
        lemma_nested_views(s.drop_first());
        assert(nested_views(s) == seq![s[0]@] + nested_views(s.drop_first()));
        assert forall|i: int| 0 <= i < s.len() implies #[trigger] nested_views(s)[i] == s[i]@ by {
            if i > 0 {
                assert(nested_views(s)[i] == (seq![s[0]@] + nested_views(s.drop_first()))[i]);
                assert((seq![s[0]@] + nested_views(s.drop_first()))[i] == nested_views(
                    s.drop_first(),
                )[i - 1]);
                assert(s.drop_first()[i - 1] == s[i]);
            }
        }
    }
}

impl View for MetaList1 {
    type V = MetaListV;

    open spec fn view(&self) -> MetaListV
        decreases self,
    {
        MetaListV {
            path: self.path@,
            nested: nested_views(self.nested@),
            trailing_comma: self.trailing_comma,
        }
    }
}

impl View for Meta1 {
    type V = MetaV;

    open spec fn view(&self) -> MetaV
        decreases self,
    {
        match self {
            Meta1::Path(p) => MetaV::Path(p@),
            Meta1::List(l) => MetaV::List(l@),
            Meta1::NameValue(nv) => MetaV::NameValue(nv@),
        }
    }
}

impl View for NestedMeta {
    type V = NestedMetaV;

    open spec fn view(&self) -> NestedMetaV
        decreases self,
    {
        match self {
            NestedMeta::Meta(m) => NestedMetaV::Meta(m@),
            NestedMeta::Lit(l) => NestedMetaV::Lit(l@),
        }
    }
}

/// The characters of the keyword `true`.
pub open spec fn true_chars() -> Seq<char> {
    seq!['t', 'r', 'u', 'e']
}

/// The characters of the keyword `false`.
pub open spec fn false_chars() -> Seq<char> {
    seq!['f', 'a', 'l', 's', 'e']
}

/// The characters of the identifier `doc`.
pub open spec fn doc_chars() -> Seq<char> {
    seq!['d', 'o', 'c']
}

/// Whether a meta can stand in a nested position at all: a path whose first
/// bare segment is the keyword `true` or `false` reads as a boolean literal
/// there, except directly before `=`, so only a one-segment name-value pair
/// may start that way.
pub open spec fn keyword_safe(m: MetaV) -> bool {
    let p = spec_meta_path(m);
    if p.leading_colon || p.segments.len() == 0 {
        true
    } else if p.segments[0] == true_chars() || p.segments[0] == false_chars() {
        m is NameValue && p.segments.len() == 1
    } else {
        true
    }
}

/// The path of a metadata item, whatever its kind.
pub open spec fn spec_meta_path(m: MetaV) -> PathV {
    match m {
        MetaV::Path(p) => p,
        MetaV::List(l) => l.path,
        MetaV::NameValue(nv) => nv.path,
    }
}

/// Well-formed metadata: all paths are well-formed, and no nested element
/// hides a boolean keyword in path clothing.
pub open spec fn wf_meta(m: MetaV) -> bool
    decreases m,
{
    match m {
        MetaV::Path(p) => wf_path(p),
        MetaV::List(l) => wf_path(l.path) && (l.trailing_comma ==> l.nested.len() > 0)
            && forall|i: int| 0 <= i < l.nested.len() ==> wf_nested(#[trigger] l.nested[i]),
        MetaV::NameValue(nv) => wf_path(nv.path),
    }
}

/// Well-formed nested element: literals always, metas when well-formed and
/// not beginning with a bare boolean keyword the parser would read as a
/// literal.
pub open spec fn wf_nested(n: NestedMetaV) -> bool
    decreases n,
{
    match n {
        NestedMetaV::Meta(m) => wf_meta(m) && keyword_safe(m),
        NestedMetaV::Lit(_) => true,
    }
}

/// Whether a meta reads `doc = "..."`.
pub open spec fn spec_is_doc(m: MetaV) -> bool {
    match m {
        MetaV::NameValue(nv) => spec_path_ident(nv.path) == Some(doc_chars())
            && nv.value is Str,
        _ => false,
    }
}

impl Meta1 {
    /// The path of the item, whatever its kind.
    pub fn path(&self) -> (r: &Path)
        ensures
            r@ == spec_meta_path(self@),
    {
        match self {
            Meta1::Path(path) => path,
            Meta1::List(list) => &list.path,
            Meta1::NameValue(nv) => &nv.path,
        }
    }
}

/// Extension accessors for metadata items.
pub trait MetaExt: View<V = MetaV> + Sized {
    /// Returns `true` if the item is a bare path.
    fn is_path(&self) -> (r: bool)
        ensures
            r == (self@ is Path),
    ;

    /// Returns `true` if the item is a parenthesised list.
    fn is_list(&self) -> (r: bool)
        ensures
            r == (self@ is List),
    ;

    /// Returns `true` if the item is a name-value pair.
    fn is_name_value(&self) -> (r: bool)
        ensures
            r == (self@ is NameValue),
    ;

    /// Returns `true` if the item reads `doc = "..."`.
    fn is_doc(&self) -> (r: bool)
        ensures
            r == spec_is_doc(self@),
    ;

    /// Promotes a bare path to an empty list in place. A bare path can be
    /// regarded as an empty list; a list is accepted unchanged; a name-value
    /// pair cannot be promoted.
    fn promote_to_list(&mut self) -> (r: Result<(), Error>)
        ensures
            match old(self)@ {
                MetaV::Path(p) => r matches Ok(()) && final(self)@ == MetaV::List(
                    MetaListV { path: p, nested: Seq::empty(), trailing_comma: false },
                ),
                MetaV::List(_) => r matches Ok(()) && final(self)@ == old(self)@,
                MetaV::NameValue(_) => r == Err::<(), Error>(Error::CannotPromote)
                    && final(self)@ == old(self)@,
            },
    ;

    /// The inner list of a list item; an error for any other kind.
    fn list(&self) -> (r: Result<&MetaList1, Error>)
        ensures
            match r {
                Ok(l) => self@ == MetaV::List(l@),
                Err(e) => !(self@ is List) && e == Error::NotAList,
            },
    ;

    /// The inner name-value pair of a name-value item; an error for any
    /// other kind.
    fn name_value(&self) -> (r: Result<&MetaNameValue, Error>)
        ensures
            match r {
                Ok(nv) => self@ == MetaV::NameValue(nv@),
                Err(e) => !(self@ is NameValue) && e == Error::NotANameValue,
            },
    ;

    /// The trimmed content of a `doc = "..."` item; an error naming what is
    /// wrong for every other kind of item.
    fn doc(&self) -> (r: Result<String, Error>)
        ensures
            match self@ {
                MetaV::NameValue(nv) => {
                    if spec_path_ident(nv.path) == Some(doc_chars()) {
                        match nv.value {
                            LitV::Str(s) => r matches Ok(d) && d@ == spec_trim(s),
                            _ => r == Err::<String, Error>(Error::DocExpectsStrLit),
                        }
                    } else {
                        r == Err::<String, Error>(Error::NotADoc)
                    }
                },
                _ => r == Err::<String, Error>(Error::NotANameValue),
            },
    ;
}

impl MetaExt for Meta1 {
    fn is_path(&self) -> (r: bool) {
        matches!(self, Meta1::Path(_))
    }

    fn is_list(&self) -> (r: bool) {
        matches!(self, Meta1::List(_))
    }

    fn is_name_value(&self) -> (r: bool) {
        matches!(self, Meta1::NameValue(_))
    }

    fn is_doc(&self) -> (r: bool) {
        proof {
            reveal_strlit("doc");
            assert("doc"@ =~= doc_chars());
        }
        match self {
            Meta1::NameValue(nv) => nv.path.is_ident("doc") && matches!(nv.value, Lit::Str(_)),
            _ => false,
        }
    }

    fn promote_to_list(&mut self) -> (r: Result<(), Error>) {
        match self {
            Meta1::Path(p) => {
                let path = p.clone();
                *self = Meta1::List(
                    MetaList1 { path, nested: Vec::new(), trailing_comma: false },
                );
                proof {
                    assert(match self@ {
                        MetaV::List(l) => l.nested =~= Seq::<NestedMetaV>::empty(),
                        _ => false,
                    });
                }
                Ok(())
            },
            Meta1::List(_) => Ok(()),
            Meta1::NameValue(_) => Err(Error::CannotPromote),
        }
    }

    fn list(&self) -> (r: Result<&MetaList1, Error>) {
        match self {
            Meta1::List(list) => Ok(list),
            _ => Err(Error::NotAList),
        }
    }

    fn name_value(&self) -> (r: Result<&MetaNameValue, Error>) {
        match self {
            Meta1::NameValue(nv) => Ok(nv),
            _ => Err(Error::NotANameValue),
        }
    }

    fn doc(&self) -> (r: Result<String, Error>) {
        proof {
            reveal_strlit("doc");
            assert("doc"@ =~= doc_chars());
        }
        let nv = match self.name_value() {
            Ok(nv) => nv,
            Err(e) => {
                return Err(e);
            },
        };
        if !nv.path.is_ident("doc") {
            return Err(Error::NotADoc);
        }
        match &nv.value {
            Lit::Str(s) => {
                let chars = str_to_chars(s.as_str());
                let trimmed = trim_chars(&chars);
                Ok(chars_to_string(&trimmed))
            },
            _ => Err(Error::DocExpectsStrLit),
        }
    }
}

impl GetPath for NestedMeta {
    open spec fn spec_get_path(&self) -> Option<PathV> {
        match self@ {
            NestedMetaV::Meta(m) => Some(spec_meta_path(m)),
            NestedMetaV::Lit(_) => None,
        }
    }

    /// The path of a nested metadata item; `None` for a literal.
    fn get_path(&self) -> (r: Option<&Path>) {
        match self {
            NestedMeta::Meta(meta) => Some(meta.path()),
            NestedMeta::Lit(_) => None,
        }
    }
}

impl crate::path::GetIdent for Meta1 {
    open spec fn spec_get_ident(&self) -> Option<Seq<char>> {
        spec_path_ident(spec_meta_path(self@))
    }

    /// The single identifier of the item's path, if it is one.
    fn get_ident(&self) -> (r: Option<&String>) {
        self.path().get_ident()
    }
}

impl Clone for Lit {
    /// Cloning keeps the literal's value.
    fn clone(&self) -> (r: Self)
        ensures
            r@ == self@,
    {
        match self {
            Lit::Str(s) => Lit::Str(s.clone()),
            Lit::Int(n) => Lit::Int(*n),
            Lit::Bool(b) => Lit::Bool(*b),
        }
    }
}

fn deep_copy_meta(m: &Meta1) -> (r: Meta1)
    ensures
        r@ == m@,
    decreases m,
{
    match m {
        Meta1::Path(p) => Meta1::Path(p.clone()),
        Meta1::List(l) => Meta1::List(deep_copy_list(l)),
        Meta1::NameValue(nv) => Meta1::NameValue(
            MetaNameValue { path: nv.path.clone(), value: nv.value.clone() },
        ),
    }
}

fn deep_copy_list(l: &MetaList1) -> (r: MetaList1)
    ensures
        r@ == l@,
    decreases l,
{
    let path = l.path.clone();
    let mut nested: Vec<NestedMeta> = Vec::new();
    let mut k: usize = 0;
    while k < l.nested.len()
        invariant
            k <= l.nested.len(),
            nested@.len() == k,
            forall|j: int| 0 <= j < k ==> #[trigger] nested@[j]@ == l.nested@[j]@,
        decreases l.nested.len() - k,
    {
        nested.push(deep_copy_nested(&l.nested[k]));
        k = k + 1;
    }
    proof {
        lemma_nested_views(nested@);
        lemma_nested_views(l.nested@);
        assert(nested_views(nested@) =~= nested_views(l.nested@));
    }
    let r = MetaList1 { path, nested, trailing_comma: l.trailing_comma };
    proof {
        assert(r@ =~= l@);
    }
    r
}

fn deep_copy_nested(n: &NestedMeta) -> (r: NestedMeta)
    ensures
        r@ == n@,
    decreases n,
{
    match n {
        NestedMeta::Meta(m) => NestedMeta::Meta(deep_copy_meta(m)),
        NestedMeta::Lit(l) => NestedMeta::Lit(l.clone()),
    }
}

impl Clone for Meta1 {
    /// Cloning keeps the item's value.
    fn clone(&self) -> (r: Self)
        ensures
            r@ == self@,
    {
        deep_copy_meta(self)
    }
}

impl Clone for MetaList1 {
    /// Cloning keeps the list's value.
    fn clone(&self) -> (r: Self)
        ensures
            r@ == self@,
    {
        deep_copy_list(self)
    }
}

impl Clone for MetaNameValue {
    /// Cloning keeps the pair's value.
    fn clone(&self) -> (r: Self)
        ensures
            r@ == self@,
    {
        MetaNameValue { path: self.path.clone(), value: self.value.clone() }
    }
}

impl Clone for NestedMeta {
    /// Cloning keeps the element's value.
    fn clone(&self) -> (r: Self)
        ensures
            r@ == self@,
    {
        deep_copy_nested(self)
    }
}

} // verus!
