//! Convenience accessors and structured-attribute tooling for a small model
//! of Rust attribute metadata.
//!
//! The crate models attribute contents (`cfg(all(a, b))`, `doc = "..."`,
//! plain paths) as its own data types, parses and prints the structured
//! micro-language those contents are written in, and builds maps keyed by
//! path from lists of nested metadata items.
//!
//! The parser and printer are proved inverse to each other: parsing the
//! canonical text of any well-formed metadata item returns exactly that
//! item, and whatever the parser accepts prints back to the very token
//! sequence its source lexed to, trailing commas included, and so parses
//! again unchanged (see [`roundtrip`]).

pub mod attribute;
pub mod error;
pub mod generics;
pub mod item;
pub mod maps;
pub mod meta;
pub mod parse;
pub mod path;
pub mod punctuated;
pub mod print;
pub mod roundtrip;
pub mod shared;
pub mod text;
pub mod token;
pub mod types;
pub mod util;

pub use attribute::{Attribute, AttributeExt, AttributeIteratorExt, IntoAttribute, MetaAttributeExt};
pub use error::Error;
pub use generics::GenericParam;
pub use punctuated::PunctuatedExt;
pub use shared::SharedEmpty;
pub use util::UnwrapOrDefault;
pub use item::{Block, Function, FunctionLike, ImplItem, Item, ItemAttrExt, ItemLike, ItemMod, ItemModExt, Signature, TraitItem, UseTree, Visibility};
pub use maps::{MetaIteratorExt, MultiMetaMap, NestedMetaIteratorExt, NestedMetaRefIteratorExt, UniqueMetaMap, multi_map_get, unique_map_get};
pub use meta::{
    Lit, Meta1, MetaExt, MetaList1, MetaNameValue, NestedMeta, PunctuatedNestedMeta,
};
pub use path::{GetIdent, GetPath, Path};
pub use token::Tok;
pub use text::{chars_to_string, str_to_chars};
