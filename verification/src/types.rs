//! The data types of the structured-attribute model, under their short
//! names.

pub use crate::meta::{Meta1 as Meta, MetaList1 as MetaList, NestedMeta, PunctuatedNestedMeta};
