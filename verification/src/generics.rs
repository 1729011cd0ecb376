//! Generic parameters and their identifier accessor.

use vstd::prelude::*;
use crate::path::GetIdent;

verus! {

/// One generic parameter: a type, a lifetime, or a const parameter. Each one
/// is named, so each one has an identifier.
pub enum GenericParam {
    Type { ident: String },
    Lifetime { ident: String },
    Const { ident: String },
}

impl GetIdent for GenericParam {
    open spec fn spec_get_ident(&self) -> Option<Seq<char>> {
        match self {
            GenericParam::Type { ident } => Some(ident@),
            GenericParam::Lifetime { ident } => Some(ident@),
            GenericParam::Const { ident } => Some(ident@),
        }
    }

    /// The parameter's name.
    fn get_ident(&self) -> (r: Option<&String>) {
        match self {
            GenericParam::Type { ident } => Some(ident),
            GenericParam::Lifetime { ident } => Some(ident),
            GenericParam::Const { ident } => Some(ident),
        }
    }
}

} // verus!
