//! The error type shared by the parsing, accessor, and map-building code.

use vstd::prelude::*;

verus! {

/// Everything that can go wrong while lexing or parsing attribute metadata,
/// or while using an accessor on the wrong kind of value.
#[derive(Clone, Copy, PartialEq, Eq, Structural, Debug)]
pub enum Error {
    /// A character the lexer does not know, at the given character offset.
    UnexpectedCharacter { pos: usize },
    /// A string literal whose closing quote is missing.
    UnterminatedString { pos: usize },
    /// An integer literal that does not fit in 64 bits.
    IntegerOverflow { pos: usize },
    /// A lone `:` where only `::` is meaningful.
    LoneColon { pos: usize },
    /// No path where one was required (token offset).
    ExpectedPath { at: usize },
    /// A `::` with no following segment (token offset).
    ExpectedPathSegment { at: usize },
    /// Something other than an identifier or a literal in a nested position.
    ExpectedIdentOrLit { at: usize },
    /// A nested item not followed by `,` or `)`.
    ExpectedCommaOrParen { at: usize },
    /// `=` not followed by a literal value.
    ExpectedLit { at: usize },
    /// Tokens left over after a complete meta item.
    TrailingTokens { at: usize },
    /// An accessor for list metas applied to a non-list meta.
    NotAList,
    /// An accessor for name-value metas applied to another kind of meta.
    NotANameValue,
    /// A doc accessor applied to a meta that is not `doc = ...`.
    NotADoc,
    /// A `doc` meta whose value is not a string literal.
    DocExpectsStrLit,
    /// Promotion applied to a name-value meta.
    CannotPromote,
    /// Two entries with the same path where paths must be unique; carries the
    /// input index of the first entry with the repeated path.
    DuplicatePath { first: usize },
    /// An item kind that carries no attribute list.
    NoAttrs,
    /// An item that is not a function or method.
    NotAFunction,
}

impl Error {
    /// A human-readable description of the error.
    pub fn message(&self) -> (r: &'static str)
        ensures
            match self {
                Error::UnexpectedCharacter { .. } => r@ == "unexpected character"@,
                Error::UnterminatedString { .. } => r@ == "unterminated string literal"@,
                Error::IntegerOverflow { .. } => r@ == "integer literal too large"@,
                Error::LoneColon { .. } => r@ == "expected `::`"@,
                Error::ExpectedPath { .. } => r@ == "expected path"@,
                Error::ExpectedPathSegment { .. } => r@ == "expected path segment"@,
                Error::ExpectedIdentOrLit { .. } => r@ == "expected identifier or literal"@,
                Error::ExpectedCommaOrParen { .. } => r@ == "expected `,` or `)`"@,
                Error::ExpectedLit { .. } => r@ == "expected literal value"@,
                Error::TrailingTokens { .. } => r@ == "unexpected trailing tokens"@,
                Error::NotAList => r@ == "Not a List meta"@,
                Error::NotANameValue => r@ == "Not a NameValue meta"@,
                Error::NotADoc => r@ == "Not a doc meta"@,
                Error::DocExpectsStrLit => r@ == "Doc meta expects string literal"@,
                Error::CannotPromote => r@
                    == "Only Path can be promoted and List is accepted as non-promoted"@,
                Error::DuplicatePath { .. } => r@
                    == "this attribute path must be unique in the attribute"@,
                Error::NoAttrs => r@ == "this kind of item doesn't have attrs"@,
                Error::NotAFunction => r@ == "this item is not a function or method"@,
            },
    {
        match self {
            Error::UnexpectedCharacter { .. } => "unexpected character",
            Error::UnterminatedString { .. } => "unterminated string literal",
            Error::IntegerOverflow { .. } => "integer literal too large",
            Error::LoneColon { .. } => "expected `::`",
            Error::ExpectedPath { .. } => "expected path",
            Error::ExpectedPathSegment { .. } => "expected path segment",
            Error::ExpectedIdentOrLit { .. } => "expected identifier or literal",
            Error::ExpectedCommaOrParen { .. } => "expected `,` or `)`",
            Error::ExpectedLit { .. } => "expected literal value",
            Error::TrailingTokens { .. } => "unexpected trailing tokens",
            Error::NotAList => "Not a List meta",
            Error::NotANameValue => "Not a NameValue meta",
            Error::NotADoc => "Not a doc meta",
            Error::DocExpectsStrLit => "Doc meta expects string literal",
            Error::CannotPromote => {
                "Only Path can be promoted and List is accepted as non-promoted"
            },
            Error::DuplicatePath { .. } => {
                "this attribute path must be unique in the attribute"
            },
            Error::NoAttrs => "this kind of item doesn't have attrs",
            Error::NotAFunction => "this item is not a function or method",
        }
    }
}

} // verus!
