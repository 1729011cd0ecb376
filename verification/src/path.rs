//! Simple paths (`a`, `::a::b`, `abc::de::ef`) and the accessor traits that
//! read a path or its single identifier out of larger values.

use vstd::prelude::*;
use crate::text::wf_ident;

verus! {

/// A simple path of the attribute micro-language: an optional leading `::`
/// followed by one or more identifier segments.
#[derive(Debug, PartialEq, Eq)]
pub struct Path {
    pub leading_colon: bool,
    pub segments: Vec<String>,
}

/// The mathematical value of a [`Path`].
#[verifier::ext_equal]
pub struct PathV {
    pub leading_colon: bool,
    pub segments: Seq<Seq<char>>,
}

impl View for Path {
    type V = PathV;

    open spec fn view(&self) -> PathV {
        PathV {
            leading_colon: self.leading_colon,
            segments: self.segments@.map_values(|s: String| s@),
        }
    }
}

/// A well-formed path: at least one segment, all of them identifiers.
pub open spec fn wf_path(p: PathV) -> bool {
    &&& p.segments.len() > 0
    &&& forall|i: int| 0 <= i < p.segments.len() ==> wf_ident(#[trigger] p.segments[i])
}

/// The identifier of a path that is exactly one bare segment, if so.
pub open spec fn spec_path_ident(p: PathV) -> Option<Seq<char>> {
    if !p.leading_colon && p.segments.len() == 1 {
        Some(p.segments[0])
    } else {
        None
    }
}

impl Path {
    /// The identifier the path consists of, when it is a single bare segment.
    pub fn get_ident(&self) -> (r: Option<&String>)
        ensures
            match r {
                Some(s) => spec_path_ident(self@) == Some(s@),
                None => spec_path_ident(self@) is None,
            },
    {
        if !self.leading_colon && self.segments.len() == 1 {
            Some(&self.segments[0])
        } else {
            None
        }
    }

    /// Whether the path is a single bare segment equal to `name`.
    pub fn is_ident(&self, name: &str) -> (r: bool)
        ensures
            r == (spec_path_ident(self@) == Some(name@)),
    {
        match self.get_ident() {
            Some(s) => crate::text::str_eq(s.as_str(), name),
            None => false,
        }
    }
}

impl Clone for Path {
    /// Cloning keeps the path's value.
    fn clone(&self) -> (r: Self)
        ensures
            r@ == self@,
    {
        let mut segments: Vec<String> = Vec::new();
        let mut i: usize = 0;
        while i < self.segments.len()
            invariant
                i <= self.segments.len(),
                segments@.len() == i,
                forall|k: int| 0 <= k < i ==> #[trigger] segments@[k] == self.segments@[k],
            decreases self.segments.len() - i,
        {
            segments.push(self.segments[i].clone());
            i = i + 1;
        }
        let r = Path { leading_colon: self.leading_colon, segments };
        assert(r@ =~= self@);
        r
    }
}

/// Shortcut to read a [`Path`] out of various kinds of values.
pub trait GetPath {
    /// The path the value carries, if any.
    spec fn spec_get_path(&self) -> Option<PathV>;

    /// Returns the value's path if it has one.
    fn get_path(&self) -> (r: Option<&Path>)
        ensures
            match r {
                Some(p) => self.spec_get_path() == Some(p@),
                None => self.spec_get_path() is None,
            },
    ;
}

/// Shortcut to read an identifier out of various kinds of values.
pub trait GetIdent {
    /// The identifier the value carries, if any.
    spec fn spec_get_ident(&self) -> Option<Seq<char>>;

    /// Returns the value's identifier if it has one.
    fn get_ident(&self) -> (r: Option<&String>)
        ensures
            match r {
                Some(s) => self.spec_get_ident() == Some(s@),
                None => self.spec_get_ident() is None,
            },
    ;
}

/// Anything that exposes a path exposes that path's single identifier.
impl<T: GetPath> GetIdent for T {
    open spec fn spec_get_ident(&self) -> Option<Seq<char>> {
        match self.spec_get_path() {
            Some(p) => spec_path_ident(p),
            None => None,
        }
    }

    fn get_ident(&self) -> (r: Option<&String>) {
        match self.get_path() {
            Some(p) => p.get_ident(),
            None => None,
        }
    }
}

impl Path {
    /// Structural equality of two paths.
    pub fn eq_path(&self, other: &Path) -> (r: bool)
        ensures
            r == (self@ == other@),
    {
        if self.leading_colon != other.leading_colon {
            return false;
        }
        if self.segments.len() != other.segments.len() {
            proof {
                assert(self@.segments.len() != other@.segments.len());
            }
            return false;
        }
        let mut i: usize = 0;
        while i < self.segments.len()
            invariant
                i <= self.segments.len(),
                self.segments.len() == other.segments.len(),
                self.leading_colon == other.leading_colon,
                forall|k: int| 0 <= k < i ==> #[trigger] self.segments@[k]@
                    == other.segments@[k]@,
            decreases self.segments.len() - i,
        {
            if !crate::text::str_eq(self.segments[i].as_str(), other.segments[i].as_str()) {
                proof {
                    assert(self@.segments[i as int] != other@.segments[i as int]);
                }
                return false;
            }
            i = i + 1;
        }
        proof {
            assert(self@ =~= other@);
        }
        true
    }
}

} // verus!
