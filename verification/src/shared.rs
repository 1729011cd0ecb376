//! A shared empty value of a type, handed out by reference.

use vstd::prelude::*;

verus! {

/// Types that can hand out a reference to one shared empty value.
pub trait SharedEmpty {
    /// A reference to the shared empty value.
    fn empty_ref() -> &'static Self;
}

} // verus!
