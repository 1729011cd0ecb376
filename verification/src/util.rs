//! Small utility traits.

use vstd::prelude::*;

verus! {

/// Containers that can give up their content, falling back to a default.
pub trait UnwrapOrDefault {
    /// What unwrapping yields.
    type Unwrapped;

    /// The content, or the default value when there is none.
    fn unwrap_or_default(self) -> Self::Unwrapped;
}

} // verus!
