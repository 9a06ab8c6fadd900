//! Source positions.
use vstd::prelude::*;

verus! {

/// A position in a source file.
#[derive(Clone, Copy, Debug, PartialEq, Eq, Structural)]
pub struct Location {
    pub line: u64,
    pub column: u64,
}

/// A syntax node together with the position it was read at.
#[derive(Debug)]
pub struct Located<T>(pub Location, pub T);

impl<T: Clone> Clone for Located<T> {
    /// The node cloned, at the same position.
    fn clone(&self) -> (r: Self)
        ensures
            r.0 == self.0,
            cloned::<T>(self.1, r.1),
    {
        Located(self.0, self.1.clone())
    }
}

} // verus!
