//! Items of one name in nested modules, reached by absolute, `self` and
//! `super` paths.

use vstd::prelude::*;

pub mod mod1;

verus! {

pub const TWENTY_THREE: u16 = 23;

pub struct Generic<T>(T);

impl<T> Generic<T> {
    /// What the wrapper holds.
    pub closed spec fn inner(self) -> T {
        self.0
    }

    pub fn new(x: T) -> (r: Generic<T>)
        ensures
            r.inner() == x,
    {
        Generic(x)
    }

    pub fn into_inner(self) -> (r: T)
        ensures
            r == self.inner(),
    {
        self.0
    }
}

pub struct Type;

} // verus!
