//! Generic functions and types, instantiated at several arguments.

use vstd::prelude::*;

verus! {

#[derive(Clone, Copy)]
pub struct Hold<T>(pub T);

pub fn identity<T>(x: T) -> (r: T)
    ensures
        r == x,
{
    x
}

pub fn dowhatever() {
    ()
}

} // verus!
