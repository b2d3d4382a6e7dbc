use crate::subjects::modules::Generic;
use vstd::prelude::*;

verus! {

pub struct Type {
    pub x: u32,
}

/// Wraps `x` twice.
pub fn wrap<T>(x: T) -> (r: Generic<Generic<T>>)
    ensures
        r.inner().inner() == x,
{
    Generic::new(Generic::new(x))
}

} // verus!
