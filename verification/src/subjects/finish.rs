//! Returning an enum value from a function.

use vstd::prelude::*;

verus! {

#[derive(Clone, Copy, Debug, PartialEq, Eq, Structural)]
pub enum MyResult {
    Absent,
    Present(u32),
}

pub fn return_some() -> (r: MyResult)
    ensures
        r == MyResult::Present(97),
{
    MyResult::Present(97)
}

} // verus!
