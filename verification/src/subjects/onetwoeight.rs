//! 128-bit integers.

use vstd::prelude::*;

verus! {

pub fn empty() {
}

} // verus!
