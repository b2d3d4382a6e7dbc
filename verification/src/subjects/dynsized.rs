//! Values reached through wide pointers.

use vstd::prelude::*;

verus! {

pub fn ignore<T>(x: T) {
}

} // verus!
