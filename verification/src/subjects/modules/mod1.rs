use vstd::prelude::*;

pub mod inner;

verus! {

pub struct Type(pub usize, pub isize);

} // verus!
