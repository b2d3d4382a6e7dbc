//! A struct with a field that holds a function and a method of the same name.

use vstd::prelude::*;

verus! {

pub fn five() -> (r: i32)
    ensures
        r == 5,
{
    5
}

/// `f` is both a field, holding a function, and a method.  `foo.f()` calls the
/// method; `(foo.f)()` calls the stored function.
pub struct Foo<F: Fn() -> i32> {
    pub x: i32,
    pub f: F,
}

impl<F: Fn() -> i32> Foo<F> {
    pub fn f(&self) -> (r: i32)
        ensures
            r == 6,
    {
        6
    }

    pub fn g(&self) -> (r: i32)
        ensures
            r == 7,
    {
        7
    }

    /// Calls the function stored in the field `f`.
    pub fn call_field(&self) -> (r: i32)
        requires
            call_requires(self.f, ()),
        ensures
            call_ensures(self.f, (), r),
    {
        (self.f)()
    }
}

} // verus!
