//! Inherent methods, trait methods and associated functions, on values and
//! through references.

use vstd::prelude::*;

verus! {

pub trait Whatever: Sized {
    /// The number that a value stands for.
    spec fn number(&self) -> i32;

    fn whatever(&self) -> (r: i32)
        ensures
            r == self.number(),
    ;

    fn static_i32(x: i32) -> (r: Self)
        ensures
            r.number() == x,
    ;
}

impl Whatever for i32 {
    open spec fn number(&self) -> i32 {
        *self
    }

    fn whatever(&self) -> (r: i32) {
        *self
    }

    fn static_i32(x: i32) -> (r: i32) {
        x
    }
}

pub struct HasMethods {
    value: i32,
}

impl HasMethods {
    pub fn new() -> (r: HasMethods)
        ensures
            r.number() == 0,
    {
        HasMethods { value: 0 }
    }

    /// Adds one to the value and hands the receiver back.
    pub fn incr(&mut self) -> (r: &mut HasMethods)
        requires
            old(self).number() < i32::MAX,
        ensures
            r.number() == old(self).number() + 1,
            *final(self) == *final(r),
    {
        self.value += 1;
        self
    }

    pub fn take(self) -> (r: HasMethods)
        ensures
            r == self,
    {
        self
    }
}

impl Whatever for HasMethods {
    closed spec fn number(&self) -> i32 {
        self.value
    }

    fn whatever(&self) -> (r: i32) {
        self.value
    }

    fn static_i32(x: i32) -> (r: HasMethods) {
        HasMethods { value: x }
    }
}

pub enum SomeEnum {
    One,
    Two,
    Three(i32),
    Four { x: i32 },
}

impl SomeEnum {
    /// The payload of the variants that carry one, else zero.
    pub open spec fn value_spec(self) -> i32 {
        match self {
            SomeEnum::Three(x) => x,
            SomeEnum::Four { x } => x,
            _ => 0,
        }
    }

    pub fn value(&self) -> (r: i32)
        ensures
            r == self.value_spec(),
    {
        match *self {
            SomeEnum::Three(x) => x,
            SomeEnum::Four { x } => x,
            _ => 0,
        }
    }

    pub fn mut_value(&mut self) -> (r: i32)
        ensures
            r == old(self).value_spec(),
            *final(self) == *old(self),
    {
        match *self {
            SomeEnum::Three(x) => x,
            SomeEnum::Four { x } => x,
            _ => 0,
        }
    }

    pub fn take_value(self) -> (r: (i32, SomeEnum))
        ensures
            r.0 == self.value_spec(),
            r.1 == self,
    {
        (
            match self {
                SomeEnum::Three(x) => x,
                SomeEnum::Four { x } => x,
                _ => 0,
            },
            self,
        )
    }
}

pub enum SimpleEnum {
    One,
    Two,
    Three,
}

impl SimpleEnum {
    pub open spec fn value_spec(self) -> i32 {
        match self {
            SimpleEnum::One => 1,
            SimpleEnum::Two => 2,
            SimpleEnum::Three => 452,
        }
    }

    pub fn value(&self) -> (r: i32)
        ensures
            r == self.value_spec(),
    {
        match *self {
            SimpleEnum::One => 1,
            SimpleEnum::Two => 2,
            SimpleEnum::Three => 452,
        }
    }
}

} // verus!
