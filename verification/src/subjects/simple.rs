//! Structs, tuple structs, enums in their several layouts, arrays and slices.

use vstd::prelude::*;

verus! {

pub struct HiBob {
    pub field1: i32,
    pub field2: u64,
}

pub struct ByeBob(pub i32, pub u64);

pub enum Something {
    One,
    Two,
    Three,
}

pub enum MoreComplicated {
    One,
    Two(i32),
    Three(HiBob),
    Four { this: bool, is: u8, a: char, struct_: u64, variant: u32 },
}

/// The compiler stores `Empty` as the null pointer of the string.
pub enum NonZeroOptimized {
    Empty,
    Value(String),
}

pub fn diff2(x: i32, y: i32) -> (r: i32)
    requires
        i32::MIN <= x - y <= i32::MAX,
    ensures
        r == x - y,
{
    x - y
}

pub fn empty() {
}

pub struct Unit;

/// The compiler stores `Nothing` as the null pointer of the box.
pub enum SpaceSaver {
    Thebox(u8, Box<i32>),
    Nothing,
}

pub enum Univariant {
    Foo { a: u8 },
}

pub enum UnivariantAnon {
    Foo(u8),
}

pub enum ParametrizedEnum<T> {
    Val { val: T },
    Empty,
}

pub struct SimpleLayout {
    pub f1: u16,
    pub f2: u16,
}

pub struct EnumWithNonzeroOffset {
    pub a: Option<u8>,
    pub b: Option<u8>,
}

} // verus!
