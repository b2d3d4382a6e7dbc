use dbgeval::subjects::dynsized::ignore;
use dbgeval::subjects::finish::{return_some, MyResult};
use dbgeval::subjects::fnfield::{five, Foo};
use dbgeval::subjects::generics::{dowhatever, identity, Hold};
use dbgeval::subjects::methods::{HasMethods, SimpleEnum, SomeEnum, Whatever};
use dbgeval::subjects::modules::mod1::inner::innest::wrap;
use dbgeval::subjects::modules::{Generic, TWENTY_THREE};
use dbgeval::subjects::simple::{diff2, HiBob, Unit};

#[test]
fn return_some_returns_ninety_seven() {
    assert_eq!(return_some(), MyResult::Present(97));
}

#[test]
fn method_and_stored_function_differ() {
    let foo = Foo { x: 5, f: five };
    assert_eq!(foo.x, 5);
    assert_eq!(foo.f(), 6);
    assert_eq!((foo.f)(), 5);
    assert_eq!(foo.call_field(), 5);
    assert_eq!(foo.g(), 7);
    assert_eq!(five(), 5);
}

#[test]
fn identity_hands_its_argument_back() {
    assert_eq!(identity(23u32), 23);
    assert_eq!(identity::<u32>(7), 7);
    let e = Hold(7);
    let g = identity(e);
    assert_eq!(g.0, 7);
    let h = identity(Hold(e));
    assert_eq!((h.0).0, 7);
    dowhatever();
    ignore(e);
}

#[test]
fn has_methods_counts() {
    let mut x = HasMethods::new();
    assert_eq!(x.whatever(), 0);
    x.incr();
    (&mut x).incr();
    assert_eq!(x.whatever(), 2);
    x.incr().incr();
    let z = x.take();
    assert_eq!(z.whatever(), 4);
    assert_eq!(HasMethods::static_i32(9).whatever(), 9);
}

#[test]
fn whatever_on_integers() {
    assert_eq!(23i32.whatever(), 23);
    assert_eq!(<i32 as Whatever>::static_i32(5), 5);
}

#[test]
fn enum_values() {
    let mut a = SomeEnum::Three(23);
    assert_eq!(a.value(), 23);
    assert_eq!((&mut a).mut_value(), 23);
    let (atv, back) = a.take_value();
    assert_eq!(atv, 23);
    assert_eq!(back.value(), 23);
    assert_eq!(SomeEnum::Four { x: 24 }.value(), 24);
    assert_eq!(SomeEnum::One.value(), 0);
    assert_eq!(SomeEnum::Two.value(), 0);
    assert_eq!(SimpleEnum::One.value(), 1);
    assert_eq!(SimpleEnum::Two.value(), 2);
    assert_eq!(SimpleEnum::Three.value(), 452);
}

#[test]
fn wrap_wraps_twice() {
    let wrapped: Generic<Generic<u8>> = wrap(3u8);
    assert_eq!(wrapped.into_inner().into_inner(), 3);
    assert_eq!(Generic::new(4).into_inner(), 4);
    assert_eq!(TWENTY_THREE, 23);
}

#[test]
fn diff2_subtracts() {
    assert_eq!(diff2(92, 45), 47);
    assert_eq!(diff2(-1, 1), -2);
    let y = HiBob { field1: 7, field2: 8 };
    assert_eq!(y.field1, 7);
    let _j = Unit;
    dbgeval::subjects::simple::empty();
    dbgeval::subjects::onetwoeight::empty();
}
