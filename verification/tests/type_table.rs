use dbgeval::bytes::{encode_le, read_le, ByteRange};
use dbgeval::decode::{decode, decode_at};
use dbgeval::error::Error;
use dbgeval::types::{
    id_lists_equal, DiscriminantStrategy, Field, ScalarKind, Shape, TypeDescriptor, TypeTable,
    Variant,
};
use dbgeval::value::{copy_bytes, duplicate_all, Value};

fn desc(path: &str, args: Vec<usize>, size: usize, shape: Shape) -> TypeDescriptor {
    TypeDescriptor { path: path.to_string(), generic_args: args, size, align: 1, shape }
}

fn prim(path: &str, size: usize) -> TypeDescriptor {
    desc(path, vec![], size, Shape::Primitive { kind: ScalarKind::Unsigned })
}

#[test]
fn every_failure_has_a_message() {
    assert_eq!(Error::NotFound.message(), "not found");
    assert_eq!(Error::Ambiguous.message(), "ambiguous");
    assert_eq!(Error::MalformedLayout.message(), "malformed layout");
    assert_eq!(Error::TypeMismatch.message(), "type mismatch");
    assert_eq!(Error::OutOfRange.message(), "out of range");
    assert_eq!(Error::IoError.message(), "input/output error");
}

#[test]
fn pointer_width_is_checked() {
    assert!(TypeTable::new(0).is_err());
    assert!(TypeTable::new(9).is_err());
    assert_eq!(TypeTable::new(4).ok().unwrap().pointer_width(), 4);
}

#[test]
fn lookup_tells_instantiations_apart() {
    let mut t = TypeTable::new(8).unwrap();
    let u8_id = t.add(prim("u8", 1)).unwrap();
    let i32_id = t.add(prim("i32", 4)).unwrap();
    let hold = |arg: usize, size: usize| {
        desc(
            "generics::Hold",
            vec![arg],
            size,
            Shape::TupleStruct {
                arity: 1,
                fields: vec![Field { name: "0".to_string(), ty: arg, offset: 0 }],
            },
        )
    };
    let hold_u8 = t.add(hold(u8_id, 1)).unwrap();
    let hold_i32 = t.add(hold(i32_id, 4)).unwrap();
    assert_ne!(hold_u8, hold_i32);
    let path = "generics::Hold".to_string();
    assert_eq!(t.lookup(&path, &vec![u8_id]), Ok(hold_u8));
    assert_eq!(t.lookup(&path, &vec![i32_id]), Ok(hold_i32));
    assert_eq!(t.lookup(&path, &vec![]), Err(Error::NotFound));
    assert_eq!(t.lookup(&path, &vec![hold_u8]), Err(Error::NotFound));
    assert_eq!(t.lookup(&"generics::Other".to_string(), &vec![u8_id]), Err(Error::NotFound));
    assert_eq!(t.get(hold_i32).unwrap().size, 4);
    assert_eq!(t.get(99).err(), Some(Error::NotFound));
    assert_eq!(t.len(), 4);
}

#[test]
fn an_identity_is_recorded_once() {
    let mut t = TypeTable::new(8).unwrap();
    t.add(prim("u8", 1)).unwrap();
    assert_eq!(t.add(prim("u8", 1)), Err(Error::Ambiguous));
    assert_eq!(t.len(), 1);
}

#[test]
fn a_type_cannot_hold_a_later_type_by_value() {
    let mut t = TypeTable::new(8).unwrap();
    let bad = desc(
        "S",
        vec![],
        4,
        Shape::Struct { fields: vec![Field { name: "a".to_string(), ty: 0, offset: 0 }] },
    );
    assert_eq!(t.add(bad), Err(Error::MalformedLayout));
    assert_eq!(t.add(desc("[u8; 2]", vec![], 2, Shape::Array { elem: 3, count: 2 })),
        Err(Error::MalformedLayout));
    assert_eq!(t.len(), 0);
    let later = t.add(desc("*mut T", vec![], 8, Shape::Pointer { target: 17 }));
    assert_eq!(later, Ok(0));
}

#[test]
fn malformed_descriptors_are_refused() {
    let mut t = TypeTable::new(8).unwrap();
    let u8_id = t.add(prim("u8", 1)).unwrap();
    assert_eq!(t.add(prim("u256", 32)), Err(Error::MalformedLayout));
    let arity = desc(
        "T",
        vec![],
        1,
        Shape::TupleStruct {
            arity: 2,
            fields: vec![Field { name: "0".to_string(), ty: u8_id, offset: 0 }],
        },
    );
    assert_eq!(t.add(arity), Err(Error::MalformedLayout));
    assert_eq!(t.add(desc("&u8", vec![], 3, Shape::Reference { target: u8_id })),
        Err(Error::MalformedLayout));
    assert_eq!(t.add(desc("fn()", vec![], 4, Shape::FunctionPointer)), Err(Error::MalformedLayout));
    let variant = |name: &str, discr: u128| Variant {
        name: name.to_string(),
        discr,
        tuple_like: false,
        fields: vec![],
    };
    let clash = desc(
        "E",
        vec![],
        1,
        Shape::Enum {
            variants: vec![variant("A", 1), variant("B", 1)],
            strategy: DiscriminantStrategy::Direct { offset: 0, width: 1 },
        },
    );
    assert_eq!(t.add(clash), Err(Error::MalformedLayout));
    let no_dataful = desc(
        "N",
        vec![],
        1,
        Shape::Enum {
            variants: vec![variant("A", 1)],
            strategy: DiscriminantStrategy::NicheFill { offset: 0, width: 1, dataful: 1 },
        },
    );
    assert_eq!(t.add(no_dataful), Err(Error::MalformedLayout));
    let wide_tag = desc(
        "W",
        vec![],
        32,
        Shape::Enum {
            variants: vec![variant("A", 1)],
            strategy: DiscriminantStrategy::Direct { offset: 0, width: 17 },
        },
    );
    assert_eq!(t.add(wide_tag), Err(Error::MalformedLayout));
    // the pattern of the data-bearing variant is not consulted
    let niche = desc(
        "O",
        vec![],
        1,
        Shape::Enum {
            variants: vec![variant("A", 1), variant("B", 1)],
            strategy: DiscriminantStrategy::NicheFill { offset: 0, width: 1, dataful: 0 },
        },
    );
    assert!(t.add(niche).is_ok());
}

#[test]
fn an_enum_without_variants_is_a_type_but_has_no_values() {
    let mut t = TypeTable::new(8).unwrap();
    let empty = t
        .add(desc(
            "simple::EmptyEnum",
            vec![],
            0,
            Shape::Enum {
                variants: vec![],
                strategy: DiscriminantStrategy::Direct { offset: 0, width: 0 },
            },
        ))
        .unwrap();
    assert_eq!(t.lookup(&"simple::EmptyEnum".to_string(), &vec![]), Ok(empty));
    let range = ByteRange::new(0, vec![]).unwrap();
    assert_eq!(decode(&t, empty, &range, None), Err(Error::MalformedLayout));
}

#[test]
fn univariant_enum_needs_no_tag() {
    let mut t = TypeTable::new(8).unwrap();
    let u8_id = t.add(prim("u8", 1)).unwrap();
    let uni = t
        .add(desc(
            "simple::Univariant",
            vec![],
            1,
            Shape::Enum {
                variants: vec![Variant {
                    name: "Foo".to_string(),
                    discr: 0,
                    tuple_like: false,
                    fields: vec![Field { name: "a".to_string(), ty: u8_id, offset: 0 }],
                }],
                strategy: DiscriminantStrategy::Direct { offset: 0, width: 0 },
            },
        ))
        .unwrap();
    let range = ByteRange::new(0, vec![1]).unwrap();
    let v = decode(&t, uni, &range, None).unwrap();
    assert_eq!(dbgeval::format::format(&t, &v), "simple::Univariant::Foo { a: 1 }");
}

#[test]
fn zero_sized_values_decode_from_empty_ranges() {
    let mut t = TypeTable::new(8).unwrap();
    let i32_id = t.add(prim("i32", 4)).unwrap();
    let unit = t
        .add(desc("()", vec![], 0, Shape::Primitive { kind: ScalarKind::Unit }))
        .unwrap();
    let empty_array = t
        .add(desc("[i32; 0]", vec![], 0, Shape::Array { elem: i32_id, count: 0 }))
        .unwrap();
    let holder = t
        .add(desc(
            "Holder",
            vec![],
            0,
            Shape::Struct {
                fields: vec![Field { name: "b".to_string(), ty: empty_array, offset: 0 }],
            },
        ))
        .unwrap();
    let nothing = ByteRange::new(0x40, vec![]).unwrap();
    assert_eq!(
        decode(&t, unit, &nothing, None),
        Ok(Value::Scalar { ty: unit, kind: ScalarKind::Unit, bytes: vec![] })
    );
    assert_eq!(
        decode(&t, empty_array, &nothing, None),
        Ok(Value::Aggregate { ty: empty_array, address: 0x40, fields: vec![] })
    );
    let h = decode(&t, holder, &nothing, None).unwrap();
    assert_eq!(
        h,
        Value::Aggregate {
            ty: holder,
            address: 0x40,
            fields: vec![Value::Aggregate { ty: empty_array, address: 0x40, fields: vec![] }],
        }
    );
    assert_eq!(dbgeval::format::format(&t, &h), "Holder { b: [] }");
    assert_eq!(dbgeval::format::format(&t, &decode(&t, unit, &nothing, None).unwrap()), "()");
}

#[test]
fn nested_niches_decode_recursively() {
    // struct Outer { inner: Option<Option-like> } where both enums borrow a
    // pattern of the same byte: 0xFF is the outer None, 0xFE the inner None.
    let mut t = TypeTable::new(8).unwrap();
    let u8_id = t.add(prim("u8", 1)).unwrap();
    let variant = |name: &str, discr: u128, fields: Vec<Field>| Variant {
        name: name.to_string(),
        discr,
        tuple_like: true,
        fields,
    };
    let inner = t
        .add(desc(
            "Inner",
            vec![],
            1,
            Shape::Enum {
                variants: vec![
                    variant("Void", 0xFE, vec![]),
                    variant("Full", 0, vec![Field { name: "0".to_string(), ty: u8_id, offset: 0 }]),
                ],
                strategy: DiscriminantStrategy::NicheFill { offset: 0, width: 1, dataful: 1 },
            },
        ))
        .unwrap();
    let outer = t
        .add(desc(
            "Outer",
            vec![],
            1,
            Shape::Enum {
                variants: vec![
                    variant("Nothing", 0xFF, vec![]),
                    variant(
                        "Just",
                        0,
                        vec![Field { name: "0".to_string(), ty: inner, offset: 0 }],
                    ),
                ],
                strategy: DiscriminantStrategy::NicheFill { offset: 0, width: 1, dataful: 1 },
            },
        ))
        .unwrap();
    let show = |byte: u8| {
        let v = decode(&t, outer, &ByteRange::new(0, vec![byte]).unwrap(), None).unwrap();
        dbgeval::format::format(&t, &v)
    };
    assert_eq!(show(0xFF), "Outer::Nothing");
    assert_eq!(show(0xFE), "Outer::Just(Inner::Void)");
    assert_eq!(show(7), "Outer::Just(Inner::Full(7))");
}

#[test]
fn unsized_tail_takes_the_length_given() {
    let mut t = TypeTable::new(8).unwrap();
    let u8_id = t.add(prim("u8", 1)).unwrap();
    let u32_id = t.add(prim("u32", 4)).unwrap();
    let tail = t.add(desc("[u8]", vec![], 0, Shape::Slice { elem: u8_id })).unwrap();
    let v = t
        .add(desc(
            "V",
            vec![tail],
            4,
            Shape::Struct {
                fields: vec![
                    Field { name: "head".to_string(), ty: u32_id, offset: 0 },
                    Field { name: "data".to_string(), ty: tail, offset: 4 },
                ],
            },
        ))
        .unwrap();
    let range = ByteRange::new(0x7000, vec![9, 0, 0, 0, 1, 2, 3]).unwrap();
    let decoded = decode(&t, v, &range, Some(3)).unwrap();
    assert_eq!(
        decoded,
        Value::Aggregate {
            ty: v,
            address: 0x7000,
            fields: vec![
                Value::Scalar { ty: u32_id, kind: ScalarKind::Unsigned, bytes: vec![9, 0, 0, 0] },
                Value::Slice { ty: tail, elem: u8_id, base: 0x7004, count: 3 },
            ],
        }
    );
    let data = dbgeval::access::field(&t, &decoded, &"data".to_string()).unwrap();
    let last = dbgeval::access::index(&t, &data, 2, &range).unwrap();
    assert_eq!(dbgeval::format::format(&t, &last), "3");
}

#[test]
fn decode_at_reads_further_into_the_range() {
    let mut t = TypeTable::new(8).unwrap();
    let u16_id = t.add(prim("u16", 2)).unwrap();
    let range = ByteRange::new(0, vec![0, 0, 0x34, 0x12]).unwrap();
    let v = decode_at(&t, u16_id, &range, 2, None).unwrap();
    assert_eq!(dbgeval::format::format(&t, &v), "4660");
    assert_eq!(decode_at(&t, u16_id, &range, 3, None), Err(Error::MalformedLayout));
    assert_eq!(decode_at(&t, u16_id, &range, 9, None), Err(Error::MalformedLayout));
    assert_eq!(decode_at(&t, 5, &range, 0, None), Err(Error::NotFound));
    assert_eq!(decode(&t, 5, &range, None), Err(Error::NotFound));
}

#[test]
fn byte_ranges_stay_inside_the_address_space() {
    assert!(ByteRange::new(u64::MAX, vec![]).is_ok());
    assert_eq!(ByteRange::new(u64::MAX, vec![1]).err(), Some(Error::OutOfRange));
    let r = ByteRange::new(0x10, vec![1, 2]).unwrap();
    assert_eq!(r.address(), 0x10);
    assert_eq!(r.len(), 2);
    assert_eq!(r.as_slice(), &[1, 2]);
}

#[test]
fn little_endian_numbers_round_trip() {
    assert_eq!(read_le(&[0x78, 0x56, 0x34, 0x12], 0, 4), 0x12345678);
    assert_eq!(read_le(&[0xAA, 0x78, 0x56], 1, 2), 0x5678);
    assert_eq!(read_le(&[1, 2, 3], 1, 0), 0);
    assert_eq!(encode_le(0x12345678, 4), (vec![0x78, 0x56, 0x34, 0x12], true));
    assert_eq!(encode_le(0x1FF, 1), (vec![0xFF], false));
    assert_eq!(encode_le(0, 0), (vec![], true));
    assert_eq!(encode_le(5, 0), (vec![], false));
    let (bytes, fits) = encode_le(u128::MAX, 16);
    assert!(fits);
    assert_eq!(read_le(&bytes, 0, 16), u128::MAX);
}

#[test]
fn copies_are_equal_to_their_source() {
    let v = Value::Aggregate {
        ty: 1,
        address: 8,
        fields: vec![
            Value::Scalar { ty: 0, kind: ScalarKind::Bool, bytes: vec![1] },
            Value::Function {
                ty: 2,
                symbol: 0x40,
                receiver: Some(Box::new(Value::Reference { ty: 3, address: 1, metadata: Some(2) })),
            },
        ],
    };
    assert_eq!(v.duplicate(), v);
    assert_eq!(v.ty(), 1);
    assert_eq!(duplicate_all(&vec![v.duplicate(), v.duplicate()]), vec![v.duplicate(), v]);
    assert_eq!(copy_bytes(&vec![1, 2, 3]), vec![1, 2, 3]);
    assert!(id_lists_equal(&vec![1, 2], &vec![1, 2]));
    assert!(!id_lists_equal(&vec![1, 2], &vec![1, 3]));
    assert!(!id_lists_equal(&vec![1, 2], &vec![1]));
}
