use dbgeval::bytes::ByteRange;
use dbgeval::decode::decode;
use dbgeval::error::Error;
use dbgeval::types::{
    DiscriminantStrategy, Field, ScalarKind, Shape, TypeDescriptor, TypeId, TypeTable, Variant,
};
use dbgeval::value::Value;

fn primitive(path: &str, size: usize, kind: ScalarKind) -> TypeDescriptor {
    TypeDescriptor {
        path: path.to_string(),
        generic_args: vec![],
        size,
        align: if size == 0 { 1 } else { size },
        shape: Shape::Primitive { kind },
    }
}

fn field(name: &str, ty: TypeId, offset: usize) -> Field {
    Field { name: name.to_string(), ty, offset }
}

/// `struct S { a: u8, b: Option<u8> }` where the byte 0xFF in `b` stands for
/// the empty variant.
fn niche_table() -> (TypeTable, TypeId) {
    let mut t = TypeTable::new(8).unwrap();
    let u8_id = t.add(primitive("u8", 1, ScalarKind::Unsigned)).unwrap();
    let opt = t
        .add(TypeDescriptor {
            path: "Option".to_string(),
            generic_args: vec![u8_id],
            size: 1,
            align: 1,
            shape: Shape::Enum {
                variants: vec![
                    Variant {
                        name: "Empty".to_string(),
                        discr: 0xFF,
                        tuple_like: false,
                        fields: vec![],
                    },
                    Variant {
                        name: "Some".to_string(),
                        discr: 0,
                        tuple_like: true,
                        fields: vec![field("0", u8_id, 0)],
                    },
                ],
                strategy: DiscriminantStrategy::NicheFill { offset: 0, width: 1, dataful: 1 },
            },
        })
        .unwrap();
    let s = t
        .add(TypeDescriptor {
            path: "S".to_string(),
            generic_args: vec![],
            size: 2,
            align: 1,
            shape: Shape::Struct { fields: vec![field("a", u8_id, 0), field("b", opt, 1)] },
        })
        .unwrap();
    (t, s)
}

#[test]
fn niche_byte_selects_the_empty_variant() {
    let (t, s) = niche_table();
    let range = ByteRange::new(0x1000, vec![5, 0xFF]).unwrap();
    let v = decode(&t, s, &range, None).unwrap();
    assert_eq!(
        v,
        Value::Aggregate {
            ty: s,
            address: 0x1000,
            fields: vec![
                Value::Scalar { ty: 0, kind: ScalarKind::Unsigned, bytes: vec![5] },
                Value::EnumValue { ty: 1, variant: 0, payload: vec![] },
            ],
        }
    );
}

#[test]
fn other_bytes_select_the_data_variant() {
    let (t, s) = niche_table();
    let range = ByteRange::new(0x1000, vec![5, 3]).unwrap();
    let v = decode(&t, s, &range, None).unwrap();
    assert_eq!(
        v,
        Value::Aggregate {
            ty: s,
            address: 0x1000,
            fields: vec![
                Value::Scalar { ty: 0, kind: ScalarKind::Unsigned, bytes: vec![5] },
                Value::EnumValue {
                    ty: 1,
                    variant: 1,
                    payload: vec![Value::Scalar {
                        ty: 0,
                        kind: ScalarKind::Unsigned,
                        bytes: vec![3]
                    }],
                },
            ],
        }
    );
}

#[test]
fn short_range_is_malformed() {
    let (t, s) = niche_table();
    let range = ByteRange::new(0x1000, vec![5]).unwrap();
    assert_eq!(decode(&t, s, &range, None), Err(Error::MalformedLayout));
}
