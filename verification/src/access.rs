//! Reaching into values: members by name and by position, elements by index,
//! and slices that share the memory of what they were cut from.

use crate::bytes::ByteRange;
use crate::decode::{decode_at, decode_spec};
use crate::error::Error;
use crate::types::{Field, Shape, TypeId, TypeModel, TypeTable};
use crate::value::{
    copy_bytes, lemma_aggregate_view, lemma_enum_view, result_view, Value, ValueModel,
};
use vstd::prelude::*;

verus! {

/// The first member from position `from` on that is called `name`.
pub open spec fn find_field(fields: Seq<Field>, name: Seq<char>, from: int) -> Option<usize>
    decreases fields.len() - from,
{
    if from < 0 || from >= fields.len() {
        None
    } else if fields[from].name@ == name {
        Some(from as usize)
    } else {
        find_field(fields, name, from + 1)
    }
}

/// The named members that values of this shape have, if they have any.
pub open spec fn named_members(shape: Shape) -> Option<Seq<Field>> {
    match shape {
        Shape::Struct { fields } => Some(fields@),
        Shape::TupleStruct { arity, fields } => Some(fields@),
        Shape::Closure { fields } => Some(fields@),
        _ => None,
    }
}

/// What can be indexed and sliced: the element type, the address of the first
/// element and the number of elements of a slice or of an array.
pub open spec fn sliceable(m: TypeModel, v: ValueModel) -> Option<(TypeId, u64, int)> {
    match v {
        ValueModel::Slice { ty, elem, base, count } => Some((elem, base, count as int)),
        ValueModel::Aggregate { ty, address, fields } => if ty < m.types.len()
            && m.types[ty as int].shape is Array {
            Some((m.types[ty as int].shape->Array_elem, address, fields.len() as int))
        } else {
            None
        },
        _ => None,
    }
}

/// The slice `v[lo..hi]`, a bound left out standing for the start or the end
/// of `v`.  The result shares the memory of `v`: it starts `lo` elements
/// further on and holds `hi - lo` elements.  Bounds that are out of order or
/// beyond the length of `v`, and a range that would leave the address space,
/// are `OutOfRange`; a value that is neither slice nor array is
/// `TypeMismatch`.
pub open spec fn slice_spec(m: TypeModel, v: ValueModel, lo: Option<u64>, hi: Option<u64>)
    -> Result<ValueModel, Error> {
    match sliceable(m, v) {
        None => Err(Error::TypeMismatch),
        Some((elem, base, count)) => {
            let a: int = match lo {
                Some(a) => a as int,
                None => 0,
            };
            let b: int = match hi {
                Some(b) => b as int,
                None => count,
            };
            if elem >= m.types.len() {
                Err(Error::NotFound)
            } else if a <= b <= count && base + b * m.types[elem as int].size <= u64::MAX {
                Ok(
                    ValueModel::Slice {
                        ty: crate::value::type_of(v),
                        elem,
                        base: (base + a * m.types[elem as int].size) as u64,
                        count: (b - a) as u64,
                    },
                )
            } else {
                Err(Error::OutOfRange)
            }
        },
    }
}

/// Slicing composes and keeps the range: cutting `[c..d]` out of `v[a..b]`
/// gives the very slice that `v[a + c..a + d]` gives.
pub proof fn lemma_slicing_composes(m: TypeModel, v: ValueModel, a: u64, b: u64, c: u64, d: u64)
    requires
        slice_spec(m, v, Some(a), Some(b)) is Ok,
        c <= d <= b - a,
    ensures
        a + d <= u64::MAX,
        slice_spec(m, slice_spec(m, v, Some(a), Some(b))->Ok_0, Some(c), Some(d)) == slice_spec(
            m,
            v,
            Some((a + c) as u64),
            Some((a + d) as u64),
        ),
        slice_spec(m, v, Some((a + c) as u64), Some((a + d) as u64)) is Ok,
{
    let (elem, base, count) = sliceable(m, v)->Some_0;
    let size = m.types[elem as int].size as int;
    assert(base + (a + d) * size <= base + b * size) by (nonlinear_arith)
        requires
            a + d <= b,
            0 <= size,
    ;
    assert(base + a * size <= base + b * size) by (nonlinear_arith)
        requires
            a <= b,
            0 <= size,
    ;
    assert((base + a * size) + d * size == base + (a + d) * size) by (nonlinear_arith);
    assert((base + a * size) + c * size == base + (a + c) * size) by (nonlinear_arith);
}

/// A slice with a bound left out is the slice with that bound written out.
pub proof fn lemma_open_bounds(m: TypeModel, v: ValueModel, lo: Option<u64>, hi: Option<u64>)
    requires
        sliceable(m, v) is Some,
        sliceable(m, v)->Some_0.2 <= u64::MAX,
    ensures
        slice_spec(m, v, lo, hi) == slice_spec(
            m,
            v,
            Some(
                match lo {
                    Some(a) => a,
                    None => 0,
                },
            ),
            Some(
                match hi {
                    Some(b) => b,
                    None => sliceable(m, v)->Some_0.2 as u64,
                },
            ),
        ),
{
}

/// The element `v[i]`.  An element of an array is the member decoded with it.
/// An element of a slice is decoded from the snapshot `mem`, read at
/// `mem_base`; where the snapshot does not hold the element, the answer is
/// `IoError`.
pub open spec fn index_spec(m: TypeModel, v: ValueModel, i: u64, mem_base: u64, mem: Seq<u8>)
    -> Result<ValueModel, Error> {
    match v {
        ValueModel::Aggregate { ty, address, fields } => if ty < m.types.len()
            && m.types[ty as int].shape is Array {
            if i < fields.len() {
                Ok(fields[i as int])
            } else {
                Err(Error::OutOfRange)
            }
        } else {
            Err(Error::TypeMismatch)
        },
        ValueModel::Slice { ty, elem, base, count } => if i >= count {
            Err(Error::OutOfRange)
        } else if elem >= m.types.len() {
            Err(Error::NotFound)
        } else {
            let size = m.types[elem as int].size;
            let at = base + i * size;
            if at < mem_base || at + size > mem_base + mem.len() {
                Err(Error::IoError)
            } else {
                decode_spec(m, elem, mem_base, mem, at - mem_base, None)
            }
        },
        _ => Err(Error::TypeMismatch),
    }
}

/// A slice shares the memory of what it was cut from: element `i` of the
/// slice `v[a..b]` of a slice `v` is element `a + i` of `v`.
pub proof fn lemma_slice_shares_elements(
    m: TypeModel,
    v: ValueModel,
    a: u64,
    b: u64,
    i: u64,
    mem_base: u64,
    mem: Seq<u8>,
)
    requires
        v is Slice,
        slice_spec(m, v, Some(a), Some(b)) is Ok,
        i < b - a,
    ensures
        a + i <= u64::MAX,
        index_spec(m, slice_spec(m, v, Some(a), Some(b))->Ok_0, i, mem_base, mem) == index_spec(
            m,
            v,
            (a + i) as u64,
            mem_base,
            mem,
        ),
{
    let (elem, base, count) = sliceable(m, v)->Some_0;
    let size = m.types[elem as int].size as int;
    assert(base + a * size <= base + b * size) by (nonlinear_arith)
        requires
            a <= b,
            0 <= size,
    ;
    assert((base + a * size) + i * size == base + (a + i) * size) by (nonlinear_arith);
}

/// The member of `v` called `name`: of a struct, tuple struct or closure and
/// of the live variant of an enum, the member decoded with it; of a union,
/// the bytes of the union read anew under the type of the member.  A name that
/// the type does not declare is `NotFound`; a value without named members is
/// `TypeMismatch`.
pub open spec fn field_spec(m: TypeModel, v: ValueModel, name: Seq<char>) -> Result<
    ValueModel,
    Error,
> {
    match v {
        ValueModel::Aggregate { ty, address, fields } => if ty >= m.types.len() {
            Err(Error::NotFound)
        } else {
            match named_members(m.types[ty as int].shape) {
                None => Err(Error::TypeMismatch),
                Some(declared) => pick(declared, name, fields),
            }
        },
        ValueModel::EnumValue { ty, variant, payload } => if ty >= m.types.len() {
            Err(Error::NotFound)
        } else if m.types[ty as int].shape is Enum && variant
            < m.types[ty as int].shape->Enum_variants@.len() {
            pick(m.types[ty as int].shape->Enum_variants@[variant as int].fields@, name, payload)
        } else {
            Err(Error::TypeMismatch)
        },
        ValueModel::Raw { ty, address, bytes } => if ty >= m.types.len() {
            Err(Error::NotFound)
        } else if m.types[ty as int].shape is Union {
            let declared = m.types[ty as int].shape->Union_fields@;
            match find_field(declared, name, 0) {
                None => Err(Error::NotFound),
                Some(i) => if address + bytes.len() > u64::MAX {
                    Err(Error::OutOfRange)
                } else {
                    decode_spec(
                        m,
                        declared[i as int].ty,
                        address,
                        bytes,
                        declared[i as int].offset as int,
                        None,
                    )
                },
            }
        } else {
            Err(Error::TypeMismatch)
        },
        _ => Err(Error::TypeMismatch),
    }
}

/// The member among `members` that stands where `declared` has `name`.
pub open spec fn pick(declared: Seq<Field>, name: Seq<char>, members: Seq<ValueModel>) -> Result<
    ValueModel,
    Error,
> {
    match find_field(declared, name, 0) {
        None => Err(Error::NotFound),
        Some(i) => if i < members.len() {
            Ok(members[i as int])
        } else {
            Err(Error::TypeMismatch)
        },
    }
}

/// The member `v.k` of a tuple struct or of a positional enum variant.  A
/// position that the value does not have is `NotFound`; a value without
/// positional members is `TypeMismatch`.
pub open spec fn tuple_index_spec(m: TypeModel, v: ValueModel, k: usize) -> Result<
    ValueModel,
    Error,
> {
    match v {
        ValueModel::Aggregate { ty, address, fields } => if ty >= m.types.len() {
            Err(Error::NotFound)
        } else if m.types[ty as int].shape is TupleStruct {
            if k < fields.len() {
                Ok(fields[k as int])
            } else {
                Err(Error::NotFound)
            }
        } else {
            Err(Error::TypeMismatch)
        },
        ValueModel::EnumValue { ty, variant, payload } => if ty >= m.types.len() {
            Err(Error::NotFound)
        } else if m.types[ty as int].shape is Enum && variant
            < m.types[ty as int].shape->Enum_variants@.len()
            && m.types[ty as int].shape->Enum_variants@[variant as int].tuple_like {
            if k < payload.len() {
                Ok(payload[k as int])
            } else {
                Err(Error::NotFound)
            }
        } else {
            Err(Error::TypeMismatch)
        },
        _ => Err(Error::TypeMismatch),
    }
}

fn field_position(fields: &Vec<Field>, name: &String) -> (r: Option<usize>)
    ensures
        r == find_field(fields@, name@, 0),
        r matches Some(i) ==> i < fields@.len(),
{
    let mut i: usize = 0;
    while i < fields.len()
        invariant
            i <= fields.len(),
            find_field(fields@, name@, 0) == find_field(fields@, name@, i as int),
        decreases fields.len() - i,
    {
        if fields[i].name == *name {
            return Some(i);
        }
        i += 1;
    }
    None
}

fn pick_member(declared: &Vec<Field>, name: &String, members: &Vec<Value>) -> (r: Result<
    Value,
    Error,
>)
    ensures
        result_view(r) == pick(declared@, name@, crate::value::views(members@)),
{
    match field_position(declared, name) {
        None => Err(Error::NotFound),
        Some(i) => if i < members.len() {
            Ok(members[i].duplicate())
        } else {
            Err(Error::TypeMismatch)
        },
    }
}

/// The slice `v[lo..hi]`; see [`slice_spec`].
pub fn slice(table: &TypeTable, v: &Value, lo: Option<u64>, hi: Option<u64>) -> (r: Result<
    Value,
    Error,
>)
    ensures
        result_view(r) == slice_spec(table@, v@, lo, hi),
{
    let (elem, base, count): (TypeId, u64, u64) = match v {
        Value::Slice { ty, elem, base, count } => (*elem, *base, *count),
        Value::Aggregate { ty, address, fields } => {
            proof {
                lemma_aggregate_view(*ty, *address, *fields);
            }
            match table.get(*ty) {
                Ok(d) => match d.shape {
                    Shape::Array { elem, count } => (elem, *address, fields.len() as u64),
                    _ => {
                        return Err(Error::TypeMismatch);
                    },
                },
                Err(_) => {
                    return Err(Error::TypeMismatch);
                },
            }
        },
        _ => {
            return Err(Error::TypeMismatch);
        },
    };
    let a: u64 = match lo {
        Some(a) => a,
        None => 0,
    };
    let b: u64 = match hi {
        Some(b) => b,
        None => count,
    };
    let size: usize = match table.get(elem) {
        Ok(d) => d.size,
        Err(_) => {
            return Err(Error::NotFound);
        },
    };
    if a > b || b > count {
        return Err(Error::OutOfRange);
    }
    assert(b * size <= 0xFFFF_FFFF_FFFF_FFFF * 0xFFFF_FFFF_FFFF_FFFF) by (nonlinear_arith)
        requires
            0 <= b <= 0xFFFF_FFFF_FFFF_FFFF,
            0 <= size <= 0xFFFF_FFFF_FFFF_FFFF,
    ;
    let end: u128 = base as u128 + (b as u128) * (size as u128);
    if end > u64::MAX as u128 {
        return Err(Error::OutOfRange);
    }
    assert(a * size <= b * size) by (nonlinear_arith)
        requires
            0 <= a <= b,
            0 <= size,
    ;
    let first: u128 = base as u128 + (a as u128) * (size as u128);
    Ok(Value::Slice { ty: v.ty(), elem, base: first as u64, count: b - a })
}

/// The element `v[i]`; see [`index_spec`].  `memory` is the snapshot in which
/// the elements of a slice are looked for.
pub fn index(table: &TypeTable, v: &Value, i: u64, memory: &ByteRange) -> (r: Result<Value, Error>)
    ensures
        result_view(r) == index_spec(table@, v@, i, memory.base(), memory@),
{
    match v {
        Value::Aggregate { ty, address, fields } => {
            proof {
                lemma_aggregate_view(*ty, *address, *fields);
            }
            match table.get(*ty) {
                Ok(d) => match d.shape {
                    Shape::Array { elem, count } => {
                        if i < fields.len() as u64 {
                            Ok(fields[i as usize].duplicate())
                        } else {
                            Err(Error::OutOfRange)
                        }
                    },
                    _ => Err(Error::TypeMismatch),
                },
                Err(_) => Err(Error::TypeMismatch),
            }
        },
        Value::Slice { ty, elem, base, count } => {
            if i >= *count {
                return Err(Error::OutOfRange);
            }
            let size: usize = match table.get(*elem) {
                Ok(d) => d.size,
                Err(_) => {
                    return Err(Error::NotFound);
                },
            };
            proof {
                use_type_invariant(memory);
            }
            assert(i * size <= 0xFFFF_FFFF_FFFF_FFFF * 0xFFFF_FFFF_FFFF_FFFF) by (nonlinear_arith)
                requires
                    0 <= i <= 0xFFFF_FFFF_FFFF_FFFF,
                    0 <= size <= 0xFFFF_FFFF_FFFF_FFFF,
            ;
            let at: u128 = *base as u128 + (i as u128) * (size as u128);
            let low: u128 = memory.address() as u128;
            let high: u128 = low + memory.len() as u128;
            if at < low || at + size as u128 > high {
                return Err(Error::IoError);
            }
            let start: usize = (at - low) as usize;
            decode_at(table, *elem, memory, start, None)
        },
        _ => Err(Error::TypeMismatch),
    }
}

/// The member of `v` called `name`; see [`field_spec`].
pub fn field(table: &TypeTable, v: &Value, name: &String) -> (r: Result<Value, Error>)
    ensures
        result_view(r) == field_spec(table@, v@, name@),
{
    match v {
        Value::Aggregate { ty, address, fields } => {
            proof {
                lemma_aggregate_view(*ty, *address, *fields);
            }
            let d = match table.get(*ty) {
                Ok(d) => d,
                Err(_) => {
                    return Err(Error::NotFound);
                },
            };
            match &d.shape {
                Shape::Struct { fields: declared } => pick_member(declared, name, fields),
                Shape::TupleStruct { arity, fields: declared } => pick_member(
                    declared,
                    name,
                    fields,
                ),
                Shape::Closure { fields: declared } => pick_member(declared, name, fields),
                _ => Err(Error::TypeMismatch),
            }
        },
        Value::EnumValue { ty, variant, payload } => {
            proof {
                lemma_enum_view(*ty, *variant, *payload);
            }
            let d = match table.get(*ty) {
                Ok(d) => d,
                Err(_) => {
                    return Err(Error::NotFound);
                },
            };
            match &d.shape {
                Shape::Enum { variants, strategy } => {
                    if *variant < variants.len() {
                        pick_member(&variants[*variant].fields, name, payload)
                    } else {
                        Err(Error::TypeMismatch)
                    }
                },
                _ => Err(Error::TypeMismatch),
            }
        },
        Value::Raw { ty, address, bytes } => {
            let d = match table.get(*ty) {
                Ok(d) => d,
                Err(_) => {
                    return Err(Error::NotFound);
                },
            };
            match &d.shape {
                Shape::Union { fields: declared } => {
                    match field_position(declared, name) {
                        None => Err(Error::NotFound),
                        Some(i) => {
                            match ByteRange::new(*address, copy_bytes(bytes)) {
                                Err(_) => Err(Error::OutOfRange),
                                Ok(range) => decode_at(
                                    table,
                                    declared[i].ty,
                                    &range,
                                    declared[i].offset,
                                    None,
                                ),
                            }
                        },
                    }
                },
                _ => Err(Error::TypeMismatch),
            }
        },
        _ => Err(Error::TypeMismatch),
    }
}

/// The member `v.k`; see [`tuple_index_spec`].
pub fn tuple_index(table: &TypeTable, v: &Value, k: usize) -> (r: Result<Value, Error>)
    ensures
        result_view(r) == tuple_index_spec(table@, v@, k),
{
    match v {
        Value::Aggregate { ty, address, fields } => {
            proof {
                lemma_aggregate_view(*ty, *address, *fields);
            }
            let d = match table.get(*ty) {
                Ok(d) => d,
                Err(_) => {
                    return Err(Error::NotFound);
                },
            };
            match &d.shape {
                Shape::TupleStruct { arity, fields: declared } => {
                    if k < fields.len() {
                        Ok(fields[k].duplicate())
                    } else {
                        Err(Error::NotFound)
                    }
                },
                _ => Err(Error::TypeMismatch),
            }
        },
        Value::EnumValue { ty, variant, payload } => {
            proof {
                lemma_enum_view(*ty, *variant, *payload);
            }
            let d = match table.get(*ty) {
                Ok(d) => d,
                Err(_) => {
                    return Err(Error::NotFound);
                },
            };
            match &d.shape {
                Shape::Enum { variants, strategy } => {
                    if *variant < variants.len() && variants[*variant].tuple_like {
                        if k < payload.len() {
                            Ok(payload[k].duplicate())
                        } else {
                            Err(Error::NotFound)
                        }
                    } else {
                        Err(Error::TypeMismatch)
                    }
                },
                _ => Err(Error::TypeMismatch),
            }
        },
        _ => Err(Error::TypeMismatch),
    }
}

} // verus!
