//! The layout decoder: from a descriptor and a byte range to a value.
//!
//! [`decode_spec`] says what every type decodes to; [`decode`] computes it.
//! A value is decoded eagerly, member by member, down to pointers, references
//! and slices, which keep their target address and are not followed.

use crate::bytes::{
    le_value, lemma_le_value_bound, lemma_pow256_8, lemma_pow256_monotonic, read_le, window,
    ByteRange,
};
use crate::error::Error;
use crate::types::{
    fields_below, DiscriminantStrategy, Field, Shape, TypeId, TypeModel, TypeTable, Variant,
};
use crate::value::{lemma_aggregate_view, lemma_enum_view, result_view, views, Value, ValueModel};
use vstd::prelude::*;

verus! {

/// The first variant from position `from` on, other than `skip`, that the
/// pattern `tag` selects.
pub open spec fn find_discr(variants: Seq<Variant>, tag: nat, skip: int, from: int) -> Option<
    usize,
>
    decreases variants.len() - from,
{
    if from < 0 || from >= variants.len() {
        None
    } else if from != skip && variants[from].discr == tag {
        Some(from as usize)
    } else {
        find_discr(variants, tag, skip, from + 1)
    }
}

/// The variant that is live in an enum found at `start`, or `None` where the
/// discriminant lies outside the bytes or selects nothing.
///
/// Under a direct discriminant the tag must be that of some variant.  Under
/// niche filling a reserved pattern selects its variant and every other
/// pattern selects the data-bearing one.
pub open spec fn select_variant(
    variants: Seq<Variant>,
    strategy: DiscriminantStrategy,
    bytes: Seq<u8>,
    start: int,
) -> Option<usize> {
    match strategy {
        DiscriminantStrategy::Direct { offset, width } => if start + offset + width
            > bytes.len() {
            None
        } else {
            find_discr(variants, le_value(window(bytes, start + offset, width as int)), -1, 0)
        },
        DiscriminantStrategy::NicheFill { offset, width, dataful } => if start + offset + width
            > bytes.len() {
            None
        } else {
            match find_discr(
                variants,
                le_value(window(bytes, start + offset, width as int)),
                dataful as int,
                0,
            ) {
                Some(v) => Some(v),
                None => Some(dataful),
            }
        },
    }
}

/// What the bytes of a pointer or reference of `size` bytes at `start` hold.
/// A thin pointer is one address.  A wide pointer is an address and a second
/// word: the element count where the target is a slice, else kept as is.
pub open spec fn pointer_spec(
    m: TypeModel,
    ty: TypeId,
    target: TypeId,
    size: usize,
    bytes: Seq<u8>,
    start: int,
) -> ValueModel {
    let pw = m.pointer_width as int;
    let first = le_value(window(bytes, start, pw)) as u64;
    let second = le_value(window(bytes, start + pw, pw)) as u64;
    if size == pw {
        ValueModel::Reference { ty, address: first, metadata: None }
    } else if m.is_slice(target) {
        ValueModel::Slice {
            ty,
            elem: m.types[target as int].shape->Slice_elem,
            base: first,
            count: second,
        }
    } else {
        ValueModel::Reference { ty, address: first, metadata: Some(second) }
    }
}

/// The aggregate of type `ty` found at `address` with the given members, or
/// `MalformedLayout` where a member failed to decode.
pub open spec fn aggregate_of(ty: TypeId, address: u64, members: Option<Seq<ValueModel>>) -> Result<
    ValueModel,
    Error,
> {
    match members {
        Some(fields) => Ok(ValueModel::Aggregate { ty, address, fields }),
        None => Err(Error::MalformedLayout),
    }
}

/// What the type `ty` decodes to when it is found at offset `start` of `bytes`,
/// which were read from `address`.
///
/// `extent` is the element count of the unsized tail of the value, where it
/// has one: it reaches the last member of a struct, and a slice found in place
/// takes it as its length (zero when none is given).
pub open spec fn decode_spec(
    m: TypeModel,
    ty: TypeId,
    address: u64,
    bytes: Seq<u8>,
    start: int,
    extent: Option<u64>,
) -> Result<ValueModel, Error>
    decreases ty, 2int,
{
    if ty >= m.types.len() {
        Err(Error::NotFound)
    } else if start + m.types[ty as int].size > bytes.len() {
        Err(Error::MalformedLayout)
    } else {
        let d = m.types[ty as int];
        let here = (address + start) as u64;
        match d.shape {
            Shape::Primitive { kind } => Ok(
                ValueModel::Scalar { ty, kind, bytes: window(bytes, start, d.size as int) },
            ),
            Shape::Struct { fields } => aggregate_of(
                ty,
                here,
                collect(field_results(m, ty, fields@, address, bytes, start, extent)),
            ),
            Shape::TupleStruct { arity, fields } => aggregate_of(
                ty,
                here,
                collect(field_results(m, ty, fields@, address, bytes, start, extent)),
            ),
            Shape::Closure { fields } => aggregate_of(
                ty,
                here,
                collect(field_results(m, ty, fields@, address, bytes, start, extent)),
            ),
            Shape::Array { elem, count } => aggregate_of(
                ty,
                here,
                collect(elem_results(m, ty, elem, count, address, bytes, start)),
            ),
            Shape::Enum { variants, strategy } => match select_variant(
                variants@,
                strategy,
                bytes,
                start,
            ) {
                None => Err(Error::MalformedLayout),
                Some(v) => if v < variants@.len() {
                    match collect(
                        field_results(
                            m,
                            ty,
                            variants@[v as int].fields@,
                            address,
                            bytes,
                            start,
                            None,
                        ),
                    ) {
                        Some(payload) => Ok(ValueModel::EnumValue { ty, variant: v, payload }),
                        None => Err(Error::MalformedLayout),
                    }
                } else {
                    Err(Error::MalformedLayout)
                },
            },
            Shape::Union { fields } => Ok(
                ValueModel::Raw { ty, address: here, bytes: window(bytes, start, d.size as int) },
            ),
            Shape::TraitObject => Ok(
                ValueModel::Raw { ty, address: here, bytes: window(bytes, start, d.size as int) },
            ),
            Shape::Slice { elem } => Ok(
                ValueModel::Slice {
                    ty,
                    elem,
                    base: here,
                    count: match extent {
                        Some(n) => n,
                        None => 0,
                    },
                },
            ),
            Shape::Pointer { target } => Ok(pointer_spec(m, ty, target, d.size, bytes, start)),
            Shape::Reference { target } => Ok(pointer_spec(m, ty, target, d.size, bytes, start)),
            Shape::FunctionPointer => Ok(
                ValueModel::Function {
                    ty,
                    symbol: le_value(window(bytes, start, d.size as int)) as u64,
                    receiver: None,
                },
            ),
        }
    }
}

/// The values of a list of results, or `None` where one of them is an error.
pub open spec fn collect(results: Seq<Result<ValueModel, Error>>) -> Option<Seq<ValueModel>> {
    if forall|i: int| 0 <= i < results.len() ==> (#[trigger] results[i]) is Ok {
        Some(Seq::new(results.len(), |i: int| results[i]->Ok_0))
    } else {
        None
    }
}

/// The members `fields` of a value of type `bound` found at `start`, each
/// decoded at its own offset.
pub open spec fn field_results(
    m: TypeModel,
    bound: TypeId,
    fields: Seq<Field>,
    address: u64,
    bytes: Seq<u8>,
    start: int,
    extent: Option<u64>,
) -> Seq<Result<ValueModel, Error>>
    decreases bound, 1int,
{
    Seq::new(
        fields.len(),
        |i: int| decode_field_spec(m, bound, fields, i, address, bytes, start, extent),
    )
}

/// Member `i` of `fields`, decoded at its offset from `start`.  Only the last
/// member receives `extent`.
pub open spec fn decode_field_spec(
    m: TypeModel,
    bound: TypeId,
    fields: Seq<Field>,
    i: int,
    address: u64,
    bytes: Seq<u8>,
    start: int,
    extent: Option<u64>,
) -> Result<ValueModel, Error>
    decreases bound, 0int,
{
    if 0 <= i < fields.len() && fields[i].ty < bound {
        decode_spec(
            m,
            fields[i].ty,
            address,
            bytes,
            start + fields[i].offset,
            if i == fields.len() - 1 {
                extent
            } else {
                None
            },
        )
    } else {
        Err(Error::MalformedLayout)
    }
}

/// The `count` elements of an array of type `bound` found at `start`.
pub open spec fn elem_results(
    m: TypeModel,
    bound: TypeId,
    elem: TypeId,
    count: usize,
    address: u64,
    bytes: Seq<u8>,
    start: int,
) -> Seq<Result<ValueModel, Error>>
    decreases bound, 1int,
{
    Seq::new(count as nat, |i: int| decode_elem_spec(m, bound, elem, i, address, bytes, start))
}

/// Element `i` of an array whose first element lies at `start`: the element
/// type decoded `i` element sizes further on.
pub open spec fn decode_elem_spec(
    m: TypeModel,
    bound: TypeId,
    elem: TypeId,
    i: int,
    address: u64,
    bytes: Seq<u8>,
    start: int,
) -> Result<ValueModel, Error>
    decreases bound, 0int,
{
    if 0 <= i && elem < bound && elem < m.types.len() {
        decode_spec(m, elem, address, bytes, start + i * m.types[elem as int].size, None)
    } else {
        Err(Error::MalformedLayout)
    }
}

/// Whether `ty` is an enum laid out by niche filling.
pub open spec fn is_niche_filled(m: TypeModel, ty: TypeId) -> bool {
    &&& ty < m.types.len()
    &&& m.types[ty as int].shape is Enum
    &&& m.types[ty as int].shape->Enum_strategy is NicheFill
}

/// The variants of the enum `ty`.
pub open spec fn variants_of(m: TypeModel, ty: TypeId) -> Seq<Variant> {
    m.types[ty as int].shape->Enum_variants@
}

/// The number held by the niche of the niche-filled enum `ty` found at `start`.
pub open spec fn niche_value(m: TypeModel, ty: TypeId, bytes: Seq<u8>, start: int) -> nat {
    let strategy = m.types[ty as int].shape->Enum_strategy;
    le_value(
        window(
            bytes,
            start + strategy->NicheFill_offset,
            strategy->NicheFill_width as int,
        ),
    )
}

/// Whether the enum `ty`, with its niche, lies inside `bytes` from `start` on.
pub open spec fn niche_in_range(m: TypeModel, ty: TypeId, bytes: Seq<u8>, start: int) -> bool {
    let strategy = m.types[ty as int].shape->Enum_strategy;
    &&& 0 <= start
    &&& start + m.types[ty as int].size <= bytes.len()
    &&& start + strategy->NicheFill_offset + strategy->NicheFill_width <= bytes.len()
}

/// In a niche-filled enum, the reserved pattern of a variant without payload
/// always decodes to that variant.
pub proof fn lemma_niche_pattern_selects_its_variant(
    m: TypeModel,
    ty: TypeId,
    e: int,
    address: u64,
    bytes: Seq<u8>,
    start: int,
    extent: Option<u64>,
)
    requires
        m.wf(),
        is_niche_filled(m, ty),
        niche_in_range(m, ty, bytes, start),
        0 <= e < variants_of(m, ty).len(),
        e != m.types[ty as int].shape->Enum_strategy->NicheFill_dataful,
        variants_of(m, ty)[e].fields@.len() == 0,
        niche_value(m, ty, bytes, start) == variants_of(m, ty)[e].discr,
    ensures
        decode_spec(m, ty, address, bytes, start, extent) == Ok::<ValueModel, Error>(
            ValueModel::EnumValue { ty, variant: e as usize, payload: Seq::empty() },
        ),
{
    let variants = variants_of(m, ty);
    let strategy = m.types[ty as int].shape->Enum_strategy;
    let dataful = strategy->NicheFill_dataful;
    let tag = niche_value(m, ty, bytes, start);
    assert(crate::types::shape_ok(
        m.types[ty as int].shape,
        m.types[ty as int].size,
        ty as int,
        m.pointer_width,
    ));
    vstd::std_specs::vec::axiom_spec_len(&m.types[ty as int].shape->Enum_variants);
    lemma_find_discr_in_range(variants, tag, dataful as int, 0);
    let found = find_discr(variants, tag, dataful as int, 0);
    assert(found is Some) by {
        if found is None {
            assert(variants[e].discr != tag);
        }
    }
    let v = found->Some_0;
    assert(v == e) by {
        if v < e {
            assert(variants[v as int].discr != variants[e].discr);
        } else if e < v {
            assert(variants[e].discr != variants[v as int].discr);
        }
    }
    assert(select_variant(variants, strategy, bytes, start) == Some(e as usize));
    let results = field_results(m, ty, variants[e].fields@, address, bytes, start, None);
    assert(results.len() == 0);
    assert(collect(results)->Some_0 =~= Seq::<ValueModel>::empty());
}

/// In a niche-filled enum, a pattern that no variant reserves always decodes
/// to the data-bearing variant, whose payload is read from the very bytes
/// that held the pattern.
pub proof fn lemma_other_pattern_selects_data_variant(
    m: TypeModel,
    ty: TypeId,
    address: u64,
    bytes: Seq<u8>,
    start: int,
    extent: Option<u64>,
)
    requires
        m.wf(),
        is_niche_filled(m, ty),
        niche_in_range(m, ty, bytes, start),
        forall|e: int|
            0 <= e < variants_of(m, ty).len() && e
                != m.types[ty as int].shape->Enum_strategy->NicheFill_dataful ==> (
            #[trigger] variants_of(m, ty)[e]).discr != niche_value(m, ty, bytes, start),
    ensures
        ({
            let dataful = m.types[ty as int].shape->Enum_strategy->NicheFill_dataful;
            decode_spec(m, ty, address, bytes, start, extent) == match collect(
                field_results(
                    m,
                    ty,
                    variants_of(m, ty)[dataful as int].fields@,
                    address,
                    bytes,
                    start,
                    None,
                ),
            ) {
                Some(payload) => Ok::<ValueModel, Error>(
                    ValueModel::EnumValue { ty, variant: dataful, payload },
                ),
                None => Err(Error::MalformedLayout),
            }
        }),
{
    let variants = variants_of(m, ty);
    let strategy = m.types[ty as int].shape->Enum_strategy;
    let dataful = strategy->NicheFill_dataful;
    let tag = niche_value(m, ty, bytes, start);
    assert(crate::types::shape_ok(
        m.types[ty as int].shape,
        m.types[ty as int].size,
        ty as int,
        m.pointer_width,
    ));
    vstd::std_specs::vec::axiom_spec_len(&m.types[ty as int].shape->Enum_variants);
    lemma_find_discr_in_range(variants, tag, dataful as int, 0);
    let found = find_discr(variants, tag, dataful as int, 0);
    assert(found is None) by {
        if found is Some {
            let v = found->Some_0;
            assert(variants[v as int].discr != tag);
        }
    }
    assert(select_variant(variants, strategy, bytes, start) == Some(dataful));
}

/// An array of no elements and of size zero decodes from any position inside
/// the bytes, also from an empty range, to an aggregate without members.
pub proof fn lemma_empty_array_decodes(
    m: TypeModel,
    ty: TypeId,
    address: u64,
    bytes: Seq<u8>,
    start: int,
    extent: Option<u64>,
)
    requires
        ty < m.types.len(),
        m.types[ty as int].size == 0,
        m.types[ty as int].shape is Array,
        m.types[ty as int].shape->Array_count == 0,
        0 <= start <= bytes.len(),
    ensures
        decode_spec(m, ty, address, bytes, start, extent) == Ok::<ValueModel, Error>(
            ValueModel::Aggregate {
                ty,
                address: (address + start) as u64,
                fields: Seq::empty(),
            },
        ),
{
    let elem = m.types[ty as int].shape->Array_elem;
    let results = elem_results(m, ty, elem, 0, address, bytes, start);
    assert(results.len() == 0);
    assert(collect(results)->Some_0 =~= Seq::<ValueModel>::empty());
}

/// A primitive of size zero decodes from any position inside the bytes, also
/// from an empty range, to a scalar without bytes.
pub proof fn lemma_empty_scalar_decodes(
    m: TypeModel,
    ty: TypeId,
    address: u64,
    bytes: Seq<u8>,
    start: int,
    extent: Option<u64>,
)
    requires
        ty < m.types.len(),
        m.types[ty as int].size == 0,
        m.types[ty as int].shape is Primitive,
        0 <= start <= bytes.len(),
    ensures
        decode_spec(m, ty, address, bytes, start, extent) == Ok::<ValueModel, Error>(
            ValueModel::Scalar {
                ty,
                kind: m.types[ty as int].shape->Primitive_kind,
                bytes: Seq::empty(),
            },
        ),
{
    assert(window(bytes, start, 0) =~= Seq::<u8>::empty());
}

/// Whether every member of `fields` is an array of no elements and of size
/// zero placed at the start of the enclosing value.
pub open spec fn all_empty_arrays(m: TypeModel, fields: Seq<Field>) -> bool {
    forall|i: int|
        0 <= i < fields.len() ==> {
            let f = #[trigger] fields[i];
            &&& f.offset == 0
            &&& f.ty < m.types.len()
            &&& m.types[f.ty as int].size == 0
            &&& m.types[f.ty as int].shape is Array
            &&& m.types[f.ty as int].shape->Array_count == 0
        }
}

/// A struct of size zero whose members, if it has any, are arrays of no
/// elements decodes from any position inside the bytes, also from an empty
/// range: a unit struct to an aggregate without members, the others to an
/// aggregate of empty aggregates.
pub proof fn lemma_empty_struct_decodes(
    m: TypeModel,
    ty: TypeId,
    address: u64,
    bytes: Seq<u8>,
    start: int,
    extent: Option<u64>,
)
    requires
        m.wf(),
        ty < m.types.len(),
        m.types[ty as int].size == 0,
        m.types[ty as int].shape is Struct,
        all_empty_arrays(m, m.types[ty as int].shape->Struct_fields@),
        0 <= start <= bytes.len(),
    ensures
        ({
            let fields = m.types[ty as int].shape->Struct_fields@;
            decode_spec(m, ty, address, bytes, start, extent) == Ok::<ValueModel, Error>(
                ValueModel::Aggregate {
                    ty,
                    address: (address + start) as u64,
                    fields: Seq::new(
                        fields.len(),
                        |i: int|
                            ValueModel::Aggregate {
                                ty: fields[i].ty,
                                address: (address + start) as u64,
                                fields: Seq::empty(),
                            },
                    ),
                },
            )
        }),
{
    let fields = m.types[ty as int].shape->Struct_fields@;
    let results = field_results(m, ty, fields, address, bytes, start, extent);
    let members = Seq::new(
        fields.len(),
        |i: int|
            ValueModel::Aggregate {
                ty: fields[i].ty,
                address: (address + start) as u64,
                fields: Seq::empty(),
            },
    );
    assert(crate::types::shape_ok(
        m.types[ty as int].shape,
        m.types[ty as int].size,
        ty as int,
        m.pointer_width,
    ));
    assert forall|i: int| 0 <= i < fields.len() implies (#[trigger] results[i]) == Ok::<
        ValueModel,
        Error,
    >(members[i]) by {
        let f = fields[i];
        let ext = if i == fields.len() - 1 {
            extent
        } else {
            None
        };
        assert(results[i] == decode_field_spec(m, ty, fields, i, address, bytes, start, extent));
        lemma_empty_array_decodes(m, f.ty, address, bytes, start + f.offset, ext);
    }
    assert(collect(results)->Some_0 =~= members);
}

/// The models of an optional list of values.
pub open spec fn members_view(r: Option<Vec<Value>>) -> Option<Seq<ValueModel>> {
    match r {
        Some(v) => Some(views(v@)),
        None => None,
    }
}

fn copy_window(range: &ByteRange, start: usize, width: usize) -> (r: Vec<u8>)
    requires
        start + width <= range@.len(),
    ensures
        r@ == window(range@, start as int, width as int),
{
    let bytes = range.as_slice();
    let len: usize = bytes.len();
    let mut out: Vec<u8> = Vec::new();
    let mut i: usize = 0;
    while i < width
        invariant
            i <= width,
            start + width <= bytes@.len() == len,
            bytes@ == range@,
            out@ == window(bytes@, start as int, i as int),
        decreases width - i,
    {
        out.push(bytes[start + i]);
        i += 1;
        assert(out@ =~= window(bytes@, start as int, i as int));
    }
    out
}

fn read_word(range: &ByteRange, start: usize, width: usize) -> (r: u64)
    requires
        width <= 8,
        start + width <= range@.len(),
    ensures
        r == le_value(window(range@, start as int, width as int)) as u64,
        r == le_value(window(range@, start as int, width as int)),
{
    let wide = read_le(range.as_slice(), start, width);
    proof {
        lemma_le_value_bound(window(range@, start as int, width as int));
        lemma_pow256_monotonic(width as nat, 8);
        lemma_pow256_8();
    }
    wide as u64
}

fn find_variant(variants: &Vec<Variant>, tag: u128, skip: Option<usize>) -> (r: Option<usize>)
    ensures
        r == find_discr(
            variants@,
            tag as nat,
            match skip {
                Some(s) => s as int,
                None => -1,
            },
            0,
        ),
{
    let ghost sk: int = match skip {
        Some(s) => s as int,
        None => -1,
    };
    let mut i: usize = 0;
    while i < variants.len()
        invariant
            i <= variants.len(),
            sk == match skip {
                Some(s) => s as int,
                None => -1,
            },
            find_discr(variants@, tag as nat, sk, 0) == find_discr(
                variants@,
                tag as nat,
                sk,
                i as int,
            ),
        decreases variants.len() - i,
    {
        let skipped = match skip {
            Some(s) => s == i,
            None => false,
        };
        if !skipped && variants[i].discr == tag {
            return Some(i);
        }
        i += 1;
    }
    None
}

fn choose_variant(
    variants: &Vec<Variant>,
    strategy: &DiscriminantStrategy,
    range: &ByteRange,
    start: usize,
) -> (r: Option<usize>)
    requires
        start <= range@.len(),
        crate::types::strategy_ok(*strategy, variants@),
    ensures
        r == select_variant(variants@, *strategy, range@, start as int),
        r matches Some(v) ==> v < variants@.len(),
{
    let room = range.len() - start;
    let n: usize = variants.len();
    match strategy {
        DiscriminantStrategy::Direct { offset, width } => {
            if *offset > room || *width > room - *offset {
                return None;
            }
            let tag = read_le(range.as_slice(), start + *offset, *width);
            let r = find_variant(variants, tag, None);
            proof {
                lemma_find_discr_in_range(variants@, tag as nat, -1, 0);
            }
            r
        },
        DiscriminantStrategy::NicheFill { offset, width, dataful } => {
            if *offset > room || *width > room - *offset {
                return None;
            }
            let tag = read_le(range.as_slice(), start + *offset, *width);
            proof {
                lemma_find_discr_in_range(variants@, tag as nat, *dataful as int, 0);
            }
            match find_variant(variants, tag, Some(*dataful)) {
                Some(v) => Some(v),
                None => Some(*dataful),
            }
        },
    }
}

/// A variant that `find_discr` returns exists, is not the skipped one, and is
/// selected by the pattern.
pub proof fn lemma_find_discr_in_range(variants: Seq<Variant>, tag: nat, skip: int, from: int)
    requires
        0 <= from,
        variants.len() <= usize::MAX,
    ensures
        find_discr(variants, tag, skip, from) matches Some(v) ==> from <= v < variants.len() && v
            != skip && variants[v as int].discr == tag,
        find_discr(variants, tag, skip, from) is None ==> forall|k: int|
            from <= k < variants.len() && k != skip ==> (#[trigger] variants[k]).discr != tag,
    decreases variants.len() - from,
{
    if from < variants.len() {
        if from != skip && variants[from].discr == tag {
        } else {
            lemma_find_discr_in_range(variants, tag, skip, from + 1);
        }
    }
}

fn decode_fields(
    table: &TypeTable,
    bound: TypeId,
    fields: &Vec<Field>,
    range: &ByteRange,
    start: usize,
    extent: Option<u64>,
) -> (r: Option<Vec<Value>>)
    requires
        start <= range@.len(),
        fields_below(fields@, bound as int),
    ensures
        members_view(r) == collect(
            field_results(table@, bound, fields@, range.base(), range@, start as int, extent),
        ),
    decreases bound, 1int,
{
    let len: usize = range.len();
    let ghost results = field_results(
        table@,
        bound,
        fields@,
        range.base(),
        range@,
        start as int,
        extent,
    );
    let mut out: Vec<Value> = Vec::new();
    let mut i: usize = 0;
    while i < fields.len()
        invariant
            i <= fields.len(),
            out@.len() == i,
            start <= range@.len() == len,
            fields_below(fields@, bound as int),
            results == field_results(
                table@,
                bound,
                fields@,
                range.base(),
                range@,
                start as int,
                extent,
            ),
            forall|k: int| 0 <= k < i ==> (#[trigger] results[k]) == Ok::<ValueModel, Error>(out@[k]@),
        decreases fields.len() - i,
    {
        let f = &fields[i];
        let ext = if i + 1 == fields.len() {
            extent
        } else {
            None
        };
        proof {
            assert(results[i as int] == decode_field_spec(
                table@,
                bound,
                fields@,
                i as int,
                range.base(),
                range@,
                start as int,
                extent,
            ));
        }
        if f.offset > len - start {
            assert(results[i as int] is Err);
            return None;
        }
        match decode_inner(table, f.ty, range, start + f.offset, ext) {
            Ok(v) => {
                assert(results[i as int] == Ok::<ValueModel, Error>(v@));
                out.push(v);
            },
            Err(_) => {
                assert(results[i as int] is Err);
                return None;
            },
        }
        i += 1;
    }
    proof {
        assert(results.len() == fields@.len());
        assert(collect(results)->Some_0 =~= views(out@));
    }
    Some(out)
}

fn decode_elems(
    table: &TypeTable,
    bound: TypeId,
    elem: TypeId,
    count: usize,
    range: &ByteRange,
    start: usize,
) -> (r: Option<Vec<Value>>)
    requires
        start <= range@.len(),
        elem < bound,
    ensures
        members_view(r) == collect(
            elem_results(table@, bound, elem, count, range.base(), range@, start as int),
        ),
    decreases bound, 1int,
{
    let len: usize = range.len();
    let ghost results = elem_results(
        table@,
        bound,
        elem,
        count,
        range.base(),
        range@,
        start as int,
    );
    let size = match table.get(elem) {
        Ok(d) => d.size,
        Err(_) => {
            if count == 0 {
                let empty: Vec<Value> = Vec::new();
                proof {
                    assert(collect(results)->Some_0 =~= views(empty@));
                }
                return Some(empty);
            }
            proof {
                assert(results[0] == decode_elem_spec(
                    table@,
                    bound,
                    elem,
                    0,
                    range.base(),
                    range@,
                    start as int,
                ));
                assert(results[0] is Err);
            }
            return None;
        },
    };
    let mut out: Vec<Value> = Vec::new();
    let mut i: usize = 0;
    let mut pos: usize = start;
    while i < count
        invariant
            i <= count,
            out@.len() == i,
            start <= pos <= range@.len() == len,
            pos == start + i * size,
            elem < bound,
            elem < table@.types.len(),
            size == table@.types[elem as int].size,
            results == elem_results(
                table@,
                bound,
                elem,
                count,
                range.base(),
                range@,
                start as int,
            ),
            forall|k: int| 0 <= k < i ==> (#[trigger] results[k]) == Ok::<ValueModel, Error>(out@[k]@),
        decreases count - i,
    {
        proof {
            assert(results[i as int] == decode_elem_spec(
                table@,
                bound,
                elem,
                i as int,
                range.base(),
                range@,
                start as int,
            ));
        }
        match decode_inner(table, elem, range, pos, None) {
            Ok(v) => {
                assert(results[i as int] == Ok::<ValueModel, Error>(v@));
                assert(pos + size <= len);
                out.push(v);
            },
            Err(_) => {
                assert(results[i as int] is Err);
                return None;
            },
        }
        assert((i + 1) * size == i * size + size) by (nonlinear_arith);
        pos = pos + size;
        i += 1;
    }
    proof {
        assert(results.len() == count);
        assert(collect(results)->Some_0 =~= views(out@));
    }
    Some(out)
}

fn decode_pointer(
    table: &TypeTable,
    ty: TypeId,
    target: TypeId,
    size: usize,
    range: &ByteRange,
    start: usize,
) -> (r: Value)
    requires
        start + size <= range@.len(),
        size == table@.pointer_width || size == 2 * table@.pointer_width,
    ensures
        r@ == pointer_spec(table@, ty, target, size, range@, start as int),
{
    proof {
        use_type_invariant(table);
    }
    let pw = table.pointer_width();
    let len: usize = range.len();
    let first = read_word(range, start, pw);
    if size == pw {
        return Value::Reference { ty, address: first, metadata: None };
    }
    let second = read_word(range, start + pw, pw);
    let of_slice: Option<TypeId> = match table.get(target) {
        Ok(d) => match d.shape {
            Shape::Slice { elem } => Some(elem),
            _ => None,
        },
        Err(_) => None,
    };
    match of_slice {
        Some(elem) => Value::Slice { ty, elem, base: first, count: second },
        None => Value::Reference { ty, address: first, metadata: Some(second) },
    }
}

fn decode_inner(
    table: &TypeTable,
    ty: TypeId,
    range: &ByteRange,
    start: usize,
    extent: Option<u64>,
) -> (r: Result<Value, Error>)
    requires
        start <= range@.len(),
    ensures
        result_view(r) == decode_spec(table@, ty, range.base(), range@, start as int, extent),
    decreases ty, 2int,
{
    proof {
        use_type_invariant(table);
        use_type_invariant(range);
    }
    let d = match table.get(ty) {
        Ok(d) => d,
        Err(_) => {
            return Err(Error::NotFound);
        },
    };
    if d.size > range.len() - start {
        return Err(Error::MalformedLayout);
    }
    let here: u64 = range.address() + start as u64;
    match &d.shape {
        Shape::Primitive { kind } => Ok(
            Value::Scalar { ty, kind: *kind, bytes: copy_window(range, start, d.size) },
        ),
        Shape::Struct { fields } => match decode_fields(table, ty, fields, range, start, extent) {
            Some(members) => {
                proof {
                    lemma_aggregate_view(ty, here, members);
                }
                Ok(Value::Aggregate { ty, address: here, fields: members })
            },
            None => Err(Error::MalformedLayout),
        },
        Shape::TupleStruct { arity, fields } => match decode_fields(
            table,
            ty,
            fields,
            range,
            start,
            extent,
        ) {
            Some(members) => {
                proof {
                    lemma_aggregate_view(ty, here, members);
                }
                Ok(Value::Aggregate { ty, address: here, fields: members })
            },
            None => Err(Error::MalformedLayout),
        },
        Shape::Closure { fields } => match decode_fields(table, ty, fields, range, start, extent) {
            Some(members) => {
                proof {
                    lemma_aggregate_view(ty, here, members);
                }
                Ok(Value::Aggregate { ty, address: here, fields: members })
            },
            None => Err(Error::MalformedLayout),
        },
        Shape::Array { elem, count } => match decode_elems(
            table,
            ty,
            *elem,
            *count,
            range,
            start,
        ) {
            Some(members) => {
                proof {
                    lemma_aggregate_view(ty, here, members);
                }
                Ok(Value::Aggregate { ty, address: here, fields: members })
            },
            None => Err(Error::MalformedLayout),
        },
        Shape::Enum { variants, strategy } => {
            match choose_variant(variants, strategy, range, start) {
                None => Err(Error::MalformedLayout),
                Some(v) => {
                    assert(fields_below(variants@[v as int].fields@, ty as int));
                    match decode_fields(table, ty, &variants[v].fields, range, start, None) {
                        Some(payload) => {
                            proof {
                                lemma_enum_view(ty, v, payload);
                            }
                            Ok(Value::EnumValue { ty, variant: v, payload })
                        },
                        None => Err(Error::MalformedLayout),
                    }
                },
            }
        },
        Shape::Union { fields } => Ok(
            Value::Raw { ty, address: here, bytes: copy_window(range, start, d.size) },
        ),
        Shape::TraitObject => Ok(
            Value::Raw { ty, address: here, bytes: copy_window(range, start, d.size) },
        ),
        Shape::Slice { elem } => Ok(
            Value::Slice {
                ty,
                elem: *elem,
                base: here,
                count: match extent {
                    Some(n) => n,
                    None => 0,
                },
            },
        ),
        Shape::Pointer { target } => Ok(decode_pointer(table, ty, *target, d.size, range, start)),
        Shape::Reference { target } => Ok(
            decode_pointer(table, ty, *target, d.size, range, start),
        ),
        Shape::FunctionPointer => Ok(
            Value::Function { ty, symbol: read_word(range, start, d.size), receiver: None },
        ),
    }
}

/// Rebuilds the value of type `ty` found `start` bytes into the snapshot
/// `range`.  As [`decode`], for a value that does not lie at the start of the
/// bytes read.
pub fn decode_at(
    table: &TypeTable,
    ty: TypeId,
    range: &ByteRange,
    start: usize,
    extent: Option<u64>,
) -> (r: Result<Value, Error>)
    ensures
        result_view(r) == decode_spec(table@, ty, range.base(), range@, start as int, extent),
{
    if ty >= table.len() {
        return Err(Error::NotFound);
    }
    if start > range.len() {
        return Err(Error::MalformedLayout);
    }
    decode_inner(table, ty, range, start, extent)
}

/// Rebuilds the value of type `ty` from the snapshot `range`, which starts
/// where the value starts.
///
/// `extent` is the element count of the value's unsized tail, taken from the
/// metadata of the pointer through which the value was reached.  The result is
/// `NotFound` for a type that the table does not hold, `MalformedLayout` where
/// the bytes are fewer than the type's size or a discriminant selects no
/// variant, and otherwise the value that [`decode_spec`] describes.
pub fn decode(table: &TypeTable, ty: TypeId, range: &ByteRange, extent: Option<u64>) -> (r: Result<
    Value,
    Error,
>)
    ensures
        result_view(r) == decode_spec(table@, ty, range.base(), range@, 0, extent),
{
    decode_at(table, ty, range, 0, extent)
}

} // verus!
