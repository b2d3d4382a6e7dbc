//! Decoded run-time values.

use crate::types::{ScalarKind, TypeId};
use vstd::prelude::*;

verus! {

/// A value reconstructed from target memory, or built while an expression is
/// evaluated.  Immutable once made.  Each value records the descriptor it was
/// decoded under as `ty`; the descriptor is never changed through it.
#[derive(Debug, PartialEq, Eq)]
pub enum Value {
    /// The bytes of a primitive and how to read them.
    Scalar { ty: TypeId, kind: ScalarKind, bytes: Vec<u8> },
    /// The members of a struct, tuple struct, closure or array, in declaration
    /// order; their names are those of the descriptor.  `address` is where the
    /// aggregate was found.
    Aggregate { ty: TypeId, address: u64, fields: Vec<Value> },
    /// The live variant of an enum, by position, with its payload.
    EnumValue { ty: TypeId, variant: usize, payload: Vec<Value> },
    /// Bytes kept as found: a union, whose members are reinterpretations of
    /// the same range, or the body of a trait object.
    Raw { ty: TypeId, address: u64, bytes: Vec<u8> },
    /// A pointer or reference; the target is not read.  A wide pointer to
    /// anything but a slice keeps its second word as `metadata`.
    Reference { ty: TypeId, address: u64, metadata: Option<u64> },
    /// `count` elements of type `elem` starting at `base`.  The elements are
    /// not read.  `ty` is the type of the pointer or unsized sequence that was
    /// decoded, or of the value that the slice was cut from.
    Slice { ty: TypeId, elem: TypeId, base: u64, count: u64 },
    /// A function of the target, by entry address, with the receiver it is
    /// bound to if it was reached through a method call.
    Function { ty: TypeId, symbol: u64, receiver: Option<Box<Value>> },
}

/// The mathematical counterpart of [`Value`].
pub enum ValueModel {
    Scalar { ty: TypeId, kind: ScalarKind, bytes: Seq<u8> },
    Aggregate { ty: TypeId, address: u64, fields: Seq<ValueModel> },
    EnumValue { ty: TypeId, variant: usize, payload: Seq<ValueModel> },
    Raw { ty: TypeId, address: u64, bytes: Seq<u8> },
    Reference { ty: TypeId, address: u64, metadata: Option<u64> },
    Slice { ty: TypeId, elem: TypeId, base: u64, count: u64 },
    Function { ty: TypeId, symbol: u64, receiver: Option<Box<ValueModel>> },
}

impl View for Value {
    type V = ValueModel;

    open spec fn view(&self) -> ValueModel {
        self.model()
    }
}

impl Value {
    /// What the value is, member by member.
    pub open spec fn model(self) -> ValueModel
        decreases self,
    {
        match self {
            Value::Scalar { ty, kind, bytes } => ValueModel::Scalar {
                ty,
                kind,
                bytes: bytes@,
            },
            Value::Aggregate { ty, address, fields } => ValueModel::Aggregate {
                ty,
                address,
                fields: Seq::new(
                    fields@.len(),
                    |i: int|
                        if 0 <= i < fields@.len() {
                            fields@[i].model()
                        } else {
                            ValueModel::Raw { ty: 0, address: 0, bytes: Seq::empty() }
                        },
                ),
            },
            Value::EnumValue { ty, variant, payload } => ValueModel::EnumValue {
                ty,
                variant,
                payload: Seq::new(
                    payload@.len(),
                    |i: int|
                        if 0 <= i < payload@.len() {
                            payload@[i].model()
                        } else {
                            ValueModel::Raw { ty: 0, address: 0, bytes: Seq::empty() }
                        },
                ),
            },
            Value::Raw { ty, address, bytes } => ValueModel::Raw { ty, address, bytes: bytes@ },
            Value::Reference { ty, address, metadata } => ValueModel::Reference {
                ty,
                address,
                metadata,
            },
            Value::Slice { ty, elem, base, count } => ValueModel::Slice { ty, elem, base, count },
            Value::Function { ty, symbol, receiver } => ValueModel::Function {
                ty,
                symbol,
                receiver: match receiver {
                    Some(r) => Some(Box::new((*r).model())),
                    None => None,
                },
            },
        }
    }
}

impl Value {
    /// The type that the value was decoded under.
    pub fn ty(&self) -> (r: TypeId)
        ensures
            r == type_of(self@),
    {
        match self {
            Value::Scalar { ty, kind, bytes } => *ty,
            Value::Aggregate { ty, address, fields } => *ty,
            Value::EnumValue { ty, variant, payload } => *ty,
            Value::Raw { ty, address, bytes } => *ty,
            Value::Reference { ty, address, metadata } => *ty,
            Value::Slice { ty, elem, base, count } => *ty,
            Value::Function { ty, symbol, receiver } => *ty,
        }
    }

    /// A copy of the value, member by member.
    pub fn duplicate(&self) -> (r: Value)
        ensures
            r@ == self@,
        decreases self,
    {
        match self {
            Value::Scalar { ty, kind, bytes } => Value::Scalar {
                ty: *ty,
                kind: *kind,
                bytes: copy_bytes(bytes),
            },
            Value::Aggregate { ty, address, fields } => {
                let members = duplicate_all(fields);
                proof {
                    lemma_aggregate_view(*ty, *address, members);
                    lemma_aggregate_view(*ty, *address, *fields);
                }
                Value::Aggregate { ty: *ty, address: *address, fields: members }
            },
            Value::EnumValue { ty, variant, payload } => {
                let members = duplicate_all(payload);
                proof {
                    lemma_enum_view(*ty, *variant, members);
                    lemma_enum_view(*ty, *variant, *payload);
                }
                Value::EnumValue { ty: *ty, variant: *variant, payload: members }
            },
            Value::Raw { ty, address, bytes } => Value::Raw {
                ty: *ty,
                address: *address,
                bytes: copy_bytes(bytes),
            },
            Value::Reference { ty, address, metadata } => Value::Reference {
                ty: *ty,
                address: *address,
                metadata: *metadata,
            },
            Value::Slice { ty, elem, base, count } => Value::Slice {
                ty: *ty,
                elem: *elem,
                base: *base,
                count: *count,
            },
            Value::Function { ty, symbol, receiver } => Value::Function {
                ty: *ty,
                symbol: *symbol,
                receiver: match receiver {
                    Some(b) => Some(Box::new((**b).duplicate())),
                    None => None,
                },
            },
        }
    }
}

/// Copies of the values of `values`, in order.
pub fn duplicate_all(values: &Vec<Value>) -> (r: Vec<Value>)
    ensures
        views(r@) == views(values@),
    decreases values,
{
    let mut out: Vec<Value> = Vec::new();
    let mut i: usize = 0;
    while i < values.len()
        invariant
            i <= values.len(),
            out@.len() == i,
            forall|k: int| 0 <= k < i ==> (#[trigger] out@[k])@ == values@[k]@,
        decreases values.len() - i,
    {
        out.push(values[i].duplicate());
        i += 1;
    }
    assert(views(out@) =~= views(values@));
    out
}

/// A copy of `bytes`.
pub fn copy_bytes(bytes: &Vec<u8>) -> (r: Vec<u8>)
    ensures
        r@ == bytes@,
{
    let mut out: Vec<u8> = Vec::new();
    let mut i: usize = 0;
    while i < bytes.len()
        invariant
            i <= bytes.len(),
            out@ == bytes@.subrange(0, i as int),
        decreases bytes.len() - i,
    {
        out.push(bytes[i]);
        i += 1;
        assert(out@ =~= bytes@.subrange(0, i as int));
    }
    assert(out@ =~= bytes@);
    out
}

/// The type that a value was decoded under.
pub open spec fn type_of(v: ValueModel) -> TypeId {
    match v {
        ValueModel::Scalar { ty, kind, bytes } => ty,
        ValueModel::Aggregate { ty, address, fields } => ty,
        ValueModel::EnumValue { ty, variant, payload } => ty,
        ValueModel::Raw { ty, address, bytes } => ty,
        ValueModel::Reference { ty, address, metadata } => ty,
        ValueModel::Slice { ty, elem, base, count } => ty,
        ValueModel::Function { ty, symbol, receiver } => ty,
    }
}

/// The models of a sequence of values, in order.
pub open spec fn views(s: Seq<Value>) -> Seq<ValueModel> {
    Seq::new(s.len(), |i: int| s[i]@)
}

/// The model of an aggregate lists the models of its members.
pub proof fn lemma_aggregate_view(ty: TypeId, address: u64, fields: Vec<Value>)
    ensures
        (Value::Aggregate { ty, address, fields })@ == (ValueModel::Aggregate {
            ty,
            address,
            fields: views(fields@),
        }),
{
    let v = Value::Aggregate { ty, address, fields };
    assert(v@->Aggregate_fields =~= views(fields@));
}

/// The model of an enum value lists the models of its payload.
pub proof fn lemma_enum_view(ty: TypeId, variant: usize, payload: Vec<Value>)
    ensures
        (Value::EnumValue { ty, variant, payload })@ == (ValueModel::EnumValue {
            ty,
            variant,
            payload: views(payload@),
        }),
{
    let v = Value::EnumValue { ty, variant, payload };
    assert(v@->EnumValue_payload =~= views(payload@));
}

/// The model of a result: the model of the value, or the error.
pub open spec fn result_view(r: Result<Value, crate::error::Error>) -> Result<
    ValueModel,
    crate::error::Error,
> {
    match r {
        Ok(v) => Ok(v@),
        Err(e) => Err(e),
    }
}

} // verus!
