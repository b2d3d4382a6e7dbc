//! The expression evaluator.
//!
//! [`eval_spec`] says what every expression evaluates to in a context;
//! [`evaluate_expr`] computes it.  Evaluation only reads: the values of the
//! frame, a snapshot of memory, the scope hierarchy and the registries.  It
//! never runs target code.  Where an expression calls a function of the
//! target, evaluation stops with the request for that call; the embedding
//! debugger performs it and evaluates again with the answer added to
//! `results`.  Calls are answered in the order in which evaluation reaches
//! them, left to right.

use crate::access::{
    field, field_spec, index, index_spec, slice, slice_spec, tuple_index, tuple_index_spec,
};
use crate::bytes::{encode_le, is_negative, le_bytes, le_value, pow256, read_le, ByteRange};
use crate::decode::{decode_at, decode_spec};
use crate::dispatch::{resolve_method_spec, MethodEntry, MethodRegistry, ReceiverMode};
use crate::error::Error;
use crate::expr::{
    boxed_view, expr_views, lemma_call_view, lemma_method_call_view, lemma_struct_view,
    lemma_tuple_view, names_opt, Expr, ExprModel, Literal, LiteralModel,
};
use crate::parser::{parse, parse_spec};
use crate::scope::{
    names_of, Path, PathModel, PathRoot, ScopeId, ScopeModel, ScopeTree, Selector, SelectorModel,
    Symbol, SymbolId, SymbolKind,
};
use crate::format::{path_of, separator};
use crate::types::{Field, ScalarKind, Shape, TypeId, TypeModel, TypeTable};
use crate::value::{lemma_aggregate_view, result_view, type_of, views, Value, ValueModel};
use vstd::prelude::*;
use vstd::string::StringExecFns;

verus! {

/// A variable of the frame in which an expression is evaluated.
#[derive(Debug, PartialEq, Eq)]
pub struct Local {
    pub name: String,
    pub value: Value,
}

/// All that an evaluation may consult.
pub struct Context<'a> {
    pub types: &'a TypeTable,
    pub scopes: &'a ScopeTree,
    pub methods: &'a MethodRegistry,
    /// The scope of the evaluation point.
    pub scope: ScopeId,
    /// The variables of the frame, outermost first: a later one shadows an
    /// earlier one of its name.
    pub locals: &'a Vec<Local>,
    /// The snapshot in which statics and slice elements are looked for.
    pub memory: &'a ByteRange,
    /// The answers to the calls that this evaluation has requested so far.
    pub results: &'a Vec<Value>,
}

/// The mathematical counterpart of [`Context`].
pub struct ContextModel {
    pub types: TypeModel,
    pub scopes: ScopeModel,
    pub methods: Seq<MethodEntry>,
    pub scope: ScopeId,
    pub locals: Seq<Local>,
    pub mem_base: u64,
    pub memory: Seq<u8>,
    pub results: Seq<Value>,
}

impl<'a> View for Context<'a> {
    type V = ContextModel;

    open spec fn view(&self) -> ContextModel {
        ContextModel {
            types: self.types@,
            scopes: self.scopes@,
            methods: self.methods@,
            scope: self.scope,
            locals: self.locals@,
            mem_base: self.memory.base(),
            memory: self.memory@,
            results: self.results@,
        }
    }
}

/// What is to be called.
#[derive(Clone, Copy, Debug, PartialEq, Eq, Structural)]
pub enum CallTarget {
    /// A function known by its symbol.
    Symbol { id: SymbolId },
    /// A function known by its entry address only: the value of a field or
    /// variable that holds a function.
    Address { entry: u64 },
}

/// A call that the evaluation needs performed.
#[derive(Debug, PartialEq, Eq)]
pub struct CallRequest {
    pub target: CallTarget,
    /// The value that a method is called on.
    pub receiver: Option<Value>,
    /// Whether the method takes its receiver by reference, so that an owned
    /// receiver has to be referenced for the call.
    pub by_reference: bool,
    pub args: Vec<Value>,
}

/// The mathematical counterpart of [`CallRequest`].
pub struct CallModel {
    pub target: CallTarget,
    pub receiver: Option<ValueModel>,
    pub by_reference: bool,
    pub args: Seq<ValueModel>,
}

impl View for CallRequest {
    type V = CallModel;

    open spec fn view(&self) -> CallModel {
        CallModel {
            target: self.target,
            receiver: match self.receiver {
                Some(r) => Some(r@),
                None => None,
            },
            by_reference: self.by_reference,
            args: views(self.args@),
        }
    }
}

/// How far an evaluation got: to a value, having consumed the first `used`
/// answers; to a call that has no answer yet; or to a failure.
pub enum Step {
    Value { value: ValueModel, used: nat },
    Call { request: CallModel },
    Fail { error: Error },
}

/// How far the evaluation of a list of arguments got.
pub enum ArgsStep {
    Values { values: Seq<ValueModel>, used: nat },
    Call { request: CallModel },
    Fail { error: Error },
}

/// The executable counterpart of [`Step`].
pub enum Progress {
    Value { value: Value, used: usize },
    Call { request: CallRequest },
    Fail { error: Error },
}

impl View for Progress {
    type V = Step;

    open spec fn view(&self) -> Step {
        match self {
            Progress::Value { value, used } => Step::Value { value: value@, used: *used as nat },
            Progress::Call { request } => Step::Call { request: request@ },
            Progress::Fail { error } => Step::Fail { error: *error },
        }
    }
}

/// The executable counterpart of [`ArgsStep`].
pub enum ArgsProgress {
    Values { values: Vec<Value>, used: usize },
    Call { request: CallRequest },
    Fail { error: Error },
}

impl View for ArgsProgress {
    type V = ArgsStep;

    open spec fn view(&self) -> ArgsStep {
        match self {
            ArgsProgress::Values { values, used } => ArgsStep::Values {
                values: views(values@),
                used: *used as nat,
            },
            ArgsProgress::Call { request } => ArgsStep::Call { request: request@ },
            ArgsProgress::Fail { error } => ArgsStep::Fail { error: *error },
        }
    }
}

/// The step that ends in the value or the error of `r`.
pub open spec fn stepped(r: Result<ValueModel, Error>, used: nat) -> Step {
    match r {
        Ok(value) => Step::Value { value, used },
        Err(error) => Step::Fail { error },
    }
}

/// The outcome of a call: its answer, if the call has been performed, else
/// the request for it.
pub open spec fn answer(c: ContextModel, request: CallModel, used: nat) -> Step {
    if used < c.results.len() {
        Step::Value { value: c.results[used as int]@, used: used + 1 }
    } else {
        Step::Call { request }
    }
}

/// The last of the first `n` variables that is called `name`.
pub open spec fn find_local(locals: Seq<Local>, name: Seq<char>, n: nat) -> Option<int>
    decreases n,
{
    if n == 0 || n > locals.len() {
        None
    } else if locals[n - 1].name@ == name {
        Some(n - 1)
    } else {
        find_local(locals, name, (n - 1) as nat)
    }
}

/// The number that a value holds, for use as an index or a bound.  A value
/// that is no integer is `TypeMismatch`; a negative number, or one beyond 64
/// bits, is `OutOfRange`.
pub open spec fn integer_of(v: ValueModel) -> Result<u64, Error> {
    match v {
        ValueModel::Scalar { ty, kind, bytes } => if (kind is Unsigned || kind is Signed)
            && bytes.len() <= 16 {
            if (kind is Signed && is_negative(bytes)) || le_value(bytes) > u64::MAX {
                Err(Error::OutOfRange)
            } else {
                Ok(le_value(bytes) as u64)
            }
        } else {
            Err(Error::TypeMismatch)
        },
        _ => Err(Error::TypeMismatch),
    }
}

/// The bound that the value of a bound expression gives; no bound where none
/// was written.
pub open spec fn bound_of(written: bool, v: ValueModel) -> Result<Option<u64>, Error> {
    if written {
        match integer_of(v) {
            Ok(n) => Ok(Some(n)),
            Err(e) => Err(e),
        }
    } else {
        Ok(None)
    }
}

/// The scalar of the primitive type called `path` that holds the number `n`.
/// `NotFound` where the table has no such type, `TypeMismatch` where it is no
/// primitive or, if `integer` is set, no integer type, `OutOfRange` where the
/// type is too narrow for `n`.
pub open spec fn scalar_literal(types: TypeModel, path: Seq<char>, n: nat, integer: bool) -> Result<
    ValueModel,
    Error,
> {
    match types.find(path, Seq::empty()) {
        None => Err(Error::NotFound),
        Some(ty) => {
            let d = types.types[ty as int];
            if d.shape is Primitive && (!integer || d.shape->Primitive_kind is Unsigned
                || d.shape->Primitive_kind is Signed) {
                let kind = d.shape->Primitive_kind;
                let bytes = le_bytes(n, d.size as nat);
                if n / pow256(d.size as nat) != 0 || (kind is Signed && is_negative(bytes)) {
                    Err(Error::OutOfRange)
                } else {
                    Ok(ValueModel::Scalar { ty, kind, bytes })
                }
            } else {
                Err(Error::TypeMismatch)
            }
        },
    }
}

/// The bytes of a string literal under the type called `path`.
pub open spec fn raw_literal(types: TypeModel, path: Seq<char>, bytes: Seq<u8>) -> Result<
    ValueModel,
    Error,
> {
    match types.find(path, Seq::empty()) {
        None => Err(Error::NotFound),
        Some(ty) => Ok(ValueModel::Raw { ty, address: 0, bytes }),
    }
}

/// The value of a literal.  An integer has the type that its suffix names,
/// `isize` where it has none, and must fit it.  Floating-point literals have
/// no value here: `TypeMismatch`.
pub open spec fn literal_spec(types: TypeModel, literal: LiteralModel) -> Result<
    ValueModel,
    Error,
> {
    match literal {
        LiteralModel::Int { value, suffix } => scalar_literal(
            types,
            match suffix {
                Some(s) => s,
                None => "isize"@,
            },
            value as nat,
            true,
        ),
        LiteralModel::Float { text } => Err(Error::TypeMismatch),
        LiteralModel::Str { bytes } => raw_literal(types, "str"@, bytes),
        LiteralModel::ByteStr { bytes } => raw_literal(types, "[u8]"@, bytes),
        LiteralModel::Byte { value } => scalar_literal(types, "u8"@, value as nat, true),
        LiteralModel::Char { code } => scalar_literal(types, "char"@, code as nat, false),
        LiteralModel::Bool { value } => scalar_literal(
            types,
            "bool"@,
            if value {
                1
            } else {
                0
            },
            false,
        ),
        LiteralModel::Unit => scalar_literal(types, "()"@, 0, false),
    }
}

/// Whether `ty` is a struct without members.
pub open spec fn is_unit_struct(types: TypeModel, ty: TypeId) -> bool {
    ty < types.types.len() && types.types[ty as int].shape is Struct
        && types.types[ty as int].shape->Struct_fields@.len() == 0
}

/// The value that a symbol stands for: a function is its entry address, a
/// static is decoded from the snapshot (`IoError` where the snapshot does not
/// reach it), a struct without members is its only value, any other type is
/// no value (`TypeMismatch`).
pub open spec fn symbol_value(c: ContextModel, sym: Symbol) -> Result<ValueModel, Error> {
    match sym.kind {
        SymbolKind::Function => Ok(
            ValueModel::Function { ty: sym.ty, symbol: sym.address, receiver: None },
        ),
        SymbolKind::TraitMethod => Ok(
            ValueModel::Function { ty: sym.ty, symbol: sym.address, receiver: None },
        ),
        SymbolKind::Static => if sym.address < c.mem_base || sym.address - c.mem_base
            > c.memory.len() {
            Err(Error::IoError)
        } else {
            decode_spec(c.types, sym.ty, c.mem_base, c.memory, sym.address - c.mem_base, None)
        },
        SymbolKind::Type => if is_unit_struct(c.types, sym.ty) {
            Ok(ValueModel::Aggregate { ty: sym.ty, address: 0, fields: Seq::empty() })
        } else {
            Err(Error::TypeMismatch)
        },
    }
}

/// The variable of the frame that a path names: a path that is a single
/// name names the last variable that bears it.
pub open spec fn local_named(c: ContextModel, path: PathModel) -> Option<int> {
    if path.root is Lexical && path.segments.len() == 1 {
        find_local(c.locals, path.segments[0], c.locals.len())
    } else {
        None
    }
}

/// The value that a path names: the variable of the frame, if the path names
/// one; else the symbol that it resolves to.
pub open spec fn name_spec(c: ContextModel, path: PathModel) -> Result<ValueModel, Error> {
    match local_named(c, path) {
        Some(i) => Ok(c.locals[i].value@),
        None => match c.scopes.resolve(
            c.scope as int,
            path.root,
            path.segments,
            SelectorModel::Any,
        ) {
            Ok(y) => symbol_value(c, c.scopes.symbols[y]),
            Err(e) => Err(e),
        },
    }
}

/// The types named by the first `n` of `names`, or `None` where the table
/// lacks one.
pub open spec fn generic_ids(types: TypeModel, names: Seq<Seq<char>>, n: nat) -> Option<
    Seq<TypeId>,
>
    decreases n,
{
    if n == 0 || n > names.len() {
        Some(Seq::empty())
    } else {
        match (
            generic_ids(types, names, (n - 1) as nat),
            types.find(names[n - 1], Seq::empty()),
        ) {
            (Some(ids), Some(id)) => Some(ids.push(id)),
            _ => None,
        }
    }
}

/// The types of a list of values.
pub open spec fn types_of(values: Seq<ValueModel>) -> Seq<TypeId> {
    Seq::new(values.len(), |i: int| type_of(values[i]))
}

/// The function that a called path denotes for the given arguments.
///
/// The path is resolved as a function of that many parameters; among several
/// instances the generic arguments decide if they are written, else the types
/// of the arguments.  A path that names no function but whose last name is
/// declared on the type that the rest of the path names denotes that
/// associated function, inherent before trait-provided.
pub open spec fn callee_spec(
    c: ContextModel,
    path: PathModel,
    generics: Option<Seq<Seq<char>>>,
    args: Seq<ValueModel>,
) -> Result<SymbolId, Error> {
    let written = match generics {
        Some(names) => generic_ids(c.types, names, names.len()),
        None => Some(Seq::empty()),
    };
    if written is None {
        Err(Error::NotFound)
    } else {
        let sel = SelectorModel::Call {
            generic_args: if generics is Some {
                written
            } else {
                None
            },
            arg_types: types_of(args),
        };
        match c.scopes.resolve(c.scope as int, path.root, path.segments, sel) {
            Ok(y) => Ok(y as usize),
            Err(Error::NotFound) => associated_spec(c, path),
            Err(e) => Err(e),
        }
    }
}

/// The associated function that `path` denotes: its last name, looked up in
/// the registry on the type that the names before it name.
pub open spec fn associated_spec(c: ContextModel, path: PathModel) -> Result<SymbolId, Error> {
    if path.segments.len() < 2 {
        Err(Error::NotFound)
    } else {
        match c.scopes.resolve(
            c.scope as int,
            path.root,
            path.segments.drop_last(),
            SelectorModel::Any,
        ) {
            Ok(t) => if c.scopes.symbols[t].kind is Type {
                match resolve_method_spec(
                    c.methods,
                    c.scopes.symbols[t].ty,
                    path.segments.last(),
                ) {
                    Ok(i) => Ok(c.methods[i].symbol),
                    Err(e) => Err(e),
                }
            } else {
                Err(Error::NotFound)
            },
            Err(e) => Err(Error::NotFound),
        }
    }
}

/// What `receiver.name(args)` does.
///
/// The name is looked up as a method on the type of the receiver first,
/// inherent before trait-provided; a method found is what is called, with the
/// receiver bound.  Only where the type has no method of the name, a member
/// of that name that holds a function is called instead.
pub open spec fn method_call_spec(
    c: ContextModel,
    receiver: ValueModel,
    name: Seq<char>,
    args: Seq<ValueModel>,
    used: nat,
) -> Step {
    match resolve_method_spec(c.methods, type_of(receiver), name) {
        Ok(i) => answer(
            c,
            CallModel {
                target: CallTarget::Symbol { id: c.methods[i].symbol },
                receiver: Some(receiver),
                by_reference: c.methods[i].receiver is ByReference,
                args,
            },
            used,
        ),
        Err(Error::NotFound) => match field_spec(c.types, receiver, name) {
            Ok(ValueModel::Function { ty, symbol, receiver: bound }) => answer(
                c,
                CallModel {
                    target: CallTarget::Address { entry: symbol },
                    receiver: None,
                    by_reference: false,
                    args,
                },
                used,
            ),
            Ok(_) => Step::Fail { error: Error::TypeMismatch },
            Err(e) => Step::Fail { error: Error::NotFound },
        },
        Err(e) => Step::Fail { error: e },
    }
}

/// What calling the value `f` does: a function value is called by its entry
/// address, bound to the receiver it carries; any other value is
/// `TypeMismatch`.
pub open spec fn value_call_spec(c: ContextModel, f: ValueModel, args: Seq<ValueModel>, used: nat)
    -> Step {
    match f {
        ValueModel::Function { ty, symbol, receiver } => answer(
            c,
            CallModel {
                target: CallTarget::Address { entry: symbol },
                receiver: match receiver {
                    Some(r) => Some(*r),
                    None => None,
                },
                by_reference: false,
                args,
            },
            used,
        ),
        _ => Step::Fail { error: Error::TypeMismatch },
    }
}

/// The paths of the types of the first `n` values, separated by commas.
pub open spec fn joined_paths(types: TypeModel, values: Seq<ValueModel>, n: nat) -> Seq<char>
    decreases n,
{
    if n == 0 || n > values.len() {
        Seq::empty()
    } else {
        joined_paths(types, values, (n - 1) as nat) + separator(n - 1) + path_of(
            types,
            type_of(values[n - 1]),
        )
    }
}

/// The path under which the type of a tuple of these values is recorded:
/// `(A, B)`, and `(A,)` for a single value.
pub open spec fn tuple_path(types: TypeModel, values: Seq<ValueModel>) -> Seq<char> {
    "("@ + joined_paths(types, values, values.len()) + if values.len() == 1 {
        ",)"@
    } else {
        ")"@
    }
}

/// The tuple of the given values.  `NotFound` where the table does not hold
/// the type of such a tuple.
pub open spec fn tuple_spec(types: TypeModel, values: Seq<ValueModel>) -> Result<ValueModel, Error> {
    match types.find(tuple_path(types, values), Seq::empty()) {
        None => Err(Error::NotFound),
        Some(ty) => if types.types[ty as int].shape is TupleStruct
            && types.types[ty as int].shape->TupleStruct_arity == values.len() {
            Ok(ValueModel::Aggregate { ty, address: 0, fields: values })
        } else {
            Err(Error::TypeMismatch)
        },
    }
}

/// The first position from `from` on at which `names` has `name`.
pub open spec fn find_name(names: Seq<Seq<char>>, name: Seq<char>, from: int) -> Option<int>
    decreases names.len() - from,
{
    if from < 0 || from >= names.len() {
        None
    } else if names[from] == name {
        Some(from)
    } else {
        find_name(names, name, from + 1)
    }
}

/// The value written for the member `declared[i]`.
pub open spec fn written_for(declared: Seq<Field>, names: Seq<Seq<char>>, i: int) -> Option<int> {
    find_name(names, declared[i].name@, 0)
}

/// The values of a struct literal in the order in which the type declares
/// its members.  `TypeMismatch` where the literal has more or fewer members
/// than the type, `NotFound` where it lacks one that the type declares.
pub open spec fn arrange(declared: Seq<Field>, names: Seq<Seq<char>>, values: Seq<ValueModel>)
    -> Result<Seq<ValueModel>, Error> {
    if names.len() != declared.len() || values.len() != names.len() {
        Err(Error::TypeMismatch)
    } else if forall|i: int|
        0 <= i < declared.len() ==> (#[trigger] written_for(declared, names, i)) is Some {
        Ok(
            Seq::new(
                declared.len(),
                |i: int| values[written_for(declared, names, i)->Some_0],
            ),
        )
    } else {
        Err(Error::NotFound)
    }
}

/// The struct called `path` with the members given.
pub open spec fn struct_spec(
    c: ContextModel,
    path: PathModel,
    names: Seq<Seq<char>>,
    values: Seq<ValueModel>,
) -> Result<ValueModel, Error> {
    match c.scopes.resolve(c.scope as int, path.root, path.segments, SelectorModel::Any) {
        Err(e) => Err(e),
        Ok(y) => {
            let sym = c.scopes.symbols[y];
            if sym.kind is Type && sym.ty < c.types.types.len()
                && c.types.types[sym.ty as int].shape is Struct {
                match arrange(c.types.types[sym.ty as int].shape->Struct_fields@, names, values) {
                    Ok(fields) => Ok(ValueModel::Aggregate { ty: sym.ty, address: 0, fields }),
                    Err(e) => Err(e),
                }
            } else {
                Err(Error::TypeMismatch)
            }
        },
    }
}

/// The tuple struct called `path` with the members given, as in
/// `ByeBob(7, 8)`.  A path that names no type is `NotFound`; a type that is
/// no tuple struct of that many members is `TypeMismatch`.
pub open spec fn construct_spec(c: ContextModel, path: PathModel, values: Seq<ValueModel>)
    -> Result<ValueModel, Error> {
    match c.scopes.resolve(c.scope as int, path.root, path.segments, SelectorModel::Any) {
        Err(e) => Err(Error::NotFound),
        Ok(y) => {
            let sym = c.scopes.symbols[y];
            if !(sym.kind is Type) {
                Err(Error::NotFound)
            } else if sym.ty < c.types.types.len() && c.types.types[sym.ty as int].shape
                is TupleStruct && c.types.types[sym.ty as int].shape->TupleStruct_arity
                == values.len() {
                Ok(ValueModel::Aggregate { ty: sym.ty, address: 0, fields: values })
            } else {
                Err(Error::TypeMismatch)
            }
        },
    }
}

/// `(items)`, given how far the items got.
pub open spec fn then_tuple(c: ContextModel, items: ArgsStep) -> Step {
    match items {
        ArgsStep::Values { values, used } => stepped(tuple_spec(c.types, values), used),
        ArgsStep::Call { request } => Step::Call { request },
        ArgsStep::Fail { error } => Step::Fail { error },
    }
}

/// `path { names: values }`, given how far the values got.
pub open spec fn then_struct(
    c: ContextModel,
    path: PathModel,
    names: Seq<Seq<char>>,
    values: ArgsStep,
) -> Step {
    match values {
        ArgsStep::Values { values, used } => stepped(struct_spec(c, path, names, values), used),
        ArgsStep::Call { request } => Step::Call { request },
        ArgsStep::Fail { error } => Step::Fail { error },
    }
}

/// How far the evaluation of a slice bound got.
pub enum BoundStep {
    Bound { at: Option<u64>, used: nat },
    Stop { step: Step },
}

/// The bound that a step towards it gives; no bound where none was written.
pub open spec fn bound_step(written: bool, s: Step) -> BoundStep {
    match s {
        Step::Value { value, used } => match bound_of(written, value) {
            Ok(at) => BoundStep::Bound { at, used },
            Err(error) => BoundStep::Stop { step: Step::Fail { error } },
        },
        other => BoundStep::Stop { step: other },
    }
}

/// The method called `name` on the type of `receiver`, as a function value
/// bound to the receiver.
pub open spec fn bound_method(c: ContextModel, receiver: ValueModel, name: Seq<char>) -> Result<
    ValueModel,
    Error,
> {
    match resolve_method_spec(c.methods, type_of(receiver), name) {
        Ok(i) => if c.methods[i].symbol < c.scopes.symbols.len() {
            let sym = c.scopes.symbols[c.methods[i].symbol as int];
            Ok(
                ValueModel::Function {
                    ty: sym.ty,
                    symbol: sym.address,
                    receiver: Some(Box::new(receiver)),
                },
            )
        } else {
            Err(Error::NotFound)
        },
        Err(e) => Err(e),
    }
}

/// The value of `value.name`: the member of that name; where the value has
/// none, the method of that name, bound to the value.
pub open spec fn member_spec(c: ContextModel, value: ValueModel, name: Seq<char>) -> Result<
    ValueModel,
    Error,
> {
    match field_spec(c.types, value, name) {
        Ok(v) => Ok(v),
        Err(e) => match bound_method(c, value, name) {
            Ok(f) => Ok(f),
            Err(Error::Ambiguous) => Err(Error::Ambiguous),
            Err(other) => Err(e),
        },
    }
}

/// `base.name`, given how far `base` got.
pub open spec fn then_field(c: ContextModel, base: Step, name: Seq<char>) -> Step {
    match base {
        Step::Value { value, used } => stepped(member_spec(c, value, name), used),
        other => other,
    }
}

/// `base.k`, given how far `base` got.
pub open spec fn then_tuple_index(c: ContextModel, base: Step, k: usize) -> Step {
    match base {
        Step::Value { value, used } => stepped(tuple_index_spec(c.types, value, k), used),
        other => other,
    }
}

/// `value[at]`, given how far `at` got.
pub open spec fn then_index(c: ContextModel, value: ValueModel, at: Step) -> Step {
    match at {
        Step::Value { value: i, used } => match integer_of(i) {
            Ok(n) => stepped(index_spec(c.types, value, n, c.mem_base, c.memory), used),
            Err(error) => Step::Fail { error },
        },
        other => other,
    }
}

/// `receiver.name(args)`, given how far the arguments got.
pub open spec fn then_method(c: ContextModel, receiver: ValueModel, name: Seq<char>, args: ArgsStep)
    -> Step {
    match args {
        ArgsStep::Values { values, used } => method_call_spec(c, receiver, name, values, used),
        ArgsStep::Call { request } => Step::Call { request },
        ArgsStep::Fail { error } => Step::Fail { error },
    }
}

/// `path(args)`, given how far the arguments got: a call of the function
/// that the path denotes or, where it denotes none, the tuple struct that it
/// names.
pub open spec fn then_call(
    c: ContextModel,
    path: PathModel,
    generics: Option<Seq<Seq<char>>>,
    args: ArgsStep,
) -> Step {
    match args {
        ArgsStep::Values { values, used } => match callee_spec(c, path, generics, values) {
            Ok(id) => answer(
                c,
                CallModel {
                    target: CallTarget::Symbol { id },
                    receiver: None,
                    by_reference: false,
                    args: values,
                },
                used,
            ),
            Err(Error::NotFound) => stepped(construct_spec(c, path, values), used),
            Err(error) => Step::Fail { error },
        },
        ArgsStep::Call { request } => Step::Call { request },
        ArgsStep::Fail { error } => Step::Fail { error },
    }
}

/// `(f)(args)`, given how far the arguments got.
pub open spec fn then_value_call(c: ContextModel, f: ValueModel, args: ArgsStep) -> Step {
    match args {
        ArgsStep::Values { values, used } => value_call_spec(c, f, values, used),
        ArgsStep::Call { request } => Step::Call { request },
        ArgsStep::Fail { error } => Step::Fail { error },
    }
}

/// What the expression `e` evaluates to in the context `c` when the first
/// `used` answers of `c.results` have been consumed.  Operands are evaluated
/// left to right; the first call without an answer and the first failure end
/// the evaluation.
///
/// A call whose callee is a path calls the function that the path denotes
/// for the arguments, unless the path names a variable of the frame: then,
/// as for any other callee, the value is called.
pub open spec fn eval_spec(c: ContextModel, e: ExprModel, used: nat) -> Step
    decreases e, 0nat,
{
    match e {
        ExprModel::Literal { literal } => stepped(literal_spec(c.types, literal), used),
        ExprModel::Name { path, generics } => stepped(name_spec(c, path), used),
        ExprModel::Field { base, name } => then_field(c, eval_spec(c, *base, used), name),
        ExprModel::TupleIndex { base, index } => then_tuple_index(
            c,
            eval_spec(c, *base, used),
            index,
        ),
        ExprModel::Index { base, index } => match eval_spec(c, *base, used) {
            Step::Value { value, used: u } => then_index(c, value, eval_spec(c, *index, u)),
            other => other,
        },
        ExprModel::Slice { base, from, to } => match eval_spec(c, *base, used) {
            Step::Value { value, used: u } => match bound_step(
                from is Some,
                eval_bound_spec(c, from, value, u),
            ) {
                BoundStep::Bound { at: lo, used: u1 } => match bound_step(
                    to is Some,
                    eval_bound_spec(c, to, value, u1),
                ) {
                    BoundStep::Bound { at: hi, used: u2 } => stepped(
                        slice_spec(c.types, value, lo, hi),
                        u2,
                    ),
                    BoundStep::Stop { step } => step,
                },
                BoundStep::Stop { step } => step,
            },
            other => other,
        },
        ExprModel::Assign { target, value } => match eval_spec(c, *target, used) {
            Step::Value { value: old, used: u } => eval_spec(c, *value, u),
            other => other,
        },
        ExprModel::Tuple { items } => then_tuple(
            c,
            eval_args_spec(c, items, items.len(), used),
        ),
        ExprModel::Struct { path, names, values } => then_struct(
            c,
            path,
            names,
            eval_args_spec(c, values, values.len(), used),
        ),
        ExprModel::MethodCall { receiver, name, args } => match eval_spec(c, *receiver, used) {
            Step::Value { value, used: u } => then_method(
                c,
                value,
                name,
                eval_args_spec(c, args, args.len(), u),
            ),
            other => other,
        },
        ExprModel::Call { callee, args } => if *callee is Name && local_named(
            c,
            callee->Name_path,
        ) is None {
            then_call(
                c,
                callee->Name_path,
                callee->Name_generics,
                eval_args_spec(c, args, args.len(), used),
            )
        } else {
            match eval_spec(c, *callee, used) {
                Step::Value { value, used: u } => then_value_call(
                    c,
                    value,
                    eval_args_spec(c, args, args.len(), u),
                ),
                other => other,
            }
        },
    }
}

/// The value of a bound of a slice expression; where none is written, the
/// value sliced stands in and no answer is consumed.
pub open spec fn eval_bound_spec(
    c: ContextModel,
    bound: Option<Box<ExprModel>>,
    base: ValueModel,
    used: nat,
) -> Step
    decreases bound, 1nat,
{
    match bound {
        Some(e) => eval_spec(c, *e, used),
        None => Step::Value { value: base, used },
    }
}

/// The values of the first `n` arguments, evaluated left to right.
pub open spec fn eval_args_spec(c: ContextModel, args: Seq<ExprModel>, n: nat, used: nat)
    -> ArgsStep
    decreases args, n,
{
    if n == 0 || n > args.len() {
        ArgsStep::Values { values: Seq::empty(), used }
    } else {
        match eval_args_spec(c, args, (n - 1) as nat, used) {
            ArgsStep::Values { values, used: u } => match eval_spec(c, args[n - 1], u) {
                Step::Value { value, used: u2 } => ArgsStep::Values {
                    values: values.push(value),
                    used: u2,
                },
                Step::Call { request } => ArgsStep::Call { request },
                Step::Fail { error } => ArgsStep::Fail { error },
            },
            other => other,
        }
    }
}

/// The result of an evaluation that has come to its end.
#[derive(Debug, PartialEq, Eq)]
pub enum Outcome {
    /// The value of the expression.
    Done { value: Value },
    /// The call that has to be performed before evaluation can go on.
    Call { request: CallRequest },
}

/// Once an argument asks for a call or fails, the arguments after it do not
/// change the answer.
pub proof fn lemma_args_stop(c: ContextModel, args: Seq<ExprModel>, i: nat, n: nat, used: nat)
    requires
        i <= n <= args.len(),
        !(eval_args_spec(c, args, i, used) is Values),
    ensures
        eval_args_spec(c, args, n, used) == eval_args_spec(c, args, i, used),
    decreases n,
{
    if i < n {
        lemma_args_stop(c, args, i, (n - 1) as nat, used);
    }
}

fn local_position(locals: &Vec<Local>, name: &String) -> (r: Option<usize>)
    ensures
        match r {
            Some(i) => find_local(locals@, name@, locals@.len()) == Some(i as int) && i
                < locals@.len(),
            None => find_local(locals@, name@, locals@.len()) is None,
        },
{
    let mut n: usize = locals.len();
    while n > 0
        invariant
            n <= locals.len(),
            find_local(locals@, name@, locals@.len()) == find_local(locals@, name@, n as nat),
        decreases n,
    {
        if locals[n - 1].name == *name {
            return Some(n - 1);
        }
        n -= 1;
    }
    None
}

/// The number that a value holds; see [`integer_of`].
pub fn integer_value(v: &Value) -> (r: Result<u64, Error>)
    ensures
        r == integer_of(v@),
{
    match v {
        Value::Scalar { ty, kind, bytes } => {
            let signed = match kind {
                ScalarKind::Unsigned => false,
                ScalarKind::Signed => true,
                _ => {
                    return Err(Error::TypeMismatch);
                },
            };
            if bytes.len() > 16 {
                return Err(Error::TypeMismatch);
            }
            if signed && bytes.len() > 0 && bytes[bytes.len() - 1] >= 128 {
                return Err(Error::OutOfRange);
            }
            assert(bytes@.subrange(0, bytes@.len() as int) =~= bytes@);
            let n: u128 = read_le(bytes.as_slice(), 0, bytes.len());
            if n > u64::MAX as u128 {
                return Err(Error::OutOfRange);
            }
            Ok(n as u64)
        },
        _ => Err(Error::TypeMismatch),
    }
}

fn scalar_of(types: &TypeTable, path: &str, n: u128, integer: bool) -> (r: Result<Value, Error>)
    ensures
        result_view(r) == scalar_literal(types@, path@, n as nat, integer),
{
    let name: String = path.to_owned();
    let none: Vec<TypeId> = Vec::new();
    assert(none@ =~= Seq::<TypeId>::empty());
    let ty = match types.lookup(&name, &none) {
        Ok(ty) => ty,
        Err(_) => {
            return Err(Error::NotFound);
        },
    };
    let d = match types.get(ty) {
        Ok(d) => d,
        Err(_) => {
            return Err(Error::NotFound);
        },
    };
    match d.shape {
        Shape::Primitive { kind } => {
            let whole = match kind {
                ScalarKind::Unsigned => true,
                ScalarKind::Signed => true,
                _ => false,
            };
            if integer && !whole {
                return Err(Error::TypeMismatch);
            }
            let (bytes, fits) = encode_le(n, d.size);
            if !fits {
                return Err(Error::OutOfRange);
            }
            let negative = match kind {
                ScalarKind::Signed => bytes.len() > 0 && bytes[bytes.len() - 1] >= 128,
                _ => false,
            };
            if negative {
                return Err(Error::OutOfRange);
            }
            Ok(Value::Scalar { ty, kind, bytes })
        },
        _ => Err(Error::TypeMismatch),
    }
}

fn raw_of(types: &TypeTable, path: &str, bytes: &Vec<u8>) -> (r: Result<Value, Error>)
    ensures
        result_view(r) == raw_literal(types@, path@, bytes@),
{
    let name: String = path.to_owned();
    let none: Vec<TypeId> = Vec::new();
    assert(none@ =~= Seq::<TypeId>::empty());
    match types.lookup(&name, &none) {
        Ok(ty) => Ok(Value::Raw { ty, address: 0, bytes: crate::value::copy_bytes(bytes) }),
        Err(_) => Err(Error::NotFound),
    }
}

/// The value of a literal; see [`literal_spec`].
pub fn literal_value(types: &TypeTable, literal: &Literal) -> (r: Result<Value, Error>)
    ensures
        result_view(r) == literal_spec(types@, literal@),
{
    match literal {
        Literal::Int { value, suffix } => match suffix {
            Some(s) => scalar_of(types, s.as_str(), *value, true),
            None => scalar_of(types, "isize", *value, true),
        },
        Literal::Float { text } => Err(Error::TypeMismatch),
        Literal::Str { bytes } => raw_of(types, "str", bytes),
        Literal::ByteStr { bytes } => raw_of(types, "[u8]", bytes),
        Literal::Byte { value } => scalar_of(types, "u8", *value as u128, true),
        Literal::Char { code } => scalar_of(types, "char", *code as u128, false),
        Literal::Bool { value } => scalar_of(
            types,
            "bool",
            if *value {
                1
            } else {
                0
            },
            false,
        ),
        Literal::Unit => scalar_of(types, "()", 0, false),
    }
}

fn value_of_symbol(c: &Context, sym: &Symbol) -> (r: Result<Value, Error>)
    ensures
        result_view(r) == symbol_value(c@, *sym),
{
    match sym.kind {
        SymbolKind::Function => Ok(
            Value::Function { ty: sym.ty, symbol: sym.address, receiver: None },
        ),
        SymbolKind::TraitMethod => Ok(
            Value::Function { ty: sym.ty, symbol: sym.address, receiver: None },
        ),
        SymbolKind::Static => {
            let base = c.memory.address();
            if sym.address < base {
                return Err(Error::IoError);
            }
            let offset: u64 = sym.address - base;
            if offset > c.memory.len() as u64 {
                return Err(Error::IoError);
            }
            decode_at(c.types, sym.ty, c.memory, offset as usize, None)
        },
        SymbolKind::Type => {
            let unit = match c.types.get(sym.ty) {
                Ok(d) => match &d.shape {
                    Shape::Struct { fields } => fields.len() == 0,
                    _ => false,
                },
                Err(_) => false,
            };
            if unit {
                let none: Vec<Value> = Vec::new();
                proof {
                    lemma_aggregate_view(sym.ty, 0, none);
                    assert(views(none@) =~= Seq::<ValueModel>::empty());
                }
                Ok(Value::Aggregate { ty: sym.ty, address: 0, fields: none })
            } else {
                Err(Error::TypeMismatch)
            }
        },
    }
}

fn local_of(c: &Context, path: &Path) -> (r: Option<usize>)
    ensures
        match r {
            Some(i) => local_named(c@, path@) == Some(i as int) && i < c@.locals.len(),
            None => local_named(c@, path@) is None,
        },
{
    let lexical = match path.root {
        PathRoot::Lexical => true,
        _ => false,
    };
    if lexical && path.segments.len() == 1 {
        local_position(c.locals, &path.segments[0])
    } else {
        None
    }
}

fn value_of_name(c: &Context, path: &Path) -> (r: Result<Value, Error>)
    ensures
        result_view(r) == name_spec(c@, path@),
{
    match local_of(c, path) {
        Some(i) => {
            return Ok(c.locals[i].value.duplicate());
        },
        None => {},
    }
    let any = Selector::Any;
    match c.scopes.resolve(c.scope, path, &any) {
        Ok(y) => match c.scopes.symbol(y) {
            Ok(sym) => value_of_symbol(c, sym),
            Err(e) => Err(e),
        },
        Err(e) => Err(e),
    }
}

fn ids_of_names(types: &TypeTable, names: &Vec<String>) -> (r: Option<Vec<TypeId>>)
    ensures
        match r {
            Some(ids) => generic_ids(types@, names_of(names@), names@.len()) == Some(ids@),
            None => generic_ids(types@, names_of(names@), names@.len()) is None,
        },
{
    let none: Vec<TypeId> = Vec::new();
    assert(none@ =~= Seq::<TypeId>::empty());
    let mut ids: Vec<TypeId> = Vec::new();
    let mut i: usize = 0;
    while i < names.len()
        invariant
            i <= names.len(),
            none@ == Seq::<TypeId>::empty(),
            generic_ids(types@, names_of(names@), i as nat) == Some(ids@),
        decreases names.len() - i,
    {
        match types.lookup(&names[i], &none) {
            Ok(id) => {
                ids.push(id);
            },
            Err(_) => {
                proof {
                    lemma_generic_ids_stop(
                        types@,
                        names_of(names@),
                        (i + 1) as nat,
                        names@.len(),
                    );
                }
                return None;
            },
        }
        i += 1;
    }
    Some(ids)
}

/// Once a name is not the name of a type, the names after it do not matter.
pub proof fn lemma_generic_ids_stop(types: TypeModel, names: Seq<Seq<char>>, i: nat, n: nat)
    requires
        i <= n <= names.len(),
        generic_ids(types, names, i) is None,
    ensures
        generic_ids(types, names, n) is None,
    decreases n,
{
    if i < n {
        lemma_generic_ids_stop(types, names, i, (n - 1) as nat);
    }
}

fn types_of_values(values: &Vec<Value>) -> (r: Vec<TypeId>)
    ensures
        r@ == types_of(views(values@)),
{
    let mut out: Vec<TypeId> = Vec::new();
    let mut i: usize = 0;
    while i < values.len()
        invariant
            i <= values.len(),
            out@.len() == i,
            forall|k: int| 0 <= k < i ==> out@[k] == type_of(#[trigger] values@[k]@),
        decreases values.len() - i,
    {
        out.push(values[i].ty());
        i += 1;
    }
    assert(out@ =~= types_of(views(values@)));
    out
}

fn associated(c: &Context, path: &Path) -> (r: Result<SymbolId, Error>)
    ensures
        r == associated_spec(c@, path@),
{
    let n: usize = path.segments.len();
    if n < 2 {
        return Err(Error::NotFound);
    }
    let mut prefix: Vec<String> = Vec::new();
    let mut i: usize = 0;
    while i < n - 1
        invariant
            i <= n - 1,
            n == path.segments@.len(),
            prefix@ == path.segments@.subrange(0, i as int),
        decreases n - 1 - i,
    {
        prefix.push(path.segments[i].clone());
        i += 1;
        assert(prefix@ =~= path.segments@.subrange(0, i as int));
    }
    assert(prefix@ =~= path.segments@.drop_last());
    assert(names_of(prefix@) =~= path@.segments.drop_last());
    let owner = Path { root: path.root, segments: prefix };
    let any = Selector::Any;
    match c.scopes.resolve(c.scope, &owner, &any) {
        Ok(t) => match c.scopes.symbol(t) {
            Ok(sym) => match sym.kind {
                SymbolKind::Type => match c.methods.resolve_method(sym.ty, &path.segments[n - 1]) {
                    Ok(m) => match c.methods.entry(m) {
                        Ok(entry) => Ok(entry.symbol),
                        Err(e) => Err(e),
                    },
                    Err(e) => Err(e),
                },
                _ => Err(Error::NotFound),
            },
            Err(e) => Err(Error::NotFound),
        },
        Err(e) => Err(Error::NotFound),
    }
}

fn callee_of(c: &Context, path: &Path, generics: &Option<Vec<String>>, args: &Vec<Value>) -> (r:
    Result<SymbolId, Error>)
    ensures
        r == callee_spec(c@, path@, names_opt(*generics), views(args@)),
{
    let written: Option<Vec<TypeId>> = match generics {
        Some(names) => match ids_of_names(c.types, names) {
            Some(ids) => Some(ids),
            None => {
                return Err(Error::NotFound);
            },
        },
        None => None,
    };
    let sel = Selector::Call { generic_args: written, arg_types: types_of_values(args) };
    match c.scopes.resolve(c.scope, path, &sel) {
        Ok(y) => Ok(y),
        Err(Error::NotFound) => associated(c, path),
        Err(e) => Err(e),
    }
}

fn answer_of(c: &Context, request: CallRequest, used: usize) -> (r: Progress)
    ensures
        r@ == answer(c@, request@, used as nat),
{
    if used < c.results.len() {
        Progress::Value { value: c.results[used].duplicate(), used: used + 1 }
    } else {
        Progress::Call { request }
    }
}

fn method_call(c: &Context, receiver: Value, name: &String, args: Vec<Value>, used: usize) -> (r:
    Progress)
    ensures
        r@ == method_call_spec(c@, receiver@, name@, views(args@), used as nat),
{
    match c.methods.resolve_method(receiver.ty(), name) {
        Ok(m) => match c.methods.entry(m) {
            Ok(entry) => {
                let by_reference = match entry.receiver {
                    ReceiverMode::ByReference => true,
                    _ => false,
                };
                answer_of(
                    c,
                    CallRequest {
                        target: CallTarget::Symbol { id: entry.symbol },
                        receiver: Some(receiver),
                        by_reference,
                        args,
                    },
                    used,
                )
            },
            Err(e) => Progress::Fail { error: e },
        },
        Err(Error::NotFound) => match field(c.types, &receiver, name) {
            Ok(Value::Function { ty, symbol, receiver: bound }) => answer_of(
                c,
                CallRequest {
                    target: CallTarget::Address { entry: symbol },
                    receiver: None,
                    by_reference: false,
                    args,
                },
                used,
            ),
            Ok(_) => Progress::Fail { error: Error::TypeMismatch },
            Err(e) => Progress::Fail { error: Error::NotFound },
        },
        Err(e) => Progress::Fail { error: e },
    }
}

fn value_call(c: &Context, f: Value, args: Vec<Value>, used: usize) -> (r: Progress)
    ensures
        r@ == value_call_spec(c@, f@, views(args@), used as nat),
{
    match f {
        Value::Function { ty, symbol, receiver } => answer_of(
            c,
            CallRequest {
                target: CallTarget::Address { entry: symbol },
                receiver: match receiver {
                    Some(b) => Some(*b),
                    None => None,
                },
                by_reference: false,
                args,
            },
            used,
        ),
        _ => Progress::Fail { error: Error::TypeMismatch },
    }
}

fn progress_of(r: Result<Value, Error>, used: usize) -> (p: Progress)
    ensures
        p@ == stepped(result_view(r), used as nat),
{
    match r {
        Ok(value) => Progress::Value { value, used },
        Err(error) => Progress::Fail { error },
    }
}

fn eval_args(c: &Context, args: &Vec<Expr>, used: usize) -> (r: ArgsProgress)
    ensures
        r@ == eval_args_spec(c@, expr_views(args@), args@.len(), used as nat),
    decreases args, 0nat,
{
    let mut values: Vec<Value> = Vec::new();
    let mut u: usize = used;
    let mut i: usize = 0;
    assert(views(values@) =~= Seq::<ValueModel>::empty());
    while i < args.len()
        invariant
            i <= args.len(),
            eval_args_spec(c@, expr_views(args@), i as nat, used as nat) == (ArgsStep::Values {
                values: views(values@),
                used: u as nat,
            }),
        decreases args.len() - i,
    {
        match eval(c, &args[i], u) {
            Progress::Value { value, used: u2 } => {
                let ghost before = views(values@);
                values.push(value);
                assert(views(values@) =~= before.push(value@));
                u = u2;
            },
            Progress::Call { request } => {
                proof {
                    lemma_args_stop(
                        c@,
                        expr_views(args@),
                        (i + 1) as nat,
                        args@.len(),
                        used as nat,
                    );
                }
                return ArgsProgress::Call { request };
            },
            Progress::Fail { error } => {
                proof {
                    lemma_args_stop(
                        c@,
                        expr_views(args@),
                        (i + 1) as nat,
                        args@.len(),
                        used as nat,
                    );
                }
                return ArgsProgress::Fail { error };
            },
        }
        i += 1;
    }
    ArgsProgress::Values { values, used: u }
}

/// The executable counterpart of [`BoundStep`].
pub enum BoundProgress {
    Bound { at: Option<u64>, used: usize },
    Stop { step: Progress },
}

impl View for BoundProgress {
    type V = BoundStep;

    open spec fn view(&self) -> BoundStep {
        match self {
            BoundProgress::Bound { at, used } => BoundStep::Bound { at: *at, used: *used as nat },
            BoundProgress::Stop { step } => BoundStep::Stop { step: step@ },
        }
    }
}

fn method_value(c: &Context, receiver: Value, name: &String) -> (r: Result<Value, Error>)
    ensures
        result_view(r) == bound_method(c@, receiver@, name@),
{
    match c.methods.resolve_method(receiver.ty(), name) {
        Ok(m) => match c.methods.entry(m) {
            Ok(entry) => match c.scopes.symbol(entry.symbol) {
                Ok(sym) => Ok(
                    Value::Function {
                        ty: sym.ty,
                        symbol: sym.address,
                        receiver: Some(Box::new(receiver)),
                    },
                ),
                Err(_) => Err(Error::NotFound),
            },
            Err(e) => Err(e),
        },
        Err(e) => Err(e),
    }
}

fn member_value(c: &Context, value: Value, name: &String) -> (r: Result<Value, Error>)
    ensures
        result_view(r) == member_spec(c@, value@, name@),
{
    match field(c.types, &value, name) {
        Ok(v) => Ok(v),
        Err(e) => match method_value(c, value, name) {
            Ok(f) => Ok(f),
            Err(Error::Ambiguous) => Err(Error::Ambiguous),
            Err(other) => Err(e),
        },
    }
}

fn finish_field(c: &Context, base: Progress, name: &String) -> (r: Progress)
    ensures
        r@ == then_field(c@, base@, name@),
{
    match base {
        Progress::Value { value, used } => progress_of(member_value(c, value, name), used),
        other => other,
    }
}

fn finish_tuple_index(c: &Context, base: Progress, k: usize) -> (r: Progress)
    ensures
        r@ == then_tuple_index(c@, base@, k),
{
    match base {
        Progress::Value { value, used } => progress_of(tuple_index(c.types, &value, k), used),
        other => other,
    }
}

fn finish_index(c: &Context, value: &Value, at: Progress) -> (r: Progress)
    ensures
        r@ == then_index(c@, value@, at@),
{
    match at {
        Progress::Value { value: i, used } => match integer_value(&i) {
            Ok(n) => progress_of(index(c.types, value, n, c.memory), used),
            Err(error) => Progress::Fail { error },
        },
        other => other,
    }
}

fn finish_bound(written: bool, s: Progress) -> (r: BoundProgress)
    ensures
        r@ == bound_step(written, s@),
{
    match s {
        Progress::Value { value, used } => {
            if written {
                match integer_value(&value) {
                    Ok(n) => BoundProgress::Bound { at: Some(n), used },
                    Err(error) => BoundProgress::Stop { step: Progress::Fail { error } },
                }
            } else {
                BoundProgress::Bound { at: None, used }
            }
        },
        other => BoundProgress::Stop { step: other },
    }
}

fn finish_method(c: &Context, receiver: Value, name: &String, args: ArgsProgress) -> (r: Progress)
    ensures
        r@ == then_method(c@, receiver@, name@, args@),
{
    match args {
        ArgsProgress::Values { values, used } => method_call(c, receiver, name, values, used),
        ArgsProgress::Call { request } => Progress::Call { request },
        ArgsProgress::Fail { error } => Progress::Fail { error },
    }
}

fn tuple_value(types: &TypeTable, values: Vec<Value>) -> (r: Result<Value, Error>)
    ensures
        result_view(r) == tuple_spec(types@, views(values@)),
{
    let mut path = String::new();
    path.append("(");
    let ghost head = path@;
    let mut i: usize = 0;
    assert(path@ =~= head + joined_paths(types@, views(values@), 0));
    while i < values.len()
        invariant
            i <= values.len(),
            path@ == head + joined_paths(types@, views(values@), i as nat),
        decreases values.len() - i,
    {
        if i > 0 {
            path.append(", ");
        }
        match types.get(values[i].ty()) {
            Ok(d) => {
                path.append(d.path.as_str());
            },
            Err(_) => {
                path.append("?");
            },
        }
        i += 1;
        assert(path@ =~= head + joined_paths(types@, views(values@), i as nat)) by {
            assert(views(values@)[i - 1] == values@[i - 1]@);
        }
    }
    if values.len() == 1 {
        path.append(",)");
    } else {
        path.append(")");
    }
    assert(path@ =~= tuple_path(types@, views(values@)));
    let none: Vec<TypeId> = Vec::new();
    assert(none@ =~= Seq::<TypeId>::empty());
    let ty = match types.lookup(&path, &none) {
        Ok(ty) => ty,
        Err(_) => {
            return Err(Error::NotFound);
        },
    };
    let fits = match types.get(ty) {
        Ok(d) => match &d.shape {
            Shape::TupleStruct { arity, fields } => *arity == values.len(),
            _ => false,
        },
        Err(_) => false,
    };
    if fits {
        proof {
            lemma_aggregate_view(ty, 0, values);
        }
        Ok(Value::Aggregate { ty, address: 0, fields: values })
    } else {
        Err(Error::TypeMismatch)
    }
}

fn name_position(names: &Vec<String>, name: &String) -> (r: Option<usize>)
    ensures
        match r {
            Some(i) => find_name(names_of(names@), name@, 0) == Some(i as int) && i
                < names@.len(),
            None => find_name(names_of(names@), name@, 0) is None,
        },
{
    let mut i: usize = 0;
    while i < names.len()
        invariant
            i <= names.len(),
            find_name(names_of(names@), name@, 0) == find_name(names_of(names@), name@, i as int),
        decreases names.len() - i,
    {
        if names[i] == *name {
            return Some(i);
        }
        i += 1;
    }
    None
}

fn arranged(declared: &Vec<Field>, names: &Vec<String>, values: &Vec<Value>) -> (r: Result<
    Vec<Value>,
    Error,
>)
    ensures
        match r {
            Ok(fields) => arrange(declared@, names_of(names@), views(values@)) == Ok::<
                Seq<ValueModel>,
                Error,
            >(views(fields@)),
            Err(e) => arrange(declared@, names_of(names@), views(values@)) == Err::<
                Seq<ValueModel>,
                Error,
            >(e),
        },
{
    if names.len() != declared.len() || values.len() != names.len() {
        return Err(Error::TypeMismatch);
    }
    let mut fields: Vec<Value> = Vec::new();
    let mut i: usize = 0;
    while i < declared.len()
        invariant
            i <= declared.len(),
            names@.len() == declared@.len(),
            values@.len() == names@.len(),
            fields@.len() == i,
            forall|k: int|
                0 <= k < i ==> (#[trigger] written_for(declared@, names_of(names@), k)) is Some
                    && 0 <= written_for(declared@, names_of(names@), k)->Some_0 < values@.len()
                    && fields@[k]@ == values@[written_for(
                    declared@,
                    names_of(names@),
                    k,
                )->Some_0]@,
        decreases declared.len() - i,
    {
        match name_position(names, &declared[i].name) {
            None => {
                assert(written_for(declared@, names_of(names@), i as int) is None);
                return Err(Error::NotFound);
            },
            Some(j) => {
                fields.push(values[j].duplicate());
            },
        }
        i += 1;
    }
    proof {
        let spec_fields = arrange(declared@, names_of(names@), views(values@))->Ok_0;
        assert(spec_fields.len() == fields@.len());
        assert forall|k: int| 0 <= k < fields@.len() implies spec_fields[k] == views(
            fields@,
        )[k] by {
            let j = written_for(declared@, names_of(names@), k)->Some_0;
            assert(views(values@)[j] == values@[j]@);
        }
        assert(spec_fields =~= views(fields@));
    }
    Ok(fields)
}

fn struct_value(c: &Context, path: &Path, names: &Vec<String>, values: Vec<Value>) -> (r: Result<
    Value,
    Error,
>)
    ensures
        result_view(r) == struct_spec(c@, path@, names_of(names@), views(values@)),
{
    let any = Selector::Any;
    let y = match c.scopes.resolve(c.scope, path, &any) {
        Ok(y) => y,
        Err(e) => {
            return Err(e);
        },
    };
    let sym = match c.scopes.symbol(y) {
        Ok(sym) => sym,
        Err(e) => {
            return Err(e);
        },
    };
    match sym.kind {
        SymbolKind::Type => {},
        _ => {
            return Err(Error::TypeMismatch);
        },
    }
    let d = match c.types.get(sym.ty) {
        Ok(d) => d,
        Err(_) => {
            return Err(Error::TypeMismatch);
        },
    };
    match &d.shape {
        Shape::Struct { fields: declared } => match arranged(declared, names, &values) {
            Ok(fields) => {
                proof {
                    lemma_aggregate_view(sym.ty, 0, fields);
                }
                Ok(Value::Aggregate { ty: sym.ty, address: 0, fields })
            },
            Err(e) => Err(e),
        },
        _ => Err(Error::TypeMismatch),
    }
}

fn construct(c: &Context, path: &Path, values: Vec<Value>) -> (r: Result<Value, Error>)
    ensures
        result_view(r) == construct_spec(c@, path@, views(values@)),
{
    let any = Selector::Any;
    let y = match c.scopes.resolve(c.scope, path, &any) {
        Ok(y) => y,
        Err(e) => {
            return Err(Error::NotFound);
        },
    };
    let sym = match c.scopes.symbol(y) {
        Ok(sym) => sym,
        Err(e) => {
            return Err(Error::NotFound);
        },
    };
    match sym.kind {
        SymbolKind::Type => {},
        _ => {
            return Err(Error::NotFound);
        },
    }
    let fits = match c.types.get(sym.ty) {
        Ok(d) => match &d.shape {
            Shape::TupleStruct { arity, fields } => *arity == values.len(),
            _ => false,
        },
        Err(_) => false,
    };
    if fits {
        proof {
            lemma_aggregate_view(sym.ty, 0, values);
        }
        Ok(Value::Aggregate { ty: sym.ty, address: 0, fields: values })
    } else {
        Err(Error::TypeMismatch)
    }
}

fn finish_tuple(c: &Context, items: ArgsProgress) -> (r: Progress)
    ensures
        r@ == then_tuple(c@, items@),
{
    match items {
        ArgsProgress::Values { values, used } => progress_of(tuple_value(c.types, values), used),
        ArgsProgress::Call { request } => Progress::Call { request },
        ArgsProgress::Fail { error } => Progress::Fail { error },
    }
}

fn finish_struct(c: &Context, path: &Path, names: &Vec<String>, values: ArgsProgress) -> (r:
    Progress)
    ensures
        r@ == then_struct(c@, path@, names_of(names@), values@),
{
    match values {
        ArgsProgress::Values { values, used } => progress_of(
            struct_value(c, path, names, values),
            used,
        ),
        ArgsProgress::Call { request } => Progress::Call { request },
        ArgsProgress::Fail { error } => Progress::Fail { error },
    }
}

fn finish_call(c: &Context, path: &Path, generics: &Option<Vec<String>>, args: ArgsProgress) -> (r:
    Progress)
    ensures
        r@ == then_call(c@, path@, names_opt(*generics), args@),
{
    match args {
        ArgsProgress::Values { values, used } => match callee_of(c, path, generics, &values) {
            Ok(id) => answer_of(
                c,
                CallRequest {
                    target: CallTarget::Symbol { id },
                    receiver: None,
                    by_reference: false,
                    args: values,
                },
                used,
            ),
            Err(Error::NotFound) => progress_of(construct(c, path, values), used),
            Err(error) => Progress::Fail { error },
        },
        ArgsProgress::Call { request } => Progress::Call { request },
        ArgsProgress::Fail { error } => Progress::Fail { error },
    }
}

fn finish_value_call(c: &Context, f: Value, args: ArgsProgress) -> (r: Progress)
    ensures
        r@ == then_value_call(c@, f@, args@),
{
    match args {
        ArgsProgress::Values { values, used } => value_call(c, f, values, used),
        ArgsProgress::Call { request } => Progress::Call { request },
        ArgsProgress::Fail { error } => Progress::Fail { error },
    }
}

fn eval_bound(
    c: &Context,
    bound: &Option<Box<Expr>>,
    used: usize,
    Ghost(base): Ghost<ValueModel>,
) -> (r: BoundProgress)
    ensures
        r@ == bound_step(
            *bound is Some,
            eval_bound_spec(c@, boxed_view(*bound), base, used as nat),
        ),
    decreases bound, 1nat,
{
    match bound {
        None => BoundProgress::Bound { at: None, used },
        Some(e) => {
            let s = eval(c, &**e, used);
            finish_bound(true, s)
        },
    }
}

fn eval(c: &Context, e: &Expr, used: usize) -> (r: Progress)
    ensures
        r@ == eval_spec(c@, e@, used as nat),
    decreases e, 1nat,
{
    match e {
        Expr::Literal { literal } => progress_of(literal_value(c.types, literal), used),
        Expr::Name { path, generics } => progress_of(value_of_name(c, path), used),
        Expr::Field { base, name } => {
            let b = eval(c, &**base, used);
            finish_field(c, b, name)
        },
        Expr::TupleIndex { base, index } => {
            let b = eval(c, &**base, used);
            finish_tuple_index(c, b, *index)
        },
        Expr::Index { base, index: at } => match eval(c, &**base, used) {
            Progress::Value { value, used: u } => {
                let i = eval(c, &**at, u);
                finish_index(c, &value, i)
            },
            other => other,
        },
        Expr::Slice { base, from, to } => match eval(c, &**base, used) {
            Progress::Value { value, used: u } => match eval_bound(c, from, u, Ghost(value@)) {
                BoundProgress::Stop { step } => step,
                BoundProgress::Bound { at: lo, used: u1 } => match eval_bound(
                    c,
                    to,
                    u1,
                    Ghost(value@),
                ) {
                    BoundProgress::Stop { step } => step,
                    BoundProgress::Bound { at: hi, used: u2 } => progress_of(
                        slice(c.types, &value, lo, hi),
                        u2,
                    ),
                },
            },
            other => other,
        },
        Expr::Assign { target, value } => match eval(c, &**target, used) {
            Progress::Value { value: old, used: u } => eval(c, &**value, u),
            other => other,
        },
        Expr::Tuple { items } => {
            proof {
                lemma_tuple_view(*items);
            }
            let a = eval_args(c, items, used);
            finish_tuple(c, a)
        },
        Expr::Struct { path, names, values } => {
            proof {
                lemma_struct_view(*path, *names, *values);
            }
            let a = eval_args(c, values, used);
            finish_struct(c, path, names, a)
        },
        Expr::MethodCall { receiver, name, args } => {
            proof {
                lemma_method_call_view(*receiver, *name, *args);
            }
            match eval(c, &**receiver, used) {
                Progress::Value { value, used: u } => {
                    let a = eval_args(c, args, u);
                    finish_method(c, value, name, a)
                },
                other => other,
            }
        },
        Expr::Call { callee, args } => {
            eval_call(c, e, used)
        },
    }
}

fn eval_call(c: &Context, e: &Expr, used: usize) -> (r: Progress)
    requires
        e is Call,
    ensures
        r@ == eval_spec(c@, e@, used as nat),
    decreases e, 0nat,
{
    let (callee, args) = match e {
        Expr::Call { callee, args } => (callee, args),
        _ => {
            return Progress::Fail { error: Error::TypeMismatch };
        },
    };
    proof {
        lemma_call_view(*callee, *args);
    }
    match &**callee {
        Expr::Name { path, generics } => {
            if local_of(c, path).is_none() {
                let a = eval_args(c, args, used);
                return finish_call(c, path, generics, a);
            }
        },
        _ => {},
    }
    match eval(c, &**callee, used) {
        Progress::Value { value, used: u } => {
            let a = eval_args(c, args, u);
            finish_value_call(c, value, a)
        },
        other => other,
    }
}

/// Whether `r` reports the step that an evaluation ended in: the value, the
/// call that is still to be performed, or the failure.
pub open spec fn reports(r: Result<Outcome, Error>, step: Step) -> bool {
    match r {
        Ok(Outcome::Done { value }) => step is Value && step->Value_value == value@,
        Ok(Outcome::Call { request }) => step == (Step::Call { request: request@ }),
        Err(error) => step == (Step::Fail { error }),
    }
}

/// Evaluates `e` in the context `c`; see [`eval_spec`].
///
/// The result is the value of the expression, or the first call that
/// `c.results` holds no answer for, or the first failure.
pub fn evaluate_expr(c: &Context, e: &Expr) -> (r: Result<Outcome, Error>)
    ensures
        reports(r, eval_spec(c@, e@, 0)),
{
    match eval(c, e, 0) {
        Progress::Value { value, used } => Ok(Outcome::Done { value }),
        Progress::Call { request } => Ok(Outcome::Call { request }),
        Progress::Fail { error } => Err(error),
    }
}

/// Evaluates the expression that `text` spells in the context `c`.
///
/// Text that spells no expression fails as [`parse_spec`] says; an
/// expression evaluates as [`eval_spec`] says.
pub fn evaluate(text: &str, c: &Context) -> (r: Result<Outcome, Error>)
    ensures
        match parse_spec(text@) {
            Err(e) => r == Err::<Outcome, Error>(e),
            Ok(e) => reports(r, eval_spec(c@, e, 0)),
        },
{
    match parse(text) {
        Err(e) => Err(e),
        Ok(e) => evaluate_expr(c, &e),
    }
}

/// A method always shadows a member of its name: where the type of the
/// receiver declares exactly one method called `name`, `receiver.name(args)`
/// calls that method with the receiver bound, whether or not the receiver
/// has a member of that name that holds a function.
pub proof fn lemma_method_shadows_member(
    c: ContextModel,
    receiver: ValueModel,
    name: Seq<char>,
    args: Seq<ValueModel>,
    used: nat,
    i: int,
)
    requires
        crate::dispatch::offered(c.methods, type_of(receiver), name, true)(i),
        forall|j: int|
            #[trigger] crate::dispatch::offered(c.methods, type_of(receiver), name, true)(j) ==> j
                == i,
    ensures
        method_call_spec(c, receiver, name, args, used) == answer(
            c,
            CallModel {
                target: CallTarget::Symbol { id: c.methods[i].symbol },
                receiver: Some(receiver),
                by_reference: c.methods[i].receiver is ByReference,
                args,
            },
            used,
        ),
{
    crate::dispatch::lemma_inherent_method_wins(c.methods, type_of(receiver), name, i);
}

} // verus!
