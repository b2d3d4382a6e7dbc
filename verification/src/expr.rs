//! The expressions that can be evaluated.

use crate::scope::{names_of, Path, PathModel};
use vstd::prelude::*;

verus! {

/// A literal constant.
#[derive(Debug, PartialEq, Eq)]
pub enum Literal {
    /// An integer, with the type that its suffix names if it has one.
    Int { value: u128, suffix: Option<String> },
    /// A floating-point number, as written.
    Float { text: String },
    /// A string, as its bytes.
    Str { bytes: Vec<u8> },
    /// A byte string.
    ByteStr { bytes: Vec<u8> },
    Byte { value: u8 },
    /// A character, as its code point.
    Char { code: u32 },
    Bool { value: bool },
    Unit,
}

/// An expression.
#[derive(Debug, PartialEq, Eq)]
pub enum Expr {
    /// A path, with the generic arguments written after it, as in
    /// `identity::<u32>`.
    Name { path: Path, generics: Option<Vec<String>> },
    Literal { literal: Literal },
    /// `base.name`
    Field { base: Box<Expr>, name: String },
    /// `base.0`
    TupleIndex { base: Box<Expr>, index: usize },
    /// `receiver.name(args)`
    MethodCall { receiver: Box<Expr>, name: String, args: Vec<Expr> },
    /// `callee(args)`; `(value.field)(args)` is a call whose callee is a field
    /// access.
    Call { callee: Box<Expr>, args: Vec<Expr> },
    /// `base[index]`
    Index { base: Box<Expr>, index: Box<Expr> },
    /// `base[from..to]`, either bound optional.
    Slice { base: Box<Expr>, from: Option<Box<Expr>>, to: Option<Box<Expr>> },
    /// `target = value`
    Assign { target: Box<Expr>, value: Box<Expr> },
    /// `(a, b)`
    Tuple { items: Vec<Expr> },
    /// `Name { x: a, y: b }`: `values[i]` is what is written for `names[i]`.
    Struct { path: Path, names: Vec<String>, values: Vec<Expr> },
}

/// The mathematical counterpart of [`Literal`].
pub enum LiteralModel {
    Int { value: u128, suffix: Option<Seq<char>> },
    Float { text: Seq<char> },
    Str { bytes: Seq<u8> },
    ByteStr { bytes: Seq<u8> },
    Byte { value: u8 },
    Char { code: u32 },
    Bool { value: bool },
    Unit,
}

impl View for Literal {
    type V = LiteralModel;

    open spec fn view(&self) -> LiteralModel {
        match self {
            Literal::Int { value, suffix } => LiteralModel::Int {
                value: *value,
                suffix: match suffix {
                    Some(s) => Some(s@),
                    None => None,
                },
            },
            Literal::Float { text } => LiteralModel::Float { text: text@ },
            Literal::Str { bytes } => LiteralModel::Str { bytes: bytes@ },
            Literal::ByteStr { bytes } => LiteralModel::ByteStr { bytes: bytes@ },
            Literal::Byte { value } => LiteralModel::Byte { value: *value },
            Literal::Char { code } => LiteralModel::Char { code: *code },
            Literal::Bool { value } => LiteralModel::Bool { value: *value },
            Literal::Unit => LiteralModel::Unit,
        }
    }
}

/// The mathematical counterpart of [`Expr`].
pub enum ExprModel {
    Name { path: PathModel, generics: Option<Seq<Seq<char>>> },
    Literal { literal: LiteralModel },
    Field { base: Box<ExprModel>, name: Seq<char> },
    TupleIndex { base: Box<ExprModel>, index: usize },
    MethodCall { receiver: Box<ExprModel>, name: Seq<char>, args: Seq<ExprModel> },
    Call { callee: Box<ExprModel>, args: Seq<ExprModel> },
    Index { base: Box<ExprModel>, index: Box<ExprModel> },
    Slice { base: Box<ExprModel>, from: Option<Box<ExprModel>>, to: Option<Box<ExprModel>> },
    Assign { target: Box<ExprModel>, value: Box<ExprModel> },
    Tuple { items: Seq<ExprModel> },
    Struct { path: PathModel, names: Seq<Seq<char>>, values: Seq<ExprModel> },
}

/// The names of an optional list of strings.
pub open spec fn names_opt(names: Option<Vec<String>>) -> Option<Seq<Seq<char>>> {
    match names {
        Some(v) => Some(names_of(v@)),
        None => None,
    }
}

impl View for Expr {
    type V = ExprModel;

    open spec fn view(&self) -> ExprModel {
        self.model()
    }
}

impl Expr {
    /// What the expression is, part by part.
    pub open spec fn model(self) -> ExprModel
        decreases self,
    {
        match self {
            Expr::Name { path, generics } => ExprModel::Name {
                path: path@,
                generics: names_opt(generics),
            },
            Expr::Literal { literal } => ExprModel::Literal { literal: literal@ },
            Expr::Field { base, name } => ExprModel::Field {
                base: Box::new((*base).model()),
                name: name@,
            },
            Expr::TupleIndex { base, index } => ExprModel::TupleIndex {
                base: Box::new((*base).model()),
                index,
            },
            Expr::MethodCall { receiver, name, args } => ExprModel::MethodCall {
                receiver: Box::new((*receiver).model()),
                name: name@,
                args: Seq::new(
                    args@.len(),
                    |i: int|
                        if 0 <= i < args@.len() {
                            args@[i].model()
                        } else {
                            ExprModel::Literal { literal: LiteralModel::Unit }
                        },
                ),
            },
            Expr::Call { callee, args } => ExprModel::Call {
                callee: Box::new((*callee).model()),
                args: Seq::new(
                    args@.len(),
                    |i: int|
                        if 0 <= i < args@.len() {
                            args@[i].model()
                        } else {
                            ExprModel::Literal { literal: LiteralModel::Unit }
                        },
                ),
            },
            Expr::Index { base, index } => ExprModel::Index {
                base: Box::new((*base).model()),
                index: Box::new((*index).model()),
            },
            Expr::Slice { base, from, to } => ExprModel::Slice {
                base: Box::new((*base).model()),
                from: match from {
                    Some(f) => Some(Box::new((*f).model())),
                    None => None,
                },
                to: match to {
                    Some(t) => Some(Box::new((*t).model())),
                    None => None,
                },
            },
            Expr::Assign { target, value } => ExprModel::Assign {
                target: Box::new((*target).model()),
                value: Box::new((*value).model()),
            },
            Expr::Tuple { items } => ExprModel::Tuple {
                items: Seq::new(
                    items@.len(),
                    |i: int|
                        if 0 <= i < items@.len() {
                            items@[i].model()
                        } else {
                            ExprModel::Literal { literal: LiteralModel::Unit }
                        },
                ),
            },
            Expr::Struct { path, names, values } => ExprModel::Struct {
                path: path@,
                names: names_of(names@),
                values: Seq::new(
                    values@.len(),
                    |i: int|
                        if 0 <= i < values@.len() {
                            values@[i].model()
                        } else {
                            ExprModel::Literal { literal: LiteralModel::Unit }
                        },
                ),
            },
        }
    }
}

/// The models of a sequence of expressions, in order.
pub open spec fn expr_views(s: Seq<Expr>) -> Seq<ExprModel> {
    Seq::new(s.len(), |i: int| s[i]@)
}

/// The model of an optional boxed expression.
pub open spec fn boxed_view(e: Option<Box<Expr>>) -> Option<Box<ExprModel>> {
    match e {
        Some(b) => Some(Box::new((*b)@)),
        None => None,
    }
}

/// The model of a method call lists the models of its arguments.
pub proof fn lemma_method_call_view(receiver: Box<Expr>, name: String, args: Vec<Expr>)
    ensures
        (Expr::MethodCall { receiver, name, args })@ == (ExprModel::MethodCall {
            receiver: Box::new((*receiver)@),
            name: name@,
            args: expr_views(args@),
        }),
{
    let e = Expr::MethodCall { receiver, name, args };
    assert(e@->MethodCall_args =~= expr_views(args@));
}

/// The model of a slice expression holds the models of its parts.
pub proof fn lemma_slice_view(base: Box<Expr>, from: Option<Box<Expr>>, to: Option<Box<Expr>>)
    ensures
        (Expr::Slice { base, from, to })@ == (ExprModel::Slice {
            base: Box::new((*base)@),
            from: boxed_view(from),
            to: boxed_view(to),
        }),
{
}

/// The model of a tuple lists the models of its items.
pub proof fn lemma_tuple_view(items: Vec<Expr>)
    ensures
        (Expr::Tuple { items })@ == (ExprModel::Tuple { items: expr_views(items@) }),
{
    let e = Expr::Tuple { items };
    assert(e@->Tuple_items =~= expr_views(items@));
}

/// The model of a struct literal lists the models of its values.
pub proof fn lemma_struct_view(path: Path, names: Vec<String>, values: Vec<Expr>)
    ensures
        (Expr::Struct { path, names, values })@ == (ExprModel::Struct {
            path: path@,
            names: names_of(names@),
            values: expr_views(values@),
        }),
{
    let e = Expr::Struct { path, names, values };
    assert(e@->Struct_values =~= expr_views(values@));
}

/// The model of a call lists the models of its arguments.
pub proof fn lemma_call_view(callee: Box<Expr>, args: Vec<Expr>)
    ensures
        (Expr::Call { callee, args })@ == (ExprModel::Call {
            callee: Box::new((*callee)@),
            args: expr_views(args@),
        }),
{
    let e = Expr::Call { callee, args };
    assert(e@->Call_args =~= expr_views(args@));
}

} // verus!
