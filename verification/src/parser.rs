//! The grammar of expressions.
//!
//! [`parse_spec`] says which expression a text spells; [`parse`] computes it.
//!
//! ```text
//! expr     := postfix [ "=" expr ]
//! postfix  := primary { "." name "(" args ")" | "." name | "." digits
//!                     | "[" subscript "]" | "(" args ")" }
//! primary  := literal | path | "(" ")" | "(" expr ")" | "(" expr "," args ")"
//!           | path "{" [ name ":" expr { "," name ":" expr } [ "," ] ] "}"
//! path     := [ "::" ] name { "::" name } [ "::" "<" name { "," name } ">" ]
//! subscript:= expr | [ expr ] ".." [ expr ]
//! args     := [ expr { "," expr } [ "," ] ]
//! ```
//!
//! `self` and `super` at the head of a path say where it starts.  `a.f()` is
//! a method call; `(a.f)()` calls the value of the field.

use crate::error::Error;
use crate::expr::{
    expr_views, lemma_call_view, lemma_method_call_view, lemma_slice_view, lemma_struct_view,
    lemma_tuple_view, Expr, ExprModel, Literal, LiteralModel,
};
use crate::lexer::{lex, lex_spec, token_views, Token, TokenModel};
use crate::scope::{names_of, Path, PathModel, PathRoot};
use vstd::prelude::*;

verus! {

pub const KIND_IDENT: u8 = 0;

pub const KIND_LITERAL: u8 = 1;

pub const KIND_PATH_SEP: u8 = 2;

pub const KIND_DOT: u8 = 3;

pub const KIND_DOT_DOT: u8 = 4;

pub const KIND_COMMA: u8 = 5;

pub const KIND_ASSIGN: u8 = 6;

pub const KIND_OPEN_PAREN: u8 = 7;

pub const KIND_CLOSE_PAREN: u8 = 8;

pub const KIND_OPEN_BRACKET: u8 = 9;

pub const KIND_CLOSE_BRACKET: u8 = 10;

pub const KIND_LESS: u8 = 11;

pub const KIND_GREATER: u8 = 12;

pub const KIND_COLON: u8 = 13;

pub const KIND_OPEN_BRACE: u8 = 14;

pub const KIND_CLOSE_BRACE: u8 = 15;

pub const KIND_END: u8 = 255;

/// The kind of the token at `i`; `KIND_END` past the last token.
pub open spec fn kind_at(t: Seq<TokenModel>, i: int) -> u8 {
    if 0 <= i < t.len() {
        match t[i] {
            TokenModel::Ident { name } => KIND_IDENT,
            TokenModel::PathSep => KIND_PATH_SEP,
            TokenModel::Dot => KIND_DOT,
            TokenModel::DotDot => KIND_DOT_DOT,
            TokenModel::Comma => KIND_COMMA,
            TokenModel::Assign => KIND_ASSIGN,
            TokenModel::OpenParen => KIND_OPEN_PAREN,
            TokenModel::CloseParen => KIND_CLOSE_PAREN,
            TokenModel::OpenBracket => KIND_OPEN_BRACKET,
            TokenModel::CloseBracket => KIND_CLOSE_BRACKET,
            TokenModel::Less => KIND_LESS,
            TokenModel::Greater => KIND_GREATER,
            TokenModel::Colon => KIND_COLON,
            TokenModel::OpenBrace => KIND_OPEN_BRACE,
            TokenModel::CloseBrace => KIND_CLOSE_BRACE,
            _ => KIND_LITERAL,
        }
    } else {
        KIND_END
    }
}

/// The name that the token at `i` is, if it is one.
pub open spec fn name_at(t: Seq<TokenModel>, i: int) -> Seq<char> {
    if 0 <= i < t.len() && t[i] is Ident {
        t[i]->Ident_name
    } else {
        Seq::empty()
    }
}

/// The names that start at `pos`, each joined to the next by a token of
/// kind `joint`, after the names `before`; and where the list ends.
pub open spec fn names_list(t: Seq<TokenModel>, pos: int, joint: u8, before: Seq<Seq<char>>) -> (
    Seq<Seq<char>>,
    int,
)
    decreases t.len() - pos,
{
    if kind_at(t, pos) == KIND_IDENT {
        if kind_at(t, pos + 1) == joint && kind_at(t, pos + 2) == KIND_IDENT {
            names_list(t, pos + 2, joint, before.push(name_at(t, pos)))
        } else {
            (before.push(name_at(t, pos)), pos + 1)
        }
    } else {
        (before, pos)
    }
}

/// The generic arguments written at `pos`, if any are, and where they end.
pub open spec fn generics_spec(t: Seq<TokenModel>, pos: int) -> Result<
    (Option<Seq<Seq<char>>>, int),
    Error,
> {
    if kind_at(t, pos) == KIND_PATH_SEP && kind_at(t, pos + 1) == KIND_LESS {
        let (names, end) = names_list(t, pos + 2, KIND_COMMA, Seq::empty());
        if names.len() > 0 && kind_at(t, end) == KIND_GREATER {
            Ok((Some(names), end + 1))
        } else {
            Err(Error::TypeMismatch)
        }
    } else {
        Ok((None, pos))
    }
}

/// How many of the names from `from` on are `super`, one after the other.
pub open spec fn leading_supers(names: Seq<Seq<char>>, from: int) -> nat
    decreases names.len() - from,
{
    if 0 <= from < names.len() && names[from] == "super"@ {
        1 + leading_supers(names, from + 1)
    } else {
        0
    }
}

/// Where a path with the given names starts, and the names that it follows
/// from there.
pub open spec fn classify(absolute: bool, names: Seq<Seq<char>>) -> (PathRoot, Seq<Seq<char>>) {
    if absolute {
        (PathRoot::Absolute, names)
    } else if names.len() > 0 && names[0] == "self"@ {
        let k = leading_supers(names, 1);
        (PathRoot::Module { supers: k as usize }, names.subrange(1 + k as int, names.len() as int))
    } else {
        let k = leading_supers(names, 0);
        if k > 0 {
            (PathRoot::Module { supers: k as usize }, names.subrange(k as int, names.len() as int))
        } else {
            (PathRoot::Lexical, names)
        }
    }
}

/// The path that starts at `pos`, and where it ends.
pub open spec fn parse_path_spec(t: Seq<TokenModel>, pos: int) -> Result<(ExprModel, int), Error> {
    let absolute = kind_at(t, pos) == KIND_PATH_SEP;
    let start = if absolute {
        pos + 1
    } else {
        pos
    };
    let (names, end) = names_list(t, start, KIND_PATH_SEP, Seq::empty());
    if names.len() == 0 {
        Err(Error::TypeMismatch)
    } else {
        match generics_spec(t, end) {
            Err(e) => Err(e),
            Ok((generics, stop)) => {
                let (root, segments) = classify(absolute, names);
                if segments.len() == 0 {
                    Err(Error::TypeMismatch)
                } else {
                    Ok((ExprModel::Name { path: PathModel { root, segments }, generics }, stop))
                }
            },
        }
    }
}

/// The literal that the token `tok` is, if it is one.
pub open spec fn literal_of(tok: TokenModel) -> Option<LiteralModel> {
    match tok {
        TokenModel::Int { value, suffix } => Some(LiteralModel::Int { value, suffix }),
        TokenModel::Float { text } => Some(LiteralModel::Float { text }),
        TokenModel::Str { bytes } => Some(LiteralModel::Str { bytes }),
        TokenModel::ByteStr { bytes } => Some(LiteralModel::ByteStr { bytes }),
        TokenModel::Byte { value } => Some(LiteralModel::Byte { value }),
        TokenModel::Char { code } => Some(LiteralModel::Char { code }),
        TokenModel::Ident { name } => if name == "true"@ {
            Some(LiteralModel::Bool { value: true })
        } else if name == "false"@ {
            Some(LiteralModel::Bool { value: false })
        } else {
            None
        },
        _ => None,
    }
}

/// The expression that starts at `pos`, and where it ends.
pub open spec fn parse_expr_spec(t: Seq<TokenModel>, pos: int) -> Result<(ExprModel, int), Error>
    decreases t.len() - pos, 3nat,
{
    if pos < 0 || pos >= t.len() {
        Err(Error::TypeMismatch)
    } else {
        match parse_primary_spec(t, pos) {
            Err(e) => Err(e),
            Ok((first, p)) => if p <= pos || p > t.len() {
                Err(Error::TypeMismatch)
            } else {
                match parse_postfix_spec(t, first, p) {
                    Err(e) => Err(e),
                    Ok((target, after)) => if after < p || after > t.len() {
                        Err(Error::TypeMismatch)
                    } else if kind_at(t, after) == KIND_ASSIGN {
                        match parse_expr_spec(t, after + 1) {
                            Err(e) => Err(e),
                            Ok((value, end)) => Ok(
                                (
                                    ExprModel::Assign {
                                        target: Box::new(target),
                                        value: Box::new(value),
                                    },
                                    end,
                                ),
                            ),
                        }
                    } else {
                        Ok((target, after))
                    },
                }
            },
        }
    }
}

/// The primary expression that starts at `pos`, and where it ends.
pub open spec fn parse_primary_spec(t: Seq<TokenModel>, pos: int) -> Result<
    (ExprModel, int),
    Error,
>
    decreases t.len() - pos, 2nat,
{
    if pos < 0 || pos >= t.len() {
        Err(Error::TypeMismatch)
    } else if literal_of(t[pos]) is Some {
        Ok((ExprModel::Literal { literal: literal_of(t[pos])->Some_0 }, pos + 1))
    } else if kind_at(t, pos) == KIND_OPEN_PAREN {
        if kind_at(t, pos + 1) == KIND_CLOSE_PAREN {
            Ok((ExprModel::Literal { literal: LiteralModel::Unit }, pos + 2))
        } else {
            match parse_expr_spec(t, pos + 1) {
                Err(e) => Err(e),
                Ok((inner, p)) => if p <= pos || p > t.len() {
                    Err(Error::TypeMismatch)
                } else if kind_at(t, p) == KIND_CLOSE_PAREN {
                    Ok((inner, p + 1))
                } else if kind_at(t, p) == KIND_COMMA {
                    match parse_args_spec(t, p + 1, seq![inner]) {
                        Err(e) => Err(e),
                        Ok((items, q)) => Ok((ExprModel::Tuple { items }, q + 1)),
                    }
                } else {
                    Err(Error::TypeMismatch)
                },
            }
        }
    } else {
        match parse_path_spec(t, pos) {
            Err(e) => Err(e),
            Ok((named, p)) => if p > pos && p < t.len() && kind_at(t, p) == KIND_OPEN_BRACE
                && named is Name && named->Name_generics is None {
                match parse_inits_spec(t, p + 1, Seq::empty(), Seq::empty()) {
                    Err(e) => Err(e),
                    Ok((names, values, q)) => Ok(
                        (ExprModel::Struct { path: named->Name_path, names, values }, q + 1),
                    ),
                }
            } else {
                Ok((named, p))
            },
        }
    }
}

/// The members of a struct literal from `pos` up to the `}`, after the
/// members given, and where the `}` stands.
pub open spec fn parse_inits_spec(
    t: Seq<TokenModel>,
    pos: int,
    names: Seq<Seq<char>>,
    values: Seq<ExprModel>,
) -> Result<(Seq<Seq<char>>, Seq<ExprModel>, int), Error>
    decreases t.len() - pos, 4nat,
{
    if pos < 0 || pos >= t.len() {
        Err(Error::TypeMismatch)
    } else if kind_at(t, pos) == KIND_CLOSE_BRACE {
        Ok((names, values, pos))
    } else if kind_at(t, pos) == KIND_IDENT && kind_at(t, pos + 1) == KIND_COLON {
        match parse_expr_spec(t, pos + 2) {
            Err(e) => Err(e),
            Ok((value, p)) => if p <= pos || p > t.len() {
                Err(Error::TypeMismatch)
            } else if kind_at(t, p) == KIND_COMMA {
                parse_inits_spec(t, p + 1, names.push(name_at(t, pos)), values.push(value))
            } else if kind_at(t, p) == KIND_CLOSE_BRACE {
                Ok((names.push(name_at(t, pos)), values.push(value), p))
            } else {
                Err(Error::TypeMismatch)
            },
        }
    } else {
        Err(Error::TypeMismatch)
    }
}

/// What follows a `[`: an index or a range, up to and including the `]`.
pub open spec fn parse_subscript_spec(t: Seq<TokenModel>, base: ExprModel, pos: int) -> Result<
    (ExprModel, int),
    Error,
>
    decreases t.len() - pos, 4nat,
{
    if pos < 0 || pos >= t.len() {
        Err(Error::TypeMismatch)
    } else if kind_at(t, pos) == KIND_DOT_DOT {
        parse_upper_spec(t, base, None, pos + 1)
    } else {
        match parse_expr_spec(t, pos) {
            Err(e) => Err(e),
            Ok((first, p)) => if p <= pos || p > t.len() {
                Err(Error::TypeMismatch)
            } else if kind_at(t, p) == KIND_CLOSE_BRACKET {
                Ok((ExprModel::Index { base: Box::new(base), index: Box::new(first) }, p + 1))
            } else if kind_at(t, p) == KIND_DOT_DOT {
                parse_upper_spec(t, base, Some(Box::new(first)), p + 1)
            } else {
                Err(Error::TypeMismatch)
            },
        }
    }
}

/// What follows the `..` of a range: the upper bound, if one is written,
/// and the `]`.
pub open spec fn parse_upper_spec(
    t: Seq<TokenModel>,
    base: ExprModel,
    from: Option<Box<ExprModel>>,
    pos: int,
) -> Result<(ExprModel, int), Error>
    decreases t.len() - pos, 4nat,
{
    if pos < 0 || pos >= t.len() {
        Err(Error::TypeMismatch)
    } else if kind_at(t, pos) == KIND_CLOSE_BRACKET {
        Ok((ExprModel::Slice { base: Box::new(base), from, to: None }, pos + 1))
    } else {
        match parse_expr_spec(t, pos) {
            Err(e) => Err(e),
            Ok((upper, p)) => if kind_at(t, p) == KIND_CLOSE_BRACKET {
                Ok(
                    (
                        ExprModel::Slice { base: Box::new(base), from, to: Some(Box::new(upper)) },
                        p + 1,
                    ),
                )
            } else {
                Err(Error::TypeMismatch)
            },
        }
    }
}

/// The arguments from `pos` up to the `)`, after the arguments `before`,
/// and where the `)` stands.
pub open spec fn parse_args_spec(t: Seq<TokenModel>, pos: int, before: Seq<ExprModel>) -> Result<
    (Seq<ExprModel>, int),
    Error,
>
    decreases t.len() - pos, 4nat,
{
    if pos < 0 || pos >= t.len() {
        Err(Error::TypeMismatch)
    } else if kind_at(t, pos) == KIND_CLOSE_PAREN {
        Ok((before, pos))
    } else {
        match parse_expr_spec(t, pos) {
            Err(e) => Err(e),
            Ok((arg, p)) => if p <= pos || p > t.len() {
                Err(Error::TypeMismatch)
            } else if kind_at(t, p) == KIND_COMMA {
                parse_args_spec(t, p + 1, before.push(arg))
            } else if kind_at(t, p) == KIND_CLOSE_PAREN {
                Ok((before.push(arg), p))
            } else {
                Err(Error::TypeMismatch)
            },
        }
    }
}

/// The expression that `base` grows into by what follows it from `pos` on:
/// member accesses, subscripts and calls, from left to right.
pub open spec fn parse_postfix_spec(t: Seq<TokenModel>, base: ExprModel, pos: int) -> Result<
    (ExprModel, int),
    Error,
>
    decreases t.len() - pos, 5nat,
{
    if pos < 0 || pos >= t.len() {
        Ok((base, pos))
    } else if kind_at(t, pos) == KIND_DOT {
        if kind_at(t, pos + 1) == KIND_IDENT {
            if kind_at(t, pos + 2) == KIND_OPEN_PAREN {
                match parse_args_spec(t, pos + 3, Seq::empty()) {
                    Err(e) => Err(e),
                    Ok((args, p)) => if p < pos + 3 || p >= t.len() {
                        Err(Error::TypeMismatch)
                    } else {
                        parse_postfix_spec(
                            t,
                            ExprModel::MethodCall {
                                receiver: Box::new(base),
                                name: name_at(t, pos + 1),
                                args,
                            },
                            p + 1,
                        )
                    },
                }
            } else {
                parse_postfix_spec(
                    t,
                    ExprModel::Field { base: Box::new(base), name: name_at(t, pos + 1) },
                    pos + 2,
                )
            }
        } else if pos + 1 < t.len() && t[pos + 1] is Int && t[pos + 1]->Int_suffix is None
            && t[pos + 1]->Int_value <= usize::MAX {
            parse_postfix_spec(
                t,
                ExprModel::TupleIndex {
                    base: Box::new(base),
                    index: t[pos + 1]->Int_value as usize,
                },
                pos + 2,
            )
        } else {
            Err(Error::TypeMismatch)
        }
    } else if kind_at(t, pos) == KIND_OPEN_BRACKET {
        match parse_subscript_spec(t, base, pos + 1) {
            Err(e) => Err(e),
            Ok((grown, p)) => if p <= pos || p > t.len() {
                Err(Error::TypeMismatch)
            } else {
                parse_postfix_spec(t, grown, p)
            },
        }
    } else if kind_at(t, pos) == KIND_OPEN_PAREN {
        match parse_args_spec(t, pos + 1, Seq::empty()) {
            Err(e) => Err(e),
            Ok((args, p)) => if p <= pos || p >= t.len() {
                Err(Error::TypeMismatch)
            } else {
                parse_postfix_spec(t, ExprModel::Call { callee: Box::new(base), args }, p + 1)
            },
        }
    } else {
        Ok((base, pos))
    }
}

/// The expression that the tokens `t` spell: one expression, and nothing
/// after it.
pub open spec fn parse_tokens_spec(t: Seq<TokenModel>) -> Result<ExprModel, Error> {
    match parse_expr_spec(t, 0) {
        Err(e) => Err(e),
        Ok((e, end)) => if end == t.len() {
            Ok(e)
        } else {
            Err(Error::TypeMismatch)
        },
    }
}

/// The expression that the text `s` spells.  Text that spells no expression
/// is `TypeMismatch`; an integer beyond 128 bits is `OutOfRange`.
pub open spec fn parse_spec(s: Seq<char>) -> Result<ExprModel, Error> {
    match lex_spec(s) {
        Err(e) => Err(e),
        Ok(t) => parse_tokens_spec(t),
    }
}

/// The model of a parsed expression and its end, or the error.
pub open spec fn parsed_view(r: Result<(Expr, usize), Error>) -> Result<(ExprModel, int), Error> {
    match r {
        Ok((e, end)) => Ok((e@, end as int)),
        Err(e) => Err(e),
    }
}

/// The model of an expression, or the error.
pub open spec fn expr_result_view(r: Result<Expr, Error>) -> Result<ExprModel, Error> {
    match r {
        Ok(e) => Ok(e@),
        Err(e) => Err(e),
    }
}

fn kind(tokens: &Vec<Token>, pos: usize, off: usize) -> (k: u8)
    requires
        pos <= tokens@.len(),
    ensures
        k == kind_at(token_views(tokens@), pos + off),
        k != KIND_END ==> pos + off < tokens@.len(),
        tokens@.len() <= usize::MAX,
{
    if off >= tokens.len() - pos {
        return KIND_END;
    }
    match &tokens[pos + off] {
        Token::Ident { name } => KIND_IDENT,
        Token::PathSep => KIND_PATH_SEP,
        Token::Dot => KIND_DOT,
        Token::DotDot => KIND_DOT_DOT,
        Token::Comma => KIND_COMMA,
        Token::Assign => KIND_ASSIGN,
        Token::OpenParen => KIND_OPEN_PAREN,
        Token::CloseParen => KIND_CLOSE_PAREN,
        Token::OpenBracket => KIND_OPEN_BRACKET,
        Token::CloseBracket => KIND_CLOSE_BRACKET,
        Token::Less => KIND_LESS,
        Token::Greater => KIND_GREATER,
        Token::Colon => KIND_COLON,
        Token::OpenBrace => KIND_OPEN_BRACE,
        Token::CloseBrace => KIND_CLOSE_BRACE,
        _ => KIND_LITERAL,
    }
}

fn name(tokens: &Vec<Token>, i: usize) -> (r: String)
    requires
        i < tokens@.len(),
    ensures
        r@ == name_at(token_views(tokens@), i as int),
{
    match &tokens[i] {
        Token::Ident { name } => name.clone(),
        _ => String::new(),
    }
}

fn read_names(tokens: &Vec<Token>, pos: usize, joint: u8) -> (r: (Vec<String>, usize))
    requires
        pos <= tokens@.len(),
        joint != KIND_END,
    ensures
        (names_of(r.0@), r.1 as int) == names_list(
            token_views(tokens@),
            pos as int,
            joint,
            Seq::empty(),
        ),
        pos <= r.1 <= tokens@.len(),
{
    let mut names: Vec<String> = Vec::new();
    let mut i: usize = pos;
    let mut end: usize = pos;
    let mut more: bool = kind(tokens, pos, 0) == KIND_IDENT;
    assert(names_of(names@) =~= Seq::<Seq<char>>::empty());
    while more
        invariant
            pos <= i <= tokens@.len(),
            joint != KIND_END,
            more ==> kind_at(token_views(tokens@), i as int) == KIND_IDENT && names_list(
                token_views(tokens@),
                pos as int,
                joint,
                Seq::empty(),
            ) == names_list(token_views(tokens@), i as int, joint, names_of(names@)),
            !more ==> pos <= end <= tokens@.len() && names_list(
                token_views(tokens@),
                pos as int,
                joint,
                Seq::empty(),
            ) == (names_of(names@), end as int),
        decreases tokens@.len() - i, if more { 1nat } else { 0nat },
    {
        let ghost before = names_of(names@);
        names.push(name(tokens, i));
        assert(names_of(names@) =~= before.push(name_at(token_views(tokens@), i as int)));
        if kind(tokens, i, 1) == joint && kind(tokens, i, 2) == KIND_IDENT {
            i += 2;
        } else {
            end = i + 1;
            more = false;
        }
    }
    (names, end)
}

fn read_generics(tokens: &Vec<Token>, pos: usize) -> (r: Result<(Option<Vec<String>>, usize), Error>)
    requires
        pos <= tokens@.len(),
    ensures
        match r {
            Ok((g, end)) => generics_spec(token_views(tokens@), pos as int) == Ok::<
                (Option<Seq<Seq<char>>>, int),
                Error,
            >((crate::expr::names_opt(g), end as int)) && pos <= end <= tokens@.len(),
            Err(e) => generics_spec(token_views(tokens@), pos as int) == Err::<
                (Option<Seq<Seq<char>>>, int),
                Error,
            >(e),
        },
{
    if kind(tokens, pos, 0) == KIND_PATH_SEP && kind(tokens, pos, 1) == KIND_LESS {
        let (names, end) = read_names(tokens, pos + 2, KIND_COMMA);
        if names.len() > 0 && kind(tokens, end, 0) == KIND_GREATER {
            Ok((Some(names), end + 1))
        } else {
            Err(Error::TypeMismatch)
        }
    } else {
        Ok((None, pos))
    }
}

fn count_supers(names: &Vec<String>, from: usize) -> (k: usize)
    requires
        from <= names@.len(),
    ensures
        k == leading_supers(names_of(names@), from as int),
        from + k <= names@.len(),
{
    let word: String = "super".to_owned();
    let mut i: usize = from;
    while i < names.len() && names[i] == word
        invariant
            from <= i <= names@.len(),
            word@ == "super"@,
            leading_supers(names_of(names@), from as int) == (i - from) + leading_supers(
                names_of(names@),
                i as int,
            ),
        decreases names@.len() - i,
    {
        i += 1;
    }
    i - from
}

fn tail_of(names: &Vec<String>, from: usize) -> (r: Vec<String>)
    requires
        from <= names@.len(),
    ensures
        names_of(r@) == names_of(names@).subrange(from as int, names@.len() as int),
{
    let mut out: Vec<String> = Vec::new();
    let mut i: usize = from;
    while i < names.len()
        invariant
            from <= i <= names@.len(),
            out@.len() == i - from,
            forall|k: int| 0 <= k < i - from ==> (#[trigger] out@[k])@ == names@[from + k]@,
        decreases names@.len() - i,
    {
        out.push(names[i].clone());
        i += 1;
    }
    assert(names_of(out@) =~= names_of(names@).subrange(from as int, names@.len() as int));
    out
}

fn classify_names(absolute: bool, names: Vec<String>) -> (r: (PathRoot, Vec<String>))
    ensures
        (r.0, names_of(r.1@)) == classify(absolute, names_of(names@)),
{
    if absolute {
        return (PathRoot::Absolute, names);
    }
    let own: String = "self".to_owned();
    if names.len() > 0 && names[0] == own {
        let k = count_supers(&names, 1);
        (PathRoot::Module { supers: k }, tail_of(&names, 1 + k))
    } else {
        let k = count_supers(&names, 0);
        if k > 0 {
            (PathRoot::Module { supers: k }, tail_of(&names, k))
        } else {
            (PathRoot::Lexical, names)
        }
    }
}

fn parse_path(tokens: &Vec<Token>, pos: usize) -> (r: Result<(Expr, usize), Error>)
    requires
        pos <= tokens@.len(),
    ensures
        parsed_view(r) == parse_path_spec(token_views(tokens@), pos as int),
        r matches Ok((e, end)) ==> pos <= end <= tokens@.len(),
{
    let absolute = kind(tokens, pos, 0) == KIND_PATH_SEP;
    let start: usize = if absolute {
        pos + 1
    } else {
        pos
    };
    let (names, end) = read_names(tokens, start, KIND_PATH_SEP);
    if names.len() == 0 {
        return Err(Error::TypeMismatch);
    }
    match read_generics(tokens, end) {
        Err(e) => Err(e),
        Ok((generics, stop)) => {
            let (root, segments) = classify_names(absolute, names);
            if segments.len() == 0 {
                Err(Error::TypeMismatch)
            } else {
                Ok((Expr::Name { path: Path { root, segments }, generics }, stop))
            }
        },
    }
}

fn literal(token: &Token) -> (r: Option<Literal>)
    ensures
        match r {
            Some(l) => literal_of(token@) == Some(l@),
            None => literal_of(token@) is None,
        },
{
    match token {
        Token::Int { value, suffix } => Some(
            Literal::Int {
                value: *value,
                suffix: match suffix {
                    Some(s) => Some(s.clone()),
                    None => None,
                },
            },
        ),
        Token::Float { text } => Some(Literal::Float { text: text.clone() }),
        Token::Str { bytes } => Some(Literal::Str { bytes: crate::value::copy_bytes(bytes) }),
        Token::ByteStr { bytes } => Some(
            Literal::ByteStr { bytes: crate::value::copy_bytes(bytes) },
        ),
        Token::Byte { value } => Some(Literal::Byte { value: *value }),
        Token::Char { code } => Some(Literal::Char { code: *code }),
        Token::Ident { name } => {
            let yes: String = "true".to_owned();
            let no: String = "false".to_owned();
            if *name == yes {
                Some(Literal::Bool { value: true })
            } else if *name == no {
                Some(Literal::Bool { value: false })
            } else {
                None
            }
        },
        _ => None,
    }
}

fn parse_expr(tokens: &Vec<Token>, pos: usize) -> (r: Result<(Expr, usize), Error>)
    ensures
        parsed_view(r) == parse_expr_spec(token_views(tokens@), pos as int),
        r matches Ok((e, end)) ==> pos < end <= tokens@.len(),
    decreases tokens@.len() - pos, 3nat,
{
    if pos >= tokens.len() {
        return Err(Error::TypeMismatch);
    }
    let (first, p) = match parse_primary(tokens, pos) {
        Err(e) => {
            return Err(e);
        },
        Ok(found) => found,
    };
    if p <= pos {
        return Err(Error::TypeMismatch);
    }
    let (target, after) = match parse_postfix(tokens, first, p) {
        Err(e) => {
            return Err(e);
        },
        Ok(found) => found,
    };
    if kind(tokens, after, 0) == KIND_ASSIGN {
        match parse_expr(tokens, after + 1) {
            Err(e) => Err(e),
            Ok((value, end)) => Ok(
                (Expr::Assign { target: Box::new(target), value: Box::new(value) }, end),
            ),
        }
    } else {
        Ok((target, after))
    }
}

fn parse_primary(tokens: &Vec<Token>, pos: usize) -> (r: Result<(Expr, usize), Error>)
    ensures
        parsed_view(r) == parse_primary_spec(token_views(tokens@), pos as int),
        r matches Ok((e, end)) ==> pos <= end <= tokens@.len(),
    decreases tokens@.len() - pos, 2nat,
{
    if pos >= tokens.len() {
        return Err(Error::TypeMismatch);
    }
    match literal(&tokens[pos]) {
        Some(l) => {
            return Ok((Expr::Literal { literal: l }, pos + 1));
        },
        None => {},
    }
    if kind(tokens, pos, 0) == KIND_OPEN_PAREN {
        if kind(tokens, pos, 1) == KIND_CLOSE_PAREN {
            Ok((Expr::Literal { literal: Literal::Unit }, pos + 2))
        } else {
            match parse_expr(tokens, pos + 1) {
                Err(e) => Err(e),
                Ok((inner, p)) => {
                    if kind(tokens, p, 0) == KIND_CLOSE_PAREN {
                        Ok((inner, p + 1))
                    } else if kind(tokens, p, 0) == KIND_COMMA {
                        let mut first: Vec<Expr> = Vec::new();
                        first.push(inner);
                        assert(expr_views(first@) =~= seq![inner@]);
                        match parse_args(tokens, p + 1, first) {
                            Err(e) => Err(e),
                            Ok((items, q)) => {
                                proof {
                                    lemma_tuple_view(items);
                                }
                                Ok((Expr::Tuple { items }, q + 1))
                            },
                        }
                    } else {
                        Err(Error::TypeMismatch)
                    }
                },
            }
        }
    } else {
        match parse_path(tokens, pos) {
            Err(e) => Err(e),
            Ok((named, p)) => {
                if p > pos && kind(tokens, p, 0) == KIND_OPEN_BRACE {
                    match named {
                        Expr::Name { path, generics: None } => {
                            let no_names: Vec<String> = Vec::new();
                            let no_values: Vec<Expr> = Vec::new();
                            assert(names_of(no_names@) =~= Seq::<Seq<char>>::empty());
                            assert(expr_views(no_values@) =~= Seq::<ExprModel>::empty());
                            match parse_inits(tokens, p + 1, no_names, no_values) {
                                Err(e) => Err(e),
                                Ok((names, values, q)) => {
                                    proof {
                                        lemma_struct_view(path, names, values);
                                    }
                                    Ok((Expr::Struct { path, names, values }, q + 1))
                                },
                            }
                        },
                        other => Ok((other, p)),
                    }
                } else {
                    Ok((named, p))
                }
            },
        }
    }
}

fn parse_inits(tokens: &Vec<Token>, pos: usize, names: Vec<String>, values: Vec<Expr>) -> (r:
    Result<(Vec<String>, Vec<Expr>, usize), Error>)
    ensures
        match r {
            Ok((all_names, all_values, end)) => parse_inits_spec(
                token_views(tokens@),
                pos as int,
                names_of(names@),
                expr_views(values@),
            ) == Ok::<(Seq<Seq<char>>, Seq<ExprModel>, int), Error>(
                (names_of(all_names@), expr_views(all_values@), end as int),
            ) && pos <= end < tokens@.len(),
            Err(e) => parse_inits_spec(
                token_views(tokens@),
                pos as int,
                names_of(names@),
                expr_views(values@),
            ) == Err::<(Seq<Seq<char>>, Seq<ExprModel>, int), Error>(e),
        },
    decreases tokens@.len() - pos, 4nat,
{
    if pos >= tokens.len() {
        return Err(Error::TypeMismatch);
    }
    if kind(tokens, pos, 0) == KIND_CLOSE_BRACE {
        return Ok((names, values, pos));
    }
    if kind(tokens, pos, 0) == KIND_IDENT && kind(tokens, pos, 1) == KIND_COLON {
        let member = name(tokens, pos);
        match parse_expr(tokens, pos + 2) {
            Err(e) => Err(e),
            Ok((value, p)) => {
                let ghost fewer_names = names_of(names@);
                let ghost fewer_values = expr_views(values@);
                let mut names = names;
                let mut values = values;
                names.push(member);
                values.push(value);
                assert(names_of(names@) =~= fewer_names.push(member@));
                assert(expr_views(values@) =~= fewer_values.push(value@));
                if kind(tokens, p, 0) == KIND_COMMA {
                    parse_inits(tokens, p + 1, names, values)
                } else if kind(tokens, p, 0) == KIND_CLOSE_BRACE {
                    Ok((names, values, p))
                } else {
                    Err(Error::TypeMismatch)
                }
            },
        }
    } else {
        Err(Error::TypeMismatch)
    }
}

fn parse_subscript(tokens: &Vec<Token>, base: Expr, pos: usize) -> (r: Result<
    (Expr, usize),
    Error,
>)
    ensures
        parsed_view(r) == parse_subscript_spec(token_views(tokens@), base@, pos as int),
        r matches Ok((e, end)) ==> pos < end <= tokens@.len(),
    decreases tokens@.len() - pos, 4nat,
{
    if pos >= tokens.len() {
        return Err(Error::TypeMismatch);
    }
    if kind(tokens, pos, 0) == KIND_DOT_DOT {
        return parse_upper(tokens, base, None, pos + 1);
    }
    match parse_expr(tokens, pos) {
        Err(e) => Err(e),
        Ok((first, p)) => {
            if kind(tokens, p, 0) == KIND_CLOSE_BRACKET {
                Ok((Expr::Index { base: Box::new(base), index: Box::new(first) }, p + 1))
            } else if kind(tokens, p, 0) == KIND_DOT_DOT {
                parse_upper(tokens, base, Some(Box::new(first)), p + 1)
            } else {
                Err(Error::TypeMismatch)
            }
        },
    }
}

fn parse_upper(tokens: &Vec<Token>, base: Expr, from: Option<Box<Expr>>, pos: usize) -> (r: Result<
    (Expr, usize),
    Error,
>)
    ensures
        parsed_view(r) == parse_upper_spec(
            token_views(tokens@),
            base@,
            crate::expr::boxed_view(from),
            pos as int,
        ),
        r matches Ok((e, end)) ==> pos < end <= tokens@.len(),
    decreases tokens@.len() - pos, 4nat,
{
    if pos >= tokens.len() {
        return Err(Error::TypeMismatch);
    }
    let boxed = Box::new(base);
    if kind(tokens, pos, 0) == KIND_CLOSE_BRACKET {
        proof {
            lemma_slice_view(boxed, from, None);
        }
        return Ok((Expr::Slice { base: boxed, from, to: None }, pos + 1));
    }
    match parse_expr(tokens, pos) {
        Err(e) => Err(e),
        Ok((upper, p)) => {
            if kind(tokens, p, 0) == KIND_CLOSE_BRACKET {
                let to = Some(Box::new(upper));
                proof {
                    lemma_slice_view(boxed, from, to);
                }
                Ok((Expr::Slice { base: boxed, from, to }, p + 1))
            } else {
                Err(Error::TypeMismatch)
            }
        },
    }
}

fn parse_args(tokens: &Vec<Token>, pos: usize, before: Vec<Expr>) -> (r: Result<
    (Vec<Expr>, usize),
    Error,
>)
    ensures
        match r {
            Ok((args, end)) => parse_args_spec(
                token_views(tokens@),
                pos as int,
                expr_views(before@),
            ) == Ok::<(Seq<ExprModel>, int), Error>((expr_views(args@), end as int)) && pos <= end
                < tokens@.len(),
            Err(e) => parse_args_spec(token_views(tokens@), pos as int, expr_views(before@))
                == Err::<(Seq<ExprModel>, int), Error>(e),
        },
    decreases tokens@.len() - pos, 4nat,
{
    if pos >= tokens.len() {
        return Err(Error::TypeMismatch);
    }
    if kind(tokens, pos, 0) == KIND_CLOSE_PAREN {
        return Ok((before, pos));
    }
    match parse_expr(tokens, pos) {
        Err(e) => Err(e),
        Ok((arg, p)) => {
            let ghost shorter = expr_views(before@);
            let mut args = before;
            args.push(arg);
            assert(expr_views(args@) =~= shorter.push(arg@));
            if kind(tokens, p, 0) == KIND_COMMA {
                parse_args(tokens, p + 1, args)
            } else if kind(tokens, p, 0) == KIND_CLOSE_PAREN {
                Ok((args, p))
            } else {
                Err(Error::TypeMismatch)
            }
        },
    }
}

fn parse_postfix(tokens: &Vec<Token>, base: Expr, pos: usize) -> (r: Result<(Expr, usize), Error>)
    requires
        pos <= tokens@.len(),
    ensures
        parsed_view(r) == parse_postfix_spec(token_views(tokens@), base@, pos as int),
        r matches Ok((e, end)) ==> pos <= end <= tokens@.len(),
    decreases tokens@.len() - pos, 5nat,
{
    if pos >= tokens.len() {
        return Ok((base, pos));
    }
    let here = kind(tokens, pos, 0);
    if here == KIND_DOT {
        if kind(tokens, pos, 1) == KIND_IDENT {
            let member = name(tokens, pos + 1);
            if kind(tokens, pos, 2) == KIND_OPEN_PAREN {
                let none: Vec<Expr> = Vec::new();
                assert(expr_views(none@) =~= Seq::<ExprModel>::empty());
                match parse_args(tokens, pos + 3, none) {
                    Err(e) => Err(e),
                    Ok((args, p)) => {
                        let receiver = Box::new(base);
                        proof {
                            lemma_method_call_view(receiver, member, args);
                        }
                        parse_postfix(
                            tokens,
                            Expr::MethodCall { receiver, name: member, args },
                            p + 1,
                        )
                    },
                }
            } else {
                parse_postfix(tokens, Expr::Field { base: Box::new(base), name: member }, pos + 2)
            }
        } else {
            if pos + 1 >= tokens.len() {
                return Err(Error::TypeMismatch);
            }
            match &tokens[pos + 1] {
                Token::Int { value, suffix: None } => {
                    if *value > usize::MAX as u128 {
                        return Err(Error::TypeMismatch);
                    }
                    parse_postfix(
                        tokens,
                        Expr::TupleIndex { base: Box::new(base), index: *value as usize },
                        pos + 2,
                    )
                },
                _ => Err(Error::TypeMismatch),
            }
        }
    } else if here == KIND_OPEN_BRACKET {
        match parse_subscript(tokens, base, pos + 1) {
            Err(e) => Err(e),
            Ok((grown, p)) => parse_postfix(tokens, grown, p),
        }
    } else if here == KIND_OPEN_PAREN {
        let none: Vec<Expr> = Vec::new();
        assert(expr_views(none@) =~= Seq::<ExprModel>::empty());
        match parse_args(tokens, pos + 1, none) {
            Err(e) => Err(e),
            Ok((args, p)) => {
                let callee = Box::new(base);
                proof {
                    lemma_call_view(callee, args);
                }
                parse_postfix(tokens, Expr::Call { callee, args }, p + 1)
            },
        }
    } else {
        Ok((base, pos))
    }
}

/// The expression that `tokens` spell; see [`parse_tokens_spec`].
pub fn parse_tokens(tokens: &Vec<Token>) -> (r: Result<Expr, Error>)
    ensures
        expr_result_view(r) == parse_tokens_spec(token_views(tokens@)),
{
    match parse_expr(tokens, 0) {
        Err(e) => Err(e),
        Ok((e, end)) => {
            if end == tokens.len() {
                Ok(e)
            } else {
                Err(Error::TypeMismatch)
            }
        },
    }
}

/// The expression that `text` spells; see [`parse_spec`].
pub fn parse(text: &str) -> (r: Result<Expr, Error>)
    ensures
        expr_result_view(r) == parse_spec(text@),
{
    match lex(text) {
        Err(e) => Err(e),
        Ok(tokens) => parse_tokens(&tokens),
    }
}

/// Whether `name` is a name like any other: not one of the words that a
/// path or a literal gives a meaning of its own.
pub open spec fn is_plain_name(name: Seq<char>) -> bool {
    name != "self"@ && name != "super"@ && name != "true"@ && name != "false"@
}

/// The expression that a plain name alone spells.
pub open spec fn plain(name: Seq<char>) -> ExprModel {
    ExprModel::Name {
        path: PathModel { root: PathRoot::Lexical, segments: seq![name] },
        generics: None,
    }
}

/// `a.f()` is a method call on `a`.
pub proof fn lemma_dot_call_is_a_method_call(a: Seq<char>, f: Seq<char>)
    requires
        is_plain_name(a),
    ensures
        parse_tokens_spec(
            seq![
                TokenModel::Ident { name: a },
                TokenModel::Dot,
                TokenModel::Ident { name: f },
                TokenModel::OpenParen,
                TokenModel::CloseParen,
            ],
        ) == Ok::<ExprModel, Error>(
            ExprModel::MethodCall { receiver: Box::new(plain(a)), name: f, args: Seq::empty() },
        ),
{
    let t = seq![
        TokenModel::Ident { name: a },
        TokenModel::Dot,
        TokenModel::Ident { name: f },
        TokenModel::OpenParen,
        TokenModel::CloseParen,
    ];
    lemma_plain_path(t, 0);
    assert(parse_args_spec(t, 4, Seq::empty()) == Ok::<(Seq<ExprModel>, int), Error>(
        (Seq::empty(), 4),
    ));
    let call = ExprModel::MethodCall { receiver: Box::new(plain(a)), name: f, args: Seq::empty() };
    assert(parse_postfix_spec(t, call, 5) == Ok::<(ExprModel, int), Error>((call, 5)));
    assert(parse_postfix_spec(t, plain(a), 1) == Ok::<(ExprModel, int), Error>((call, 5)));
}

/// `(a.f)()` is a call of the value of the member `f` of `a`.
pub proof fn lemma_parenthesised_member_is_called_as_a_value(a: Seq<char>, f: Seq<char>)
    requires
        is_plain_name(a),
    ensures
        parse_tokens_spec(
            seq![
                TokenModel::OpenParen,
                TokenModel::Ident { name: a },
                TokenModel::Dot,
                TokenModel::Ident { name: f },
                TokenModel::CloseParen,
                TokenModel::OpenParen,
                TokenModel::CloseParen,
            ],
        ) == Ok::<ExprModel, Error>(
            ExprModel::Call {
                callee: Box::new(ExprModel::Field { base: Box::new(plain(a)), name: f }),
                args: Seq::empty(),
            },
        ),
{
    let t = seq![
        TokenModel::OpenParen,
        TokenModel::Ident { name: a },
        TokenModel::Dot,
        TokenModel::Ident { name: f },
        TokenModel::CloseParen,
        TokenModel::OpenParen,
        TokenModel::CloseParen,
    ];
    let member = ExprModel::Field { base: Box::new(plain(a)), name: f };
    let call = ExprModel::Call { callee: Box::new(member), args: Seq::empty() };
    lemma_plain_path(t, 1);
    assert(parse_postfix_spec(t, member, 4) == Ok::<(ExprModel, int), Error>((member, 4)));
    assert(parse_postfix_spec(t, plain(a), 2) == Ok::<(ExprModel, int), Error>((member, 4)));
    assert(parse_expr_spec(t, 1) == Ok::<(ExprModel, int), Error>((member, 4)));
    assert(parse_primary_spec(t, 0) == Ok::<(ExprModel, int), Error>((member, 5)));
    assert(parse_args_spec(t, 6, Seq::empty()) == Ok::<(Seq<ExprModel>, int), Error>(
        (Seq::empty(), 6),
    ));
    assert(parse_postfix_spec(t, call, 7) == Ok::<(ExprModel, int), Error>((call, 7)));
    assert(parse_postfix_spec(t, member, 5) == Ok::<(ExprModel, int), Error>((call, 7)));
}

/// A plain name that neither `::` nor `{` follows is a path of one name.
pub proof fn lemma_plain_path(t: Seq<TokenModel>, pos: int)
    requires
        0 <= pos < t.len(),
        t[pos] is Ident,
        is_plain_name(t[pos]->Ident_name),
        kind_at(t, pos + 1) != KIND_PATH_SEP,
        kind_at(t, pos + 1) != KIND_OPEN_BRACE,
    ensures
        parse_primary_spec(t, pos) == Ok::<(ExprModel, int), Error>(
            (plain(t[pos]->Ident_name), pos + 1),
        ),
{
    let name = t[pos]->Ident_name;
    let names = seq![name];
    assert(names_list(t, pos, KIND_PATH_SEP, Seq::empty()) == (names, pos + 1)) by {
        assert(Seq::<Seq<char>>::empty().push(name) =~= names);
    }
    assert(leading_supers(names, 0) == 0);
    assert(classify(false, names) == (PathRoot::Lexical, names));
    assert(generics_spec(t, pos + 1) == Ok::<(Option<Seq<Seq<char>>>, int), Error>(
        (None, pos + 1),
    ));
    assert(parse_path_spec(t, pos) == Ok::<(ExprModel, int), Error>((plain(name), pos + 1)));
}

} // verus!
