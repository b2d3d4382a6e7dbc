use dbgeval::error::Error;
use dbgeval::expr::{Expr, Literal};
use dbgeval::lexer::{lex, Token};
use dbgeval::parser::{parse, parse_tokens};
use dbgeval::scope::{Path, PathRoot};

fn name(text: &str) -> Expr {
    Expr::Name {
        path: Path { root: PathRoot::Lexical, segments: vec![text.to_string()] },
        generics: None,
    }
}

fn num(value: u128) -> Expr {
    Expr::Literal { literal: Literal::Int { value, suffix: None } }
}

fn boxed(e: Expr) -> Box<Expr> {
    Box::new(e)
}

fn ident(text: &str) -> Token {
    Token::Ident { name: text.to_string() }
}

#[test]
fn tokens_of_a_call() {
    assert_eq!(
        lex("foo.f ( 1,\t2 )"),
        Ok(vec![
            ident("foo"),
            Token::Dot,
            ident("f"),
            Token::OpenParen,
            Token::Int { value: 1, suffix: None },
            Token::Comma,
            Token::Int { value: 2, suffix: None },
            Token::CloseParen,
        ])
    );
}

#[test]
fn tokens_of_numbers() {
    assert_eq!(lex("23u32"), Ok(vec![Token::Int { value: 23, suffix: Some("u32".to_string()) }]));
    assert_eq!(lex("0x1F"), Ok(vec![Token::Int { value: 31, suffix: None }]));
    assert_eq!(lex("0xABu8"), Ok(vec![Token::Int { value: 171, suffix: Some("u8".to_string()) }]));
    assert_eq!(lex("1_000"), Ok(vec![Token::Int { value: 1000, suffix: None }]));
    assert_eq!(lex("25.5"), Ok(vec![Token::Float { text: "25.5".to_string() }]));
    assert_eq!(lex("23.0f64"), Ok(vec![Token::Float { text: "23.0f64".to_string() }]));
    assert_eq!(lex("7f32"), Ok(vec![Token::Float { text: "7f32".to_string() }]));
    assert_eq!(
        lex("1..3"),
        Ok(vec![
            Token::Int { value: 1, suffix: None },
            Token::DotDot,
            Token::Int { value: 3, suffix: None },
        ])
    );
    assert_eq!(
        lex("x.0.1"),
        Ok(vec![
            ident("x"),
            Token::Dot,
            Token::Int { value: 0, suffix: None },
            Token::Dot,
            Token::Int { value: 1, suffix: None },
        ])
    );
    assert_eq!(
        lex("340282366920938463463374607431768211455"),
        Ok(vec![Token::Int { value: u128::MAX, suffix: None }])
    );
    assert_eq!(lex("340282366920938463463374607431768211456"), Err(Error::OutOfRange));
    assert_eq!(lex("0x100000000000000000000000000000000"), Err(Error::OutOfRange));
}

#[test]
fn tokens_of_quoted_text() {
    assert_eq!(lex("\"hi bob\""), Ok(vec![Token::Str { bytes: b"hi bob".to_vec() }]));
    assert_eq!(lex("b\"hi bob\""), Ok(vec![Token::ByteStr { bytes: b"hi bob".to_vec() }]));
    assert_eq!(lex("\"\""), Ok(vec![Token::Str { bytes: vec![] }]));
    assert_eq!(lex("b'9'"), Ok(vec![Token::Byte { value: 57 }]));
    assert_eq!(lex("'m'"), Ok(vec![Token::Char { code: 109 }]));
    assert_eq!(lex("b"), Ok(vec![ident("b")]));
    assert_eq!(lex("bob"), Ok(vec![ident("bob")]));
    assert_eq!(lex("\"open"), Err(Error::TypeMismatch));
    assert_eq!(lex("''"), Err(Error::TypeMismatch));
    assert_eq!(lex("'ab'"), Err(Error::TypeMismatch));
    assert_eq!(lex("\"a\\b\""), Err(Error::TypeMismatch));
}

#[test]
fn tokens_of_punctuation() {
    assert_eq!(lex("{:}"), Ok(vec![Token::OpenBrace, Token::Colon, Token::CloseBrace]));
    assert_eq!(
        lex("::<>=[],().."),
        Ok(vec![
            Token::PathSep,
            Token::Less,
            Token::Greater,
            Token::Assign,
            Token::OpenBracket,
            Token::CloseBracket,
            Token::Comma,
            Token::OpenParen,
            Token::CloseParen,
            Token::DotDot,
        ])
    );
    assert_eq!(lex(""), Ok(vec![]));
    assert_eq!(lex("  \n "), Ok(vec![]));
    assert_eq!(lex(";"), Err(Error::TypeMismatch));
    assert_eq!(lex("a + b"), Err(Error::TypeMismatch));
    assert_eq!(lex("na\u{ef}ve"), Err(Error::TypeMismatch));
}

#[test]
fn paths_say_where_they_start() {
    let path = |root, segments: &[&str]| Expr::Name {
        path: Path { root, segments: segments.iter().map(|s| s.to_string()).collect() },
        generics: None,
    };
    assert_eq!(parse("f2"), Ok(path(PathRoot::Lexical, &["f2"])));
    assert_eq!(parse("mod1::inner::f2"), Ok(path(PathRoot::Lexical, &["mod1", "inner", "f2"])));
    assert_eq!(parse("::f2"), Ok(path(PathRoot::Absolute, &["f2"])));
    assert_eq!(parse("::mod1::f2"), Ok(path(PathRoot::Absolute, &["mod1", "f2"])));
    assert_eq!(parse("self::f2"), Ok(path(PathRoot::Module { supers: 0 }, &["f2"])));
    assert_eq!(parse("super::f2"), Ok(path(PathRoot::Module { supers: 1 }, &["f2"])));
    assert_eq!(parse("self::super::f2"), Ok(path(PathRoot::Module { supers: 1 }, &["f2"])));
    assert_eq!(parse("self::super::super::f2"), Ok(path(PathRoot::Module { supers: 2 }, &["f2"])));
    assert_eq!(parse("super::super::f2"), Ok(path(PathRoot::Module { supers: 2 }, &["f2"])));
    assert_eq!(parse("super::a::super"), Ok(path(PathRoot::Module { supers: 1 }, &["a", "super"])));
    assert_eq!(parse("self"), Err(Error::TypeMismatch));
    assert_eq!(parse("super::super"), Err(Error::TypeMismatch));
    assert_eq!(
        parse("identity::<u32>"),
        Ok(Expr::Name {
            path: Path { root: PathRoot::Lexical, segments: vec!["identity".to_string()] },
            generics: Some(vec!["u32".to_string()]),
        })
    );
    assert_eq!(
        parse("pair::<u8, i32>"),
        Ok(Expr::Name {
            path: Path { root: PathRoot::Lexical, segments: vec!["pair".to_string()] },
            generics: Some(vec!["u8".to_string(), "i32".to_string()]),
        })
    );
}

#[test]
fn member_access_and_calls_grow_to_the_right() {
    assert_eq!(
        parse("a.b.0"),
        Ok(Expr::TupleIndex {
            base: boxed(Expr::Field { base: boxed(name("a")), name: "b".to_string() }),
            index: 0,
        })
    );
    assert_eq!(
        parse("x.0.1"),
        Ok(Expr::TupleIndex {
            base: boxed(Expr::TupleIndex { base: boxed(name("x")), index: 0 }),
            index: 1,
        })
    );
    assert_eq!(
        parse("foo.f()"),
        Ok(Expr::MethodCall { receiver: boxed(name("foo")), name: "f".to_string(), args: vec![] })
    );
    assert_eq!(
        parse("(foo.f)()"),
        Ok(Expr::Call {
            callee: boxed(Expr::Field { base: boxed(name("foo")), name: "f".to_string() }),
            args: vec![],
        })
    );
    assert_eq!(
        parse("f(1, x,)"),
        Ok(Expr::Call { callee: boxed(name("f")), args: vec![num(1), name("x")] })
    );
    assert_eq!(
        parse("a.m(1)(2)"),
        Ok(Expr::Call {
            callee: boxed(Expr::MethodCall {
                receiver: boxed(name("a")),
                name: "m".to_string(),
                args: vec![num(1)],
            }),
            args: vec![num(2)],
        })
    );
    assert_eq!(parse("(x)"), Ok(name("x")));
    assert_eq!(parse("x.0u8"), Err(Error::TypeMismatch));
}

#[test]
fn subscripts_are_indices_or_ranges() {
    let slice = |from: Option<Expr>, to: Option<Expr>| Expr::Slice {
        base: boxed(name("w")),
        from: from.map(Box::new),
        to: to.map(Box::new),
    };
    assert_eq!(parse("w[2]"), Ok(Expr::Index { base: boxed(name("w")), index: boxed(num(2)) }));
    assert_eq!(parse("w[1..3]"), Ok(slice(Some(num(1)), Some(num(3)))));
    assert_eq!(parse("w[..3]"), Ok(slice(None, Some(num(3)))));
    assert_eq!(parse("w[1..]"), Ok(slice(Some(num(1)), None)));
    assert_eq!(parse("w[..]"), Ok(slice(None, None)));
    assert_eq!(parse("w[a..b]"), Ok(slice(Some(name("a")), Some(name("b")))));
    assert_eq!(parse("w[]"), Err(Error::TypeMismatch));
    assert_eq!(parse("w[1,2]"), Err(Error::TypeMismatch));
}

#[test]
fn tuples_and_struct_literals() {
    assert_eq!(parse("(a, 1)"), Ok(Expr::Tuple { items: vec![name("a"), num(1)] }));
    assert_eq!(parse("(a,)"), Ok(Expr::Tuple { items: vec![name("a")] }));
    assert_eq!(parse("(a, 1,)"), Ok(Expr::Tuple { items: vec![name("a"), num(1)] }));
    let simple = |segments: &[&str]| Path {
        root: PathRoot::Lexical,
        segments: segments.iter().map(|s| s.to_string()).collect(),
    };
    assert_eq!(
        parse("HiBob { field1: 7, field2: x }"),
        Ok(Expr::Struct {
            path: simple(&["HiBob"]),
            names: vec!["field1".to_string(), "field2".to_string()],
            values: vec![num(7), name("x")],
        })
    );
    assert_eq!(
        parse("simple::Unit {}"),
        Ok(Expr::Struct { path: simple(&["simple", "Unit"]), names: vec![], values: vec![] })
    );
    assert_eq!(
        parse("S { a: 1 }.a"),
        Ok(Expr::Field {
            base: boxed(Expr::Struct {
                path: simple(&["S"]),
                names: vec!["a".to_string()],
                values: vec![num(1)],
            }),
            name: "a".to_string(),
        })
    );
    assert_eq!(parse("S { a: }"), Err(Error::TypeMismatch));
    assert_eq!(parse("S { a }"), Err(Error::TypeMismatch));
    assert_eq!(parse("S { a: 1"), Err(Error::TypeMismatch));
    assert_eq!(parse("(a, 1"), Err(Error::TypeMismatch));
    assert_eq!(parse("(,)"), Err(Error::TypeMismatch));
}

#[test]
fn assignment_groups_to_the_right() {
    assert_eq!(
        parse("a = b = 1"),
        Ok(Expr::Assign {
            target: boxed(name("a")),
            value: boxed(Expr::Assign { target: boxed(name("b")), value: boxed(num(1)) }),
        })
    );
    assert_eq!(parse("a ="), Err(Error::TypeMismatch));
    assert_eq!(parse("= a"), Err(Error::TypeMismatch));
}

#[test]
fn literals_are_primaries() {
    let lit = |literal| Ok(Expr::Literal { literal });
    assert_eq!(parse("true"), lit(Literal::Bool { value: true }));
    assert_eq!(parse("false"), lit(Literal::Bool { value: false }));
    assert_eq!(parse("()"), lit(Literal::Unit));
    assert_eq!(parse("b'9'"), lit(Literal::Byte { value: 57 }));
    assert_eq!(parse("'m'"), lit(Literal::Char { code: 109 }));
    assert_eq!(parse("\"hi\""), lit(Literal::Str { bytes: b"hi".to_vec() }));
    assert_eq!(parse("b\"hi\""), lit(Literal::ByteStr { bytes: b"hi".to_vec() }));
    assert_eq!(parse("25.5"), lit(Literal::Float { text: "25.5".to_string() }));
    assert_eq!(parse("7i128"), lit(Literal::Int { value: 7, suffix: Some("i128".to_string()) }));
    assert_eq!(parse_tokens(&vec![Token::Byte { value: 1 }]), lit(Literal::Byte { value: 1 }));
    assert_eq!(parse_tokens(&vec![]), Err(Error::TypeMismatch));
    assert_eq!(parse_tokens(&vec![Token::Dot]), Err(Error::TypeMismatch));
}
