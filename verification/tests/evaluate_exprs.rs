use dbgeval::bytes::ByteRange;
use dbgeval::decode::decode;
use dbgeval::dispatch::{MethodEntry, MethodRegistry, Provider, ReceiverMode};
use dbgeval::error::Error;
use dbgeval::eval::{
    evaluate, evaluate_expr, integer_value, literal_value, CallRequest, CallTarget, Context, Local,
    Outcome,
};
use dbgeval::expr::Literal;
use dbgeval::parser::parse;
use dbgeval::scope::{ScopeKind, ScopeTree, Symbol, SymbolKind};
use dbgeval::types::{Field, ScalarKind, Shape, TypeDescriptor, TypeId, TypeTable};
use dbgeval::value::Value;

struct World {
    types: TypeTable,
    scopes: ScopeTree,
    methods: MethodRegistry,
    locals: Vec<Local>,
    memory: ByteRange,
    i32_id: TypeId,
    u32_id: TypeId,
    arr: TypeId,
    foo_ty: TypeId,
    has_methods: TypeId,
    foo_f: usize,
    foo_g: usize,
    identity_u32: usize,
    identity_i32: usize,
    new_fn: usize,
    whatever_fn: usize,
    diff2: usize,
}

fn prim(t: &mut TypeTable, path: &str, size: usize, kind: ScalarKind) -> TypeId {
    t.add(TypeDescriptor {
        path: path.to_string(),
        generic_args: vec![],
        size,
        align: 1,
        shape: Shape::Primitive { kind },
    })
    .unwrap()
}

fn function(name: &str, scope: usize, ty: TypeId, params: Vec<TypeId>, generics: Vec<TypeId>,
    address: u64) -> Symbol {
    Symbol {
        name: name.to_string(),
        kind: SymbolKind::Function,
        scope,
        ty,
        generic_args: generics,
        params,
        address,
    }
}

/// Memory at 0x1000: the array `w = [1, 2, 3, 4]`, then at 0x1010 the struct
/// `foo = Foo { x: 5, f: five }` with `five` at 0x4000, then at 0x1020 the
/// static `TWENTY_THREE: u16 = 23`.
fn world() -> World {
    let mut types = TypeTable::new(8).unwrap();
    let i32_id = prim(&mut types, "i32", 4, ScalarKind::Signed);
    let u32_id = prim(&mut types, "u32", 4, ScalarKind::Unsigned);
    prim(&mut types, "isize", 8, ScalarKind::Signed);
    prim(&mut types, "u8", 1, ScalarKind::Unsigned);
    let u16_id = prim(&mut types, "u16", 2, ScalarKind::Unsigned);
    prim(&mut types, "u128", 16, ScalarKind::Unsigned);
    prim(&mut types, "i8", 1, ScalarKind::Signed);
    prim(&mut types, "bool", 1, ScalarKind::Bool);
    prim(&mut types, "char", 4, ScalarKind::Char);
    prim(&mut types, "()", 0, ScalarKind::Unit);
    prim(&mut types, "str", 0, ScalarKind::Unsigned);
    let arr = types
        .add(TypeDescriptor {
            path: "[i32; 4]".to_string(),
            generic_args: vec![],
            size: 16,
            align: 4,
            shape: Shape::Array { elem: i32_id, count: 4 },
        })
        .unwrap();
    let fn_ptr = types
        .add(TypeDescriptor {
            path: "fn() -> i32".to_string(),
            generic_args: vec![],
            size: 8,
            align: 8,
            shape: Shape::FunctionPointer,
        })
        .unwrap();
    let foo_ty = types
        .add(TypeDescriptor {
            path: "fnfield::Foo".to_string(),
            generic_args: vec![],
            size: 16,
            align: 8,
            shape: Shape::Struct {
                fields: vec![
                    Field { name: "x".to_string(), ty: i32_id, offset: 8 },
                    Field { name: "f".to_string(), ty: fn_ptr, offset: 0 },
                ],
            },
        })
        .unwrap();
    let has_methods = types
        .add(TypeDescriptor {
            path: "methods::HasMethods".to_string(),
            generic_args: vec![],
            size: 4,
            align: 4,
            shape: Shape::Struct { fields: vec![Field { name: "value".to_string(), ty: i32_id, offset: 0 }] },
        })
        .unwrap();

    let mut scopes = ScopeTree::new("".to_string());
    let body = scopes.add_scope(0, "main".to_string(), ScopeKind::Function).unwrap();
    assert_eq!(body, 1);
    let foo_f = scopes.add_symbol(function("f", 0, i32_id, vec![], vec![], 0x5000)).unwrap();
    let foo_g = scopes.add_symbol(function("g", 0, i32_id, vec![], vec![], 0x5100)).unwrap();
    scopes.symbol(foo_f).unwrap();
    let identity_u32 = scopes
        .add_symbol(function("identity", 0, u32_id, vec![u32_id], vec![u32_id], 0x6000))
        .unwrap();
    let identity_i32 = scopes
        .add_symbol(function("identity", 0, i32_id, vec![i32_id], vec![i32_id], 0x6100))
        .unwrap();
    let diff2 = scopes
        .add_symbol(function("diff2", 0, i32_id, vec![i32_id, i32_id], vec![], 0x6200))
        .unwrap();
    scopes
        .add_symbol(Symbol {
            name: "HasMethods".to_string(),
            kind: SymbolKind::Type,
            scope: 0,
            ty: has_methods,
            generic_args: vec![],
            params: vec![],
            address: 0,
        })
        .unwrap();
    scopes
        .add_symbol(Symbol {
            name: "TWENTY_THREE".to_string(),
            kind: SymbolKind::Static,
            scope: 0,
            ty: u16_id,
            generic_args: vec![],
            params: vec![],
            address: 0x1020,
        })
        .unwrap();
    scopes
        .add_symbol(Symbol {
            name: "FAR_AWAY".to_string(),
            kind: SymbolKind::Static,
            scope: 0,
            ty: u16_id,
            generic_args: vec![],
            params: vec![],
            address: 0x9000,
        })
        .unwrap();
    let new_fn = scopes.add_symbol(function("new", 0, has_methods, vec![], vec![], 0x7000)).unwrap();
    let whatever_fn =
        scopes.add_symbol(function("whatever", 0, i32_id, vec![], vec![], 0x7100)).unwrap();

    let mut methods = MethodRegistry::new();
    let method = |ty, name: &str, provider, receiver, symbol| MethodEntry {
        ty,
        name: name.to_string(),
        provider,
        receiver,
        symbol,
    };
    methods.register(method(foo_ty, "f", Provider::Inherent, ReceiverMode::ByReference, foo_f));
    methods.register(method(foo_ty, "g", Provider::Inherent, ReceiverMode::ByReference, foo_g));
    methods.register(method(has_methods, "new", Provider::Inherent, ReceiverMode::Static, new_fn));
    methods.register(method(
        has_methods,
        "whatever",
        Provider::Trait { id: 0 },
        ReceiverMode::ByReference,
        whatever_fn,
    ));
    methods.register(method(
        i32_id,
        "whatever",
        Provider::Trait { id: 0 },
        ReceiverMode::ByValue,
        whatever_fn,
    ));

    let mut bytes = vec![1, 0, 0, 0, 2, 0, 0, 0, 3, 0, 0, 0, 4, 0, 0, 0];
    bytes.extend_from_slice(&[0x00, 0x40, 0, 0, 0, 0, 0, 0, 5, 0, 0, 0, 0, 0, 0, 0]);
    bytes.extend_from_slice(&[23, 0]);
    let memory = ByteRange::new(0x1000, bytes).unwrap();
    let w = decode(&types, arr, &memory, None).unwrap();
    let foo = dbgeval::decode::decode_at(&types, foo_ty, &memory, 16, None).unwrap();
    let locals = vec![
        Local {
            name: "c".to_string(),
            value: Value::Scalar { ty: i32_id, kind: ScalarKind::Signed, bytes: vec![27, 0, 0, 0] },
        },
        Local { name: "w".to_string(), value: w },
        Local { name: "foo".to_string(), value: foo },
        Local {
            name: "c".to_string(),
            value: Value::Scalar { ty: i32_id, kind: ScalarKind::Signed, bytes: vec![99, 0, 0, 0] },
        },
        Local {
            name: "f2".to_string(),
            value: Value::Function { ty: fn_ptr, symbol: 0x4400, receiver: None },
        },
    ];
    World {
        types,
        scopes,
        methods,
        locals,
        memory,
        i32_id,
        u32_id,
        arr,
        foo_ty,
        has_methods,
        foo_f,
        foo_g,
        identity_u32,
        identity_i32,
        new_fn,
        whatever_fn,
        diff2,
    }
}

fn run(w: &World, text: &str, results: &Vec<Value>) -> Result<Outcome, Error> {
    let c = Context {
        types: &w.types,
        scopes: &w.scopes,
        methods: &w.methods,
        scope: 1,
        locals: &w.locals,
        memory: &w.memory,
        results,
    };
    evaluate(text, &c)
}

fn value(w: &World, text: &str) -> Value {
    match run(w, text, &vec![]) {
        Ok(Outcome::Done { value }) => value,
        other => panic!("{} gave {:?}", text, other),
    }
}

fn shown(w: &World, text: &str) -> String {
    dbgeval::format::format(&w.types, &value(w, text))
}

fn call(w: &World, text: &str) -> CallRequest {
    match run(w, text, &vec![]) {
        Ok(Outcome::Call { request }) => request,
        other => panic!("{} gave {:?}", text, other),
    }
}

fn num(w: &World, n: u8) -> Value {
    Value::Scalar { ty: w.i32_id, kind: ScalarKind::Signed, bytes: vec![n, 0, 0, 0] }
}

#[test]
fn slice_of_an_array_has_the_elements_in_range() {
    let w = world();
    assert_eq!(
        value(&w, "w[1..3]"),
        Value::Slice { ty: w.arr, elem: w.i32_id, base: 0x1004, count: 2 }
    );
    assert_eq!(shown(&w, "w[1..3][0]"), "2");
    assert_eq!(shown(&w, "w[1..3][1]"), "3");
    assert_eq!(run(&w, "w[1..3][2]", &vec![]), Err(Error::OutOfRange));
}

#[test]
fn every_form_of_range_is_understood() {
    let w = world();
    assert_eq!(shown(&w, "w[..]"), "&[4 @ 0x1000]");
    assert_eq!(shown(&w, "w[1..]"), "&[3 @ 0x1004]");
    assert_eq!(shown(&w, "w[..3]"), "&[3 @ 0x1000]");
    assert_eq!(shown(&w, "w[2..3]"), "&[1 @ 0x1008]");
    assert_eq!(shown(&w, "w[2..3][0..1]"), "&[1 @ 0x1008]");
    assert_eq!(shown(&w, "w[2..3][..]"), "&[1 @ 0x1008]");
    assert_eq!(shown(&w, "w[2..3][1..]"), "&[0 @ 0x100c]");
    assert_eq!(shown(&w, "w[2..3][..1][0]"), "3");
    assert_eq!(run(&w, "w[3..2]", &vec![]), Err(Error::OutOfRange));
    assert_eq!(run(&w, "w[0..5]", &vec![]), Err(Error::OutOfRange));
}

#[test]
fn slicing_composes() {
    let w = world();
    assert_eq!(value(&w, "w[1..4][1..3]"), value(&w, "w[2..4]"));
    assert_eq!(value(&w, "w[1..4][0..0]"), value(&w, "w[1..1]"));
}

#[test]
fn indexing_reads_elements() {
    let w = world();
    assert_eq!(shown(&w, "w[0]"), "1");
    assert_eq!(shown(&w, "w[3]"), "4");
    assert_eq!(shown(&w, "w[w[0]]"), "2");
    assert_eq!(run(&w, "w[4]", &vec![]), Err(Error::OutOfRange));
    assert_eq!(run(&w, "c[0]", &vec![]), Err(Error::TypeMismatch));
    assert_eq!(run(&w, "w[foo]", &vec![]), Err(Error::TypeMismatch));
    assert_eq!(run(&w, "w[true]", &vec![]), Err(Error::TypeMismatch));
}

#[test]
fn later_locals_shadow_earlier_ones() {
    let w = world();
    assert_eq!(shown(&w, "c"), "99");
    assert_eq!(shown(&w, "w"), "[1, 2, 3, 4]");
    assert_eq!(run(&w, "nothing", &vec![]), Err(Error::NotFound));
}

#[test]
fn assignment_has_the_value_assigned() {
    let w = world();
    assert_eq!(shown(&w, "c = 99"), "99");
    assert_eq!(shown(&w, "c = w[1]"), "2");
    assert_eq!(run(&w, "nothing = 1", &vec![]), Err(Error::NotFound));
}

#[test]
fn field_access_reads_members() {
    let w = world();
    assert_eq!(shown(&w, "foo.x"), "5");
    assert_eq!(shown(&w, "foo.f"), "fn@0x4000");
    assert_eq!(shown(&w, "foo"), "fnfield::Foo { x: 5, f: fn@0x4000 }");
    assert_eq!(run(&w, "foo.y", &vec![]), Err(Error::NotFound));
    assert_eq!(run(&w, "c.x", &vec![]), Err(Error::TypeMismatch));
    assert_eq!(run(&w, "foo.0", &vec![]), Err(Error::TypeMismatch));
}

#[test]
fn method_call_prefers_the_method_to_the_field() {
    let w = world();
    let request = call(&w, "foo.f()");
    assert_eq!(request.target, CallTarget::Symbol { id: w.foo_f });
    assert_eq!(request.receiver, Some(value(&w, "foo")));
    assert!(request.by_reference);
    assert!(request.args.is_empty());
    // the debugger performs the call and hands the answer back
    let answered = run(&w, "foo.f()", &vec![num(&w, 6)]);
    assert_eq!(answered, Ok(Outcome::Done { value: num(&w, 6) }));
    assert_eq!(call(&w, "foo.g()").target, CallTarget::Symbol { id: w.foo_g });
}

#[test]
fn a_method_named_without_a_call_is_bound_to_its_receiver() {
    let w = world();
    let bound = value(&w, "foo.g");
    assert_eq!(
        bound,
        Value::Function { ty: w.i32_id, symbol: 0x5100, receiver: Some(Box::new(value(&w, "foo"))) }
    );
    // the member wins where both exist
    assert_eq!(shown(&w, "foo.f"), "fn@0x4000");
    let request = call(&w, "(foo.g)()");
    assert_eq!(request.target, CallTarget::Address { entry: 0x5100 });
    assert_eq!(request.receiver, Some(value(&w, "foo")));
}

#[test]
fn parenthesised_field_calls_the_stored_function() {
    let w = world();
    let request = call(&w, "(foo.f)()");
    assert_eq!(request.target, CallTarget::Address { entry: 0x4000 });
    assert_eq!(request.receiver, None);
    assert!(!request.by_reference);
    let answered = run(&w, "(foo.f)()", &vec![num(&w, 5)]);
    assert_eq!(answered, Ok(Outcome::Done { value: num(&w, 5) }));
}

#[test]
fn field_is_called_where_no_method_has_its_name() {
    let mut w = world();
    w.methods = MethodRegistry::new();
    let request = call(&w, "foo.f()");
    assert_eq!(request.target, CallTarget::Address { entry: 0x4000 });
    assert_eq!(run(&w, "foo.x()", &vec![]), Err(Error::TypeMismatch));
    assert_eq!(run(&w, "foo.h()", &vec![]), Err(Error::NotFound));
    assert_eq!(run(&w, "c.h()", &vec![]), Err(Error::NotFound));
}

#[test]
fn trait_methods_are_called_on_values() {
    let w = world();
    let request = call(&w, "c.whatever()");
    assert_eq!(request.target, CallTarget::Symbol { id: w.whatever_fn });
    assert_eq!(request.receiver, Some(num(&w, 99)));
    assert!(!request.by_reference);
    let request = call(&w, "23i32.whatever()");
    assert_eq!(request.receiver, Some(num(&w, 23)));
}

#[test]
fn free_functions_are_called_with_their_arguments() {
    let w = world();
    let request = call(&w, "diff2(92, 45i32)");
    assert_eq!(request.target, CallTarget::Symbol { id: w.diff2 });
    assert_eq!(request.receiver, None);
    assert_eq!(request.args.len(), 2);
    assert_eq!(request.args[1], num(&w, 45));
    assert_eq!(run(&w, "diff2(1)", &vec![]), Err(Error::NotFound));
    assert_eq!(run(&w, "c(1)", &vec![]), Err(Error::TypeMismatch));
    assert_eq!(run(&w, "nothing(1)", &vec![]), Err(Error::NotFound));
}

#[test]
fn generic_arguments_pick_the_instance() {
    let w = world();
    assert_eq!(call(&w, "identity::<u32>(7)").target, CallTarget::Symbol { id: w.identity_u32 });
    assert_eq!(call(&w, "identity::<i32>(7)").target, CallTarget::Symbol { id: w.identity_i32 });
    assert_eq!(call(&w, "identity(23u32)").target, CallTarget::Symbol { id: w.identity_u32 });
    assert_eq!(call(&w, "identity(c)").target, CallTarget::Symbol { id: w.identity_i32 });
    assert_eq!(run(&w, "identity(w)", &vec![]), Err(Error::NotFound));
    assert_eq!(run(&w, "identity::<nothing>(7)", &vec![]), Err(Error::NotFound));
    assert_eq!(run(&w, "identity", &vec![]), Err(Error::Ambiguous));
}

#[test]
fn associated_functions_are_found_on_their_type() {
    let w = world();
    let request = call(&w, "HasMethods::new()");
    assert_eq!(request.target, CallTarget::Symbol { id: w.new_fn });
    assert_eq!(request.receiver, None);
    assert_eq!(call(&w, "HasMethods::whatever()").target, CallTarget::Symbol { id: w.whatever_fn });
    assert_eq!(run(&w, "HasMethods::nothing()", &vec![]), Err(Error::NotFound));
    assert_eq!(run(&w, "HasMethods", &vec![]), Err(Error::TypeMismatch));
    let made = Value::Aggregate { ty: w.has_methods, address: 0, fields: vec![num(&w, 0)] };
    let chained = run(&w, "HasMethods::new().value", &vec![made]);
    assert_eq!(chained, Ok(Outcome::Done { value: num(&w, 0) }));
}

#[test]
fn calls_are_answered_in_order() {
    let w = world();
    // the inner call is requested first
    let first = call(&w, "identity(identity(c))");
    assert_eq!(first.args, vec![num(&w, 99)]);
    let second = match run(&w, "identity(identity(c))", &vec![num(&w, 1)]) {
        Ok(Outcome::Call { request }) => request,
        other => panic!("{:?}", other),
    };
    assert_eq!(second.args, vec![num(&w, 1)]);
    let done = run(&w, "identity(identity(c))", &vec![num(&w, 1), num(&w, 2)]);
    assert_eq!(done, Ok(Outcome::Done { value: num(&w, 2) }));
    // arguments left to right
    let first = call(&w, "diff2(identity(c), foo.g())");
    assert_eq!(first.target, CallTarget::Symbol { id: w.identity_i32 });
    let second = match run(&w, "diff2(identity(c), foo.g())", &vec![num(&w, 1)]) {
        Ok(Outcome::Call { request }) => request,
        other => panic!("{:?}", other),
    };
    assert_eq!(second.target, CallTarget::Symbol { id: w.foo_g });
}

#[test]
fn a_local_that_holds_a_function_is_called_by_its_name() {
    let mut w = world();
    // a function of the same name exists in the enclosing scope
    let outer = function("f2", 0, w.i32_id, vec![], vec![], 0x6300);
    w.scopes.add_symbol(outer).unwrap();
    let request = call(&w, "f2()");
    assert_eq!(request.target, CallTarget::Address { entry: 0x4400 });
    assert_eq!(request.receiver, None);
    let request = call(&w, "self::f2()");
    assert!(matches!(request.target, CallTarget::Symbol { .. }));
}

fn with_literal_types(w: &mut World) -> (TypeId, TypeId, TypeId, TypeId) {
    let field = |name: &str, ty, offset| Field { name: name.to_string(), ty, offset };
    let pair = w
        .types
        .add(TypeDescriptor {
            path: "(i32, u32)".to_string(),
            generic_args: vec![],
            size: 8,
            align: 4,
            shape: Shape::TupleStruct {
                arity: 2,
                fields: vec![field("0", w.i32_id, 0), field("1", w.u32_id, 4)],
            },
        })
        .unwrap();
    let single = w
        .types
        .add(TypeDescriptor {
            path: "(i32,)".to_string(),
            generic_args: vec![],
            size: 4,
            align: 4,
            shape: Shape::TupleStruct { arity: 1, fields: vec![field("0", w.i32_id, 0)] },
        })
        .unwrap();
    let simple_layout = w
        .types
        .add(TypeDescriptor {
            path: "simple::SimpleLayout".to_string(),
            generic_args: vec![],
            size: 8,
            align: 4,
            shape: Shape::Struct {
                fields: vec![field("f1", w.i32_id, 0), field("f2", w.u32_id, 4)],
            },
        })
        .unwrap();
    let bye = w
        .types
        .add(TypeDescriptor {
            path: "simple::ByeBob".to_string(),
            generic_args: vec![],
            size: 8,
            align: 4,
            shape: Shape::TupleStruct {
                arity: 2,
                fields: vec![field("0", w.i32_id, 0), field("1", w.u32_id, 4)],
            },
        })
        .unwrap();
    let unit = w
        .types
        .add(TypeDescriptor {
            path: "simple::Unit".to_string(),
            generic_args: vec![],
            size: 0,
            align: 1,
            shape: Shape::Struct { fields: vec![] },
        })
        .unwrap();
    for (name, ty) in [("SimpleLayout", simple_layout), ("ByeBob", bye), ("Unit", unit)] {
        w.scopes
            .add_symbol(Symbol {
                name: name.to_string(),
                kind: SymbolKind::Type,
                scope: 0,
                ty,
                generic_args: vec![],
                params: vec![],
                address: 0,
            })
            .unwrap();
    }
    (pair, single, simple_layout, bye)
}

#[test]
fn tuple_literals_build_tuples() {
    let mut w = world();
    let (pair, single, _, _) = with_literal_types(&mut w);
    assert_eq!(
        value(&w, "(c, 25u32)"),
        Value::Aggregate {
            ty: pair,
            address: 0,
            fields: vec![
                num(&w, 99),
                Value::Scalar { ty: w.u32_id, kind: ScalarKind::Unsigned, bytes: vec![25, 0, 0, 0] },
            ],
        }
    );
    assert_eq!(shown(&w, "(c, 25u32)"), "(i32, u32)(99, 25)");
    assert_eq!(shown(&w, "(c, 25u32).1"), "25");
    assert_eq!(value(&w, "(c,)").ty(), single);
    assert_eq!(shown(&w, "(c)"), "99");
    assert_eq!(run(&w, "(c, c)", &vec![]), Err(Error::NotFound));
    assert_eq!(run(&w, "(c, nothing)", &vec![]), Err(Error::NotFound));
}

#[test]
fn struct_literals_build_structs() {
    let mut w = world();
    let (_, _, simple_layout, bye) = with_literal_types(&mut w);
    let expected = Value::Aggregate {
        ty: simple_layout,
        address: 0,
        fields: vec![
            num(&w, 8),
            Value::Scalar { ty: w.u32_id, kind: ScalarKind::Unsigned, bytes: vec![9, 0, 0, 0] },
        ],
    };
    assert_eq!(value(&w, "SimpleLayout { f1: 8i32, f2: 9u32 }"), expected);
    // members may be written in any order
    assert_eq!(value(&w, "SimpleLayout { f2: 9u32, f1: 8i32, }"), expected);
    assert_eq!(shown(&w, "SimpleLayout { f1: 8i32, f2: 9u32 }.f2"), "9");
    assert_eq!(shown(&w, "SimpleLayout{f1:c,f2:9u32}"), "simple::SimpleLayout { f1: 99, f2: 9 }");
    assert_eq!(run(&w, "SimpleLayout { f1: 8i32 }", &vec![]), Err(Error::TypeMismatch));
    assert_eq!(run(&w, "SimpleLayout { f1: 8i32, f3: 9u32 }", &vec![]), Err(Error::NotFound));
    assert_eq!(run(&w, "SimpleLayout { f1: 8i32, f1: 9u32 }", &vec![]), Err(Error::NotFound));
    assert_eq!(run(&w, "Nothing { f1: 8i32 }", &vec![]), Err(Error::NotFound));
    assert_eq!(run(&w, "diff2 { f1: 8i32 }", &vec![]), Err(Error::TypeMismatch));
    assert_eq!(run(&w, "ByeBob { f1: 8i32 }", &vec![]), Err(Error::TypeMismatch));
    assert_eq!(run(&w, "SimpleLayout { f1 8i32 }", &vec![]), Err(Error::TypeMismatch));
    assert_eq!(shown(&w, "ByeBob(7i32, 8u32)"), "simple::ByeBob(7, 8)");
    assert_eq!(value(&w, "ByeBob(7i32, 8u32)").ty(), bye);
    assert_eq!(run(&w, "ByeBob(7i32)", &vec![]), Err(Error::TypeMismatch));
    assert_eq!(run(&w, "SimpleLayout(7i32, 8u32)", &vec![]), Err(Error::TypeMismatch));
}

#[test]
fn unit_struct_is_its_own_value() {
    let mut w = world();
    with_literal_types(&mut w);
    assert_eq!(shown(&w, "Unit"), "simple::Unit");
    assert_eq!(shown(&w, "Unit{}"), "simple::Unit");
    assert_eq!(run(&w, "SimpleLayout", &vec![]), Err(Error::TypeMismatch));
}

#[test]
fn statics_are_read_from_the_snapshot() {
    let w = world();
    assert_eq!(shown(&w, "TWENTY_THREE"), "23");
    assert_eq!(shown(&w, "::TWENTY_THREE"), "23");
    assert_eq!(run(&w, "FAR_AWAY", &vec![]), Err(Error::IoError));
    assert_eq!(shown(&w, "diff2"), "fn@0x6200");
}

#[test]
fn integer_literals_keep_their_width() {
    let w = world();
    assert_eq!(
        value(&w, "7"),
        Value::Scalar { ty: 2, kind: ScalarKind::Signed, bytes: vec![7, 0, 0, 0, 0, 0, 0, 0] }
    );
    assert_eq!(
        value(&w, "23u32"),
        Value::Scalar { ty: w.u32_id, kind: ScalarKind::Unsigned, bytes: vec![23, 0, 0, 0] }
    );
    assert_eq!(
        shown(&w, "340282366920938463463374607431768211455u128"),
        "340282366920938463463374607431768211455"
    );
    assert_eq!(shown(&w, "340_282_366_920_938_463_463_374_607_431_768_211_455u128"),
        "340282366920938463463374607431768211455");
    assert_eq!(shown(&w, "0xf0f0f0f0f0f0f0f0f0f0f0f0f0f0f0f0u128"),
        "320265757102059730318470218759311257840");
    assert_eq!(shown(&w, "0xffu8"), "255");
    assert_eq!(shown(&w, "127i8"), "127");
    assert_eq!(run(&w, "128i8", &vec![]), Err(Error::OutOfRange));
    assert_eq!(run(&w, "256u8", &vec![]), Err(Error::OutOfRange));
    assert_eq!(run(&w, "9223372036854775808", &vec![]), Err(Error::OutOfRange));
    assert_eq!(run(&w, "340282366920938463463374607431768211456u128", &vec![]),
        Err(Error::OutOfRange));
    assert_eq!(run(&w, "1u64", &vec![]), Err(Error::NotFound));
    assert_eq!(run(&w, "1bool", &vec![]), Err(Error::TypeMismatch));
    assert_eq!(run(&w, "1zoo", &vec![]), Err(Error::NotFound));
}

#[test]
fn other_literals_have_values() {
    let w = world();
    assert_eq!(shown(&w, "true"), "true");
    assert_eq!(shown(&w, "false"), "false");
    assert_eq!(shown(&w, "()"), "()");
    assert_eq!(shown(&w, "b'9'"), "57");
    assert_eq!(shown(&w, "'m'"), "'\\u{6d}'");
    assert_eq!(shown(&w, "\"hi\""), "str {0x6869}");
    assert_eq!(run(&w, "b\"hi\"", &vec![]), Err(Error::NotFound));
    assert_eq!(run(&w, "25.5", &vec![]), Err(Error::TypeMismatch));
    assert_eq!(run(&w, "23.0f64", &vec![]), Err(Error::TypeMismatch));
}

#[test]
fn malformed_text_is_refused() {
    let w = world();
    for text in ["", "w[", "w[1", "w[1..", "foo.", "foo.(", "(w", "w]", "1 2", "w..", "::", "a::",
        "f(1,,2)", "#", ":", "'ab'", "\"open", "w[1...2]", "x::<>()", "caf\u{e9}"]
    {
        assert_eq!(run(&w, text, &vec![]), Err(Error::TypeMismatch), "{}", text);
    }
}

#[test]
fn evaluate_expr_takes_a_parsed_expression() {
    let w = world();
    let e = parse("w[1..3][0]").unwrap();
    let none = vec![];
    let c = Context {
        types: &w.types,
        scopes: &w.scopes,
        methods: &w.methods,
        scope: 1,
        locals: &w.locals,
        memory: &w.memory,
        results: &none,
    };
    assert_eq!(evaluate_expr(&c, &e), Ok(Outcome::Done { value: num(&w, 2) }));
    assert_eq!(w.foo_ty, 13);
}

#[test]
fn integers_are_read_for_indexing() {
    let w = world();
    assert_eq!(integer_value(&num(&w, 7)), Ok(7));
    let minus = Value::Scalar { ty: 0, kind: ScalarKind::Signed, bytes: vec![0xFF; 4] };
    assert_eq!(integer_value(&minus), Err(Error::OutOfRange));
    let wide = Value::Scalar { ty: 0, kind: ScalarKind::Unsigned, bytes: vec![0xFF; 9] };
    assert_eq!(integer_value(&wide), Err(Error::OutOfRange));
    let flag = Value::Scalar { ty: 0, kind: ScalarKind::Bool, bytes: vec![1] };
    assert_eq!(integer_value(&flag), Err(Error::TypeMismatch));
    let max = Value::Scalar { ty: 0, kind: ScalarKind::Unsigned, bytes: vec![0xFF; 8] };
    assert_eq!(integer_value(&max), Ok(u64::MAX));
    assert_eq!(
        literal_value(&w.types, &Literal::Byte { value: 9 }),
        Ok(Value::Scalar { ty: 3, kind: ScalarKind::Unsigned, bytes: vec![9] })
    );
}
