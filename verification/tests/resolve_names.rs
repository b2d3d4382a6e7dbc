use dbgeval::error::Error;
use dbgeval::expr::Expr;
use dbgeval::parser::parse;
use dbgeval::scope::{
    Path, PathRoot, ScopeId, ScopeKind, ScopeTree, Selector, Symbol, SymbolId, SymbolKind,
};

fn sym(name: &str, kind: SymbolKind, scope: ScopeId, address: u64) -> Symbol {
    Symbol {
        name: name.to_string(),
        kind,
        scope,
        ty: 0,
        generic_args: vec![],
        params: vec![],
        address,
    }
}

struct Program {
    tree: ScopeTree,
    body: ScopeId,
    root_f2: SymbolId,
    mod1_f2: SymbolId,
    inner_f2: SymbolId,
    innest_f2: SymbolId,
    innest_f3: SymbolId,
    root_type: SymbolId,
    mod1_type: SymbolId,
    inner_type: SymbolId,
    innest_type: SymbolId,
    body_type: SymbolId,
}

/// The scopes of the `modules` subject: `f1` in `mod1::inner::innest`
/// declares a `Type` of its own, and every module has an `f2` and a `Type`.
fn program() -> Program {
    let mut tree = ScopeTree::new("".to_string());
    let mod1 = tree.add_scope(0, "mod1".to_string(), ScopeKind::Module).unwrap();
    let inner = tree.add_scope(mod1, "inner".to_string(), ScopeKind::Module).unwrap();
    let innest = tree.add_scope(inner, "innest".to_string(), ScopeKind::Module).unwrap();
    let body = tree.add_scope(innest, "f1".to_string(), ScopeKind::Function).unwrap();
    let root_f2 = tree.add_symbol(sym("f2", SymbolKind::Function, 0, 0x100)).unwrap();
    let root_type = tree.add_symbol(sym("Type", SymbolKind::Type, 0, 0)).unwrap();
    tree.add_symbol(sym("TWENTY_THREE", SymbolKind::Static, 0, 0x8000)).unwrap();
    let mod1_f2 = tree.add_symbol(sym("f2", SymbolKind::Function, mod1, 0x200)).unwrap();
    let mod1_type = tree.add_symbol(sym("Type", SymbolKind::Type, mod1, 0)).unwrap();
    let inner_f2 = tree.add_symbol(sym("f2", SymbolKind::Function, inner, 0x300)).unwrap();
    let inner_type = tree.add_symbol(sym("Type", SymbolKind::Type, inner, 0)).unwrap();
    let innest_f2 = tree.add_symbol(sym("f2", SymbolKind::Function, innest, 0x400)).unwrap();
    let innest_f3 = tree.add_symbol(sym("f3", SymbolKind::Function, innest, 0x500)).unwrap();
    tree.add_symbol(sym("f1", SymbolKind::Function, innest, 0x600)).unwrap();
    let innest_type = tree.add_symbol(sym("Type", SymbolKind::Type, innest, 0)).unwrap();
    let body_type = tree.add_symbol(sym("Type", SymbolKind::Type, body, 0)).unwrap();
    Program {
        tree,
        body,
        root_f2,
        mod1_f2,
        inner_f2,
        innest_f2,
        innest_f3,
        root_type,
        mod1_type,
        inner_type,
        innest_type,
        body_type,
    }
}

fn path_of(text: &str) -> Path {
    match parse(text).unwrap() {
        Expr::Name { path, .. } => path,
        other => panic!("not a path: {:?}", other),
    }
}

fn resolve(p: &Program, text: &str) -> Result<SymbolId, Error> {
    p.tree.resolve(p.body, &path_of(text), &Selector::Any)
}

#[test]
fn unqualified_names_find_the_innermost_item() {
    let p = program();
    assert_eq!(resolve(&p, "f3"), Ok(p.innest_f3));
    assert_eq!(resolve(&p, "f2"), Ok(p.innest_f2));
    assert_eq!(resolve(&p, "Type"), Ok(p.body_type));
    assert_eq!(resolve(&p, "nothing"), Err(Error::NotFound));
}

#[test]
fn self_names_the_enclosing_module() {
    let p = program();
    assert_eq!(resolve(&p, "self::f2"), Ok(p.innest_f2));
    assert_eq!(resolve(&p, "self::Type"), Ok(p.innest_type));
}

#[test]
fn each_super_climbs_one_level() {
    let p = program();
    assert_eq!(resolve(&p, "super::f2"), Ok(p.inner_f2));
    assert_eq!(resolve(&p, "self::super::f2"), Ok(p.inner_f2));
    assert_eq!(resolve(&p, "self::super::super::f2"), Ok(p.mod1_f2));
    assert_eq!(resolve(&p, "super::super::f2"), Ok(p.mod1_f2));
    assert_eq!(resolve(&p, "super::super::super::f2"), Ok(p.root_f2));
    assert_eq!(resolve(&p, "super::Type"), Ok(p.inner_type));
}

#[test]
fn climbing_above_the_root_finds_nothing() {
    let p = program();
    assert_eq!(resolve(&p, "super::super::super::super::f2"), Err(Error::NotFound));
    assert_eq!(resolve(&p, "self::super::super::super::super::f2"), Err(Error::NotFound));
}

#[test]
fn climb_reaches_the_exact_ancestor() {
    let p = program();
    let home = p.tree.enclosing_module(p.body);
    assert_eq!(home, 3);
    assert_eq!(p.tree.climb(home, 0), Some(3));
    assert_eq!(p.tree.climb(home, 1), Some(2));
    assert_eq!(p.tree.climb(home, 2), Some(1));
    assert_eq!(p.tree.climb(home, 3), Some(0));
    assert_eq!(p.tree.climb(home, 4), None);
}

#[test]
fn absolute_paths_start_at_the_root() {
    let p = program();
    assert_eq!(resolve(&p, "::f2"), Ok(p.root_f2));
    assert_eq!(resolve(&p, "::Type"), Ok(p.root_type));
    assert_eq!(resolve(&p, "::mod1::Type"), Ok(p.mod1_type));
    assert_eq!(resolve(&p, "::mod1::inner::innest::f3"), Ok(p.innest_f3));
    assert_eq!(resolve(&p, "::mod1::nope::f3"), Err(Error::NotFound));
    assert_eq!(resolve(&p, "::innest::f3"), Err(Error::NotFound));
}

#[test]
fn relative_paths_descend_from_an_enclosing_scope() {
    let p = program();
    assert_eq!(resolve(&p, "mod1::f2"), Ok(p.mod1_f2));
    assert_eq!(resolve(&p, "inner::f2"), Ok(p.inner_f2));
}

#[test]
fn names_shared_in_one_scope_are_ambiguous() {
    let mut p = program();
    p.tree.add_symbol(sym("f3", SymbolKind::Static, 3, 0x9000)).unwrap();
    assert_eq!(resolve(&p, "f3"), Err(Error::Ambiguous));
}

#[test]
fn symbols_know_their_qualified_path() {
    let p = program();
    let names = |y| p.tree.qualified_path(y).unwrap().join("::");
    assert_eq!(names(p.root_f2), "f2");
    assert_eq!(names(p.mod1_f2), "mod1::f2");
    assert_eq!(names(p.innest_f3), "mod1::inner::innest::f3");
    assert_eq!(names(p.body_type), "mod1::inner::innest::f1::Type");
    assert_eq!(p.tree.qualified_path(999), Err(Error::NotFound));
    // the qualified path, read from the root, names the symbol again
    let back = Path { root: PathRoot::Absolute, segments: p.tree.qualified_path(p.inner_f2).unwrap() };
    assert_eq!(p.tree.resolve(p.body, &back, &Selector::Any), Ok(p.inner_f2));
}

#[test]
fn unknown_context_finds_nothing() {
    let p = program();
    assert_eq!(p.tree.resolve(99, &path_of("f2"), &Selector::Any), Err(Error::NotFound));
    assert_eq!(p.tree.scope(99).err(), Some(Error::NotFound));
    assert_eq!(p.tree.symbol(999).err(), Some(Error::NotFound));
}

#[test]
fn scopes_need_an_existing_parent() {
    let mut tree = ScopeTree::new("".to_string());
    assert_eq!(tree.add_scope(5, "x".to_string(), ScopeKind::Module), Err(Error::NotFound));
    assert_eq!(tree.add_symbol(sym("a", SymbolKind::Static, 7, 0)), Err(Error::NotFound));
    assert_eq!(tree.scope_count(), 1);
    assert_eq!(tree.symbol_count(), 0);
}

#[test]
fn generic_instances_are_told_apart() {
    let mut tree = ScopeTree::new("".to_string());
    let mut for_u32 = sym("identity", SymbolKind::Function, 0, 0x10);
    for_u32.generic_args = vec![1];
    for_u32.params = vec![1];
    let mut for_f64 = sym("identity", SymbolKind::Function, 0, 0x20);
    for_f64.generic_args = vec![2];
    for_f64.params = vec![2];
    let a = tree.add_symbol(for_u32).unwrap();
    let b = tree.add_symbol(for_f64).unwrap();
    let path = Path { root: PathRoot::Lexical, segments: vec!["identity".to_string()] };
    assert_eq!(tree.resolve(0, &path, &Selector::Any), Err(Error::Ambiguous));
    let explicit = Selector::Call { generic_args: Some(vec![1]), arg_types: vec![9] };
    assert_eq!(tree.resolve(0, &path, &explicit), Ok(a));
    let inferred = Selector::Call { generic_args: None, arg_types: vec![2] };
    assert_eq!(tree.resolve(0, &path, &inferred), Ok(b));
    let unknown = Selector::Call { generic_args: None, arg_types: vec![3] };
    assert_eq!(tree.resolve(0, &path, &unknown), Err(Error::NotFound));
    let arity = Selector::Call { generic_args: None, arg_types: vec![1, 1] };
    assert_eq!(tree.resolve(0, &path, &arity), Err(Error::NotFound));
}
