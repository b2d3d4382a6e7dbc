//! The scope hierarchy and the resolution of paths against it.
//!
//! Scopes form a tree, kept as an arena: a scope is named by its position and
//! knows its parent by position, so nothing owns its own ancestor.  A parent
//! always precedes its children.  Symbols live in one list, each knowing the
//! scope that owns it.

use crate::error::Error;
use crate::types::{id_lists_equal, TypeId};
use vstd::prelude::*;

verus! {

/// The position of a scope in its [`ScopeTree`].  The root is scope `0`.
pub type ScopeId = usize;

/// The position of a symbol in its [`ScopeTree`].
pub type SymbolId = usize;

#[derive(Clone, Copy, Debug, PartialEq, Eq, Structural)]
pub enum ScopeKind {
    Module,
    /// The items declared on a type.
    Type,
    Trait,
    /// The body of a function, with the items declared inside it.
    Function,
}

#[derive(Clone, Copy, Debug, PartialEq, Eq, Structural)]
pub enum SymbolKind {
    Type,
    Function,
    Static,
    TraitMethod,
}

/// A node of the module and trait hierarchy.
#[derive(Clone, Debug, PartialEq, Eq)]
pub struct Scope {
    pub name: String,
    pub kind: ScopeKind,
    /// `None` for the root only.
    pub parent: Option<ScopeId>,
}

/// A named item: a type, a function, a static or a trait method.
#[derive(Clone, Debug, PartialEq, Eq)]
pub struct Symbol {
    pub name: String,
    pub kind: SymbolKind,
    /// The scope that owns the symbol.
    pub scope: ScopeId,
    /// The type named, the type of the static, or the type returned.
    pub ty: TypeId,
    /// The generic arguments of this instance of a generic item.
    pub generic_args: Vec<TypeId>,
    /// The parameter types of a function; empty otherwise.
    pub params: Vec<TypeId>,
    /// Where the item lies in the target.
    pub address: u64,
}

/// Where a path starts.
#[derive(Clone, Copy, Debug, PartialEq, Eq, Structural)]
pub enum PathRoot {
    /// No prefix: the innermost enclosing scope in which the path names
    /// something.
    Lexical,
    /// `::a::b`, from the root.
    Absolute,
    /// `self::`, followed by `supers` times `super::`: from the module that
    /// encloses the evaluation point, that many levels up.  A bare
    /// `super::super::a` has `supers == 2`.
    Module { supers: usize },
}

/// A path expression: where to start and the names to follow.
#[derive(Clone, Debug, PartialEq, Eq)]
pub struct Path {
    pub root: PathRoot,
    pub segments: Vec<String>,
}

/// The names that a list of strings holds.
pub open spec fn names_of(s: Seq<String>) -> Seq<Seq<char>> {
    Seq::new(s.len(), |i: int| s[i]@)
}

/// The mathematical counterpart of [`Path`].
pub struct PathModel {
    pub root: PathRoot,
    pub segments: Seq<Seq<char>>,
}

impl View for Path {
    type V = PathModel;

    open spec fn view(&self) -> PathModel {
        PathModel { root: self.root, segments: names_of(self.segments@) }
    }
}

/// Which of the symbols of one name is wanted.
#[derive(Clone, Debug, PartialEq, Eq)]
pub enum Selector {
    /// Any symbol of the name.
    Any,
    /// A function to be called with arguments of the types `arg_types`.  It
    /// must take that many parameters.  Where several instances of a generic
    /// function do, the one with the generic arguments `generic_args` is meant
    /// if they are given, else the one whose parameter types are `arg_types`.
    Call { generic_args: Option<Vec<TypeId>>, arg_types: Vec<TypeId> },
}

/// The mathematical counterpart of [`Selector`].
pub enum SelectorModel {
    Any,
    Call { generic_args: Option<Seq<TypeId>>, arg_types: Seq<TypeId> },
}

impl View for Selector {
    type V = SelectorModel;

    open spec fn view(&self) -> SelectorModel {
        match self {
            Selector::Any => SelectorModel::Any,
            Selector::Call { generic_args, arg_types } => SelectorModel::Call {
                generic_args: match generic_args {
                    Some(g) => Some(g@),
                    None => None,
                },
                arg_types: arg_types@,
            },
        }
    }
}

/// Whether `sym` is of the kind that `sel` asks for.
pub open spec fn is_candidate(sel: SelectorModel, sym: Symbol) -> bool {
    match sel {
        SelectorModel::Any => true,
        SelectorModel::Call { generic_args, arg_types } => (sym.kind is Function || sym.kind
            is TraitMethod) && sym.params@.len() == arg_types.len(),
    }
}

/// Whether `sym` is the very instance that `sel` asks for.
pub open spec fn is_instance(sel: SelectorModel, sym: Symbol) -> bool {
    is_candidate(sel, sym) && match sel {
        SelectorModel::Any => true,
        SelectorModel::Call { generic_args, arg_types } => match generic_args {
            Some(g) => sym.generic_args@ == g,
            None => sym.params@ == arg_types,
        },
    }
}

/// What a [`ScopeTree`] holds, as a mathematical value.
pub struct ScopeModel {
    pub scopes: Seq<Scope>,
    pub symbols: Seq<Symbol>,
}

/// The one index below `n` that satisfies `pred`: `NotFound` where there is
/// none, `Ambiguous` where there are several.
pub open spec fn unique_match(n: int, pred: spec_fn(int) -> bool) -> Result<int, Error> {
    if exists|i: int| 0 <= i < n && #[trigger] pred(i) {
        let i = choose|i: int| 0 <= i < n && #[trigger] pred(i);
        if forall|j: int| 0 <= j < n && #[trigger] pred(j) ==> j == i {
            Ok(i)
        } else {
            Err(Error::Ambiguous)
        }
    } else {
        Err(Error::NotFound)
    }
}

/// What a scan has found after looking at the indices below `i`.
pub open spec fn scan_state(
    i: int,
    pred: spec_fn(int) -> bool,
    first: Option<usize>,
    several: bool,
) -> bool {
    &&& first is None ==> !several && forall|j: int| 0 <= j < i ==> !#[trigger] pred(j)
    &&& first matches Some(f) ==> {
        &&& 0 <= f < i
        &&& pred(f as int)
        &&& several ==> exists|j: int| 0 <= j < i && j != f && #[trigger] pred(j)
        &&& !several ==> forall|j: int| 0 <= j < i && #[trigger] pred(j) ==> j == f
    }
}

/// The answer of a finished scan.
pub open spec fn scan_result(first: Option<usize>, several: bool) -> Result<int, Error> {
    match first {
        None => Err(Error::NotFound),
        Some(f) => if several {
            Err(Error::Ambiguous)
        } else {
            Ok(f as int)
        },
    }
}

/// A finished scan answers as `unique_match` does.
pub proof fn lemma_scan_done(n: int, pred: spec_fn(int) -> bool, first: Option<usize>, several: bool)
    requires
        scan_state(n, pred, first, several),
    ensures
        scan_result(first, several) == unique_match(n, pred),
{
    match first {
        None => {},
        Some(f) => {
            assert(0 <= f < n && pred(f as int));
            let c = choose|i: int| 0 <= i < n && #[trigger] pred(i);
            if several {
                let j = choose|j: int| 0 <= j < n && j != f && #[trigger] pred(j);
                if c == f {
                    assert(pred(j) && j != c);
                } else {
                    assert(pred(f as int) && f != c);
                }
            } else {
                assert(c == f);
            }
        },
    }
}

impl ScopeModel {
    /// The tree invariant: there is a root, scope `0`, without parent; every
    /// other scope has a parent that precedes it; every symbol belongs to a
    /// scope of the tree.
    pub open spec fn wf(self) -> bool {
        &&& self.scopes.len() >= 1
        &&& self.scopes[0].parent is None
        &&& forall|s: int|
            1 <= s < self.scopes.len() ==> (#[trigger] self.scopes[s]).parent is Some
                && self.scopes[s].parent->Some_0 < s
        &&& forall|y: int|
            0 <= y < self.symbols.len() ==> (#[trigger] self.symbols[y]).scope
                < self.scopes.len()
    }

    /// The number of steps from `s` up to the root.
    pub open spec fn depth(self, s: int) -> nat
        decreases s,
    {
        if 0 < s < self.scopes.len() {
            match self.scopes[s].parent {
                Some(p) => if p < s {
                    1 + self.depth(p as int)
                } else {
                    0
                },
                None => 0,
            }
        } else {
            0
        }
    }

    /// The scope `k` levels above `s`, or `None` where the root is fewer than
    /// `k` levels away.
    pub open spec fn ancestor(self, s: int, k: nat) -> Option<int>
        decreases k,
    {
        if k == 0 {
            Some(s)
        } else if 0 < s < self.scopes.len() {
            match self.scopes[s].parent {
                Some(p) => self.ancestor(p as int, (k - 1) as nat),
                None => None,
            }
        } else {
            None
        }
    }

    /// The innermost module at or above `s`.
    pub open spec fn enclosing_module(self, s: int) -> int
        decreases s,
    {
        if 0 < s < self.scopes.len() && !(self.scopes[s].kind is Module) {
            match self.scopes[s].parent {
                Some(p) => if p < s {
                    self.enclosing_module(p as int)
                } else {
                    s
                },
                None => s,
            }
        } else {
            s
        }
    }

    /// The names of the scopes from below the root down to `s`.
    pub open spec fn scope_path(self, s: int) -> Seq<Seq<char>>
        decreases s,
    {
        if 0 < s < self.scopes.len() {
            match self.scopes[s].parent {
                Some(p) => if p < s {
                    self.scope_path(p as int).push(self.scopes[s].name@)
                } else {
                    Seq::empty()
                },
                None => Seq::empty(),
            }
        } else {
            Seq::empty()
        }
    }

    /// The qualified path of the symbol `y`: the names of the scopes that
    /// enclose it, outermost first, and its own name.
    pub open spec fn symbol_path(self, y: int) -> Seq<Seq<char>> {
        self.scope_path(self.symbols[y].scope as int).push(self.symbols[y].name@)
    }

    /// Whether scope `c` is the child of `parent` called `name`.
    pub open spec fn is_child(self, parent: int, name: Seq<char>, c: int) -> bool {
        0 < c < self.scopes.len() && self.scopes[c].parent == Some(parent as usize)
            && self.scopes[c].name@ == name
    }

    /// The scopes that are children of `parent` called `name`.
    pub open spec fn child_pred(self, parent: int, name: Seq<char>) -> spec_fn(int) -> bool {
        |c: int| self.is_child(parent, name, c)
    }

    /// The child of `parent` called `name`.
    pub open spec fn child(self, parent: int, name: Seq<char>) -> Result<int, Error> {
        unique_match(self.scopes.len() as int, self.child_pred(parent, name))
    }

    /// Whether symbol `y` belongs to `scope` and is called `name`.
    pub open spec fn is_member(self, scope: int, name: Seq<char>, y: int) -> bool {
        0 <= y < self.symbols.len() && self.symbols[y].scope == scope && self.symbols[y].name@
            == name
    }

    /// The symbol of `scope` called `name` that `sel` asks for.  Where
    /// several symbols are of the kind asked for, the exact instance decides.
    pub open spec fn member(self, scope: int, name: Seq<char>, sel: SelectorModel) -> Result<
        int,
        Error,
    > {
        match unique_match(self.symbols.len() as int, self.member_pred(scope, name, sel, false)) {
            Err(Error::Ambiguous) => unique_match(
                self.symbols.len() as int,
                self.member_pred(scope, name, sel, true),
            ),
            r => r,
        }
    }

    /// The symbols of `scope` called `name` that are of the kind that `sel`
    /// asks for and, if `exact` is set, the very instance.
    pub open spec fn member_pred(self, scope: int, name: Seq<char>, sel: SelectorModel, exact: bool)
        -> spec_fn(int) -> bool {
        |y: int|
            self.is_member(scope, name, y) && if exact {
                is_instance(sel, self.symbols[y])
            } else {
                is_candidate(sel, self.symbols[y])
            }
    }

    /// The scope reached from `from` by following the first `n` names of
    /// `segments` from child to child.
    pub open spec fn descend(self, from: int, segments: Seq<Seq<char>>, n: nat) -> Result<int, Error>
        decreases n,
    {
        if n == 0 {
            Ok(from)
        } else {
            match self.descend(from, segments, (n - 1) as nat) {
                Ok(s) => self.child(s, segments[n - 1]),
                Err(e) => Err(e),
            }
        }
    }

    /// The symbol that `segments` names when followed from `from`: all names
    /// but the last lead from scope to scope, the last names a symbol.
    pub open spec fn resolve_from(self, from: int, segments: Seq<Seq<char>>, sel: SelectorModel) -> Result<
        int,
        Error,
    > {
        if segments.len() == 0 {
            Err(Error::NotFound)
        } else {
            match self.descend(from, segments, (segments.len() - 1) as nat) {
                Ok(s) => self.member(s, segments.last(), sel),
                Err(e) => Err(e),
            }
        }
    }

    /// The symbol that `segments` names seen from `ctx`: the answer of the
    /// innermost scope at or above `ctx` in which the path names anything.
    pub open spec fn resolve_lexical(self, ctx: int, segments: Seq<Seq<char>>, sel: SelectorModel) -> Result<
        int,
        Error,
    >
        decreases ctx,
    {
        let here = self.resolve_from(ctx, segments, sel);
        if here != Err::<int, Error>(Error::NotFound) {
            here
        } else if 0 < ctx < self.scopes.len() {
            match self.scopes[ctx].parent {
                Some(p) => if p < ctx {
                    self.resolve_lexical(p as int, segments, sel)
                } else {
                    Err(Error::NotFound)
                },
                None => Err(Error::NotFound),
            }
        } else {
            Err(Error::NotFound)
        }
    }

    /// The scope at which a path with the given root starts when it is
    /// evaluated in `ctx`; a lexical path starts at `ctx` and goes on to try
    /// every enclosing scope in turn.  Stepping above the root is `NotFound`.
    pub open spec fn start(self, ctx: int, root: PathRoot) -> Result<int, Error> {
        match root {
            PathRoot::Lexical => Ok(ctx),
            PathRoot::Absolute => Ok(0),
            PathRoot::Module { supers } => match self.ancestor(
                self.enclosing_module(ctx),
                supers as nat,
            ) {
                Some(a) => Ok(a),
                None => Err(Error::NotFound),
            },
        }
    }

    /// The symbol that `path` names when evaluated in scope `ctx`.
    pub open spec fn resolve(
        self,
        ctx: int,
        root: PathRoot,
        segments: Seq<Seq<char>>,
        sel: SelectorModel,
    ) -> Result<int, Error> {
        if !(0 <= ctx < self.scopes.len()) {
            Err(Error::NotFound)
        } else {
            match self.start(ctx, root) {
                Err(e) => Err(e),
                Ok(s) => if root is Lexical {
                    self.resolve_lexical(s, segments, sel)
                } else {
                    self.resolve_from(s, segments, sel)
                },
            }
        }
    }
}

/// From a scope of depth `d`, exactly the chains of at most `d` steps reach an
/// ancestor, and a chain of `k` steps reaches the scope of depth `d - k`;
/// a longer chain reaches nothing.
pub proof fn lemma_super_chain(m: ScopeModel, s: int, k: nat)
    requires
        m.wf(),
        0 <= s < m.scopes.len(),
    ensures
        k <= m.depth(s) ==> m.ancestor(s, k) is Some && 0 <= m.ancestor(s, k)->Some_0 <= s
            && m.depth(m.ancestor(s, k)->Some_0) == m.depth(s) - k,
        k > m.depth(s) ==> m.ancestor(s, k) is None,
    decreases k,
{
    if k > 0 && s > 0 {
        let p = m.scopes[s].parent->Some_0;
        lemma_super_chain(m, p as int, (k - 1) as nat);
    }
}

/// Climbing `j` levels and then `k` more is climbing `j + k` levels.
pub proof fn lemma_super_chain_composes(m: ScopeModel, s: int, j: nat, k: nat)
    requires
        m.wf(),
        0 <= s < m.scopes.len(),
    ensures
        m.ancestor(s, j + k) == match m.ancestor(s, j) {
            Some(a) => m.ancestor(a, k),
            None => None,
        },
    decreases j,
{
    if j > 0 {
        if s > 0 {
            let p = m.scopes[s].parent->Some_0;
            lemma_super_chain_composes(m, p as int, (j - 1) as nat, k);
        } else {
            assert(m.ancestor(s, j) is None);
            assert(m.ancestor(s, j + k) is None);
        }
    }
}

/// The enclosing module of a scope lies at or above it.
pub proof fn lemma_enclosing_module_in_range(m: ScopeModel, s: int)
    requires
        m.wf(),
        0 <= s < m.scopes.len(),
    ensures
        0 <= m.enclosing_module(s) <= s,
    decreases s,
{
    if 0 < s && !(m.scopes[s].kind is Module) {
        let p = m.scopes[s].parent->Some_0;
        lemma_enclosing_module_in_range(m, p as int);
    }
}

/// A path that starts with more `super` steps than the enclosing module has
/// ancestors names nothing; one with at most that many starts at the ancestor
/// that many levels up.
pub proof fn lemma_super_path(
    m: ScopeModel,
    ctx: int,
    supers: usize,
    segments: Seq<Seq<char>>,
    sel: SelectorModel,
)
    requires
        m.wf(),
        0 <= ctx < m.scopes.len(),
    ensures
        ({
            let home = m.enclosing_module(ctx);
            let root = PathRoot::Module { supers };
            &&& supers > m.depth(home) ==> m.resolve(ctx, root, segments, sel) == Err::<
                int,
                Error,
            >(Error::NotFound)
            &&& supers <= m.depth(home) ==> m.ancestor(home, supers as nat) is Some && m.depth(
                m.ancestor(home, supers as nat)->Some_0,
            ) == m.depth(home) - supers && m.resolve(ctx, root, segments, sel) == m.resolve_from(
                m.ancestor(home, supers as nat)->Some_0,
                segments,
                sel,
            )
        }),
{
    lemma_enclosing_module_in_range(m, ctx);
    lemma_super_chain(m, m.enclosing_module(ctx), supers as nat);
}

/// An index that no other index rivals is the unique match.
pub proof fn lemma_unique_match_is(n: int, pred: spec_fn(int) -> bool, i: int)
    requires
        0 <= i < n,
        pred(i),
        forall|j: int| 0 <= j < n && #[trigger] pred(j) ==> j == i,
    ensures
        unique_match(n, pred) == Ok::<int, Error>(i),
{
}

impl ScopeModel {
    /// Whether no two scopes under one parent, and no two symbols of one
    /// scope, share a name.
    pub open spec fn names_are_unique(self) -> bool {
        &&& forall|i: int, j: int|
            0 < i < self.scopes.len() && 0 < j < self.scopes.len() && i != j && (
            #[trigger] self.scopes[i]).parent == (#[trigger] self.scopes[j]).parent
                ==> self.scopes[i].name@ != self.scopes[j].name@
        &&& forall|i: int, j: int|
            0 <= i < self.symbols.len() && 0 <= j < self.symbols.len() && i != j && (
            #[trigger] self.symbols[i]).scope == (#[trigger] self.symbols[j]).scope
                ==> self.symbols[i].name@ != self.symbols[j].name@
    }
}

/// Following names looks only at the names followed.
pub proof fn lemma_descend_ignores_later_names(
    m: ScopeModel,
    from: int,
    a: Seq<Seq<char>>,
    b: Seq<Seq<char>>,
    n: nat,
)
    requires
        n <= a.len(),
        n <= b.len(),
        forall|k: int| 0 <= k < n ==> a[k] == b[k],
    ensures
        m.descend(from, a, n) == m.descend(from, b, n),
    decreases n,
{
    if n > 0 {
        lemma_descend_ignores_later_names(m, from, a, b, (n - 1) as nat);
    }
}

/// Where sibling scopes bear different names, the names of the scopes around
/// a scope lead from the root to that scope.
pub proof fn lemma_scope_path_leads_back(m: ScopeModel, s: int)
    requires
        m.wf(),
        m.names_are_unique(),
        0 <= s < m.scopes.len(),
    ensures
        m.descend(0, m.scope_path(s), m.scope_path(s).len()) == Ok::<int, Error>(s),
    decreases s,
{
    if s > 0 {
        let p = m.scopes[s].parent->Some_0 as int;
        let name = m.scopes[s].name@;
        let upper = m.scope_path(p);
        let whole = m.scope_path(s);
        assert(whole == upper.push(name));
        lemma_scope_path_leads_back(m, p);
        lemma_descend_ignores_later_names(m, 0, whole, upper, upper.len());
        assert(whole[whole.len() - 1] == name);
        let pred = m.child_pred(p, name);
        assert(pred(s));
        assert forall|j: int| 0 <= j < m.scopes.len() && #[trigger] pred(j) implies j == s by {
            if j != s {
                assert(m.scopes[j].parent == m.scopes[s].parent);
                assert(m.scopes[j].name@ != m.scopes[s].name@);
            }
        }
        lemma_unique_match_is(m.scopes.len() as int, pred, s);
    }
}

/// A qualified path is faithful: where no two siblings share a name, the
/// qualified path of a symbol, followed from the root, names that very
/// symbol.
pub proof fn lemma_qualified_path_names_its_symbol(m: ScopeModel, y: int, ctx: int)
    requires
        m.wf(),
        m.names_are_unique(),
        0 <= y < m.symbols.len(),
        0 <= ctx < m.scopes.len(),
    ensures
        m.resolve(ctx, PathRoot::Absolute, m.symbol_path(y), SelectorModel::Any) == Ok::<
            int,
            Error,
        >(y),
{
    let home = m.symbols[y].scope as int;
    let name = m.symbols[y].name@;
    let upper = m.scope_path(home);
    let whole = m.symbol_path(y);
    lemma_scope_path_leads_back(m, home);
    lemma_descend_ignores_later_names(m, 0, whole, upper, upper.len());
    assert(whole.last() == name);
    let pred = m.member_pred(home, name, SelectorModel::Any, false);
    assert(pred(y));
    assert forall|j: int| 0 <= j < m.symbols.len() && #[trigger] pred(j) implies j == y by {
        if j != y {
            assert(m.symbols[j].scope == m.symbols[y].scope);
            assert(m.symbols[j].name@ != m.symbols[y].name@);
        }
    }
    lemma_unique_match_is(m.symbols.len() as int, pred, y);
}

/// Once a name on the way is not found, or is ambiguous, following further
/// names does not change the answer.
pub proof fn lemma_descend_error_persists(
    m: ScopeModel,
    from: int,
    segments: Seq<Seq<char>>,
    i: nat,
    n: nat,
)
    requires
        i <= n,
        m.descend(from, segments, i) is Err,
    ensures
        m.descend(from, segments, n) == m.descend(from, segments, i),
    decreases n,
{
    if i < n {
        lemma_descend_error_persists(m, from, segments, i, (n - 1) as nat);
    }
}

/// The position that an executable answer names.
pub open spec fn position(r: Result<usize, Error>) -> Result<int, Error> {
    match r {
        Ok(i) => Ok(i as int),
        Err(e) => Err(e),
    }
}

/// The scope hierarchy and symbol list of one program image.
pub struct ScopeTree {
    scopes: Vec<Scope>,
    symbols: Vec<Symbol>,
}

impl View for ScopeTree {
    type V = ScopeModel;

    closed spec fn view(&self) -> ScopeModel {
        ScopeModel { scopes: self.scopes@, symbols: self.symbols@ }
    }
}

impl ScopeTree {
    /// Every tree that exists satisfies the tree invariant.
    #[verifier::type_invariant]
    pub open spec fn well_formed(self) -> bool {
        self@.wf()
    }

    /// A tree that holds only its root, the module `name`.
    pub fn new(name: String) -> (r: ScopeTree)
        ensures
            r@.wf(),
            r@.scopes == seq![Scope { name, kind: ScopeKind::Module, parent: None }],
            r@.symbols.len() == 0,
    {
        let mut scopes: Vec<Scope> = Vec::new();
        scopes.push(Scope { name, kind: ScopeKind::Module, parent: None });
        let r = ScopeTree { scopes, symbols: Vec::new() };
        assert(r@.scopes =~= seq![Scope { name, kind: ScopeKind::Module, parent: None }]);
        r
    }

    pub fn scope_count(&self) -> (n: usize)
        ensures
            n == self@.scopes.len(),
            n >= 1,
    {
        proof {
            use_type_invariant(self);
        }
        self.scopes.len()
    }

    pub fn symbol_count(&self) -> (n: usize)
        ensures
            n == self@.symbols.len(),
    {
        self.symbols.len()
    }

    /// The scope at `id`, or `NotFound`.
    pub fn scope(&self, id: ScopeId) -> (r: Result<&Scope, Error>)
        ensures
            match r {
                Ok(s) => id < self@.scopes.len() && *s == self@.scopes[id as int],
                Err(e) => id >= self@.scopes.len() && e == Error::NotFound,
            },
    {
        if id < self.scopes.len() {
            Ok(&self.scopes[id])
        } else {
            Err(Error::NotFound)
        }
    }

    /// The symbol at `id`, or `NotFound`.
    pub fn symbol(&self, id: SymbolId) -> (r: Result<&Symbol, Error>)
        ensures
            match r {
                Ok(s) => id < self@.symbols.len() && *s == self@.symbols[id as int],
                Err(e) => id >= self@.symbols.len() && e == Error::NotFound,
            },
    {
        if id < self.symbols.len() {
            Ok(&self.symbols[id])
        } else {
            Err(Error::NotFound)
        }
    }

    /// Adds a scope called `name` below `parent` and returns its position, or
    /// `NotFound` where `parent` is not a scope of the tree.
    pub fn add_scope(&mut self, parent: ScopeId, name: String, kind: ScopeKind) -> (r: Result<
        ScopeId,
        Error,
    >)
        ensures
            final(self)@.symbols == old(self)@.symbols,
            match r {
                Ok(id) => {
                    &&& parent < old(self)@.scopes.len()
                    &&& id == old(self)@.scopes.len()
                    &&& final(self)@.scopes == old(self)@.scopes.push(
                        Scope { name, kind, parent: Some(parent) },
                    )
                },
                Err(e) => {
                    &&& parent >= old(self)@.scopes.len()
                    &&& e == Error::NotFound
                    &&& final(self)@ == old(self)@
                },
            },
    {
        proof {
            use_type_invariant(&*self);
        }
        if parent >= self.scopes.len() {
            return Err(Error::NotFound);
        }
        let id = self.scopes.len();
        let mut scopes: Vec<Scope> = Vec::new();
        scopes.push(Scope { name: String::new(), kind: ScopeKind::Module, parent: None });
        let mut symbols: Vec<Symbol> = Vec::new();
        core::mem::swap(&mut self.symbols, &mut symbols);
        core::mem::swap(&mut self.scopes, &mut scopes);
        scopes.push(Scope { name, kind, parent: Some(parent) });
        core::mem::swap(&mut self.scopes, &mut scopes);
        core::mem::swap(&mut self.symbols, &mut symbols);
        Ok(id)
    }

    /// Adds `symbol` to the scope it names and returns its position, or
    /// `NotFound` where that scope is not in the tree.
    pub fn add_symbol(&mut self, symbol: Symbol) -> (r: Result<SymbolId, Error>)
        ensures
            final(self)@.scopes == old(self)@.scopes,
            match r {
                Ok(id) => {
                    &&& symbol.scope < old(self)@.scopes.len()
                    &&& id == old(self)@.symbols.len()
                    &&& final(self)@.symbols == old(self)@.symbols.push(symbol)
                },
                Err(e) => {
                    &&& symbol.scope >= old(self)@.scopes.len()
                    &&& e == Error::NotFound
                    &&& final(self)@ == old(self)@
                },
            },
    {
        proof {
            use_type_invariant(&*self);
        }
        if symbol.scope >= self.scopes.len() {
            return Err(Error::NotFound);
        }
        let id = self.symbols.len();
        let mut symbols: Vec<Symbol> = Vec::new();
        core::mem::swap(&mut self.symbols, &mut symbols);
        symbols.push(symbol);
        core::mem::swap(&mut self.symbols, &mut symbols);
        Ok(id)
    }

    /// The innermost module at or above `s`.
    pub fn enclosing_module(&self, s: ScopeId) -> (r: ScopeId)
        ensures
            r == self@.enclosing_module(s as int),
            r <= s,
    {
        proof {
            use_type_invariant(self);
        }
        if s >= self.scopes.len() {
            return s;
        }
        let mut cur: usize = s;
        loop
            invariant
                self@.wf(),
                cur <= s < self@.scopes.len(),
                self@.enclosing_module(s as int) == self@.enclosing_module(cur as int),
            decreases cur,
        {
            if cur == 0 {
                return cur;
            }
            match self.scopes[cur].kind {
                ScopeKind::Module => {
                    return cur;
                },
                _ => {},
            }
            match self.scopes[cur].parent {
                Some(p) => {
                    cur = p;
                },
                None => {
                    return cur;
                },
            }
        }
    }

    /// The scope `k` levels above `s`, or `None` where the root is nearer.
    pub fn climb(&self, s: ScopeId, k: usize) -> (r: Option<ScopeId>)
        ensures
            match r {
                Some(a) => self@.ancestor(s as int, k as nat) == Some(a as int) && a <= s,
                None => self@.ancestor(s as int, k as nat) is None,
            },
    {
        proof {
            use_type_invariant(self);
        }
        if s >= self.scopes.len() {
            return if k == 0 {
                Some(s)
            } else {
                None
            };
        }
        let mut cur: usize = s;
        let mut left: usize = k;
        while left > 0
            invariant
                self@.wf(),
                cur <= s < self@.scopes.len(),
                self@.ancestor(s as int, k as nat) == self@.ancestor(cur as int, left as nat),
            decreases left,
        {
            if cur == 0 {
                return None;
            }
            match self.scopes[cur].parent {
                Some(p) => {
                    cur = p;
                    left -= 1;
                },
                None => {
                    return None;
                },
            }
        }
        Some(cur)
    }

    /// The child of `parent` called `name`: `NotFound` where there is none,
    /// `Ambiguous` where there are several.
    pub fn child(&self, parent: ScopeId, name: &String) -> (r: Result<ScopeId, Error>)
        ensures
            position(r) == self@.child(parent as int, name@),
            r matches Ok(c) ==> c < self@.scopes.len(),
    {
        let ghost pred = self@.child_pred(parent as int, name@);
        let mut first: Option<usize> = None;
        let mut several: bool = false;
        let mut c: usize = 0;
        while c < self.scopes.len()
            invariant
                c <= self.scopes.len(),
                self.scopes@ == self@.scopes,
                pred == self@.child_pred(parent as int, name@),
                scan_state(c as int, pred, first, several),
            decreases self.scopes.len() - c,
        {
            let sc = &self.scopes[c];
            let under = match sc.parent {
                Some(p) => p == parent,
                None => false,
            };
            let hit = c > 0 && under && sc.name == *name;
            assert(hit == pred(c as int));
            if hit {
                match first {
                    None => {
                        first = Some(c);
                    },
                    Some(f) => {
                        several = true;
                    },
                }
            }
            c += 1;
        }
        proof {
            lemma_scan_done(self.scopes.len() as int, pred, first, several);
        }
        match first {
            None => Err(Error::NotFound),
            Some(f) => if several {
                Err(Error::Ambiguous)
            } else {
                Ok(f)
            },
        }
    }

    /// Whether the symbol at `y` is of the kind that `sel` asks for and, if
    /// `exact` is set, the very instance.
    fn selects(&self, sel: &Selector, y: SymbolId, exact: bool) -> (r: bool)
        requires
            y < self@.symbols.len(),
        ensures
            r == if exact {
                is_instance(sel@, self@.symbols[y as int])
            } else {
                is_candidate(sel@, self@.symbols[y as int])
            },
    {
        let sym = &self.symbols[y];
        match sel {
            Selector::Any => true,
            Selector::Call { generic_args, arg_types } => {
                let callable = match sym.kind {
                    SymbolKind::Function => true,
                    SymbolKind::TraitMethod => true,
                    _ => false,
                };
                if !callable || sym.params.len() != arg_types.len() {
                    return false;
                }
                if !exact {
                    return true;
                }
                match generic_args {
                    Some(g) => id_lists_equal(&sym.generic_args, g),
                    None => id_lists_equal(&sym.params, arg_types),
                }
            },
        }
    }

    fn scan_members(&self, scope: ScopeId, name: &String, sel: &Selector, exact: bool) -> (r:
        Result<SymbolId, Error>)
        ensures
            position(r) == unique_match(
                self@.symbols.len() as int,
                self@.member_pred(scope as int, name@, sel@, exact),
            ),
            r matches Ok(y) ==> y < self@.symbols.len(),
    {
        let ghost pred = self@.member_pred(scope as int, name@, sel@, exact);
        let mut first: Option<usize> = None;
        let mut several: bool = false;
        let mut y: usize = 0;
        while y < self.symbols.len()
            invariant
                y <= self.symbols.len(),
                self.symbols@ == self@.symbols,
                pred == self@.member_pred(scope as int, name@, sel@, exact),
                scan_state(y as int, pred, first, several),
            decreases self.symbols.len() - y,
        {
            let sym = &self.symbols[y];
            let hit = sym.scope == scope && sym.name == *name && self.selects(sel, y, exact);
            assert(hit == pred(y as int));
            if hit {
                match first {
                    None => {
                        first = Some(y);
                    },
                    Some(f) => {
                        several = true;
                    },
                }
            }
            y += 1;
        }
        proof {
            lemma_scan_done(self.symbols.len() as int, pred, first, several);
        }
        match first {
            None => Err(Error::NotFound),
            Some(f) => if several {
                Err(Error::Ambiguous)
            } else {
                Ok(f)
            },
        }
    }

    /// The symbol of `scope` called `name` that `sel` asks for: `NotFound`
    /// where there is none, `Ambiguous` where several remain.
    pub fn member(&self, scope: ScopeId, name: &String, sel: &Selector) -> (r: Result<
        SymbolId,
        Error,
    >)
        ensures
            position(r) == self@.member(scope as int, name@, sel@),
            r matches Ok(y) ==> y < self@.symbols.len(),
    {
        match self.scan_members(scope, name, sel, false) {
            Err(Error::Ambiguous) => self.scan_members(scope, name, sel, true),
            other => other,
        }
    }

    /// The symbol that `segments` names when followed from the scope `from`.
    pub fn resolve_from(&self, from: ScopeId, segments: &Vec<String>, sel: &Selector) -> (r:
        Result<SymbolId, Error>)
        ensures
            position(r) == self@.resolve_from(from as int, names_of(segments@), sel@),
            r matches Ok(y) ==> y < self@.symbols.len(),
    {
        if segments.len() == 0 {
            return Err(Error::NotFound);
        }
        let last: usize = segments.len() - 1;
        let mut s: usize = from;
        let mut i: usize = 0;
        while i < last
            invariant
                i <= last == segments@.len() - 1,
                self@.descend(from as int, names_of(segments@), i as nat) == Ok::<int, Error>(
                    s as int,
                ),
            decreases last - i,
        {
            match self.child(s, &segments[i]) {
                Ok(c) => {
                    s = c;
                },
                Err(e) => {
                    proof {
                        assert(self@.descend(from as int, names_of(segments@), (i + 1) as nat) == Err::<
                            int,
                            Error,
                        >(e));
                        lemma_descend_error_persists(
                            self@,
                            from as int,
                            names_of(segments@),
                            (i + 1) as nat,
                            last as nat,
                        );
                    }
                    return Err(e);
                },
            }
            i += 1;
        }
        self.member(s, &segments[last], sel)
    }

    /// The symbol that `path` names when it is evaluated in the scope `ctx`.
    ///
    /// An absolute path starts at the root.  A `self` or `super` path starts
    /// at the module that encloses `ctx`, one level up for each `super`, and
    /// is `NotFound` where it steps above the root.  A path without prefix is
    /// answered by the innermost scope at or above `ctx` in which it names
    /// anything, so that an inner item shadows an outer one of its name.
    /// Of several items of one name and scope, `sel` picks; where it cannot
    /// decide, the answer is `Ambiguous`.
    pub fn resolve(&self, ctx: ScopeId, path: &Path, sel: &Selector) -> (r: Result<
        SymbolId,
        Error,
    >)
        ensures
            position(r) == self@.resolve(ctx as int, path@.root, path@.segments, sel@),
            r matches Ok(y) ==> y < self@.symbols.len(),
    {
        proof {
            use_type_invariant(self);
        }
        if ctx >= self.scopes.len() {
            return Err(Error::NotFound);
        }
        match path.root {
            PathRoot::Absolute => self.resolve_from(0, &path.segments, sel),
            PathRoot::Module { supers } => {
                let home = self.enclosing_module(ctx);
                match self.climb(home, supers) {
                    Some(a) => self.resolve_from(a, &path.segments, sel),
                    None => Err(Error::NotFound),
                }
            },
            PathRoot::Lexical => {
                let mut cur: usize = ctx;
                loop
                    invariant
                        self@.wf(),
                        path.root is Lexical,
                        cur <= ctx < self@.scopes.len(),
                        self.scopes@ == self@.scopes,
                        self@.resolve_lexical(ctx as int, path@.segments, sel@)
                            == self@.resolve_lexical(cur as int, path@.segments, sel@),
                    decreases cur,
                {
                    match self.resolve_from(cur, &path.segments, sel) {
                        Err(Error::NotFound) => {},
                        other => {
                            return other;
                        },
                    }
                    if cur == 0 {
                        return Err(Error::NotFound);
                    }
                    match self.scopes[cur].parent {
                        Some(p) => {
                            cur = p;
                        },
                        None => {
                            return Err(Error::NotFound);
                        },
                    }
                }
            },
        }
    }

    /// The qualified path of the symbol `y`, or `NotFound`.
    pub fn qualified_path(&self, y: SymbolId) -> (r: Result<Vec<String>, Error>)
        ensures
            match r {
                Ok(path) => y < self@.symbols.len() && names_of(path@) == self@.symbol_path(
                    y as int,
                ),
                Err(e) => y >= self@.symbols.len() && e == Error::NotFound,
            },
    {
        proof {
            use_type_invariant(self);
        }
        if y >= self.symbols.len() {
            return Err(Error::NotFound);
        }
        let home: usize = self.symbols[y].scope;
        let mut inner_first: Vec<String> = Vec::new();
        let mut cur: usize = home;
        assert(self@.scope_path(cur as int) + names_of(inner_first@).reverse()
            =~= self@.scope_path(home as int));
        while cur != 0
            invariant
                self@.wf(),
                self.scopes@ == self@.scopes,
                cur <= home < self@.scopes.len(),
                self@.scope_path(home as int) == self@.scope_path(cur as int) + names_of(
                    inner_first@,
                ).reverse(),
            decreases cur,
        {
            let ghost before = names_of(inner_first@);
            inner_first.push(self.scopes[cur].name.clone());
            let up = match self.scopes[cur].parent {
                Some(p) => p,
                None => 0,
            };
            proof {
                let name = self@.scopes[cur as int].name@;
                assert(names_of(inner_first@) =~= before.push(name));
                assert(before.push(name).reverse() =~= seq![name] + before.reverse());
                assert(self@.scope_path(up as int).push(name) + before.reverse()
                    =~= self@.scope_path(up as int) + (seq![name] + before.reverse()));
            }
            cur = up;
        }
        let mut path: Vec<String> = Vec::new();
        let mut i: usize = inner_first.len();
        while i > 0
            invariant
                i <= inner_first@.len(),
                path@.len() == inner_first@.len() - i,
                forall|k: int|
                    0 <= k < path@.len() ==> (#[trigger] path@[k])@ == inner_first@[
                        inner_first@.len() - 1 - k
                    ]@,
            decreases i,
        {
            i -= 1;
            path.push(inner_first[i].clone());
        }
        assert(names_of(path@) =~= names_of(inner_first@).reverse());
        let ghost scopes_part = names_of(path@);
        path.push(self.symbols[y].name.clone());
        assert(names_of(path@) =~= scopes_part.push(self@.symbols[y as int].name@));
        assert(self@.scope_path(0) =~= Seq::<Seq<char>>::empty());
        assert(self@.scope_path(home as int) =~= scopes_part);
        Ok(path)
    }
}

} // verus!
