//! Which implementation a method or associated function name denotes on a
//! type: a registry from type identity and name to implementation.
//!
//! Methods that a type declares itself take precedence over methods that it
//! has through a trait.  Dispatch is decided here, from the registry alone;
//! nothing is read from the dispatch tables of the target.

use crate::error::Error;
use crate::scope::{lemma_scan_done, position, scan_state, unique_match, ScopeId, SymbolId};
use crate::types::TypeId;
use vstd::prelude::*;

verus! {

/// Where a type has a method from.
#[derive(Clone, Copy, Debug, PartialEq, Eq, Structural)]
pub enum Provider {
    /// Declared on the type itself.
    Inherent,
    /// Provided by the trait whose scope is `id`.
    Trait { id: ScopeId },
}

/// How a function takes the value it is called on.
#[derive(Clone, Copy, Debug, PartialEq, Eq, Structural)]
pub enum ReceiverMode {
    /// An associated function: no receiver.
    Static,
    ByValue,
    /// Takes a reference; an owned receiver is referenced implicitly.
    ByReference,
}

/// One implementation: the function `symbol` is what `name` means on `ty`.
#[derive(Clone, Debug, PartialEq, Eq)]
pub struct MethodEntry {
    pub ty: TypeId,
    pub name: String,
    pub provider: Provider,
    pub receiver: ReceiverMode,
    pub symbol: SymbolId,
}

/// The entries that offer `name` on `ty`, those declared on the type itself
/// if `inherent` is set, else those provided by traits.
pub open spec fn offered(entries: Seq<MethodEntry>, ty: TypeId, name: Seq<char>, inherent: bool)
    -> spec_fn(int) -> bool {
    |i: int|
        0 <= i < entries.len() && entries[i].ty == ty && entries[i].name@ == name && (
        entries[i].provider is Inherent) == inherent
}

/// The entry that `name` denotes on `ty`.
///
/// The one inherent entry, if the type declares the name; several inherent
/// entries are `Ambiguous`.  Only where the type declares none, the one entry
/// that a trait provides; a name that several traits provide is `Ambiguous`,
/// one that none provides is `NotFound`.
pub open spec fn resolve_method_spec(entries: Seq<MethodEntry>, ty: TypeId, name: Seq<char>)
    -> Result<int, Error> {
    match unique_match(entries.len() as int, offered(entries, ty, name, true)) {
        Err(Error::NotFound) => unique_match(
            entries.len() as int,
            offered(entries, ty, name, false),
        ),
        r => r,
    }
}

/// An inherent method always wins: where a type declares exactly one method
/// of a name, that name denotes it, whichever traits provide a method of the
/// same name and wherever their entries stand in the registry.
pub proof fn lemma_inherent_method_wins(
    entries: Seq<MethodEntry>,
    ty: TypeId,
    name: Seq<char>,
    i: int,
)
    requires
        offered(entries, ty, name, true)(i),
        forall|j: int| #[trigger] offered(entries, ty, name, true)(j) ==> j == i,
    ensures
        resolve_method_spec(entries, ty, name) == Ok::<int, Error>(i),
{
    let pred = offered(entries, ty, name, true);
    let c = choose|k: int| 0 <= k < entries.len() && #[trigger] pred(k);
    assert(pred(i));
    assert(c == i);
}

/// The order of the registry does not matter to that: two registries that
/// hold the same inherent method of a name on a type, wherever it stands in
/// each and whatever stands around it, resolve the name to that same entry.
pub proof fn lemma_order_does_not_matter(
    a: Seq<MethodEntry>,
    b: Seq<MethodEntry>,
    ty: TypeId,
    name: Seq<char>,
    i: int,
    j: int,
)
    requires
        a[i] == b[j],
        offered(a, ty, name, true)(i),
        offered(b, ty, name, true)(j),
        forall|k: int| #[trigger] offered(a, ty, name, true)(k) ==> k == i,
        forall|k: int| #[trigger] offered(b, ty, name, true)(k) ==> k == j,
    ensures
        resolve_method_spec(a, ty, name) is Ok,
        resolve_method_spec(b, ty, name) is Ok,
        a[resolve_method_spec(a, ty, name)->Ok_0] == b[resolve_method_spec(b, ty, name)->Ok_0],
{
    lemma_inherent_method_wins(a, ty, name, i);
    lemma_inherent_method_wins(b, ty, name, j);
}

/// Where a type declares no method of a name and exactly one trait provides
/// one, the name denotes the trait's method.
pub proof fn lemma_sole_trait_method(entries: Seq<MethodEntry>, ty: TypeId, name: Seq<char>, i: int)
    requires
        offered(entries, ty, name, false)(i),
        forall|j: int| #[trigger] offered(entries, ty, name, false)(j) ==> j == i,
        forall|j: int| !#[trigger] offered(entries, ty, name, true)(j),
    ensures
        resolve_method_spec(entries, ty, name) == Ok::<int, Error>(i),
{
    let pred = offered(entries, ty, name, false);
    let c = choose|k: int| 0 <= k < entries.len() && #[trigger] pred(k);
    assert(pred(i));
    assert(c == i);
}

/// Where a type declares no method of a name and two traits provide one,
/// the name is ambiguous.
pub proof fn lemma_rival_traits_are_ambiguous(
    entries: Seq<MethodEntry>,
    ty: TypeId,
    name: Seq<char>,
    i: int,
    j: int,
)
    requires
        i != j,
        offered(entries, ty, name, false)(i),
        offered(entries, ty, name, false)(j),
        forall|k: int| !#[trigger] offered(entries, ty, name, true)(k),
    ensures
        resolve_method_spec(entries, ty, name) == Err::<int, Error>(Error::Ambiguous),
{
    let pred = offered(entries, ty, name, false);
    let c = choose|k: int| 0 <= k < entries.len() && #[trigger] pred(k);
    assert(pred(i) && pred(j));
}

/// The registry of implementations for one program image.
pub struct MethodRegistry {
    entries: Vec<MethodEntry>,
}

impl View for MethodRegistry {
    type V = Seq<MethodEntry>;

    closed spec fn view(&self) -> Seq<MethodEntry> {
        self.entries@
    }
}

impl MethodRegistry {
    pub fn new() -> (r: MethodRegistry)
        ensures
            r@.len() == 0,
    {
        MethodRegistry { entries: Vec::new() }
    }

    /// Appends `entry` and returns its position.
    pub fn register(&mut self, entry: MethodEntry) -> (r: usize)
        ensures
            r == old(self)@.len(),
            final(self)@ == old(self)@.push(entry),
    {
        let id = self.entries.len();
        self.entries.push(entry);
        id
    }

    pub fn len(&self) -> (n: usize)
        ensures
            n == self@.len(),
    {
        self.entries.len()
    }

    /// The entry at `i`, or `NotFound`.
    pub fn entry(&self, i: usize) -> (r: Result<&MethodEntry, Error>)
        ensures
            match r {
                Ok(e) => i < self@.len() && *e == self@[i as int],
                Err(e) => i >= self@.len() && e == Error::NotFound,
            },
    {
        if i < self.entries.len() {
            Ok(&self.entries[i])
        } else {
            Err(Error::NotFound)
        }
    }

    fn scan(&self, ty: TypeId, name: &String, inherent: bool) -> (r: Result<usize, Error>)
        ensures
            position(r) == unique_match(self@.len() as int, offered(self@, ty, name@, inherent)),
            r matches Ok(i) ==> i < self@.len(),
    {
        let ghost pred = offered(self@, ty, name@, inherent);
        let mut first: Option<usize> = None;
        let mut several: bool = false;
        let mut i: usize = 0;
        while i < self.entries.len()
            invariant
                i <= self.entries.len(),
                self.entries@ == self@,
                pred == offered(self@, ty, name@, inherent),
                scan_state(i as int, pred, first, several),
            decreases self.entries.len() - i,
        {
            let e = &self.entries[i];
            let own = match e.provider {
                Provider::Inherent => true,
                Provider::Trait { id } => false,
            };
            let hit = e.ty == ty && e.name == *name && own == inherent;
            assert(hit == pred(i as int));
            if hit {
                match first {
                    None => {
                        first = Some(i);
                    },
                    Some(f) => {
                        several = true;
                    },
                }
            }
            i += 1;
        }
        proof {
            lemma_scan_done(self.entries.len() as int, pred, first, several);
        }
        match first {
            None => Err(Error::NotFound),
            Some(f) => if several {
                Err(Error::Ambiguous)
            } else {
                Ok(f)
            },
        }
    }

    /// The entry that `name` denotes on `ty`, inherent methods first.
    pub fn resolve_method(&self, ty: TypeId, name: &String) -> (r: Result<usize, Error>)
        ensures
            position(r) == resolve_method_spec(self@, ty, name@),
            r matches Ok(i) ==> i < self@.len(),
    {
        match self.scan(ty, name, true) {
            Err(Error::NotFound) => self.scan(ty, name, false),
            other => other,
        }
    }
}

} // verus!
