//! The type descriptor model: what the compiler's debug information says about
//! the shape of each type, kept in an append-only table.
//!
//! Descriptors refer to each other by [`TypeId`], the position of a descriptor
//! in its table.  A type that holds another by value always comes after it, so
//! containment cannot be circular; pointers and references may name any type,
//! also one that is recorded later.

use crate::error::Error;
use vstd::prelude::*;

verus! {

/// The position of a descriptor in its [`TypeTable`].
pub type TypeId = usize;

/// How the bytes of a primitive are to be read.
#[derive(Clone, Copy, Debug, PartialEq, Eq, Structural)]
pub enum ScalarKind {
    Unit,
    Bool,
    Char,
    Unsigned,
    Signed,
    Float,
}

/// A member of a struct, tuple struct, union, closure or enum variant.
#[derive(Clone, Debug, PartialEq, Eq)]
pub struct Field {
    /// The declared name; for positional members the decimal index.
    pub name: String,
    pub ty: TypeId,
    /// Byte offset from the start of the enclosing value.
    pub offset: usize,
}

/// One alternative of an enum.
#[derive(Clone, Debug, PartialEq, Eq)]
pub struct Variant {
    pub name: String,
    /// The tag that selects this variant under a direct discriminant, or the
    /// reserved pattern that selects it under niche filling.  Not consulted for
    /// the data-bearing variant of a niche-filled enum.
    pub discr: u128,
    /// Whether the payload is written positionally, `Name(a, b)`.
    pub tuple_like: bool,
    pub fields: Vec<Field>,
}

/// How the live variant of an enum is told from its bytes.  Recorded as the
/// compiler chose it; never inferred.
#[derive(Clone, Copy, Debug, PartialEq, Eq, Structural)]
pub enum DiscriminantStrategy {
    /// A tag of `width` bytes at `offset`.
    Direct { offset: usize, width: usize },
    /// No tag: the `width` bytes at `offset` belong to a field of variant
    /// `dataful`, and patterns that this field never holds stand for the other
    /// variants.
    NicheFill { offset: usize, width: usize, dataful: usize },
}

/// The structural part of a descriptor.
#[derive(Clone, Debug, PartialEq, Eq)]
pub enum Shape {
    Primitive { kind: ScalarKind },
    Struct { fields: Vec<Field> },
    TupleStruct { arity: usize, fields: Vec<Field> },
    Enum { variants: Vec<Variant>, strategy: DiscriminantStrategy },
    Union { fields: Vec<Field> },
    Array { elem: TypeId, count: usize },
    /// The unsized sequence `[T]`; its length is known only at run time.
    Slice { elem: TypeId },
    Pointer { target: TypeId },
    Reference { target: TypeId },
    FunctionPointer,
    Closure { fields: Vec<Field> },
    TraitObject,
}

/// Static information about one type.  The identity of a type is its path
/// together with its generic arguments: `Hold<u8>` and `Hold<i32>` share a path
/// and are different types.  An instantiation of a generic type is a
/// descriptor like any other, with its own size and shape.
#[derive(Clone, Debug, PartialEq, Eq)]
pub struct TypeDescriptor {
    pub path: String,
    pub generic_args: Vec<TypeId>,
    pub size: usize,
    pub align: usize,
    pub shape: Shape,
}

/// What a [`TypeTable`] holds, as a mathematical value.
pub struct TypeModel {
    /// Bytes in a thin pointer of the target.
    pub pointer_width: usize,
    pub types: Seq<TypeDescriptor>,
}

/// Every field names a type recorded before position `bound`.
pub open spec fn fields_below(fields: Seq<Field>, bound: int) -> bool {
    forall|i: int| 0 <= i < fields.len() ==> (#[trigger] fields[i]).ty < bound
}

/// Every payload field of every variant names a type recorded before `bound`.
pub open spec fn variants_below(variants: Seq<Variant>, bound: int) -> bool {
    forall|v: int|
        0 <= v < variants.len() ==> fields_below((#[trigger] variants[v]).fields@, bound)
}

/// No two variants other than `skip` are selected by the same pattern.
pub open spec fn discr_distinct(variants: Seq<Variant>, skip: int) -> bool {
    forall|i: int, j: int|
        0 <= i < j < variants.len() && i != skip && j != skip ==> (#[trigger] variants[i]).discr
            != (#[trigger] variants[j]).discr
}

pub open spec fn strategy_ok(strategy: DiscriminantStrategy, variants: Seq<Variant>) -> bool {
    match strategy {
        DiscriminantStrategy::Direct { offset, width } => width <= 16 && discr_distinct(
            variants,
            -1,
        ),
        DiscriminantStrategy::NicheFill { offset, width, dataful } => width <= 16 && dataful
            < variants.len() && discr_distinct(variants, dataful as int),
    }
}

/// Whether a descriptor of this shape and size may take position `bound` in a
/// table for a target with pointers of `pointer_width` bytes.
pub open spec fn shape_ok(shape: Shape, size: usize, bound: int, pointer_width: usize) -> bool {
    match shape {
        Shape::Primitive { kind } => size <= 16,
        Shape::Struct { fields } => fields_below(fields@, bound),
        Shape::TupleStruct { arity, fields } => fields@.len() == arity && fields_below(
            fields@,
            bound,
        ),
        Shape::Enum { variants, strategy } => variants_below(variants@, bound) && strategy_ok(
            strategy,
            variants@,
        ),
        Shape::Union { fields } => fields_below(fields@, bound),
        Shape::Array { elem, count } => elem < bound,
        Shape::Slice { elem } => elem < bound,
        Shape::Pointer { target } => size == pointer_width || size == 2 * pointer_width,
        Shape::Reference { target } => size == pointer_width || size == 2 * pointer_width,
        Shape::FunctionPointer => size == pointer_width,
        Shape::Closure { fields } => fields_below(fields@, bound),
        Shape::TraitObject => true,
    }
}

/// Whether `d` is the type called `path` with the generic arguments `args`.
pub open spec fn has_identity(d: TypeDescriptor, path: Seq<char>, args: Seq<TypeId>) -> bool {
    d.path@ == path && d.generic_args@ == args
}

/// No descriptor of `types` has the identity `path<args>`.
pub open spec fn identity_free(types: Seq<TypeDescriptor>, path: Seq<char>, args: Seq<TypeId>) -> bool {
    forall|i: int| 0 <= i < types.len() ==> !has_identity(#[trigger] types[i], path, args)
}

impl TypeModel {
    /// The table invariant: a sane pointer width, every descriptor acceptable
    /// at its position, and no identity recorded twice.
    pub open spec fn wf(self) -> bool {
        &&& 1 <= self.pointer_width <= 8
        &&& forall|id: int|
            0 <= id < self.types.len() ==> shape_ok(
                (#[trigger] self.types[id]).shape,
                self.types[id].size,
                id,
                self.pointer_width,
            )
        &&& forall|i: int, j: int|
            0 <= i < j < self.types.len() ==> !has_identity(
                #[trigger] self.types[i],
                (#[trigger] self.types[j]).path@,
                self.types[j].generic_args@,
            )
    }

    /// The position of the type called `path` with the generic arguments
    /// `args`, if the table holds it.
    pub open spec fn find(self, path: Seq<char>, args: Seq<TypeId>) -> Option<TypeId> {
        if exists|id: int|
            0 <= id < self.types.len() && has_identity(#[trigger] self.types[id], path, args) {
            Some(
                (choose|id: int|
                    0 <= id < self.types.len() && has_identity(
                        #[trigger] self.types[id],
                        path,
                        args,
                    )) as usize,
            )
        } else {
            None
        }
    }

    /// Whether `d` may be appended.
    pub open spec fn accepts(self, d: TypeDescriptor) -> bool {
        shape_ok(d.shape, d.size, self.types.len() as int, self.pointer_width)
    }

    /// Whether `id` is a recorded unsized sequence type.
    pub open spec fn is_slice(self, id: TypeId) -> bool {
        id < self.types.len() && self.types[id as int].shape is Slice
    }
}

/// The append-only table of descriptors for one program image.
pub struct TypeTable {
    pointer_width: usize,
    types: Vec<TypeDescriptor>,
}

impl View for TypeTable {
    type V = TypeModel;

    closed spec fn view(&self) -> TypeModel {
        TypeModel { pointer_width: self.pointer_width, types: self.types@ }
    }
}

impl TypeTable {
    /// Every table that exists satisfies the table invariant.
    #[verifier::type_invariant]
    pub open spec fn well_formed(self) -> bool {
        self@.wf()
    }
}

/// Whether two lists of type positions are the same list.
pub fn id_lists_equal(a: &Vec<TypeId>, b: &Vec<TypeId>) -> (r: bool)
    ensures
        r == (a@ == b@),
{
    if a.len() != b.len() {
        return false;
    }
    let mut i: usize = 0;
    while i < a.len()
        invariant
            i <= a.len() == b.len(),
            forall|k: int| 0 <= k < i ==> a@[k] == b@[k],
        decreases a.len() - i,
    {
        if a[i] != b[i] {
            return false;
        }
        i += 1;
    }
    assert(a@ =~= b@);
    true
}

fn check_fields(fields: &Vec<Field>, bound: usize) -> (r: bool)
    ensures
        r == fields_below(fields@, bound as int),
{
    let mut i: usize = 0;
    while i < fields.len()
        invariant
            i <= fields.len(),
            forall|k: int| 0 <= k < i ==> (#[trigger] fields@[k]).ty < bound,
        decreases fields.len() - i,
    {
        if fields[i].ty >= bound {
            return false;
        }
        i += 1;
    }
    true
}

fn check_variants(variants: &Vec<Variant>, bound: usize) -> (r: bool)
    ensures
        r == variants_below(variants@, bound as int),
{
    let mut v: usize = 0;
    while v < variants.len()
        invariant
            v <= variants.len(),
            forall|k: int|
                0 <= k < v ==> fields_below((#[trigger] variants@[k]).fields@, bound as int),
        decreases variants.len() - v,
    {
        if !check_fields(&variants[v].fields, bound) {
            return false;
        }
        v += 1;
    }
    true
}

fn check_distinct(variants: &Vec<Variant>, skip: Option<usize>) -> (r: bool)
    ensures
        r == discr_distinct(
            variants@,
            match skip {
                Some(s) => s as int,
                None => -1,
            },
        ),
{
    let ghost sk: int = match skip {
        Some(s) => s as int,
        None => -1,
    };
    let mut j: usize = 0;
    while j < variants.len()
        invariant
            j <= variants.len(),
            sk == match skip {
                Some(s) => s as int,
                None => -1,
            },
            forall|a: int, b: int|
                0 <= a < b < j && a != sk && b != sk ==> (#[trigger] variants@[a]).discr != (
                #[trigger] variants@[b]).discr,
        decreases variants.len() - j,
    {
        let skip_j = match skip {
            Some(s) => s == j,
            None => false,
        };
        if !skip_j {
            let mut i: usize = 0;
            while i < j
                invariant
                    i <= j < variants.len(),
                    j != sk,
                    sk == match skip {
                        Some(s) => s as int,
                        None => -1,
                    },
                    forall|a: int|
                        0 <= a < i && a != sk ==> (#[trigger] variants@[a]).discr
                            != variants@[j as int].discr,
                decreases j - i,
            {
                let skip_i = match skip {
                    Some(s) => s == i,
                    None => false,
                };
                if !skip_i && variants[i].discr == variants[j].discr {
                    return false;
                }
                i += 1;
            }
        }
        j += 1;
    }
    true
}

fn check_shape(shape: &Shape, size: usize, bound: usize, pointer_width: usize) -> (r: bool)
    requires
        pointer_width <= 8,
    ensures
        r == shape_ok(*shape, size, bound as int, pointer_width),
{
    match shape {
        Shape::Primitive { kind } => size <= 16,
        Shape::Struct { fields } => check_fields(fields, bound),
        Shape::TupleStruct { arity, fields } => fields.len() == *arity && check_fields(
            fields,
            bound,
        ),
        Shape::Enum { variants, strategy } => {
            if !check_variants(variants, bound) {
                return false;
            }
            match strategy {
                DiscriminantStrategy::Direct { offset, width } => *width <= 16 && check_distinct(
                    variants,
                    None,
                ),
                DiscriminantStrategy::NicheFill { offset, width, dataful } => *width <= 16
                    && *dataful < variants.len() && check_distinct(variants, Some(*dataful)),
            }
        },
        Shape::Union { fields } => check_fields(fields, bound),
        Shape::Array { elem, count } => *elem < bound,
        Shape::Slice { elem } => *elem < bound,
        Shape::Pointer { target } => size == pointer_width || size == 2 * pointer_width,
        Shape::Reference { target } => size == pointer_width || size == 2 * pointer_width,
        Shape::FunctionPointer => size == pointer_width,
        Shape::Closure { fields } => check_fields(fields, bound),
        Shape::TraitObject => true,
    }
}

impl TypeTable {
    /// An empty table for a target whose thin pointers take `pointer_width`
    /// bytes.  Widths outside `1..=8` are rejected with `MalformedLayout`.
    pub fn new(pointer_width: usize) -> (r: Result<TypeTable, Error>)
        ensures
            match r {
                Ok(t) => 1 <= pointer_width <= 8 && t@.wf() && t@.pointer_width == pointer_width
                    && t@.types.len() == 0,
                Err(e) => !(1 <= pointer_width <= 8) && e == Error::MalformedLayout,
            },
    {
        if pointer_width < 1 || pointer_width > 8 {
            return Err(Error::MalformedLayout);
        }
        Ok(TypeTable { pointer_width, types: Vec::new() })
    }

    /// The number of descriptors recorded.
    pub fn len(&self) -> (n: usize)
        ensures
            n == self@.types.len(),
    {
        self.types.len()
    }

    /// Bytes in a thin pointer of the target.
    pub fn pointer_width(&self) -> (w: usize)
        ensures
            w == self@.pointer_width,
    {
        self.pointer_width
    }

    /// The descriptor at `id`, or `NotFound`.
    pub fn get(&self, id: TypeId) -> (r: Result<&TypeDescriptor, Error>)
        ensures
            match r {
                Ok(d) => id < self@.types.len() && *d == self@.types[id as int],
                Err(e) => id >= self@.types.len() && e == Error::NotFound,
            },
    {
        if id < self.types.len() {
            Ok(&self.types[id])
        } else {
            Err(Error::NotFound)
        }
    }

    /// Finds the type with the given path and generic arguments.  The whole
    /// argument list takes part: instantiations of one generic type at
    /// different arguments are different types.
    pub fn lookup(&self, path: &String, generic_args: &Vec<TypeId>) -> (r: Result<TypeId, Error>)
        ensures
            match r {
                Ok(id) => id < self@.types.len() && has_identity(
                    self@.types[id as int],
                    path@,
                    generic_args@,
                ) && self@.find(path@, generic_args@) == Some(id),
                Err(e) => e == Error::NotFound && identity_free(
                    self@.types,
                    path@,
                    generic_args@,
                ) && self@.find(path@, generic_args@) is None,
            },
    {
        proof {
            use_type_invariant(self);
        }
        let mut i: usize = 0;
        while i < self.types.len()
            invariant
                i <= self.types.len(),
                self@.wf(),
                self.types@ == self@.types,
                forall|k: int|
                    0 <= k < i ==> !has_identity(#[trigger] self.types@[k], path@, generic_args@),
            decreases self.types.len() - i,
        {
            if self.types[i].path == *path && id_lists_equal(
                &self.types[i].generic_args,
                generic_args,
            ) {
                proof {
                    let c = choose|id: int|
                        0 <= id < self@.types.len() && has_identity(
                            #[trigger] self@.types[id],
                            path@,
                            generic_args@,
                        );
                    assert(has_identity(self@.types[i as int], path@, generic_args@));
                    if c < i {
                        assert(!has_identity(
                            self@.types[c],
                            self@.types[i as int].path@,
                            self@.types[i as int].generic_args@,
                        ));
                    } else if i < c {
                        assert(!has_identity(
                            self@.types[i as int],
                            self@.types[c].path@,
                            self@.types[c].generic_args@,
                        ));
                    }
                }
                return Ok(i);
            }
            i += 1;
        }
        Err(Error::NotFound)
    }

    /// Records `d` and returns its position.  A descriptor whose shape is not
    /// acceptable is refused with `MalformedLayout`, one whose identity is
    /// already taken with `Ambiguous`; the table is then unchanged.
    pub fn add(&mut self, d: TypeDescriptor) -> (r: Result<TypeId, Error>)
        ensures
            final(self)@.pointer_width == old(self)@.pointer_width,
            match r {
                Ok(id) => {
                    &&& id == old(self)@.types.len()
                    &&& final(self)@.types == old(self)@.types.push(d)
                    &&& old(self)@.accepts(d)
                    &&& identity_free(old(self)@.types, d.path@, d.generic_args@)
                },
                Err(e) => {
                    &&& final(self)@ == old(self)@
                    &&& e == if !old(self)@.accepts(d) {
                        Error::MalformedLayout
                    } else {
                        Error::Ambiguous
                    }
                    &&& !old(self)@.accepts(d) || !identity_free(
                        old(self)@.types,
                        d.path@,
                        d.generic_args@,
                    )
                },
            },
    {
        proof {
            use_type_invariant(&*self);
        }
        if !check_shape(&d.shape, d.size, self.types.len(), self.pointer_width) {
            return Err(Error::MalformedLayout);
        }
        match self.lookup(&d.path, &d.generic_args) {
            Ok(_) => {
                return Err(Error::Ambiguous);
            },
            Err(_) => {},
        }
        let id = self.types.len();
        let mut types: Vec<TypeDescriptor> = Vec::new();
        core::mem::swap(&mut self.types, &mut types);
        types.push(d);
        core::mem::swap(&mut self.types, &mut types);
        Ok(id)
    }
}

} // verus!
