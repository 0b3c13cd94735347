//! Symbolic IR: the canonical representation of types (`SymTy`),
//! permissions (`SymPerm`), generic terms, and variable symbols that the
//! checker works on. Permissions compose with `Apply` and join with `Or`
//! during lowering; `Error` variants poison whatever meets them.

use vstd::prelude::*;

use crate::Reported;
use crate::arena::PlaceId;
use crate::arena::PlaceStore;

verus! {

/// Source span, in byte offsets.
#[derive(Copy, Clone, PartialEq, Eq, Structural, Debug)]
pub struct Span {
    pub start: u32,
    pub end: u32,
}

/// The kind of a generic symbol: a type, a permission, or a place.
#[derive(Copy, Clone, PartialEq, Eq, Structural, Debug)]
pub enum SymGenericKind {
    Type,
    Perm,
    Place,
}

/// Symbol for a generic parameter or local variable. The `id` indexes the
/// declaration environment; `name` is an interned identifier, if any.
#[derive(Copy, Clone, PartialEq, Eq, Structural, Debug)]
pub struct SymVariable {
    pub id: u32,
    pub kind: SymGenericKind,
    pub name: Option<u32>,
    pub span: Span,
}

impl SymVariable {
    /// New symbol for a local variable. Locals are place-kind symbols.
    pub fn new_local(id: u32, name: u32, span: Span) -> (r: SymVariable)
        ensures
            r == (SymVariable {
                id,
                kind: SymGenericKind::Place,
                name: Some(name),
                span,
            }),
    {
        SymVariable { id, kind: SymGenericKind::Place, name: Some(name), span }
    }

    /// The generic term standing for this symbol, according to its kind.
    /// A place-kind symbol becomes the place rooted at the variable itself,
    /// interned in `places`.
    pub fn into_generic_term(self, places: &mut PlaceStore) -> (r: SymGenericTerm)
        requires
            old(places).wf(),
            old(places).view_paths().len() < u32::MAX,
        ensures
            final(places).wf(),
            match self.kind {
                SymGenericKind::Type => r == SymGenericTerm::Type(SymTy::Var(self.id)),
                SymGenericKind::Perm => r == SymGenericTerm::Perm(SymPerm::Var(self.id)),
                SymGenericKind::Place => match r {
                    SymGenericTerm::Place(p) => final(places).contains_id(p)
                        && final(places).path_of(p) == seq![self.id],
                    _ => false,
                },
            },
    {
        match self.kind {
            SymGenericKind::Type => SymGenericTerm::Type(SymTy::Var(self.id)),
            SymGenericKind::Perm => SymGenericTerm::Perm(SymPerm::Var(self.id)),
            SymGenericKind::Place => {
                let mut path: Vec<u32> = Vec::new();
                path.push(self.id);
                assert(path@ =~= seq![self.id]);
                let p = places.intern(path);
                SymGenericTerm::Place(p)
            },
        }
    }
}

/// Many of the IR's categories can be created from a variable symbol.
pub trait FromVar: Sized {
    fn var(v: &SymVariable) -> Self;
}

/// Test whether a term can be said to have the given kind. When errors
/// occur this may answer true for multiple kinds.
pub trait HasKind {
    fn has_kind(&self, kind: SymGenericKind) -> bool;
}

/// Downcast a term to the category `R`, on the promise that it has the
/// matching kind.
pub trait AssertKind<R>: Sized {
    fn assert_kind(self) -> R;
}

/// A list of places, structurally compared.
pub enum PlaceList {
    Nil,
    Cons(PlaceId, Box<PlaceList>),
}

impl PlaceList {
    pub open spec fn len(&self) -> nat
        decreases *self,
    {
        match self {
            PlaceList::Nil => 0,
            PlaceList::Cons(_, rest) => 1 + rest.len(),
        }
    }

    pub open spec fn get(&self, i: int) -> PlaceId
        decreases *self,
    {
        match self {
            PlaceList::Nil => PlaceId(0),
            PlaceList::Cons(p, rest) => if i <= 0 {
                *p
            } else {
                rest.get(i - 1)
            },
        }
    }

    /// The one-element list.
    pub fn one(p: PlaceId) -> (r: PlaceList)
        ensures
            r == PlaceList::Cons(p, Box::new(PlaceList::Nil)),
    {
        PlaceList::Cons(p, Box::new(PlaceList::Nil))
    }
}

/// A symbolic permission.
pub enum SymPerm {
    My,
    Our,
    /// `ref[p, q, ...]`: shared from the given places.
    Referenced(PlaceList),
    /// `mut[p, q, ...]`: exclusively leased from the given places.
    Mutable(PlaceList),
    /// Composition `lhs rhs`.
    Apply(Box<SymPerm>, Box<SymPerm>),
    /// Least upper bound during lowering.
    Or(Box<SymPerm>, Box<SymPerm>),
    Var(u32),
    Infer(u32),
    Error(Reported),
}

impl FromVar for SymPerm {
    fn var(v: &SymVariable) -> Self {
        SymPerm::Var(v.id)
    }
}

impl HasKind for SymPerm {
    fn has_kind(&self, kind: SymGenericKind) -> (r: bool) {
        match kind {
            SymGenericKind::Perm => true,
            _ => false,
        }
    }
}

/// The name part of a named type.
#[derive(Copy, Clone, PartialEq, Eq, Structural, Debug)]
pub enum SymTyName {
    Primitive(PrimKind),
    /// A user-defined aggregate, by handle, together with its style.
    Aggregate { id: u32, style: AggrStyle },
    Future,
    Tuple { arity: u32 },
}

/// Struct-style aggregates are laid out inline; class-style aggregates are
/// a permission layer of their own and live behind a pointer.
#[derive(Copy, Clone, PartialEq, Eq, Structural, Debug)]
pub enum AggrStyle {
    Struct,
    Class,
}

/// A primitive type. Integer widths run up to 64 bits.
#[derive(Copy, Clone, PartialEq, Eq, Structural, Debug)]
pub enum PrimKind {
    Bool,
    Char,
    Int { bits: u32 },
    Uint { bits: u32 },
    Isize,
    Usize,
    Float { bits: u32 },
}

/// A symbolic type.
pub enum SymTy {
    /// `path[arg1, arg2]`; the arguments must be well-kinded.
    Named(SymTyName, Box<TermList>),
    /// A permission applied to a base type.
    Perm(Box<SymPerm>, Box<SymTy>),
    Var(u32),
    Infer(u32),
    Never,
    Error(Reported),
}

impl SymTy {
    /// The unit type: the zero-arity tuple.
    pub fn unit() -> (r: SymTy)
        ensures
            r == SymTy::Named(SymTyName::Tuple { arity: 0 as u32 }, Box::new(TermList::Nil)),
    {
        SymTy::Named(SymTyName::Tuple { arity: 0 }, Box::new(TermList::Nil))
    }
}

impl FromVar for SymTy {
    fn var(v: &SymVariable) -> Self {
        SymTy::Var(v.id)
    }
}

impl HasKind for SymTy {
    fn has_kind(&self, kind: SymGenericKind) -> (r: bool) {
        match kind {
            SymGenericKind::Type => true,
            _ => false,
        }
    }
}

/// Value of a generic parameter.
pub enum SymGenericTerm {
    Type(SymTy),
    Perm(SymPerm),
    Place(PlaceId),
    Error(Reported),
}

/// A list of generic terms, structurally compared.
pub enum TermList {
    Nil,
    Cons(SymGenericTerm, Box<TermList>),
}

impl TermList {
    pub open spec fn len(&self) -> nat
        decreases *self,
    {
        match self {
            TermList::Nil => 0,
            TermList::Cons(_, rest) => 1 + rest.len(),
        }
    }
}

impl HasKind for SymGenericTerm {
    fn has_kind(&self, kind: SymGenericKind) -> (r: bool)
        ensures
            r == self.has_kind_spec(kind),
    {
        match self {
            SymGenericTerm::Type(_) => matches!(kind, SymGenericKind::Type),
            SymGenericTerm::Perm(_) => matches!(kind, SymGenericKind::Perm),
            SymGenericTerm::Place(_) => matches!(kind, SymGenericKind::Place),
            SymGenericTerm::Error(_) => true,
        }
    }
}

impl SymGenericTerm {
    pub open spec fn has_kind_spec(&self, kind: SymGenericKind) -> bool {
        match self {
            SymGenericTerm::Type(_) => kind == SymGenericKind::Type,
            SymGenericTerm::Perm(_) => kind == SymGenericKind::Perm,
            SymGenericTerm::Place(_) => kind == SymGenericKind::Place,
            SymGenericTerm::Error(_) => true,
        }
    }
}

impl AssertKind<SymTy> for SymGenericTerm {
    /// Downcast to a type. Errors downcast to the poisoned type.
    fn assert_kind(self) -> SymTy {
        match self {
            SymGenericTerm::Type(ty) => ty,
            SymGenericTerm::Error(r) => SymTy::Error(r),
            _ => SymTy::Never,
        }
    }
}

/// Structural copy of a place list.
pub fn copy_places(v: &PlaceList) -> (r: PlaceList)
    ensures
        r == *v,
    decreases *v,
{
    match v {
        PlaceList::Nil => PlaceList::Nil,
        PlaceList::Cons(p, rest) => PlaceList::Cons(*p, Box::new(copy_places(rest))),
    }
}

/// Structural copy of a symbolic permission.
pub fn copy_sym_perm(p: &SymPerm) -> (r: SymPerm)
    ensures
        r == *p,
    decreases *p,
{
    match p {
        SymPerm::My => SymPerm::My,
        SymPerm::Our => SymPerm::Our,
        SymPerm::Referenced(ps) => SymPerm::Referenced(copy_places(ps)),
        SymPerm::Mutable(ps) => SymPerm::Mutable(copy_places(ps)),
        SymPerm::Apply(l, r) => SymPerm::Apply(
            Box::new(copy_sym_perm(l)),
            Box::new(copy_sym_perm(r)),
        ),
        SymPerm::Or(l, r) => SymPerm::Or(Box::new(copy_sym_perm(l)), Box::new(copy_sym_perm(r))),
        SymPerm::Var(v) => SymPerm::Var(*v),
        SymPerm::Infer(v) => SymPerm::Infer(*v),
        SymPerm::Error(e) => SymPerm::Error(*e),
    }
}

/// Structural copy of a symbolic type.
pub fn copy_sym_ty(t: &SymTy) -> (r: SymTy)
    ensures
        r == *t,
    decreases *t,
{
    match t {
        SymTy::Named(name, args) => SymTy::Named(*name, Box::new(copy_terms(args))),
        SymTy::Perm(p, base) => SymTy::Perm(
            Box::new(copy_sym_perm(p)),
            Box::new(copy_sym_ty(base)),
        ),
        SymTy::Var(v) => SymTy::Var(*v),
        SymTy::Infer(v) => SymTy::Infer(*v),
        SymTy::Never => SymTy::Never,
        SymTy::Error(e) => SymTy::Error(*e),
    }
}

/// Structural copy of a generic-term list.
pub fn copy_terms(v: &TermList) -> (r: TermList)
    ensures
        r == *v,
    decreases *v,
{
    match v {
        TermList::Nil => TermList::Nil,
        TermList::Cons(t, rest) => TermList::Cons(copy_term(t), Box::new(copy_terms(rest))),
    }
}

/// Structural copy of one generic term.
pub fn copy_term(t: &SymGenericTerm) -> (r: SymGenericTerm)
    ensures
        r == *t,
    decreases *t,
{
    match t {
        SymGenericTerm::Type(ty) => SymGenericTerm::Type(copy_sym_ty(ty)),
        SymGenericTerm::Perm(p) => SymGenericTerm::Perm(copy_sym_perm(p)),
        SymGenericTerm::Place(p) => SymGenericTerm::Place(*p),
        SymGenericTerm::Error(e) => SymGenericTerm::Error(*e),
    }
}

} // verus!
