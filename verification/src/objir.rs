//! The object IR: the typed, permission-erased IR that the backend lowers
//! to WebAssembly. Each node carries an `ObjectTy`; permissions have been
//! erased because the layout is permission-independent.

use vstd::prelude::*;

use crate::Reported;
use crate::symir::PrimKind;
use crate::symir::SymTy;
use crate::symir::SymTyName;
use crate::symir::SymGenericTerm;
use crate::symir::TermList;

verus! {

/// A type as the backend sees it: the underlying object, without
/// permissions.
pub enum ObjectTy {
    /// `path[arg1, arg2]`; the generic arguments must be well-kinded.
    Named(SymTyName, Box<ObjTermList>),
    /// A generic variable.
    Var(u32),
    /// An inference variable that survived; the backend refuses it.
    Infer(u32),
    /// The empty type.
    Never,
    /// An error was already reported; lowers to dead code.
    Error(Reported),
}

/// Value of a generic parameter in the object IR.
pub enum ObjectGenericTerm {
    Type(ObjectTy),
    Perm,
    Place,
    Error(Reported),
}

/// A list of object generic terms, structurally compared.
pub enum ObjTermList {
    Nil,
    Cons(ObjectGenericTerm, Box<ObjTermList>),
}

impl ObjTermList {
    pub open spec fn len(&self) -> nat
        decreases *self,
    {
        match self {
            ObjTermList::Nil => 0,
            ObjTermList::Cons(_, rest) => 1 + rest.len(),
        }
    }
}

impl ObjectTy {
    /// The unit type: the zero-arity tuple.
    pub fn unit() -> (r: ObjectTy)
        ensures
            r == ObjectTy::Named(
                SymTyName::Tuple { arity: 0 as u32 },
                Box::new(ObjTermList::Nil),
            ),
    {
        ObjectTy::Named(SymTyName::Tuple { arity: 0 }, Box::new(ObjTermList::Nil))
    }

    /// The poisoned type.
    pub fn error(reported: Reported) -> (r: ObjectTy)
        ensures
            r == ObjectTy::Error(reported),
    {
        ObjectTy::Error(reported)
    }

    /// Sharing does not change the underlying object type.
    pub fn shared(self) -> (r: ObjectTy)
        ensures
            r == self,
    {
        self
    }
}

impl ObjectGenericTerm {
    pub open spec fn assert_type_spec(self) -> ObjectTy {
        match self {
            ObjectGenericTerm::Type(ty) => ty,
            ObjectGenericTerm::Error(r) => ObjectTy::Error(r),
            _ => ObjectTy::Never,
        }
    }

    /// Downcast to a type; the term must not be a permission or a place.
    pub fn assert_type(self) -> (r: ObjectTy)
        requires
            !(self is Perm),
            !(self is Place),
        ensures
            r == self.assert_type_spec(),
    {
        match self {
            ObjectGenericTerm::Type(ty) => ty,
            ObjectGenericTerm::Error(r) => ObjectTy::Error(r),
            _ => ObjectTy::Never,
        }
    }
}

/// Erase permissions from a symbolic type, producing the backend's view.
pub fn into_object_ir(ty: &SymTy) -> (r: ObjectTy)
    ensures
        r == spec_into_object_ir(*ty),
    decreases *ty,
{
    match ty {
        SymTy::Perm(_, base) => into_object_ir(base),
        SymTy::Named(name, args) => ObjectTy::Named(*name, Box::new(terms_into_object_ir(args))),
        SymTy::Var(v) => ObjectTy::Var(*v),
        SymTy::Infer(v) => ObjectTy::Infer(*v),
        SymTy::Never => ObjectTy::Never,
        SymTy::Error(e) => ObjectTy::Error(*e),
    }
}

pub open spec fn spec_into_object_ir(ty: SymTy) -> ObjectTy
    decreases ty,
{
    match ty {
        SymTy::Perm(_, base) => spec_into_object_ir(*base),
        SymTy::Named(name, args) => ObjectTy::Named(name, Box::new(spec_terms_into_object_ir(*args))),
        SymTy::Var(v) => ObjectTy::Var(v),
        SymTy::Infer(v) => ObjectTy::Infer(v),
        SymTy::Never => ObjectTy::Never,
        SymTy::Error(e) => ObjectTy::Error(e),
    }
}

pub open spec fn spec_terms_into_object_ir(terms: TermList) -> ObjTermList
    decreases terms,
{
    match terms {
        TermList::Nil => ObjTermList::Nil,
        TermList::Cons(t, rest) => ObjTermList::Cons(
            spec_term_into_object_ir(t),
            Box::new(spec_terms_into_object_ir(*rest)),
        ),
    }
}

pub open spec fn spec_term_into_object_ir(term: SymGenericTerm) -> ObjectGenericTerm
    decreases term,
{
    match term {
        SymGenericTerm::Type(t) => ObjectGenericTerm::Type(spec_into_object_ir(t)),
        SymGenericTerm::Perm(_) => ObjectGenericTerm::Perm,
        SymGenericTerm::Place(_) => ObjectGenericTerm::Place,
        SymGenericTerm::Error(e) => ObjectGenericTerm::Error(e),
    }
}

pub fn terms_into_object_ir(terms: &TermList) -> (r: ObjTermList)
    ensures
        r == spec_terms_into_object_ir(*terms),
    decreases *terms,
{
    match terms {
        TermList::Nil => ObjTermList::Nil,
        TermList::Cons(t, rest) => ObjTermList::Cons(
            term_into_object_ir(t),
            Box::new(terms_into_object_ir(rest)),
        ),
    }
}

pub fn term_into_object_ir(term: &SymGenericTerm) -> (r: ObjectGenericTerm)
    ensures
        r == spec_term_into_object_ir(*term),
    decreases *term,
{
    match term {
        SymGenericTerm::Type(t) => ObjectGenericTerm::Type(into_object_ir(t)),
        SymGenericTerm::Perm(_) => ObjectGenericTerm::Perm,
        SymGenericTerm::Place(_) => ObjectGenericTerm::Place,
        SymGenericTerm::Error(e) => ObjectGenericTerm::Error(*e),
    }
}

/// A permission operation in the surface language.
#[derive(Copy, Clone, PartialEq, Eq, Structural, Debug)]
pub enum PermissionOp {
    Lease,
    Share,
    Give,
}

/// A binary operator of the object IR.
#[derive(Copy, Clone, PartialEq, Eq, Structural, Debug)]
pub enum ObjectBinaryOp {
    Add,
    Sub,
    Mul,
    Div,
    GreaterThan,
    LessThan,
    GreaterEqual,
    LessEqual,
    EqualEqual,
}

/// A primitive literal. A decimal literal carries its bit pattern at both
/// widths; the front end computes the patterns.
#[derive(Copy, Clone, PartialEq, Eq, Structural, Debug)]
pub enum PrimitiveLiteral {
    Integral { bits: u64 },
    Float { bits32: u32, bits64: u64 },
}

/// A place expression of the object IR: a local variable, or poison.
pub enum ObjPlaceKind {
    Var(u32),
    Error(Reported),
}

pub struct ObjectPlaceExpr {
    pub ty: ObjectTy,
    pub kind: ObjPlaceKind,
}

impl ObjectPlaceExpr {
    /// The generic term standing for this place.
    pub fn to_object_place(&self) -> (r: ObjectGenericTerm)
        ensures
            r == ObjectGenericTerm::Place,
    {
        ObjectGenericTerm::Place
    }
}

/// A typed expression of the object IR.
pub struct ObjectExpr {
    pub ty: ObjectTy,
    pub kind: Box<ObjectExprKind>,
}

/// A list of expressions, structurally compared.
pub enum ObjExprList {
    Nil,
    Cons(ObjectExpr, Box<ObjExprList>),
}

impl ObjExprList {
    pub open spec fn len(&self) -> nat
        decreases *self,
    {
        match self {
            ObjExprList::Nil => 0,
            ObjExprList::Cons(_, rest) => 1 + rest.len(),
        }
    }
}

/// A list of argument temporaries.
pub enum VarList {
    Nil,
    Cons(u32, Box<VarList>),
}

/// One arm of a `match`; the last arm of a lowered `match` may have no
/// condition.
pub struct MatchArm {
    pub condition: Option<ObjectExpr>,
    pub body: ObjectExpr,
}

pub enum MatchArmList {
    Nil,
    Cons(MatchArm, Box<MatchArmList>),
}

pub enum ObjectExprKind {
    /// `$expr1; $expr2`
    Semi(ObjectExpr, ObjectExpr),
    /// `(...)`: fields inlined onto the stack.
    Tuple(ObjExprList),
    /// A literal.
    Primitive(PrimitiveLiteral),
    /// `let $lv: $ty [= $initializer] in $body`
    LetIn { lv: u32, ty: ObjectTy, initializer: Option<ObjectExpr>, body: ObjectExpr },
    /// `$place = $expr`
    Assign { place: ObjectPlaceExpr, value: ObjectExpr },
    /// `$place.lease`, `$place.share`, `$place.give`
    PermissionOp(PermissionOp, ObjectPlaceExpr),
    /// A call of a declared, monomorphized function by index, with the
    /// argument temporaries to push.
    Call { function: u32, arg_temps: VarList },
    /// `return $expr`
    Return(ObjectExpr),
    /// `!$expr`
    Not(ObjectExpr),
    /// `$lhs op $rhs`
    BinaryOp(ObjectBinaryOp, ObjectExpr, ObjectExpr),
    /// Construction of a struct or class aggregate.
    Aggregate { ty: ObjectTy, fields: ObjExprList },
    /// A lowered `match`: a cascade of conditional arms.
    Match { arms: MatchArmList },
    /// Awaiting a future; erased in the current backend.
    Await(ObjectExpr),
    /// An error was already reported.
    Error(Reported),
}

} // verus!
