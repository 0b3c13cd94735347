//! WebAssembly representations of object types.
//!
//! A type maps to a `WasmRepr`: one WASM value, an inlined struct, a class
//! living in linear memory behind an `i32` pointer, or nothing. The
//! *flattening* of a representation is the sequence of WASM value types
//! obtained by a post-order walk, where a class contributes exactly one
//! `i32` pointer. Small integers are promoted to `i32`.

use vstd::prelude::*;

use crate::Reported;
use crate::objir::ObjTermList;
use crate::objir::ObjectGenericTerm;
use crate::objir::ObjectTy;
use crate::symir::AggrStyle;
use crate::symir::PrimKind;
use crate::symir::SymTyName;

verus! {

/// A WASM value type.
#[derive(Copy, Clone, PartialEq, Eq, Structural, Debug)]
pub enum ValKind {
    I32,
    I64,
    F32,
    F64,
}

/// The WASM representation of a value of some type.
pub enum WasmRepr {
    /// A single WASM value.
    Val(ValKind),
    /// An aggregate inlined field by field.
    Struct(Box<ReprList>),
    /// A class: data in linear memory behind an `i32` flag word; appears
    /// as an `i32` pointer in the ABI.
    Class(Box<ReprList>),
    /// Zero-sized.
    Nothing,
}

pub enum ReprList {
    Nil,
    Cons(WasmRepr, Box<ReprList>),
}

/// The flattening of a representation: a `Val` contributes its value
/// type, a struct the concatenation of its fields, a class one `i32`
/// pointer, nothing nothing.
pub open spec fn flatten_spec(r: WasmRepr) -> Seq<ValKind>
    decreases r,
{
    match r {
        WasmRepr::Val(v) => seq![v],
        WasmRepr::Struct(fields) => flatten_list_spec(*fields),
        WasmRepr::Class(_) => seq![ValKind::I32],
        WasmRepr::Nothing => Seq::empty(),
    }
}

pub open spec fn flatten_list_spec(l: ReprList) -> Seq<ValKind>
    decreases l,
{
    match l {
        ReprList::Nil => Seq::empty(),
        ReprList::Cons(r, rest) => flatten_spec(r) + flatten_list_spec(*rest),
    }
}

/// The number of value leaves of a representation tree, counting a class
/// as the one `i32` pointer it contributes and skipping its inside.
pub open spec fn val_leaf_count(r: WasmRepr) -> nat
    decreases r,
{
    match r {
        WasmRepr::Val(_) => 1,
        WasmRepr::Struct(fields) => val_leaf_count_list(*fields),
        WasmRepr::Class(_) => 1,
        WasmRepr::Nothing => 0,
    }
}

pub open spec fn val_leaf_count_list(l: ReprList) -> nat
    decreases l,
{
    match l {
        ReprList::Nil => 0,
        ReprList::Cons(r, rest) => val_leaf_count(r) + val_leaf_count_list(*rest),
    }
}

/// The flattening has exactly one value type per value leaf; a class
/// contributes one `i32` pointer.
pub proof fn lemma_flatten_len_is_leaf_count(r: WasmRepr)
    ensures
        flatten_spec(r).len() == val_leaf_count(r),
    decreases r,
{
    match r {
        WasmRepr::Struct(fields) => {
            lemma_flatten_list_len(*fields);
        },
        _ => {},
    }
}

pub proof fn lemma_flatten_list_len(l: ReprList)
    ensures
        flatten_list_spec(l).len() == val_leaf_count_list(l),
    decreases l,
{
    match l {
        ReprList::Nil => {},
        ReprList::Cons(r, rest) => {
            lemma_flatten_len_is_leaf_count(r);
            lemma_flatten_list_len(*rest);
        },
    }
}

impl WasmRepr {
    /// Flatten the representation into the value types it pushes.
    pub fn flatten(&self) -> (r: Vec<ValKind>)
        ensures
            r@ == flatten_spec(*self),
    {
        let mut out: Vec<ValKind> = Vec::new();
        flatten_into(self, &mut out);
        proof {
            assert(Seq::<ValKind>::empty() + flatten_spec(*self) =~= flatten_spec(*self));
        }
        out
    }
}

fn flatten_into(r: &WasmRepr, out: &mut Vec<ValKind>)
    ensures
        final(out)@ == old(out)@ + flatten_spec(*r),
    decreases *r,
{
    match r {
        WasmRepr::Val(v) => {
            out.push(*v);
            assert(final(out)@ =~= old(out)@ + flatten_spec(*r));
        },
        WasmRepr::Struct(fields) => {
            flatten_list_into(fields, out);
        },
        WasmRepr::Class(_) => {
            out.push(ValKind::I32);
            assert(final(out)@ =~= old(out)@ + flatten_spec(*r));
        },
        WasmRepr::Nothing => {
            assert(final(out)@ =~= old(out)@ + flatten_spec(*r));
        },
    }
}

fn flatten_list_into(l: &ReprList, out: &mut Vec<ValKind>)
    ensures
        final(out)@ == old(out)@ + flatten_list_spec(*l),
    decreases *l,
{
    match l {
        ReprList::Nil => {
            assert(final(out)@ =~= old(out)@ + flatten_list_spec(*l));
        },
        ReprList::Cons(r, rest) => {
            flatten_into(r, out);
            flatten_list_into(rest, out);
            assert(final(out)@ =~= old(out)@ + flatten_list_spec(*l));
        },
    }
}

/// A primitive fits the WASM value model: integers up to 64 bits, floats
/// up to 64 bits.
pub open spec fn prim_wf(k: PrimKind) -> bool {
    match k {
        PrimKind::Int { bits } => bits <= 64,
        PrimKind::Uint { bits } => bits <= 64,
        PrimKind::Float { bits } => bits <= 64,
        _ => true,
    }
}

/// The WASM value type of a primitive: small integers promote to `i32`,
/// sizes are pointer-width `i32`, floats of at most 32 bits are `f32` and
/// wider ones `f64`.
pub open spec fn valtype_for_primitive(k: PrimKind) -> ValKind {
    match k {
        PrimKind::Bool => ValKind::I32,
        PrimKind::Char => ValKind::I32,
        PrimKind::Int { bits } => if bits <= 32 {
            ValKind::I32
        } else {
            ValKind::I64
        },
        PrimKind::Uint { bits } => if bits <= 32 {
            ValKind::I32
        } else {
            ValKind::I64
        },
        PrimKind::Usize | PrimKind::Isize => ValKind::I32,
        PrimKind::Float { bits } => if bits <= 32 {
            ValKind::F32
        } else {
            ValKind::F64
        },
    }
}

/// The WASM value type of a well-formed primitive.
pub fn wasm_valtype_for_primitive_kind(k: PrimKind) -> (r: ValKind)
    requires
        prim_wf(k),
    ensures
        r == valtype_for_primitive(k),
{
    match k {
        PrimKind::Bool => ValKind::I32,
        PrimKind::Char => ValKind::I32,
        PrimKind::Int { bits } => if bits <= 32 {
            ValKind::I32
        } else {
            ValKind::I64
        },
        PrimKind::Uint { bits } => if bits <= 32 {
            ValKind::I32
        } else {
            ValKind::I64
        },
        PrimKind::Usize | PrimKind::Isize => ValKind::I32,
        PrimKind::Float { bits } => if bits <= 32 {
            ValKind::F32
        } else {
            ValKind::F64
        },
    }
}

/// The `ValType` of a pointer: 32-bit WASM.
pub fn pointer_val_type() -> (r: ValKind)
    ensures
        r == ValKind::I32,
{
    ValKind::I32
}

/// One aggregate definition: its style and the types of its fields, over
/// the aggregate's own generic variables.
pub struct AggrDef {
    pub style: AggrStyle,
    pub fields: ObjTyList,
}

pub enum ObjTyList {
    Nil,
    Cons(ObjectTy, Box<ObjTyList>),
}

/// The table of aggregate definitions, by aggregate handle.
pub struct AggrTable {
    pub aggrs: Vec<AggrDef>,
}

/// The `i`th term of a generics list; absent terms are errors.
pub open spec fn spec_term_nth(l: ObjTermList, i: int, invalid: Reported) -> ObjectGenericTerm
    decreases l,
{
    match l {
        ObjTermList::Nil => ObjectGenericTerm::Error(invalid),
        ObjTermList::Cons(t, rest) => if i <= 0 {
            t
        } else {
            spec_term_nth(*rest, i - 1, invalid)
        },
    }
}

pub fn term_nth(l: &ObjTermList, i: u32, invalid: Reported) -> (r: ObjectGenericTerm)
    ensures
        r == spec_term_nth(*l, i as int, invalid),
    decreases *l,
{
    match l {
        ObjTermList::Nil => ObjectGenericTerm::Error(invalid),
        ObjTermList::Cons(t, rest) => if i == 0 {
            copy_obj_term(t)
        } else {
            term_nth(rest, i - 1, invalid)
        },
    }
}

/// Structural copy of an object type.
pub fn copy_obj_ty(t: &ObjectTy) -> (r: ObjectTy)
    ensures
        r == *t,
    decreases *t,
{
    match t {
        ObjectTy::Named(name, args) => ObjectTy::Named(*name, Box::new(copy_obj_terms(args))),
        ObjectTy::Var(v) => ObjectTy::Var(*v),
        ObjectTy::Infer(v) => ObjectTy::Infer(*v),
        ObjectTy::Never => ObjectTy::Never,
        ObjectTy::Error(e) => ObjectTy::Error(*e),
    }
}

pub fn copy_obj_terms(l: &ObjTermList) -> (r: ObjTermList)
    ensures
        r == *l,
    decreases *l,
{
    match l {
        ObjTermList::Nil => ObjTermList::Nil,
        ObjTermList::Cons(t, rest) => ObjTermList::Cons(
            copy_obj_term(t),
            Box::new(copy_obj_terms(rest)),
        ),
    }
}

pub fn copy_obj_term(t: &ObjectGenericTerm) -> (r: ObjectGenericTerm)
    ensures
        r == *t,
    decreases *t,
{
    match t {
        ObjectGenericTerm::Type(ty) => ObjectGenericTerm::Type(copy_obj_ty(ty)),
        ObjectGenericTerm::Perm => ObjectGenericTerm::Perm,
        ObjectGenericTerm::Place => ObjectGenericTerm::Place,
        ObjectGenericTerm::Error(e) => ObjectGenericTerm::Error(*e),
    }
}

/// Substitute generic arguments into a type: each variable is replaced by
/// the corresponding argument, which must be a type.
pub open spec fn spec_subst_ty(t: ObjectTy, args: ObjTermList, invalid: Reported) -> ObjectTy
    decreases t,
{
    match t {
        ObjectTy::Var(v) => spec_term_nth(args, v as int, invalid).assert_type_spec(),
        ObjectTy::Named(name, gs) => ObjectTy::Named(
            name,
            Box::new(spec_subst_terms(*gs, args, invalid)),
        ),
        ObjectTy::Infer(v) => ObjectTy::Infer(v),
        ObjectTy::Never => ObjectTy::Never,
        ObjectTy::Error(e) => ObjectTy::Error(e),
    }
}

pub open spec fn spec_subst_terms(l: ObjTermList, args: ObjTermList, invalid: Reported) -> ObjTermList
    decreases l,
{
    match l {
        ObjTermList::Nil => ObjTermList::Nil,
        ObjTermList::Cons(t, rest) => ObjTermList::Cons(
            match t {
                ObjectGenericTerm::Type(ty) => ObjectGenericTerm::Type(
                    spec_subst_ty(ty, args, invalid),
                ),
                other => other,
            },
            Box::new(spec_subst_terms(*rest, args, invalid)),
        ),
    }
}

pub fn subst_ty(t: &ObjectTy, args: &ObjTermList, invalid: Reported) -> (r: ObjectTy)
    ensures
        r == spec_subst_ty(*t, *args, invalid),
    decreases *t,
{
    match t {
        ObjectTy::Var(v) => {
            let term = term_nth(args, *v, invalid);
            match term {
                ObjectGenericTerm::Type(ty) => ty,
                ObjectGenericTerm::Error(r) => ObjectTy::Error(r),
                _ => ObjectTy::Never,
            }
        },
        ObjectTy::Named(name, gs) => ObjectTy::Named(*name, Box::new(subst_terms(gs, args, invalid))),
        ObjectTy::Infer(v) => ObjectTy::Infer(*v),
        ObjectTy::Never => ObjectTy::Never,
        ObjectTy::Error(e) => ObjectTy::Error(*e),
    }
}

fn subst_terms(l: &ObjTermList, args: &ObjTermList, invalid: Reported) -> (r: ObjTermList)
    ensures
        r == spec_subst_terms(*l, *args, invalid),
    decreases *l,
{
    match l {
        ObjTermList::Nil => ObjTermList::Nil,
        ObjTermList::Cons(t, rest) => {
            let head = match t {
                ObjectGenericTerm::Type(ty) => ObjectGenericTerm::Type(subst_ty(ty, args, invalid)),
                other => copy_obj_term(other),
            };
            ObjTermList::Cons(head, Box::new(subst_terms(rest, args, invalid)))
        },
    }
}

/// The representation of an object type, within a recursion budget that
/// guards against cyclic aggregate definitions.
pub open spec fn spec_wasm_repr_of_type(
    aggrs: &AggrTable,
    generics: ObjTermList,
    ty: ObjectTy,
    fuel: u32,
    invalid: Reported,
) -> Result<WasmRepr, Reported>
    decreases fuel,
{
    if fuel == 0 {
        Err(invalid)
    } else {
        match ty {
            ObjectTy::Never => Ok(WasmRepr::Nothing),
            ObjectTy::Error(_) => Ok(WasmRepr::Nothing),
            ObjectTy::Infer(_) => Err(invalid),
            ObjectTy::Var(v) => {
                let term = spec_term_nth(generics, v as int, invalid);
                match term {
                    ObjectGenericTerm::Type(t) => spec_wasm_repr_of_type(
                        aggrs,
                        generics,
                        t,
                        (fuel - 1) as u32,
                        invalid,
                    ),
                    _ => Err(invalid),
                }
            },
            ObjectTy::Named(name, args) => match name {
                SymTyName::Primitive(k) => if prim_wf(k) {
                    Ok(WasmRepr::Val(valtype_for_primitive(k)))
                } else {
                    Err(invalid)
                },
                SymTyName::Tuple { arity } => {
                    if args.len() == arity {
                        match spec_reprs_of_terms(aggrs, generics, *args, (fuel - 1) as u32, invalid) {
                            Ok(rs) => Ok(WasmRepr::Struct(Box::new(rs))),
                            Err(e) => Err(e),
                        }
                    } else {
                        Err(invalid)
                    }
                },
                SymTyName::Future => {
                    if args.len() == 1 {
                        match spec_reprs_of_terms(aggrs, generics, *args, (fuel - 1) as u32, invalid) {
                            Ok(rs) => Ok(WasmRepr::Class(Box::new(rs))),
                            Err(e) => Err(e),
                        }
                    } else {
                        Err(invalid)
                    }
                },
                SymTyName::Aggregate { id, style } => {
                    if id < aggrs.aggrs@.len() {
                        let def = aggrs.aggrs@[id as int];
                        match spec_reprs_of_fields(
                            aggrs,
                            def.fields,
                            *args,
                            (fuel - 1) as u32,
                            invalid,
                        ) {
                            Ok(rs) => match style {
                                AggrStyle::Struct => Ok(WasmRepr::Struct(Box::new(rs))),
                                AggrStyle::Class => Ok(WasmRepr::Class(Box::new(rs))),
                            },
                            Err(e) => Err(e),
                        }
                    } else {
                        Err(invalid)
                    }
                },
            },
        }
    }
}

/// The representations of a list of type-valued generic terms.
pub open spec fn spec_reprs_of_terms(
    aggrs: &AggrTable,
    generics: ObjTermList,
    terms: ObjTermList,
    fuel: u32,
    invalid: Reported,
) -> Result<ReprList, Reported>
    decreases fuel,
{
    if fuel == 0 {
        Err(invalid)
    } else {
        match terms {
            ObjTermList::Nil => Ok(ReprList::Nil),
            ObjTermList::Cons(t, rest) => {
                let head = match t {
                    ObjectGenericTerm::Type(ty) => spec_wasm_repr_of_type(
                        aggrs,
                        generics,
                        ty,
                        (fuel - 1) as u32,
                        invalid,
                    ),
                    ObjectGenericTerm::Error(_) => Ok(WasmRepr::Nothing),
                    _ => Err(invalid),
                };
                match head {
                    Err(e) => Err(e),
                    Ok(h) => match spec_reprs_of_terms(
                        aggrs,
                        generics,
                        *rest,
                        (fuel - 1) as u32,
                        invalid,
                    ) {
                        Err(e) => Err(e),
                        Ok(tl) => Ok(ReprList::Cons(h, Box::new(tl))),
                    },
                }
            },
        }
    }
}

/// The representations of an aggregate's fields, with the aggregate's
/// generic arguments substituted in.
pub open spec fn spec_reprs_of_fields(
    aggrs: &AggrTable,
    fields: ObjTyList,
    args: ObjTermList,
    fuel: u32,
    invalid: Reported,
) -> Result<ReprList, Reported>
    decreases fuel,
{
    if fuel == 0 {
        Err(invalid)
    } else {
        match fields {
            ObjTyList::Nil => Ok(ReprList::Nil),
            ObjTyList::Cons(f, rest) => {
                let fty = spec_subst_ty(f, args, invalid);
                match spec_wasm_repr_of_type(aggrs, args, fty, (fuel - 1) as u32, invalid) {
                    Err(e) => Err(e),
                    Ok(h) => match spec_reprs_of_fields(
                        aggrs,
                        *rest,
                        args,
                        (fuel - 1) as u32,
                        invalid,
                    ) {
                        Err(e) => Err(e),
                        Ok(tl) => Ok(ReprList::Cons(h, Box::new(tl))),
                    },
                }
            },
        }
    }
}

/// Compute the representation that describes how a value of `ty` appears
/// in WASM.
pub fn wasm_repr_of_type(
    aggrs: &AggrTable,
    generics: &ObjTermList,
    ty: &ObjectTy,
    fuel: u32,
    invalid: Reported,
) -> (r: Result<WasmRepr, Reported>)
    ensures
        r == spec_wasm_repr_of_type(aggrs, *generics, *ty, fuel, invalid),
    decreases fuel,
{
    if fuel == 0 {
        Err(invalid)
    } else {
        match ty {
            ObjectTy::Never => Ok(WasmRepr::Nothing),
            ObjectTy::Error(_) => Ok(WasmRepr::Nothing),
            ObjectTy::Infer(_) => Err(invalid),
            ObjectTy::Var(v) => {
                let term = term_nth(generics, *v, invalid);
                match term {
                    ObjectGenericTerm::Type(t) => wasm_repr_of_type(
                        aggrs,
                        generics,
                        &t,
                        fuel - 1,
                        invalid,
                    ),
                    _ => Err(invalid),
                }
            },
            ObjectTy::Named(name, args) => match name {
                SymTyName::Primitive(k) => {
                    let wf = match k {
                        PrimKind::Int { bits } => *bits <= 64,
                        PrimKind::Uint { bits } => *bits <= 64,
                        PrimKind::Float { bits } => *bits <= 64,
                        _ => true,
                    };
                    if wf {
                        Ok(WasmRepr::Val(wasm_valtype_for_primitive_kind(*k)))
                    } else {
                        Err(invalid)
                    }
                },
                SymTyName::Tuple { arity } => {
                    if terms_len_is(args, *arity) {
                        match reprs_of_terms(aggrs, generics, args, fuel - 1, invalid) {
                            Ok(rs) => Ok(WasmRepr::Struct(Box::new(rs))),
                            Err(e) => Err(e),
                        }
                    } else {
                        Err(invalid)
                    }
                },
                SymTyName::Future => {
                    if terms_len_is(args, 1) {
                        match reprs_of_terms(aggrs, generics, args, fuel - 1, invalid) {
                            Ok(rs) => Ok(WasmRepr::Class(Box::new(rs))),
                            Err(e) => Err(e),
                        }
                    } else {
                        Err(invalid)
                    }
                },
                SymTyName::Aggregate { id, style } => {
                    if (*id as usize) < aggrs.aggrs.len() {
                        let def = &aggrs.aggrs[*id as usize];
                        match reprs_of_fields(aggrs, &def.fields, args, fuel - 1, invalid) {
                            Ok(rs) => match style {
                                AggrStyle::Struct => Ok(WasmRepr::Struct(Box::new(rs))),
                                AggrStyle::Class => Ok(WasmRepr::Class(Box::new(rs))),
                            },
                            Err(e) => Err(e),
                        }
                    } else {
                        Err(invalid)
                    }
                },
            },
        }
    }
}

/// Whether a term list has exactly `n` elements.
pub fn terms_len_is(l: &ObjTermList, n: u32) -> (r: bool)
    ensures
        r == (l.len() == n),
    decreases *l,
{
    match l {
        ObjTermList::Nil => n == 0,
        ObjTermList::Cons(_, rest) => n > 0 && terms_len_is(rest, n - 1),
    }
}

fn reprs_of_terms(
    aggrs: &AggrTable,
    generics: &ObjTermList,
    terms: &ObjTermList,
    fuel: u32,
    invalid: Reported,
) -> (r: Result<ReprList, Reported>)
    ensures
        r == spec_reprs_of_terms(aggrs, *generics, *terms, fuel, invalid),
    decreases fuel,
{
    if fuel == 0 {
        Err(invalid)
    } else {
        match terms {
            ObjTermList::Nil => Ok(ReprList::Nil),
            ObjTermList::Cons(t, rest) => {
                let head = match t {
                    ObjectGenericTerm::Type(ty) => wasm_repr_of_type(
                        aggrs,
                        generics,
                        ty,
                        fuel - 1,
                        invalid,
                    ),
                    ObjectGenericTerm::Error(_) => Ok(WasmRepr::Nothing),
                    _ => Err(invalid),
                };
                match head {
                    Err(e) => Err(e),
                    Ok(h) => match reprs_of_terms(aggrs, generics, rest, fuel - 1, invalid) {
                        Err(e) => Err(e),
                        Ok(tl) => Ok(ReprList::Cons(h, Box::new(tl))),
                    },
                }
            },
        }
    }
}

fn reprs_of_fields(
    aggrs: &AggrTable,
    fields: &ObjTyList,
    args: &ObjTermList,
    fuel: u32,
    invalid: Reported,
) -> (r: Result<ReprList, Reported>)
    ensures
        r == spec_reprs_of_fields(aggrs, *fields, *args, fuel, invalid),
    decreases fuel,
{
    if fuel == 0 {
        Err(invalid)
    } else {
        match fields {
            ObjTyList::Nil => Ok(ReprList::Nil),
            ObjTyList::Cons(f, rest) => {
                let fty = subst_ty(f, args, invalid);
                match wasm_repr_of_type(aggrs, args, &fty, fuel - 1, invalid) {
                    Err(e) => Err(e),
                    Ok(h) => match reprs_of_fields(aggrs, rest, args, fuel - 1, invalid) {
                        Err(e) => Err(e),
                        Ok(tl) => Ok(ReprList::Cons(h, Box::new(tl))),
                    },
                }
            },
        }
    }
}

} // verus!
