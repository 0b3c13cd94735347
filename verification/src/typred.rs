//! Predicates over symbolic terms, and the lowering of symbolic types and
//! permissions to their red form.
//!
//! Provability over a type factors it as a permission applied to a red
//! type. Struct-style aggregates are laid out inline, so the predicate
//! quantifies over their generic arguments with the outer permission
//! applied: existentially for `Unique`/`Lent`, universally for
//! `Shared`/`Owned`. Class-style aggregates (and `Future`) are a
//! permission layer of their own: the outer permission must satisfy the
//! predicate, and the class-internal view of the generics uses `my`.
//!
//! The decision procedures carry a recursion budget: the type of a place
//! is looked up in a table and may mention further places, and the budget
//! reports through a diagnostic instead of chasing a cyclic typing.

use vstd::prelude::*;

use crate::Predicate;
use crate::Reported;
use crate::red::DeclEnv;
use crate::red::RedTy;
use crate::symir::PrimKind;
use crate::infer::InferStore;
use crate::infer::flag_of;
use crate::infer::spec_perm_infer_known;
use crate::infer::test_perm_infer_is_known_to_be;
use crate::red::Live;
use crate::red::RedChain;
use crate::red::RedLink;
use crate::red::RedPerm;
use crate::symir::PlaceList;
use crate::symir::SymGenericTerm;
use crate::symir::SymPerm;
use crate::symir::SymTy;
use crate::symir::SymTyName;
use crate::symir::AggrStyle;
use crate::symir::TermList;
use crate::symir::copy_sym_perm;
use crate::symir::copy_terms;

verus! {

/// The types of interned places, by place handle. A place outside the
/// table has no known type.
pub struct PlaceTys {
    pub tys: Vec<SymTy>,
}

/// How a predicate distributes over a permission composition `lhs rhs`:
/// sharedness and lentness of either side suffice; uniqueness and
/// ownedness need both.
pub open spec fn pred_is_existential(p: Predicate) -> bool {
    match p {
        Predicate::Shared | Predicate::Lent => true,
        Predicate::Unique | Predicate::Owned => false,
    }
}

/// Apply a permission to a generic term.
pub open spec fn spec_apply_to(perm: SymPerm, term: SymGenericTerm) -> SymGenericTerm {
    match term {
        SymGenericTerm::Type(t) => SymGenericTerm::Type(
            SymTy::Perm(Box::new(perm), Box::new(t)),
        ),
        SymGenericTerm::Perm(q) => SymGenericTerm::Perm(
            SymPerm::Apply(Box::new(perm), Box::new(q)),
        ),
        SymGenericTerm::Place(p) => SymGenericTerm::Place(p),
        SymGenericTerm::Error(e) => SymGenericTerm::Error(e),
    }
}

impl SymPerm {
    /// Apply this permission to a generic term.
    pub fn apply_to(&self, term: SymGenericTerm) -> (r: SymGenericTerm)
        ensures
            r == spec_apply_to(*self, term),
    {
        let p = copy_sym_perm(self);
        match term {
            SymGenericTerm::Type(t) => SymGenericTerm::Type(SymTy::Perm(Box::new(p), Box::new(t))),
            SymGenericTerm::Perm(q) => SymGenericTerm::Perm(
                SymPerm::Apply(Box::new(p), Box::new(q)),
            ),
            SymGenericTerm::Place(pl) => SymGenericTerm::Place(pl),
            SymGenericTerm::Error(e) => SymGenericTerm::Error(e),
        }
    }
}

/// What an inference variable is known to provably be, by its recorded
/// flags.
pub open spec fn spec_infer_flag(store: &InferStore, v: u32, predicate: Predicate) -> bool {
    v < store.vars@.len() && flag_of(store.vars@[v as int].known_is, predicate)
}

fn infer_flag(store: &InferStore, v: u32, predicate: Predicate) -> (r: bool)
    ensures
        r == spec_infer_flag(store, v, predicate),
{
    if (v as usize) < store.vars.len() {
        let f = store.vars[v as usize].known_is;
        match predicate {
            Predicate::Shared => f.shared,
            Predicate::Unique => f.unique,
            Predicate::Owned => f.owned,
            Predicate::Lent => f.lent,
        }
    } else {
        false
    }
}

/// Whether a term provably satisfies the predicate, within the recursion
/// budget.
pub open spec fn spec_term_is(
    env: &DeclEnv,
    store: &InferStore,
    tys: &PlaceTys,
    term: SymGenericTerm,
    predicate: Predicate,
    fuel: u32,
    exhausted: Reported,
) -> Result<bool, Reported>
    decreases fuel,
{
    if fuel == 0 {
        Err(exhausted)
    } else {
        match term {
            SymGenericTerm::Type(t) => spec_ty_is(
                env,
                store,
                tys,
                t,
                predicate,
                (fuel - 1) as u32,
                exhausted,
            ),
            SymGenericTerm::Perm(p) => spec_perm_is(
                env,
                store,
                tys,
                p,
                predicate,
                (fuel - 1) as u32,
                exhausted,
            ),
            SymGenericTerm::Place(_) => Ok(false),
            SymGenericTerm::Error(e) => Err(e),
        }
    }
}

/// Factor the type as a permission over a red type and decide there.
pub open spec fn spec_ty_is(
    env: &DeclEnv,
    store: &InferStore,
    tys: &PlaceTys,
    ty: SymTy,
    predicate: Predicate,
    fuel: u32,
    exhausted: Reported,
) -> Result<bool, Reported>
    decreases fuel,
{
    if fuel == 0 {
        Err(exhausted)
    } else {
        match ty {
            SymTy::Error(e) => Err(e),
            SymTy::Never => Ok(pred_never_holds(predicate)),
            SymTy::Infer(v) => Ok(spec_infer_flag(store, v, predicate)),
            SymTy::Var(v) => Ok(env.declared(v, predicate)),
            SymTy::Perm(p, base) => {
                let pr = spec_perm_is(env, store, tys, *p, predicate, (fuel - 1) as u32, exhausted);
                let tr = spec_ty_is(env, store, tys, *base, predicate, (fuel - 1) as u32, exhausted);
                spec_combine(predicate, pr, tr)
            },
            SymTy::Named(name, args) => match style_of(name) {
                AggrStyle::Struct => spec_terms_are(
                    env,
                    store,
                    tys,
                    *args,
                    predicate,
                    (fuel - 1) as u32,
                    exhausted,
                ),
                AggrStyle::Class => {
                    // the class is its own permission layer; a bare class
                    // type is `my`, which satisfies exactly the owned and
                    // unique predicates
                    Ok(predicate == Predicate::Unique || predicate == Predicate::Owned)
                },
            },
        }
    }
}

/// The style of a named type: primitives and tuples are laid out inline
/// like structs; futures live behind a pointer like classes.
pub open spec fn style_of(name: SymTyName) -> AggrStyle {
    match name {
        SymTyName::Primitive(_) => AggrStyle::Struct,
        SymTyName::Tuple { .. } => AggrStyle::Struct,
        SymTyName::Future => AggrStyle::Class,
        SymTyName::Aggregate { id: _, style } => style,
    }
}

fn style_of_exec(name: SymTyName) -> (r: AggrStyle)
    ensures
        r == style_of(name),
{
    match name {
        SymTyName::Primitive(_) => AggrStyle::Struct,
        SymTyName::Tuple { .. } => AggrStyle::Struct,
        SymTyName::Future => AggrStyle::Class,
        SymTyName::Aggregate { id: _, style } => style,
    }
}

/// Which predicates the empty type satisfies: it is a value type that is
/// never reached, owned and unique vacuously.
pub open spec fn pred_never_holds(p: Predicate) -> bool {
    match p {
        Predicate::Unique | Predicate::Owned => true,
        Predicate::Shared | Predicate::Lent => false,
    }
}

/// Combine the two sides of a permission application.
pub open spec fn spec_combine(
    predicate: Predicate,
    a: Result<bool, Reported>,
    b: Result<bool, Reported>,
) -> Result<bool, Reported> {
    match a {
        Err(e) => Err(e),
        Ok(x) => match b {
            Err(e) => Err(e),
            Ok(y) => if pred_is_existential(predicate) {
                Ok(x || y)
            } else {
                Ok(x && y)
            },
        },
    }
}

/// How a predicate quantifies over the generic arguments of a
/// struct-style aggregate: existentially for `Unique`/`Lent` (any moving
/// or lent field decides), universally for `Shared`/`Owned`.
pub open spec fn quant_is_existential(p: Predicate) -> bool {
    match p {
        Predicate::Unique | Predicate::Lent => true,
        Predicate::Shared | Predicate::Owned => false,
    }
}

/// Quantify the predicate over a list of generic arguments: existentially
/// for `Unique`/`Lent`, universally for `Shared`/`Owned`.
pub open spec fn spec_terms_are(
    env: &DeclEnv,
    store: &InferStore,
    tys: &PlaceTys,
    args: TermList,
    predicate: Predicate,
    fuel: u32,
    exhausted: Reported,
) -> Result<bool, Reported>
    decreases fuel,
{
    if fuel == 0 {
        Err(exhausted)
    } else {
        match args {
            TermList::Nil => Ok(!quant_is_existential(predicate)),
            TermList::Cons(t, rest) => {
                match spec_term_is(env, store, tys, t, predicate, (fuel - 1) as u32, exhausted) {
                    Err(e) => Err(e),
                    Ok(x) => {
                        if quant_is_existential(predicate) && x {
                            Ok(true)
                        } else if !quant_is_existential(predicate) && !x {
                            Ok(false)
                        } else {
                            spec_terms_are(
                                env,
                                store,
                                tys,
                                *rest,
                                predicate,
                                (fuel - 1) as u32,
                                exhausted,
                            )
                        }
                    },
                }
            },
        }
    }
}

/// Decide a permission directly.
pub open spec fn spec_perm_is(
    env: &DeclEnv,
    store: &InferStore,
    tys: &PlaceTys,
    perm: SymPerm,
    predicate: Predicate,
    fuel: u32,
    exhausted: Reported,
) -> Result<bool, Reported>
    decreases fuel,
{
    if fuel == 0 {
        Err(exhausted)
    } else {
        match perm {
            SymPerm::Error(e) => Err(e),
            SymPerm::My => Ok(predicate == Predicate::Unique || predicate == Predicate::Owned),
            SymPerm::Our => Ok(predicate == Predicate::Shared || predicate == Predicate::Owned),
            SymPerm::Referenced(_) => Ok(
                predicate == Predicate::Shared || predicate == Predicate::Lent,
            ),
            SymPerm::Mutable(places) => match predicate {
                Predicate::Lent => Ok(true),
                Predicate::Owned => Ok(false),
                // a lease of places with shared permission is itself
                // shared; a lease is unique when some leased place moves
                Predicate::Shared => spec_places_are(
                    env,
                    store,
                    tys,
                    places,
                    Predicate::Shared,
                    false,
                    (fuel - 1) as u32,
                    exhausted,
                ),
                Predicate::Unique => spec_places_are(
                    env,
                    store,
                    tys,
                    places,
                    Predicate::Unique,
                    true,
                    (fuel - 1) as u32,
                    exhausted,
                ),
            },
            SymPerm::Apply(l, r) => spec_combine(
                predicate,
                spec_perm_is(env, store, tys, *l, predicate, (fuel - 1) as u32, exhausted),
                spec_perm_is(env, store, tys, *r, predicate, (fuel - 1) as u32, exhausted),
            ),
            // a lowering-time join satisfies a predicate when both of its
            // branches do
            SymPerm::Or(l, r) => spec_combine(
                predicate,
                spec_perm_is(env, store, tys, *l, predicate, (fuel - 1) as u32, exhausted),
                match spec_perm_is(env, store, tys, *r, predicate, (fuel - 1) as u32, exhausted) {
                    Err(e) => Err(e),
                    Ok(y) => Ok(y && !pred_is_existential(predicate)),
                },
            ),
            SymPerm::Var(v) => Ok(env.declared(v, predicate)),
            SymPerm::Infer(v) => Ok(spec_infer_flag(store, v, predicate)),
        }
    }
}

/// Quantify the predicate over the types of a list of places.
pub open spec fn spec_places_are(
    env: &DeclEnv,
    store: &InferStore,
    tys: &PlaceTys,
    places: PlaceList,
    predicate: Predicate,
    existential: bool,
    fuel: u32,
    exhausted: Reported,
) -> Result<bool, Reported>
    decreases fuel,
{
    if fuel == 0 {
        Err(exhausted)
    } else {
        match places {
            PlaceList::Nil => Ok(!existential),
            PlaceList::Cons(p, rest) => {
                match spec_place_is(env, store, tys, p, predicate, (fuel - 1) as u32, exhausted) {
                    Err(e) => Err(e),
                    Ok(x) => {
                        if existential && x {
                            Ok(true)
                        } else if !existential && !x {
                            Ok(false)
                        } else {
                            spec_places_are(
                                env,
                                store,
                                tys,
                                *rest,
                                predicate,
                                existential,
                                (fuel - 1) as u32,
                                exhausted,
                            )
                        }
                    },
                }
            },
        }
    }
}

/// Decide the predicate for a place through its type; a place without a
/// recorded type provides no evidence.
pub open spec fn spec_place_is(
    env: &DeclEnv,
    store: &InferStore,
    tys: &PlaceTys,
    place: crate::arena::PlaceId,
    predicate: Predicate,
    fuel: u32,
    exhausted: Reported,
) -> Result<bool, Reported>
    decreases fuel,
{
    if fuel == 0 {
        Err(exhausted)
    } else if place.0 < tys.tys@.len() {
        spec_ty_is(
            env,
            store,
            tys,
            tys.tys@[place.0 as int],
            predicate,
            (fuel - 1) as u32,
            exhausted,
        )
    } else {
        Ok(false)
    }
}

/// Whether a term provably satisfies the predicate.
pub fn term_is_provably(
    env: &DeclEnv,
    store: &InferStore,
    tys: &PlaceTys,
    term: &SymGenericTerm,
    predicate: Predicate,
    fuel: u32,
    exhausted: Reported,
) -> (r: Result<bool, Reported>)
    ensures
        r == spec_term_is(env, store, tys, *term, predicate, fuel, exhausted),
    decreases fuel,
{
    if fuel == 0 {
        Err(exhausted)
    } else {
        match term {
            SymGenericTerm::Type(t) => ty_is_provably(env, store, tys, t, predicate, fuel - 1, exhausted),
            SymGenericTerm::Perm(p) => perm_is_provably(
                env,
                store,
                tys,
                p,
                predicate,
                fuel - 1,
                exhausted,
            ),
            SymGenericTerm::Place(_) => Ok(false),
            SymGenericTerm::Error(e) => Err(*e),
        }
    }
}

/// Whether a type provably satisfies the predicate.
pub fn ty_is_provably(
    env: &DeclEnv,
    store: &InferStore,
    tys: &PlaceTys,
    ty: &SymTy,
    predicate: Predicate,
    fuel: u32,
    exhausted: Reported,
) -> (r: Result<bool, Reported>)
    ensures
        r == spec_ty_is(env, store, tys, *ty, predicate, fuel, exhausted),
    decreases fuel,
{
    if fuel == 0 {
        Err(exhausted)
    } else {
        match ty {
            SymTy::Error(e) => Err(*e),
            SymTy::Never => Ok(
                match predicate {
                    Predicate::Unique | Predicate::Owned => true,
                    Predicate::Shared | Predicate::Lent => false,
                },
            ),
            SymTy::Infer(v) => Ok(infer_flag(store, *v, predicate)),
            SymTy::Var(v) => Ok(env.var_is_declared_to_be(*v, predicate)),
            SymTy::Perm(p, base) => {
                let pr = perm_is_provably(env, store, tys, p, predicate, fuel - 1, exhausted);
                let tr = ty_is_provably(env, store, tys, base, predicate, fuel - 1, exhausted);
                combine(predicate, pr, tr)
            },
            SymTy::Named(name, args) => match style_of_exec(*name) {
                AggrStyle::Struct => terms_are_provably(
                    env,
                    store,
                    tys,
                    args,
                    predicate,
                    fuel - 1,
                    exhausted,
                ),
                AggrStyle::Class => Ok(
                    match predicate {
                        Predicate::Unique | Predicate::Owned => true,
                        Predicate::Shared | Predicate::Lent => false,
                    },
                ),
            },
        }
    }
}

fn combine(predicate: Predicate, a: Result<bool, Reported>, b: Result<bool, Reported>) -> (r:
    Result<bool, Reported>)
    ensures
        r == spec_combine(predicate, a, b),
{
    match a {
        Err(e) => Err(e),
        Ok(x) => match b {
            Err(e) => Err(e),
            Ok(y) => match predicate {
                Predicate::Shared | Predicate::Lent => Ok(x || y),
                Predicate::Unique | Predicate::Owned => Ok(x && y),
            },
        },
    }
}

fn terms_are_provably(
    env: &DeclEnv,
    store: &InferStore,
    tys: &PlaceTys,
    args: &TermList,
    predicate: Predicate,
    fuel: u32,
    exhausted: Reported,
) -> (r: Result<bool, Reported>)
    ensures
        r == spec_terms_are(env, store, tys, *args, predicate, fuel, exhausted),
    decreases fuel,
{
    if fuel == 0 {
        Err(exhausted)
    } else {
        let existential = match predicate {
            Predicate::Shared | Predicate::Owned => false,
            Predicate::Unique | Predicate::Lent => true,
        };
        match args {
            TermList::Nil => Ok(!existential),
            TermList::Cons(t, rest) => {
                match term_is_provably(env, store, tys, t, predicate, fuel - 1, exhausted) {
                    Err(e) => Err(e),
                    Ok(x) => {
                        if existential && x {
                            Ok(true)
                        } else if !existential && !x {
                            Ok(false)
                        } else {
                            terms_are_provably(env, store, tys, rest, predicate, fuel - 1, exhausted)
                        }
                    },
                }
            },
        }
    }
}

/// Whether a permission provably satisfies the predicate.
pub fn perm_is_provably(
    env: &DeclEnv,
    store: &InferStore,
    tys: &PlaceTys,
    perm: &SymPerm,
    predicate: Predicate,
    fuel: u32,
    exhausted: Reported,
) -> (r: Result<bool, Reported>)
    ensures
        r == spec_perm_is(env, store, tys, *perm, predicate, fuel, exhausted),
    decreases fuel,
{
    if fuel == 0 {
        Err(exhausted)
    } else {
        match perm {
            SymPerm::Error(e) => Err(*e),
            SymPerm::My => Ok(matches!(predicate, Predicate::Unique | Predicate::Owned)),
            SymPerm::Our => Ok(matches!(predicate, Predicate::Shared | Predicate::Owned)),
            SymPerm::Referenced(_) => Ok(matches!(predicate, Predicate::Shared | Predicate::Lent)),
            SymPerm::Mutable(places) => match predicate {
                Predicate::Lent => Ok(true),
                Predicate::Owned => Ok(false),
                Predicate::Shared => places_are_provably(
                    env,
                    store,
                    tys,
                    places,
                    Predicate::Shared,
                    false,
                    fuel - 1,
                    exhausted,
                ),
                Predicate::Unique => places_are_provably(
                    env,
                    store,
                    tys,
                    places,
                    Predicate::Unique,
                    true,
                    fuel - 1,
                    exhausted,
                ),
            },
            SymPerm::Apply(l, r) => {
                let a = perm_is_provably(env, store, tys, l, predicate, fuel - 1, exhausted);
                let b = perm_is_provably(env, store, tys, r, predicate, fuel - 1, exhausted);
                combine(predicate, a, b)
            },
            SymPerm::Or(l, r) => {
                let a = perm_is_provably(env, store, tys, l, predicate, fuel - 1, exhausted);
                let b = perm_is_provably(env, store, tys, r, predicate, fuel - 1, exhausted);
                let b2 = match b {
                    Err(e) => Err(e),
                    Ok(y) => Ok(
                        y && !matches!(predicate, Predicate::Shared | Predicate::Lent),
                    ),
                };
                combine(predicate, a, b2)
            },
            SymPerm::Var(v) => Ok(env.var_is_declared_to_be(*v, predicate)),
            SymPerm::Infer(v) => Ok(infer_flag(store, *v, predicate)),
        }
    }
}

fn places_are_provably(
    env: &DeclEnv,
    store: &InferStore,
    tys: &PlaceTys,
    places: &PlaceList,
    predicate: Predicate,
    existential: bool,
    fuel: u32,
    exhausted: Reported,
) -> (r: Result<bool, Reported>)
    ensures
        r == spec_places_are(env, store, tys, *places, predicate, existential, fuel, exhausted),
    decreases fuel,
{
    if fuel == 0 {
        Err(exhausted)
    } else {
        match places {
            PlaceList::Nil => Ok(!existential),
            PlaceList::Cons(p, rest) => {
                match place_is_provably(env, store, tys, *p, predicate, fuel - 1, exhausted) {
                    Err(e) => Err(e),
                    Ok(x) => {
                        if existential && x {
                            Ok(true)
                        } else if !existential && !x {
                            Ok(false)
                        } else {
                            places_are_provably(
                                env,
                                store,
                                tys,
                                rest,
                                predicate,
                                existential,
                                fuel - 1,
                                exhausted,
                            )
                        }
                    },
                }
            },
        }
    }
}

/// Whether the type of a place provably satisfies the predicate.
pub fn place_is_provably(
    env: &DeclEnv,
    store: &InferStore,
    tys: &PlaceTys,
    place: crate::arena::PlaceId,
    predicate: Predicate,
    fuel: u32,
    exhausted: Reported,
) -> (r: Result<bool, Reported>)
    ensures
        r == spec_place_is(env, store, tys, place, predicate, fuel, exhausted),
    decreases fuel,
{
    if fuel == 0 {
        Err(exhausted)
    } else if (place.0 as usize) < tys.tys.len() {
        ty_is_provably(env, store, tys, &tys.tys[place.0 as usize], predicate, fuel - 1, exhausted)
    } else {
        Ok(false)
    }
}

/// Demand that a term provably satisfies the predicate, reporting through
/// `or_else` when it does not.
pub fn require_term_is(
    env: &DeclEnv,
    store: &InferStore,
    tys: &PlaceTys,
    term: &SymGenericTerm,
    predicate: Predicate,
    fuel: u32,
    exhausted: Reported,
    or_else: Reported,
) -> (r: Result<(), Reported>)
    ensures
        r == (match spec_term_is(env, store, tys, *term, predicate, fuel, exhausted) {
            Ok(true) => Ok::<(), Reported>(()),
            Ok(false) => Err::<(), Reported>(or_else),
            Err(e) => Err::<(), Reported>(e),
        }),
{
    match term_is_provably(env, store, tys, term, predicate, fuel, exhausted) {
        Ok(true) => Ok(()),
        Ok(false) => Err(or_else),
        Err(e) => Err(e),
    }
}

/// Factor a symbolic type as an optional permission applied to a red
/// type. Every type inference variable is paired with a permission
/// inference variable, given by `perm_pairs`; factoring splits the pair.
pub open spec fn spec_to_red_ty(ty: SymTy, perm_pairs: Seq<u32>) -> (RedTy, Option<SymPerm>)
    decreases ty,
{
    match ty {
        SymTy::Perm(p, base) => {
            let (red, po) = spec_to_red_ty(*base, perm_pairs);
            match po {
                None => (red, Some(*p)),
                Some(p1) => (red, Some(SymPerm::Apply(Box::new(*p), Box::new(p1)))),
            }
        },
        SymTy::Named(n, g) => (RedTy::Named(n, g), None),
        SymTy::Infer(v) => (
            RedTy::Infer(v),
            Some(SymPerm::Infer(if v < perm_pairs.len() {
                perm_pairs[v as int]
            } else {
                v
            })),
        ),
        SymTy::Var(v) => (RedTy::Var(v), None),
        SymTy::Never => (RedTy::Never, None),
        SymTy::Error(r) => (RedTy::Error(r), None),
    }
}

/// Convert a type to a red type and the permission factored off it.
pub fn to_red_ty_with_runtime(ty: &SymTy, perm_pairs: &Vec<u32>) -> (r: (RedTy, Option<SymPerm>))
    ensures
        r == spec_to_red_ty(*ty, perm_pairs@),
    decreases *ty,
{
    let r = match ty {
        SymTy::Perm(p, base) => {
            let (red, po) = to_red_ty_with_runtime(base, perm_pairs);
            match po {
                None => (red, Some(copy_sym_perm(p))),
                Some(p1) => (red, Some(SymPerm::Apply(Box::new(copy_sym_perm(p)), Box::new(p1)))),
            }
        },
        SymTy::Named(n, g) => (RedTy::Named(*n, Box::new(copy_terms(g))), None),
        SymTy::Infer(v) => {
            let pv = if (*v as usize) < perm_pairs.len() {
                perm_pairs[*v as usize]
            } else {
                *v
            };
            (RedTy::Infer(*v), Some(SymPerm::Infer(pv)))
        },
        SymTy::Var(v) => (RedTy::Var(*v), None),
        SymTy::Never => (RedTy::Never, None),
        SymTy::Error(r) => (RedTy::Error(*r), None),
    };
    proof {
        assert(r =~~= spec_to_red_ty(*ty, perm_pairs@));
    }
    r
}


/// Whether one link is copy, consulting the inference store for links
/// that still name an inference variable.
pub open spec fn spec_link_is_copy(
    env: &DeclEnv,
    store: &InferStore,
    l: RedLink,
) -> Result<bool, Reported> {
    match l {
        RedLink::Our => Ok(true),
        RedLink::Ref(..) => Ok(true),
        RedLink::Mut(..) => Ok(false),
        RedLink::Var(v) => Ok(env.declared(v, Predicate::Shared)),
        RedLink::Infer(v) => if v < store.vars@.len() {
            spec_perm_infer_known(env, store.vars@[v as int], Predicate::Shared)
        } else {
            Ok(false)
        },
        RedLink::Error(e) => Err(e),
    }
}

fn link_is_copy(env: &DeclEnv, store: &InferStore, l: RedLink) -> (r: Result<bool, Reported>)
    ensures
        r == spec_link_is_copy(env, store, l),
{
    match l {
        RedLink::Our => Ok(true),
        RedLink::Ref(..) => Ok(true),
        RedLink::Mut(..) => Ok(false),
        RedLink::Var(v) => Ok(env.var_is_declared_to_be(v, Predicate::Shared)),
        RedLink::Infer(v) => {
            if (v as usize) < store.vars.len() {
                test_perm_infer_is_known_to_be(env, store, v, Predicate::Shared)
            } else {
                Ok(false)
            }
        },
        RedLink::Error(e) => Err(e),
    }
}

/// Whether any link of a chain is copy.
pub open spec fn spec_chain_any_copy(
    env: &DeclEnv,
    store: &InferStore,
    links: Seq<RedLink>,
) -> Result<bool, Reported>
    decreases links.len(),
{
    if links.len() == 0 {
        Ok(false)
    } else {
        match spec_link_is_copy(env, store, links.first()) {
            Err(e) => Err(e),
            Ok(true) => Ok(true),
            Ok(false) => spec_chain_any_copy(env, store, links.drop_first()),
        }
    }
}

fn chain_any_copy_from(env: &DeclEnv, store: &InferStore, links: &Vec<RedLink>, i: usize) -> (r:
    Result<bool, Reported>)
    requires
        i <= links@.len(),
    ensures
        r == spec_chain_any_copy(env, store, links@.skip(i as int)),
    decreases links@.len() - i,
{
    if i == links.len() {
        assert(links@.skip(i as int).len() == 0);
        Ok(false)
    } else {
        assert(links@.skip(i as int).first() == links@[i as int]);
        assert(links@.skip(i as int).drop_first() =~= links@.skip(i as int + 1));
        match link_is_copy(env, store, links[i]) {
            Err(e) => Err(e),
            Ok(true) => Ok(true),
            Ok(false) => chain_any_copy_from(env, store, links, i + 1),
        }
    }
}

/// Concatenate two chains: a copy chain stands on its own, so if the
/// second chain is copy the first is discarded.
pub open spec fn spec_concat_chain(
    env: &DeclEnv,
    store: &InferStore,
    a: Seq<RedLink>,
    b: Seq<RedLink>,
) -> Result<Seq<RedLink>, Reported> {
    match spec_chain_any_copy(env, store, b) {
        Err(e) => Err(e),
        Ok(true) => Ok(b),
        Ok(false) => Ok(a + b),
    }
}

fn concat_chain(env: &DeclEnv, store: &InferStore, a: &RedChain, b: &RedChain) -> (r: Result<
    RedChain,
    Reported,
>)
    ensures
        match spec_concat_chain(env, store, a.links@, b.links@) {
            Ok(links) => r is Ok && r.unwrap().links@ == links,
            Err(e) => r == Err::<RedChain, Reported>(e),
        },
{
    proof {
        assert(b.links@.skip(0) =~= b.links@);
    }
    match chain_any_copy_from(env, store, &b.links, 0) {
        Err(e) => Err(e),
        Ok(true) => Ok(crate::infer::copy_chain(b)),
        Ok(false) => {
            let mut c = crate::infer::copy_chain(a);
            let mut i: usize = 0;
            while i < b.links.len()
                invariant
                    i <= b.links@.len(),
                    c.links@ == a.links@ + b.links@.subrange(0, i as int),
                decreases b.links@.len() - i,
            {
                c.links.push(b.links[i]);
                assert(c.links@ =~= a.links@ + b.links@.subrange(0, i as int + 1));
                i += 1;
            }
            proof {
                assert(c.links@ =~= a.links@ + b.links@);
            }
            Ok(c)
        },
    }
}

/// The red chains a permission denotes: `my` is the empty chain, each
/// place of a `ref`/`mut` contributes one chain, composition concatenates
/// chain-wise, and a lowering-time `Or` takes the union.
pub open spec fn spec_to_red_chains(
    env: &DeclEnv,
    store: &InferStore,
    perm: SymPerm,
) -> Result<Seq<Seq<RedLink>>, Reported>
    decreases perm,
{
    match perm {
        SymPerm::My => Ok(seq![Seq::<RedLink>::empty()]),
        SymPerm::Our => Ok(seq![seq![RedLink::Our]]),
        SymPerm::Referenced(ps) => Ok(spec_ref_chains(ps)),
        SymPerm::Mutable(ps) => Ok(spec_mut_chains(ps)),
        SymPerm::Apply(l, r) => match spec_to_red_chains(env, store, *l) {
            Err(e) => Err(e),
            Ok(lc) => match spec_to_red_chains(env, store, *r) {
                Err(e) => Err(e),
                Ok(rc) => spec_cross_concat(env, store, lc, rc),
            },
        },
        SymPerm::Or(l, r) => match spec_to_red_chains(env, store, *l) {
            Err(e) => Err(e),
            Ok(lc) => match spec_to_red_chains(env, store, *r) {
                Err(e) => Err(e),
                Ok(rc) => Ok(lc + rc),
            },
        },
        SymPerm::Var(v) => Ok(seq![seq![RedLink::Var(v)]]),
        SymPerm::Infer(v) => Ok(seq![seq![RedLink::Infer(v)]]),
        SymPerm::Error(e) => Err(e),
    }
}

pub open spec fn spec_ref_chains(ps: PlaceList) -> Seq<Seq<RedLink>>
    decreases ps,
{
    match ps {
        PlaceList::Nil => Seq::empty(),
        PlaceList::Cons(p, rest) => seq![seq![RedLink::Ref(Live(true), p)]] + spec_ref_chains(
            *rest,
        ),
    }
}

pub open spec fn spec_mut_chains(ps: PlaceList) -> Seq<Seq<RedLink>>
    decreases ps,
{
    match ps {
        PlaceList::Nil => Seq::empty(),
        PlaceList::Cons(p, rest) => seq![seq![RedLink::Mut(Live(true), p)]] + spec_mut_chains(
            *rest,
        ),
    }
}

/// Concatenate every left chain with every right chain.
pub open spec fn spec_cross_concat(
    env: &DeclEnv,
    store: &InferStore,
    ls: Seq<Seq<RedLink>>,
    rs: Seq<Seq<RedLink>>,
) -> Result<Seq<Seq<RedLink>>, Reported>
    decreases ls.len(),
{
    if ls.len() == 0 {
        Ok(Seq::empty())
    } else {
        match spec_concat_row(env, store, ls.first(), rs) {
            Err(e) => Err(e),
            Ok(row) => match spec_cross_concat(env, store, ls.drop_first(), rs) {
                Err(e) => Err(e),
                Ok(rest) => Ok(row + rest),
            },
        }
    }
}

pub open spec fn spec_concat_row(
    env: &DeclEnv,
    store: &InferStore,
    a: Seq<RedLink>,
    rs: Seq<Seq<RedLink>>,
) -> Result<Seq<Seq<RedLink>>, Reported>
    decreases rs.len(),
{
    if rs.len() == 0 {
        Ok(Seq::empty())
    } else {
        match spec_concat_chain(env, store, a, rs.first()) {
            Err(e) => Err(e),
            Ok(c) => match spec_concat_row(env, store, a, rs.drop_first()) {
                Err(e) => Err(e),
                Ok(rest) => Ok(seq![c] + rest),
            },
        }
    }
}

/// `p.chains` holds exactly the model's chains, element for element.
pub open spec fn chains_match(p: Seq<RedChain>, m: Seq<Seq<RedLink>>) -> bool {
    p.len() == m.len() && forall|i: int| 0 <= i < p.len() ==> (#[trigger] p[i]).links@ == m[i]
}

fn concat_row_from(
    env: &DeclEnv,
    store: &InferStore,
    a: &RedChain,
    rs: &Vec<RedChain>,
    i: usize,
) -> (r: Result<Vec<RedChain>, Reported>)
    requires
        i <= rs@.len(),
    ensures
        match spec_concat_row(env, store, a.links@, chain_seq_views(rs@).skip(i as int)) {
            Ok(m) => r is Ok && chains_match(r.unwrap()@, m),
            Err(e) => r == Err::<Vec<RedChain>, Reported>(e),
        },
    decreases rs@.len() - i,
{
    proof {
        assert(chain_seq_views(rs@).len() == rs@.len());
    }
    if i == rs.len() {
        assert(chain_seq_views(rs@).skip(i as int).len() == 0);
        Ok(Vec::new())
    } else {
        proof {
            assert(chain_seq_views(rs@).skip(i as int).first() == chain_seq_views(rs@)[i as int]);
            assert(chain_seq_views(rs@)[i as int] == rs@[i as int].links@);
            assert(chain_seq_views(rs@).skip(i as int).drop_first() =~= chain_seq_views(
                rs@,
            ).skip(i as int + 1));
        }
        match concat_chain(env, store, a, &rs[i]) {
            Err(e) => Err(e),
            Ok(c) => match concat_row_from(env, store, a, rs, i + 1) {
                Err(e) => Err(e),
                Ok(mut rest) => {
                    rest.insert(0, c);
                    Ok(rest)
                },
            },
        }
    }
}

pub open spec fn chain_seq_views(s: Seq<RedChain>) -> Seq<Seq<RedLink>> {
    Seq::new(s.len(), |i: int| s[i].links@)
}

fn cross_concat_from(
    env: &DeclEnv,
    store: &InferStore,
    ls: &Vec<RedChain>,
    i: usize,
    rs: &Vec<RedChain>,
) -> (r: Result<Vec<RedChain>, Reported>)
    requires
        i <= ls@.len(),
    ensures
        match spec_cross_concat(
            env,
            store,
            chain_seq_views(ls@).skip(i as int),
            chain_seq_views(rs@),
        ) {
            Ok(m) => r is Ok && chains_match(r.unwrap()@, m),
            Err(e) => r == Err::<Vec<RedChain>, Reported>(e),
        },
    decreases ls@.len() - i,
{
    proof {
        assert(chain_seq_views(ls@).len() == ls@.len());
    }
    if i == ls.len() {
        assert(chain_seq_views(ls@).skip(i as int).len() == 0);
        Ok(Vec::new())
    } else {
        proof {
            assert(chain_seq_views(ls@).skip(i as int).first() == chain_seq_views(ls@)[i as int]);
            assert(chain_seq_views(ls@)[i as int] == ls@[i as int].links@);
            assert(chain_seq_views(ls@).skip(i as int).drop_first() =~= chain_seq_views(
                ls@,
            ).skip(i as int + 1));
        }
        proof {
            assert(rs@.skip(0) =~= rs@);
        }
        proof {
            assert(chain_seq_views(rs@).skip(0) =~= chain_seq_views(rs@));
        }
        let ghost m_row = spec_concat_row(
            env,
            store,
            ls@[i as int].links@,
            chain_seq_views(rs@),
        );
        let ghost m_rest = spec_cross_concat(
            env,
            store,
            chain_seq_views(ls@).skip(i as int + 1),
            chain_seq_views(rs@),
        );
        match concat_row_from(env, store, &ls[i], rs, 0) {
            Err(e) => Err(e),
            Ok(mut row) => {
                match cross_concat_from(env, store, ls, i + 1, rs) {
                    Err(e) => Err(e),
                    Ok(rest) => {
                        let ghost rowlen = row@.len();
                        let mut j: usize = 0;
                        while j < rest.len()
                            invariant
                                j <= rest@.len(),
                                row@.len() == rowlen + j,
                                rowlen == m_row.unwrap().len(),
                                m_row is Ok,
                                m_rest is Ok,
                                chains_match(rest@, m_rest.unwrap()),
                                forall|k: int|
                                    0 <= k < rowlen ==> (#[trigger] row@[k]).links@
                                        == m_row.unwrap()[k],
                                forall|k: int|
                                    0 <= k < j ==> (#[trigger] row@[rowlen + k]).links@
                                        == rest@[k].links@,
                            decreases rest@.len() - j,
                        {
                            row.push(crate::infer::copy_chain(&rest[j]));
                            j += 1;
                        }
                        proof {
                            assert forall|k: int| 0 <= k < row@.len() implies (
                            #[trigger] row@[k]).links@ == (m_row.unwrap() + m_rest.unwrap())[k] by {
                                if k >= rowlen {
                                    assert(row@[rowlen + (k - rowlen)].links@ == rest@[
                                        k - rowlen
                                    ].links@);
                                }
                            }
                        }
                        Ok(row)
                    },
                }
            },
        }
    }
}

/// Convert a symbolic permission to its red permission: the set of chains
/// by which data with that permission may have been reached.
pub fn to_red_perms(env: &DeclEnv, store: &InferStore, perm: &SymPerm) -> (r: Result<
    RedPerm,
    Reported,
>)
    ensures
        match spec_to_red_chains(env, store, *perm) {
            Ok(m) => r is Ok && chains_match(r.unwrap().chains@, m),
            Err(e) => r == Err::<RedPerm, Reported>(e),
        },
    decreases *perm,
{
    match perm {
        SymPerm::My => {
            let mut chains: Vec<RedChain> = Vec::new();
            chains.push(RedChain { links: Vec::new() });
            proof {
                assert(chains@[0].links@ =~= Seq::<RedLink>::empty());
            }
            Ok(RedPerm { chains })
        },
        SymPerm::Our => {
            let mut chains: Vec<RedChain> = Vec::new();
            chains.push(RedChain::our());
            Ok(RedPerm { chains })
        },
        SymPerm::Referenced(ps) => Ok(RedPerm { chains: ref_chains(ps) }),
        SymPerm::Mutable(ps) => Ok(RedPerm { chains: mut_chains(ps) }),
        SymPerm::Apply(l, r) => {
            let lc = match to_red_perms(env, store, l) {
                Err(e) => {
                    return Err(e);
                },
                Ok(lc) => lc,
            };
            let rc = match to_red_perms(env, store, r) {
                Err(e) => {
                    return Err(e);
                },
                Ok(rc) => rc,
            };
            proof {
                let ghost m_l = spec_to_red_chains(env, store, **l).unwrap();
                let ghost m_r = spec_to_red_chains(env, store, **r).unwrap();
                assert(chain_seq_views(lc.chains@) =~= m_l);
                assert(chain_seq_views(rc.chains@) =~= m_r);
                assert(chain_seq_views(lc.chains@).skip(0) =~= chain_seq_views(lc.chains@));
            }
            match cross_concat_from(env, store, &lc.chains, 0, &rc.chains) {
                Err(e) => Err(e),
                Ok(chains) => Ok(RedPerm { chains }),
            }
        },
        SymPerm::Or(l, r) => {
            let lc = match to_red_perms(env, store, l) {
                Err(e) => {
                    return Err(e);
                },
                Ok(lc) => lc,
            };
            let rc = match to_red_perms(env, store, r) {
                Err(e) => {
                    return Err(e);
                },
                Ok(rc) => rc,
            };
            let ghost m_l = spec_to_red_chains(env, store, **l).unwrap();
            let ghost m_r = spec_to_red_chains(env, store, **r).unwrap();
            proof {
                assert(chains_match(lc.chains@, m_l));
                assert(chains_match(rc.chains@, m_r));
            }
            let rcc = rc.chains;
            let mut chains = lc.chains;
            let ghost lclen = chains@.len();
            let mut j: usize = 0;
            while j < rcc.len()
                invariant
                    j <= rcc@.len(),
                    chains@.len() == lclen + j,
                    lclen == m_l.len(),
                    chains_match(rcc@, m_r),
                    forall|k: int| 0 <= k < lclen ==> (#[trigger] chains@[k]).links@ == m_l[k],
                    forall|k: int|
                        0 <= k < j ==> (#[trigger] chains@[lclen + k]).links@ == rcc@[k].links@,
                decreases rcc@.len() - j,
            {
                chains.push(crate::infer::copy_chain(&rcc[j]));
                j += 1;
            }
            proof {
                assert forall|k: int| 0 <= k < chains@.len() implies (#[trigger] chains@[k]).links@
                    == (m_l + m_r)[k] by {
                    if k >= lclen {
                        assert(chains@[lclen + (k - lclen)].links@ == rcc@[k - lclen].links@);
                    }
                }
            }
            Ok(RedPerm { chains })
        },
        SymPerm::Var(v) => {
            let mut links: Vec<RedLink> = Vec::new();
            links.push(RedLink::Var(*v));
            proof {
                assert(links@ =~= seq![RedLink::Var(*v)]);
            }
            let mut chains: Vec<RedChain> = Vec::new();
            chains.push(RedChain { links });
            Ok(RedPerm { chains })
        },
        SymPerm::Infer(v) => {
            let mut links: Vec<RedLink> = Vec::new();
            links.push(RedLink::Infer(*v));
            proof {
                assert(links@ =~= seq![RedLink::Infer(*v)]);
            }
            let mut chains: Vec<RedChain> = Vec::new();
            chains.push(RedChain { links });
            Ok(RedPerm { chains })
        },
        SymPerm::Error(e) => Err(*e),
    }
}

fn ref_chains(ps: &PlaceList) -> (r: Vec<RedChain>)
    ensures
        chains_match(r@, spec_ref_chains(*ps)),
    decreases *ps,
{
    match ps {
        PlaceList::Nil => Vec::new(),
        PlaceList::Cons(p, rest) => {
            let mut links: Vec<RedLink> = Vec::new();
            links.push(RedLink::Ref(Live(true), *p));
            let mut r = ref_chains(rest);
            r.insert(0, RedChain { links });
            r
        },
    }
}

fn mut_chains(ps: &PlaceList) -> (r: Vec<RedChain>)
    ensures
        chains_match(r@, spec_mut_chains(*ps)),
    decreases *ps,
{
    match ps {
        PlaceList::Nil => Vec::new(),
        PlaceList::Cons(p, rest) => {
            let mut links: Vec<RedLink> = Vec::new();
            links.push(RedLink::Mut(Live(true), *p));
            let mut r = mut_chains(rest);
            r.insert(0, RedChain { links });
            r
        },
    }
}


/// A numeric red type: an integer, size or float primitive. For an
/// inference variable the current lower bound decides: bounds only
/// tighten, and numeric types have no strict subtypes. The recursion
/// budget guards against a cycle of inference bounds.
pub open spec fn spec_require_numeric_red(
    store: &InferStore,
    red: RedTy,
    fuel: u32,
    or_else: Reported,
) -> Result<(), Reported>
    decreases fuel,
{
    if fuel == 0 {
        Err(or_else)
    } else {
        match red {
            RedTy::Error(reported) => Err(reported),
            RedTy::Named(name, _) => match name {
                SymTyName::Primitive(k) => match k {
                    PrimKind::Bool | PrimKind::Char => Err(or_else),
                    _ => Ok(()),
                },
                _ => Err(or_else),
            },
            RedTy::Var(_) | RedTy::Never => Err(or_else),
            RedTy::Infer(v) => if v < store.vars@.len() {
                match store.vars@[v as int].red_ty_lower {
                    Some(bound) => spec_require_numeric_red(
                        store,
                        bound,
                        (fuel - 1) as u32,
                        or_else,
                    ),
                    None => Err(or_else),
                }
            } else {
                Err(or_else)
            },
            // a permission red type never stands for a value type; it is
            // reported as non-numeric
            RedTy::Perm => Err(or_else),
        }
    }
}

/// Demand that a red type is numeric.
pub fn require_numeric_red_type(store: &InferStore, red: &RedTy, fuel: u32, or_else: Reported)
    -> (r: Result<(), Reported>)
    ensures
        r == spec_require_numeric_red(store, *red, fuel, or_else),
    decreases fuel,
{
    if fuel == 0 {
        Err(or_else)
    } else {
        match red {
            RedTy::Error(reported) => Err(*reported),
            RedTy::Named(name, _) => match name {
                SymTyName::Primitive(k) => match k {
                    PrimKind::Bool | PrimKind::Char => Err(or_else),
                    _ => Ok(()),
                },
                _ => Err(or_else),
            },
            RedTy::Var(_) | RedTy::Never => Err(or_else),
            RedTy::Infer(v) => {
                if (*v as usize) < store.vars.len() {
                    match &store.vars[*v as usize].red_ty_lower {
                        Some(bound) => {
                            let b = copy_red_ty(bound);
                            require_numeric_red_type(store, &b, fuel - 1, or_else)
                        },
                        None => Err(or_else),
                    }
                } else {
                    Err(or_else)
                }
            },
            RedTy::Perm => Err(or_else),
        }
    }
}

/// Structural copy of a red type.
pub fn copy_red_ty(red: &RedTy) -> (r: RedTy)
    ensures
        r == *red,
{
    match red {
        RedTy::Error(e) => RedTy::Error(*e),
        RedTy::Named(name, terms) => RedTy::Named(*name, Box::new(copy_terms(terms))),
        RedTy::Never => RedTy::Never,
        RedTy::Infer(v) => RedTy::Infer(*v),
        RedTy::Var(v) => RedTy::Var(*v),
        RedTy::Perm => RedTy::Perm,
    }
}

/// Demand that a type is numeric: factor off the permission and decide on
/// the red type.
pub fn require_numeric_type(
    store: &InferStore,
    ty: &SymTy,
    perm_pairs: &Vec<u32>,
    fuel: u32,
    or_else: Reported,
) -> (r: Result<(), Reported>)
    ensures
        r == spec_require_numeric_red(store, spec_to_red_ty(*ty, perm_pairs@).0, fuel, or_else),
{
    let (red, _) = to_red_ty_with_runtime(ty, perm_pairs);
    require_numeric_red_type(store, &red, fuel, or_else)
}

/// What `require_my_numeric_type` answers: the type's permission chains
/// must exist (`my` is below any non-empty set of chains), name only
/// known places, and the red type must be numeric.
pub open spec fn spec_require_my_numeric(
    env: &DeclEnv,
    store: &InferStore,
    nplaces: nat,
    ty: SymTy,
    perm_pairs: Seq<u32>,
    fuel: u32,
    or_else: Reported,
) -> Result<(), Reported> {
    let (red, po) = spec_to_red_ty(ty, perm_pairs);
    let perm = match po {
        Some(p) => p,
        None => SymPerm::My,
    };
    match spec_to_red_chains(env, store, perm) {
        Err(e) => Err(e),
        Ok(chains) => if !model_chains_wf(chains, nplaces) {
            Err(or_else)
        } else if chains.len() == 0 {
            Err(or_else)
        } else {
            spec_require_numeric_red(store, red, fuel, or_else)
        },
    }
}

/// Every chain of the model names only known places.
pub open spec fn model_chains_wf(chains: Seq<Seq<RedLink>>, nplaces: nat) -> bool {
    forall|i: int|
        0 <= i < chains.len() ==> crate::subtype::links_places_wf(#[trigger] chains[i], nplaces)
}

/// Demand that a type is numeric and that its permission is above `my`:
/// the operand of an arithmetic operator is an owned numeric value.
pub fn require_my_numeric_type(
    env: &DeclEnv,
    places: &crate::arena::PlaceStore,
    store: &InferStore,
    ty: &SymTy,
    perm_pairs: &Vec<u32>,
    fuel: u32,
    or_else: Reported,
) -> (r: Result<(), Reported>)
    ensures
        r == spec_require_my_numeric(
            env,
            store,
            places.view_paths().len(),
            *ty,
            perm_pairs@,
            fuel,
            or_else,
        ),
{
    let (red, perm_opt) = to_red_ty_with_runtime(ty, perm_pairs);
    let perm = match perm_opt {
        Some(p) => p,
        None => SymPerm::My,
    };
    let red_perm = match to_red_perms(env, store, &perm) {
        Err(e) => {
            return Err(e);
        },
        Ok(rp) => rp,
    };
    let ghost m_chains = spec_to_red_chains(env, store, perm).unwrap();
    let ghost n = places.view_paths().len();
    let ok = all_places_wf(&red_perm, places);
    proof {
        if ok {
            assert forall|i: int| 0 <= i < m_chains.len() implies crate::subtype::links_places_wf(
                #[trigger] m_chains[i],
                n,
            ) by {
                assert(red_perm.chains@[i].links@ == m_chains[i]);
                assert(crate::subtype::links_places_wf(red_perm.chains@[i].links@, n));
            }
            assert(model_chains_wf(m_chains, n));
        } else {
            assert(exists|k: int|
                0 <= k < red_perm.chains@.len() && !crate::subtype::links_places_wf(
                    (#[trigger] red_perm.chains@[k]).links@,
                    n,
                ));
            let k = choose|k: int|
                0 <= k < red_perm.chains@.len() && !crate::subtype::links_places_wf(
                    (#[trigger] red_perm.chains@[k]).links@,
                    n,
                );
            assert(red_perm.chains@[k].links@ == m_chains[k]);
            assert(!crate::subtype::links_places_wf(m_chains[k], n));
            assert(!model_chains_wf(m_chains, n));
        }
        assert(perm == (match spec_to_red_ty(*ty, perm_pairs@).1 {
            Some(p) => p,
            None => SymPerm::My,
        }));
    }
    if !ok {
        proof {
            assert(spec_require_my_numeric(env, store, n, *ty, perm_pairs@, fuel, or_else)
                == Err::<(), Reported>(or_else));
        }
        return Err(or_else);
    }
    if red_perm.chains.len() == 0 {
        return Err(or_else);
    }
    let my = RedPerm::fallback();
    proof {
        crate::laws::lemma_my_below_all(
            env,
            places.view_paths(),
            &my,
            &red_perm,
        );
    }
    match crate::subtype::require_sub_red_perms(env, places, &my, &red_perm, or_else) {
        Err(e) => Err(e),
        Ok(()) => require_numeric_red_type(store, &red, fuel, or_else),
    }
}

/// Every place a permission's chains name is present in the table.
pub fn all_places_wf(p: &RedPerm, places: &crate::arena::PlaceStore) -> (r: bool)
    ensures
        r == crate::subtype::perm_places_wf(p, places.view_paths().len()),
{
    let mut i: usize = 0;
    while i < p.chains.len()
        invariant
            i <= p.chains@.len(),
            forall|k: int|
                0 <= k < i ==> crate::subtype::links_places_wf(
                    (#[trigger] p.chains@[k]).links@,
                    places.view_paths().len(),
                ),
        decreases p.chains@.len() - i,
    {
        if !chain_places_wf(&p.chains[i], places) {
            return false;
        }
        i += 1;
    }
    true
}

fn chain_places_wf(c: &RedChain, places: &crate::arena::PlaceStore) -> (r: bool)
    ensures
        r == crate::subtype::links_places_wf(c.links@, places.view_paths().len()),
{
    let mut i: usize = 0;
    let n = places.paths.len();
    while i < c.links.len()
        invariant
            i <= c.links@.len(),
            n == places.view_paths().len(),
            forall|k: int|
                0 <= k < i ==> match #[trigger] c.links@[k] {
                    RedLink::Ref(_, p) => p.0 < n,
                    RedLink::Mut(_, p) => p.0 < n,
                    _ => true,
                },
        decreases c.links@.len() - i,
    {
        let ok = match c.links[i] {
            RedLink::Ref(_, p) => (p.0 as usize) < n,
            RedLink::Mut(_, p) => (p.0 as usize) < n,
            _ => true,
        };
        if !ok {
            return false;
        }
        i += 1;
    }
    true
}

} // verus!
