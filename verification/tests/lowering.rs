//! Lowering symbolic types and permissions to red form, term predicates,
//! and the driver's decision combinators.

use dada_core::Predicate;
use dada_core::Reported;
use dada_core::combin::Alternative;
use dada_core::combin::both;
use dada_core::combin::either;
use dada_core::combin::exists_outcome;
use dada_core::combin::for_all_outcome;
use dada_core::combin::if_required;
use dada_core::combin::require;
use dada_core::combin::require_both;
use dada_core::combin::require_for_all;
use dada_core::infer::InferStore;
use dada_core::red::DeclEnv;
use dada_core::red::RedLink;
use dada_core::red::RedTy;
use dada_core::symir::PlaceList;
use dada_core::symir::PrimKind;
use dada_core::symir::SymGenericKind;
use dada_core::symir::SymPerm;
use dada_core::symir::SymTy;
use dada_core::symir::SymTyName;
use dada_core::symir::SymVariable;
use dada_core::symir::Span;
use dada_core::symir::TermList;
use dada_core::typred::PlaceTys;
use dada_core::typred::require_my_numeric_type;
use dada_core::typred::require_numeric_type;
use dada_core::typred::perm_is_provably;
use dada_core::typred::to_red_perms;
use dada_core::typred::to_red_ty_with_runtime;
use dada_core::typred::ty_is_provably;
use dada_core::arena::PlaceStore;

fn env() -> DeclEnv {
    DeclEnv { flags: Vec::new() }
}

fn no_places() -> PlaceTys {
    PlaceTys { tys: Vec::new() }
}

const FUEL: u32 = 32;
const OOPS: Reported = Reported(99);

#[test]
fn factor_permission_off_type() {
    // `our String`-shaped: Perm(Our, Named) factors into the red type and
    // the permission
    let ty = SymTy::Perm(
        Box::new(SymPerm::Our),
        Box::new(SymTy::Named(
            SymTyName::Aggregate { id: 0, style: dada_core::symir::AggrStyle::Class },
            Box::new(TermList::Nil),
        )),
    );
    let (red, perm) = to_red_ty_with_runtime(&ty, &Vec::new());
    assert!(matches!(red, RedTy::Named(SymTyName::Aggregate { id: 0, .. }, _)));
    assert!(matches!(perm, Some(SymPerm::Our)));
}

#[test]
fn nested_permissions_compose() {
    let ty = SymTy::Perm(
        Box::new(SymPerm::Our),
        Box::new(SymTy::Perm(Box::new(SymPerm::My), Box::new(SymTy::Never))),
    );
    let (red, perm) = to_red_ty_with_runtime(&ty, &Vec::new());
    assert!(matches!(red, RedTy::Never));
    assert!(matches!(perm, Some(SymPerm::Apply(_, _))));
}

#[test]
fn type_inference_variable_splits_off_perm_variable() {
    let ty = SymTy::Infer(0);
    let (red, perm) = to_red_ty_with_runtime(&ty, &vec![7]);
    assert!(matches!(red, RedTy::Infer(0)));
    assert!(matches!(perm, Some(SymPerm::Infer(7))));
}

#[test]
fn red_perm_of_my_and_our() {
    let e = env();
    let store = InferStore::new();
    let my = to_red_perms(&e, &store, &SymPerm::My).unwrap();
    assert_eq!(my.chains.len(), 1);
    assert!(my.chains[0].links.is_empty());
    let our = to_red_perms(&e, &store, &SymPerm::Our).unwrap();
    assert_eq!(our.chains[0].links, vec![RedLink::Our]);
}

#[test]
fn red_perm_of_apply_concatenates() {
    // `mut[p] mut[q]` becomes the chain `Mut(p) Mut(q)`
    let e = env();
    let store = InferStore::new();
    let mut places = PlaceStore::new();
    let p = places.intern(vec![1]);
    let q = places.intern(vec![2]);
    let perm = SymPerm::Apply(
        Box::new(SymPerm::Mutable(PlaceList::one(p))),
        Box::new(SymPerm::Mutable(PlaceList::one(q))),
    );
    let r = to_red_perms(&e, &store, &perm).unwrap();
    assert_eq!(r.chains.len(), 1);
    assert_eq!(r.chains[0].links.len(), 2);
}

#[test]
fn red_perm_copy_rhs_absorbs() {
    // `mut[p] our` is just `our`: a copy permission stands on its own
    let e = env();
    let store = InferStore::new();
    let mut places = PlaceStore::new();
    let p = places.intern(vec![1]);
    let perm = SymPerm::Apply(
        Box::new(SymPerm::Mutable(PlaceList::one(p))),
        Box::new(SymPerm::Our),
    );
    let r = to_red_perms(&e, &store, &perm).unwrap();
    assert_eq!(r.chains.len(), 1);
    assert_eq!(r.chains[0].links, vec![RedLink::Our]);
}

#[test]
fn red_perm_or_is_union() {
    let e = env();
    let store = InferStore::new();
    let perm = SymPerm::Or(Box::new(SymPerm::My), Box::new(SymPerm::Our));
    let r = to_red_perms(&e, &store, &perm).unwrap();
    assert_eq!(r.chains.len(), 2);
}

#[test]
fn red_perm_error_poisons() {
    let e = env();
    let store = InferStore::new();
    let perm = SymPerm::Apply(Box::new(SymPerm::Error(Reported(3))), Box::new(SymPerm::Our));
    assert!(matches!(to_red_perms(&e, &store, &perm), Err(Reported(3))));
}

#[test]
fn primitive_struct_style_predicates() {
    let e = env();
    let store = InferStore::new();
    let tys = no_places();
    let ty = SymTy::Named(
        SymTyName::Primitive(PrimKind::Uint { bits: 32 }),
        Box::new(TermList::Nil),
    );
    // a bare primitive is shared and owned, not lent; not unique (nothing
    // in it moves)
    assert_eq!(ty_is_provably(&e, &store, &tys, &ty, Predicate::Shared, FUEL, OOPS), Ok(true));
    assert_eq!(ty_is_provably(&e, &store, &tys, &ty, Predicate::Owned, FUEL, OOPS), Ok(true));
    assert_eq!(ty_is_provably(&e, &store, &tys, &ty, Predicate::Lent, FUEL, OOPS), Ok(false));
}

#[test]
fn perm_predicates() {
    let e = env();
    let store = InferStore::new();
    let tys = no_places();
    assert_eq!(
        perm_is_provably(&e, &store, &tys, &SymPerm::My, Predicate::Unique, FUEL, OOPS),
        Ok(true)
    );
    assert_eq!(
        perm_is_provably(&e, &store, &tys, &SymPerm::Our, Predicate::Shared, FUEL, OOPS),
        Ok(true)
    );
    assert_eq!(
        perm_is_provably(&e, &store, &tys, &SymPerm::Our, Predicate::Lent, FUEL, OOPS),
        Ok(false)
    );
    // `my our` composes to a shared permission
    let apply = SymPerm::Apply(Box::new(SymPerm::My), Box::new(SymPerm::Our));
    assert_eq!(
        perm_is_provably(&e, &store, &tys, &apply, Predicate::Shared, FUEL, OOPS),
        Ok(true)
    );
}

#[test]
fn fuel_exhaustion_reports() {
    let e = env();
    let store = InferStore::new();
    let tys = no_places();
    assert_eq!(
        perm_is_provably(&e, &store, &tys, &SymPerm::Our, Predicate::Shared, 0, OOPS),
        Err(OOPS)
    );
}

#[test]
fn numeric_type_requirements() {
    let e = env();
    let store = InferStore::new();
    let places = PlaceStore::new();
    let pairs: Vec<u32> = Vec::new();
    let u32_ty = SymTy::Named(
        SymTyName::Primitive(PrimKind::Uint { bits: 32 }),
        Box::new(TermList::Nil),
    );
    let bool_ty = SymTy::Named(
        SymTyName::Primitive(PrimKind::Bool),
        Box::new(TermList::Nil),
    );
    assert_eq!(require_numeric_type(&store, &u32_ty, &pairs, FUEL, OOPS), Ok(()));
    assert_eq!(require_numeric_type(&store, &bool_ty, &pairs, FUEL, OOPS), Err(OOPS));
    // the permission factored off a numeric operand must be above `my`
    let my_u32 = SymTy::Perm(Box::new(SymPerm::My), Box::new(u32_ty));
    assert_eq!(
        require_my_numeric_type(&e, &places, &store, &my_u32, &pairs, FUEL, OOPS),
        Ok(())
    );
    let my_bool = SymTy::Perm(Box::new(SymPerm::My), Box::new(bool_ty));
    assert_eq!(
        require_my_numeric_type(&e, &places, &store, &my_bool, &pairs, FUEL, OOPS),
        Err(OOPS)
    );
}

#[test]
fn combinators() {
    assert_eq!(require(Ok(true), Reported(1)), Ok(()));
    assert_eq!(require(Ok(false), Reported(1)), Err(Reported(1)));
    assert_eq!(require(Err(Reported(2)), Reported(1)), Err(Reported(2)));
    assert_eq!(require_both(Ok(()), Err(Reported(3))), Err(Reported(3)));
    assert_eq!(both(Ok(true), Ok(false)), Ok(false));
    assert_eq!(either(Ok(false), Ok(true)), Ok(true));
    assert_eq!(either(Ok(true), Err(Reported(4))), Ok(true));
    assert_eq!(exists_outcome(&[Ok(false), Ok(true), Err(Reported(5))]), Ok(true));
    assert_eq!(exists_outcome(&[Ok(false), Err(Reported(5)), Ok(true)]), Err(Reported(5)));
    assert_eq!(for_all_outcome(&[Ok(true), Ok(true)]), Ok(true));
    assert_eq!(for_all_outcome(&[Ok(true), Ok(false)]), Ok(false));
    assert_eq!(require_for_all(&[Ok(()), Ok(())]), Ok(()));
    assert_eq!(require_for_all(&[Ok(()), Err(Reported(6))]), Err(Reported(6)));
}

#[test]
fn alternatives() {
    let root = Alternative::root();
    assert!(root.required);
    assert!(root.child(1).required);
    assert!(!root.child(2).required);
    // a required alternative drives the constraint; a speculative one
    // merely tests
    assert_eq!(if_required(root, Ok(()), Ok(false)), Ok(true));
    assert_eq!(if_required(root.child(2), Ok(()), Ok(false)), Ok(false));
    assert_eq!(if_required(root, Err(Reported(9)), Ok(false)), Err(Reported(9)));
}

#[test]
fn variable_symbols() {
    let span = Span { start: 0, end: 1 };
    let v = SymVariable::new_local(3, 10, span);
    assert_eq!(v.kind, SymGenericKind::Place);
    assert_eq!(v.name, Some(10));
    let mut places = PlaceStore::new();
    let term = v.into_generic_term(&mut places);
    assert!(matches!(term, dada_core::symir::SymGenericTerm::Place(_)));
}

#[test]
fn red_ty_fallbacks() {
    assert!(matches!(RedTy::fallback(), RedTy::Never));
    let red = RedTy::Var(4);
    assert!(matches!(red.into_sym_ty(), SymTy::Var(4)));
}
