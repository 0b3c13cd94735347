//! The inference store: monotone bounds, recorded predicates, splicing
//! against bounds, and the join that inference convergence relies on.

use dada_core::Predicate;
use dada_core::Reported;
use dada_core::arena::PlaceStore;
use dada_core::infer::Direction;
use dada_core::infer::InferStore;
use dada_core::infer::InferVarKind;
use dada_core::infer::join_perms;
use dada_core::infer::require_infer_is;
use dada_core::infer::require_infer_isnt;
use dada_core::infer::require_var_is;
use dada_core::infer::splice_lower_bound;
use dada_core::infer::splice_upper_bound;
use dada_core::infer::test_perm_infer_is_known_to_be;
use dada_core::infer::test_var_is_provably;
use dada_core::red::DeclEnv;
use dada_core::red::Live;
use dada_core::red::RedChain;
use dada_core::red::RedLink;
use dada_core::red::RedPerm;
use dada_core::red::VarFlags;

fn chain(links: Vec<RedLink>) -> RedChain {
    RedChain { links }
}

fn env() -> DeclEnv {
    DeclEnv { flags: Vec::new() }
}

#[test]
fn bounds_are_append_only_and_deduplicated() {
    let mut store = InferStore::new();
    let v = store.new_var(InferVarKind::Perm);
    let c = chain(vec![RedLink::Our]);
    assert!(store.insert_chain_bound(v, &c, Direction::FromBelow));
    // a duplicate is a no-op
    assert!(!store.insert_chain_bound(v, &c, Direction::FromBelow));
    // the same chain in the other direction is new knowledge
    assert!(store.insert_chain_bound(v, &c, Direction::FromAbove));
    let below = store.chain_bounds(v, Direction::FromBelow);
    assert_eq!(below.len(), 1);
    assert_eq!(below[0].links, vec![RedLink::Our]);
}

#[test]
fn require_is_then_isnt_contradicts() {
    let mut store = InferStore::new();
    let v = store.new_var(InferVarKind::Perm);
    assert_eq!(require_infer_is(&mut store, v, Predicate::Shared, Reported(1)), Ok(()));
    // recording the same knowledge again is fine
    assert_eq!(require_infer_is(&mut store, v, Predicate::Shared, Reported(2)), Ok(()));
    // the opposite recording errors through the or-else
    assert_eq!(
        require_infer_isnt(&mut store, v, Predicate::Shared, Reported(3)),
        Err(Reported(3))
    );
}

#[test]
fn test_perm_infer_from_lower_bounds() {
    // sharedness travels up from a lower bound
    let e = env();
    let mut store = InferStore::new();
    let v = store.new_var(InferVarKind::Perm);
    assert_eq!(test_perm_infer_is_known_to_be(&e, &store, v, Predicate::Shared), Ok(false));
    store.insert_chain_bound(v, &chain(vec![RedLink::Our]), Direction::FromBelow);
    assert_eq!(test_perm_infer_is_known_to_be(&e, &store, v, Predicate::Shared), Ok(true));
}

#[test]
fn test_perm_infer_from_upper_bounds() {
    // uniqueness is imposed down from the upper bounds: with no upper
    // bound nothing contradicts it, and a shared upper bound refutes it
    let e = env();
    let mut store = InferStore::new();
    let v = store.new_var(InferVarKind::Perm);
    assert_eq!(test_perm_infer_is_known_to_be(&e, &store, v, Predicate::Unique), Ok(true));
    store.insert_chain_bound(v, &chain(vec![RedLink::Our]), Direction::FromAbove);
    assert_eq!(test_perm_infer_is_known_to_be(&e, &store, v, Predicate::Unique), Ok(false));
}

#[test]
fn splicing_lower_bound_against_requirement() {
    // given `?X` with lower bound `ref[a]`, the requirement `?X <= ref[b]`
    // succeeds exactly when `b` covers `a`
    let e = env();
    let mut places = PlaceStore::new();
    let a = places.intern(vec![1]);
    let b_covering = places.intern(vec![1, 2]);
    let b_unrelated = places.intern(vec![9]);
    let mut store = InferStore::new();
    let v = store.new_var(InferVarKind::Perm);
    store.insert_chain_bound(
        v,
        &chain(vec![RedLink::Ref(Live(true), a)]),
        Direction::FromBelow,
    );
    let yes = chain(vec![RedLink::Ref(Live(true), b_covering)]);
    let no = chain(vec![RedLink::Ref(Live(true), b_unrelated)]);
    assert_eq!(splice_lower_bound(&e, &places, &store, v, &[], &yes), Ok(true));
    assert_eq!(splice_lower_bound(&e, &places, &store, v, &[], &no), Ok(false));
}

#[test]
fn splicing_upper_bound_against_lower_chain() {
    // `L <= ?U0` holds when `L` is below some upper bound of `?U0`
    let e = env();
    let mut places = PlaceStore::new();
    let a = places.intern(vec![1]);
    let b = places.intern(vec![1, 2]);
    let mut store = InferStore::new();
    let v = store.new_var(InferVarKind::Perm);
    store.insert_chain_bound(
        v,
        &chain(vec![RedLink::Ref(Live(true), b)]),
        Direction::FromAbove,
    );
    let below = chain(vec![RedLink::Ref(Live(true), a)]);
    let unrelated = chain(vec![RedLink::Mut(Live(true), a)]);
    assert_eq!(splice_upper_bound(&e, &places, &store, &below, v, &[]), Ok(true));
    assert_eq!(splice_upper_bound(&e, &places, &store, &unrelated, v, &[]), Ok(false));
}

#[test]
fn inference_converges_to_our() {
    // `let x = if cond { v } else { w }` with `v: my String` and
    // `w: our String`: the bounds `my` and `our` join to `our`
    let e = env();
    let places = PlaceStore::new();
    let my = RedPerm::fallback();
    let our = RedPerm { chains: vec![chain(vec![RedLink::Our])] };
    let j = join_perms(&e, &places, &my, &our).unwrap();
    assert_eq!(j.chains.len(), 1);
    assert_eq!(j.chains[0].links, vec![RedLink::Our]);
    // the join is an upper bound in the other order too
    let j2 = join_perms(&e, &places, &our, &my).unwrap();
    assert_eq!(j2.chains.len(), 1);
    assert_eq!(j2.chains[0].links, vec![RedLink::Our]);
}

#[test]
fn join_of_unrelated_chains_is_their_union() {
    let e = env();
    let mut places = PlaceStore::new();
    let p = places.intern(vec![1]);
    let q = places.intern(vec![2]);
    let a = RedPerm { chains: vec![chain(vec![RedLink::Mut(Live(true), p)])] };
    let b = RedPerm { chains: vec![chain(vec![RedLink::Mut(Live(true), q)])] };
    let j = join_perms(&e, &places, &a, &b).unwrap();
    assert_eq!(j.chains.len(), 2);
}

#[test]
fn declared_variable_tests() {
    let e = DeclEnv {
        flags: vec![VarFlags { shared: false, unique: true, owned: true, lent: false }],
    };
    assert!(test_var_is_provably(&e, 0, Predicate::Unique));
    assert!(!test_var_is_provably(&e, 0, Predicate::Shared));
    assert_eq!(require_var_is(&e, 0, Predicate::Owned, Reported(5)), Ok(()));
    assert_eq!(require_var_is(&e, 0, Predicate::Lent, Reported(5)), Err(Reported(5)));
}
