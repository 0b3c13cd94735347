//! The permission kernel on concrete values: interning, covered-by,
//! chain predicates, and the structural subtyping rules.

use dada_core::Predicate;
use dada_core::Reported;
use dada_core::arena::PlaceStore;
use dada_core::red::DeclEnv;
use dada_core::red::Live;
use dada_core::red::RedChain;
use dada_core::red::RedLink;
use dada_core::red::RedPerm;
use dada_core::red::VarFlags;
use dada_core::subtype::require_sub_red_perms;
use dada_core::subtype::sub_chains;
use dada_core::subtype::sub_perms;

fn chain(links: Vec<RedLink>) -> RedChain {
    RedChain { links }
}

fn perm(chains: Vec<RedChain>) -> RedPerm {
    RedPerm { chains }
}

fn env() -> DeclEnv {
    DeclEnv { flags: Vec::new() }
}

#[test]
fn interning_identity() {
    let mut store = PlaceStore::new();
    let a = store.intern(vec![1]);
    let b = store.intern(vec![1, 2]);
    let a2 = store.intern(vec![1]);
    assert_eq!(a, a2);
    assert_ne!(a, b);
    let b2 = store.intern(vec![1, 2]);
    assert_eq!(b, b2);
}

#[test]
fn covered_by_is_prefix() {
    let mut store = PlaceStore::new();
    let z = store.intern(vec![7]);
    let zf = store.intern(vec![7, 1]);
    let y = store.intern(vec![8]);
    // `z` covers `z.f`; the reverse does not hold
    assert!(store.is_covered_by(z, zf));
    assert!(!store.is_covered_by(zf, z));
    assert!(!store.is_covered_by(z, y));
    assert!(store.is_covered_by(z, z));
}

#[test]
fn chain_predicates() {
    let e = env();
    let our = chain(vec![RedLink::Our]);
    assert_eq!(our.is_provably(&e, Predicate::Shared), Ok(true));
    assert_eq!(our.is_provably(&e, Predicate::Owned), Ok(true));
    assert_eq!(our.is_provably(&e, Predicate::Unique), Ok(false));
    assert_eq!(our.is_provably(&e, Predicate::Lent), Ok(false));

    let empty = chain(vec![]);
    // the empty chain is `my`: unique and owned, not shared
    assert_eq!(empty.is_provably(&e, Predicate::Unique), Ok(true));
    assert_eq!(empty.is_provably(&e, Predicate::Owned), Ok(true));
    assert_eq!(empty.is_provably(&e, Predicate::Shared), Ok(false));
}

#[test]
fn mut_chain_is_move_and_lent() {
    let e = env();
    let mut store = PlaceStore::new();
    let p = store.intern(vec![1]);
    let c = chain(vec![RedLink::Mut(Live(true), p)]);
    assert_eq!(c.is_provably(&e, Predicate::Unique), Ok(true));
    assert_eq!(c.is_provably(&e, Predicate::Lent), Ok(true));
    assert_eq!(c.is_provably(&e, Predicate::Shared), Ok(false));
    assert_eq!(c.is_provably(&e, Predicate::Owned), Ok(false));
}

#[test]
fn declared_variable_predicates() {
    let e = DeclEnv {
        flags: vec![VarFlags { shared: true, unique: false, owned: false, lent: false }],
    };
    let c = chain(vec![RedLink::Var(0)]);
    assert_eq!(c.is_provably(&e, Predicate::Shared), Ok(true));
    assert_eq!(c.is_provably(&e, Predicate::Unique), Ok(false));
    // an undeclared variable has no provable predicates
    let c9 = chain(vec![RedLink::Var(9)]);
    assert_eq!(c9.is_provably(&e, Predicate::Shared), Ok(false));
}

#[test]
fn error_link_poisons() {
    let e = env();
    let c = chain(vec![RedLink::Error(Reported(7))]);
    assert_eq!(c.is_provably(&e, Predicate::Shared), Err(Reported(7)));
    let store = PlaceStore::new();
    let ok = chain(vec![RedLink::Our]);
    assert_eq!(sub_chains(&e, &store, &c, &ok), Err(Reported(7)));
}

#[test]
fn my_below_everything() {
    let e = env();
    let mut store = PlaceStore::new();
    let p = store.intern(vec![1]);
    let my = chain(vec![]);
    for upper in [
        chain(vec![]),
        chain(vec![RedLink::Our]),
        chain(vec![RedLink::Ref(Live(true), p)]),
        chain(vec![RedLink::Mut(Live(true), p)]),
    ] {
        assert_eq!(sub_chains(&e, &store, &my, &upper), Ok(true));
    }
}

#[test]
fn below_my_only_if_my() {
    let e = env();
    let mut store = PlaceStore::new();
    let p = store.intern(vec![1]);
    let my = chain(vec![]);
    assert_eq!(sub_chains(&e, &store, &chain(vec![RedLink::Our]), &my), Ok(false));
    assert_eq!(
        sub_chains(&e, &store, &chain(vec![RedLink::Mut(Live(true), p)]), &my),
        Ok(false)
    );
    assert_eq!(sub_chains(&e, &store, &chain(vec![]), &my), Ok(true));
}

#[test]
fn our_below_iff_shared() {
    let e = env();
    let mut store = PlaceStore::new();
    let p = store.intern(vec![1]);
    let our = chain(vec![RedLink::Our]);
    // shared chains are above `our`
    assert_eq!(
        sub_chains(&e, &store, &our, &chain(vec![RedLink::Ref(Live(true), p)])),
        Ok(true)
    );
    assert_eq!(sub_chains(&e, &store, &our, &chain(vec![RedLink::Our])), Ok(true));
    // a move chain is not
    assert_eq!(
        sub_chains(&e, &store, &our, &chain(vec![RedLink::Mut(Live(true), p)])),
        Ok(false)
    );
}

#[test]
fn mutable_lease_covers_subplace() {
    // given `p: mut[z.f] T` and a function expecting `mut[z] T`, the call
    // rejects; the opposite direction is accepted
    let e = env();
    let mut store = PlaceStore::new();
    let z = store.intern(vec![3]);
    let zf = store.intern(vec![3, 0]);
    let have = chain(vec![RedLink::Mut(Live(true), zf)]);
    let want = chain(vec![RedLink::Mut(Live(true), z)]);
    assert_eq!(sub_chains(&e, &store, &have, &want), Ok(false));
    assert_eq!(sub_chains(&e, &store, &want, &have), Ok(true));
}

#[test]
fn reflexivity_on_concrete_perms() {
    let e = env();
    let mut store = PlaceStore::new();
    let p = store.intern(vec![1, 2]);
    let q = store.intern(vec![1]);
    let rp = perm(vec![
        chain(vec![RedLink::Our]),
        chain(vec![RedLink::Ref(Live(true), p), RedLink::Mut(Live(false), q)]),
    ]);
    assert_eq!(sub_perms(&e, &store, &rp, &rp), Ok(true));
}

#[test]
fn transitivity_on_concrete_chains() {
    let e = env();
    let mut store = PlaceStore::new();
    let x = store.intern(vec![1]);
    let xf = store.intern(vec![1, 4]);
    let xfg = store.intern(vec![1, 4, 5]);
    let a = chain(vec![RedLink::Ref(Live(true), x)]);
    let b = chain(vec![RedLink::Ref(Live(true), xf)]);
    let c = chain(vec![RedLink::Ref(Live(true), xfg)]);
    assert_eq!(sub_chains(&e, &store, &a, &b), Ok(true));
    assert_eq!(sub_chains(&e, &store, &b, &c), Ok(true));
    assert_eq!(sub_chains(&e, &store, &a, &c), Ok(true));
}

#[test]
fn head_trim_ref_below_our_chain() {
    // `ref[p] <= our mut[p]` by trimming the `Our` head
    let e = env();
    let mut store = PlaceStore::new();
    let p = store.intern(vec![2]);
    let lower = chain(vec![RedLink::Ref(Live(true), p)]);
    let upper = chain(vec![RedLink::Our, RedLink::Mut(Live(true), p)]);
    assert_eq!(sub_chains(&e, &store, &lower, &upper), Ok(true));
    // but not below the bare `[Our]`
    assert_eq!(sub_chains(&e, &store, &lower, &chain(vec![RedLink::Our])), Ok(false));
}

#[test]
fn variable_chain_below_our_needs_shared_and_owned() {
    let shared_owned = DeclEnv {
        flags: vec![VarFlags { shared: true, unique: false, owned: true, lent: false }],
    };
    let shared_only = DeclEnv {
        flags: vec![VarFlags { shared: true, unique: false, owned: false, lent: false }],
    };
    let store = PlaceStore::new();
    let x = chain(vec![RedLink::Var(0)]);
    let our = chain(vec![RedLink::Our]);
    assert_eq!(sub_chains(&shared_owned, &store, &x, &our), Ok(true));
    assert_eq!(sub_chains(&shared_only, &store, &x, &our), Ok(false));
}

#[test]
fn require_sub_reports_or_else() {
    let e = env();
    let mut store = PlaceStore::new();
    let p = store.intern(vec![1]);
    let lower = perm(vec![chain(vec![RedLink::Mut(Live(true), p)])]);
    let upper = perm(vec![chain(vec![RedLink::Our])]);
    assert_eq!(
        require_sub_red_perms(&e, &store, &lower, &upper, Reported(42)),
        Err(Reported(42))
    );
    assert_eq!(
        require_sub_red_perms(&e, &store, &upper, &upper, Reported(42)),
        Ok(())
    );
}

#[test]
fn no_chain_is_shared_and_unique() {
    let e = env();
    let mut store = PlaceStore::new();
    let p = store.intern(vec![1]);
    for c in [
        chain(vec![]),
        chain(vec![RedLink::Our]),
        chain(vec![RedLink::Ref(Live(true), p)]),
        chain(vec![RedLink::Mut(Live(true), p)]),
    ] {
        let sh = c.is_provably(&e, Predicate::Shared) == Ok(true);
        let uq = c.is_provably(&e, Predicate::Unique) == Ok(true);
        assert!(!(sh && uq));
        let ow = c.is_provably(&e, Predicate::Owned) == Ok(true);
        let lt = c.is_provably(&e, Predicate::Lent) == Ok(true);
        assert!(!(ow && lt));
    }
}

#[test]
fn is_our_is_shared_and_owned() {
    let e = env();
    let our = perm(vec![chain(vec![RedLink::Our])]);
    assert_eq!(our.is_our(&e), Ok(true));
    let my = RedPerm::fallback();
    assert_eq!(my.is_our(&e), Ok(false));
}

#[test]
fn opposite_predicates() {
    assert_eq!(Predicate::Shared.opposite(), Predicate::Unique);
    assert_eq!(Predicate::Owned.opposite(), Predicate::Lent);
    assert_eq!(Predicate::Lent.opposite(), Predicate::Owned);
    assert_eq!(Predicate::Unique.opposite(), Predicate::Shared);
}
