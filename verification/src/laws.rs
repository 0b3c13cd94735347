//! Laws of the subtyping and predicate kernel.
//!
//! Chain subtyping is reflexive, and transitive under declarations that do
//! not alias a variable to `my` or `our` (no variable declared owned
//! together with shared or unique; the structural rules do not chase such
//! aliases). `my` is below every permission, anything below `my` is
//! provably `my`, and `[Our]` is below a chain exactly when that chain is
//! provably shared. Consistent declarations never prove a chain both
//! shared and unique, nor both owned and lent.

use vstd::prelude::*;

use crate::Predicate;
use crate::red::DeclEnv;
use crate::red::RedChain;
use crate::red::RedLink;
use crate::red::RedPerm;
use crate::subtype::links_provably_my;
use crate::subtype::spec_sub_chain_in;
use crate::subtype::spec_sub_links;
use crate::subtype::spec_sub_perms;
use crate::arena::is_prefix_of;

verus! {

pub open spec fn seq_err_free(s: Seq<RedLink>) -> bool {
    forall|i: int| 0 <= i < s.len() ==> (#[trigger] s[i]).err_free()
}

pub open spec fn seq_infer_free(s: Seq<RedLink>) -> bool {
    forall|i: int| 0 <= i < s.len() ==> (#[trigger] s[i]).infer_free()
}

pub open spec fn seq_wf(s: Seq<RedLink>) -> bool {
    seq_err_free(s) && seq_infer_free(s)
}

pub open spec fn chains_wf(s: Seq<RedChain>) -> bool {
    forall|i: int| 0 <= i < s.len() ==> seq_wf((#[trigger] s[i]).links@)
}

proof fn lemma_prefix_refl(p: Seq<u32>)
    ensures
        is_prefix_of(p, p),
{
    assert(p.subrange(0, p.len() as int) =~= p);
}

proof fn lemma_prefix_trans(x: Seq<u32>, y: Seq<u32>, z: Seq<u32>)
    requires
        is_prefix_of(x, y),
        is_prefix_of(y, z),
    ensures
        is_prefix_of(x, z),
{
    assert forall|i: int| 0 <= i < x.len() implies x[i] == z[i] by {
        assert(x[i] == y.subrange(0, x.len() as int)[i]);
        assert(y[i] == z.subrange(0, y.len() as int)[i]);
    }
    assert(x =~= z.subrange(0, x.len() as int));
}

/// Reflexivity at the chain level: every error-free chain is below
/// itself.
pub proof fn lemma_sub_links_refl(env: &DeclEnv, places: Seq<Seq<u32>>, c: Seq<RedLink>)
    requires
        seq_wf(c),
    ensures
        spec_sub_links(env, places, c, c) == Ok::<bool, crate::Reported>(true),
    decreases c.len(),
{
    if c.len() == 0 {
    } else {
        assert(seq_wf(c.drop_first()));
        lemma_sub_links_refl(env, places, c.drop_first());
        match c.first() {
            RedLink::Our => {},
            RedLink::Ref(_, p) => {
                lemma_prefix_refl(places[p.0 as int]);
            },
            RedLink::Mut(_, p) => {
                lemma_prefix_refl(places[p.0 as int]);
            },
            RedLink::Var(_) => {},
            RedLink::Infer(_) => {
                assert(false);
            },
            RedLink::Error(_) => {
                assert(false);
            },
        }
    }
}

/// An error-free comparison never reports an error.
pub proof fn lemma_are_move_no_err(env: &DeclEnv, c: Seq<RedLink>)
    requires
        seq_err_free(c),
    ensures
        !(RedLink::are_move_spec(env, c) is Err),
    decreases c.len(),
{
    if c.len() > 0 {
        assert(seq_err_free(c.drop_first()));
        lemma_are_move_no_err(env, c.drop_first());
    }
}

pub proof fn lemma_are_owned_no_err(env: &DeclEnv, c: Seq<RedLink>)
    requires
        seq_err_free(c),
    ensures
        !(RedLink::are_owned_spec(env, c) is Err),
    decreases c.len(),
{
    if c.len() > 0 {
        assert(seq_err_free(c.drop_first()));
        lemma_are_owned_no_err(env, c.drop_first());
    }
}

pub proof fn lemma_sub_links_no_err(
    env: &DeclEnv,
    places: Seq<Seq<u32>>,
    a: Seq<RedLink>,
    b: Seq<RedLink>,
)
    requires
        seq_wf(a),
        seq_wf(b),
    ensures
        !(spec_sub_links(env, places, a, b) is Err),
    decreases a.len() + b.len(),
{
    if a.len() == 0 {
    } else if b.len() == 0 {
        lemma_are_move_no_err(env, a);
        lemma_are_owned_no_err(env, a);
    } else {
        assert(seq_wf(a.drop_first()));
        assert(seq_wf(b.drop_first()));
        match (a.first(), b.first()) {
            (RedLink::Ref(l0, p0), RedLink::Our) => {
                if b.len() >= 2 {
                    let a2 = seq![RedLink::Mut(l0, p0)] + a.drop_first();
                    assert(seq_wf(a2));
                    lemma_sub_links_no_err(env, places, a2, b.drop_first());
                }
            },
            _ => {
                lemma_sub_links_no_err(env, places, a.drop_first(), b.drop_first());
            },
        }
    }
}

/// In-order search over error-free chains never reports an error.
pub proof fn lemma_chain_in_no_err(
    env: &DeclEnv,
    places: Seq<Seq<u32>>,
    lower: Seq<RedLink>,
    uppers: Seq<RedChain>,
)
    requires
        seq_wf(lower),
        chains_wf(uppers),
    ensures
        !(spec_sub_chain_in(env, places, lower, uppers) is Err),
    decreases uppers.len(),
{
    if uppers.len() > 0 {
        assert(seq_wf(uppers[0].links@));
        lemma_sub_links_no_err(env, places, lower, uppers.first().links@);
        assert(chains_wf(uppers.drop_first()));
        lemma_chain_in_no_err(env, places, lower, uppers.drop_first());
    }
}

/// Red permission subtyping over error-free permissions never reports an
/// error.
pub proof fn lemma_sub_perms_no_err(
    env: &DeclEnv,
    places: Seq<Seq<u32>>,
    lowers: Seq<RedChain>,
    uppers: Seq<RedChain>,
)
    requires
        chains_wf(lowers),
        chains_wf(uppers),
    ensures
        !(spec_sub_perms(env, places, lowers, uppers) is Err),
    decreases lowers.len(),
{
    if lowers.len() > 0 {
        assert(seq_wf(lowers[0].links@));
        lemma_chain_in_no_err(env, places, lowers.first().links@, uppers);
        assert(chains_wf(lowers.drop_first()));
        lemma_sub_perms_no_err(env, places, lowers.drop_first(), uppers);
    }
}

/// A chain provably `my` is the empty chain, when no variable is declared
/// owned together with unique.
pub proof fn lemma_my_empty(env: &DeclEnv, c: Seq<RedLink>)
    requires
        seq_wf(c),
        env.no_owned_alias(),
        links_provably_my(env, c) == Ok::<bool, crate::Reported>(true),
    ensures
        c.len() == 0,
{
    if c.len() > 0 {
        assert(RedLink::are_move_spec(env, c) == Ok::<bool, crate::Reported>(true));
        assert(RedLink::are_owned_spec(env, c) == Ok::<bool, crate::Reported>(true));
        assert(c.first().is_move_spec(env) == Ok::<bool, crate::Reported>(true));
        assert(c.first().is_owned_spec(env) == Ok::<bool, crate::Reported>(true));
        match c.first() {
            RedLink::Var(v) => {
                assert(env.declared(v, Predicate::Unique) && env.declared(v, Predicate::Owned));
                assert(false);
            },
            _ => {
                assert(false);
            },
        }
    }
}

/// Sharedness travels up the subtyping relation: whatever is above a
/// provably shared chain is provably shared.
pub proof fn lemma_shared_preserved(
    env: &DeclEnv,
    places: Seq<Seq<u32>>,
    b: Seq<RedLink>,
    c: Seq<RedLink>,
)
    requires
        seq_wf(b),
        seq_wf(c),
        env.consistent(),
        env.no_owned_alias(),
        spec_sub_links(env, places, b, c) == Ok::<bool, crate::Reported>(true),
        RedLink::are_copy_spec(env, b) == Ok::<bool, crate::Reported>(true),
    ensures
        RedLink::are_copy_spec(env, c) == Ok::<bool, crate::Reported>(true),
{
    assert(b.len() > 0);
    if c.len() == 0 {
        lemma_my_empty(env, b);
        assert(false);
    } else {
        match (b.first(), c.first()) {
            (RedLink::Our, _) => {
                if b.len() == 1 {
                } else {
                    assert(c.first() == RedLink::Our);
                }
            },
            (RedLink::Ref(_, _), RedLink::Our) => {},
            (RedLink::Ref(_, _), RedLink::Ref(_, _)) => {},
            (RedLink::Var(v0), RedLink::Our) => {
                // the `[X] <= [Our]` rule needs `X` owned and shared,
                // which `no_owned_alias` rules out
                assert(false);
            },
            (RedLink::Var(v0), RedLink::Var(v1)) => {
                assert(v0 == v1);
            },
            _ => {
                assert(false);
            },
        }
    }
}

/// Transitivity at the chain level, under declarations without owned
/// aliases.
pub proof fn lemma_sub_links_trans(
    env: &DeclEnv,
    places: Seq<Seq<u32>>,
    a: Seq<RedLink>,
    b: Seq<RedLink>,
    c: Seq<RedLink>,
)
    requires
        seq_wf(a),
        seq_wf(b),
        seq_wf(c),
        env.consistent(),
        env.no_owned_alias(),
        spec_sub_links(env, places, a, b) == Ok::<bool, crate::Reported>(true),
        spec_sub_links(env, places, b, c) == Ok::<bool, crate::Reported>(true),
    ensures
        spec_sub_links(env, places, a, c) == Ok::<bool, crate::Reported>(true),
    decreases a.len() + b.len() + c.len(),
{
    if a.len() == 0 {
        return ;
    }
    if b.len() == 0 {
        lemma_my_empty(env, a);
        return ;
    }
    if c.len() == 0 {
        lemma_my_empty(env, b);
        assert(spec_sub_links(env, places, a, b) == links_provably_my(env, a));
        lemma_my_empty(env, a);
        return ;
    }
    let ta = a.drop_first();
    let tb = b.drop_first();
    let tc = c.drop_first();
    assert(seq_wf(ta));
    assert(seq_wf(tb));
    assert(seq_wf(tc));
    match a.first() {
        RedLink::Our => {
            if a.len() == 1 {
                // `[Our] <= b` means `b` is shared; sharedness travels up
                lemma_shared_preserved(env, places, b, c);
            } else {
                assert(b.first() == RedLink::Our);
                assert(spec_sub_links(env, places, ta, tb) == Ok::<bool, crate::Reported>(true));
                if b.len() == 1 {
                    lemma_my_empty(env, ta);
                    assert(false);
                } else {
                    assert(c.first() == RedLink::Our);
                    assert(spec_sub_links(env, places, tb, tc) == Ok::<bool, crate::Reported>(
                        true,
                    ));
                    lemma_sub_links_trans(env, places, ta, tb, tc);
                }
            }
        },
        RedLink::Mut(_, p0) => {
            match b.first() {
                RedLink::Mut(_, p1) => {
                    match c.first() {
                        RedLink::Mut(_, p2) => {
                            lemma_prefix_trans(
                                places[p0.0 as int],
                                places[p1.0 as int],
                                places[p2.0 as int],
                            );
                            lemma_sub_links_trans(env, places, ta, tb, tc);
                        },
                        _ => {
                            assert(false);
                        },
                    }
                },
                _ => {
                    assert(false);
                },
            }
        },
        RedLink::Ref(l0, p0) => {
            match b.first() {
                RedLink::Ref(l1, p1) => {
                    match c.first() {
                        RedLink::Ref(_, p2) => {
                            lemma_prefix_trans(
                                places[p0.0 as int],
                                places[p1.0 as int],
                                places[p2.0 as int],
                            );
                            lemma_sub_links_trans(env, places, ta, tb, tc);
                        },
                        RedLink::Our => {
                            assert(c.len() >= 2);
                            let a2 = seq![RedLink::Mut(l0, p0)] + ta;
                            let b2 = seq![RedLink::Mut(l1, p1)] + tb;
                            assert(seq_wf(a2));
                            assert(seq_wf(b2));
                            assert(spec_sub_links(env, places, b2, tc) == Ok::<
                                bool,
                                crate::Reported,
                            >(true));
                            // `a2 <= b2` holds by the `Mut`/`Mut` rule
                            assert(a2.first() == RedLink::Mut(l0, p0));
                            assert(b2.first() == RedLink::Mut(l1, p1));
                            assert(a2.drop_first() =~= ta);
                            assert(b2.drop_first() =~= tb);
                            assert(spec_sub_links(env, places, a2, b2) == Ok::<
                                bool,
                                crate::Reported,
                            >(true));
                            lemma_sub_links_trans(env, places, a2, b2, tc);
                        },
                        _ => {
                            assert(false);
                        },
                    }
                },
                RedLink::Our => {
                    assert(b.len() >= 2);
                    let a2 = seq![RedLink::Mut(l0, p0)] + ta;
                    assert(seq_wf(a2));
                    assert(spec_sub_links(env, places, a2, tb) == Ok::<bool, crate::Reported>(
                        true,
                    ));
                    // `b = Our tb` with `tb` non-empty forces `c = Our tc`
                    assert(c.first() == RedLink::Our);
                    assert(spec_sub_links(env, places, tb, tc) == Ok::<bool, crate::Reported>(
                        true,
                    ));
                    if c.len() == 1 {
                        lemma_my_empty(env, tb);
                        assert(false);
                    } else {
                        lemma_sub_links_trans(env, places, a2, tb, tc);
                    }
                },
                _ => {
                    assert(false);
                },
            }
        },
        RedLink::Var(v0) => {
            match b.first() {
                RedLink::Var(v1) => {
                    assert(v0 == v1);
                    match c.first() {
                        RedLink::Var(v2) => {
                            assert(v1 == v2);
                            lemma_sub_links_trans(env, places, ta, tb, tc);
                        },
                        RedLink::Our => {
                            // `[X] <= [Our]` needs `X` owned, excluded
                            assert(false);
                        },
                        _ => {
                            assert(false);
                        },
                    }
                },
                RedLink::Our => {
                    assert(false);
                },
                _ => {
                    assert(false);
                },
            }
        },
        RedLink::Infer(_) => {
            assert(false);
        },
        RedLink::Error(_) => {
            assert(false);
        },
    }
}

/// If some chain of `uppers` is above `lower`, the in-order search finds
/// one, provided no chain errors on the way.
pub proof fn lemma_chain_in_witness(
    env: &DeclEnv,
    places: Seq<Seq<u32>>,
    lower: Seq<RedLink>,
    uppers: Seq<RedChain>,
    j: int,
)
    requires
        seq_wf(lower),
        chains_wf(uppers),
        0 <= j < uppers.len(),
        spec_sub_links(env, places, lower, uppers[j].links@) == Ok::<bool, crate::Reported>(true),
    ensures
        spec_sub_chain_in(env, places, lower, uppers) == Ok::<bool, crate::Reported>(true),
    decreases uppers.len(),
{
    assert(seq_wf(uppers[0].links@));
    lemma_sub_links_no_err(env, places, lower, uppers[0].links@);
    if j == 0 {
    } else {
        match spec_sub_links(env, places, lower, uppers.first().links@) {
            Ok(true) => {},
            Ok(false) => {
                assert(chains_wf(uppers.drop_first()));
                assert(uppers.drop_first()[j - 1] == uppers[j]);
                lemma_chain_in_witness(env, places, lower, uppers.drop_first(), j - 1);
            },
            Err(_) => {
                assert(false);
            },
        }
    }
}

/// Reflexivity of red permission subtyping: every well-formed, error-free
/// permission is below itself.
pub proof fn lemma_sub_perms_refl(env: &DeclEnv, places: Seq<Seq<u32>>, p: &RedPerm)
    requires
        p.wf(),
        chains_wf(p.chains@),
    ensures
        spec_sub_perms(env, places, p.chains@, p.chains@) == Ok::<bool, crate::Reported>(true),
{
    lemma_sub_perms_contained(env, places, p.chains@, p.chains@);
}

/// Every permission whose chains all appear among `uppers` is below
/// `uppers`.
pub proof fn lemma_sub_perms_contained(
    env: &DeclEnv,
    places: Seq<Seq<u32>>,
    lowers: Seq<RedChain>,
    uppers: Seq<RedChain>,
)
    requires
        chains_wf(lowers),
        chains_wf(uppers),
        forall|i: int|
            0 <= i < lowers.len() ==> exists|j: int|
                0 <= j < uppers.len() && (#[trigger] lowers[i]).links@ == uppers[j].links@,
    ensures
        spec_sub_perms(env, places, lowers, uppers) == Ok::<bool, crate::Reported>(true),
    decreases lowers.len(),
{
    if lowers.len() > 0 {
        let c = lowers.first();
        assert(seq_wf(lowers[0].links@));
        let j = choose|j: int| 0 <= j < uppers.len() && lowers[0].links@ == uppers[j].links@;
        lemma_sub_links_refl(env, places, c.links@);
        lemma_chain_in_witness(env, places, c.links@, uppers, j);
        assert(chains_wf(lowers.drop_first()));
        assert(forall|i: int|
            0 <= i < lowers.drop_first().len() ==> (#[trigger] lowers.drop_first()[i]).links@
                == lowers[i + 1].links@);
        lemma_sub_perms_contained(env, places, lowers.drop_first(), uppers);
    }
}

/// Transitivity of red permission subtyping.
pub proof fn lemma_sub_perms_trans(
    env: &DeclEnv,
    places: Seq<Seq<u32>>,
    a: &RedPerm,
    b: &RedPerm,
    c: &RedPerm,
)
    requires
        chains_wf(a.chains@),
        chains_wf(b.chains@),
        chains_wf(c.chains@),
        env.consistent(),
        env.no_owned_alias(),
        spec_sub_perms(env, places, a.chains@, b.chains@) == Ok::<bool, crate::Reported>(true),
        spec_sub_perms(env, places, b.chains@, c.chains@) == Ok::<bool, crate::Reported>(true),
    ensures
        spec_sub_perms(env, places, a.chains@, c.chains@) == Ok::<bool, crate::Reported>(true),
{
    lemma_sub_perms_trans_aux(env, places, a.chains@, b.chains@, c.chains@);
}

proof fn lemma_chain_in_found(
    env: &DeclEnv,
    places: Seq<Seq<u32>>,
    lower: Seq<RedLink>,
    uppers: Seq<RedChain>,
) -> (j: int)
    requires
        spec_sub_chain_in(env, places, lower, uppers) == Ok::<bool, crate::Reported>(true),
    ensures
        0 <= j < uppers.len(),
        spec_sub_links(env, places, lower, uppers[j].links@) == Ok::<bool, crate::Reported>(true),
    decreases uppers.len(),
{
    if spec_sub_links(env, places, lower, uppers.first().links@) == Ok::<bool, crate::Reported>(
        true,
    ) {
        0
    } else {
        let j = lemma_chain_in_found(env, places, lower, uppers.drop_first()) + 1;
        assert(uppers.drop_first()[j - 1] == uppers[j]);
        j
    }
}

proof fn lemma_sub_perms_all(
    env: &DeclEnv,
    places: Seq<Seq<u32>>,
    lowers: Seq<RedChain>,
    uppers: Seq<RedChain>,
    i: int,
)
    requires
        spec_sub_perms(env, places, lowers, uppers) == Ok::<bool, crate::Reported>(true),
        0 <= i < lowers.len(),
    ensures
        spec_sub_chain_in(env, places, lowers[i].links@, uppers) == Ok::<bool, crate::Reported>(
            true,
        ),
    decreases lowers.len(),
{
    if i == 0 {
    } else {
        assert(lowers.drop_first()[i - 1] == lowers[i]);
        lemma_sub_perms_all(env, places, lowers.drop_first(), uppers, i - 1);
    }
}

proof fn lemma_sub_perms_from_all(
    env: &DeclEnv,
    places: Seq<Seq<u32>>,
    lowers: Seq<RedChain>,
    uppers: Seq<RedChain>,
)
    requires
        chains_wf(lowers),
        chains_wf(uppers),
        forall|i: int|
            0 <= i < lowers.len() ==> spec_sub_chain_in(
                env,
                places,
                (#[trigger] lowers[i]).links@,
                uppers,
            ) == Ok::<bool, crate::Reported>(true),
    ensures
        spec_sub_perms(env, places, lowers, uppers) == Ok::<bool, crate::Reported>(true),
    decreases lowers.len(),
{
    if lowers.len() > 0 {
        assert(spec_sub_chain_in(env, places, lowers[0].links@, uppers) == Ok::<
            bool,
            crate::Reported,
        >(true));
        assert(chains_wf(lowers.drop_first()));
        assert(forall|i: int|
            0 <= i < lowers.drop_first().len() ==> (#[trigger] lowers.drop_first()[i]).links@
                == lowers[i + 1].links@);
        lemma_sub_perms_from_all(env, places, lowers.drop_first(), uppers);
    }
}

proof fn lemma_sub_perms_trans_aux(
    env: &DeclEnv,
    places: Seq<Seq<u32>>,
    aa: Seq<RedChain>,
    bb: Seq<RedChain>,
    cc: Seq<RedChain>,
)
    requires
        chains_wf(aa),
        chains_wf(bb),
        chains_wf(cc),
        env.consistent(),
        env.no_owned_alias(),
        spec_sub_perms(env, places, aa, bb) == Ok::<bool, crate::Reported>(true),
        spec_sub_perms(env, places, bb, cc) == Ok::<bool, crate::Reported>(true),
    ensures
        spec_sub_perms(env, places, aa, cc) == Ok::<bool, crate::Reported>(true),
{
    assert forall|i: int| 0 <= i < aa.len() implies spec_sub_chain_in(
        env,
        places,
        (#[trigger] aa[i]).links@,
        cc,
    ) == Ok::<bool, crate::Reported>(true) by {
        lemma_sub_perms_all(env, places, aa, bb, i);
        let j = lemma_chain_in_found(env, places, aa[i].links@, bb);
        lemma_sub_perms_all(env, places, bb, cc, j);
        let k = lemma_chain_in_found(env, places, bb[j].links@, cc);
        assert(seq_wf(aa[i].links@));
        assert(seq_wf(bb[j].links@));
        assert(seq_wf(cc[k].links@));
        lemma_sub_links_trans(env, places, aa[i].links@, bb[j].links@, cc[k].links@);
        lemma_chain_in_witness(env, places, aa[i].links@, cc, k);
    }
    lemma_sub_perms_from_all(env, places, aa, cc);
}

/// `my` is below every permission.
pub proof fn lemma_my_below_all(env: &DeclEnv, places: Seq<Seq<u32>>, my: &RedPerm, p: &RedPerm)
    requires
        my.chains@.len() == 1,
        my.chains@[0].links@.len() == 0,
        p.wf(),
    ensures
        spec_sub_perms(env, places, my.chains@, p.chains@) == Ok::<bool, crate::Reported>(true),
{
    assert(my.chains@.first() == my.chains@[0]);
    assert(p.chains@.first() == p.chains@[0]);
    assert(spec_sub_links(env, places, my.chains@[0].links@, p.chains@.first().links@) == Ok::<
        bool,
        crate::Reported,
    >(true));
    assert(spec_sub_chain_in(env, places, my.chains@[0].links@, p.chains@) == Ok::<
        bool,
        crate::Reported,
    >(true));
    assert(my.chains@.drop_first().len() == 0);
    assert(spec_sub_perms(env, places, my.chains@.drop_first(), p.chains@) == Ok::<
        bool,
        crate::Reported,
    >(true));
}

/// Anything below `my` is provably `my`: provably unique and provably
/// owned.
pub proof fn lemma_below_my_provably_my(
    env: &DeclEnv,
    places: Seq<Seq<u32>>,
    p: &RedPerm,
    my: &RedPerm,
)
    requires
        my.chains@.len() == 1,
        my.chains@[0].links@.len() == 0,
        spec_sub_perms(env, places, p.chains@, my.chains@) == Ok::<bool, crate::Reported>(true),
    ensures
        RedPerm::is_provably_model(env, p.chains@, Predicate::Unique) == Ok::<
            bool,
            crate::Reported,
        >(true),
        RedPerm::is_provably_model(env, p.chains@, Predicate::Owned) == Ok::<bool, crate::Reported>(
            true,
        ),
{
    lemma_below_my_aux(env, places, p.chains@, my);
}

proof fn lemma_below_my_aux(env: &DeclEnv, places: Seq<Seq<u32>>, chains: Seq<RedChain>, my: &RedPerm)
    requires
        my.chains@.len() == 1,
        my.chains@[0].links@.len() == 0,
        spec_sub_perms(env, places, chains, my.chains@) == Ok::<bool, crate::Reported>(true),
    ensures
        RedPerm::is_provably_model(env, chains, Predicate::Unique) == Ok::<bool, crate::Reported>(
            true,
        ),
        RedPerm::is_provably_model(env, chains, Predicate::Owned) == Ok::<bool, crate::Reported>(
            true,
        ),
    decreases chains.len(),
{
    if chains.len() > 0 {
        let c = chains.first().links@;
        assert(spec_sub_chain_in(env, places, c, my.chains@) == Ok::<bool, crate::Reported>(true));
        assert(my.chains@.drop_first().len() == 0);
        assert(my.chains@.first() == my.chains@[0]);
        assert(spec_sub_chain_in(env, places, c, my.chains@.drop_first()) == Ok::<
            bool,
            crate::Reported,
        >(false));
        match spec_sub_links(env, places, c, my.chains@[0].links@) {
            Ok(true) => {},
            Ok(false) => {
                assert(false);
            },
            Err(_) => {
                assert(false);
            },
        }
        assert(spec_sub_links(env, places, c, my.chains@[0].links@) == Ok::<bool, crate::Reported>(
            true,
        ));
        if c.len() > 0 {
            assert(links_provably_my(env, c) == Ok::<bool, crate::Reported>(true));
        }
        lemma_below_my_aux(env, places, chains.drop_first(), my);
    }
}

/// `[Our] <= c` computes exactly the provable sharedness of `c`: the two
/// sides agree on every chain, errors included.
pub proof fn lemma_our_sub_iff_shared(
    env: &DeclEnv,
    places: Seq<Seq<u32>>,
    our: Seq<RedLink>,
    c: Seq<RedLink>,
)
    requires
        our == seq![RedLink::Our],
    ensures
        spec_sub_links(env, places, our, c) == RedLink::are_copy_spec(env, c),
{
    if c.len() == 0 {
        assert(RedLink::are_move_spec(env, our) == Ok::<bool, crate::Reported>(false));
    } else {
        match c.first() {
            RedLink::Error(_) => {},
            RedLink::Infer(_) => {},
            _ => {},
        }
    }
}

/// `our` is below `p` exactly when some chain of `p` is provably shared;
/// in particular whenever `p` is provably shared (all chains shared).
pub proof fn lemma_our_sub_perm_iff_some_shared(
    env: &DeclEnv,
    places: Seq<Seq<u32>>,
    our: &RedPerm,
    p: &RedPerm,
)
    requires
        our.chains@.len() == 1,
        our.chains@[0].links@ == seq![RedLink::Our],
        p.wf(),
        chains_wf(p.chains@),
    ensures
        (spec_sub_perms(env, places, our.chains@, p.chains@) == Ok::<bool, crate::Reported>(true))
            <==> (exists|i: int|
            0 <= i < p.chains@.len() && RedLink::are_copy_spec(
                env,
                (#[trigger] p.chains@[i]).links@,
            ) == Ok::<bool, crate::Reported>(true)),
{
    let ourc = our.chains@[0].links@;
    assert(our.chains@.first() == our.chains@[0]);
    assert(our.chains@.drop_first().len() == 0);
    if exists|i: int|
        0 <= i < p.chains@.len() && RedLink::are_copy_spec(env, (#[trigger] p.chains@[i]).links@)
            == Ok::<bool, crate::Reported>(true) {
        let i = choose|i: int|
            0 <= i < p.chains@.len() && RedLink::are_copy_spec(
                env,
                (#[trigger] p.chains@[i]).links@,
            ) == Ok::<bool, crate::Reported>(true);
        lemma_our_sub_iff_shared(env, places, ourc, p.chains@[i].links@);
        lemma_chain_in_witness(env, places, ourc, p.chains@, i);
        assert(spec_sub_chain_in(env, places, ourc, p.chains@) == Ok::<bool, crate::Reported>(
            true,
        ));
        assert(spec_sub_perms(env, places, our.chains@.drop_first(), p.chains@) == Ok::<
            bool,
            crate::Reported,
        >(true));
        assert(spec_sub_perms(env, places, our.chains@, p.chains@) == Ok::<bool, crate::Reported>(
            true,
        ));
    }
    if spec_sub_perms(env, places, our.chains@, p.chains@) == Ok::<bool, crate::Reported>(true) {
        match spec_sub_chain_in(env, places, ourc, p.chains@) {
            Ok(true) => {},
            Ok(false) => {
                assert(false);
            },
            Err(_) => {
                assert(false);
            },
        }
        let j = lemma_chain_in_found(env, places, ourc, p.chains@);
        lemma_our_sub_iff_shared(env, places, ourc, p.chains@[j].links@);
        assert(RedLink::are_copy_spec(env, p.chains@[j].links@) == Ok::<bool, crate::Reported>(
            true,
        ));
    }
}

/// When `p` is provably shared, `our` is below `p`.
pub proof fn lemma_shared_above_our(env: &DeclEnv, places: Seq<Seq<u32>>, our: &RedPerm, p: &RedPerm)
    requires
        our.chains@.len() == 1,
        our.chains@[0].links@ == seq![RedLink::Our],
        p.wf(),
        chains_wf(p.chains@),
        RedPerm::is_provably_model(env, p.chains@, Predicate::Shared) == Ok::<bool, crate::Reported>(
            true,
        ),
    ensures
        spec_sub_perms(env, places, our.chains@, p.chains@) == Ok::<bool, crate::Reported>(true),
{
    assert(RedLink::are_copy_spec(env, p.chains@[0].links@) == Ok::<bool, crate::Reported>(true));
    lemma_our_sub_perm_iff_some_shared(env, places, our, p);
}

/// Every link of a chain that is provably owned is owned.
proof fn lemma_are_owned_all(env: &DeclEnv, c: Seq<RedLink>, i: int)
    requires
        RedLink::are_owned_spec(env, c) == Ok::<bool, crate::Reported>(true),
        0 <= i < c.len(),
    ensures
        c[i].is_owned_spec(env) == Ok::<bool, crate::Reported>(true),
    decreases c.len(),
{
    if i == 0 {
    } else {
        assert(c.drop_first()[i - 1] == c[i]);
        lemma_are_owned_all(env, c.drop_first(), i - 1);
    }
}

/// A chain provably lent has a lent link.
proof fn lemma_are_lent_exists(env: &DeclEnv, c: Seq<RedLink>) -> (i: int)
    requires
        RedLink::are_lent_spec(env, c) == Ok::<bool, crate::Reported>(true),
    ensures
        0 <= i < c.len(),
        c[i].is_lent_spec(env) == Ok::<bool, crate::Reported>(true),
    decreases c.len(),
{
    if c.first().is_lent_spec(env) == Ok::<bool, crate::Reported>(true) {
        0
    } else {
        let i = lemma_are_lent_exists(env, c.drop_first()) + 1;
        assert(c.drop_first()[i - 1] == c[i]);
        i
    }
}

/// Predicate consistency: under consistent declarations no chain is
/// provably both shared and unique.
pub proof fn lemma_chain_not_shared_and_unique(env: &DeclEnv, c: &RedChain)
    requires
        env.consistent(),
    ensures
        !(c.is_provably_spec(env, Predicate::Shared) == Ok::<bool, crate::Reported>(true)
            && c.is_provably_spec(env, Predicate::Unique) == Ok::<bool, crate::Reported>(true)),
{
    let s = c.links@;
    if c.is_provably_spec(env, Predicate::Shared) == Ok::<bool, crate::Reported>(true)
        && c.is_provably_spec(env, Predicate::Unique) == Ok::<bool, crate::Reported>(true) {
        assert(s.len() > 0);
        assert(s.first().is_copy_spec(env) == Ok::<bool, crate::Reported>(true));
        assert(s.first().is_move_spec(env) == Ok::<bool, crate::Reported>(true));
        match s.first() {
            RedLink::Var(v) => {
                assert(env.declared(v, Predicate::Shared) && env.declared(v, Predicate::Unique));
                assert(false);
            },
            _ => {
                assert(false);
            },
        }
    }
}

/// Predicate consistency: under consistent declarations no chain is
/// provably both owned and lent.
pub proof fn lemma_chain_not_owned_and_lent(env: &DeclEnv, c: &RedChain)
    requires
        env.consistent(),
    ensures
        !(c.is_provably_spec(env, Predicate::Owned) == Ok::<bool, crate::Reported>(true)
            && c.is_provably_spec(env, Predicate::Lent) == Ok::<bool, crate::Reported>(true)),
{
    let s = c.links@;
    if c.is_provably_spec(env, Predicate::Owned) == Ok::<bool, crate::Reported>(true)
        && c.is_provably_spec(env, Predicate::Lent) == Ok::<bool, crate::Reported>(true) {
        let i = lemma_are_lent_exists(env, s);
        lemma_are_owned_all(env, s, i);
        match s[i] {
            RedLink::Var(v) => {
                assert(env.declared(v, Predicate::Owned) && env.declared(v, Predicate::Lent));
                assert(false);
            },
            _ => {
                assert(false);
            },
        }
    }
}

} // verus!
