//! Structural subtyping of red permission chains (`sub_chains`).
//!
//! The rules, where `C0`/`C1` are tails and places compare by the
//! covered-by relation:
//!
//! * `[] <= C` always (`my` is below everything);
//! * `C <= []` only if `C` is provably `my`;
//! * `[Our] <= C1` iff `C1` is provably shared (copy);
//! * `(Our C0) <= (Our C1)` iff `C0 <= C1`;
//! * `(Mut p0 C0) <= (Mut p1 C1)` iff `p1` covers `p0` and `C0 <= C1`;
//! * `(Ref p0 C0) <= (Ref p1 C1)` iff `p1` covers `p0` and `C0 <= C1`;
//! * `(Ref p0 C0) <= (Our C1)`, `C1` non-empty, iff `(Mut p0 C0) <= C1`;
//! * `(X C0) <= (X C1)` iff `C0 <= C1` (same variable);
//! * `[X] <= [Our]` iff `X` is declared both shared and owned;
//! * every other combination is no.
//!
//! An `Error` link poisons the comparison. A link that still names an
//! inference variable is never related here: chains with inference heads
//! go through bound splicing in `infer` instead.

use vstd::prelude::*;

use crate::Reported;
use crate::arena::PlaceId;
use crate::arena::PlaceStore;
use crate::arena::is_prefix_of;
use crate::red::DeclEnv;
use crate::red::RedChain;
use crate::red::RedLink;
use crate::red::RedPerm;
use crate::Predicate;

verus! {

/// `a` is covered by `b` in the place table: the path of `a` is a prefix
/// of the path of `b`.
pub open spec fn place_covered(places: Seq<Seq<u32>>, a: PlaceId, b: PlaceId) -> bool {
    is_prefix_of(places[a.0 as int], places[b.0 as int])
}

/// Every place a link names is present in the table.
pub open spec fn links_places_wf(links: Seq<RedLink>, nplaces: nat) -> bool {
    forall|i: int|
        0 <= i < links.len() ==> match #[trigger] links[i] {
            RedLink::Ref(_, p) => p.0 < nplaces,
            RedLink::Mut(_, p) => p.0 < nplaces,
            _ => true,
        }
}

/// The chain is provably `my`: every link is move and every link is owned.
pub open spec fn links_provably_my(env: &DeclEnv, links: Seq<RedLink>) -> Result<bool, Reported> {
    match RedLink::are_move_spec(env, links) {
        Err(e) => Err(e),
        Ok(false) => Ok(false),
        Ok(true) => RedLink::are_owned_spec(env, links),
    }
}

/// Subtyping of one chain below another; the model that `sub_chains`
/// computes.
pub open spec fn spec_sub_links(
    env: &DeclEnv,
    places: Seq<Seq<u32>>,
    lower: Seq<RedLink>,
    upper: Seq<RedLink>,
) -> Result<bool, Reported>
    decreases lower.len() + upper.len(),
{
    if lower.len() == 0 {
        Ok(true)
    } else if upper.len() == 0 {
        links_provably_my(env, lower)
    } else {
        match (lower.first(), upper.first()) {
            (RedLink::Error(r), _) => Err(r),
            (_, RedLink::Error(r)) => Err(r),
            (RedLink::Infer(_), _) => Ok(false),
            (_, RedLink::Infer(_)) => Ok(false),
            (RedLink::Our, h1) => if lower.len() == 1 {
                RedLink::are_copy_spec(env, upper)
            } else {
                match h1 {
                    RedLink::Our => spec_sub_links(
                        env,
                        places,
                        lower.drop_first(),
                        upper.drop_first(),
                    ),
                    _ => Ok(false),
                }
            },
            (RedLink::Mut(_, p0), h1) => match h1 {
                RedLink::Mut(_, p1) => if place_covered(places, p0, p1) {
                    spec_sub_links(env, places, lower.drop_first(), upper.drop_first())
                } else {
                    Ok(false)
                },
                _ => Ok(false),
            },
            (RedLink::Ref(l0, p0), h1) => match h1 {
                RedLink::Our => if upper.len() >= 2 {
                    spec_sub_links(
                        env,
                        places,
                        seq![RedLink::Mut(l0, p0)] + lower.drop_first(),
                        upper.drop_first(),
                    )
                } else {
                    Ok(false)
                },
                RedLink::Ref(_, p1) => if place_covered(places, p0, p1) {
                    spec_sub_links(env, places, lower.drop_first(), upper.drop_first())
                } else {
                    Ok(false)
                },
                _ => Ok(false),
            },
            (RedLink::Var(v0), h1) => match h1 {
                RedLink::Our => if lower.len() == 1 && upper.len() == 1 {
                    Ok(
                        env.declared(v0, Predicate::Shared) && env.declared(
                            v0,
                            Predicate::Owned,
                        ),
                    )
                } else {
                    Ok(false)
                },
                RedLink::Var(v1) => if v0 == v1 {
                    spec_sub_links(env, places, lower.drop_first(), upper.drop_first())
                } else {
                    Ok(false)
                },
                _ => Ok(false),
            },
        }
    }
}

/// The lower chain is below some chain of `uppers`; the first error met
/// while searching in order propagates.
pub open spec fn spec_sub_chain_in(
    env: &DeclEnv,
    places: Seq<Seq<u32>>,
    lower: Seq<RedLink>,
    uppers: Seq<RedChain>,
) -> Result<bool, Reported>
    decreases uppers.len(),
{
    if uppers.len() == 0 {
        Ok(false)
    } else {
        match spec_sub_links(env, places, lower, uppers.first().links@) {
            Err(e) => Err(e),
            Ok(true) => Ok(true),
            Ok(false) => spec_sub_chain_in(env, places, lower, uppers.drop_first()),
        }
    }
}

/// Every chain of `lowers` is below some chain of `uppers`.
pub open spec fn spec_sub_perms(
    env: &DeclEnv,
    places: Seq<Seq<u32>>,
    lowers: Seq<RedChain>,
    uppers: Seq<RedChain>,
) -> Result<bool, Reported>
    decreases lowers.len(),
{
    if lowers.len() == 0 {
        Ok(true)
    } else {
        match spec_sub_chain_in(env, places, lowers.first().links@, uppers) {
            Err(e) => Err(e),
            Ok(false) => Ok(false),
            Ok(true) => spec_sub_perms(env, places, lowers.drop_first(), uppers),
        }
    }
}

/// The copy of a slice from index `i` on.
fn links_from(links: &[RedLink], i: usize) -> (r: Vec<RedLink>)
    requires
        i <= links@.len(),
    ensures
        r@ == links@.skip(i as int),
{
    let mut r: Vec<RedLink> = Vec::new();
    let mut j: usize = i;
    while j < links.len()
        invariant
            i <= j <= links@.len(),
            r@ == links@.subrange(i as int, j as int),
        decreases links@.len() - j,
    {
        r.push(links[j]);
        assert(r@ =~= links@.subrange(i as int, j as int + 1));
        j += 1;
    }
    assert(links@.subrange(i as int, links@.len() as int) =~= links@.skip(i as int));
    r
}

/// Structural subtyping of one chain below another.
pub fn sub_chains(
    env: &DeclEnv,
    places: &PlaceStore,
    lower: &RedChain,
    upper: &RedChain,
) -> (r: Result<bool, Reported>)
    requires
        links_places_wf(lower.links@, places.view_paths().len()),
        links_places_wf(upper.links@, places.view_paths().len()),
    ensures
        r == spec_sub_links(env, places.view_paths(), lower.links@, upper.links@),
{
    sub_links_rec(env, places, lower.links.as_slice(), upper.links.as_slice())
}

fn sub_links_rec(env: &DeclEnv, places: &PlaceStore, lower: &[RedLink], upper: &[RedLink]) -> (r:
    Result<bool, Reported>)
    requires
        links_places_wf(lower@, places.view_paths().len()),
        links_places_wf(upper@, places.view_paths().len()),
    ensures
        r == spec_sub_links(env, places.view_paths(), lower@, upper@),
    decreases lower@.len() + upper@.len(),
{
    if lower.len() == 0 {
        return Ok(true);
    }
    if upper.len() == 0 {
        return match RedLink::are_move(env, lower) {
            Err(e) => Err(e),
            Ok(false) => Ok(false),
            Ok(true) => RedLink::are_owned(env, lower),
        };
    }
    let h0 = lower[0];
    let h1 = upper[0];
    proof {
        assert(lower@.first() == lower@[0]);
        assert(upper@.first() == upper@[0]);
    }
    match (h0, h1) {
        (RedLink::Error(r), _) => Err(r),
        (_, RedLink::Error(r)) => Err(r),
        (RedLink::Infer(_), _) => Ok(false),
        (_, RedLink::Infer(_)) => Ok(false),
        (RedLink::Our, h1) => {
            if lower.len() == 1 {
                RedLink::are_copy(env, upper)
            } else {
                match h1 {
                    RedLink::Our => {
                        let t0 = links_from(lower, 1);
                        let t1 = links_from(upper, 1);
                        proof {
                            assert(t0@ =~= lower@.drop_first());
                            assert(t1@ =~= upper@.drop_first());
                        }
                        sub_links_rec(env, places, t0.as_slice(), t1.as_slice())
                    },
                    _ => Ok(false),
                }
            }
        },
        (RedLink::Mut(_, p0), h1) => match h1 {
            RedLink::Mut(_, p1) => {
                if places.is_covered_by(p0, p1) {
                    let t0 = links_from(lower, 1);
                    let t1 = links_from(upper, 1);
                    proof {
                        assert(t0@ =~= lower@.drop_first());
                        assert(t1@ =~= upper@.drop_first());
                    }
                    sub_links_rec(env, places, t0.as_slice(), t1.as_slice())
                } else {
                    Ok(false)
                }
            },
            _ => Ok(false),
        },
        (RedLink::Ref(l0, p0), h1) => match h1 {
            RedLink::Our => {
                if upper.len() >= 2 {
                    let mut nl: Vec<RedLink> = Vec::new();
                    nl.push(RedLink::Mut(l0, p0));
                    let mut j: usize = 1;
                    while j < lower.len()
                        invariant
                            1 <= j <= lower@.len(),
                            lower@.len() >= 1,
                            lower@[0] == RedLink::Ref(l0, p0),
                            nl@ == seq![RedLink::Mut(l0, p0)] + lower@.subrange(1, j as int),
                        decreases lower@.len() - j,
                    {
                        nl.push(lower[j]);
                        assert(nl@ =~= seq![RedLink::Mut(l0, p0)] + lower@.subrange(
                            1,
                            j as int + 1,
                        ));
                        j += 1;
                    }
                    let t1 = links_from(upper, 1);
                    proof {
                        assert(nl@ =~= seq![RedLink::Mut(l0, p0)] + lower@.drop_first());
                        assert(t1@ =~= upper@.drop_first());
                        assert(links_places_wf(nl@, places.view_paths().len()));
                        assert(links_places_wf(t1@, places.view_paths().len()));
                    }
                    sub_links_rec(env, places, nl.as_slice(), t1.as_slice())
                } else {
                    Ok(false)
                }
            },
            RedLink::Ref(_, p1) => {
                if places.is_covered_by(p0, p1) {
                    let t0 = links_from(lower, 1);
                    let t1 = links_from(upper, 1);
                    proof {
                        assert(t0@ =~= lower@.drop_first());
                        assert(t1@ =~= upper@.drop_first());
                    }
                    sub_links_rec(env, places, t0.as_slice(), t1.as_slice())
                } else {
                    Ok(false)
                }
            },
            _ => Ok(false),
        },
        (RedLink::Var(v0), h1) => match h1 {
            RedLink::Our => {
                if lower.len() == 1 && upper.len() == 1 {
                    Ok(
                        env.var_is_declared_to_be(v0, Predicate::Shared)
                            && env.var_is_declared_to_be(v0, Predicate::Owned),
                    )
                } else {
                    Ok(false)
                }
            },
            RedLink::Var(v1) => {
                if v0 == v1 {
                    let t0 = links_from(lower, 1);
                    let t1 = links_from(upper, 1);
                    proof {
                        assert(t0@ =~= lower@.drop_first());
                        assert(t1@ =~= upper@.drop_first());
                    }
                    sub_links_rec(env, places, t0.as_slice(), t1.as_slice())
                } else {
                    Ok(false)
                }
            },
            _ => Ok(false),
        },
    }
}

/// Every place named anywhere in the perm is present in the table.
pub open spec fn perm_places_wf(perm: &RedPerm, nplaces: nat) -> bool {
    forall|i: int|
        0 <= i < perm.chains@.len() ==> links_places_wf(
            (#[trigger] perm.chains@[i]).links@,
            nplaces,
        )
}

/// Whether `lower` is below some chain of `uppers`, searching in order.
pub fn sub_chain_in(
    env: &DeclEnv,
    places: &PlaceStore,
    lower: &RedChain,
    uppers: &RedPerm,
) -> (r: Result<bool, Reported>)
    requires
        links_places_wf(lower.links@, places.view_paths().len()),
        perm_places_wf(uppers, places.view_paths().len()),
    ensures
        r == spec_sub_chain_in(env, places.view_paths(), lower.links@, uppers.chains@),
{
    let r = sub_chain_in_from(env, places, lower, uppers, 0);
    proof {
        assert(uppers.chains@.skip(0) =~= uppers.chains@);
    }
    r
}

fn sub_chain_in_from(
    env: &DeclEnv,
    places: &PlaceStore,
    lower: &RedChain,
    uppers: &RedPerm,
    i: usize,
) -> (r: Result<bool, Reported>)
    requires
        i <= uppers.chains@.len(),
        links_places_wf(lower.links@, places.view_paths().len()),
        perm_places_wf(uppers, places.view_paths().len()),
    ensures
        r == spec_sub_chain_in(env, places.view_paths(), lower.links@, uppers.chains@.skip(i as int)),
    decreases uppers.chains@.len() - i,
{
    if i == uppers.chains.len() {
        assert(uppers.chains@.skip(i as int).len() == 0);
        Ok(false)
    } else {
        assert(uppers.chains@.skip(i as int).first() == uppers.chains@[i as int]);
        assert(uppers.chains@.skip(i as int).drop_first() =~= uppers.chains@.skip(i as int + 1));
        match sub_chains(env, places, lower, &uppers.chains[i]) {
            Err(e) => Err(e),
            Ok(true) => Ok(true),
            Ok(false) => sub_chain_in_from(env, places, lower, uppers, i + 1),
        }
    }
}

/// Whether every chain of `lower` is below some chain of `upper`: the
/// subtyping of red permissions.
pub fn sub_perms(env: &DeclEnv, places: &PlaceStore, lower: &RedPerm, upper: &RedPerm) -> (r:
    Result<bool, Reported>)
    requires
        perm_places_wf(lower, places.view_paths().len()),
        perm_places_wf(upper, places.view_paths().len()),
    ensures
        r == spec_sub_perms(env, places.view_paths(), lower.chains@, upper.chains@),
{
    let r = sub_perms_from(env, places, lower, upper, 0);
    proof {
        assert(lower.chains@.skip(0) =~= lower.chains@);
    }
    r
}

fn sub_perms_from(
    env: &DeclEnv,
    places: &PlaceStore,
    lower: &RedPerm,
    upper: &RedPerm,
    i: usize,
) -> (r: Result<bool, Reported>)
    requires
        i <= lower.chains@.len(),
        perm_places_wf(lower, places.view_paths().len()),
        perm_places_wf(upper, places.view_paths().len()),
    ensures
        r == spec_sub_perms(env, places.view_paths(), lower.chains@.skip(i as int), upper.chains@),
    decreases lower.chains@.len() - i,
{
    if i == lower.chains.len() {
        assert(lower.chains@.skip(i as int).len() == 0);
        Ok(true)
    } else {
        assert(lower.chains@.skip(i as int).first() == lower.chains@[i as int]);
        assert(lower.chains@.skip(i as int).drop_first() =~= lower.chains@.skip(i as int + 1));
        match sub_chain_in(env, places, &lower.chains[i], upper) {
            Err(e) => Err(e),
            Ok(false) => Ok(false),
            Ok(true) => sub_perms_from(env, places, lower, upper, i + 1),
        }
    }
}

/// Demand that `lower` is below `upper`, reporting through `or_else` when
/// the proof fails.
pub fn require_sub_red_perms(
    env: &DeclEnv,
    places: &PlaceStore,
    lower: &RedPerm,
    upper: &RedPerm,
    or_else: Reported,
) -> (r: Result<(), Reported>)
    requires
        perm_places_wf(lower, places.view_paths().len()),
        perm_places_wf(upper, places.view_paths().len()),
    ensures
        r == (match spec_sub_perms(env, places.view_paths(), lower.chains@, upper.chains@) {
            Err(e) => Err::<(), Reported>(e),
            Ok(true) => Ok(()),
            Ok(false) => Err(or_else),
        }),
{
    match sub_perms(env, places, lower, upper) {
        Err(e) => Err(e),
        Ok(true) => Ok(()),
        Ok(false) => Err(or_else),
    }
}

} // verus!
