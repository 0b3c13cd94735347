//! The inference runtime: a store of inference variables with bounds in
//! two directions.
//!
//! Each variable has a kind (type or permission), chain bounds from below
//! and from above, an optional red-type bound in each direction, and the
//! predicates it is known to provably satisfy or known not to satisfy.
//! Every piece of recorded knowledge is append-only within a check: the
//! monotonicity invariant appears in the contracts of each mutator.
//!
//! Chains that still name an inference variable are related by *splicing*:
//! the variable's bounds are substituted for its head and the structural
//! subtyping runs on the spliced chains.

use vstd::prelude::*;

use crate::Predicate;
use crate::Reported;
use crate::arena::PlaceStore;
use crate::red::DeclEnv;
use crate::red::RedChain;
use crate::red::RedLink;
use crate::red::RedPerm;
use crate::red::RedTy;
use crate::red::VarFlags;
use crate::red::chain_eq;
use crate::subtype::links_places_wf;
use crate::subtype::spec_sub_links;
use crate::subtype::spec_sub_perms;
use crate::subtype::sub_chains;
use crate::subtype::sub_perms;
use crate::laws::chains_wf;
use crate::laws::lemma_sub_perms_contained;

verus! {

/// Which side a bound approaches a variable from.
#[derive(Copy, Clone, PartialEq, Eq, Structural, Debug)]
pub enum Direction {
    FromBelow,
    FromAbove,
}

impl Predicate {
    /// The direction whose bounds decide this predicate for an inference
    /// variable: sharedness and lentness travel up the subtyping relation
    /// from a lower bound; uniqueness and ownedness are imposed down from
    /// the upper bounds.
    pub fn bound_direction(self) -> (r: Direction)
        ensures
            r == self.bound_direction_spec(),
    {
        match self {
            Predicate::Shared | Predicate::Lent => Direction::FromBelow,
            Predicate::Unique | Predicate::Owned => Direction::FromAbove,
        }
    }

    pub open spec fn bound_direction_spec(self) -> Direction {
        match self {
            Predicate::Shared | Predicate::Lent => Direction::FromBelow,
            Predicate::Unique | Predicate::Owned => Direction::FromAbove,
        }
    }
}

/// The kind of an inference variable.
#[derive(Copy, Clone, PartialEq, Eq, Structural, Debug)]
pub enum InferVarKind {
    Type,
    Perm,
}

/// Per-variable inference state.
pub struct InferVarData {
    pub kind: InferVarKind,
    pub lower_chains: Vec<RedChain>,
    pub upper_chains: Vec<RedChain>,
    pub red_ty_lower: Option<RedTy>,
    pub red_ty_upper: Option<RedTy>,
    pub known_is: VarFlags,
    pub known_isnt: VarFlags,
}

pub open spec fn flag_of(f: VarFlags, p: Predicate) -> bool {
    match p {
        Predicate::Shared => f.shared,
        Predicate::Unique => f.unique,
        Predicate::Owned => f.owned,
        Predicate::Lent => f.lent,
    }
}

pub open spec fn set_flag(f: VarFlags, p: Predicate) -> VarFlags {
    match p {
        Predicate::Shared => VarFlags { shared: true, ..f },
        Predicate::Unique => VarFlags { unique: true, ..f },
        Predicate::Owned => VarFlags { owned: true, ..f },
        Predicate::Lent => VarFlags { lent: true, ..f },
    }
}

fn flag_of_exec(f: VarFlags, p: Predicate) -> (r: bool)
    ensures
        r == flag_of(f, p),
{
    match p {
        Predicate::Shared => f.shared,
        Predicate::Unique => f.unique,
        Predicate::Owned => f.owned,
        Predicate::Lent => f.lent,
    }
}

fn set_flag_exec(f: VarFlags, p: Predicate) -> (r: VarFlags)
    ensures
        r == set_flag(f, p),
{
    match p {
        Predicate::Shared => VarFlags { shared: true, ..f },
        Predicate::Unique => VarFlags { unique: true, ..f },
        Predicate::Owned => VarFlags { owned: true, ..f },
        Predicate::Lent => VarFlags { lent: true, ..f },
    }
}

impl InferVarData {
    pub open spec fn bounds(&self, d: Direction) -> Seq<RedChain> {
        match d {
            Direction::FromBelow => self.lower_chains@,
            Direction::FromAbove => self.upper_chains@,
        }
    }
}

/// The store of all inference variables of one check.
pub struct InferStore {
    pub vars: Vec<InferVarData>,
}

impl InferStore {
    pub open spec fn contains_var(&self, v: u32) -> bool {
        v < self.vars@.len()
    }

    /// Every place named by a recorded chain bound is in the place table.
    pub open spec fn places_wf(&self, nplaces: nat) -> bool {
        forall|i: int|
            0 <= i < self.vars@.len() ==> chains_places_wf(
                (#[trigger] self.vars@[i]).lower_chains@,
                nplaces,
            ) && chains_places_wf(self.vars@[i].upper_chains@, nplaces)
    }

    pub fn new() -> (r: InferStore)
        ensures
            r.vars@.len() == 0,
    {
        InferStore { vars: Vec::new() }
    }

    /// Create a fresh inference variable with no recorded knowledge.
    pub fn new_var(&mut self, kind: InferVarKind) -> (r: u32)
        requires
            old(self).vars@.len() < u32::MAX,
        ensures
            final(self).vars@.len() == old(self).vars@.len() + 1,
            r == old(self).vars@.len(),
            final(self).vars@ =~= old(self).vars@.push(final(self).vars@[r as int]),
            final(self).vars@[r as int].kind == kind,
            final(self).vars@[r as int].lower_chains@.len() == 0,
            final(self).vars@[r as int].upper_chains@.len() == 0,
            final(self).vars@[r as int].red_ty_lower is None,
            final(self).vars@[r as int].red_ty_upper is None,
            final(self).vars@[r as int].known_is == no_flags(),
            final(self).vars@[r as int].known_isnt == no_flags(),
    {
        let r = self.vars.len() as u32;
        self.vars.push(
            InferVarData {
                kind,
                lower_chains: Vec::new(),
                upper_chains: Vec::new(),
                red_ty_lower: None,
                red_ty_upper: None,
                known_is: VarFlags { shared: false, unique: false, owned: false, lent: false },
                known_isnt: VarFlags { shared: false, unique: false, owned: false, lent: false },
            },
        );
        r
    }

    /// Record a chain bound on `v` in the given direction. Knowledge is
    /// append-only: a duplicate is a no-op and the answer says whether the
    /// bound is new. Everything else in the store is untouched.
    pub fn insert_chain_bound(&mut self, v: u32, chain: &RedChain, direction: Direction) -> (added:
        bool)
        requires
            old(self).contains_var(v),
        ensures
            final(self).vars@.len() == old(self).vars@.len(),
            forall|i: int|
                0 <= i < old(self).vars@.len() && i != v as int ==> final(self).vars@[i] == old(
                    self,
                ).vars@[i],
            final(self).vars@[v as int].kind == old(self).vars@[v as int].kind,
            final(self).vars@[v as int].red_ty_lower == old(self).vars@[v as int].red_ty_lower,
            final(self).vars@[v as int].red_ty_upper == old(self).vars@[v as int].red_ty_upper,
            final(self).vars@[v as int].known_is == old(self).vars@[v as int].known_is,
            final(self).vars@[v as int].known_isnt == old(self).vars@[v as int].known_isnt,
            final(self).vars@[v as int].bounds(direction.flip()) == old(self).vars@[v as int].bounds(
                direction.flip(),
            ),
            added == !(exists|j: int|
                0 <= j < old(self).vars@[v as int].bounds(direction).len() && (#[trigger] old(
                    self,
                ).vars@[v as int].bounds(direction)[j]).links@ == chain.links@),
            added ==> final(self).vars@[v as int].bounds(direction) =~= old(self).vars@[
                v as int
            ].bounds(direction).push(final(self).vars@[v as int].bounds(direction).last())
                && final(self).vars@[v as int].bounds(direction).last().links@ == chain.links@,
            !added ==> final(self).vars@[v as int].bounds(direction) == old(self).vars@[
                v as int
            ].bounds(direction),
    {
        let data = &self.vars[v as usize];
        let existing: &Vec<RedChain> = match direction {
            Direction::FromBelow => &data.lower_chains,
            Direction::FromAbove => &data.upper_chains,
        };
        let mut j: usize = 0;
        let n = existing.len();
        while j < n
            invariant
                j <= n,
                n == existing@.len(),
                existing@ == self.vars@[v as int].bounds(direction),
                v < self.vars@.len(),
                *self == *old(self),
                forall|k: int| 0 <= k < j ==> (#[trigger] existing@[k]).links@ !== chain.links@,
            decreases n - j,
        {
            if chain_eq(&existing[j], chain) {
                return false;
            }
            j += 1;
        }
        let copied = copy_chain(chain);
        let data_mut = &mut self.vars[v as usize];
        match direction {
            Direction::FromBelow => data_mut.lower_chains.push(copied),
            Direction::FromAbove => data_mut.upper_chains.push(copied),
        }
        true
    }

    /// The recorded chain bounds of `v` in one direction, as a fresh
    /// vector.
    pub fn chain_bounds(&self, v: u32, direction: Direction) -> (r: Vec<RedChain>)
        requires
            self.contains_var(v),
        ensures
            chains_view_eq(r@, self.vars@[v as int].bounds(direction)),
    {
        let data = &self.vars[v as usize];
        let src: &Vec<RedChain> = match direction {
            Direction::FromBelow => &data.lower_chains,
            Direction::FromAbove => &data.upper_chains,
        };
        let mut r: Vec<RedChain> = Vec::new();
        let mut i: usize = 0;
        while i < src.len()
            invariant
                i <= src@.len(),
                r@.len() == i,
                forall|k: int| 0 <= k < i ==> (#[trigger] r@[k]).links@ == src@[k].links@,
            decreases src@.len() - i,
        {
            r.push(copy_chain(&src[i]));
            i += 1;
        }
        r
    }
}

impl Direction {
    pub open spec fn flip(self) -> Direction {
        match self {
            Direction::FromBelow => Direction::FromAbove,
            Direction::FromAbove => Direction::FromBelow,
        }
    }
}

pub open spec fn no_flags() -> VarFlags {
    VarFlags { shared: false, unique: false, owned: false, lent: false }
}

/// The two chain sequences hold the same chains, element for element.
pub open spec fn chains_view_eq(x: Seq<RedChain>, y: Seq<RedChain>) -> bool {
    x.len() == y.len() && forall|i: int| 0 <= i < x.len() ==> (#[trigger] x[i]).links@ == y[i].links@
}

pub open spec fn chains_places_wf(s: Seq<RedChain>, nplaces: nat) -> bool {
    forall|i: int| 0 <= i < s.len() ==> links_places_wf((#[trigger] s[i]).links@, nplaces)
}

/// A structural copy of a chain.
pub fn copy_chain(c: &RedChain) -> (r: RedChain)
    ensures
        r.links@ == c.links@,
{
    let mut links: Vec<RedLink> = Vec::new();
    let mut i: usize = 0;
    while i < c.links.len()
        invariant
            i <= c.links@.len(),
            links@ == c.links@.subrange(0, i as int),
        decreases c.links@.len() - i,
    {
        links.push(c.links[i]);
        assert(links@ =~= c.links@.subrange(0, i as int + 1));
        i += 1;
    }
    assert(links@ =~= c.links@);
    RedChain { links }
}

/// A structural copy of a red permission.
pub fn copy_perm(p: &RedPerm) -> (r: RedPerm)
    ensures
        r.chains@.len() == p.chains@.len(),
        forall|i: int|
            0 <= i < p.chains@.len() ==> (#[trigger] r.chains@[i]).links@ == p.chains@[i].links@,
{
    let mut chains: Vec<RedChain> = Vec::new();
    let mut i: usize = 0;
    while i < p.chains.len()
        invariant
            i <= p.chains@.len(),
            chains@.len() == i,
            forall|k: int|
                0 <= k < i ==> (#[trigger] chains@[k]).links@ == p.chains@[k].links@,
        decreases p.chains@.len() - i,
    {
        chains.push(copy_chain(&p.chains[i]));
        i += 1;
    }
    RedPerm { chains }
}

/// Whether the environment declares the predicate for a generic variable.
pub fn test_var_is_provably(env: &DeclEnv, var: u32, predicate: Predicate) -> (r: bool)
    ensures
        r == env.declared(var, predicate),
{
    env.var_is_declared_to_be(var, predicate)
}

/// Demand that a generic variable is declared to satisfy the predicate.
pub fn require_var_is(env: &DeclEnv, var: u32, predicate: Predicate, or_else: Reported) -> (r:
    Result<(), Reported>)
    ensures
        r == (if env.declared(var, predicate) {
            Ok::<(), Reported>(())
        } else {
            Err::<(), Reported>(or_else)
        }),
{
    if env.var_is_declared_to_be(var, predicate) {
        Ok(())
    } else {
        Err(or_else)
    }
}

/// Demand that a generic variable is not declared to satisfy the
/// predicate.
pub fn require_var_isnt(env: &DeclEnv, var: u32, predicate: Predicate, or_else: Reported) -> (r:
    Result<(), Reported>)
    ensures
        r == (if !env.declared(var, predicate) {
            Ok::<(), Reported>(())
        } else {
            Err::<(), Reported>(or_else)
        }),
{
    if !env.var_is_declared_to_be(var, predicate) {
        Ok(())
    } else {
        Err(or_else)
    }
}

/// Require an inference variable to provably satisfy `predicate`. Nothing
/// happens when the requirement is already recorded; it is an error when
/// the opposite is already recorded; otherwise the requirement is
/// recorded, monotonically.
pub fn require_infer_is(
    store: &mut InferStore,
    infer: u32,
    predicate: Predicate,
    or_else: Reported,
) -> (r: Result<(), Reported>)
    requires
        old(store).contains_var(infer),
    ensures
        final(store).vars@.len() == old(store).vars@.len(),
        forall|i: int|
            0 <= i < old(store).vars@.len() && i != infer as int ==> final(store).vars@[i] == old(
                store,
            ).vars@[i],
        flag_of(old(store).vars@[infer as int].known_is, predicate) ==> r == Ok::<(), Reported>(())
            && final(store).vars@ == old(store).vars@,
        !flag_of(old(store).vars@[infer as int].known_is, predicate) && flag_of(
            old(store).vars@[infer as int].known_isnt,
            predicate,
        ) ==> r == Err::<(), Reported>(or_else) && final(store).vars@ == old(store).vars@,
        !flag_of(old(store).vars@[infer as int].known_is, predicate) && !flag_of(
            old(store).vars@[infer as int].known_isnt,
            predicate,
        ) ==> r == Ok::<(), Reported>(()) && final(store).vars@[infer as int].known_is == set_flag(
            old(store).vars@[infer as int].known_is,
            predicate,
        ) && final(store).vars@[infer as int] == (InferVarData {
            known_is: final(store).vars@[infer as int].known_is,
            ..old(store).vars@[infer as int]
        }),
{
    let data = &self_var(store, infer);
    let is_already = flag_of_exec(data.known_is, predicate);
    let isnt_already = flag_of_exec(data.known_isnt, predicate);
    if is_already {
        return Ok(());
    }
    if isnt_already {
        return Err(or_else);
    }
    let data_mut = &mut store.vars[infer as usize];
    data_mut.known_is = set_flag_exec(data_mut.known_is, predicate);
    Ok(())
}

/// Require an inference variable to provably not satisfy `predicate`.
pub fn require_infer_isnt(
    store: &mut InferStore,
    infer: u32,
    predicate: Predicate,
    or_else: Reported,
) -> (r: Result<(), Reported>)
    requires
        old(store).contains_var(infer),
    ensures
        final(store).vars@.len() == old(store).vars@.len(),
        forall|i: int|
            0 <= i < old(store).vars@.len() && i != infer as int ==> final(store).vars@[i] == old(
                store,
            ).vars@[i],
        flag_of(old(store).vars@[infer as int].known_isnt, predicate) ==> r == Ok::<(), Reported>(
            (),
        ) && final(store).vars@ == old(store).vars@,
        !flag_of(old(store).vars@[infer as int].known_isnt, predicate) && flag_of(
            old(store).vars@[infer as int].known_is,
            predicate,
        ) ==> r == Err::<(), Reported>(or_else) && final(store).vars@ == old(store).vars@,
        !flag_of(old(store).vars@[infer as int].known_isnt, predicate) && !flag_of(
            old(store).vars@[infer as int].known_is,
            predicate,
        ) ==> r == Ok::<(), Reported>(()) && final(store).vars@[infer as int].known_isnt
            == set_flag(old(store).vars@[infer as int].known_isnt, predicate)
            && final(store).vars@[infer as int] == (InferVarData {
            known_isnt: final(store).vars@[infer as int].known_isnt,
            ..old(store).vars@[infer as int]
        }),
{
    let data = &self_var(store, infer);
    let isnt_already = flag_of_exec(data.known_isnt, predicate);
    let is_already = flag_of_exec(data.known_is, predicate);
    if isnt_already {
        return Ok(());
    }
    if is_already {
        return Err(or_else);
    }
    let data_mut = &mut store.vars[infer as usize];
    data_mut.known_isnt = set_flag_exec(data_mut.known_isnt, predicate);
    Ok(())
}

fn self_var<'a>(store: &'a InferStore, v: u32) -> (r: &'a InferVarData)
    requires
        store.contains_var(v),
    ensures
        *r == store.vars@[v as int],
{
    &store.vars[v as usize]
}

/// What a permission inference variable is known to provably be: the
/// recorded flags decide first; otherwise, for a downward-travelling
/// predicate every upper bound must satisfy it, and for an
/// upward-travelling one some lower bound must.
pub open spec fn spec_perm_infer_known(
    env: &DeclEnv,
    data: InferVarData,
    predicate: Predicate,
) -> Result<bool, Reported> {
    if flag_of(data.known_is, predicate) {
        Ok(true)
    } else if flag_of(data.known_isnt, predicate) {
        Ok(false)
    } else {
        match predicate.bound_direction_spec() {
            Direction::FromBelow => spec_exists_chain_is(env, data.lower_chains@, predicate),
            Direction::FromAbove => spec_forall_chain_is(env, data.upper_chains@, predicate),
        }
    }
}

pub open spec fn spec_exists_chain_is(
    env: &DeclEnv,
    chains: Seq<RedChain>,
    predicate: Predicate,
) -> Result<bool, Reported>
    decreases chains.len(),
{
    if chains.len() == 0 {
        Ok(false)
    } else {
        match chains.first().is_provably_spec(env, predicate) {
            Err(e) => Err(e),
            Ok(true) => Ok(true),
            Ok(false) => spec_exists_chain_is(env, chains.drop_first(), predicate),
        }
    }
}

pub open spec fn spec_forall_chain_is(
    env: &DeclEnv,
    chains: Seq<RedChain>,
    predicate: Predicate,
) -> Result<bool, Reported>
    decreases chains.len(),
{
    if chains.len() == 0 {
        Ok(true)
    } else {
        match chains.first().is_provably_spec(env, predicate) {
            Err(e) => Err(e),
            Ok(false) => Ok(false),
            Ok(true) => spec_forall_chain_is(env, chains.drop_first(), predicate),
        }
    }
}

/// Decide what a permission inference variable is known to provably be,
/// from the recorded flags and bounds.
pub fn test_perm_infer_is_known_to_be(
    env: &DeclEnv,
    store: &InferStore,
    infer: u32,
    predicate: Predicate,
) -> (r: Result<bool, Reported>)
    requires
        store.contains_var(infer),
    ensures
        r == spec_perm_infer_known(env, store.vars@[infer as int], predicate),
{
    let data = self_var(store, infer);
    if flag_of_exec(data.known_is, predicate) {
        return Ok(true);
    }
    if flag_of_exec(data.known_isnt, predicate) {
        return Ok(false);
    }
    match predicate.bound_direction() {
        Direction::FromBelow => {
            let r = exists_chain_is_from(env, &data.lower_chains, 0, predicate);
            proof {
                assert(data.lower_chains@.skip(0) =~= data.lower_chains@);
            }
            r
        },
        Direction::FromAbove => {
            let r = forall_chain_is_from(env, &data.upper_chains, 0, predicate);
            proof {
                assert(data.upper_chains@.skip(0) =~= data.upper_chains@);
            }
            r
        },
    }
}

fn exists_chain_is_from(
    env: &DeclEnv,
    chains: &Vec<RedChain>,
    i: usize,
    predicate: Predicate,
) -> (r: Result<bool, Reported>)
    requires
        i <= chains@.len(),
    ensures
        r == spec_exists_chain_is(env, chains@.skip(i as int), predicate),
    decreases chains@.len() - i,
{
    if i == chains.len() {
        assert(chains@.skip(i as int).len() == 0);
        Ok(false)
    } else {
        assert(chains@.skip(i as int).first() == chains@[i as int]);
        assert(chains@.skip(i as int).drop_first() =~= chains@.skip(i as int + 1));
        match chains[i].is_provably(env, predicate) {
            Err(e) => Err(e),
            Ok(true) => Ok(true),
            Ok(false) => exists_chain_is_from(env, chains, i + 1, predicate),
        }
    }
}

fn forall_chain_is_from(
    env: &DeclEnv,
    chains: &Vec<RedChain>,
    i: usize,
    predicate: Predicate,
) -> (r: Result<bool, Reported>)
    requires
        i <= chains@.len(),
    ensures
        r == spec_forall_chain_is(env, chains@.skip(i as int), predicate),
    decreases chains@.len() - i,
{
    if i == chains.len() {
        assert(chains@.skip(i as int).len() == 0);
        Ok(true)
    } else {
        assert(chains@.skip(i as int).first() == chains@[i as int]);
        assert(chains@.skip(i as int).drop_first() =~= chains@.skip(i as int + 1));
        match chains[i].is_provably(env, predicate) {
            Err(e) => Err(e),
            Ok(false) => Ok(false),
            Ok(true) => forall_chain_is_from(env, chains, i + 1, predicate),
        }
    }
}

/// `bound ++ tail` — a bound chain spliced in front of a tail.
pub fn splice_chain(bound: &RedChain, tail: &[RedLink]) -> (r: RedChain)
    ensures
        r.links@ == bound.links@ + tail@,
{
    let mut links = copy_chain(bound).links;
    let mut i: usize = 0;
    while i < tail.len()
        invariant
            i <= tail@.len(),
            links@ == bound.links@ + tail@.subrange(0, i as int),
        decreases tail@.len() - i,
    {
        links.push(tail[i]);
        assert(links@ =~= bound.links@ + tail@.subrange(0, i as int + 1));
        i += 1;
    }
    assert(links@ =~= bound.links@ + tail@);
    RedChain { links }
}

/// Some lower bound of the variable, spliced in front of `lower_tail`, is
/// below `upper`: the search that relates `?X tail <= upper`.
pub open spec fn spec_splice_lower(
    env: &DeclEnv,
    places: Seq<Seq<u32>>,
    bounds: Seq<RedChain>,
    lower_tail: Seq<RedLink>,
    upper: Seq<RedLink>,
) -> Result<bool, Reported>
    decreases bounds.len(),
{
    if bounds.len() == 0 {
        Ok(false)
    } else {
        match spec_sub_links(env, places, bounds.first().links@ + lower_tail, upper) {
            Err(e) => Err(e),
            Ok(true) => Ok(true),
            Ok(false) => spec_splice_lower(env, places, bounds.drop_first(), lower_tail, upper),
        }
    }
}

/// Covers the case `?L0 Ln <= U`: splice each lower bound of `?L0` in
/// front of `Ln` and search for one below `U`.
pub fn splice_lower_bound(
    env: &DeclEnv,
    places: &PlaceStore,
    store: &InferStore,
    lower_var: u32,
    lower_tail: &[RedLink],
    upper: &RedChain,
) -> (r: Result<bool, Reported>)
    requires
        store.contains_var(lower_var),
        store.places_wf(places.view_paths().len()),
        links_places_wf(lower_tail@, places.view_paths().len()),
        links_places_wf(upper.links@, places.view_paths().len()),
    ensures
        r == spec_splice_lower(
            env,
            places.view_paths(),
            store.vars@[lower_var as int].lower_chains@,
            lower_tail@,
            upper.links@,
        ),
{
    let data = self_var(store, lower_var);
    let r = splice_lower_from(env, places, &data.lower_chains, 0, lower_tail, upper);
    proof {
        assert(data.lower_chains@.skip(0) =~= data.lower_chains@);
    }
    r
}

fn splice_lower_from(
    env: &DeclEnv,
    places: &PlaceStore,
    bounds: &Vec<RedChain>,
    i: usize,
    lower_tail: &[RedLink],
    upper: &RedChain,
) -> (r: Result<bool, Reported>)
    requires
        i <= bounds@.len(),
        chains_places_wf(bounds@, places.view_paths().len()),
        links_places_wf(lower_tail@, places.view_paths().len()),
        links_places_wf(upper.links@, places.view_paths().len()),
    ensures
        r == spec_splice_lower(
            env,
            places.view_paths(),
            bounds@.skip(i as int),
            lower_tail@,
            upper.links@,
        ),
    decreases bounds@.len() - i,
{
    if i == bounds.len() {
        assert(bounds@.skip(i as int).len() == 0);
        Ok(false)
    } else {
        assert(bounds@.skip(i as int).first() == bounds@[i as int]);
        assert(bounds@.skip(i as int).drop_first() =~= bounds@.skip(i as int + 1));
        let spliced = splice_chain(&bounds[i], lower_tail);
        assert(links_places_wf(spliced.links@, places.view_paths().len()));
        match sub_chains(env, places, &spliced, upper) {
            Err(e) => Err(e),
            Ok(true) => Ok(true),
            Ok(false) => splice_lower_from(env, places, bounds, i + 1, lower_tail, upper),
        }
    }
}

/// The lower chain is below some upper bound of the variable spliced in
/// front of `upper_tail`: the search that relates `L <= ?U0 Un`. It is
/// enough to find one, because the final permission must be below all of
/// them.
pub open spec fn spec_splice_upper(
    env: &DeclEnv,
    places: Seq<Seq<u32>>,
    lower: Seq<RedLink>,
    bounds: Seq<RedChain>,
    upper_tail: Seq<RedLink>,
) -> Result<bool, Reported>
    decreases bounds.len(),
{
    if bounds.len() == 0 {
        Ok(false)
    } else {
        match spec_sub_links(env, places, lower, bounds.first().links@ + upper_tail) {
            Err(e) => Err(e),
            Ok(true) => Ok(true),
            Ok(false) => spec_splice_upper(env, places, lower, bounds.drop_first(), upper_tail),
        }
    }
}

/// Covers the case `L <= ?U0 Un`.
pub fn splice_upper_bound(
    env: &DeclEnv,
    places: &PlaceStore,
    store: &InferStore,
    lower: &RedChain,
    upper_var: u32,
    upper_tail: &[RedLink],
) -> (r: Result<bool, Reported>)
    requires
        store.contains_var(upper_var),
        store.places_wf(places.view_paths().len()),
        links_places_wf(lower.links@, places.view_paths().len()),
        links_places_wf(upper_tail@, places.view_paths().len()),
    ensures
        r == spec_splice_upper(
            env,
            places.view_paths(),
            lower.links@,
            store.vars@[upper_var as int].upper_chains@,
            upper_tail@,
        ),
{
    let data = self_var(store, upper_var);
    let r = splice_upper_from(env, places, lower, &data.upper_chains, 0, upper_tail);
    proof {
        assert(data.upper_chains@.skip(0) =~= data.upper_chains@);
    }
    r
}

fn splice_upper_from(
    env: &DeclEnv,
    places: &PlaceStore,
    lower: &RedChain,
    bounds: &Vec<RedChain>,
    i: usize,
    upper_tail: &[RedLink],
) -> (r: Result<bool, Reported>)
    requires
        i <= bounds@.len(),
        chains_places_wf(bounds@, places.view_paths().len()),
        links_places_wf(lower.links@, places.view_paths().len()),
        links_places_wf(upper_tail@, places.view_paths().len()),
    ensures
        r == spec_splice_upper(
            env,
            places.view_paths(),
            lower.links@,
            bounds@.skip(i as int),
            upper_tail@,
        ),
    decreases bounds@.len() - i,
{
    if i == bounds.len() {
        assert(bounds@.skip(i as int).len() == 0);
        Ok(false)
    } else {
        assert(bounds@.skip(i as int).first() == bounds@[i as int]);
        assert(bounds@.skip(i as int).drop_first() =~= bounds@.skip(i as int + 1));
        let spliced = splice_chain(&bounds[i], upper_tail);
        assert(links_places_wf(spliced.links@, places.view_paths().len()));
        match sub_chains(env, places, lower, &spliced) {
            Err(e) => Err(e),
            Ok(true) => Ok(true),
            Ok(false) => splice_upper_from(env, places, lower, bounds, i + 1, upper_tail),
        }
    }
}

/// The least upper bound of two permissions that the subtyping relation
/// can name: one of the two when they compare, else the union of their
/// chains. The result is above both inputs.
pub fn join_perms(env: &DeclEnv, places: &PlaceStore, a: &RedPerm, b: &RedPerm) -> (r: Result<
    RedPerm,
    Reported,
>)
    requires
        a.wf(),
        b.wf(),
        crate::laws::chains_wf(a.chains@),
        crate::laws::chains_wf(b.chains@),
        crate::subtype::perm_places_wf(a, places.view_paths().len()),
        crate::subtype::perm_places_wf(b, places.view_paths().len()),
        env.consistent(),
        env.no_owned_alias(),
    ensures
        match r {
            Ok(j) => {
                &&& j.wf()
                &&& spec_sub_perms(env, places.view_paths(), a.chains@, j.chains@) == Ok::<
                    bool,
                    Reported,
                >(true)
                &&& spec_sub_perms(env, places.view_paths(), b.chains@, j.chains@) == Ok::<
                    bool,
                    Reported,
                >(true)
                &&& (spec_sub_perms(env, places.view_paths(), a.chains@, b.chains@) == Ok::<
                    bool,
                    Reported,
                >(true) ==> chains_view_eq(j.chains@, b.chains@))
            },
            Err(_) => false,
        },
{
    proof {
        crate::laws::lemma_sub_perms_no_err(env, places.view_paths(), a.chains@, b.chains@);
        crate::laws::lemma_sub_perms_no_err(env, places.view_paths(), b.chains@, a.chains@);
    }
    match sub_perms(env, places, a, b) {
        Err(e) => Err(e),
        Ok(true) => {
            let j = copy_perm(b);
            proof {
                lemma_same_views_sub(env, places.view_paths(), a, b, &j);
                lemma_same_views_refl(env, places.view_paths(), b, &j);
            }
            Ok(j)
        },
        Ok(false) => {
            match sub_perms(env, places, b, a) {
                Err(e) => Err(e),
                Ok(true) => {
                    let j = copy_perm(a);
                    proof {
                        lemma_same_views_sub(env, places.view_paths(), b, a, &j);
                        lemma_same_views_refl(env, places.view_paths(), a, &j);
                    }
                    Ok(j)
                },
                Ok(false) => {
                    let mut chains = copy_perm(a).chains;
                    let mut bs = copy_perm(b).chains;
                    let ghost na = chains@.len();
                    let mut i: usize = 0;
                    while i < bs.len()
                        invariant
                            i <= bs@.len(),
                            chains@.len() == na + i,
                            forall|k: int|
                                0 <= k < na ==> (#[trigger] chains@[k]).links@ == a.chains@[
                                    k
                                ].links@,
                            forall|k: int|
                                0 <= k < i ==> (#[trigger] chains@[na + k]).links@ == b.chains@[
                                    k
                                ].links@,
                            forall|k: int|
                                0 <= k < bs@.len() ==> (#[trigger] bs@[k]).links@ == b.chains@[
                                    k
                                ].links@,
                        decreases bs@.len() - i,
                    {
                        chains.push(copy_chain(&bs[i]));
                        i += 1;
                    }
                    let j = RedPerm { chains };
                    proof {
                        assert(j.chains@.len() == a.chains@.len() + b.chains@.len());
                        assert forall|k: int| 0 <= k < b.chains@.len() implies (#[trigger] j.chains@[
                            a.chains@.len() + k
                        ]).links@ == b.chains@[k].links@ by {
                            assert(j.chains@[na + k].links@ == b.chains@[k].links@);
                        }
                        lemma_union_above(env, places.view_paths(), a, b, &j);
                    }
                    Ok(j)
                },
            }
        },
    }
}

proof fn lemma_same_views_sub(
    env: &DeclEnv,
    places: Seq<Seq<u32>>,
    x: &RedPerm,
    y: &RedPerm,
    j: &RedPerm,
)
    requires
        spec_sub_perms(env, places, x.chains@, y.chains@) == Ok::<bool, Reported>(true),
        chains_view_eq(j.chains@, y.chains@),
    ensures
        spec_sub_perms(env, places, x.chains@, j.chains@) == Ok::<bool, Reported>(true),
{
    lemma_views_equal_sub(env, places, x.chains@, y.chains@, j.chains@);
}

proof fn lemma_views_equal_sub(
    env: &DeclEnv,
    places: Seq<Seq<u32>>,
    lowers: Seq<RedChain>,
    u1: Seq<RedChain>,
    u2: Seq<RedChain>,
)
    requires
        chains_view_eq(u1, u2),
        spec_sub_perms(env, places, lowers, u1) == Ok::<bool, Reported>(true),
    ensures
        spec_sub_perms(env, places, lowers, u2) == Ok::<bool, Reported>(true),
    decreases lowers.len(),
{
    if lowers.len() > 0 {
        lemma_chain_in_views(env, places, lowers.first().links@, u1, u2);
        lemma_views_equal_sub(env, places, lowers.drop_first(), u1, u2);
    }
}

proof fn lemma_chain_in_views(
    env: &DeclEnv,
    places: Seq<Seq<u32>>,
    lower: Seq<RedLink>,
    u1: Seq<RedChain>,
    u2: Seq<RedChain>,
)
    requires
        chains_view_eq(u1, u2),
    ensures
        crate::subtype::spec_sub_chain_in(env, places, lower, u1)
            == crate::subtype::spec_sub_chain_in(env, places, lower, u2),
    decreases u1.len(),
{
    if u1.len() > 0 {
        assert(u1.first().links@ == u2.first().links@);
        assert(chains_view_eq(u1.drop_first(), u2.drop_first())) by {
            assert forall|i: int| 0 <= i < u1.drop_first().len() implies (#[trigger] u1.drop_first()[
                i
            ]).links@ == u2.drop_first()[i].links@ by {
                assert(u1.drop_first()[i] == u1[i + 1]);
                assert(u2.drop_first()[i] == u2[i + 1]);
            }
        }
        lemma_chain_in_views(env, places, lower, u1.drop_first(), u2.drop_first());
    }
}

proof fn lemma_same_views_refl(env: &DeclEnv, places: Seq<Seq<u32>>, y: &RedPerm, j: &RedPerm)
    requires
        y.wf(),
        chains_wf(y.chains@),
        chains_view_eq(j.chains@, y.chains@),
    ensures
        spec_sub_perms(env, places, y.chains@, j.chains@) == Ok::<bool, Reported>(true),
{
    assert(chains_wf(j.chains@)) by {
        assert forall|i: int| 0 <= i < j.chains@.len() implies crate::laws::seq_wf(
            (#[trigger] j.chains@[i]).links@,
        ) by {
            assert(j.chains@[i].links@ == y.chains@[i].links@);
        }
    }
    assert forall|i: int| 0 <= i < y.chains@.len() implies exists|k: int|
        0 <= k < j.chains@.len() && (#[trigger] y.chains@[i]).links@ == j.chains@[k].links@ by {
        assert(y.chains@[i].links@ == j.chains@[i].links@);
    }
    lemma_sub_perms_contained(env, places, y.chains@, j.chains@);
}

proof fn lemma_union_above(
    env: &DeclEnv,
    places: Seq<Seq<u32>>,
    a: &RedPerm,
    b: &RedPerm,
    j: &RedPerm,
)
    requires
        a.wf(),
        b.wf(),
        chains_wf(a.chains@),
        chains_wf(b.chains@),
        j.chains@.len() == a.chains@.len() + b.chains@.len(),
        forall|k: int|
            0 <= k < a.chains@.len() ==> (#[trigger] j.chains@[k]).links@ == a.chains@[k].links@,
        forall|k: int|
            0 <= k < b.chains@.len() ==> (#[trigger] j.chains@[a.chains@.len() + k]).links@
                == b.chains@[k].links@,
    ensures
        spec_sub_perms(env, places, a.chains@, j.chains@) == Ok::<bool, Reported>(true),
        spec_sub_perms(env, places, b.chains@, j.chains@) == Ok::<bool, Reported>(true),
{
    assert(chains_wf(j.chains@)) by {
        assert forall|i: int| 0 <= i < j.chains@.len() implies crate::laws::seq_wf(
            (#[trigger] j.chains@[i]).links@,
        ) by {
            if i < a.chains@.len() {
                assert(j.chains@[i].links@ == a.chains@[i].links@);
            } else {
                let k = i - a.chains@.len();
                assert(j.chains@[a.chains@.len() + k].links@ == b.chains@[k].links@);
                assert(a.chains@.len() + k == i);
            }
        }
    }
    assert forall|i: int| 0 <= i < a.chains@.len() implies exists|k: int|
        0 <= k < j.chains@.len() && (#[trigger] a.chains@[i]).links@ == j.chains@[k].links@ by {
        assert(a.chains@[i].links@ == j.chains@[i].links@);
    }
    lemma_sub_perms_contained(env, places, a.chains@, j.chains@);
    assert forall|i: int| 0 <= i < b.chains@.len() implies exists|k: int|
        0 <= k < j.chains@.len() && (#[trigger] b.chains@[i]).links@ == j.chains@[k].links@ by {
        assert(b.chains@[i].links@ == j.chains@[a.chains@.len() + i].links@);
    }
    lemma_sub_perms_contained(env, places, b.chains@, j.chains@);
}

} // verus!
