//! The "red" (reduced) canonical form of permissions and types.
//!
//! A `RedChain` is a list of links describing how data was reached: the
//! empty chain is owned data (`my`), a chain beginning with `Our` or `Ref`
//! is copy (shared), a chain beginning with `Mut` is move. A `RedPerm` is a
//! set of chains. Red forms are produced once inference is complete, except
//! that a link may still name an inference variable while subtyping splices
//! bounds (see `infer`).
//!
//! The predicate kernel decides `Shared` / `Unique` / `Owned` / `Lent` over
//! links, chains, and perms, against the environment's declarations for
//! generic variables. Decisions prefer returning `false` when evidence is
//! absent; they error only when an `Err` link actively poisons the chain.

use vstd::prelude::*;

use crate::Predicate;
use crate::Reported;
use crate::arena::PlaceId;
use crate::symir::SymPerm;
use crate::symir::SymTy;
use crate::symir::SymTyName;
use crate::symir::TermList;
use crate::symir::PlaceList;

verus! {

/// Whether the place a link was obtained from is still live afterwards.
/// Liveness does not enter the subtyping rules.
#[derive(Copy, Clone, PartialEq, Eq, Structural, Debug)]
pub struct Live(pub bool);

/// One link of a chain: a permission by which the data was reached.
#[derive(Copy, Clone, PartialEq, Eq, Structural, Debug)]
pub enum RedLink {
    Our,
    Ref(Live, PlaceId),
    Mut(Live, PlaceId),
    Var(u32),
    Infer(u32),
    Error(Reported),
}

/// The predicates an environment declares for one generic variable.
#[derive(Copy, Clone, PartialEq, Eq, Structural, Debug)]
pub struct VarFlags {
    pub shared: bool,
    pub unique: bool,
    pub owned: bool,
    pub lent: bool,
}

/// Environment-declared predicate bounds for generic variables, indexed by
/// variable id. A variable outside the table has no declared predicates.
pub struct DeclEnv {
    pub flags: Vec<VarFlags>,
}

impl DeclEnv {
    pub open spec fn declared(&self, v: u32, p: Predicate) -> bool {
        v < self.flags@.len() && match p {
            Predicate::Shared => self.flags@[v as int].shared,
            Predicate::Unique => self.flags@[v as int].unique,
            Predicate::Owned => self.flags@[v as int].owned,
            Predicate::Lent => self.flags@[v as int].lent,
        }
    }

    /// Declarations are consistent: no variable is declared on both sides
    /// of a mutually exclusive pair.
    pub open spec fn consistent(&self) -> bool {
        (forall|v: u32|
            !(#[trigger] self.declared(v, Predicate::Shared) && self.declared(
                v,
                Predicate::Unique,
            ))) && (forall|v: u32|
            !(#[trigger] self.declared(v, Predicate::Owned) && self.declared(v, Predicate::Lent)))
    }

    /// No variable is declared owned together with shared or unique: under
    /// such declarations a variable chain can stand for `our` or `my`
    /// itself, which the structural subtyping rules do not chase.
    pub open spec fn no_owned_alias(&self) -> bool {
        (forall|v: u32|
            !(#[trigger] self.declared(v, Predicate::Owned) && self.declared(
                v,
                Predicate::Shared,
            ))) && (forall|v: u32|
            !(#[trigger] self.declared(v, Predicate::Owned) && self.declared(v, Predicate::Unique)))
    }

    pub fn new() -> (r: DeclEnv)
        ensures
            r.flags@.len() == 0,
    {
        DeclEnv { flags: Vec::new() }
    }

    /// Whether the environment declares predicate `p` for variable `v`.
    pub fn var_is_declared_to_be(&self, v: u32, p: Predicate) -> (r: bool)
        ensures
            r == self.declared(v, p),
    {
        if (v as usize) < self.flags.len() {
            let f = self.flags[v as usize];
            match p {
                Predicate::Shared => f.shared,
                Predicate::Unique => f.unique,
                Predicate::Owned => f.owned,
                Predicate::Lent => f.lent,
            }
        } else {
            false
        }
    }
}

impl RedLink {
    pub open spec fn is_owned_spec(self, env: &DeclEnv) -> Result<bool, Reported> {
        match self {
            RedLink::Our => Ok(true),
            RedLink::Var(v) => Ok(env.declared(v, Predicate::Owned)),
            RedLink::Ref(..) | RedLink::Mut(..) => Ok(false),
            RedLink::Infer(_) => Ok(false),
            RedLink::Error(reported) => Err(reported),
        }
    }

    pub open spec fn is_lent_spec(self, env: &DeclEnv) -> Result<bool, Reported> {
        match self {
            RedLink::Ref(..) | RedLink::Mut(..) => Ok(true),
            RedLink::Var(v) => Ok(env.declared(v, Predicate::Lent)),
            RedLink::Our => Ok(false),
            RedLink::Infer(_) => Ok(false),
            RedLink::Error(reported) => Err(reported),
        }
    }

    pub open spec fn is_move_spec(self, env: &DeclEnv) -> Result<bool, Reported> {
        match self {
            RedLink::Mut(..) => Ok(true),
            RedLink::Var(v) => Ok(env.declared(v, Predicate::Unique)),
            RedLink::Our | RedLink::Ref(..) => Ok(false),
            RedLink::Infer(_) => Ok(false),
            RedLink::Error(reported) => Err(reported),
        }
    }

    pub open spec fn is_copy_spec(self, env: &DeclEnv) -> Result<bool, Reported> {
        match self {
            RedLink::Our | RedLink::Ref(..) => Ok(true),
            RedLink::Var(v) => Ok(env.declared(v, Predicate::Shared)),
            RedLink::Mut(..) => Ok(false),
            RedLink::Infer(_) => Ok(false),
            RedLink::Error(reported) => Err(reported),
        }
    }

    /// No inference variable occurs in this link.
    pub open spec fn infer_free(self) -> bool {
        !(self is Infer)
    }

    /// No error poisons this link.
    pub open spec fn err_free(self) -> bool {
        !(self is Error)
    }

    pub fn is_owned(&self, env: &DeclEnv) -> (r: Result<bool, Reported>)
        ensures
            r == self.is_owned_spec(env),
    {
        match self {
            RedLink::Our => Ok(true),
            RedLink::Var(v) => Ok(env.var_is_declared_to_be(*v, Predicate::Owned)),
            RedLink::Ref(..) | RedLink::Mut(..) => Ok(false),
            RedLink::Infer(_) => Ok(false),
            RedLink::Error(reported) => Err(*reported),
        }
    }

    pub fn is_lent(&self, env: &DeclEnv) -> (r: Result<bool, Reported>)
        ensures
            r == self.is_lent_spec(env),
    {
        match self {
            RedLink::Ref(..) | RedLink::Mut(..) => Ok(true),
            RedLink::Var(v) => Ok(env.var_is_declared_to_be(*v, Predicate::Lent)),
            RedLink::Our => Ok(false),
            RedLink::Infer(_) => Ok(false),
            RedLink::Error(reported) => Err(*reported),
        }
    }

    pub fn is_move(&self, env: &DeclEnv) -> (r: Result<bool, Reported>)
        ensures
            r == self.is_move_spec(env),
    {
        match self {
            RedLink::Mut(..) => Ok(true),
            RedLink::Var(v) => Ok(env.var_is_declared_to_be(*v, Predicate::Unique)),
            RedLink::Our | RedLink::Ref(..) => Ok(false),
            RedLink::Infer(_) => Ok(false),
            RedLink::Error(reported) => Err(*reported),
        }
    }

    pub fn is_copy(&self, env: &DeclEnv) -> (r: Result<bool, Reported>)
        ensures
            r == self.is_copy_spec(env),
    {
        match self {
            RedLink::Our | RedLink::Ref(..) => Ok(true),
            RedLink::Var(v) => Ok(env.var_is_declared_to_be(*v, Predicate::Shared)),
            RedLink::Mut(..) => Ok(false),
            RedLink::Infer(_) => Ok(false),
            RedLink::Error(reported) => Err(*reported),
        }
    }

    /// A chain is copy (shared) iff its first link is; the empty chain is
    /// not copy.
    pub open spec fn are_copy_spec(env: &DeclEnv, links: Seq<RedLink>) -> Result<bool, Reported> {
        if links.len() == 0 {
            Ok(false)
        } else {
            links.first().is_copy_spec(env)
        }
    }

    /// A chain is move (unique) iff every link is; errors met before an
    /// answer propagate.
    pub open spec fn are_move_spec(env: &DeclEnv, links: Seq<RedLink>) -> Result<bool, Reported>
        decreases links.len(),
    {
        if links.len() == 0 {
            Ok(true)
        } else {
            match links.first().is_move_spec(env) {
                Err(e) => Err(e),
                Ok(false) => Ok(false),
                Ok(true) => Self::are_move_spec(env, links.drop_first()),
            }
        }
    }

    /// A chain is owned iff every link is.
    pub open spec fn are_owned_spec(env: &DeclEnv, links: Seq<RedLink>) -> Result<bool, Reported>
        decreases links.len(),
    {
        if links.len() == 0 {
            Ok(true)
        } else {
            match links.first().is_owned_spec(env) {
                Err(e) => Err(e),
                Ok(false) => Ok(false),
                Ok(true) => Self::are_owned_spec(env, links.drop_first()),
            }
        }
    }

    /// A chain is lent iff some link is.
    pub open spec fn are_lent_spec(env: &DeclEnv, links: Seq<RedLink>) -> Result<bool, Reported>
        decreases links.len(),
    {
        if links.len() == 0 {
            Ok(false)
        } else {
            match links.first().is_lent_spec(env) {
                Err(e) => Err(e),
                Ok(true) => Ok(true),
                Ok(false) => Self::are_lent_spec(env, links.drop_first()),
            }
        }
    }

    pub fn are_copy(env: &DeclEnv, links: &[RedLink]) -> (r: Result<bool, Reported>)
        ensures
            r == Self::are_copy_spec(env, links@),
    {
        if links.len() == 0 {
            Ok(false)
        } else {
            links[0].is_copy(env)
        }
    }

    pub fn are_move(env: &DeclEnv, links: &[RedLink]) -> (r: Result<bool, Reported>)
        ensures
            r == Self::are_move_spec(env, links@),
    {
        proof {
            assert(links@.skip(0) =~= links@);
        }
        are_move_from(env, links, 0)
    }

    pub fn are_owned(env: &DeclEnv, links: &[RedLink]) -> (r: Result<bool, Reported>)
        ensures
            r == Self::are_owned_spec(env, links@),
    {
        proof {
            assert(links@.skip(0) =~= links@);
        }
        are_owned_from(env, links, 0)
    }

    pub fn are_lent(env: &DeclEnv, links: &[RedLink]) -> (r: Result<bool, Reported>)
        ensures
            r == Self::are_lent_spec(env, links@),
    {
        proof {
            assert(links@.skip(0) =~= links@);
        }
        are_lent_from(env, links, 0)
    }

    /// The symbolic permission a single link denotes.
    pub fn to_sym_perm(self) -> (r: SymPerm)
        ensures
            perm_single_like(r, self),
    {
        match self {
            RedLink::Our => SymPerm::Our,
            RedLink::Ref(_, place) => SymPerm::Referenced(PlaceList::one(place)),
            RedLink::Mut(_, place) => SymPerm::Mutable(PlaceList::one(place)),
            RedLink::Var(v) => SymPerm::Var(v),
            RedLink::Infer(v) => SymPerm::Infer(v),
            RedLink::Error(reported) => SymPerm::Error(reported),
        }
    }
}

fn are_move_from(env: &DeclEnv, links: &[RedLink], i: usize) -> (r: Result<bool, Reported>)
    requires
        i <= links@.len(),
    ensures
        r == RedLink::are_move_spec(env, links@.skip(i as int)),
    decreases links@.len() - i,
{
    if i == links.len() {
        assert(links@.skip(i as int).len() == 0);
        Ok(true)
    } else {
        assert(links@.skip(i as int).first() == links@[i as int]);
        assert(links@.skip(i as int).drop_first() =~= links@.skip(i as int + 1));
        match links[i].is_move(env) {
            Err(e) => Err(e),
            Ok(false) => Ok(false),
            Ok(true) => are_move_from(env, links, i + 1),
        }
    }
}

fn are_owned_from(env: &DeclEnv, links: &[RedLink], i: usize) -> (r: Result<bool, Reported>)
    requires
        i <= links@.len(),
    ensures
        r == RedLink::are_owned_spec(env, links@.skip(i as int)),
    decreases links@.len() - i,
{
    if i == links.len() {
        assert(links@.skip(i as int).len() == 0);
        Ok(true)
    } else {
        assert(links@.skip(i as int).first() == links@[i as int]);
        assert(links@.skip(i as int).drop_first() =~= links@.skip(i as int + 1));
        match links[i].is_owned(env) {
            Err(e) => Err(e),
            Ok(false) => Ok(false),
            Ok(true) => are_owned_from(env, links, i + 1),
        }
    }
}

fn are_lent_from(env: &DeclEnv, links: &[RedLink], i: usize) -> (r: Result<bool, Reported>)
    requires
        i <= links@.len(),
    ensures
        r == RedLink::are_lent_spec(env, links@.skip(i as int)),
    decreases links@.len() - i,
{
    if i == links.len() {
        assert(links@.skip(i as int).len() == 0);
        Ok(false)
    } else {
        assert(links@.skip(i as int).first() == links@[i as int]);
        assert(links@.skip(i as int).drop_first() =~= links@.skip(i as int + 1));
        match links[i].is_lent(env) {
            Err(e) => Err(e),
            Ok(true) => Ok(true),
            Ok(false) => are_lent_from(env, links, i + 1),
        }
    }
}

/// A lien chain: the ordered links by which some data may have been
/// reached. The empty chain is owned data (`my`).
pub struct RedChain {
    pub links: Vec<RedLink>,
}

impl RedChain {
    pub open spec fn infer_free(&self) -> bool {
        forall|i: int| 0 <= i < self.links@.len() ==> (#[trigger] self.links@[i]).infer_free()
    }

    pub open spec fn err_free(&self) -> bool {
        forall|i: int| 0 <= i < self.links@.len() ==> (#[trigger] self.links@[i]).err_free()
    }

    /// The chain `our`.
    pub fn our() -> (r: RedChain)
        ensures
            r.links@ == seq![RedLink::Our],
    {
        let mut links: Vec<RedLink> = Vec::new();
        links.push(RedLink::Our);
        assert(links@ =~= seq![RedLink::Our]);
        RedChain { links }
    }

    pub open spec fn is_provably_spec(&self, env: &DeclEnv, predicate: Predicate) -> Result<
        bool,
        Reported,
    > {
        match predicate {
            Predicate::Shared => RedLink::are_copy_spec(env, self.links@),
            Predicate::Unique => RedLink::are_move_spec(env, self.links@),
            Predicate::Owned => RedLink::are_owned_spec(env, self.links@),
            Predicate::Lent => RedLink::are_lent_spec(env, self.links@),
        }
    }

    /// Whether the chain provably satisfies the predicate under the
    /// environment's declarations.
    pub fn is_provably(&self, env: &DeclEnv, predicate: Predicate) -> (r: Result<bool, Reported>)
        ensures
            r == self.is_provably_spec(env, predicate),
    {
        match predicate {
            Predicate::Shared => RedLink::are_copy(env, self.links.as_slice()),
            Predicate::Unique => RedLink::are_move(env, self.links.as_slice()),
            Predicate::Owned => RedLink::are_owned(env, self.links.as_slice()),
            Predicate::Lent => RedLink::are_lent(env, self.links.as_slice()),
        }
    }

    /// The symbolic permission this chain denotes: the left fold of the
    /// links under `Apply`; the empty chain denotes `my`.
    pub fn to_sym_perm(&self) -> (r: SymPerm)
        ensures
            chain_perm_like(r, self.links@),
    {
        if self.links.len() == 0 {
            return SymPerm::My;
        }
        let mut acc = self.links[0].to_sym_perm();
        let mut i: usize = 1;
        while i < self.links.len()
            invariant
                1 <= i <= self.links@.len(),
                perm_like_prefix(acc, self.links@, i as int),
            decreases self.links@.len() - i,
        {
            let next = self.links[i].to_sym_perm();
            acc = SymPerm::Apply(Box::new(acc), Box::new(next));
            i += 1;
        }
        acc
    }
}

/// `p` denotes the same permission as the single link `l`: equal up to the
/// representation of the place vector.
pub open spec fn perm_single_like(p: SymPerm, l: RedLink) -> bool {
    match l {
        RedLink::Our => p == SymPerm::Our,
        RedLink::Ref(_, place) => match p {
            SymPerm::Referenced(ps) => ps == PlaceList::Cons(place, Box::new(PlaceList::Nil)),
            _ => false,
        },
        RedLink::Mut(_, place) => match p {
            SymPerm::Mutable(ps) => ps == PlaceList::Cons(place, Box::new(PlaceList::Nil)),
            _ => false,
        },
        RedLink::Var(v) => p == SymPerm::Var(v),
        RedLink::Infer(v) => p == SymPerm::Infer(v),
        RedLink::Error(reported) => p == SymPerm::Error(reported),
    }
}

/// `p` is the left-`Apply` fold of the first `n` links of `links`.
pub open spec fn perm_like_prefix(p: SymPerm, links: Seq<RedLink>, n: int) -> bool
    decreases n,
{
    if n <= 0 {
        false
    } else if n == 1 {
        perm_single_like(p, links[0])
    } else {
        match p {
            SymPerm::Apply(lhs, rhs) => perm_like_prefix(*lhs, links, n - 1) && perm_single_like(
                *rhs,
                links[n - 1],
            ),
            _ => false,
        }
    }
}

/// `p` is the left-`Apply` fold of all of `links`.
pub open spec fn perm_like(p: SymPerm, links: Seq<RedLink>) -> bool {
    perm_like_prefix(p, links, links.len() as int)
}

/// `p` denotes the chain `links`: `my` for the empty chain, else the
/// left-`Apply` fold of the links.
pub open spec fn chain_perm_like(p: SymPerm, links: Seq<RedLink>) -> bool {
    if links.len() == 0 {
        p == SymPerm::My
    } else {
        perm_like(p, links)
    }
}

/// `p` is the left-`Or` fold of the permissions of the first `n` chains.
pub open spec fn or_like_prefix(p: SymPerm, chains: Seq<RedChain>, n: int) -> bool
    decreases n,
{
    if n <= 0 {
        false
    } else if n == 1 {
        chain_perm_like(p, chains[0].links@)
    } else {
        match p {
            SymPerm::Or(lhs, rhs) => or_like_prefix(*lhs, chains, n - 1) && chain_perm_like(
                *rhs,
                chains[n - 1].links@,
            ),
            _ => false,
        }
    }
}

/// A red permission: a non-empty set of chains, any of which may have been
/// the way the data was reached.
pub struct RedPerm {
    pub chains: Vec<RedChain>,
}

impl RedPerm {
    pub open spec fn wf(&self) -> bool {
        self.chains@.len() >= 1
    }

    pub open spec fn infer_free(&self) -> bool {
        forall|i: int| 0 <= i < self.chains@.len() ==> (#[trigger] self.chains@[i]).infer_free()
    }

    pub open spec fn err_free(&self) -> bool {
        forall|i: int| 0 <= i < self.chains@.len() ==> (#[trigger] self.chains@[i]).err_free()
    }

    /// The fallback bound for a permission: `my`, the empty chain.
    pub fn fallback() -> (r: RedPerm)
        ensures
            r.wf(),
            r.chains@.len() == 1,
            r.chains@[0].links@.len() == 0,
    {
        let mut chains: Vec<RedChain> = Vec::new();
        chains.push(RedChain { links: Vec::new() });
        RedPerm { chains }
    }

    /// Provability over a red permission is universal over its chains;
    /// errors met before an answer propagate.
    pub open spec fn is_provably_model(
        env: &DeclEnv,
        chains: Seq<RedChain>,
        predicate: Predicate,
    ) -> Result<bool, Reported>
        decreases chains.len(),
    {
        if chains.len() == 0 {
            Ok(true)
        } else {
            match chains.first().is_provably_spec(env, predicate) {
                Err(e) => Err(e),
                Ok(false) => Ok(false),
                Ok(true) => Self::is_provably_model(env, chains.drop_first(), predicate),
            }
        }
    }

    pub open spec fn is_provably_spec(&self, env: &DeclEnv, predicate: Predicate) -> Result<
        bool,
        Reported,
    > {
        Self::is_provably_model(env, self.chains@, predicate)
    }

    pub fn is_provably(&self, env: &DeclEnv, predicate: Predicate) -> (r: Result<bool, Reported>)
        requires
            self.wf(),
        ensures
            r == self.is_provably_spec(env, predicate),
    {
        let r = is_provably_from(env, self, 0, predicate);
        proof {
            assert(self.chains@.skip(0) =~= self.chains@);
        }
        r
    }

    /// `our` is exactly shared-and-owned.
    pub fn is_our(&self, env: &DeclEnv) -> (r: Result<bool, Reported>)
        requires
            self.wf(),
        ensures
            r == (match self.is_provably_spec(env, Predicate::Shared) {
                Err(e) => Err::<bool, Reported>(e),
                Ok(false) => Ok(false),
                Ok(true) => self.is_provably_spec(env, Predicate::Owned),
            }),
    {
        match self.is_provably(env, Predicate::Shared) {
            Err(e) => Err(e),
            Ok(false) => Ok(false),
            Ok(true) => self.is_provably(env, Predicate::Owned),
        }
    }

    /// The symbolic permission this perm denotes: the left fold of its
    /// chains' permissions under `Or`.
    pub fn to_sym_perm(&self) -> (r: SymPerm)
        requires
            self.wf(),
        ensures
            or_like_prefix(r, self.chains@, self.chains@.len() as int),
    {
        let mut acc = self.chains[0].to_sym_perm();
        let mut i: usize = 1;
        while i < self.chains.len()
            invariant
                1 <= i <= self.chains@.len(),
                or_like_prefix(acc, self.chains@, i as int),
            decreases self.chains@.len() - i,
        {
            let next = self.chains[i].to_sym_perm();
            acc = SymPerm::Or(Box::new(acc), Box::new(next));
            i += 1;
        }
        acc
    }
}

fn is_provably_from(env: &DeclEnv, perm: &RedPerm, i: usize, predicate: Predicate) -> (r: Result<
    bool,
    Reported,
>)
    requires
        i <= perm.chains@.len(),
    ensures
        r == RedPerm::is_provably_model(env, perm.chains@.skip(i as int), predicate),
    decreases perm.chains@.len() - i,
{
    if i == perm.chains.len() {
        assert(perm.chains@.skip(i as int).len() == 0);
        Ok(true)
    } else {
        assert(perm.chains@.skip(i as int).first() == perm.chains@[i as int]);
        assert(perm.chains@.skip(i as int).drop_first() =~= perm.chains@.skip(i as int + 1));
        match perm.chains[i].is_provably(env, predicate) {
            Err(e) => Err(e),
            Ok(false) => Ok(false),
            Ok(true) => is_provably_from(env, perm, i + 1, predicate),
        }
    }
}

/// A red type: the layout part of a type, with the permission factored
/// away.
pub enum RedTy {
    /// An error occurred while processing this type.
    Error(Reported),
    /// A named type.
    Named(SymTyName, Box<TermList>),
    /// Never type.
    Never,
    /// An inference variable.
    Infer(u32),
    /// A generic variable.
    Var(u32),
    /// A permission; occurs when a permission is converted to a red type.
    Perm,
}

impl RedTy {
    /// Inference fallback.
    pub fn fallback() -> (r: RedTy)
        ensures
            r is Never,
    {
        RedTy::Never
    }

    /// The symbolic type this red type denotes. A permission red type has
    /// no symbolic type: that case is an invariant violation, so it is
    /// excluded here.
    pub fn into_sym_ty(self) -> (r: SymTy)
        requires
            !(self is Perm),
        ensures
            match self {
                RedTy::Error(reported) => r == SymTy::Error(reported),
                RedTy::Named(name, terms) => r == SymTy::Named(name, terms),
                RedTy::Never => r == SymTy::Never,
                RedTy::Infer(v) => r == SymTy::Infer(v),
                RedTy::Var(v) => r == SymTy::Var(v),
                RedTy::Perm => false,
            },
    {
        match self {
            RedTy::Error(reported) => SymTy::Error(reported),
            RedTy::Named(name, terms) => SymTy::Named(name, terms),
            RedTy::Never => SymTy::Never,
            RedTy::Infer(v) => SymTy::Infer(v),
            RedTy::Var(v) => SymTy::Var(v),
            RedTy::Perm => SymTy::Never,
        }
    }
}

/// Element-wise equality of two chains.
pub fn chain_eq(a: &RedChain, b: &RedChain) -> (r: bool)
    ensures
        r == (a.links@ == b.links@),
{
    if a.links.len() != b.links.len() {
        assert(a.links@ !== b.links@);
        return false;
    }
    let mut i: usize = 0;
    while i < a.links.len()
        invariant
            i <= a.links@.len(),
            a.links@.len() == b.links@.len(),
            forall|j: int| 0 <= j < i ==> a.links@[j] == b.links@[j],
        decreases a.links@.len() - i,
    {
        if a.links[i] != b.links[i] {
            assert(a.links@[i as int] != b.links@[i as int]);
            return false;
        }
        i += 1;
    }
    assert(a.links@ =~= b.links@);
    true
}

} // verus!
