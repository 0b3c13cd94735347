//! Scopes and function signatures.
//!
//! Items form a scope tree: a function sits inside a class or module,
//! and the generic parameters and where-clauses in scope are collected
//! transitively, outermost first. Checking a function's signature
//! prepares the environment its body is checked in: the input symbols and
//! types, the return type from the body's and the caller's point of view
//! (an `async` function returns a `Future` to its caller), and the
//! where-clauses in scope.

use vstd::prelude::*;

use crate::Predicate;
use crate::symir::SymTy;
use crate::symir::SymTyName;
use crate::symir::SymVariable;
use crate::symir::TermList;
use crate::symir::SymGenericTerm;
use crate::symir::copy_sym_ty;
use crate::red::DeclEnv;
use crate::red::VarFlags;

verus! {

/// A where-clause: the predicate a generic variable is declared to
/// satisfy.
#[derive(Copy, Clone, PartialEq, Eq, Structural, Debug)]
pub struct SymWhereClause {
    pub subject: u32,
    pub predicate: Predicate,
}

/// What kind of item a scope belongs to.
#[derive(Copy, Clone, PartialEq, Eq, Structural, Debug)]
pub enum ScopeItem {
    SymModule(u32),
    Class(u32),
    SymFunction(u32),
}

/// One node of the scope tree: its item, its enclosing scope, and the
/// generic parameters and where-clauses it declares directly.
pub struct ScopeTreeNode {
    pub item: ScopeItem,
    pub parent: Option<u32>,
    pub generics: Vec<SymVariable>,
    pub where_clauses: Vec<SymWhereClause>,
}

/// The scope tree of a module. Every parent link points to an earlier
/// node, so walks towards the root terminate.
pub struct ScopeTree {
    pub nodes: Vec<ScopeTreeNode>,
}

impl ScopeTree {
    pub open spec fn wf(&self) -> bool {
        forall|i: int|
            0 <= i < self.nodes@.len() ==> match (#[trigger] self.nodes@[i]).parent {
                Some(p) => p < i,
                None => true,
            }
    }

    pub open spec fn contains_node(&self, n: u32) -> bool {
        n < self.nodes@.len()
    }

    /// The generic parameters in scope at `node`, outermost first.
    pub open spec fn spec_transitive_generics(&self, n: int) -> Seq<SymVariable>
        decreases n,
    {
        if !(0 <= n < self.nodes@.len()) {
            Seq::empty()
        } else {
            match self.nodes@[n].parent {
                Some(p) => if p < n {
                    self.spec_transitive_generics(p as int) + self.nodes@[n].generics@
                } else {
                    self.nodes@[n].generics@
                },
                None => self.nodes@[n].generics@,
            }
        }
    }

    /// The where-clauses in scope at `node`, outermost first.
    pub open spec fn spec_transitive_where_clauses(&self, n: int) -> Seq<SymWhereClause>
        decreases n,
    {
        if !(0 <= n < self.nodes@.len()) {
            Seq::empty()
        } else {
            match self.nodes@[n].parent {
                Some(p) => if p < n {
                    self.spec_transitive_where_clauses(p as int) + self.nodes@[n].where_clauses@
                } else {
                    self.nodes@[n].where_clauses@
                },
                None => self.nodes@[n].where_clauses@,
            }
        }
    }

    /// Compute the transitive generic parameters of a node: the
    /// parameters of every enclosing scope, outermost first.
    pub fn transitive_generic_parameters(&self, n: u32) -> (r: Vec<SymVariable>)
        requires
            self.wf(),
            self.contains_node(n),
        ensures
            r@ == self.spec_transitive_generics(n as int),
        decreases n,
    {
        let node = &self.nodes[n as usize];
        let mut r: Vec<SymVariable> = match node.parent {
            Some(p) => self.transitive_generic_parameters(p),
            None => Vec::new(),
        };
        let ghost upper = r@;
        let mut i: usize = 0;
        while i < node.generics.len()
            invariant
                i <= node.generics@.len(),
                node.generics@ == self.nodes@[n as int].generics@,
                r@ == upper + node.generics@.subrange(0, i as int),
            decreases node.generics@.len() - i,
        {
            r.push(node.generics[i]);
            assert(r@ =~= upper + node.generics@.subrange(0, i as int + 1));
            i += 1;
        }
        proof {
            assert(r@ =~= upper + node.generics@);
            if self.nodes@[n as int].parent is None {
                assert(Seq::<SymVariable>::empty() + node.generics@ =~= node.generics@);
            }
        }
        r
    }

    /// The number of generic parameters an instantiation of this node
    /// must supply.
    pub fn expected_generic_parameters(&self, n: u32) -> (r: usize)
        requires
            self.wf(),
            self.contains_node(n),
        ensures
            r == self.spec_transitive_generics(n as int).len() || (r == usize::MAX
                && self.spec_transitive_generics(n as int).len() >= usize::MAX),
    {
        let v = self.transitive_generic_parameters(n);
        v.len()
    }

    /// Collect the where-clauses of this node and every enclosing scope,
    /// outermost first, into `out`.
    pub fn push_transitive_where_clauses(&self, n: u32, out: &mut Vec<SymWhereClause>)
        requires
            self.wf(),
            self.contains_node(n),
        ensures
            final(out)@ == old(out)@ + self.spec_transitive_where_clauses(n as int),
        decreases n,
    {
        let node = &self.nodes[n as usize];
        match node.parent {
            Some(p) => self.push_transitive_where_clauses(p, out),
            None => (),
        }
        let ghost upper = out@;
        let mut i: usize = 0;
        while i < node.where_clauses.len()
            invariant
                i <= node.where_clauses@.len(),
                node.where_clauses@ == self.nodes@[n as int].where_clauses@,
                out@ == upper + node.where_clauses@.subrange(0, i as int),
            decreases node.where_clauses@.len() - i,
        {
            out.push(node.where_clauses[i]);
            assert(out@ =~= upper + node.where_clauses@.subrange(0, i as int + 1));
            i += 1;
        }
        proof {
            assert(out@ =~= upper + node.where_clauses@);
            if self.nodes@[n as int].parent is None {
                assert(old(out)@ + (Seq::<SymWhereClause>::empty()
                    + node.where_clauses@) =~= old(out)@ + node.where_clauses@);
            }
        }
    }
}

/// The source of one function: its scope node, its declared effects, its
/// input symbols with their declared types, and its declared return type.
pub struct SymFunctionSource {
    pub scope_node: u32,
    pub is_async: bool,
    pub input_symbols: Vec<SymVariable>,
    pub input_tys: Vec<SymTy>,
    pub output_ty: Option<SymTy>,
}

/// The environment a function body is checked in.
pub struct PreparedEnv {
    /// The declared predicates for the generic variables in scope.
    pub env: DeclEnv,
    /// The symbols of the function's inputs.
    pub input_symbols: Vec<SymVariable>,
    /// The types of the function's inputs.
    pub input_tys: Vec<SymTy>,
    /// The return type the body should produce.
    pub output_ty_body: SymTy,
    /// The return type from the caller's point of view; for an `async`
    /// function this is a future of the body's type.
    pub output_ty_caller: SymTy,
    /// The where-clauses in scope, outermost first.
    pub where_clauses: Vec<SymWhereClause>,
}

/// The body's return type: the declared one, or unit when none was
/// written.
pub open spec fn spec_output_ty_body(source: &SymFunctionSource) -> SymTy {
    match source.output_ty {
        Some(t) => t,
        None => SymTy::Named(SymTyName::Tuple { arity: 0 }, Box::new(TermList::Nil)),
    }
}

/// The caller's view of the return type: wrapped in `Future` for an
/// `async` function.
pub open spec fn spec_output_ty_caller(source: &SymFunctionSource) -> SymTy {
    if source.is_async {
        SymTy::Named(
            SymTyName::Future,
            Box::new(
                TermList::Cons(
                    SymGenericTerm::Type(spec_output_ty_body(source)),
                    Box::new(TermList::Nil),
                ),
            ),
        )
    } else {
        spec_output_ty_body(source)
    }
}

/// The declaration environment the where-clauses induce: each clause sets
/// its predicate's flag for its subject.
pub open spec fn spec_env_of_clauses(clauses: Seq<SymWhereClause>, nvars: nat) -> Seq<VarFlags>
    decreases clauses.len(),
{
    if clauses.len() == 0 {
        Seq::new(nvars, |i: int| VarFlags { shared: false, unique: false, owned: false, lent: false })
    } else {
        let prev = spec_env_of_clauses(clauses.drop_last(), nvars);
        let c = clauses.last();
        if c.subject < nvars {
            prev.update(c.subject as int, set_pred_flag(prev[c.subject as int], c.predicate))
        } else {
            prev
        }
    }
}

pub open spec fn set_pred_flag(f: VarFlags, p: Predicate) -> VarFlags {
    match p {
        Predicate::Shared => VarFlags { shared: true, ..f },
        Predicate::Unique => VarFlags { unique: true, ..f },
        Predicate::Owned => VarFlags { owned: true, ..f },
        Predicate::Lent => VarFlags { lent: true, ..f },
    }
}

/// Build the declaration environment from where-clauses over `nvars`
/// generic variables.
pub fn env_of_clauses(clauses: &Vec<SymWhereClause>, nvars: usize) -> (r: DeclEnv)
    ensures
        r.flags@ == spec_env_of_clauses(clauses@, nvars as nat),
{
    let mut flags: Vec<VarFlags> = Vec::new();
    let mut i: usize = 0;
    while i < nvars
        invariant
            i <= nvars,
            flags@.len() == i,
            forall|j: int|
                0 <= j < i ==> flags@[j] == (VarFlags {
                    shared: false,
                    unique: false,
                    owned: false,
                    lent: false,
                }),
        decreases nvars - i,
    {
        flags.push(VarFlags { shared: false, unique: false, owned: false, lent: false });
        i += 1;
    }
    proof {
        assert(flags@ =~= spec_env_of_clauses(Seq::empty(), nvars as nat));
        assert(clauses@.subrange(0, 0) =~= Seq::<SymWhereClause>::empty());
    }
    let mut k: usize = 0;
    while k < clauses.len()
        invariant
            k <= clauses@.len(),
            flags@.len() == nvars,
            flags@ == spec_env_of_clauses(clauses@.subrange(0, k as int), nvars as nat),
        decreases clauses@.len() - k,
    {
        let c = clauses[k];
        proof {
            assert(clauses@.subrange(0, k as int + 1).drop_last() =~= clauses@.subrange(
                0,
                k as int,
            ));
            assert(clauses@.subrange(0, k as int + 1).last() == clauses@[k as int]);
        }
        if (c.subject as usize) < nvars {
            let f = flags[c.subject as usize];
            let nf = match c.predicate {
                Predicate::Shared => VarFlags { shared: true, ..f },
                Predicate::Unique => VarFlags { unique: true, ..f },
                Predicate::Owned => VarFlags { owned: true, ..f },
                Predicate::Lent => VarFlags { lent: true, ..f },
            };
            flags[c.subject as usize] = nf;
        }
        k += 1;
    }
    proof {
        assert(clauses@.subrange(0, clauses@.len() as int) =~= clauses@);
    }
    DeclEnv { flags }
}

/// Prepare the environment a function body is checked in: copy the input
/// symbols and types, settle the two views of the return type, collect
/// the where-clauses in scope, and build the declaration environment over
/// the generic variables in scope.
pub fn prepare_env(tree: &ScopeTree, source: &SymFunctionSource) -> (r: PreparedEnv)
    requires
        tree.wf(),
        tree.contains_node(source.scope_node),
    ensures
        r.input_symbols@ == source.input_symbols@,
        r.input_tys@.len() == source.input_tys@.len(),
        forall|i: int|
            0 <= i < source.input_tys@.len() ==> r.input_tys@[i] == source.input_tys@[i],
        r.output_ty_body == spec_output_ty_body(source),
        r.output_ty_caller == spec_output_ty_caller(source),
        r.where_clauses@ == tree.spec_transitive_where_clauses(source.scope_node as int),
        r.env.flags@ == spec_env_of_clauses(
            r.where_clauses@,
            tree.spec_transitive_generics(source.scope_node as int).len(),
        ),
{
    let mut input_symbols: Vec<SymVariable> = Vec::new();
    let mut i: usize = 0;
    while i < source.input_symbols.len()
        invariant
            i <= source.input_symbols@.len(),
            input_symbols@ == source.input_symbols@.subrange(0, i as int),
        decreases source.input_symbols@.len() - i,
    {
        input_symbols.push(source.input_symbols[i]);
        assert(input_symbols@ =~= source.input_symbols@.subrange(0, i as int + 1));
        i += 1;
    }
    proof {
        assert(input_symbols@ =~= source.input_symbols@);
    }
    let mut input_tys: Vec<SymTy> = Vec::new();
    let mut j: usize = 0;
    while j < source.input_tys.len()
        invariant
            j <= source.input_tys@.len(),
            input_tys@.len() == j,
            forall|k: int| 0 <= k < j ==> input_tys@[k] == source.input_tys@[k],
        decreases source.input_tys@.len() - j,
    {
        input_tys.push(copy_sym_ty(&source.input_tys[j]));
        j += 1;
    }
    let output_ty_body = match &source.output_ty {
        Some(t) => copy_sym_ty(t),
        None => SymTy::unit(),
    };
    let output_ty_caller = if source.is_async {
        SymTy::Named(
            SymTyName::Future,
            Box::new(
                TermList::Cons(
                    SymGenericTerm::Type(copy_sym_ty(&output_ty_body)),
                    Box::new(TermList::Nil),
                ),
            ),
        )
    } else {
        copy_sym_ty(&output_ty_body)
    };
    let mut where_clauses: Vec<SymWhereClause> = Vec::new();
    tree.push_transitive_where_clauses(source.scope_node, &mut where_clauses);
    proof {
        assert(where_clauses@ =~= tree.spec_transitive_where_clauses(source.scope_node as int));
    }
    let generics = tree.transitive_generic_parameters(source.scope_node);
    let env = env_of_clauses(&where_clauses, generics.len());
    PreparedEnv {
        env,
        input_symbols,
        input_tys,
        output_ty_body,
        output_ty_caller,
        where_clauses,
    }
}

/// A checked function signature: the input symbols and types, the
/// caller's return type, and the where-clauses.
pub struct SymFunctionSignature {
    pub input_symbols: Vec<SymVariable>,
    pub input_tys: Vec<SymTy>,
    pub output_ty: SymTy,
    pub where_clauses: Vec<SymWhereClause>,
}

/// Check a function's signature: prepare the environment and bundle the
/// caller-facing parts.
pub fn check_function_signature(tree: &ScopeTree, source: &SymFunctionSource) -> (r:
    SymFunctionSignature)
    requires
        tree.wf(),
        tree.contains_node(source.scope_node),
    ensures
        r.input_symbols@ == source.input_symbols@,
        r.input_tys@.len() == source.input_tys@.len(),
        forall|i: int|
            0 <= i < source.input_tys@.len() ==> r.input_tys@[i] == source.input_tys@[i],
        r.output_ty == spec_output_ty_caller(source),
        r.where_clauses@ == tree.spec_transitive_where_clauses(source.scope_node as int),
{
    let prepared = prepare_env(tree, source);
    SymFunctionSignature {
        input_symbols: prepared.input_symbols,
        input_tys: prepared.input_tys,
        output_ty: prepared.output_ty_caller,
        where_clauses: prepared.where_clauses,
    }
}

} // verus!
