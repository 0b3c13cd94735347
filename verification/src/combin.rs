//! Decision combinators of the check driver.
//!
//! The checker runs many small proof tasks and combines their outcomes.
//! An outcome is `Ok(true)` (proved), `Ok(false)` (no evidence), or an
//! error that was already reported. The combinators here state exactly how
//! outcomes compose: conjunction and disjunction short-circuit in order,
//! and a `require` turns missing evidence into a report. Proof attempts
//! are organized as an *alternatives* tree; an alternative is `required`
//! when it is the unique live sibling, and only then may it impose
//! constraints rather than merely test them.

use vstd::prelude::*;

use crate::Reported;

verus! {

/// A node in the proof-search tree. It is required when it is the unique
/// live alternative at its level.
#[derive(Copy, Clone, PartialEq, Eq, Structural, Debug)]
pub struct Alternative {
    pub required: bool,
}

impl Alternative {
    /// The root of a search is always required.
    pub fn root() -> (r: Alternative)
        ensures
            r.required,
    {
        Alternative { required: true }
    }

    /// A child alternative is required only when it is an only child of a
    /// required parent.
    pub fn child(&self, siblings: usize) -> (r: Alternative)
        ensures
            r.required == (self.required && siblings == 1),
    {
        Alternative { required: self.required && siblings == 1 }
    }
}

/// Wait for a boolean proof; the absence of a proof is reported through
/// `or_else`.
pub fn require(outcome: Result<bool, Reported>, or_else: Reported) -> (r: Result<(), Reported>)
    ensures
        r == (match outcome {
            Ok(true) => Ok::<(), Reported>(()),
            Ok(false) => Err::<(), Reported>(or_else),
            Err(e) => Err::<(), Reported>(e),
        }),
{
    match outcome {
        Ok(true) => Ok(()),
        Ok(false) => Err(or_else),
        Err(e) => Err(e),
    }
}

/// Succeed only when both succeed; the first error wins.
pub fn require_both(a: Result<(), Reported>, b: Result<(), Reported>) -> (r: Result<(), Reported>)
    ensures
        r == (match a {
            Err(e) => Err::<(), Reported>(e),
            Ok(()) => b,
        }),
{
    match a {
        Err(e) => Err(e),
        Ok(()) => b,
    }
}

/// The requirements hold one and all; the first error in order wins.
pub open spec fn spec_require_for_all(outcomes: Seq<Result<(), Reported>>) -> Result<(), Reported>
    decreases outcomes.len(),
{
    if outcomes.len() == 0 {
        Ok(())
    } else {
        match outcomes.first() {
            Err(e) => Err(e),
            Ok(()) => spec_require_for_all(outcomes.drop_first()),
        }
    }
}

pub fn require_for_all(outcomes: &[Result<(), Reported>]) -> (r: Result<(), Reported>)
    ensures
        r == spec_require_for_all(outcomes@),
{
    proof {
        assert(outcomes@.skip(0) =~= outcomes@);
    }
    require_for_all_from(outcomes, 0)
}

fn require_for_all_from(outcomes: &[Result<(), Reported>], i: usize) -> (r: Result<(), Reported>)
    requires
        i <= outcomes@.len(),
    ensures
        r == spec_require_for_all(outcomes@.skip(i as int)),
    decreases outcomes@.len() - i,
{
    if i == outcomes.len() {
        assert(outcomes@.skip(i as int).len() == 0);
        Ok(())
    } else {
        assert(outcomes@.skip(i as int).first() == outcomes@[i as int]);
        assert(outcomes@.skip(i as int).drop_first() =~= outcomes@.skip(i as int + 1));
        match outcomes[i] {
            Err(e) => Err(e),
            Ok(()) => require_for_all_from(outcomes, i + 1),
        }
    }
}

/// Both proofs, conjoined; the first error wins.
pub fn both(a: Result<bool, Reported>, b: Result<bool, Reported>) -> (r: Result<bool, Reported>)
    ensures
        r == (match (a, b) {
            (Err(e), _) => Err::<bool, Reported>(e),
            (Ok(x), Err(e)) => Err::<bool, Reported>(e),
            (Ok(x), Ok(y)) => Ok::<bool, Reported>(x && y),
        }),
{
    match (a, b) {
        (Err(e), _) => Err(e),
        (Ok(_), Err(e)) => Err(e),
        (Ok(x), Ok(y)) => Ok(x && y),
    }
}

/// The first successful true wins; a false result yields the other's
/// value.
pub fn either(a: Result<bool, Reported>, b: Result<bool, Reported>) -> (r: Result<bool, Reported>)
    ensures
        r == (match a {
            Ok(true) => Ok::<bool, Reported>(true),
            Ok(false) => b,
            Err(e) => Err::<bool, Reported>(e),
        }),
{
    match a {
        Ok(true) => Ok(true),
        Ok(false) => b,
        Err(e) => Err(e),
    }
}

/// Short-circuit search: some outcome is true; in-order errors win.
pub open spec fn spec_exists_outcome(outcomes: Seq<Result<bool, Reported>>) -> Result<
    bool,
    Reported,
>
    decreases outcomes.len(),
{
    if outcomes.len() == 0 {
        Ok(false)
    } else {
        match outcomes.first() {
            Err(e) => Err(e),
            Ok(true) => Ok(true),
            Ok(false) => spec_exists_outcome(outcomes.drop_first()),
        }
    }
}

pub fn exists_outcome(outcomes: &[Result<bool, Reported>]) -> (r: Result<bool, Reported>)
    ensures
        r == spec_exists_outcome(outcomes@),
{
    proof {
        assert(outcomes@.skip(0) =~= outcomes@);
    }
    exists_outcome_from(outcomes, 0)
}

fn exists_outcome_from(outcomes: &[Result<bool, Reported>], i: usize) -> (r: Result<bool, Reported>)
    requires
        i <= outcomes@.len(),
    ensures
        r == spec_exists_outcome(outcomes@.skip(i as int)),
    decreases outcomes@.len() - i,
{
    if i == outcomes.len() {
        assert(outcomes@.skip(i as int).len() == 0);
        Ok(false)
    } else {
        assert(outcomes@.skip(i as int).first() == outcomes@[i as int]);
        assert(outcomes@.skip(i as int).drop_first() =~= outcomes@.skip(i as int + 1));
        match outcomes[i] {
            Err(e) => Err(e),
            Ok(true) => Ok(true),
            Ok(false) => exists_outcome_from(outcomes, i + 1),
        }
    }
}

/// Short-circuit test: every outcome is true; in-order errors win.
pub open spec fn spec_for_all_outcome(outcomes: Seq<Result<bool, Reported>>) -> Result<
    bool,
    Reported,
>
    decreases outcomes.len(),
{
    if outcomes.len() == 0 {
        Ok(true)
    } else {
        match outcomes.first() {
            Err(e) => Err(e),
            Ok(false) => Ok(false),
            Ok(true) => spec_for_all_outcome(outcomes.drop_first()),
        }
    }
}

pub fn for_all_outcome(outcomes: &[Result<bool, Reported>]) -> (r: Result<bool, Reported>)
    ensures
        r == spec_for_all_outcome(outcomes@),
{
    proof {
        assert(outcomes@.skip(0) =~= outcomes@);
    }
    for_all_outcome_from(outcomes, 0)
}

fn for_all_outcome_from(outcomes: &[Result<bool, Reported>], i: usize) -> (r: Result<
    bool,
    Reported,
>)
    requires
        i <= outcomes@.len(),
    ensures
        r == spec_for_all_outcome(outcomes@.skip(i as int)),
    decreases outcomes@.len() - i,
{
    if i == outcomes.len() {
        assert(outcomes@.skip(i as int).len() == 0);
        Ok(true)
    } else {
        assert(outcomes@.skip(i as int).first() == outcomes@[i as int]);
        assert(outcomes@.skip(i as int).drop_first() =~= outcomes@.skip(i as int + 1));
        match outcomes[i] {
            Err(e) => Err(e),
            Ok(false) => Ok(false),
            Ok(true) => for_all_outcome_from(outcomes, i + 1),
        }
    }
}

/// When the current alternative is required (the unique live search
/// branch), drive the stronger constraint and report its failure; when it
/// is speculative, merely test.
pub fn if_required(
    alt: Alternative,
    if_req: Result<(), Reported>,
    if_not: Result<bool, Reported>,
) -> (r: Result<bool, Reported>)
    ensures
        alt.required ==> r == (match if_req {
            Ok(()) => Ok::<bool, Reported>(true),
            Err(e) => Err::<bool, Reported>(e),
        }),
        !alt.required ==> r == if_not,
{
    if alt.required {
        match if_req {
            Ok(()) => Ok(true),
            Err(e) => Err(e),
        }
    } else {
        if_not
    }
}

} // verus!
