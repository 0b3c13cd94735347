//! Core of a compiler for a language with first-class permissions: every
//! value carries a permission (owned `my`, jointly owned `our`, exclusively
//! leased `mut`, or shared `ref`), and the checker proves that aliasing and
//! mutation obey the ownership discipline.
//!
//! The crate covers the canonical "red" (reduced) form of permissions and
//! types, the predicate kernel (`Shared` / `Unique` / `Owned` / `Lent`),
//! structural subtyping of permission chains, the two-directional inference
//! store, the decision combinators of the check driver, and the lowering of
//! the typed object IR to WebAssembly instructions with a manual stack-frame
//! discipline.

use vstd::prelude::*;

pub mod arena;
pub mod ast;
pub mod red;
pub mod symir;
pub mod signature;
pub mod subtype;
pub mod laws;
pub mod infer;
pub mod combin;
pub mod typred;
pub mod objir;
pub mod repr;
pub mod codegen;
pub mod source;

verus! {

/// Token recording that a diagnostic has already been surfaced to the user.
/// Errors are threaded through the IR as first-class data and poison
/// whatever computation meets them.
#[derive(Copy, Clone, PartialEq, Eq, Structural, Debug)]
pub struct Reported(pub u32);

/// A permission predicate of the lattice: `Shared`, `Unique` (also called
/// `Move`), `Owned`, `Lent`. `Shared`/`Unique` exclude one another, as do
/// `Owned`/`Lent`. The four classical permissions are the orthogonal
/// products: `my = Unique + Owned`, `our = Shared + Owned`,
/// `mut = Unique + Lent`, `ref = Shared + Lent`.
#[derive(Copy, Clone, PartialEq, Eq, Structural, Debug)]
pub enum Predicate {
    Shared,
    Unique,
    Owned,
    Lent,
}

impl Predicate {
    pub open spec fn opposite_spec(self) -> Predicate {
        match self {
            Predicate::Shared => Predicate::Unique,
            Predicate::Unique => Predicate::Shared,
            Predicate::Owned => Predicate::Lent,
            Predicate::Lent => Predicate::Owned,
        }
    }

    /// The predicate that can never hold together with this one.
    pub fn opposite(self) -> (r: Predicate)
        ensures
            r == self.opposite_spec(),
    {
        match self {
            Predicate::Shared => Predicate::Unique,
            Predicate::Unique => Predicate::Shared,
            Predicate::Owned => Predicate::Lent,
            Predicate::Lent => Predicate::Owned,
        }
    }
}

} // verus!
