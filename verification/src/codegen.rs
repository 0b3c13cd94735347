//! Lowering of the object IR to WebAssembly instructions.
//!
//! Functions use a manual stack frame in linear memory: local 0 is the
//! frame pointer, and a callee's frame begins at the caller's frame
//! pointer plus the caller's frame size, passed as the first argument.
//! Locals are allocated generously, with no reuse: a value occupies as
//! many consecutive locals as its flattened representation has value
//! types. Each lowering rule appends an exact instruction sequence; the
//! whole emission is pinned by the `spec_push_expr` model.

use vstd::prelude::*;

use crate::Reported;
use crate::objir::MatchArm;
use crate::objir::MatchArmList;
use crate::objir::ObjExprList;
use crate::objir::ObjPlaceKind;
use crate::objir::ObjTermList;
use crate::objir::ObjectBinaryOp;
use crate::objir::ObjectExpr;
use crate::objir::ObjectExprKind;
use crate::objir::ObjectGenericTerm;
use crate::objir::ObjectPlaceExpr;
use crate::objir::ObjectTy;
use crate::objir::PermissionOp;
use crate::objir::PrimitiveLiteral;
use crate::objir::VarList;
use crate::repr::AggrTable;
use crate::repr::ValKind;
use crate::repr::flatten_spec;
use crate::repr::spec_wasm_repr_of_type;
use crate::repr::term_nth;
use crate::repr::spec_term_nth;
use crate::repr::wasm_repr_of_type;
use crate::repr::WasmRepr;
use crate::symir::PrimKind;
use crate::symir::SymTyName;

verus! {

/// The WASM instructions the backend emits. Float constants carry their
/// bit patterns.
#[derive(Copy, Clone, PartialEq, Eq, Structural, Debug)]
pub enum Instr {
    I32Const(i32),
    I64Const(i64),
    F32Const(u32),
    F64Const(u64),
    I32Add,
    I32Sub,
    I32Mul,
    I32DivS,
    I32DivU,
    I32Eq,
    I32LtS,
    I32LtU,
    I32GtS,
    I32GtU,
    I32LeS,
    I32LeU,
    I32GeS,
    I32GeU,
    I32Xor,
    I64Add,
    I64Sub,
    I64Mul,
    I64DivS,
    I64DivU,
    I64Eq,
    I64LtS,
    I64LtU,
    I64GtS,
    I64GtU,
    I64LeS,
    I64LeU,
    I64GeS,
    I64GeU,
    F32Add,
    F32Sub,
    F32Mul,
    F32Div,
    F32Eq,
    F32Lt,
    F32Gt,
    F32Le,
    F32Ge,
    F64Add,
    F64Sub,
    F64Mul,
    F64Div,
    F64Eq,
    F64Lt,
    F64Gt,
    F64Le,
    F64Ge,
    LocalGet(u32),
    LocalSet(u32),
    Call(u32),
    Return,
    Unreachable,
    If(BlockType),
    Else,
    End,
}

/// The block type of a control instruction: no result, a single result,
/// or a declared function type by index.
#[derive(Copy, Clone, PartialEq, Eq, Structural, Debug)]
pub enum BlockType {
    Empty,
    Result(ValKind),
    FunctionType(u32),
}

/// The instruction for a binary operator on a primitive kind. Integer
/// widths select between the 32- and 64-bit families; division and
/// comparisons are signed for signed kinds and unsigned for unsigned
/// kinds, `char` and `bool`; equality is bitwise. Arithmetic on `bool` or
/// `char` is a compile-time error.
pub open spec fn spec_binop_instr(
    kind: PrimKind,
    op: ObjectBinaryOp,
    invalid: Reported,
) -> Result<Instr, Reported> {
    match kind {
        PrimKind::Bool | PrimKind::Char => match op {
            ObjectBinaryOp::Add | ObjectBinaryOp::Sub | ObjectBinaryOp::Mul
                | ObjectBinaryOp::Div => Err(invalid),
            ObjectBinaryOp::GreaterThan => Ok(Instr::I32GtU),
            ObjectBinaryOp::LessThan => Ok(Instr::I32LtU),
            ObjectBinaryOp::GreaterEqual => Ok(Instr::I32GeU),
            ObjectBinaryOp::LessEqual => Ok(Instr::I32LeU),
            ObjectBinaryOp::EqualEqual => Ok(Instr::I32Eq),
        },
        PrimKind::Int { bits } => if bits <= 32 {
            Ok(signed_32_instr(op))
        } else if bits <= 64 {
            Ok(signed_64_instr(op))
        } else {
            Err(invalid)
        },
        PrimKind::Isize => Ok(signed_32_instr(op)),
        PrimKind::Uint { bits } => if bits <= 32 {
            Ok(unsigned_32_instr(op))
        } else if bits <= 64 {
            Ok(unsigned_64_instr(op))
        } else {
            Err(invalid)
        },
        PrimKind::Usize => Ok(unsigned_32_instr(op)),
        PrimKind::Float { bits } => if bits <= 32 {
            Ok(float_32_instr(op))
        } else if bits <= 64 {
            Ok(float_64_instr(op))
        } else {
            Err(invalid)
        },
    }
}

pub open spec fn signed_32_instr(op: ObjectBinaryOp) -> Instr {
    match op {
        ObjectBinaryOp::Add => Instr::I32Add,
        ObjectBinaryOp::Sub => Instr::I32Sub,
        ObjectBinaryOp::Mul => Instr::I32Mul,
        ObjectBinaryOp::Div => Instr::I32DivS,
        ObjectBinaryOp::GreaterThan => Instr::I32GtS,
        ObjectBinaryOp::LessThan => Instr::I32LtS,
        ObjectBinaryOp::GreaterEqual => Instr::I32GeS,
        ObjectBinaryOp::LessEqual => Instr::I32LeS,
        ObjectBinaryOp::EqualEqual => Instr::I32Eq,
    }
}

pub open spec fn signed_64_instr(op: ObjectBinaryOp) -> Instr {
    match op {
        ObjectBinaryOp::Add => Instr::I64Add,
        ObjectBinaryOp::Sub => Instr::I64Sub,
        ObjectBinaryOp::Mul => Instr::I64Mul,
        ObjectBinaryOp::Div => Instr::I64DivS,
        ObjectBinaryOp::GreaterThan => Instr::I64GtS,
        ObjectBinaryOp::LessThan => Instr::I64LtS,
        ObjectBinaryOp::GreaterEqual => Instr::I64GeS,
        ObjectBinaryOp::LessEqual => Instr::I64LeS,
        ObjectBinaryOp::EqualEqual => Instr::I64Eq,
    }
}

pub open spec fn unsigned_32_instr(op: ObjectBinaryOp) -> Instr {
    match op {
        ObjectBinaryOp::Add => Instr::I32Add,
        ObjectBinaryOp::Sub => Instr::I32Sub,
        ObjectBinaryOp::Mul => Instr::I32Mul,
        ObjectBinaryOp::Div => Instr::I32DivU,
        ObjectBinaryOp::GreaterThan => Instr::I32GtU,
        ObjectBinaryOp::LessThan => Instr::I32LtU,
        ObjectBinaryOp::GreaterEqual => Instr::I32GeU,
        ObjectBinaryOp::LessEqual => Instr::I32LeU,
        ObjectBinaryOp::EqualEqual => Instr::I32Eq,
    }
}

pub open spec fn unsigned_64_instr(op: ObjectBinaryOp) -> Instr {
    match op {
        ObjectBinaryOp::Add => Instr::I64Add,
        ObjectBinaryOp::Sub => Instr::I64Sub,
        ObjectBinaryOp::Mul => Instr::I64Mul,
        ObjectBinaryOp::Div => Instr::I64DivU,
        ObjectBinaryOp::GreaterThan => Instr::I64GtU,
        ObjectBinaryOp::LessThan => Instr::I64LtU,
        ObjectBinaryOp::GreaterEqual => Instr::I64GeU,
        ObjectBinaryOp::LessEqual => Instr::I64LeU,
        ObjectBinaryOp::EqualEqual => Instr::I64Eq,
    }
}

pub open spec fn float_32_instr(op: ObjectBinaryOp) -> Instr {
    match op {
        ObjectBinaryOp::Add => Instr::F32Add,
        ObjectBinaryOp::Sub => Instr::F32Sub,
        ObjectBinaryOp::Mul => Instr::F32Mul,
        ObjectBinaryOp::Div => Instr::F32Div,
        ObjectBinaryOp::GreaterThan => Instr::F32Gt,
        ObjectBinaryOp::LessThan => Instr::F32Lt,
        ObjectBinaryOp::GreaterEqual => Instr::F32Ge,
        ObjectBinaryOp::LessEqual => Instr::F32Le,
        ObjectBinaryOp::EqualEqual => Instr::F32Eq,
    }
}

pub open spec fn float_64_instr(op: ObjectBinaryOp) -> Instr {
    match op {
        ObjectBinaryOp::Add => Instr::F64Add,
        ObjectBinaryOp::Sub => Instr::F64Sub,
        ObjectBinaryOp::Mul => Instr::F64Mul,
        ObjectBinaryOp::Div => Instr::F64Div,
        ObjectBinaryOp::GreaterThan => Instr::F64Gt,
        ObjectBinaryOp::LessThan => Instr::F64Lt,
        ObjectBinaryOp::GreaterEqual => Instr::F64Ge,
        ObjectBinaryOp::LessEqual => Instr::F64Le,
        ObjectBinaryOp::EqualEqual => Instr::F64Eq,
    }
}

/// Select the instruction that executes `op` on operands of kind `kind`.
pub fn execute_binary_op_on_primitives(
    kind: PrimKind,
    op: ObjectBinaryOp,
    invalid: Reported,
) -> (r: Result<Instr, Reported>)
    ensures
        r == spec_binop_instr(kind, op, invalid),
{
    match kind {
        PrimKind::Bool | PrimKind::Char => match op {
            ObjectBinaryOp::Add | ObjectBinaryOp::Sub | ObjectBinaryOp::Mul
                | ObjectBinaryOp::Div => Err(invalid),
            ObjectBinaryOp::GreaterThan => Ok(Instr::I32GtU),
            ObjectBinaryOp::LessThan => Ok(Instr::I32LtU),
            ObjectBinaryOp::GreaterEqual => Ok(Instr::I32GeU),
            ObjectBinaryOp::LessEqual => Ok(Instr::I32LeU),
            ObjectBinaryOp::EqualEqual => Ok(Instr::I32Eq),
        },
        PrimKind::Int { bits } => if bits <= 32 {
            Ok(
                match op {
                    ObjectBinaryOp::Add => Instr::I32Add,
                    ObjectBinaryOp::Sub => Instr::I32Sub,
                    ObjectBinaryOp::Mul => Instr::I32Mul,
                    ObjectBinaryOp::Div => Instr::I32DivS,
                    ObjectBinaryOp::GreaterThan => Instr::I32GtS,
                    ObjectBinaryOp::LessThan => Instr::I32LtS,
                    ObjectBinaryOp::GreaterEqual => Instr::I32GeS,
                    ObjectBinaryOp::LessEqual => Instr::I32LeS,
                    ObjectBinaryOp::EqualEqual => Instr::I32Eq,
                },
            )
        } else if bits <= 64 {
            Ok(
                match op {
                    ObjectBinaryOp::Add => Instr::I64Add,
                    ObjectBinaryOp::Sub => Instr::I64Sub,
                    ObjectBinaryOp::Mul => Instr::I64Mul,
                    ObjectBinaryOp::Div => Instr::I64DivS,
                    ObjectBinaryOp::GreaterThan => Instr::I64GtS,
                    ObjectBinaryOp::LessThan => Instr::I64LtS,
                    ObjectBinaryOp::GreaterEqual => Instr::I64GeS,
                    ObjectBinaryOp::LessEqual => Instr::I64LeS,
                    ObjectBinaryOp::EqualEqual => Instr::I64Eq,
                },
            )
        } else {
            Err(invalid)
        },
        PrimKind::Isize => Ok(
            match op {
                ObjectBinaryOp::Add => Instr::I32Add,
                ObjectBinaryOp::Sub => Instr::I32Sub,
                ObjectBinaryOp::Mul => Instr::I32Mul,
                ObjectBinaryOp::Div => Instr::I32DivS,
                ObjectBinaryOp::GreaterThan => Instr::I32GtS,
                ObjectBinaryOp::LessThan => Instr::I32LtS,
                ObjectBinaryOp::GreaterEqual => Instr::I32GeS,
                ObjectBinaryOp::LessEqual => Instr::I32LeS,
                ObjectBinaryOp::EqualEqual => Instr::I32Eq,
            },
        ),
        PrimKind::Uint { bits } => if bits <= 32 {
            Ok(
                match op {
                    ObjectBinaryOp::Add => Instr::I32Add,
                    ObjectBinaryOp::Sub => Instr::I32Sub,
                    ObjectBinaryOp::Mul => Instr::I32Mul,
                    ObjectBinaryOp::Div => Instr::I32DivU,
                    ObjectBinaryOp::GreaterThan => Instr::I32GtU,
                    ObjectBinaryOp::LessThan => Instr::I32LtU,
                    ObjectBinaryOp::GreaterEqual => Instr::I32GeU,
                    ObjectBinaryOp::LessEqual => Instr::I32LeU,
                    ObjectBinaryOp::EqualEqual => Instr::I32Eq,
                },
            )
        } else if bits <= 64 {
            Ok(
                match op {
                    ObjectBinaryOp::Add => Instr::I64Add,
                    ObjectBinaryOp::Sub => Instr::I64Sub,
                    ObjectBinaryOp::Mul => Instr::I64Mul,
                    ObjectBinaryOp::Div => Instr::I64DivU,
                    ObjectBinaryOp::GreaterThan => Instr::I64GtU,
                    ObjectBinaryOp::LessThan => Instr::I64LtU,
                    ObjectBinaryOp::GreaterEqual => Instr::I64GeU,
                    ObjectBinaryOp::LessEqual => Instr::I64LeU,
                    ObjectBinaryOp::EqualEqual => Instr::I64Eq,
                },
            )
        } else {
            Err(invalid)
        },
        PrimKind::Usize => Ok(
            match op {
                ObjectBinaryOp::Add => Instr::I32Add,
                ObjectBinaryOp::Sub => Instr::I32Sub,
                ObjectBinaryOp::Mul => Instr::I32Mul,
                ObjectBinaryOp::Div => Instr::I32DivU,
                ObjectBinaryOp::GreaterThan => Instr::I32GtU,
                ObjectBinaryOp::LessThan => Instr::I32LtU,
                ObjectBinaryOp::GreaterEqual => Instr::I32GeU,
                ObjectBinaryOp::LessEqual => Instr::I32LeU,
                ObjectBinaryOp::EqualEqual => Instr::I32Eq,
            },
        ),
        PrimKind::Float { bits } => if bits <= 32 {
            Ok(
                match op {
                    ObjectBinaryOp::Add => Instr::F32Add,
                    ObjectBinaryOp::Sub => Instr::F32Sub,
                    ObjectBinaryOp::Mul => Instr::F32Mul,
                    ObjectBinaryOp::Div => Instr::F32Div,
                    ObjectBinaryOp::GreaterThan => Instr::F32Gt,
                    ObjectBinaryOp::LessThan => Instr::F32Lt,
                    ObjectBinaryOp::GreaterEqual => Instr::F32Ge,
                    ObjectBinaryOp::LessEqual => Instr::F32Le,
                    ObjectBinaryOp::EqualEqual => Instr::F32Eq,
                },
            )
        } else if bits <= 64 {
            Ok(
                match op {
                    ObjectBinaryOp::Add => Instr::F64Add,
                    ObjectBinaryOp::Sub => Instr::F64Sub,
                    ObjectBinaryOp::Mul => Instr::F64Mul,
                    ObjectBinaryOp::Div => Instr::F64Div,
                    ObjectBinaryOp::GreaterThan => Instr::F64Gt,
                    ObjectBinaryOp::LessThan => Instr::F64Lt,
                    ObjectBinaryOp::GreaterEqual => Instr::F64Ge,
                    ObjectBinaryOp::LessEqual => Instr::F64Le,
                    ObjectBinaryOp::EqualEqual => Instr::F64Eq,
                },
            )
        } else {
            Err(invalid)
        },
    }
}

/// The primitive kind that represents `ty`: `Ok(Some(k))` for a
/// primitive, `Ok(None)` for dead code (`Never` or `Error`), and an error
/// for any other type.
pub open spec fn spec_primitive_kind(
    generics: ObjTermList,
    ty: ObjectTy,
    fuel: u32,
    invalid: Reported,
) -> Result<Option<PrimKind>, Reported>
    decreases fuel,
{
    if fuel == 0 {
        Err(invalid)
    } else {
        match ty {
            ObjectTy::Named(name, _) => match name {
                SymTyName::Primitive(k) => Ok(Some(k)),
                _ => Err(invalid),
            },
            ObjectTy::Var(v) => match spec_term_nth(generics, v as int, invalid) {
                ObjectGenericTerm::Type(t) => spec_primitive_kind(
                    generics,
                    t,
                    (fuel - 1) as u32,
                    invalid,
                ),
                ObjectGenericTerm::Error(_) => Ok(None),
                _ => Err(invalid),
            },
            ObjectTy::Never => Ok(None),
            ObjectTy::Error(_) => Ok(None),
            ObjectTy::Infer(_) => Err(invalid),
        }
    }
}

/// Resolve the primitive kind of a type against the generics in scope.
pub fn primitive_kind(generics: &ObjTermList, ty: &ObjectTy, fuel: u32, invalid: Reported) -> (r:
    Result<Option<PrimKind>, Reported>)
    ensures
        r == spec_primitive_kind(*generics, *ty, fuel, invalid),
    decreases fuel,
{
    if fuel == 0 {
        Err(invalid)
    } else {
        match ty {
            ObjectTy::Named(name, _) => match name {
                SymTyName::Primitive(k) => Ok(Some(*k)),
                _ => Err(invalid),
            },
            ObjectTy::Var(v) => match term_nth(generics, *v, invalid) {
                ObjectGenericTerm::Type(t) => primitive_kind(generics, &t, fuel - 1, invalid),
                ObjectGenericTerm::Error(_) => Ok(None),
                _ => Err(invalid),
            },
            ObjectTy::Never => Ok(None),
            ObjectTy::Error(_) => Ok(None),
            ObjectTy::Infer(_) => Err(invalid),
        }
    }
}

/// A declared WASM function type.
pub struct FnType {
    pub params: Vec<ValKind>,
    pub results: Vec<ValKind>,
}

/// Function types declared on demand, deduplicated per
/// `(inputs, outputs)`.
pub struct FnTypeTable {
    pub types: Vec<FnType>,
}

impl FnTypeTable {
    pub open spec fn type_at(&self, i: int) -> (Seq<ValKind>, Seq<ValKind>) {
        (self.types@[i].params@, self.types@[i].results@)
    }

    pub open spec fn wf(&self) -> bool {
        &&& self.types@.len() <= u32::MAX
        &&& forall|i: int, j: int|
            0 <= i < j < self.types@.len() ==> #[trigger] self.type_at(i) !== #[trigger] self.type_at(
                j,
            )
    }

    pub fn new() -> (r: FnTypeTable)
        ensures
            r.wf(),
            r.types@.len() == 0,
    {
        FnTypeTable { types: Vec::new() }
    }

    /// The index of the declared type with these parameters and results.
    pub fn find(&self, params: &Vec<ValKind>, results: &Vec<ValKind>) -> (r: Option<u32>)
        requires
            self.types@.len() <= u32::MAX,
        ensures
            match r {
                Some(i) => i < self.types@.len() && self.type_at(i as int) == (params@, results@)
                    && forall|j: int|
                    0 <= j < i ==> #[trigger] self.type_at(j) !== (params@, results@),
                None => forall|i: int|
                    0 <= i < self.types@.len() ==> #[trigger] self.type_at(i) !== (
                        params@,
                        results@,
                    ),
            },
    {
        let n = self.types.len();
        let mut i: usize = 0;
        while i < n
            invariant
                i <= n,
                n == self.types@.len(),
                n <= u32::MAX,
                forall|j: int| 0 <= j < i ==> #[trigger] self.type_at(j) !== (params@, results@),
            decreases n - i,
        {
            if eq_valkinds(&self.types[i].params, params) && eq_valkinds(
                &self.types[i].results,
                results,
            ) {
                return Some(i as u32);
            }
            i += 1;
        }
        None
    }

    /// Declare a function type, reusing the index of an equal one.
    pub fn declare_fn_type(&mut self, params: Vec<ValKind>, results: Vec<ValKind>) -> (r: u32)
        requires
            old(self).wf(),
            old(self).types@.len() < u32::MAX,
        ensures
            final(self).wf(),
            r < final(self).types@.len(),
            final(self).type_at(r as int) == (params@, results@),
            final(self).types@.len() >= old(self).types@.len(),
            forall|i: int|
                0 <= i < old(self).types@.len() ==> #[trigger] final(self).type_at(i) == old(
                    self,
                ).type_at(i),
    {
        let n = self.types.len();
        match self.find(&params, &results) {
            Some(i) => i,
            None => {
                self.types.push(FnType { params, results });
                assert forall|i: int| 0 <= i < n implies #[trigger] final(self).type_at(i) == old(
                    self,
                ).type_at(i) by {
                    assert(self.types@[i] == old(self).types@[i]);
                }
                n as u32
            },
        }
    }
}

/// Element-wise equality of value-type vectors.
pub fn eq_valkinds(a: &Vec<ValKind>, b: &Vec<ValKind>) -> (r: bool)
    ensures
        r == (a@ == b@),
{
    if a.len() != b.len() {
        assert(a@ !== b@);
        return false;
    }
    let mut i: usize = 0;
    while i < a.len()
        invariant
            i <= a@.len(),
            a@.len() == b@.len(),
            forall|j: int| 0 <= j < i ==> a@[j] == b@[j],
        decreases a@.len() - i,
    {
        if a[i] != b[i] {
            assert(a@[i as int] != b@[i as int]);
            return false;
        }
        i += 1;
    }
    assert(a@ =~= b@);
    true
}

/// One declared, monomorphized function: its WASM parameter types (the
/// frame pointer first, then the flattened inputs) and result types.
pub struct FnDecl {
    pub params: Vec<ValKind>,
    pub results: Vec<ValKind>,
}

/// The memo of monomorphized instances: each `(function, generics)` pair
/// has a single WASM function index. The generics of an instance are
/// summarized by an interned key.
pub struct FnInstances {
    pub keys: Vec<(u32, u32)>,
}

impl FnInstances {
    pub open spec fn wf(&self) -> bool {
        &&& self.keys@.len() <= u32::MAX
        &&& forall|i: int, j: int|
            0 <= i < j < self.keys@.len() ==> self.keys@[i] !== self.keys@[j]
    }

    pub fn new() -> (r: FnInstances)
        ensures
            r.wf(),
            r.keys@.len() == 0,
    {
        FnInstances { keys: Vec::new() }
    }

    /// The single WASM function index of a `(function, generics)` pair;
    /// declares it on first use.
    pub fn declare_fn(&mut self, function: u32, generics_key: u32) -> (r: u32)
        requires
            old(self).wf(),
            old(self).keys@.len() < u32::MAX,
        ensures
            final(self).wf(),
            r < final(self).keys@.len(),
            final(self).keys@[r as int] == (function, generics_key),
            forall|i: int|
                0 <= i < old(self).keys@.len() ==> final(self).keys@[i] == old(self).keys@[i],
            (exists|i: int|
                0 <= i < old(self).keys@.len() && old(self).keys@[i] == (function, generics_key))
                ==> final(self).keys@ == old(self).keys@,
    {
        let n = self.keys.len();
        match self.find_key(function, generics_key) {
            Some(i) => i as u32,
            None => {
                self.keys.push((function, generics_key));
                proof {
                    assert(self.keys@[n as int] == (function, generics_key));
                }
                n as u32
            },
        }
    }

    /// The index of an already declared instance.
    pub fn find_key(&self, function: u32, generics_key: u32) -> (r: Option<usize>)
        requires
            self.keys@.len() <= u32::MAX,
        ensures
            match r {
                Some(i) => i < self.keys@.len() && self.keys@[i as int] == (
                    function,
                    generics_key,
                ),
                None => forall|j: int|
                    0 <= j < self.keys@.len() ==> self.keys@[j] !== (function, generics_key),
            },
    {
        let n = self.keys.len();
        let mut i: usize = 0;
        while i < n
            invariant
                i <= n,
                n == self.keys@.len(),
                n <= u32::MAX,
                forall|j: int| 0 <= j < i ==> self.keys@[j] !== (function, generics_key),
            decreases n - i,
        {
            let (f, g) = self.keys[i];
            if f == function && g == generics_key {
                proof {
                    assert(self.keys@[i as int] == (function, generics_key));
                }
                return Some(i);
            }
            i += 1;
        }
        None
    }
}

/// The range of consecutive locals a value occupies.
#[derive(Copy, Clone, PartialEq, Eq, Structural, Debug)]
pub struct LocalRange {
    pub first: u32,
    pub count: u32,
}

/// The read-only context of one function's emission: the declared
/// function types, the declared functions, and the aggregate layouts.
pub struct Cx {
    pub types: FnTypeTable,
    pub fns: Vec<FnDecl>,
    pub aggrs: AggrTable,
}

/// The mutable emission state, as the model sees it.
#[verifier::ext_equal]
pub ghost struct CgSt {
    pub locals: Seq<ValKind>,
    pub vars: Seq<Option<LocalRange>>,
    pub frame_size: u32,
    pub instrs: Seq<Instr>,
}

/// `LocalGet` of each local of a range, first to last.
pub open spec fn local_gets(first: int, count: nat) -> Seq<Instr>
    decreases count,
{
    if count == 0 {
        Seq::empty()
    } else {
        seq![Instr::LocalGet(first as u32)] + local_gets(first + 1, (count - 1) as nat)
    }
}

/// `LocalSet` of each local of a range, last to first: the order that
/// pops a pushed value back into its locals.
pub open spec fn local_sets_rev(first: int, count: nat) -> Seq<Instr>
    decreases count,
{
    if count == 0 {
        Seq::empty()
    } else {
        seq![Instr::LocalSet((first + count - 1) as u32)] + local_sets_rev(
            first,
            (count - 1) as nat,
        )
    }
}

/// Look up the local range of a variable; it must be allocated and fit
/// the locals.
pub open spec fn spec_var_range(st: CgSt, lv: u32, invalid: Reported) -> Result<
    LocalRange,
    Reported,
> {
    if lv < st.vars.len() {
        match st.vars[lv as int] {
            Some(r) => if r.first + r.count <= st.locals.len() && st.locals.len() <= u32::MAX {
                Ok(r)
            } else {
                Err(invalid)
            },
            None => Err(invalid),
        }
    } else {
        Err(invalid)
    }
}

/// The value kinds a range of locals holds.
pub open spec fn range_kinds(locals: Seq<ValKind>, r: LocalRange) -> Seq<ValKind> {
    locals.subrange(r.first as int, r.first + r.count)
}

/// The kinds read by a `local_gets` sequence are exactly the locals of
/// the range, in order.
pub proof fn lemma_local_gets_kinds(locals: Seq<ValKind>, r: LocalRange)
    requires
        r.first + r.count <= locals.len(),
        locals.len() <= u32::MAX,
    ensures
        range_kinds(locals, r).len() == r.count,
        forall|i: int| 0 <= i < r.count ==> range_kinds(locals, r)[i] == locals[r.first + i],
        local_gets(r.first as int, r.count as nat).len() == r.count,
        forall|i: int|
            0 <= i < r.count ==> local_gets(r.first as int, r.count as nat)[i] == Instr::LocalGet(
                (r.first + i) as u32,
            ),
{
    lemma_local_gets_shape(r.first as int, r.count as nat);
}

pub proof fn lemma_local_gets_shape(first: int, count: nat)
    requires
        first >= 0,
        first + count <= u32::MAX + 1,
    ensures
        local_gets(first, count).len() == count,
        forall|i: int|
            0 <= i < count ==> local_gets(first, count)[i] == Instr::LocalGet((first + i) as u32),
    decreases count,
{
    if count > 0 {
        lemma_local_gets_shape(first + 1, (count - 1) as nat);
        assert forall|i: int| 0 <= i < count implies local_gets(first, count)[i]
            == Instr::LocalGet((first + i) as u32) by {
            if i > 0 {
                assert(local_gets(first, count)[i] == local_gets(first + 1, (count - 1) as nat)[
                    i - 1
                ]);
            }
        }
    }
}


/// One step of emission appends instructions to the state.
pub open spec fn st_emit(st: CgSt, more: Seq<Instr>) -> CgSt {
    CgSt { instrs: st.instrs + more, ..st }
}

/// The local range of a place expression: its variable's range; an error
/// place poisons.
pub open spec fn spec_place_range(st: CgSt, place: ObjectPlaceExpr, invalid: Reported) -> Result<
    LocalRange,
    Reported,
> {
    match place.kind {
        ObjPlaceKind::Var(lv) => spec_var_range(st, lv, invalid),
        ObjPlaceKind::Error(e) => Err(e),
    }
}

/// The block type for a result of type `ty`: nothing, a single value, or
/// the declared function type with no inputs and the flattened outputs.
pub open spec fn spec_block_type(
    cx: &Cx,
    generics: ObjTermList,
    ty: ObjectTy,
    fuel: u32,
    invalid: Reported,
) -> Result<BlockType, Reported> {
    match spec_wasm_repr_of_type(&cx.aggrs, generics, ty, fuel, invalid) {
        Err(e) => Err(e),
        Ok(repr) => {
            let kinds = flatten_spec(repr);
            if kinds.len() == 0 {
                Ok(BlockType::Empty)
            } else if kinds.len() == 1 {
                Ok(BlockType::Result(kinds[0]))
            } else {
                if exists|j: int|
                    0 <= j < cx.types.types@.len() && #[trigger] cx.types.type_at(j) == (
                        Seq::<ValKind>::empty(),
                        kinds,
                    ) {
                    let j = choose|j: int|
                        0 <= j < cx.types.types@.len() && #[trigger] cx.types.type_at(j) == (
                            Seq::<ValKind>::empty(),
                            kinds,
                        );
                    Ok(BlockType::FunctionType(j as u32))
                } else {
                    Err(invalid)
                }
            }
        },
    }
}

/// What `push_expr` does to the emission state: the model of the
/// lowering, one rule per expression kind.
pub open spec fn spec_push_expr(
    cx: &Cx,
    generics: ObjTermList,
    st: CgSt,
    expr: ObjectExpr,
    fuel: u32,
    invalid: Reported,
) -> Result<CgSt, Reported>
    decreases expr,
{
    match *expr.kind {
        ObjectExprKind::Semi(a, b) => match spec_push_expr(cx, generics, st, a, fuel, invalid) {
            Err(e) => Err(e),
            // the first expression's residue is left in place: dropping
            // is a future obligation of the drop protocol
            Ok(st1) => spec_push_expr(cx, generics, st1, b, fuel, invalid),
        },
        ObjectExprKind::Tuple(elems) => spec_push_list(cx, generics, st, elems, fuel, invalid),
        ObjectExprKind::Primitive(lit) => spec_push_literal(
            generics,
            st,
            expr.ty,
            lit,
            fuel,
            invalid,
        ),
        ObjectExprKind::LetIn { lv, ty, initializer, body } => {
            match spec_wasm_repr_of_type(&cx.aggrs, generics, ty, fuel, invalid) {
                Err(e) => Err(e),
                Ok(repr) => {
                    let kinds = flatten_spec(repr);
                    if lv >= st.vars.len() || st.locals.len() + kinds.len() > u32::MAX {
                        Err(invalid)
                    } else {
                        let range = LocalRange {
                            first: st.locals.len() as u32,
                            count: kinds.len() as u32,
                        };
                        let st1 = CgSt {
                            locals: st.locals + kinds,
                            vars: st.vars.update(lv as int, Some(range)),
                            ..st
                        };
                        let st2 = match initializer {
                            None => Ok(st1),
                            Some(init) => match spec_push_expr(
                                cx,
                                generics,
                                st1,
                                init,
                                fuel,
                                invalid,
                            ) {
                                Err(e) => Err(e),
                                Ok(sti) => Ok(
                                    st_emit(
                                        sti,
                                        local_sets_rev(range.first as int, range.count as nat),
                                    ),
                                ),
                            },
                        };
                        match st2 {
                            Err(e) => Err(e),
                            Ok(st2v) => spec_push_expr(cx, generics, st2v, body, fuel, invalid),
                        }
                    }
                },
            }
        },
        ObjectExprKind::Assign { place, value } => match spec_place_range(st, place, invalid) {
            Err(e) => Err(e),
            Ok(r) => match spec_push_expr(cx, generics, st, value, fuel, invalid) {
                Err(e) => Err(e),
                // the old value is not dropped: a future obligation of
                // the drop protocol
                Ok(st1) => Ok(st_emit(st1, local_sets_rev(r.first as int, r.count as nat))),
            },
        },
        ObjectExprKind::PermissionOp(_op, place) => match spec_place_range(st, place, invalid) {
            Err(e) => Err(e),
            // lease, share and give all emit from the place; the place's
            // representation decides whether that is a pointer (a class
            // local holds its pointer) or the value itself
            Ok(r) => Ok(st_emit(st, local_gets(r.first as int, r.count as nat))),
        },
        ObjectExprKind::Call { function, arg_temps } => {
            if function >= cx.fns@.len() {
                Err(invalid)
            } else {
                let st1 = st_emit(
                    st,
                    seq![
                        Instr::LocalGet(0),
                        Instr::I32Const(st.frame_size as i32),
                        Instr::I32Add,
                    ],
                );
                match spec_push_args(st1, arg_temps, invalid) {
                    Err(e) => Err(e),
                    Ok(st2) => Ok(st_emit(st2, seq![Instr::Call(function)])),
                }
            }
        },
        ObjectExprKind::Return(e) => match spec_push_expr(cx, generics, st, e, fuel, invalid) {
            Err(er) => Err(er),
            Ok(st1) => Ok(st_emit(st1, seq![Instr::Return])),
        },
        ObjectExprKind::Not(e) => match spec_push_expr(cx, generics, st, e, fuel, invalid) {
            Err(er) => Err(er),
            Ok(st1) => Ok(st_emit(st1, seq![Instr::I32Const(1), Instr::I32Xor])),
        },
        ObjectExprKind::BinaryOp(op, l, r) => {
            match spec_push_expr(cx, generics, st, l, fuel, invalid) {
                Err(e) => Err(e),
                Ok(st1) => match spec_push_expr(cx, generics, st1, r, fuel, invalid) {
                    Err(e) => Err(e),
                    Ok(st2) => match spec_primitive_kind(generics, l.ty, fuel, invalid) {
                        Err(e) => Err(e),
                        // operands of dead type produce no instructions
                        Ok(None) => Ok(st2),
                        Ok(Some(k)) => match spec_binop_instr(k, op, invalid) {
                            Err(e) => Err(e),
                            Ok(instr) => Ok(st_emit(st2, seq![instr])),
                        },
                    },
                },
            }
        },
        ObjectExprKind::Aggregate { ty, fields } => {
            match spec_wasm_repr_of_type(&cx.aggrs, generics, ty, fuel, invalid) {
                Err(e) => Err(e),
                Ok(repr) => match repr {
                    WasmRepr::Struct(frs) => if fields.len() == repr_list_len(*frs) {
                        spec_push_list(cx, generics, st, fields, fuel, invalid)
                    } else {
                        Err(invalid)
                    },
                    WasmRepr::Class(frs) => if fields.len() == repr_list_len(*frs) {
                        // the flag word precedes the fields; the caller
                        // stores the words through to the frame
                        spec_push_list(
                            cx,
                            generics,
                            st_emit(st, seq![Instr::I32Const(1)]),
                            fields,
                            fuel,
                            invalid,
                        )
                    } else {
                        Err(invalid)
                    },
                    _ => Err(invalid),
                },
            }
        },
        ObjectExprKind::Match { arms } => spec_push_match(
            cx,
            generics,
            st,
            expr.ty,
            arms,
            fuel,
            invalid,
        ),
        // awaiting is erased: the future is evaluated synchronously
        ObjectExprKind::Await(f) => spec_push_expr(cx, generics, st, f, fuel, invalid),
        ObjectExprKind::Error(_) => Ok(st_emit(st, seq![Instr::Unreachable])),
    }
}

/// Emit a list of expressions in order.
pub open spec fn spec_push_list(
    cx: &Cx,
    generics: ObjTermList,
    st: CgSt,
    l: ObjExprList,
    fuel: u32,
    invalid: Reported,
) -> Result<CgSt, Reported>
    decreases l,
{
    match l {
        ObjExprList::Nil => Ok(st),
        ObjExprList::Cons(e, rest) => match spec_push_expr(cx, generics, st, e, fuel, invalid) {
            Err(er) => Err(er),
            Ok(st1) => spec_push_list(cx, generics, st1, *rest, fuel, invalid),
        },
    }
}

/// Push the values of each argument temporary in order.
pub open spec fn spec_push_args(st: CgSt, temps: VarList, invalid: Reported) -> Result<
    CgSt,
    Reported,
>
    decreases temps,
{
    match temps {
        VarList::Nil => Ok(st),
        VarList::Cons(v, rest) => match spec_var_range(st, v, invalid) {
            Err(e) => Err(e),
            Ok(r) => spec_push_args(
                st_emit(st, local_gets(r.first as int, r.count as nat)),
                *rest,
                invalid,
            ),
        },
    }
}

/// Lower a cascade of match arms into `If`/`Else`/`End` blocks; an arm
/// without a condition executes unconditionally and ends the cascade.
pub open spec fn spec_push_match(
    cx: &Cx,
    generics: ObjTermList,
    st: CgSt,
    match_ty: ObjectTy,
    arms: MatchArmList,
    fuel: u32,
    invalid: Reported,
) -> Result<CgSt, Reported>
    decreases arms,
{
    match arms {
        MatchArmList::Nil => Ok(st),
        MatchArmList::Cons(arm, rest) => match arm.condition {
            Some(cond) => match spec_push_expr(cx, generics, st, cond, fuel, invalid) {
                Err(e) => Err(e),
                Ok(st1) => match spec_block_type(cx, generics, match_ty, fuel, invalid) {
                    Err(e) => Err(e),
                    Ok(bt) => match spec_push_expr(
                        cx,
                        generics,
                        st_emit(st1, seq![Instr::If(bt)]),
                        arm.body,
                        fuel,
                        invalid,
                    ) {
                        Err(e) => Err(e),
                        Ok(st3) => match spec_push_match(
                            cx,
                            generics,
                            st_emit(st3, seq![Instr::Else]),
                            match_ty,
                            *rest,
                            fuel,
                            invalid,
                        ) {
                            Err(e) => Err(e),
                            Ok(st5) => Ok(st_emit(st5, seq![Instr::End])),
                        },
                    },
                },
            },
            None => spec_push_expr(cx, generics, st, arm.body, fuel, invalid),
        },
    }
}

/// Push a literal of the given type: `i32` constants for the 32-bit
/// kinds, `i64` for the wider integers, float constants by their bit
/// patterns at the width the type asks for.
pub open spec fn spec_push_literal(
    generics: ObjTermList,
    st: CgSt,
    ty: ObjectTy,
    lit: PrimitiveLiteral,
    fuel: u32,
    invalid: Reported,
) -> Result<CgSt, Reported> {
    match spec_primitive_kind(generics, ty, fuel, invalid) {
        Err(e) => Err(e),
        Ok(None) => Ok(st_emit(st, seq![Instr::Unreachable])),
        Ok(Some(k)) => match k {
            PrimKind::Bool | PrimKind::Char | PrimKind::Isize | PrimKind::Usize => match lit {
                PrimitiveLiteral::Integral { bits } => Ok(
                    st_emit(st, seq![Instr::I32Const(bits as i32)]),
                ),
                _ => Err(invalid),
            },
            PrimKind::Int { bits: w } | PrimKind::Uint { bits: w } => if w <= 32 {
                match lit {
                    PrimitiveLiteral::Integral { bits } => Ok(
                        st_emit(st, seq![Instr::I32Const(bits as i32)]),
                    ),
                    _ => Err(invalid),
                }
            } else if w <= 64 {
                match lit {
                    PrimitiveLiteral::Integral { bits } => Ok(
                        st_emit(st, seq![Instr::I64Const(bits as i64)]),
                    ),
                    _ => Err(invalid),
                }
            } else {
                Err(invalid)
            },
            PrimKind::Float { bits: w } => if w <= 32 {
                match lit {
                    PrimitiveLiteral::Float { bits32, bits64: _ } => Ok(
                        st_emit(st, seq![Instr::F32Const(bits32)]),
                    ),
                    _ => Err(invalid),
                }
            } else if w <= 64 {
                match lit {
                    PrimitiveLiteral::Float { bits32: _, bits64 } => Ok(
                        st_emit(st, seq![Instr::F64Const(bits64)]),
                    ),
                    _ => Err(invalid),
                }
            } else {
                Err(invalid)
            },
        },
    }
}

/// The length of a representation list.
pub open spec fn repr_list_len(l: crate::repr::ReprList) -> nat
    decreases l,
{
    match l {
        crate::repr::ReprList::Nil => 0,
        crate::repr::ReprList::Cons(_, rest) => 1 + repr_list_len(*rest),
    }
}


pub proof fn lemma_local_sets_shape(first: int, count: nat)
    requires
        first >= 0,
        first + count <= u32::MAX + 1,
    ensures
        local_sets_rev(first, count).len() == count,
        forall|i: int|
            0 <= i < count ==> local_sets_rev(first, count)[i] == Instr::LocalSet(
                (first + count - 1 - i) as u32,
            ),
    decreases count,
{
    if count > 0 {
        lemma_local_sets_shape(first, (count - 1) as nat);
        assert forall|i: int| 0 <= i < count implies local_sets_rev(first, count)[i]
            == Instr::LocalSet((first + count - 1 - i) as u32) by {
            if i > 0 {
                assert(local_sets_rev(first, count)[i] == local_sets_rev(first, (count - 1) as nat)[
                    i - 1
                ]);
            }
        }
    }
}

/// Append `LocalGet` of each local of the range, first to last.
fn emit_gets(instrs: &mut Vec<Instr>, r: LocalRange)
    requires
        r.first + r.count <= u32::MAX,
    ensures
        final(instrs)@ == old(instrs)@ + local_gets(r.first as int, r.count as nat),
{
    proof {
        lemma_local_gets_shape(r.first as int, r.count as nat);
    }
    let mut i: u32 = 0;
    while i < r.count
        invariant
            i <= r.count,
            r.first + r.count <= u32::MAX,
            instrs@.len() == old(instrs)@.len() + i,
            forall|j: int| 0 <= j < old(instrs)@.len() ==> instrs@[j] == old(instrs)@[j],
            forall|j: int|
                0 <= j < i ==> #[trigger] instrs@[old(instrs)@.len() + j] == Instr::LocalGet(
                    (r.first + j) as u32,
                ),
        decreases r.count - i,
    {
        instrs.push(Instr::LocalGet(r.first + i));
        i += 1;
    }
    proof {
        let full = old(instrs)@ + local_gets(r.first as int, r.count as nat);
        assert forall|k: int| 0 <= k < instrs@.len() implies instrs@[k] == full[k] by {
            if k >= old(instrs)@.len() {
                let j = k - old(instrs)@.len();
                assert(instrs@[old(instrs)@.len() + j] == Instr::LocalGet((r.first + j) as u32));
            }
        }
        assert(instrs@ =~= full);
    }
}

/// Append `LocalSet` of each local of the range, last to first.
fn emit_sets_rev(instrs: &mut Vec<Instr>, r: LocalRange)
    requires
        r.first + r.count <= u32::MAX,
    ensures
        final(instrs)@ == old(instrs)@ + local_sets_rev(r.first as int, r.count as nat),
{
    proof {
        lemma_local_sets_shape(r.first as int, r.count as nat);
    }
    let mut i: u32 = 0;
    while i < r.count
        invariant
            i <= r.count,
            r.first + r.count <= u32::MAX,
            instrs@.len() == old(instrs)@.len() + i,
            forall|j: int| 0 <= j < old(instrs)@.len() ==> instrs@[j] == old(instrs)@[j],
            forall|j: int|
                0 <= j < i ==> #[trigger] instrs@[old(instrs)@.len() + j] == Instr::LocalSet(
                    (r.first + r.count - 1 - j) as u32,
                ),
        decreases r.count - i,
    {
        instrs.push(Instr::LocalSet(r.first + (r.count - 1 - i)));
        i += 1;
    }
    proof {
        let full = old(instrs)@ + local_sets_rev(r.first as int, r.count as nat);
        assert forall|k: int| 0 <= k < instrs@.len() implies instrs@[k] == full[k] by {
            if k >= old(instrs)@.len() {
                let j = k - old(instrs)@.len();
                assert(instrs@[old(instrs)@.len() + j] == Instr::LocalSet(
                    (r.first + r.count - 1 - j) as u32,
                ));
            }
        }
        assert(instrs@ =~= full);
    }
}

/// Append a vector of value kinds to the locals.
fn extend_vals(dst: &mut Vec<ValKind>, src: &Vec<ValKind>)
    ensures
        final(dst)@ == old(dst)@ + src@,
{
    let mut i: usize = 0;
    while i < src.len()
        invariant
            i <= src@.len(),
            dst@ == old(dst)@ + src@.subrange(0, i as int),
        decreases src@.len() - i,
    {
        dst.push(src[i]);
        assert(dst@ =~= old(dst)@ + src@.subrange(0, i as int + 1));
        i += 1;
    }
    proof {
        assert(final(dst)@ =~= old(dst)@ + src@);
    }
}

/// Whether an expression list and a representation list have the same
/// length.
fn fields_match_reprs(fields: &ObjExprList, frs: &crate::repr::ReprList) -> (r: bool)
    ensures
        r == (fields.len() == repr_list_len(*frs)),
    decreases *fields,
{
    match (fields, frs) {
        (ObjExprList::Nil, crate::repr::ReprList::Nil) => true,
        (ObjExprList::Cons(_, frest), crate::repr::ReprList::Cons(_, rrest)) => fields_match_reprs(
            frest,
            rrest,
        ),
        _ => false,
    }
}

/// The per-function code generator: the generics in scope, the WASM
/// locals allocated so far (local 0 is the frame pointer), the size of
/// the frame this function reserves, the local ranges of its variables,
/// and the instructions emitted so far.
pub struct ExprCodegen {
    pub generics: ObjTermList,
    pub locals: Vec<ValKind>,
    pub frame_size: u32,
    pub vars: Vec<Option<LocalRange>>,
    pub instrs: Vec<Instr>,
}

impl ExprCodegen {
    /// The state as the model sees it.
    pub open spec fn st(&self) -> CgSt {
        CgSt { locals: self.locals@, vars: self.vars@, frame_size: self.frame_size, instrs: self.instrs@ }
    }

    /// A fresh generator for a function with `nvars` variables and the
    /// given frame size. Local 0 is the frame pointer.
    pub fn new(generics: ObjTermList, nvars: usize, frame_size: u32) -> (r: ExprCodegen)
        ensures
            r.generics == generics,
            r.st().locals == seq![ValKind::I32],
            r.st().vars.len() == nvars,
            forall|i: int| 0 <= i < nvars ==> r.st().vars[i] is None,
            r.st().frame_size == frame_size,
            r.st().instrs.len() == 0,
    {
        let mut locals: Vec<ValKind> = Vec::new();
        locals.push(ValKind::I32);
        let mut vars: Vec<Option<LocalRange>> = Vec::new();
        let mut i: usize = 0;
        while i < nvars
            invariant
                i <= nvars,
                vars@.len() == i,
                forall|j: int| 0 <= j < i ==> vars@[j] is None,
            decreases nvars - i,
        {
            vars.push(None);
            i += 1;
        }
        proof {
            assert(locals@ =~= seq![ValKind::I32]);
        }
        ExprCodegen { generics, locals, frame_size, vars, instrs: Vec::new() }
    }

    /// Look up the local range of a variable.
    fn var_range(&self, lv: u32, invalid: Reported) -> (r: Result<LocalRange, Reported>)
        ensures
            r == spec_var_range(self.st(), lv, invalid),
    {
        if (lv as usize) < self.vars.len() {
            match self.vars[lv as usize] {
                Some(r) => {
                    if (r.first as u64) + (r.count as u64) <= (self.locals.len() as u64) && (
                    self.locals.len() as u64) <= (u32::MAX as u64) {
                        Ok(r)
                    } else {
                        Err(invalid)
                    }
                },
                None => Err(invalid),
            }
        } else {
            Err(invalid)
        }
    }

    fn place_range(&self, place: &ObjectPlaceExpr, invalid: Reported) -> (r: Result<
        LocalRange,
        Reported,
    >)
        ensures
            r == spec_place_range(self.st(), *place, invalid),
    {
        match &place.kind {
            ObjPlaceKind::Var(lv) => self.var_range(*lv, invalid),
            ObjPlaceKind::Error(e) => Err(*e),
        }
    }

    /// The block type for a result of type `ty`.
    fn block_type(&self, cx: &Cx, ty: &ObjectTy, fuel: u32, invalid: Reported) -> (r: Result<
        BlockType,
        Reported,
    >)
        requires
            cx.types.wf(),
        ensures
            r == spec_block_type(cx, self.generics, *ty, fuel, invalid),
    {
        match wasm_repr_of_type(&cx.aggrs, &self.generics, ty, fuel, invalid) {
            Err(e) => Err(e),
            Ok(repr) => {
                let kinds = repr.flatten();
                if kinds.len() == 0 {
                    Ok(BlockType::Empty)
                } else if kinds.len() == 1 {
                    Ok(BlockType::Result(kinds[0]))
                } else {
                    let no_params: Vec<ValKind> = Vec::new();
                    proof {
                        assert(no_params@ =~= Seq::<ValKind>::empty());
                    }
                    match cx.types.find(&no_params, &kinds) {
                        Some(i) => {
                            proof {
                                let ghost fl = flatten_spec(
                                    spec_wasm_repr_of_type(
                                        &cx.aggrs,
                                        self.generics,
                                        *ty,
                                        fuel,
                                        invalid,
                                    ).unwrap(),
                                );
                                let j = choose|j: int|
                                    0 <= j < cx.types.types@.len() && #[trigger] cx.types.type_at(j)
                                        == (Seq::<ValKind>::empty(), fl);
                                if j != i as int {
                                    assert(cx.types.type_at(j) !== cx.types.type_at(i as int));
                                }
                            }
                            Ok(BlockType::FunctionType(i))
                        },
                        None => Err(invalid),
                    }
                }
            },
        }
    }

    /// Generate code to execute the expression, leaving its flattened
    /// value on the WASM stack. The effect on the state is exactly the
    /// model's.
    pub fn push_expr(&mut self, cx: &Cx, expr: &ObjectExpr, fuel: u32, invalid: Reported) -> (r:
        Result<(), Reported>)
        requires
            cx.types.wf(),
        ensures
            final(self).generics == old(self).generics,
            final(self).frame_size == old(self).frame_size,
            match spec_push_expr(cx, old(self).generics, old(self).st(), *expr, fuel, invalid) {
                Ok(st) => r == Ok::<(), Reported>(()) && final(self).st() == st,
                Err(e) => r == Err::<(), Reported>(e),
            },
        decreases *expr,
    {
        match &*expr.kind {
            ObjectExprKind::Semi(a, b) => {
                match self.push_expr(cx, a, fuel, invalid) {
                    Err(e) => Err(e),
                    Ok(()) => self.push_expr(cx, b, fuel, invalid),
                }
            },
            ObjectExprKind::Tuple(elems) => self.push_list(cx, elems, fuel, invalid),
            ObjectExprKind::Primitive(lit) => self.push_literal(&expr.ty, *lit, fuel, invalid),
            ObjectExprKind::LetIn { lv, ty, initializer, body } => {
                match wasm_repr_of_type(&cx.aggrs, &self.generics, ty, fuel, invalid) {
                    Err(e) => Err(e),
                    Ok(repr) => {
                        let kinds = repr.flatten();
                        let ll = self.locals.len() as u64;
                        let kl = kinds.len() as u64;
                        if (*lv as usize) >= self.vars.len() || ll > (u32::MAX as u64) || kl > (
                        u32::MAX as u64) - ll {
                            Err(invalid)
                        } else {
                            let range = LocalRange {
                                first: self.locals.len() as u32,
                                count: kinds.len() as u32,
                            };
                            extend_vals(&mut self.locals, &kinds);
                            self.vars[*lv as usize] = Some(range);
                            let ok = match initializer {
                                None => Ok(()),
                                Some(init) => match self.push_expr(cx, init, fuel, invalid) {
                                    Err(e) => Err(e),
                                    Ok(()) => {
                                        emit_sets_rev(&mut self.instrs, range);
                                        Ok(())
                                    },
                                },
                            };
                            match ok {
                                Err(e) => Err(e),
                                Ok(()) => self.push_expr(cx, body, fuel, invalid),
                            }
                        }
                    },
                }
            },
            ObjectExprKind::Assign { place, value } => {
                match self.place_range(place, invalid) {
                    Err(e) => Err(e),
                    Ok(r0) => match self.push_expr(cx, value, fuel, invalid) {
                        Err(e) => Err(e),
                        Ok(()) => {
                            emit_sets_rev(&mut self.instrs, r0);
                            Ok(())
                        },
                    },
                }
            },
            ObjectExprKind::PermissionOp(_op, place) => {
                match self.place_range(place, invalid) {
                    Err(e) => Err(e),
                    Ok(r0) => {
                        emit_gets(&mut self.instrs, r0);
                        Ok(())
                    },
                }
            },
            ObjectExprKind::Call { function, arg_temps } => {
                if (*function as usize) >= cx.fns.len() {
                    Err(invalid)
                } else {
                    let ghost stx = self.st();
                    self.instrs.push(Instr::LocalGet(0));
                    self.instrs.push(Instr::I32Const(#[verifier::truncate] (self.frame_size as i32)));
                    self.instrs.push(Instr::I32Add);
                    proof {
                        assert(self.st() =~= st_emit(
                            stx,
                            seq![
                                Instr::LocalGet(0),
                                Instr::I32Const(stx.frame_size as i32),
                                Instr::I32Add,
                            ],
                        ));
                    }
                    match self.push_args(arg_temps, invalid) {
                        Err(e) => Err(e),
                        Ok(()) => {
                            let ghost sty = self.st();
                            self.instrs.push(Instr::Call(*function));
                            proof {
                                assert(self.st() =~= st_emit(sty, seq![Instr::Call(*function)]));
                            }
                            Ok(())
                        },
                    }
                }
            },
            ObjectExprKind::Return(e) => {
                match self.push_expr(cx, e, fuel, invalid) {
                    Err(er) => Err(er),
                    Ok(()) => {
                        let ghost stx = self.st();
                        self.instrs.push(Instr::Return);
                        proof {
                            assert(self.st() =~= st_emit(stx, seq![Instr::Return]));
                        }
                        Ok(())
                    },
                }
            },
            ObjectExprKind::Not(e) => {
                match self.push_expr(cx, e, fuel, invalid) {
                    Err(er) => Err(er),
                    Ok(()) => {
                        let ghost stx = self.st();
                        self.instrs.push(Instr::I32Const(1));
                        self.instrs.push(Instr::I32Xor);
                        proof {
                            assert(self.st() =~= st_emit(
                                stx,
                                seq![Instr::I32Const(1), Instr::I32Xor],
                            ));
                        }
                        Ok(())
                    },
                }
            },
            ObjectExprKind::BinaryOp(op, l, rr) => {
                match self.push_expr(cx, l, fuel, invalid) {
                    Err(e) => {
                        return Err(e);
                    },
                    Ok(()) => {},
                }
                match self.push_expr(cx, rr, fuel, invalid) {
                    Err(e) => {
                        return Err(e);
                    },
                    Ok(()) => {},
                }
                let k = match primitive_kind(&self.generics, &l.ty, fuel, invalid) {
                    Err(e) => {
                        return Err(e);
                    },
                    Ok(None) => {
                        return Ok(());
                    },
                    Ok(Some(k)) => k,
                };
                let instr = match execute_binary_op_on_primitives(k, *op, invalid) {
                    Err(e) => {
                        return Err(e);
                    },
                    Ok(instr) => instr,
                };
                let ghost stx = self.st();
                self.instrs.push(instr);
                proof {
                    assert(self.st() =~= st_emit(stx, seq![instr]));
                }
                Ok(())
            },
            ObjectExprKind::Aggregate { ty, fields } => {
                match wasm_repr_of_type(&cx.aggrs, &self.generics, ty, fuel, invalid) {
                    Err(e) => Err(e),
                    Ok(repr) => match repr {
                        WasmRepr::Struct(frs) => {
                            if fields_match_reprs(fields, &frs) {
                                self.push_list(cx, fields, fuel, invalid)
                            } else {
                                Err(invalid)
                            }
                        },
                        WasmRepr::Class(frs) => {
                            if fields_match_reprs(fields, &frs) {
                                let ghost stx = self.st();
                                self.instrs.push(Instr::I32Const(1));
                                proof {
                                    assert(self.st() =~= st_emit(stx, seq![Instr::I32Const(1)]));
                                }
                                self.push_list(cx, fields, fuel, invalid)
                            } else {
                                Err(invalid)
                            }
                        },
                        _ => Err(invalid),
                    },
                }
            },
            ObjectExprKind::Match { arms } => {
                let ty = crate::repr::copy_obj_ty(&expr.ty);
                self.push_match(cx, &ty, arms, fuel, invalid)
            },
            ObjectExprKind::Await(f) => self.push_expr(cx, f, fuel, invalid),
            ObjectExprKind::Error(_) => {
                let ghost stx = self.st();
                self.instrs.push(Instr::Unreachable);
                proof {
                    assert(self.st() =~= st_emit(stx, seq![Instr::Unreachable]));
                }
                Ok(())
            },
        }
    }

    /// Emit a list of expressions in order.
    fn push_list(&mut self, cx: &Cx, l: &ObjExprList, fuel: u32, invalid: Reported) -> (r: Result<
        (),
        Reported,
    >)
        requires
            cx.types.wf(),
        ensures
            final(self).generics == old(self).generics,
            final(self).frame_size == old(self).frame_size,
            match spec_push_list(cx, old(self).generics, old(self).st(), *l, fuel, invalid) {
                Ok(st) => r == Ok::<(), Reported>(()) && final(self).st() == st,
                Err(e) => r == Err::<(), Reported>(e),
            },
        decreases *l,
    {
        match l {
            ObjExprList::Nil => Ok(()),
            ObjExprList::Cons(e, rest) => {
                match self.push_expr(cx, e, fuel, invalid) {
                    Err(er) => Err(er),
                    Ok(()) => self.push_list(cx, rest, fuel, invalid),
                }
            },
        }
    }

    /// Push the values of each argument temporary in order.
    fn push_args(&mut self, temps: &VarList, invalid: Reported) -> (r: Result<(), Reported>)
        ensures
            final(self).generics == old(self).generics,
            final(self).frame_size == old(self).frame_size,
            match spec_push_args(old(self).st(), *temps, invalid) {
                Ok(st) => r == Ok::<(), Reported>(()) && final(self).st() == st,
                Err(e) => r == Err::<(), Reported>(e),
            },
        decreases *temps,
    {
        match temps {
            VarList::Nil => Ok(()),
            VarList::Cons(v, rest) => {
                match self.var_range(*v, invalid) {
                    Err(e) => Err(e),
                    Ok(r0) => {
                        emit_gets(&mut self.instrs, r0);
                        self.push_args(rest, invalid)
                    },
                }
            },
        }
    }

    /// Lower a cascade of match arms.
    fn push_match(
        &mut self,
        cx: &Cx,
        match_ty: &ObjectTy,
        arms: &MatchArmList,
        fuel: u32,
        invalid: Reported,
    ) -> (r: Result<(), Reported>)
        requires
            cx.types.wf(),
        ensures
            final(self).generics == old(self).generics,
            final(self).frame_size == old(self).frame_size,
            match spec_push_match(
                cx,
                old(self).generics,
                old(self).st(),
                *match_ty,
                *arms,
                fuel,
                invalid,
            ) {
                Ok(st) => r == Ok::<(), Reported>(()) && final(self).st() == st,
                Err(e) => r == Err::<(), Reported>(e),
            },
        decreases *arms,
    {
        match arms {
            MatchArmList::Nil => Ok(()),
            MatchArmList::Cons(arm, rest) => {
                match &arm.condition {
                    Some(cond) => {
                        match self.push_expr(cx, cond, fuel, invalid) {
                            Err(e) => Err(e),
                            Ok(()) => match self.block_type(cx, match_ty, fuel, invalid) {
                                Err(e) => Err(e),
                                Ok(bt) => {
                                    let ghost stx = self.st();
                                    self.instrs.push(Instr::If(bt));
                                    proof {
                                        assert(self.st() =~= st_emit(stx, seq![Instr::If(bt)]));
                                    }
                                    match self.push_expr(cx, &arm.body, fuel, invalid) {
                                        Err(e) => Err(e),
                                        Ok(()) => {
                                            let ghost stx = self.st();
                                            self.instrs.push(Instr::Else);
                                            proof {
                                                assert(self.st() =~= st_emit(stx, seq![Instr::Else]));
                                            }
                                            match self.push_match(cx, match_ty, rest, fuel, invalid) {
                                                Err(e) => Err(e),
                                                Ok(()) => {
                                                    let ghost stx = self.st();
                                                    self.instrs.push(Instr::End);
                                                    proof {
                                                        assert(self.st() =~= st_emit(stx, seq![Instr::End]));
                                                    }
                                                    Ok(())
                                                },
                                            }
                                        },
                                    }
                                },
                            },
                        }
                    },
                    None => self.push_expr(cx, &arm.body, fuel, invalid),
                }
            },
        }
    }

    /// Push a literal of the given type.
    fn push_literal(&mut self, ty: &ObjectTy, lit: PrimitiveLiteral, fuel: u32, invalid: Reported)
        -> (r: Result<(), Reported>)
        ensures
            final(self).generics == old(self).generics,
            final(self).frame_size == old(self).frame_size,
            match spec_push_literal(
                old(self).generics,
                old(self).st(),
                *ty,
                lit,
                fuel,
                invalid,
            ) {
                Ok(st) => r == Ok::<(), Reported>(()) && final(self).st() == st,
                Err(e) => r == Err::<(), Reported>(e),
            },
    {
        let k = match primitive_kind(&self.generics, ty, fuel, invalid) {
            Err(e) => {
                return Err(e);
            },
            Ok(None) => {
                let ghost stx = self.st();
                self.instrs.push(Instr::Unreachable);
                proof {
                    assert(self.st() =~= st_emit(stx, seq![Instr::Unreachable]));
                }
                return Ok(());
            },
            Ok(Some(k)) => k,
        };
        let instr = match k {
            PrimKind::Bool | PrimKind::Char | PrimKind::Isize | PrimKind::Usize => match lit {
                PrimitiveLiteral::Integral { bits } => Instr::I32Const(
                    #[verifier::truncate] (bits as i32),
                ),
                _ => {
                    return Err(invalid);
                },
            },
            PrimKind::Int { bits: w } | PrimKind::Uint { bits: w } => {
                if w <= 32 {
                    match lit {
                        PrimitiveLiteral::Integral { bits } => Instr::I32Const(
                            #[verifier::truncate] (bits as i32),
                        ),
                        _ => {
                            return Err(invalid);
                        },
                    }
                } else if w <= 64 {
                    match lit {
                        PrimitiveLiteral::Integral { bits } => Instr::I64Const(
                            #[verifier::truncate] (bits as i64),
                        ),
                        _ => {
                            return Err(invalid);
                        },
                    }
                } else {
                    return Err(invalid);
                }
            },
            PrimKind::Float { bits: w } => {
                if w <= 32 {
                    match lit {
                        PrimitiveLiteral::Float { bits32, bits64: _ } => Instr::F32Const(bits32),
                        _ => {
                            return Err(invalid);
                        },
                    }
                } else if w <= 64 {
                    match lit {
                        PrimitiveLiteral::Float { bits32: _, bits64 } => Instr::F64Const(bits64),
                        _ => {
                            return Err(invalid);
                        },
                    }
                } else {
                    return Err(invalid);
                }
            },
        };
        let ghost stx = self.st();
        self.instrs.push(instr);
        proof {
            assert(self.st() =~= st_emit(stx, seq![instr]));
        }
        Ok(())
    }
}


/// The value kinds loaded by a sequence of `LocalGet` instructions, in
/// order; other instructions load nothing.
pub open spec fn gets_kinds(locals: Seq<ValKind>, instrs: Seq<Instr>) -> Seq<ValKind>
    decreases instrs.len(),
{
    if instrs.len() == 0 {
        Seq::empty()
    } else {
        match instrs.first() {
            Instr::LocalGet(i) => seq![locals[i as int]] + gets_kinds(locals, instrs.drop_first()),
            _ => gets_kinds(locals, instrs.drop_first()),
        }
    }
}

proof fn lemma_gets_kinds_append(locals: Seq<ValKind>, a: Seq<Instr>, b: Seq<Instr>)
    ensures
        gets_kinds(locals, a + b) == gets_kinds(locals, a) + gets_kinds(locals, b),
    decreases a.len(),
{
    if a.len() == 0 {
        assert(a + b =~= b);
        assert(gets_kinds(locals, a) + gets_kinds(locals, b) =~= gets_kinds(locals, b));
    } else {
        assert((a + b).first() == a.first());
        assert((a + b).drop_first() =~= a.drop_first() + b);
        lemma_gets_kinds_append(locals, a.drop_first(), b);
        match a.first() {
            Instr::LocalGet(i) => {
                assert(gets_kinds(locals, a + b) =~= gets_kinds(locals, a) + gets_kinds(
                    locals,
                    b,
                ));
            },
            _ => {},
        }
    }
}

proof fn lemma_gets_kinds_of_range(locals: Seq<ValKind>, r: LocalRange)
    requires
        r.first + r.count <= locals.len(),
        locals.len() <= u32::MAX,
    ensures
        gets_kinds(locals, local_gets(r.first as int, r.count as nat)) == range_kinds(locals, r),
    decreases r.count,
{
    if r.count == 0 {
        assert(range_kinds(locals, r) =~= Seq::<ValKind>::empty());
    } else {
        let rest = LocalRange { first: (r.first + 1) as u32, count: (r.count - 1) as u32 };
        lemma_gets_kinds_of_range(locals, rest);
        let g = local_gets(r.first as int, r.count as nat);
        assert(g.first() == Instr::LocalGet(r.first));
        assert(g.drop_first() =~= local_gets(rest.first as int, rest.count as nat));
        assert(gets_kinds(locals, g) =~= seq![locals[r.first as int]] + range_kinds(locals, rest));
        assert(range_kinds(locals, r) =~= seq![locals[r.first as int]] + range_kinds(locals, rest));
    }
}

/// The flattened values the argument temporaries hold, in order: the
/// locals of each temporary's range, concatenated.
pub open spec fn spec_pushed_kinds(
    locals: Seq<ValKind>,
    vars: Seq<Option<LocalRange>>,
    temps: VarList,
) -> Seq<ValKind>
    decreases temps,
{
    match temps {
        VarList::Nil => Seq::empty(),
        VarList::Cons(v, rest) => {
            let r = if v < vars.len() {
                match vars[v as int] {
                    Some(r) => r,
                    None => LocalRange { first: 0, count: 0 },
                }
            } else {
                LocalRange { first: 0, count: 0 }
            };
            locals.subrange(r.first as int, r.first + r.count) + spec_pushed_kinds(
                locals,
                vars,
                *rest,
            )
        },
    }
}

proof fn lemma_push_args_shape(st: CgSt, temps: VarList, invalid: Reported)
    requires
        spec_push_args(st, temps, invalid) is Ok,
    ensures
        ({
            let st2 = spec_push_args(st, temps, invalid).unwrap();
            &&& st2.locals == st.locals
            &&& st2.vars == st.vars
            &&& st2.frame_size == st.frame_size
            &&& st2.instrs.len() >= st.instrs.len()
            &&& st2.instrs.subrange(0, st.instrs.len() as int) == st.instrs
            &&& gets_kinds(st.locals, st2.instrs.skip(st.instrs.len() as int))
                == spec_pushed_kinds(st.locals, st.vars, temps)
        }),
    decreases temps,
{
    match temps {
        VarList::Nil => {
            let st2 = spec_push_args(st, temps, invalid).unwrap();
            assert(st2.instrs.subrange(0, st.instrs.len() as int) =~= st.instrs);
            assert(st2.instrs.skip(st.instrs.len() as int) =~= Seq::<Instr>::empty());
            assert(gets_kinds(st.locals, Seq::<Instr>::empty()) =~= Seq::<ValKind>::empty());
        },
        VarList::Cons(v, rest) => {
            let r = spec_var_range(st, v, invalid).unwrap();
            let st1 = st_emit(st, local_gets(r.first as int, r.count as nat));
            lemma_push_args_shape(st1, *rest, invalid);
            let st2 = spec_push_args(st1, *rest, invalid).unwrap();
            lemma_local_gets_shape(r.first as int, r.count as nat);
            let g = local_gets(r.first as int, r.count as nat);
            assert(st1.instrs =~= st.instrs + g);
            assert(st2.instrs.subrange(0, st1.instrs.len() as int) == st1.instrs);
            assert(st2.instrs.subrange(0, st.instrs.len() as int) =~= st.instrs);
            let suffix1 = st2.instrs.skip(st1.instrs.len() as int);
            let suffix = st2.instrs.skip(st.instrs.len() as int);
            assert forall|i: int| 0 <= i < suffix.len() implies suffix[i] == (g + suffix1)[i] by {
                if i < g.len() {
                    assert(st2.instrs.subrange(0, st1.instrs.len() as int)[st.instrs.len() + i]
                        == st1.instrs[st.instrs.len() + i]);
                }
            }
            assert(suffix =~= g + suffix1);
            lemma_gets_kinds_append(st.locals, g, suffix1);
            lemma_gets_kinds_of_range(st.locals, r);
            assert(spec_pushed_kinds(st.locals, st.vars, temps) =~= range_kinds(st.locals, r)
                + spec_pushed_kinds(st.locals, st.vars, *rest));
        },
    }
}

/// At every call site, the WASM stack at the `Call` instruction holds the
/// callee's frame pointer (the caller's frame pointer plus the caller's
/// frame size) followed by the flattened values of each argument
/// temporary, in order. When the callee was declared with parameters
/// `[i32 frame pointer] ++ flattened inputs` and the temporaries hold
/// those flattened inputs, the pushed values match the declared type.
pub proof fn lemma_call_site_stack(
    cx: &Cx,
    generics: ObjTermList,
    st: CgSt,
    expr: ObjectExpr,
    function: u32,
    temps: VarList,
    fuel: u32,
    invalid: Reported,
)
    requires
        *expr.kind == (ObjectExprKind::Call { function, arg_temps: temps }),
        spec_push_expr(cx, generics, st, expr, fuel, invalid) is Ok,
    ensures
        ({
            let stf = spec_push_expr(cx, generics, st, expr, fuel, invalid).unwrap();
            &&& stf.instrs.len() >= st.instrs.len() + 4
            &&& stf.instrs.subrange(0, st.instrs.len() as int) == st.instrs
            &&& stf.instrs[st.instrs.len() as int] == Instr::LocalGet(0)
            &&& stf.instrs[st.instrs.len() as int + 1] == Instr::I32Const(st.frame_size as i32)
            &&& stf.instrs[st.instrs.len() as int + 2] == Instr::I32Add
            &&& stf.instrs.last() == Instr::Call(function)
            &&& gets_kinds(
                st.locals,
                stf.instrs.subrange(st.instrs.len() as int + 3, stf.instrs.len() as int - 1),
            ) == spec_pushed_kinds(st.locals, st.vars, temps)
        }),
{
    let prologue = seq![
        Instr::LocalGet(0),
        Instr::I32Const(st.frame_size as i32),
        Instr::I32Add,
    ];
    let st1 = st_emit(st, prologue);
    lemma_push_args_shape(st1, temps, invalid);
    let st2 = spec_push_args(st1, temps, invalid).unwrap();
    let stf = spec_push_expr(cx, generics, st, expr, fuel, invalid).unwrap();
    assert(stf =~= st_emit(st2, seq![Instr::Call(function)]));
    assert(stf.instrs =~= st2.instrs + seq![Instr::Call(function)]);
    assert(st2.instrs.subrange(0, st1.instrs.len() as int) == st1.instrs);
    assert(st1.instrs =~= st.instrs + prologue);
    assert forall|i: int| 0 <= i < st.instrs.len() implies stf.instrs[i] == st.instrs[i] by {
        assert(stf.instrs[i] == st2.instrs[i]);
        assert(st2.instrs.subrange(0, st1.instrs.len() as int)[i] == st1.instrs[i]);
    }
    assert(stf.instrs.subrange(0, st.instrs.len() as int) =~= st.instrs);
    assert forall|i: int| 0 <= i < 3 implies stf.instrs[st.instrs.len() + i] == prologue[i] by {
        assert(st2.instrs.subrange(0, st1.instrs.len() as int)[st.instrs.len() + i]
            == st1.instrs[st.instrs.len() + i]);
        assert(stf.instrs[st.instrs.len() + i] == st2.instrs[st.instrs.len() + i]);
    }
    assert(stf.instrs[st.instrs.len() as int] == Instr::LocalGet(0));
    assert(stf.instrs[st.instrs.len() as int + 1] == Instr::I32Const(st.frame_size as i32));
    assert(stf.instrs[st.instrs.len() as int + 2] == Instr::I32Add);
    let args = st2.instrs.skip(st1.instrs.len() as int);
    assert(gets_kinds(st.locals, args) == spec_pushed_kinds(st.locals, st.vars, temps));
    let sub = stf.instrs.subrange(st.instrs.len() as int + 3, stf.instrs.len() as int - 1);
    assert forall|i: int| 0 <= i < sub.len() implies sub[i] == args[i] by {
        assert(sub[i] == stf.instrs[st.instrs.len() + 3 + i]);
        assert(stf.instrs[st.instrs.len() + 3 + i] == st2.instrs[st1.instrs.len() + i]);
    }
    assert(sub =~= args);
}


/// One sequence is an initial segment of another.
pub open spec fn seq_prefix_of(a: Seq<ValKind>, b: Seq<ValKind>) -> bool {
    a.len() <= b.len() && a == b.subrange(0, a.len() as int)
}

proof fn lemma_seq_prefix_refl(a: Seq<ValKind>)
    ensures
        seq_prefix_of(a, a),
{
    assert(a.subrange(0, a.len() as int) =~= a);
}

proof fn lemma_seq_prefix_trans(a: Seq<ValKind>, b: Seq<ValKind>, c: Seq<ValKind>)
    requires
        seq_prefix_of(a, b),
        seq_prefix_of(b, c),
    ensures
        seq_prefix_of(a, c),
{
    assert forall|i: int| 0 <= i < a.len() implies a[i] == c[i] by {
        assert(a[i] == b.subrange(0, a.len() as int)[i]);
        assert(b[i] == c.subrange(0, b.len() as int)[i]);
    }
    assert(a =~= c.subrange(0, a.len() as int));
}

proof fn lemma_seq_prefix_extend(a: Seq<ValKind>, more: Seq<ValKind>)
    ensures
        seq_prefix_of(a, a + more),
{
    assert(a =~= (a + more).subrange(0, a.len() as int));
}

/// Emission only appends locals: whatever range of locals a variable was
/// given keeps its value kinds for the rest of the function.
pub proof fn lemma_push_expr_locals_append_only(
    cx: &Cx,
    generics: ObjTermList,
    st: CgSt,
    expr: ObjectExpr,
    fuel: u32,
    invalid: Reported,
)
    requires
        spec_push_expr(cx, generics, st, expr, fuel, invalid) is Ok,
    ensures
        seq_prefix_of(
            st.locals,
            spec_push_expr(cx, generics, st, expr, fuel, invalid).unwrap().locals,
        ),
    decreases expr,
{
    lemma_seq_prefix_refl(st.locals);
    match *expr.kind {
        ObjectExprKind::Semi(a, b) => {
            let st1 = spec_push_expr(cx, generics, st, a, fuel, invalid).unwrap();
            lemma_push_expr_locals_append_only(cx, generics, st, a, fuel, invalid);
            lemma_push_expr_locals_append_only(cx, generics, st1, b, fuel, invalid);
            lemma_seq_prefix_trans(
                st.locals,
                st1.locals,
                spec_push_expr(cx, generics, st1, b, fuel, invalid).unwrap().locals,
            );
        },
        ObjectExprKind::Tuple(elems) => {
            lemma_push_list_locals_append_only(cx, generics, st, elems, fuel, invalid);
        },
        ObjectExprKind::Primitive(_) => {},
        ObjectExprKind::LetIn { lv, ty, initializer, body } => {
            let repr = spec_wasm_repr_of_type(&cx.aggrs, generics, ty, fuel, invalid).unwrap();
            let kinds = flatten_spec(repr);
            let range = LocalRange {
                first: st.locals.len() as u32,
                count: kinds.len() as u32,
            };
            let st1 = CgSt {
                locals: st.locals + kinds,
                vars: st.vars.update(lv as int, Some(range)),
                ..st
            };
            lemma_seq_prefix_extend(st.locals, kinds);
            let st2 = match initializer {
                None => st1,
                Some(init) => st_emit(
                    spec_push_expr(cx, generics, st1, init, fuel, invalid).unwrap(),
                    local_sets_rev(range.first as int, range.count as nat),
                ),
            };
            match initializer {
                None => {
                    lemma_seq_prefix_refl(st1.locals);
                },
                Some(init) => {
                    lemma_push_expr_locals_append_only(cx, generics, st1, init, fuel, invalid);
                },
            }
            lemma_seq_prefix_trans(st.locals, st1.locals, st2.locals);
            lemma_push_expr_locals_append_only(cx, generics, st2, body, fuel, invalid);
            lemma_seq_prefix_trans(
                st.locals,
                st2.locals,
                spec_push_expr(cx, generics, st2, body, fuel, invalid).unwrap().locals,
            );
        },
        ObjectExprKind::Assign { place: _, value } => {
            lemma_push_expr_locals_append_only(cx, generics, st, value, fuel, invalid);
        },
        ObjectExprKind::PermissionOp(_, _) => {},
        ObjectExprKind::Call { function: _, arg_temps } => {
            let st1 = st_emit(
                st,
                seq![
                    Instr::LocalGet(0),
                    Instr::I32Const(st.frame_size as i32),
                    Instr::I32Add,
                ],
            );
            lemma_push_args_shape(st1, arg_temps, invalid);
        },
        ObjectExprKind::Return(e) => {
            lemma_push_expr_locals_append_only(cx, generics, st, e, fuel, invalid);
        },
        ObjectExprKind::Not(e) => {
            lemma_push_expr_locals_append_only(cx, generics, st, e, fuel, invalid);
        },
        ObjectExprKind::BinaryOp(_, l, r) => {
            let st1 = spec_push_expr(cx, generics, st, l, fuel, invalid).unwrap();
            lemma_push_expr_locals_append_only(cx, generics, st, l, fuel, invalid);
            lemma_push_expr_locals_append_only(cx, generics, st1, r, fuel, invalid);
            lemma_seq_prefix_trans(
                st.locals,
                st1.locals,
                spec_push_expr(cx, generics, st1, r, fuel, invalid).unwrap().locals,
            );
        },
        ObjectExprKind::Aggregate { ty, fields } => {
            let repr = spec_wasm_repr_of_type(&cx.aggrs, generics, ty, fuel, invalid).unwrap();
            match repr {
                WasmRepr::Struct(_) => {
                    lemma_push_list_locals_append_only(cx, generics, st, fields, fuel, invalid);
                },
                WasmRepr::Class(_) => {
                    lemma_push_list_locals_append_only(
                        cx,
                        generics,
                        st_emit(st, seq![Instr::I32Const(1)]),
                        fields,
                        fuel,
                        invalid,
                    );
                },
                _ => {},
            }
        },
        ObjectExprKind::Match { arms } => {
            lemma_push_match_locals_append_only(cx, generics, st, expr.ty, arms, fuel, invalid);
        },
        ObjectExprKind::Await(f) => {
            lemma_push_expr_locals_append_only(cx, generics, st, f, fuel, invalid);
        },
        ObjectExprKind::Error(_) => {},
    }
}

proof fn lemma_push_list_locals_append_only(
    cx: &Cx,
    generics: ObjTermList,
    st: CgSt,
    l: ObjExprList,
    fuel: u32,
    invalid: Reported,
)
    requires
        spec_push_list(cx, generics, st, l, fuel, invalid) is Ok,
    ensures
        seq_prefix_of(
            st.locals,
            spec_push_list(cx, generics, st, l, fuel, invalid).unwrap().locals,
        ),
    decreases l,
{
    lemma_seq_prefix_refl(st.locals);
    match l {
        ObjExprList::Nil => {},
        ObjExprList::Cons(e, rest) => {
            let st1 = spec_push_expr(cx, generics, st, e, fuel, invalid).unwrap();
            lemma_push_expr_locals_append_only(cx, generics, st, e, fuel, invalid);
            lemma_push_list_locals_append_only(cx, generics, st1, *rest, fuel, invalid);
            lemma_seq_prefix_trans(
                st.locals,
                st1.locals,
                spec_push_list(cx, generics, st1, *rest, fuel, invalid).unwrap().locals,
            );
        },
    }
}

proof fn lemma_push_match_locals_append_only(
    cx: &Cx,
    generics: ObjTermList,
    st: CgSt,
    match_ty: ObjectTy,
    arms: MatchArmList,
    fuel: u32,
    invalid: Reported,
)
    requires
        spec_push_match(cx, generics, st, match_ty, arms, fuel, invalid) is Ok,
    ensures
        seq_prefix_of(
            st.locals,
            spec_push_match(cx, generics, st, match_ty, arms, fuel, invalid).unwrap().locals,
        ),
    decreases arms,
{
    lemma_seq_prefix_refl(st.locals);
    match arms {
        MatchArmList::Nil => {},
        MatchArmList::Cons(arm, rest) => match arm.condition {
            Some(cond) => {
                let st1 = spec_push_expr(cx, generics, st, cond, fuel, invalid).unwrap();
                lemma_push_expr_locals_append_only(cx, generics, st, cond, fuel, invalid);
                let bt = spec_block_type(cx, generics, match_ty, fuel, invalid).unwrap();
                let st2 = st_emit(st1, seq![Instr::If(bt)]);
                let st3 = spec_push_expr(cx, generics, st2, arm.body, fuel, invalid).unwrap();
                lemma_push_expr_locals_append_only(cx, generics, st2, arm.body, fuel, invalid);
                let st4 = st_emit(st3, seq![Instr::Else]);
                lemma_push_match_locals_append_only(
                    cx,
                    generics,
                    st4,
                    match_ty,
                    *rest,
                    fuel,
                    invalid,
                );
                let st5 = spec_push_match(cx, generics, st4, match_ty, *rest, fuel, invalid).unwrap();
                lemma_seq_prefix_trans(st.locals, st1.locals, st3.locals);
                lemma_seq_prefix_trans(st.locals, st3.locals, st5.locals);
            },
            None => {
                lemma_push_expr_locals_append_only(cx, generics, st, arm.body, fuel, invalid);
            },
        },
    }
}

/// The flattened kinds of a list of input types, concatenated.
pub open spec fn spec_flatten_inputs(
    aggrs: &AggrTable,
    generics: ObjTermList,
    tys: crate::repr::ObjTyList,
    fuel: u32,
    invalid: Reported,
) -> Result<Seq<ValKind>, Reported>
    decreases tys,
{
    match tys {
        crate::repr::ObjTyList::Nil => Ok(Seq::empty()),
        crate::repr::ObjTyList::Cons(t, rest) => {
            match spec_wasm_repr_of_type(aggrs, generics, t, fuel, invalid) {
                Err(e) => Err(e),
                Ok(r) => match spec_flatten_inputs(aggrs, generics, *rest, fuel, invalid) {
                    Err(e) => Err(e),
                    Ok(tail) => Ok(flatten_spec(r) + tail),
                },
            }
        },
    }
}

/// The temporaries hold the callee's inputs: each temporary's local range
/// holds exactly the flattened kinds of the corresponding input type.
pub open spec fn temps_hold_inputs(
    cx: &Cx,
    generics: ObjTermList,
    st: CgSt,
    temps: VarList,
    tys: crate::repr::ObjTyList,
    fuel: u32,
    invalid: Reported,
) -> bool
    decreases temps,
{
    match (temps, tys) {
        (VarList::Nil, crate::repr::ObjTyList::Nil) => true,
        (VarList::Cons(v, vrest), crate::repr::ObjTyList::Cons(t, trest)) => {
            &&& spec_var_range(st, v, invalid) is Ok
            &&& spec_wasm_repr_of_type(&cx.aggrs, generics, t, fuel, invalid) is Ok
            &&& range_kinds(st.locals, spec_var_range(st, v, invalid).unwrap()) == flatten_spec(
                spec_wasm_repr_of_type(&cx.aggrs, generics, t, fuel, invalid).unwrap(),
            )
            &&& temps_hold_inputs(cx, generics, st, *vrest, *trest, fuel, invalid)
        },
        _ => false,
    }
}

/// When the argument temporaries hold the callee's inputs, the values
/// pushed for them are exactly the flattened input kinds — together with
/// `lemma_call_site_stack`, the WASM stack at the `Call` instruction is
/// `[frame_ptr, arg0_flattened, ..., argN_flattened]`, matching a callee
/// declared with parameters `[i32] ++ flattened inputs`.
pub proof fn lemma_call_args_match_declared(
    cx: &Cx,
    generics: ObjTermList,
    st: CgSt,
    temps: VarList,
    tys: crate::repr::ObjTyList,
    fuel: u32,
    invalid: Reported,
)
    requires
        temps_hold_inputs(cx, generics, st, temps, tys, fuel, invalid),
    ensures
        spec_flatten_inputs(&cx.aggrs, generics, tys, fuel, invalid) is Ok,
        spec_pushed_kinds(st.locals, st.vars, temps) == spec_flatten_inputs(
            &cx.aggrs,
            generics,
            tys,
            fuel,
            invalid,
        ).unwrap(),
    decreases temps,
{
    match (temps, tys) {
        (VarList::Nil, crate::repr::ObjTyList::Nil) => {
            assert(spec_pushed_kinds(st.locals, st.vars, temps) =~= Seq::<ValKind>::empty());
        },
        (VarList::Cons(v, vrest), crate::repr::ObjTyList::Cons(t, trest)) => {
            lemma_call_args_match_declared(cx, generics, st, *vrest, *trest, fuel, invalid);
            let r = spec_var_range(st, v, invalid).unwrap();
            assert(spec_pushed_kinds(st.locals, st.vars, temps) =~= range_kinds(st.locals, r)
                + spec_pushed_kinds(st.locals, st.vars, *vrest));
        },
        _ => {},
    }
}

} // verus!
