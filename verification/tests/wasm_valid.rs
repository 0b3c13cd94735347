//! The emitted WASM validates: the instruction sequences the backend
//! produces, assembled into a module with `wasm_encoder`, pass
//! `wasmparser`'s validator.

use dada_core::Reported;
use dada_core::codegen::BlockType;
use dada_core::codegen::Cx;
use dada_core::codegen::ExprCodegen;
use dada_core::codegen::FnTypeTable;
use dada_core::codegen::Instr;
use dada_core::objir::MatchArm;
use dada_core::objir::MatchArmList;
use dada_core::objir::ObjTermList;
use dada_core::objir::ObjectBinaryOp;
use dada_core::objir::ObjectExpr;
use dada_core::objir::ObjectExprKind;
use dada_core::objir::ObjectTy;
use dada_core::objir::PrimitiveLiteral;
use dada_core::repr::AggrTable;
use dada_core::repr::ValKind;
use dada_core::symir::PrimKind;
use dada_core::symir::SymTyName;
use dada_core::objir::ObjPlaceKind;
use dada_core::objir::ObjectPlaceExpr;
use dada_core::objir::PermissionOp;

const FUEL: u32 = 32;
const OOPS: Reported = Reported(55);

fn conv_valtype(v: ValKind) -> wasm_encoder::ValType {
    match v {
        ValKind::I32 => wasm_encoder::ValType::I32,
        ValKind::I64 => wasm_encoder::ValType::I64,
        ValKind::F32 => wasm_encoder::ValType::F32,
        ValKind::F64 => wasm_encoder::ValType::F64,
    }
}

fn conv_blocktype(b: BlockType) -> wasm_encoder::BlockType {
    match b {
        BlockType::Empty => wasm_encoder::BlockType::Empty,
        BlockType::Result(v) => wasm_encoder::BlockType::Result(conv_valtype(v)),
        BlockType::FunctionType(i) => wasm_encoder::BlockType::FunctionType(i),
    }
}

use wasm_encoder::Instruction as W;

fn conv(i: Instr) -> wasm_encoder::Instruction<'static> {
    match i {
        Instr::I32Const(x) => W::I32Const(x),
        Instr::I64Const(x) => W::I64Const(x),
        Instr::F32Const(bits) => W::F32Const(wasm_encoder::Ieee32::new(bits)),
        Instr::F64Const(bits) => W::F64Const(wasm_encoder::Ieee64::new(bits)),
        Instr::I32Add => W::I32Add,
        Instr::I32Sub => W::I32Sub,
        Instr::I32Mul => W::I32Mul,
        Instr::I32DivS => W::I32DivS,
        Instr::I32DivU => W::I32DivU,
        Instr::I32Eq => W::I32Eq,
        Instr::I32LtS => W::I32LtS,
        Instr::I32LtU => W::I32LtU,
        Instr::I32GtS => W::I32GtS,
        Instr::I32GtU => W::I32GtU,
        Instr::I32LeS => W::I32LeS,
        Instr::I32LeU => W::I32LeU,
        Instr::I32GeS => W::I32GeS,
        Instr::I32GeU => W::I32GeU,
        Instr::I32Xor => W::I32Xor,
        Instr::I64Add => W::I64Add,
        Instr::I64Sub => W::I64Sub,
        Instr::I64Mul => W::I64Mul,
        Instr::I64DivS => W::I64DivS,
        Instr::I64DivU => W::I64DivU,
        Instr::I64Eq => W::I64Eq,
        Instr::I64LtS => W::I64LtS,
        Instr::I64LtU => W::I64LtU,
        Instr::I64GtS => W::I64GtS,
        Instr::I64GtU => W::I64GtU,
        Instr::I64LeS => W::I64LeS,
        Instr::I64LeU => W::I64LeU,
        Instr::I64GeS => W::I64GeS,
        Instr::I64GeU => W::I64GeU,
        Instr::F32Add => W::F32Add,
        Instr::F32Sub => W::F32Sub,
        Instr::F32Mul => W::F32Mul,
        Instr::F32Div => W::F32Div,
        Instr::F32Eq => W::F32Eq,
        Instr::F32Lt => W::F32Lt,
        Instr::F32Gt => W::F32Gt,
        Instr::F32Le => W::F32Le,
        Instr::F32Ge => W::F32Ge,
        Instr::F64Add => W::F64Add,
        Instr::F64Sub => W::F64Sub,
        Instr::F64Mul => W::F64Mul,
        Instr::F64Div => W::F64Div,
        Instr::F64Eq => W::F64Eq,
        Instr::F64Lt => W::F64Lt,
        Instr::F64Gt => W::F64Gt,
        Instr::F64Le => W::F64Le,
        Instr::F64Ge => W::F64Ge,
        Instr::LocalGet(i) => W::LocalGet(i),
        Instr::LocalSet(i) => W::LocalSet(i),
        Instr::Call(i) => W::Call(i),
        Instr::Return => W::Return,
        Instr::Unreachable => W::Unreachable,
        Instr::If(b) => W::If(conv_blocktype(b)),
        Instr::Else => W::Else,
        Instr::End => W::End,
    }
}

/// Assemble one function into a module: one memory page, the function's
/// type `[i32 frame pointer] -> results`, and its body.
fn assemble(cg: &ExprCodegen, results: Vec<ValKind>) -> Vec<u8> {
    let mut module = wasm_encoder::Module::new();

    let mut types = wasm_encoder::TypeSection::new();
    types.ty().function(
        vec![wasm_encoder::ValType::I32],
        results.into_iter().map(conv_valtype).collect::<Vec<_>>(),
    );
    module.section(&types);

    let mut functions = wasm_encoder::FunctionSection::new();
    functions.function(0);
    module.section(&functions);

    let mut memories = wasm_encoder::MemorySection::new();
    memories.memory(wasm_encoder::MemoryType {
        minimum: 1,
        maximum: None,
        memory64: false,
        shared: false,
        page_size_log2: None,
    });
    module.section(&memories);

    let mut code = wasm_encoder::CodeSection::new();
    // local 0 is the frame-pointer parameter; the remaining locals are
    // declared in the function body
    let extra_locals = cg.locals[1..].iter().map(|v| conv_valtype(*v)).collect::<Vec<_>>();
    let mut f = wasm_encoder::Function::new_with_locals_types(extra_locals);
    for i in &cg.instrs {
        f.instruction(&conv(*i));
    }
    f.instruction(&wasm_encoder::Instruction::End);
    code.function(&f);
    module.section(&code);

    module.finish()
}

fn prim_ty(k: PrimKind) -> ObjectTy {
    ObjectTy::Named(SymTyName::Primitive(k), Box::new(ObjTermList::Nil))
}

fn lit(ty: ObjectTy, bits: u64) -> ObjectExpr {
    ObjectExpr {
        ty,
        kind: Box::new(ObjectExprKind::Primitive(PrimitiveLiteral::Integral { bits })),
    }
}

fn empty_cx() -> Cx {
    Cx { types: FnTypeTable::new(), fns: Vec::new(), aggrs: AggrTable { aggrs: Vec::new() } }
}

#[test]
fn emitted_arithmetic_validates() {
    // `return 1 + 2` as a `u32`-returning function
    let i32_ty = || prim_ty(PrimKind::Uint { bits: 32 });
    let body = ObjectExpr {
        ty: i32_ty(),
        kind: Box::new(ObjectExprKind::Return(ObjectExpr {
            ty: i32_ty(),
            kind: Box::new(ObjectExprKind::BinaryOp(
                ObjectBinaryOp::Add,
                lit(i32_ty(), 1),
                lit(i32_ty(), 2),
            )),
        })),
    };
    let cx = empty_cx();
    let mut cg = ExprCodegen::new(ObjTermList::Nil, 0, 0);
    cg.push_expr(&cx, &body, FUEL, OOPS).unwrap();
    let bytes = assemble(&cg, vec![ValKind::I32]);
    wasmparser::validate(&bytes).expect("arithmetic module should validate");
}

#[test]
fn emitted_match_validates() {
    // the lowered three-arm match is well-typed WASM
    let bool_ty = || prim_ty(PrimKind::Bool);
    let i32_ty = || prim_ty(PrimKind::Int { bits: 32 });
    let arm = |cond: Option<ObjectExpr>, body: ObjectExpr| MatchArm { condition: cond, body };
    let arms = MatchArmList::Cons(
        arm(Some(lit(bool_ty(), 1)), lit(i32_ty(), 10)),
        Box::new(MatchArmList::Cons(
            arm(Some(lit(bool_ty(), 0)), lit(i32_ty(), 20)),
            Box::new(MatchArmList::Cons(
                arm(None, lit(i32_ty(), 30)),
                Box::new(MatchArmList::Nil),
            )),
        )),
    );
    let body = ObjectExpr {
        ty: i32_ty(),
        kind: Box::new(ObjectExprKind::Return(ObjectExpr {
            ty: i32_ty(),
            kind: Box::new(ObjectExprKind::Match { arms }),
        })),
    };
    let cx = empty_cx();
    let mut cg = ExprCodegen::new(ObjTermList::Nil, 0, 0);
    cg.push_expr(&cx, &body, FUEL, OOPS).unwrap();
    let bytes = assemble(&cg, vec![ValKind::I32]);
    wasmparser::validate(&bytes).expect("match module should validate");
}

#[test]
fn emitted_let_and_locals_validate() {
    // `let x: u64 = 5 in return x.give`
    let i64_ty = || prim_ty(PrimKind::Uint { bits: 64 });
    let body = ObjectExpr {
        ty: i64_ty(),
        kind: Box::new(ObjectExprKind::Return(ObjectExpr {
            ty: i64_ty(),
            kind: Box::new(ObjectExprKind::LetIn {
                lv: 0,
                ty: i64_ty(),
                initializer: Some(lit(i64_ty(), 5)),
                body: ObjectExpr {
                    ty: i64_ty(),
                    kind: Box::new(ObjectExprKind::PermissionOp(
                        PermissionOp::Give,
                        ObjectPlaceExpr { ty: i64_ty(), kind: ObjPlaceKind::Var(0) },
                    )),
                },
            }),
        })),
    };
    let cx = empty_cx();
    let mut cg = ExprCodegen::new(ObjTermList::Nil, 1, 0);
    cg.push_expr(&cx, &body, FUEL, OOPS).unwrap();
    let bytes = assemble(&cg, vec![ValKind::I64]);
    wasmparser::validate(&bytes).expect("let module should validate");
}
