//! The WASM backend: representations and flattening, the operator table,
//! literal lowering, match lowering, and the call-site stack discipline.

use dada_core::Reported;
use dada_core::codegen::BlockType;
use dada_core::codegen::Cx;
use dada_core::codegen::ExprCodegen;
use dada_core::codegen::FnDecl;
use dada_core::codegen::FnInstances;
use dada_core::codegen::FnTypeTable;
use dada_core::codegen::Instr;
use dada_core::codegen::LocalRange;
use dada_core::codegen::execute_binary_op_on_primitives;
use dada_core::codegen::primitive_kind;
use dada_core::objir::MatchArm;
use dada_core::objir::MatchArmList;
use dada_core::objir::ObjExprList;
use dada_core::objir::ObjPlaceKind;
use dada_core::objir::ObjTermList;
use dada_core::objir::ObjectBinaryOp;
use dada_core::objir::ObjectExpr;
use dada_core::objir::ObjectExprKind;
use dada_core::objir::ObjectGenericTerm;
use dada_core::objir::ObjectPlaceExpr;
use dada_core::objir::ObjectTy;
use dada_core::objir::PermissionOp;
use dada_core::objir::PrimitiveLiteral;
use dada_core::objir::VarList;
use dada_core::repr::AggrTable;
use dada_core::repr::ReprList;
use dada_core::repr::ValKind;
use dada_core::repr::WasmRepr;
use dada_core::repr::wasm_repr_of_type;
use dada_core::symir::AggrStyle;
use dada_core::symir::PrimKind;
use dada_core::symir::SymTyName;

const FUEL: u32 = 32;
const OOPS: Reported = Reported(77);

fn prim_ty(k: PrimKind) -> ObjectTy {
    ObjectTy::Named(SymTyName::Primitive(k), Box::new(ObjTermList::Nil))
}

fn lit(ty: ObjectTy, bits: u64) -> ObjectExpr {
    ObjectExpr {
        ty,
        kind: Box::new(ObjectExprKind::Primitive(PrimitiveLiteral::Integral { bits })),
    }
}

fn empty_cx() -> Cx {
    Cx { types: FnTypeTable::new(), fns: Vec::new(), aggrs: AggrTable { aggrs: Vec::new() } }
}

fn fresh(nvars: usize, frame: u32) -> ExprCodegen {
    ExprCodegen::new(ObjTermList::Nil, nvars, frame)
}

type Op = ObjectBinaryOp;
type K = PrimKind;

#[test]
fn operator_table_spot_checks() {
    assert_eq!(execute_binary_op_on_primitives(K::Uint { bits: 16 }, Op::Add, OOPS), Ok(Instr::I32Add));
    assert_eq!(execute_binary_op_on_primitives(K::Uint { bits: 64 }, Op::Add, OOPS), Ok(Instr::I64Add));
    assert_eq!(execute_binary_op_on_primitives(K::Int { bits: 32 }, Op::Div, OOPS), Ok(Instr::I32DivS));
    assert_eq!(execute_binary_op_on_primitives(K::Uint { bits: 32 }, Op::Div, OOPS), Ok(Instr::I32DivU));
    assert_eq!(execute_binary_op_on_primitives(K::Usize, Op::LessThan, OOPS), Ok(Instr::I32LtU));
    assert_eq!(execute_binary_op_on_primitives(K::Isize, Op::GreaterEqual, OOPS), Ok(Instr::I32GeS));
    assert_eq!(execute_binary_op_on_primitives(K::Float { bits: 32 }, Op::Mul, OOPS), Ok(Instr::F32Mul));
    assert_eq!(execute_binary_op_on_primitives(K::Float { bits: 64 }, Op::EqualEqual, OOPS), Ok(Instr::F64Eq));
    // comparisons on char and bool are unsigned; less-or-equal included
    assert_eq!(execute_binary_op_on_primitives(K::Char, Op::LessEqual, OOPS), Ok(Instr::I32LeU));
    assert_eq!(execute_binary_op_on_primitives(K::Bool, Op::GreaterThan, OOPS), Ok(Instr::I32GtU));
    // arithmetic on bool or char is a compile-time error
    assert_eq!(execute_binary_op_on_primitives(K::Bool, Op::Add, OOPS), Err(OOPS));
    assert_eq!(execute_binary_op_on_primitives(K::Char, Op::Mul, OOPS), Err(OOPS));
}

#[test]
fn binary_op_monomorphization() {
    // `fn f[T](a: T, b: T) -> T where T: Int { a + b }`: at `T = u16` the
    // addition compiles to `I32Add`, at `T = u64` to `I64Add`
    for (bits, expect) in [(16u32, Instr::I32Add), (64u32, Instr::I64Add)] {
        let generics = ObjTermList::Cons(
            ObjectGenericTerm::Type(prim_ty(PrimKind::Uint { bits })),
            Box::new(ObjTermList::Nil),
        );
        let var_ty = || ObjectTy::Var(0);
        let body = ObjectExpr {
            ty: var_ty(),
            kind: Box::new(ObjectExprKind::BinaryOp(
                ObjectBinaryOp::Add,
                lit(var_ty(), 1),
                lit(var_ty(), 2),
            )),
        };
        let cx = empty_cx();
        let mut cg = ExprCodegen::new(generics, 0, 0);
        cg.push_expr(&cx, &body, FUEL, OOPS).unwrap();
        assert_eq!(*cg.instrs.last().unwrap(), expect);
        assert_eq!(cg.instrs.len(), 3);
    }
}

#[test]
fn match_lowering_three_arms() {
    // a three-arm match whose last arm is unconditional lowers to nested
    // `If`/`Else`/.../`Else`/unconditional/`End` with a single-result
    // block type
    let bool_ty = || prim_ty(PrimKind::Bool);
    let i32_ty = || prim_ty(PrimKind::Int { bits: 32 });
    let arm = |cond: Option<ObjectExpr>, body: ObjectExpr| MatchArm { condition: cond, body };
    let arms = MatchArmList::Cons(
        arm(Some(lit(bool_ty(), 1)), lit(i32_ty(), 10)),
        Box::new(MatchArmList::Cons(
            arm(Some(lit(bool_ty(), 0)), lit(i32_ty(), 20)),
            Box::new(MatchArmList::Cons(
                arm(None, lit(i32_ty(), 30)),
                Box::new(MatchArmList::Nil),
            )),
        )),
    );
    let expr = ObjectExpr { ty: i32_ty(), kind: Box::new(ObjectExprKind::Match { arms }) };
    let cx = empty_cx();
    let mut cg = fresh(0, 0);
    cg.push_expr(&cx, &expr, FUEL, OOPS).unwrap();
    let bt = BlockType::Result(ValKind::I32);
    assert_eq!(
        cg.instrs,
        vec![
            Instr::I32Const(1),
            Instr::If(bt),
            Instr::I32Const(10),
            Instr::Else,
            Instr::I32Const(0),
            Instr::If(bt),
            Instr::I32Const(20),
            Instr::Else,
            Instr::I32Const(30),
            Instr::End,
            Instr::End,
        ]
    );
}

#[test]
fn call_site_stack_shape() {
    // the stack at the `Call` is the callee frame pointer followed by the
    // flattened arguments, matching the declared type
    let mut cx = empty_cx();
    cx.fns.push(FnDecl {
        params: vec![ValKind::I32, ValKind::I32, ValKind::I64],
        results: vec![ValKind::I32],
    });
    let mut cg = fresh(2, 16);
    // locals: 0 is the frame pointer; arg temps at 1 (i32) and 2 (i64)
    cg.locals.push(ValKind::I32);
    cg.locals.push(ValKind::I64);
    cg.vars[0] = Some(LocalRange { first: 1, count: 1 });
    cg.vars[1] = Some(LocalRange { first: 2, count: 1 });
    let temps = VarList::Cons(0, Box::new(VarList::Cons(1, Box::new(VarList::Nil))));
    let expr = ObjectExpr {
        ty: prim_ty(PrimKind::Int { bits: 32 }),
        kind: Box::new(ObjectExprKind::Call { function: 0, arg_temps: temps }),
    };
    cg.push_expr(&empty_cx_with_fn(), &expr, FUEL, OOPS).unwrap();
    assert_eq!(
        cg.instrs,
        vec![
            Instr::LocalGet(0),
            Instr::I32Const(16),
            Instr::I32Add,
            Instr::LocalGet(1),
            Instr::LocalGet(2),
            Instr::Call(0),
        ]
    );
    // the kinds the argument gets load match the declared parameters
    // after the frame pointer
    assert_eq!(cg.locals[1], ValKind::I32);
    assert_eq!(cg.locals[2], ValKind::I64);
}

fn empty_cx_with_fn() -> Cx {
    let mut cx = empty_cx();
    cx.fns.push(FnDecl {
        params: vec![ValKind::I32, ValKind::I32, ValKind::I64],
        results: vec![ValKind::I32],
    });
    cx
}

#[test]
fn shared_owned_pointer_copied_twice() {
    // `let x: our String = "hi"; let y = x.share;` — sharing emits the
    // same heap pointer from the same local each time
    let class_ty = || ObjectTy::Named(
        SymTyName::Aggregate { id: 0, style: AggrStyle::Class },
        Box::new(ObjTermList::Nil),
    );
    let mut cx = empty_cx();
    cx.aggrs.aggrs.push(dada_core::repr::AggrDef {
        style: AggrStyle::Struct,
        fields: dada_core::repr::ObjTyList::Nil,
    });
    let mut cg = fresh(1, 0);
    cg.locals.push(ValKind::I32);
    cg.vars[0] = Some(LocalRange { first: 1, count: 1 });
    let place = || ObjectPlaceExpr { ty: class_ty(), kind: ObjPlaceKind::Var(0) };
    let share = || ObjectExpr {
        ty: class_ty(),
        kind: Box::new(ObjectExprKind::PermissionOp(PermissionOp::Share, place())),
    };
    cg.push_expr(&cx, &share(), FUEL, OOPS).unwrap();
    cg.push_expr(&cx, &share(), FUEL, OOPS).unwrap();
    assert_eq!(cg.instrs, vec![Instr::LocalGet(1), Instr::LocalGet(1)]);
}

#[test]
fn let_in_allocates_locals_and_stores() {
    let i64_ty = || prim_ty(PrimKind::Uint { bits: 64 });
    let expr = ObjectExpr {
        ty: i64_ty(),
        kind: Box::new(ObjectExprKind::LetIn {
            lv: 0,
            ty: i64_ty(),
            initializer: Some(lit(i64_ty(), 5)),
            body: ObjectExpr {
                ty: i64_ty(),
                kind: Box::new(ObjectExprKind::PermissionOp(
                    PermissionOp::Give,
                    ObjectPlaceExpr { ty: i64_ty(), kind: ObjPlaceKind::Var(0) },
                )),
            },
        }),
    };
    let cx = empty_cx();
    let mut cg = fresh(1, 0);
    cg.push_expr(&cx, &expr, FUEL, OOPS).unwrap();
    assert_eq!(cg.locals, vec![ValKind::I32, ValKind::I64]);
    assert_eq!(
        cg.instrs,
        vec![Instr::I64Const(5), Instr::LocalSet(1), Instr::LocalGet(1)]
    );
}

#[test]
fn error_expression_is_unreachable() {
    let cx = empty_cx();
    let mut cg = fresh(0, 0);
    let expr = ObjectExpr {
        ty: ObjectTy::Error(Reported(1)),
        kind: Box::new(ObjectExprKind::Error(Reported(1))),
    };
    cg.push_expr(&cx, &expr, FUEL, OOPS).unwrap();
    assert_eq!(cg.instrs, vec![Instr::Unreachable]);
}

#[test]
fn flatten_counts_value_leaves() {
    // a struct of a value, a class and a nothing flattens to one entry
    // per value leaf, the class contributing one `i32` pointer
    let inner = ReprList::Cons(
        WasmRepr::Val(ValKind::F64),
        Box::new(ReprList::Nil),
    );
    let tree = WasmRepr::Struct(Box::new(ReprList::Cons(
        WasmRepr::Val(ValKind::I64),
        Box::new(ReprList::Cons(
            WasmRepr::Class(Box::new(inner)),
            Box::new(ReprList::Cons(WasmRepr::Nothing, Box::new(ReprList::Nil))),
        )),
    )));
    assert_eq!(tree.flatten(), vec![ValKind::I64, ValKind::I32]);
}

#[test]
fn repr_of_types() {
    let aggrs = AggrTable {
        aggrs: vec![dada_core::repr::AggrDef {
            style: AggrStyle::Class,
            fields: dada_core::repr::ObjTyList::Cons(
                prim_ty(PrimKind::Uint { bits: 8 }),
                Box::new(dada_core::repr::ObjTyList::Nil),
            ),
        }],
    };
    let g = ObjTermList::Nil;
    // small integers promote to i32
    let r = wasm_repr_of_type(&aggrs, &g, &prim_ty(PrimKind::Uint { bits: 8 }), FUEL, OOPS);
    assert!(matches!(r, Ok(WasmRepr::Val(ValKind::I32))));
    // a class is a pointer-shaped aggregate
    let class = ObjectTy::Named(
        SymTyName::Aggregate { id: 0, style: AggrStyle::Class },
        Box::new(ObjTermList::Nil),
    );
    let r = wasm_repr_of_type(&aggrs, &g, &class, FUEL, OOPS).unwrap();
    assert!(matches!(r, WasmRepr::Class(_)));
    assert_eq!(r.flatten(), vec![ValKind::I32]);
    // the empty type has no representation
    let r = wasm_repr_of_type(&aggrs, &g, &ObjectTy::Never, FUEL, OOPS).unwrap();
    assert!(matches!(r, WasmRepr::Nothing));
}

#[test]
fn primitive_kind_resolves_generics() {
    let g = ObjTermList::Cons(
        ObjectGenericTerm::Type(prim_ty(PrimKind::Char)),
        Box::new(ObjTermList::Nil),
    );
    assert_eq!(primitive_kind(&g, &ObjectTy::Var(0), FUEL, OOPS), Ok(Some(PrimKind::Char)));
    assert_eq!(primitive_kind(&g, &ObjectTy::Never, FUEL, OOPS), Ok(None));
    assert_eq!(primitive_kind(&g, &ObjectTy::Infer(0), FUEL, OOPS), Err(OOPS));
}

#[test]
fn fn_types_and_instances_are_memoized() {
    let mut types = FnTypeTable::new();
    let a = types.declare_fn_type(vec![ValKind::I32], vec![ValKind::I64]);
    let b = types.declare_fn_type(vec![ValKind::I32], vec![ValKind::I32]);
    let a2 = types.declare_fn_type(vec![ValKind::I32], vec![ValKind::I64]);
    assert_eq!(a, a2);
    assert_ne!(a, b);

    let mut fns = FnInstances::new();
    let f = fns.declare_fn(4, 0);
    let g = fns.declare_fn(4, 1);
    let f2 = fns.declare_fn(4, 0);
    assert_eq!(f, f2);
    assert_ne!(f, g);
}

#[test]
fn float_literal_width_selection() {
    let f32_ty = prim_ty(PrimKind::Float { bits: 32 });
    let f64_ty = prim_ty(PrimKind::Float { bits: 64 });
    let bits32 = 1.5f32.to_bits();
    let bits64 = 1.5f64.to_bits();
    let lit = PrimitiveLiteral::Float { bits32, bits64 };
    let cx = empty_cx();
    let mut cg = fresh(0, 0);
    let e32 = ObjectExpr { ty: f32_ty, kind: Box::new(ObjectExprKind::Primitive(lit)) };
    cg.push_expr(&cx, &e32, FUEL, OOPS).unwrap();
    assert_eq!(cg.instrs, vec![Instr::F32Const(bits32)]);
    let mut cg = fresh(0, 0);
    let e64 = ObjectExpr { ty: f64_ty, kind: Box::new(ObjectExprKind::Primitive(lit)) };
    cg.push_expr(&cx, &e64, FUEL, OOPS).unwrap();
    assert_eq!(cg.instrs, vec![Instr::F64Const(bits64)]);
}

#[test]
fn aggregate_class_pushes_flag_word() {
    let u8_ty = || prim_ty(PrimKind::Uint { bits: 8 });
    let class_ty = ObjectTy::Named(
        SymTyName::Aggregate { id: 0, style: AggrStyle::Class },
        Box::new(ObjTermList::Nil),
    );
    let mut cx = empty_cx();
    cx.aggrs.aggrs.push(dada_core::repr::AggrDef {
        style: AggrStyle::Class,
        fields: dada_core::repr::ObjTyList::Cons(
            u8_ty(),
            Box::new(dada_core::repr::ObjTyList::Nil),
        ),
    });
    let expr = ObjectExpr {
        ty: class_ty,
        kind: Box::new(ObjectExprKind::Aggregate {
            ty: ObjectTy::Named(
                SymTyName::Aggregate { id: 0, style: AggrStyle::Class },
                Box::new(ObjTermList::Nil),
            ),
            fields: ObjExprList::Cons(lit(u8_ty(), 9), Box::new(ObjExprList::Nil)),
        }),
    };
    let mut cg = fresh(0, 0);
    cg.push_expr(&cx, &expr, FUEL, OOPS).unwrap();
    assert_eq!(cg.instrs, vec![Instr::I32Const(1), Instr::I32Const(9)]);
}
