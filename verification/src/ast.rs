//! The surface-syntax AST, as the checker consumes it: an immutable tree
//! handed over by the parser. Only its shape matters here; parsing and
//! diagnostics rendering are external collaborators.

use vstd::prelude::*;

use crate::symir::Span;
use crate::objir::PermissionOp;

verus! {

/// An identifier together with its span.
#[derive(Copy, Clone, PartialEq, Eq, Structural, Debug)]
pub struct SpannedIdentifier {
    pub span: Span,
    pub id: u32,
}

/// `{ ... }`
pub struct AstBlock {
    pub statements: AstStatementList,
}

pub enum AstStatementList {
    Nil,
    Cons(AstStatement, Box<AstStatementList>),
}

pub enum AstStatement {
    Let(AstLetStatement),
    Expr(AstExpr),
}

/// `let x = v`, `let x: t = v`, and the like.
pub struct AstLetStatement {
    pub span: Span,
    pub mutable: Option<Span>,
    pub name: SpannedIdentifier,
    pub ty: Option<u32>,
    pub initializer: Option<AstExpr>,
}

/// A surface expression.
pub struct AstExpr {
    pub span: Span,
    pub kind: Box<AstExprKind>,
}

impl AstExpr {
    pub fn new(span: Span, kind: AstExprKind) -> (r: AstExpr)
        ensures
            r.span == span,
            *r.kind == kind,
    {
        AstExpr { span, kind: Box::new(kind) }
    }
}

pub enum AstExprList {
    Nil,
    Cons(AstExpr, Box<AstExprList>),
}

pub enum AstExprKind {
    /// `{ ... }`
    Block(AstBlock),
    /// `22`
    Literal(Literal),
    /// `x`
    Id(SpannedIdentifier),
    /// `E.f`; not necessarily a field access until interpreted.
    DotId(AstExpr, SpannedIdentifier),
    /// `E[..]`; the contents stay unparsed until `E` is resolved.
    SquareBracketOp(AstExpr, SquareBracketArgs),
    /// `E(expr0, ..., exprN)`
    ParenthesisOp(AstExpr, AstExprList),
    /// `(a, b, c)`
    Tuple(AstExprList),
    /// `a { field: value }`
    Constructor(u32, AstConstructorFieldList),
    /// `return x`
    Return(Option<AstExpr>),
    /// `x.await`
    Await { future: AstExpr, await_keyword: Span },
    /// `x.lease`, `x.share`, or `x.give`
    PermissionOp { value: AstExpr, op: PermissionOp },
    /// `a + b` and the like.
    BinaryOp(SpannedBinaryOp, AstExpr, AstExpr),
    /// `!foo` and the like.
    UnaryOp(SpannedUnaryOp, AstExpr),
    /// An if/else-if chain.
    If(IfArmList),
}

/// One arm of an if/else-if chain; an arm without a condition is the
/// final `else`.
pub struct IfArm {
    pub condition: Option<AstExpr>,
    pub result: AstBlock,
}

pub enum IfArmList {
    Nil,
    Cons(IfArm, Box<IfArmList>),
}

#[derive(Copy, Clone, PartialEq, Eq, Structural, Debug)]
pub struct SpannedBinaryOp {
    pub span: Span,
    pub op: AstBinaryOp,
}

#[derive(Copy, Clone, PartialEq, Eq, Structural, Debug)]
pub enum AstBinaryOp {
    Add,
    Sub,
    Mul,
    Div,
    AndAnd,
    OrOr,
    GreaterThan,
    LessThan,
    GreaterEqual,
    LessEqual,
    EqualEqual,
    Assign,
}

#[derive(Copy, Clone, PartialEq, Eq, Structural, Debug)]
pub struct SpannedUnaryOp {
    pub span: Span,
    pub op: UnaryOp,
}

#[derive(Copy, Clone, PartialEq, Eq, Structural, Debug)]
pub enum UnaryOp {
    Not,
    Negate,
}

/// The deferred contents of `x[..]`: a span of tokens parsed later,
/// when it is known whether they are types or expressions.
#[derive(Copy, Clone, PartialEq, Eq, Structural, Debug)]
pub struct SquareBracketArgs {
    pub deferred: Span,
}

/// `field: value` in a constructor.
pub struct AstConstructorField {
    pub name: SpannedIdentifier,
    pub value: AstExpr,
}

pub enum AstConstructorFieldList {
    Nil,
    Cons(AstConstructorField, Box<AstConstructorFieldList>),
}

/// A literal: its kind and its interned text.
#[derive(Copy, Clone, PartialEq, Eq, Structural, Debug)]
pub struct Literal {
    pub kind: LiteralKind,
    pub text: u32,
}

#[derive(Copy, Clone, PartialEq, Eq, Structural, Debug)]
pub enum LiteralKind {
    Boolean,
    Integer,
    String,
}

/// `E(args)` together with any explicit generic arguments.
pub struct AstParenExpr {
    pub callee: AstExpr,
    pub generic_args: Option<Span>,
    pub args: AstExprList,
}

/// Declared effects of a function, such as `async`.
#[derive(Copy, Clone, PartialEq, Eq, Structural, Debug)]
pub struct AstFunctionEffects {
    pub async_effect: Option<Span>,
    pub unsafe_effect: Option<Span>,
}

/// `fn foo() { }`
pub struct AstFunction {
    pub span: Span,
    pub effects: AstFunctionEffects,
    pub fn_span: Span,
    pub name: SpannedIdentifier,
    pub inputs: AstFunctionInputList,
    pub output_ty: Option<u32>,
    pub body: Option<AstBlock>,
}

/// Statements at the top of a module, creating an implicit entry point.
pub struct AstMainFunction {
    pub statements: AstStatementList,
}

pub enum AstFunctionInput {
    SelfArg(AstSelfArg),
    Variable(VariableDecl),
}

pub enum AstFunctionInputList {
    Nil,
    Cons(AstFunctionInput, Box<AstFunctionInputList>),
}

/// The `self` argument, with the permission the user wrote, if any.
#[derive(Copy, Clone, PartialEq, Eq, Structural, Debug)]
pub struct AstSelfArg {
    pub perm: Option<u32>,
    pub self_span: Span,
}

/// `[mut] x: T`
#[derive(Copy, Clone, PartialEq, Eq, Structural, Debug)]
pub struct VariableDecl {
    pub mutable: Option<Span>,
    pub name: SpannedIdentifier,
    pub perm: Option<u32>,
    pub base_ty: u32,
}

} // verus!
