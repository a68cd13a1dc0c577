//! The checked program: what analysis hands on once every expression has a
//! type.

use crate::hir::HirId;
use crate::resolved_type::{ConstValue, ResolvedFunctionType, ResolvedType};
use crate::syntax::{BinaryOp, Span};
use std::rc::Rc;
use vstd::prelude::*;

verus! {

/// A numeric constant. A float is carried as the bits of its 64-bit form.
#[derive(Debug, Clone, Copy, PartialEq, Eq, Hash, Structural)]
pub enum NumberValue {
    Signed(i64),
    Unsigned(u64),
    Float(u64),
}

impl NumberValue {
    /// The integer this constant is, if it is one.
    pub open spec fn integer(self) -> Option<int> {
        match self {
            NumberValue::Signed(v) => Some(v as int),
            NumberValue::Unsigned(v) => Some(v as int),
            NumberValue::Float(_) => None,
        }
    }
}

/// What a cast does to the value it is given.
#[derive(Debug, Clone, Copy, PartialEq, Eq, Structural)]
#[allow(inconsistent_fields)]
pub enum CastKind {
    Reinterpret,
    DropLength,
    Unsize,
    IntExtend { signed: bool },
    IntTruncate,
    IntToFloat { signed: bool },
    FloatToInt { signed: bool },
    FloatExtend,
    FloatTruncate,
    /// Narrows a spec object to the section of its table that starts at this
    /// slot.
    SpecNarrow { slot_offset: u32 },
}

/// Where a variable lives.
#[derive(Debug, Clone, Copy, PartialEq, Eq, Structural)]
pub enum Storage {
    Local,
    Global,
    Function,
}

/// Names one enclosing loop.
#[derive(Debug, Clone, Copy, PartialEq, Eq, Structural)]
pub struct LoopId(pub u32);

/// A sequence of statements and the value it ends in, if it has one.
#[derive(Debug)]
pub struct CheckedBlock {
    pub stmts: Vec<CheckedStmt>,
    pub tail: Option<Box<CheckedExprNode>>,
}

/// A function and its body.
#[derive(Debug)]
pub struct CheckedFunctionDef {
    pub id: HirId,
    pub fn_type: Rc<ResolvedFunctionType>,
    pub body: CheckedBlock,
}

/// A statement.
#[derive(Debug)]
pub enum CheckedStmt {
    Declaration(HirId),
    Break(LoopId),
    Continue(LoopId),
    Expression(CheckedExprNode),
    Return(CheckedExprNode),
    While(CheckedWhile),
    Loop(CheckedLoop),
    For(CheckedFor),
    Defer(CheckedDefer),
    InlineAsm(CheckedInlineAsm),
}

#[derive(Debug)]
pub struct CheckedWhile {
    pub condition: CheckedExprNode,
    pub body: CheckedBlock,
}

#[derive(Debug)]
pub struct CheckedLoop {
    pub body: CheckedBlock,
}

#[derive(Debug)]
pub struct CheckedFor {
    pub init: Vec<CheckedStmt>,
    pub condition: CheckedExprNode,
    pub post: Option<CheckedExprNode>,
    pub body: CheckedBlock,
}

#[derive(Debug)]
pub struct CheckedDefer {
    pub body: CheckedBlock,
}

#[derive(Debug)]
pub struct CheckedInlineAsm {
    pub descriptors: Vec<CheckedAsmDescriptor>,
}

#[derive(Debug)]
pub struct CheckedAsmDescriptor {
    pub kind: CheckedAsmDescriptorKind,
}

/// What one descriptor of an `asm` statement binds.
#[derive(Debug)]
pub enum CheckedAsmDescriptorKind {
    Reg { name: String, expr: CheckedExprNode },
    Clobber(String),
    Memory,
}

/// An expression with its type and place in the source.
#[derive(Debug)]
pub struct CheckedExprNode {
    pub kind: CheckedExpr,
    pub ty: ResolvedType,
    pub span: Span,
}

/// An expression.
#[derive(Debug)]
pub enum CheckedExpr {
    Number(NumberValue),
    Bool(bool),
    Char(char),
    Str(String),
    ByteString(Vec<u8>),
    Const(Rc<ConstValue>),
    Sizeof(ResolvedType),
    Alignof(ResolvedType),
    Place(CheckedPlace),
    FunctionCall(CheckedFunctionCall),
    DynamicCall(CheckedDynamicCall),
    Assignment(CheckedAssignment),
    CompoundAssign(CheckedCompoundAssign),
    AddressOf(CheckedPlace),
    Negate(Box<CheckedExprNode>),
    BitNot(Box<CheckedExprNode>),
    BinaryOp(CheckedBinaryOp),
    Codeblock(Box<CheckedBlock>),
    If(CheckedIf),
    ArrayLiteral(Vec<CheckedExprNode>),
    StructLiteral(Vec<CheckedFieldValue>),
    EnumConstruct(Vec<CheckedFieldValue>),
    UnionConstruct(Box<CheckedFieldValue>),
    Slice(CheckedSlice),
    Match(CheckedMatch),
    Cast(Box<CheckedExprNode>),
    SpecCoerce(Box<CheckedExprNode>),
    AnonymousEnumWiden(Box<CheckedExprNode>),
    Try(CheckedTry),
}

/// A call of a function value.
#[derive(Debug)]
pub struct CheckedFunctionCall {
    pub callee: Box<CheckedExprNode>,
    pub args: Vec<CheckedExprNode>,
    pub fn_type: Rc<ResolvedFunctionType>,
}

/// A call through a spec object.
#[derive(Debug)]
pub struct CheckedDynamicCall {
    pub base: CheckedPlace,
    pub args: Vec<CheckedExprNode>,
    pub fn_type: Rc<ResolvedFunctionType>,
}

#[derive(Debug)]
pub struct CheckedAssignment {
    pub target: CheckedPlace,
    pub value: Box<CheckedExprNode>,
}

#[derive(Debug)]
pub struct CheckedCompoundAssign {
    pub place: CheckedPlace,
    pub op: BinaryOp,
    pub value: Box<CheckedExprNode>,
}

#[derive(Debug)]
pub struct CheckedBinaryOp {
    pub op: BinaryOp,
    pub left: Box<CheckedExprNode>,
    pub right: Box<CheckedExprNode>,
}

#[derive(Debug)]
pub struct CheckedIf {
    pub branches: Vec<CheckedBranch>,
    pub else_branch: Option<Box<CheckedBlock>>,
}

/// A condition and what runs when it holds.
#[derive(Debug)]
pub struct CheckedBranch {
    pub condition: CheckedExprNode,
    pub body: CheckedBlock,
}

/// The value one field is given.
#[derive(Debug)]
pub struct CheckedFieldValue {
    pub index: usize,
    pub value: CheckedExprNode,
}

#[derive(Debug)]
pub struct CheckedSlice {
    pub base: CheckedPlace,
    pub start: Option<Box<CheckedExprNode>>,
    pub end: CheckedRangeEnd,
}

/// Where a range ends.
#[derive(Debug)]
pub enum CheckedRangeEnd {
    Inclusive(Box<CheckedExprNode>),
    Exclusive(Box<CheckedExprNode>),
    Open,
}

#[derive(Debug)]
pub struct CheckedMatch {
    pub arms: Vec<CheckedArm>,
    pub else_branch: Option<Box<CheckedBlock>>,
    pub remainder: CheckedMatchRemainder,
}

/// An arm: it is taken when every condition of one of its groups holds.
#[derive(Debug)]
pub struct CheckedArm {
    pub conditions: Vec<Vec<CheckedExprNode>>,
    pub body: CheckedBlock,
}

/// What is left when no arm of a match is taken.
#[derive(Debug, Clone, Copy, PartialEq, Eq, Structural)]
pub enum CheckedMatchRemainder {
    /// Nothing: the arms cover every value.
    Covered,
    /// Only a value that is no legal tag.
    IllegalEnumTag,
}

#[derive(Debug)]
pub struct CheckedTry {
    pub operand: Box<CheckedExprNode>,
    pub error_coercion: CheckedCoercion,
}

/// The conversions between a value's type and the type it is used at.
#[derive(Debug)]
pub struct CheckedCoercion {
    pub steps: Vec<CheckedCoercionStep>,
}

/// One conversion.
#[derive(Debug)]
pub enum CheckedCoercionStep {
    WidenAnonymousEnum { from: ResolvedType, to: ResolvedType },
    WrapAnonymousEnum { to: ResolvedType },
    SpecObject { to: ResolvedType },
}

/// A place: a root and the projections that lead from it.
#[derive(Debug)]
pub struct CheckedPlace {
    pub root: CheckedPlaceRoot,
    pub projections: Vec<CheckedProjection>,
    pub ty: ResolvedType,
}

/// Where a place starts.
#[derive(Debug)]
pub enum CheckedPlaceRoot {
    Variable { decl_id: HirId, storage: Storage },
    Expr(Box<CheckedExprNode>),
}

/// One step of a place.
#[derive(Debug)]
pub enum CheckedProjection {
    Deref,
    Field { index: usize },
    Index { index_expr: Box<CheckedExprNode> },
}

} // verus!
