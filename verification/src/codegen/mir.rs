//! Lowered functions: what code generation consumes.

use crate::checked::{CastKind, NumberValue};
use crate::hir::HirId;
use crate::resolved_type::{ConstValue, ResolvedFunctionType, ResolvedType};
use crate::syntax::{BinaryOp, Ident};
use std::rc::Rc;
use vstd::prelude::*;

verus! {

/// A local variable of a function; its parameters come first.
#[derive(Debug, Clone, Copy, PartialEq, Eq, Structural)]
pub struct LocalId(pub u32);

/// A block of a function.
#[derive(Debug, Clone, Copy, PartialEq, Eq, Structural)]
pub struct BlockId(pub u32);

/// An expression and its type.
#[derive(Debug)]
pub struct MirExprNode {
    pub kind: MirExpr,
    pub ty: ResolvedType,
}

/// An expression.
#[derive(Debug)]
pub enum MirExpr {
    Str(String),
    ByteString(String),
    Const(Rc<ConstValue>),
    InlineAsm(MirInlineAsm),
    FunctionCall(MirFunctionCall),
    SpecCoerce(MirSpecCoerce),
    DynamicCall(MirDynamicCall),
    Number(NumberValue),
    Bool(bool),
    Sizeof(ResolvedType),
    Char(char),
    Place(MirPlace),
    Assignment(MirAssignment),
    AddressOf(MirPlace),
    Negate(Box<MirExprNode>),
    BitNot(Box<MirExprNode>),
    BinaryOp(MirBinaryOp),
    ArrayLiteral(Vec<MirExprNode>),
    StructLiteral(Vec<MirFieldValue>),
    EnumConstruct(MirEnumConstruct),
    UnionConstruct(Box<MirFieldValue>),
    Slice(MirSlice),
    Cast(MirCast),
}

/// A call of a function value.
#[derive(Debug)]
pub struct MirFunctionCall {
    pub callee: Box<MirExprNode>,
    pub fn_type: Rc<ResolvedFunctionType>,
    pub args: Vec<MirExprNode>,
}

/// A pointer turned into a spec object: the methods its table holds.
#[derive(Debug)]
pub struct MirSpecCoerce {
    pub base: Box<MirExprNode>,
    pub slots: Rc<Vec<HirId>>,
}

/// A call of one slot of a spec object's table.
#[derive(Debug)]
pub struct MirDynamicCall {
    pub base: MirPlace,
    pub slot_index: u32,
    pub fn_type: Rc<ResolvedFunctionType>,
    pub args: Vec<MirExprNode>,
}

#[derive(Debug)]
pub struct MirAssignment {
    pub target: MirPlace,
    pub value: Box<MirExprNode>,
}

#[derive(Debug)]
pub struct MirBinaryOp {
    pub op: BinaryOp,
    pub left: Box<MirExprNode>,
    pub right: Box<MirExprNode>,
}

/// The value one field is given.
#[derive(Debug)]
pub struct MirFieldValue {
    pub field_index: usize,
    pub value: MirExprNode,
}

/// A variant built from its shared dynamic fields and its own, in the order in
/// which they are written.
#[derive(Debug)]
pub struct MirEnumConstruct {
    pub variant_index: usize,
    pub fields: Vec<MirFieldValue>,
}

/// Part of a sequence.
#[derive(Debug)]
pub struct MirSlice {
    pub base: MirPlace,
    pub item_type: ResolvedType,
    pub start: Option<Box<MirExprNode>>,
    pub end: Option<Box<MirExprNode>>,
    pub inclusive: bool,
}

#[derive(Debug)]
pub struct MirCast {
    pub kind: CastKind,
    pub target_type: ResolvedType,
    pub base: Box<MirExprNode>,
}

/// A place: a root, the projections that lead from it, and the alignment known
/// of the address they lead to.
#[derive(Debug)]
pub struct MirPlace {
    pub root: MirPlaceRoot,
    pub projections: Vec<MirProjection>,
    pub align: u32,
}

/// Where a place starts.
#[derive(Debug)]
#[allow(inconsistent_fields)]
pub enum MirPlaceRoot {
    Local { id: LocalId, ty: ResolvedType },
    Function(HirId),
    Global { id: HirId, ty: ResolvedType },
    Expr(Box<MirExprNode>),
}

/// One step of a place, with the type it leads to.
#[derive(Debug)]
#[allow(inconsistent_fields)]
pub enum MirProjection {
    FieldAccess { index: usize, ty: ResolvedType },
    UnionField { ty: ResolvedType },
    Deref { ty: ResolvedType },
    Index { index_expr: Box<MirExprNode>, item_type: ResolvedType },
    EnumTag { ty: ResolvedType },
    EnumHeader { index: usize, ty: ResolvedType },
    EnumDynamicField { index: usize, ty: ResolvedType },
    EnumBody { variant_index: usize, field_index: usize, ty: ResolvedType },
    SliceLength,
    SpecObjectPtr { mutable: bool },
    SpecObjectVtable,
}

/// A statement of machine code with its operands.
#[derive(Debug)]
pub struct MirInlineAsm {
    pub template: String,
    pub operands: Vec<MirAsmOperand>,
    pub clobbers: Vec<String>,
}

#[derive(Debug)]
pub struct MirAsmOperand {
    pub kind: MirAsmOperandKind,
    pub binding_name: Option<Ident>,
}

/// What an operand is: a value in a register, or text known when compiling.
#[derive(Debug)]
pub enum MirAsmOperandKind {
    Reg { value: MirExprNode, physical: Option<String> },
    Comp { text: String },
}

/// A variable of a function.
#[derive(Debug)]
pub struct MirLocal {
    pub ty: ResolvedType,
}

/// How a block ends.
#[derive(Debug)]
pub enum MirTerminator {
    Goto(BlockId),
    Branch { condition: MirExprNode, then_block: BlockId, else_block: BlockId },
    Return(Option<MirExprNode>),
    Unreachable,
}

#[derive(Debug)]
pub struct MirBlock {
    pub statements: Vec<MirExprNode>,
    pub terminator: MirTerminator,
}

/// The body of a function: its parameters are its first `arg_count` locals,
/// and it starts with its first block.
#[derive(Debug)]
pub struct MirBody {
    pub arg_count: usize,
    pub locals: Vec<MirLocal>,
    pub blocks: Vec<MirBlock>,
}

#[derive(Debug)]
pub enum MirFunctionBody {
    Normal(MirBody),
    Naked(MirInlineAsm),
}

/// Who may define a symbol.
#[derive(Debug, Clone, Copy, PartialEq, Eq, Structural)]
pub enum MirLinkage {
    /// One definition in the program.
    Export,
    /// Equivalent definitions that several objects may hold.
    Weak,
}

#[derive(Debug)]
pub struct MirFunctionDef {
    pub id: HirId,
    pub symbol: String,
    pub linkage: MirLinkage,
    pub fn_type: Rc<ResolvedFunctionType>,
    pub body: MirFunctionBody,
}

/// A variable with storage of its own.
#[derive(Debug)]
pub struct MirDeclaration {
    pub id: HirId,
    pub symbol: String,
    pub ty: ResolvedType,
    pub initial_value: Option<Rc<ConstValue>>,
}

/// A name whose definition lives in another object.
#[derive(Debug)]
pub struct MirForeignBinding {
    pub id: HirId,
    pub symbol: String,
    pub ty: ResolvedType,
}

/// The functions a type declares.
#[derive(Debug)]
pub struct MirTypeDefinition {
    pub functions: Vec<MirFunctionDef>,
}

#[derive(Debug)]
pub enum MirItem {
    Declaration(MirDeclaration),
    ForeignBinding(MirForeignBinding),
    ForeignFunction(MirFunctionDef),
    FunctionDefinition(MirFunctionDef),
    Struct(MirTypeDefinition),
    Enum(MirTypeDefinition),
    Union(MirTypeDefinition),
}

/// What one physical source file contributes.
#[derive(Debug)]
pub struct EmissionUnit {
    /// The source path, relative to the package root.
    pub source: String,
    pub items: Vec<MirItem>,
}

/// A function another package defines.
#[derive(Debug)]
pub struct ExternFunctionRef {
    pub decl_id: HirId,
    pub symbol: String,
    pub fn_type: Rc<ResolvedFunctionType>,
}

} // verus!
