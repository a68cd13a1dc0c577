//! What lowering relies on: that everything a function mentions can be laid
//! out, and that constants have the shape of their types.

use crate::codegen::abi::fn_measurable;
use crate::codegen::constants::{const_fits, fields_fit};
use crate::codegen::frame::body_fits;
use crate::codegen::mir::{
    EmissionUnit, MirAsmOperand, MirAsmOperandKind, MirExpr, MirExprNode, MirFieldValue,
    MirFunctionBody, MirFunctionDef, MirItem, MirPlace, MirPlaceRoot, MirProjection,
};
use crate::layout::{leaves_spec, measurable};
use crate::resolved_type::ResolvedType;
use vstd::prelude::*;

verus! {

/// Whether everything an expression mentions can be laid out.
pub open spec fn node_fits(node: MirExprNode, pointer_bytes: u32) -> bool
    decreases node, 0int,
{
    match node.kind {
        MirExpr::Str(_) => true,
        MirExpr::ByteString(_) => true,
        MirExpr::Bool(_) => true,
        MirExpr::Char(_) => true,
        MirExpr::Const(value) => measurable(node.ty, pointer_bytes) && const_fits(
            *value,
            node.ty,
            pointer_bytes,
        ),
        MirExpr::InlineAsm(code) => operands_fit(code.operands@, pointer_bytes),
        MirExpr::FunctionCall(call) => {
            &&& node_fits(*call.callee, pointer_bytes)
            &&& nodes_fit(call.args@, pointer_bytes)
            &&& fn_measurable(*call.fn_type, pointer_bytes)
        },
        MirExpr::SpecCoerce(coerce) => node_fits(*coerce.base, pointer_bytes),
        MirExpr::DynamicCall(call) => {
            &&& place_fits(call.base, pointer_bytes)
            &&& nodes_fit(call.args@, pointer_bytes)
            &&& fn_measurable(*call.fn_type, pointer_bytes)
        },
        MirExpr::Number(_) => measurable(node.ty, pointer_bytes),
        MirExpr::Sizeof(ty) => measurable(ty, pointer_bytes),
        MirExpr::Place(place) => place_fits(place, pointer_bytes),
        MirExpr::Assignment(assignment) => place_fits(assignment.target, pointer_bytes)
            && node_fits(*assignment.value, pointer_bytes),
        MirExpr::AddressOf(place) => place_fits(place, pointer_bytes),
        MirExpr::Negate(base) => node_fits(*base, pointer_bytes),
        MirExpr::BitNot(base) => node_fits(*base, pointer_bytes),
        MirExpr::BinaryOp(binary) => {
            &&& node_fits(*binary.left, pointer_bytes)
            &&& node_fits(*binary.right, pointer_bytes)
            &&& measurable(node.ty, pointer_bytes)
        },
        MirExpr::ArrayLiteral(elements) => nodes_fit(elements@, pointer_bytes),
        MirExpr::StructLiteral(fields) => field_values_fit(fields@, pointer_bytes),
        MirExpr::EnumConstruct(construct) => {
            &&& measurable(node.ty, pointer_bytes)
            &&& field_values_fit(construct.fields@, pointer_bytes)
            &&& match node.ty {
                ResolvedType::Enum { cell, .. } => {
                    &&& leaves_spec(cell.tag_type, pointer_bytes).len() > 0
                    &&& construct.variant_index < cell.variants@.len() ==> fields_fit(
                        cell.variants@[construct.variant_index as int].header_values@,
                        cell.header@,
                        pointer_bytes,
                    )
                },
                _ => true,
            }
        },
        MirExpr::UnionConstruct(field) => measurable(node.ty, pointer_bytes) && node_fits(
            field.value,
            pointer_bytes,
        ),
        MirExpr::Slice(slice) => {
            &&& place_fits(slice.base, pointer_bytes)
            &&& measurable(slice.item_type, pointer_bytes)
            &&& match slice.start {
                Some(start) => node_fits(*start, pointer_bytes),
                None => true,
            }
            &&& match slice.end {
                Some(end) => node_fits(*end, pointer_bytes),
                None => true,
            }
        },
        MirExpr::Cast(cast) => node_fits(*cast.base, pointer_bytes) && measurable(
            cast.target_type,
            pointer_bytes,
        ),
    }
}

/// [`node_fits`] for expressions.
pub open spec fn nodes_fit(nodes: Seq<MirExprNode>, pointer_bytes: u32) -> bool
    decreases nodes, 0int,
{
    forall|i: int| 0 <= i < nodes.len() ==> node_fits(#[trigger] nodes[i], pointer_bytes)
}

/// [`node_fits`] for the values of fields.
pub open spec fn field_values_fit(fields: Seq<MirFieldValue>, pointer_bytes: u32) -> bool
    decreases fields, 0int,
{
    forall|i: int| 0 <= i < fields.len() ==> node_fits(#[trigger] fields[i].value, pointer_bytes)
}

/// [`node_fits`] for the operands of a machine-code statement.
pub open spec fn operands_fit(operands: Seq<MirAsmOperand>, pointer_bytes: u32) -> bool
    decreases operands, 0int,
{
    forall|i: int|
        0 <= i < operands.len() ==> operand_fits(#[trigger] operands[i], pointer_bytes)
}

/// [`node_fits`] for one operand.
pub open spec fn operand_fits(operand: MirAsmOperand, pointer_bytes: u32) -> bool
    decreases operand, 0int,
{
    match operand.kind {
        MirAsmOperandKind::Reg { value, .. } => node_fits(value, pointer_bytes) && measurable(
            value.ty,
            pointer_bytes,
        ),
        MirAsmOperandKind::Comp { .. } => true,
    }
}

/// Whether everything a place mentions can be laid out.
pub open spec fn place_fits(place: MirPlace, pointer_bytes: u32) -> bool
    decreases place, 0int,
{
    &&& match place.root {
        MirPlaceRoot::Local { ty, .. } => measurable(ty, pointer_bytes),
        MirPlaceRoot::Function(_) => true,
        MirPlaceRoot::Global { ty, .. } => measurable(ty, pointer_bytes),
        MirPlaceRoot::Expr(expr) => node_fits(*expr, pointer_bytes) && measurable(
            expr.ty,
            pointer_bytes,
        ),
    }
    &&& projections_fit(place.projections@, pointer_bytes)
}

/// [`place_fits`] for the steps of a place.
pub open spec fn projections_fit(projections: Seq<MirProjection>, pointer_bytes: u32) -> bool
    decreases projections, 0int,
{
    forall|i: int|
        0 <= i < projections.len() ==> projection_fits(#[trigger] projections[i], pointer_bytes)
}

/// [`place_fits`] for one step.
pub open spec fn projection_fits(projection: MirProjection, pointer_bytes: u32) -> bool
    decreases projection, 0int,
{
    match projection {
        MirProjection::FieldAccess { ty, .. } => measurable(ty, pointer_bytes),
        MirProjection::UnionField { ty } => measurable(ty, pointer_bytes),
        MirProjection::Deref { ty } => measurable(ty, pointer_bytes),
        MirProjection::Index { index_expr, item_type } => node_fits(*index_expr, pointer_bytes)
            && measurable(item_type, pointer_bytes),
        MirProjection::EnumTag { ty } => measurable(ty, pointer_bytes),
        MirProjection::EnumHeader { ty, .. } => measurable(ty, pointer_bytes),
        MirProjection::EnumDynamicField { ty, .. } => measurable(ty, pointer_bytes),
        MirProjection::EnumBody { ty, .. } => measurable(ty, pointer_bytes),
        MirProjection::SliceLength => true,
        MirProjection::SpecObjectPtr { .. } => true,
        MirProjection::SpecObjectVtable => true,
    }
}

/// Whether everything a function mentions can be laid out.
pub open spec fn function_fits(function: MirFunctionDef, pointer_bytes: u32) -> bool {
    &&& fn_measurable(*function.fn_type, pointer_bytes)
    &&& match function.body {
        MirFunctionBody::Normal(body) => body_fits(body, pointer_bytes),
        MirFunctionBody::Naked(code) => operands_fit(code.operands@, pointer_bytes),
    }
}

/// [`function_fits`] for functions.
pub open spec fn functions_fit(functions: Seq<MirFunctionDef>, pointer_bytes: u32) -> bool {
    forall|i: int|
        0 <= i < functions.len() ==> function_fits(#[trigger] functions[i], pointer_bytes)
}

/// Whether everything an item mentions can be laid out.
pub open spec fn item_fits(item: MirItem, pointer_bytes: u32) -> bool {
    match item {
        MirItem::Declaration(declaration) => {
            &&& measurable(declaration.ty, pointer_bytes)
            &&& match declaration.initial_value {
                Some(value) => const_fits(*value, declaration.ty, pointer_bytes),
                None => true,
            }
        },
        MirItem::ForeignBinding(_) => true,
        MirItem::ForeignFunction(function) => function_fits(function, pointer_bytes),
        MirItem::FunctionDefinition(function) => function_fits(function, pointer_bytes),
        MirItem::Struct(definition) => functions_fit(definition.functions@, pointer_bytes),
        MirItem::Enum(definition) => functions_fit(definition.functions@, pointer_bytes),
        MirItem::Union(definition) => functions_fit(definition.functions@, pointer_bytes),
    }
}

/// [`item_fits`] for items.
pub open spec fn items_fit(items: Seq<MirItem>, pointer_bytes: u32) -> bool {
    forall|i: int| 0 <= i < items.len() ==> item_fits(#[trigger] items[i], pointer_bytes)
}

/// [`item_fits`] for units.
pub open spec fn units_fit(units: Seq<EmissionUnit>, pointer_bytes: u32) -> bool {
    forall|i: int|
        0 <= i < units.len() ==> items_fit((#[trigger] units[i]).items@, pointer_bytes)
}

/// The functions an item defines, in order.
pub open spec fn defined_functions(item: MirItem) -> Seq<MirFunctionDef> {
    match item {
        MirItem::Declaration(_) => Seq::empty(),
        MirItem::ForeignBinding(_) => Seq::empty(),
        MirItem::ForeignFunction(function) => seq![function],
        MirItem::FunctionDefinition(function) => seq![function],
        MirItem::Struct(definition) => definition.functions@,
        MirItem::Enum(definition) => definition.functions@,
        MirItem::Union(definition) => definition.functions@,
    }
}

} // verus!
