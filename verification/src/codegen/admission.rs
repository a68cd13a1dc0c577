//! Whether what is to be lowered can be: the conditions lowering relies on,
//! decided.

use crate::codegen::abi::fn_measurable;
use crate::codegen::constants::{const_fits, elements_fit, fields_fit};
use crate::codegen::fits::{
    field_values_fit, function_fits, functions_fit, item_fits, items_fit, node_fits, nodes_fit,
    operand_fits, operands_fit, place_fits, projection_fits, projections_fit, units_fit,
};
use crate::codegen::frame::{block_fits, body_fits, types_of_frame};
use crate::codegen::mir::{
    EmissionUnit, MirAsmOperand, MirAsmOperandKind, MirBlock, MirBody, MirExpr, MirExprNode,
    MirFieldValue, MirFunctionBody, MirFunctionDef, MirItem, MirPlace, MirPlaceRoot, MirProjection,
    MirTerminator,
};
use crate::layout::{leaves_of, leaves_spec, measurable};
use crate::measure::{measure, measure_run};
use crate::resolved_type::{
    ConstValue, ResolvedField, ResolvedFunctionParam, ResolvedFunctionType, ResolvedType,
};
use vstd::prelude::*;

verus! {

/// Whether a type can be laid out.
pub fn is_measurable(ty: &ResolvedType, pointer_bytes: u32) -> (r: bool)
    ensures
        r == measurable(*ty, pointer_bytes),
{
    measure(ty, pointer_bytes).is_some()
}

/// Whether a type can be laid out and takes room.
fn has_leaves(ty: &ResolvedType, pointer_bytes: u32) -> (r: bool)
    ensures
        r == (measurable(*ty, pointer_bytes) && leaves_spec(*ty, pointer_bytes).len() > 0),
{
    is_measurable(ty, pointer_bytes) && leaves_of(ty, pointer_bytes).len() > 0
}

/// Whether a constant has the shape of its type.
pub fn const_is_fit(value: &ConstValue, ty: &ResolvedType, pointer_bytes: u32) -> (r: bool)
    ensures
        r == const_fits(*value, *ty, pointer_bytes),
    decreases ty, 0int,
{
    match value {
        ConstValue::Number(_) => has_leaves(ty, pointer_bytes),
        ConstValue::Bool(_) => true,
        ConstValue::Char(_) => true,
        ConstValue::Str(_) => true,
        ConstValue::Slice(elements) => match ty {
            ResolvedType::Slice { item, .. } => elements_are_fit(elements, item, pointer_bytes),
            _ => false,
        },
        ConstValue::Array(elements) => match ty {
            ResolvedType::SizedArray(item, _) => elements_are_fit(elements, item, pointer_bytes),
            _ => false,
        },
        ConstValue::Struct(fields) => match ty {
            ResolvedType::Struct(cell) => is_measurable(ty, pointer_bytes) && fields_are_fit(
                fields,
                &cell.fields,
                pointer_bytes,
            ),
            _ => false,
        },
        ConstValue::Enum { variant_index, dynamic_fields, fields, .. } => match ty {
            ResolvedType::Enum { cell, .. } => {
                if !is_measurable(ty, pointer_bytes) || *variant_index >= cell.variants.len() {
                    return false;
                }
                assert(crate::layout::parts_measurable(*ty, pointer_bytes));
                assert(measurable(cell.tag_type, pointer_bytes));
                let variant = &cell.variants[*variant_index];
                has_leaves(&cell.tag_type, pointer_bytes) && fields_are_fit(
                    &variant.header_values,
                    &cell.header,
                    pointer_bytes,
                ) && fields_are_fit(dynamic_fields, &cell.dynamic_fields, pointer_bytes)
                    && fields_are_fit(fields, &variant.fields, pointer_bytes)
            },
            _ => false,
        },
        ConstValue::Union { field_index, value: inner } => match ty {
            ResolvedType::Union(cell) => *field_index < cell.fields.len() && const_is_fit(
                inner,
                &cell.fields[*field_index].ty,
                pointer_bytes,
            ),
            _ => false,
        },
        ConstValue::Ref(inner) => match ty {
            ResolvedType::Pointer { pointee, .. } => match &**inner {
                ConstValue::Array(elements) => elements_are_fit(elements, pointee, pointer_bytes),
                other => is_measurable(pointee, pointer_bytes) && const_is_fit(
                    other,
                    pointee,
                    pointer_bytes,
                ),
            },
            _ => false,
        },
    }
}

fn elements_are_fit(values: &Vec<ConstValue>, item: &ResolvedType, pointer_bytes: u32) -> (r: bool)
    ensures
        r == elements_fit(values@, *item, pointer_bytes),
    decreases item, 1int,
{
    if !is_measurable(item, pointer_bytes) || values.len() as u64 > 0xffff_ffff {
        return false;
    }
    let mut i: usize = 0;
    while i < values.len()
        invariant
            i <= values@.len(),
            forall|k: int|
                0 <= k < i ==> const_fits(#[trigger] values@[k], *item, pointer_bytes),
        decreases values.len() - i,
    {
        if !const_is_fit(&values[i], item, pointer_bytes) {
            assert(!const_fits(values@[i as int], *item, pointer_bytes));
            return false;
        }
        i = i + 1;
    }
    true
}

fn fields_are_fit(values: &Vec<ConstValue>, fields: &Vec<ResolvedField>, pointer_bytes: u32) -> (r:
    bool)
    ensures
        r == fields_fit(values@, fields@, pointer_bytes),
    decreases fields, 0int,
{
    let mut i: usize = 0;
    while i < values.len() && i < fields.len()
        invariant
            i <= values@.len(),
            i <= fields@.len(),
            forall|k: int|
                0 <= k < i ==> const_fits(#[trigger] values@[k], fields@[k].ty, pointer_bytes),
        decreases values.len() - i,
    {
        if !const_is_fit(&values[i], &fields[i].ty, pointer_bytes) {
            assert(!const_fits(values@[i as int], fields@[i as int].ty, pointer_bytes));
            return false;
        }
        i = i + 1;
    }
    true
}

/// Whether a function's result and parameters can be laid out.
pub fn fn_is_measurable(fn_type: &ResolvedFunctionType, pointer_bytes: u32) -> (r: bool)
    ensures
        r == fn_measurable(*fn_type, pointer_bytes),
{
    if !is_measurable(&fn_type.return_type, pointer_bytes) {
        return false;
    }
    let params: &Vec<ResolvedFunctionParam> = &fn_type.params;
    let mut i: usize = 0;
    while i < params.len()
        invariant
            i <= params@.len(),
            params@ == fn_type.params@,
            forall|k: int|
                0 <= k < i ==> measurable(#[trigger] fn_type.params@[k].ty, pointer_bytes),
        decreases params.len() - i,
    {
        if !is_measurable(&params[i].ty, pointer_bytes) {
            assert(!measurable(fn_type.params@[i as int].ty, pointer_bytes));
            return false;
        }
        i = i + 1;
    }
    true
}

fn bound_is_fit(bound: &Option<Box<MirExprNode>>, pointer_bytes: u32) -> (r: bool)
    ensures
        r == match *bound {
            Some(expr) => node_fits(*expr, pointer_bytes),
            None => true,
        },
    decreases bound, 0int,
{
    match bound {
        Some(expr) => node_is_fit(expr, pointer_bytes),
        None => true,
    }
}

/// Whether everything an expression mentions can be laid out.
pub fn node_is_fit(node: &MirExprNode, pointer_bytes: u32) -> (r: bool)
    ensures
        r == node_fits(*node, pointer_bytes),
    decreases node, 0int,
{
    match &node.kind {
        MirExpr::Str(_) => true,
        MirExpr::ByteString(_) => true,
        MirExpr::Bool(_) => true,
        MirExpr::Char(_) => true,
        MirExpr::Const(value) => is_measurable(&node.ty, pointer_bytes) && const_is_fit(
            value,
            &node.ty,
            pointer_bytes,
        ),
        MirExpr::InlineAsm(code) => operands_are_fit(&code.operands, pointer_bytes),
        MirExpr::FunctionCall(call) => node_is_fit(&call.callee, pointer_bytes) && nodes_are_fit(
            &call.args,
            pointer_bytes,
        ) && fn_is_measurable(&call.fn_type, pointer_bytes),
        MirExpr::SpecCoerce(coerce) => node_is_fit(&coerce.base, pointer_bytes),
        MirExpr::DynamicCall(call) => place_is_fit(&call.base, pointer_bytes) && nodes_are_fit(
            &call.args,
            pointer_bytes,
        ) && fn_is_measurable(&call.fn_type, pointer_bytes),
        MirExpr::Number(_) => is_measurable(&node.ty, pointer_bytes),
        MirExpr::Sizeof(ty) => is_measurable(ty, pointer_bytes),
        MirExpr::Place(place) => place_is_fit(place, pointer_bytes),
        MirExpr::Assignment(assignment) => place_is_fit(&assignment.target, pointer_bytes)
            && node_is_fit(&assignment.value, pointer_bytes),
        MirExpr::AddressOf(place) => place_is_fit(place, pointer_bytes),
        MirExpr::Negate(base) => node_is_fit(base, pointer_bytes),
        MirExpr::BitNot(base) => node_is_fit(base, pointer_bytes),
        MirExpr::BinaryOp(binary) => node_is_fit(&binary.left, pointer_bytes) && node_is_fit(
            &binary.right,
            pointer_bytes,
        ) && is_measurable(&node.ty, pointer_bytes),
        MirExpr::ArrayLiteral(elements) => nodes_are_fit(elements, pointer_bytes),
        MirExpr::StructLiteral(fields) => field_values_are_fit(fields, pointer_bytes),
        MirExpr::EnumConstruct(construct) => {
            if !is_measurable(&node.ty, pointer_bytes) || !field_values_are_fit(
                &construct.fields,
                pointer_bytes,
            ) {
                return false;
            }
            match &node.ty {
                ResolvedType::Enum { cell, .. } => {
                    assert(crate::layout::parts_measurable(node.ty, pointer_bytes));
                    assert(measurable(cell.tag_type, pointer_bytes));
                    let index: usize = construct.variant_index;
                    has_leaves(&cell.tag_type, pointer_bytes) && (index >= cell.variants.len()
                        || fields_are_fit(
                        &cell.variants[index].header_values,
                        &cell.header,
                        pointer_bytes,
                    ))
                },
                _ => true,
            }
        },
        MirExpr::UnionConstruct(field) => is_measurable(&node.ty, pointer_bytes) && node_is_fit(
            &field.value,
            pointer_bytes,
        ),
        MirExpr::Slice(slice) => place_is_fit(&slice.base, pointer_bytes) && is_measurable(
            &slice.item_type,
            pointer_bytes,
        ) && bound_is_fit(&slice.start, pointer_bytes) && bound_is_fit(&slice.end, pointer_bytes),
        MirExpr::Cast(cast) => node_is_fit(&cast.base, pointer_bytes) && is_measurable(
            &cast.target_type,
            pointer_bytes,
        ),
    }
}

fn operand_is_fit(operand: &MirAsmOperand, pointer_bytes: u32) -> (r: bool)
    ensures
        r == operand_fits(*operand, pointer_bytes),
    decreases operand, 0int,
{
    match &operand.kind {
        MirAsmOperandKind::Reg { value, .. } => node_is_fit(value, pointer_bytes)
            && is_measurable(&value.ty, pointer_bytes),
        MirAsmOperandKind::Comp { .. } => true,
    }
}

fn projection_is_fit(projection: &MirProjection, pointer_bytes: u32) -> (r: bool)
    ensures
        r == projection_fits(*projection, pointer_bytes),
    decreases projection, 0int,
{
    match projection {
        MirProjection::FieldAccess { ty, .. } => is_measurable(ty, pointer_bytes),
        MirProjection::UnionField { ty } => is_measurable(ty, pointer_bytes),
        MirProjection::Deref { ty } => is_measurable(ty, pointer_bytes),
        MirProjection::Index { index_expr, item_type } => node_is_fit(index_expr, pointer_bytes)
            && is_measurable(item_type, pointer_bytes),
        MirProjection::EnumTag { ty } => is_measurable(ty, pointer_bytes),
        MirProjection::EnumHeader { ty, .. } => is_measurable(ty, pointer_bytes),
        MirProjection::EnumDynamicField { ty, .. } => is_measurable(ty, pointer_bytes),
        MirProjection::EnumBody { ty, .. } => is_measurable(ty, pointer_bytes),
        MirProjection::SliceLength => true,
        MirProjection::SpecObjectPtr { .. } => true,
        MirProjection::SpecObjectVtable => true,
    }
}

/// Whether everything a place mentions can be laid out.
pub fn place_is_fit(place: &MirPlace, pointer_bytes: u32) -> (r: bool)
    ensures
        r == place_fits(*place, pointer_bytes),
    decreases place, 0int,
{
    let root: bool = match &place.root {
        MirPlaceRoot::Local { ty, .. } => is_measurable(ty, pointer_bytes),
        MirPlaceRoot::Function(_) => true,
        MirPlaceRoot::Global { ty, .. } => is_measurable(ty, pointer_bytes),
        MirPlaceRoot::Expr(expr) => node_is_fit(expr, pointer_bytes) && is_measurable(
            &expr.ty,
            pointer_bytes,
        ),
    };
    root && projections_are_fit(&place.projections, pointer_bytes)
}

fn nodes_are_fit(nodes: &Vec<MirExprNode>, pointer_bytes: u32) -> (r: bool)
    ensures
        r == nodes_fit(nodes@, pointer_bytes),
    decreases nodes, 0int,
{
    let mut i: usize = 0;
    while i < nodes.len()
        invariant
            i <= nodes@.len(),
            forall|k: int| 0 <= k < i ==> node_fits(#[trigger] nodes@[k], pointer_bytes),
        decreases nodes.len() - i,
    {
        if !node_is_fit(&nodes[i], pointer_bytes) {
            assert(!node_fits(nodes@[i as int], pointer_bytes));
            return false;
        }
        i = i + 1;
    }
    true
}

fn field_values_are_fit(fields: &Vec<MirFieldValue>, pointer_bytes: u32) -> (r: bool)
    ensures
        r == field_values_fit(fields@, pointer_bytes),
    decreases fields, 0int,
{
    let mut i: usize = 0;
    while i < fields.len()
        invariant
            i <= fields@.len(),
            forall|k: int| 0 <= k < i ==> node_fits(#[trigger] fields@[k].value, pointer_bytes),
        decreases fields.len() - i,
    {
        if !node_is_fit(&fields[i].value, pointer_bytes) {
            assert(!node_fits(fields@[i as int].value, pointer_bytes));
            return false;
        }
        i = i + 1;
    }
    true
}

fn operands_are_fit(operands: &Vec<MirAsmOperand>, pointer_bytes: u32) -> (r: bool)
    ensures
        r == operands_fit(operands@, pointer_bytes),
    decreases operands, 0int,
{
    let mut i: usize = 0;
    while i < operands.len()
        invariant
            i <= operands@.len(),
            forall|k: int| 0 <= k < i ==> operand_fits(#[trigger] operands@[k], pointer_bytes),
        decreases operands.len() - i,
    {
        if !operand_is_fit(&operands[i], pointer_bytes) {
            assert(!operand_fits(operands@[i as int], pointer_bytes));
            return false;
        }
        i = i + 1;
    }
    true
}

fn projections_are_fit(projections: &Vec<MirProjection>, pointer_bytes: u32) -> (r: bool)
    ensures
        r == projections_fit(projections@, pointer_bytes),
    decreases projections, 0int,
{
    let mut i: usize = 0;
    while i < projections.len()
        invariant
            i <= projections@.len(),
            forall|k: int| 0 <= k < i ==> projection_fits(#[trigger] projections@[k], pointer_bytes),
        decreases projections.len() - i,
    {
        if !projection_is_fit(&projections[i], pointer_bytes) {
            assert(!projection_fits(projections@[i as int], pointer_bytes));
            return false;
        }
        i = i + 1;
    }
    true
}

fn block_is_fit(block: &MirBlock, pointer_bytes: u32) -> (r: bool)
    ensures
        r == block_fits(*block, pointer_bytes),
{
    if !nodes_are_fit(&block.statements, pointer_bytes) {
        return false;
    }
    match &block.terminator {
        MirTerminator::Branch { condition, .. } => node_is_fit(condition, pointer_bytes),
        MirTerminator::Return(Some(value)) => node_is_fit(value, pointer_bytes),
        _ => true,
    }
}

/// Whether everything a body mentions can be laid out.
pub fn body_is_fit(body: &MirBody, pointer_bytes: u32) -> (r: bool)
    ensures
        r == body_fits(*body, pointer_bytes),
{
    let mut i: usize = 0;
    while i < body.locals.len()
        invariant
            i <= body.locals@.len(),
            forall|k: int|
                0 <= k < i ==> measurable(#[trigger] body.locals@[k].ty, pointer_bytes),
        decreases body.locals.len() - i,
    {
        if !is_measurable(&body.locals[i].ty, pointer_bytes) {
            assert(!measurable(body.locals@[i as int].ty, pointer_bytes));
            return false;
        }
        i = i + 1;
    }
    if body.arg_count <= body.locals.len() {
        let types: Vec<ResolvedType> = types_of_frame(body);
        assert forall|k: int| 0 <= k < types@.len() implies measurable(
            #[trigger] types@[k],
            pointer_bytes,
        ) by {
            assert(measurable(body.locals@[body.arg_count + k].ty, pointer_bytes));
        }
        assert(crate::layout::types_measurable(types@, pointer_bytes));
        if measure_run(&types, pointer_bytes).is_none() {
            return false;
        }
    }
    let mut k: usize = 0;
    while k < body.blocks.len()
        invariant
            k <= body.blocks@.len(),
            forall|j: int|
                0 <= j < k ==> block_fits(#[trigger] body.blocks@[j], pointer_bytes),
        decreases body.blocks.len() - k,
    {
        if !block_is_fit(&body.blocks[k], pointer_bytes) {
            assert(!block_fits(body.blocks@[k as int], pointer_bytes));
            return false;
        }
        k = k + 1;
    }
    true
}

/// Whether everything a function mentions can be laid out.
pub fn function_is_fit(function: &MirFunctionDef, pointer_bytes: u32) -> (r: bool)
    ensures
        r == function_fits(*function, pointer_bytes),
{
    fn_is_measurable(&function.fn_type, pointer_bytes) && match &function.body {
        MirFunctionBody::Normal(body) => body_is_fit(body, pointer_bytes),
        MirFunctionBody::Naked(code) => operands_are_fit(&code.operands, pointer_bytes),
    }
}

fn functions_are_fit(functions: &Vec<MirFunctionDef>, pointer_bytes: u32) -> (r: bool)
    ensures
        r == functions_fit(functions@, pointer_bytes),
{
    let mut i: usize = 0;
    while i < functions.len()
        invariant
            i <= functions@.len(),
            forall|k: int| 0 <= k < i ==> function_fits(#[trigger] functions@[k], pointer_bytes),
        decreases functions.len() - i,
    {
        if !function_is_fit(&functions[i], pointer_bytes) {
            assert(!function_fits(functions@[i as int], pointer_bytes));
            return false;
        }
        i = i + 1;
    }
    true
}

/// Whether everything an item mentions can be laid out.
pub fn item_is_fit(item: &MirItem, pointer_bytes: u32) -> (r: bool)
    ensures
        r == item_fits(*item, pointer_bytes),
{
    match item {
        MirItem::Declaration(declaration) => is_measurable(&declaration.ty, pointer_bytes)
            && match &declaration.initial_value {
            Some(value) => const_is_fit(value, &declaration.ty, pointer_bytes),
            None => true,
        },
        MirItem::ForeignBinding(_) => true,
        MirItem::ForeignFunction(function) => function_is_fit(function, pointer_bytes),
        MirItem::FunctionDefinition(function) => function_is_fit(function, pointer_bytes),
        MirItem::Struct(definition) => functions_are_fit(&definition.functions, pointer_bytes),
        MirItem::Enum(definition) => functions_are_fit(&definition.functions, pointer_bytes),
        MirItem::Union(definition) => functions_are_fit(&definition.functions, pointer_bytes),
    }
}

/// Whether everything items mention can be laid out.
pub fn items_are_fit(items: &Vec<MirItem>, pointer_bytes: u32) -> (r: bool)
    ensures
        r == items_fit(items@, pointer_bytes),
{
    let mut i: usize = 0;
    while i < items.len()
        invariant
            i <= items@.len(),
            forall|k: int| 0 <= k < i ==> item_fits(#[trigger] items@[k], pointer_bytes),
        decreases items.len() - i,
    {
        if !item_is_fit(&items[i], pointer_bytes) {
            assert(!item_fits(items@[i as int], pointer_bytes));
            return false;
        }
        i = i + 1;
    }
    true
}

/// Whether everything units mention can be laid out.
pub fn units_are_fit(units: &Vec<EmissionUnit>, pointer_bytes: u32) -> (r: bool)
    ensures
        r == units_fit(units@, pointer_bytes),
{
    let mut i: usize = 0;
    while i < units.len()
        invariant
            i <= units@.len(),
            forall|k: int| 0 <= k < i ==> items_fit((#[trigger] units@[k]).items@, pointer_bytes),
        decreases units.len() - i,
    {
        if !items_are_fit(&units[i].items, pointer_bytes) {
            assert(!items_fit((units@[i as int]).items@, pointer_bytes));
            return false;
        }
        i = i + 1;
    }
    true
}

} // verus!
