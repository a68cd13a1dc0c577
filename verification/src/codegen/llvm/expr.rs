//! Expressions, and the machine-code statements among them.

use crate::codegen::abi::fn_measurable;
use crate::codegen::constants::{
    as_nats, body_offsets, dynamic_offsets, fields_fit, moved, offsets_of_body, offsets_of_dynamic,
};
use crate::codegen::fits::{
    field_values_fit, node_fits, nodes_fit, operand_fits, operands_fit, place_fits,
};
use crate::codegen::inline_asm::{
    class_of, clobber_texts, clone_resolution, constraint_string, named_views, reg_text, reg_texts,
    register_class, render_template, rendered_template, resolution_views, status_of, RegConstraint,
    Resolution, ResolutionView,
};
use crate::codegen::llvm::{
    addressed, all_stored, const_int, copy_values, index_ir, index_type, int_value, leaf_type,
    llvm_type, loaded_aligned, one_value, slot_of, stack_align, two_values, Frame, FrameView,
    Lowered, Lowering, LoweringView, Op, PlaceStorage, SlotUse, Statement, StatementView, Storage,
    Value, ValueType,
};
use crate::codegen::llvm::constant::{
    bytes_emitted, const_emitted, const_flag, flag_value, number_emitted, prefix_stored,
    scalar_const, zero_filled,
};
use crate::codegen::llvm::place::{place_lowered, place_resolved, pointer_in};
use crate::codegen::llvm::scalar::{
    all_promoted, called, converted, first_of, first_value, operated, passed, range_end,
    reinterpreted, sequence_parts, sliced, table_address, yields, yields_one,
};
use crate::codegen::mir::{
    MirAsmOperand, MirAsmOperandKind, MirAssignment, MirBinaryOp, MirCast, MirDynamicCall,
    MirEnumConstruct, MirExpr, MirExprNode, MirFieldValue, MirFunctionCall, MirInlineAsm, MirSlice,
    MirSpecCoerce,
};
use crate::codegen::shared::{is_float, kind_of_operand, operand_kind};
use crate::layout::{
    chunks, enum_measurable, leaves_of, leaves_spec, measurable, named_payload_bytes,
    named_payload_offset, payload_chunks, payload_of, payload_width, size_of, total_bytes, Leaf,
};
use crate::order::code_point;
use crate::resolved_type::{CallingConvention, NumericKind, ResolvedFunctionType, ResolvedType};
use crate::syntax::Ident;
use crate::target::Arch;
use vstd::prelude::*;

verus! {

/// Whether an argument is promoted: one beyond the parameters of a variadic
/// function that follows C. Other variadic conventions take arguments as they
/// are.
pub open spec fn is_promoted(fn_type: ResolvedFunctionType, index: int) -> bool {
    fn_type.is_variadic && fn_type.calling_convention is C && index >= fn_type.params@.len()
}

/// The arguments of a call, flattened, as far as the first `n`.
pub open spec fn args_lowered(
    frame: FrameView,
    args: Seq<MirExprNode>,
    fn_type: ResolvedFunctionType,
    s: LoweringView,
    n: nat,
) -> Option<Lowered>
    decreases args, 0int, n,
{
    if n == 0 || n > args.len() {
        Some(Lowered { state: s, values: Seq::empty() })
    } else {
        match args_lowered(frame, args, fn_type, s, (n - 1) as nat) {
            Some(before) => match expr_lowered(frame, args[n - 1], before.state) {
                Some(arg) => match (if is_promoted(fn_type, n - 1) {
                    all_promoted(
                        arg.state,
                        arg.values,
                        args[n - 1].ty,
                        (frame.pb() * 8) as u32,
                        arg.values.len(),
                    )
                } else {
                    Some(arg)
                }) {
                    Some(last) => Some(Lowered { values: before.values + last.values, ..last }),
                    None => None,
                },
                None => None,
            },
            None => None,
        }
    }
}

/// The values of the first `n` expressions, one after the other.
pub open spec fn nodes_lowered(frame: FrameView, nodes: Seq<MirExprNode>, s: LoweringView, n: nat) -> Option<
    Lowered,
>
    decreases nodes, 0int, n,
{
    if n == 0 || n > nodes.len() {
        Some(Lowered { state: s, values: Seq::empty() })
    } else {
        match nodes_lowered(frame, nodes, s, (n - 1) as nat) {
            Some(before) => match expr_lowered(frame, nodes[n - 1], before.state) {
                Some(last) => Some(Lowered { values: before.values + last.values, ..last }),
                None => None,
            },
            None => None,
        }
    }
}

/// The values given to the fields of a struct, in the order in which they are
/// written: by field, as far as the first `n`.
pub open spec fn fields_gathered(
    frame: FrameView,
    fields: Seq<MirFieldValue>,
    count: nat,
    s: LoweringView,
    n: nat,
) -> Option<(LoweringView, Seq<Option<Seq<Value>>>)>
    decreases fields, 0int, n,
{
    if n == 0 || n > fields.len() {
        Some((s, Seq::new(count, |i: int| None)))
    } else {
        match fields_gathered(frame, fields, count, s, (n - 1) as nat) {
            Some((before, per_field)) => match expr_lowered(
                frame,
                fields[n - 1].value,
                before,
            ) {
                Some(last) => if fields[n - 1].field_index < count {
                    Some(
                        (
                            last.state,
                            per_field.update(
                                fields[n - 1].field_index as int,
                                Some(last.values),
                            ),
                        ),
                    )
                } else {
                    None
                },
                None => None,
            },
            None => None,
        }
    }
}

/// The values of the first `n` fields, one after the other, where each has
/// been given some.
pub open spec fn flattened(per_field: Seq<Option<Seq<Value>>>, n: nat) -> Option<Seq<Value>>
    decreases n,
{
    if n == 0 {
        Some(Seq::empty())
    } else {
        match (flattened(per_field, (n - 1) as nat), per_field[n - 1]) {
            (Some(before), Some(last)) => Some(before + last),
            _ => None,
        }
    }
}

/// The values of a variant's fields, each stored where its field lies in a
/// slot, in the order in which they are written, as far as the first `n`.
pub open spec fn fields_placed(
    frame: FrameView,
    fields: Seq<MirFieldValue>,
    offsets: Seq<nat>,
    slot: Value,
    s: LoweringView,
    n: nat,
) -> Option<LoweringView>
    decreases fields, 0int, n,
{
    if n == 0 || n > fields.len() {
        Some(s)
    } else {
        match fields_placed(frame, fields, offsets, slot, s, (n - 1) as nat) {
            Some(before) => if fields[n - 1].field_index < offsets.len() {
                match expr_lowered(frame, fields[n - 1].value, before) {
                    Some(last) => match moved(0, offsets[fields[n - 1].field_index as int]) {
                        Some(offset) => all_stored(
                            last.state,
                            slot,
                            offset,
                            last.values,
                            1,
                            frame.pb(),
                        ),
                        None => None,
                    },
                    None => None,
                }
            } else {
                None
            },
            None => None,
        }
    }
}

/// Where a slice starts: at an expression's value, or at zero.
pub open spec fn bound_lowered(
    frame: FrameView,
    bound: Option<Box<MirExprNode>>,
    s: LoweringView,
) -> Option<Lowered>
    decreases bound, 0int, 0nat,
{
    match bound {
        Some(expr) => first_of(expr_lowered(frame, *expr, s)),
        None => Some(s.having(int_value(ValueType::I32, 0))),
    }
}

/// Where a slice ends: at an expression's value, behind it where the range is
/// inclusive, or at the length.
pub open spec fn end_lowered(
    frame: FrameView,
    bound: Option<Box<MirExprNode>>,
    inclusive: bool,
    length: Value,
    s: LoweringView,
) -> Option<Lowered>
    decreases bound, 0int, 0nat,
{
    match bound {
        Some(expr) => match first_of(expr_lowered(frame, *expr, s)) {
            Some(end) => range_end(end.state, end.values[0], inclusive),
            None => None,
        },
        None => Some(s.having(length)),
    }
}

/// A value of an enum's variant: the tag and header of the variant, a cleared
/// payload, and the fields, put together in a slot and loaded from it.
pub open spec fn constructed(
    frame: FrameView,
    construct: MirEnumConstruct,
    ty: ResolvedType,
    s: LoweringView,
) -> Option<Lowered>
    decreases construct, 0int, 0nat,
{
    let pb = frame.pb();
    match ty {
        ResolvedType::Enum { cell, .. } => if construct.variant_index < cell.variants@.len() {
            let variant = cell.variants@[construct.variant_index as int];
            let slot = s.next_slot();
            let cleared = chunks(payload_width(*cell, pb));
            match prefix_stored(
                s.with_slot(slot_of(size_of(ty, pb), stack_align(ty), SlotUse::Enum)),
                variant.tag,
                variant.header_values@,
                *cell,
                slot,
                pb,
            ) {
                Some(headed) => match zero_filled(
                    headed,
                    cleared,
                    slot,
                    payload_of(*cell, pb) as u32,
                    pb,
                    cleared.len(),
                ) {
                    Some(empty) => match fields_placed(
                        frame,
                        construct.fields@,
                        dynamic_offsets(*cell, pb) + body_offsets(
                            *cell,
                            construct.variant_index as int,
                            pb,
                        ),
                        slot,
                        empty,
                        construct.fields@.len(),
                    ) {
                        Some(whole) => loaded_aligned(
                            whole,
                            Storage::Memory { base: slot, offset: 0 },
                            ty,
                            pb,
                        ),
                        None => None,
                    },
                    None => None,
                },
                None => None,
            }
        } else {
            None
        },
        _ => None,
    }
}

/// The values of a call. What is called must be an address.
pub open spec fn call_lowered(frame: FrameView, call: MirFunctionCall, s: LoweringView) -> Option<
    Lowered,
>
    decreases call, 0int, 0nat,
{
    match crate::codegen::llvm::place::first_pointer(expr_lowered(frame, *call.callee, s)) {
        Some(callee) => match args_lowered(
            frame,
            call.args@,
            *call.fn_type,
            callee.state,
            call.args@.len(),
        ) {
            Some(args) => called(
                args.state,
                callee.values[0],
                call.fn_type,
                Some(call.fn_type.calling_convention),
                args.values,
                frame.pb(),
            ),
            None => None,
        },
        None => None,
    }
}

/// A spec object: a data pointer and the table of its methods.
pub open spec fn coerce_lowered(
    frame: FrameView,
    coerce: MirSpecCoerce,
    ty: ResolvedType,
    s: LoweringView,
) -> Option<Lowered>
    decreases coerce, 0int, 0nat,
{
    match (ty, coerce.base.ty) {
        (ResolvedType::SpecObject { .. }, ResolvedType::Pointer { pointee, .. }) => {
            match crate::codegen::llvm::place::first_pointer(
                expr_lowered(frame, *coerce.base, s),
            ) {
                Some(data) => match table_address(frame, data.state, *pointee, ty, coerce.slots) {
                    Some(table) => Some(
                        Lowered { values: seq![data.values[0], table.values[0]], ..table },
                    ),
                    None => None,
                },
                None => None,
            }
        },
        _ => None,
    }
}

/// The values of a call through a spec object: the function is loaded from the
/// object's table, and the data pointer goes in front of the arguments.
pub open spec fn dynamic_lowered(frame: FrameView, call: MirDynamicCall, s: LoweringView) -> Option<
    Lowered,
>
    decreases call, 0int, 0nat,
{
    let pb = frame.pb();
    match place_lowered(frame, call.base, s) {
        Some(base) => match moved(0, (call.slot_index * pb) as nat) {
            Some(offset) => if base.values.len() >= 2 && base.values[0].ty is Ptr
                && base.values[1].ty is Ptr {
                let entry = base.state.along(base.values[1], offset, pb);
                let function = entry.state.define(
                    Op::Load { pointer: entry.values[0], align: pb },
                    ValueType::Ptr,
                );
                match nodes_lowered(frame, call.args@, function.state, call.args@.len()) {
                    Some(args) => called(
                        args.state,
                        function.values[0],
                        call.fn_type,
                        None,
                        seq![base.values[0]] + args.values,
                        pb,
                    ),
                    None => None,
                }
            } else {
                None
            },
            None => None,
        },
        None => None,
    }
}

/// A result where a value of a type is wanted; a type without leaves wants
/// nothing.
pub open spec fn fitted(
    lowered: Option<Lowered>,
    ty: ResolvedType,
    pointer_bytes: u32,
) -> Option<Lowered> {
    match lowered {
        Some(found) => if leaves_spec(ty, pointer_bytes).len() > 0 {
            reinterpreted(
                found.state,
                found.values[0],
                leaf_type(leaves_spec(ty, pointer_bytes)[0], pointer_bytes),
                pointer_bytes,
            )
        } else {
            Some(found)
        },
        None => None,
    }
}

/// The values of an operator's result. Where the result is an address it is
/// made one again.
pub open spec fn binary_lowered(
    frame: FrameView,
    binary: MirBinaryOp,
    ty: ResolvedType,
    s: LoweringView,
) -> Option<Lowered>
    decreases binary, 0int, 0nat,
{
    match operand_kind(binary.left.ty, (frame.pb() * 8) as u32) {
        Some(kind) => match first_of(expr_lowered(frame, *binary.left, s)) {
            Some(left) => match first_of(expr_lowered(frame, *binary.right, left.state)) {
                Some(right) => fitted(
                    operated(
                        right.state,
                        binary.op,
                        kind,
                        left.values[0],
                        right.values[0],
                        frame.pb(),
                    ),
                    ty,
                    frame.pb(),
                ),
                None => None,
            },
            None => None,
        },
        None => None,
    }
}

/// The values of a struct, in the order of its fields.
pub open spec fn struct_lowered(
    frame: FrameView,
    fields: Seq<MirFieldValue>,
    ty: ResolvedType,
    s: LoweringView,
) -> Option<Lowered>
    decreases fields, 1int, 0nat,
{
    match ty {
        ResolvedType::Struct(cell) => match fields_gathered(
            frame,
            fields,
            cell.fields@.len(),
            s,
            fields.len(),
        ) {
            Some((state, per_field)) => match flattened(per_field, per_field.len()) {
                Some(values) => Some(Lowered { state, values }),
                None => None,
            },
            None => None,
        },
        _ => None,
    }
}

/// The values of a union: its cleared storage with one field stored over it.
pub open spec fn union_lowered(
    frame: FrameView,
    field: MirFieldValue,
    ty: ResolvedType,
    s: LoweringView,
) -> Option<Lowered>
    decreases field, 0int, 0nat,
{
    let pb = frame.pb();
    let slot = s.next_slot();
    let leaves = leaves_spec(ty, pb);
    match zero_filled(
        s.with_slot(slot_of(size_of(ty, pb), 16, SlotUse::Union)),
        leaves,
        slot,
        0,
        pb,
        leaves.len(),
    ) {
        Some(empty) => match expr_lowered(frame, field.value, empty) {
            Some(value) => match all_stored(value.state, slot, 0, value.values, 1, pb) {
                Some(whole) => loaded_aligned(
                    whole,
                    Storage::Memory { base: slot, offset: 0 },
                    ty,
                    pb,
                ),
                None => None,
            },
            None => None,
        },
        None => None,
    }
}

/// Part of the sequence at a place, as its data pointer and its length.
pub open spec fn slice_of(frame: FrameView, slice: MirSlice, parts: Lowered) -> Option<Lowered>
    decreases slice, 0int, 0nat,
{
    match bound_lowered(frame, slice.start, parts.state) {
        Some(start) => match end_lowered(
            frame,
            slice.end,
            slice.inclusive,
            parts.values[1],
            start.state,
        ) {
            Some(end) => sliced(
                end.state,
                parts.values[0],
                start.values[0],
                end.values[0],
                size_of(slice.item_type, frame.pb()),
                frame.pb(),
            ),
            None => None,
        },
        None => None,
    }
}

/// The data pointer and the length of a slice.
pub open spec fn slice_lowered(frame: FrameView, slice: MirSlice, s: LoweringView) -> Option<Lowered>
    decreases slice, 1int, 0nat,
{
    match place_resolved(frame, slice.base, s) {
        Some(base) => match sequence_parts(base, frame.pb()) {
            Some(parts) => slice_of(frame, slice, parts),
            None => None,
        },
        None => None,
    }
}

/// The values of a cast's result.
pub open spec fn cast_lowered(frame: FrameView, cast: MirCast, s: LoweringView) -> Option<Lowered>
    decreases cast, 0int, 0nat,
{
    let leaves = leaves_spec(cast.target_type, frame.pb());
    match expr_lowered(frame, *cast.base, s) {
        Some(base) => if leaves.len() > 0 {
            converted(base, cast.kind, cast.base.ty, leaves, frame.pb())
        } else {
            None
        },
        None => None,
    }
}

/// A value stored into a place, which must be in memory.
pub open spec fn assigned(frame: FrameView, assignment: MirAssignment, s: LoweringView) -> Option<
    Lowered,
>
    decreases assignment, 0int, 0nat,
{
    match expr_lowered(frame, *assignment.value, s) {
        Some(value) => match place_resolved(frame, assignment.target, value.state) {
            Some(target) => match target.storage {
                Storage::Memory { base, offset } => match all_stored(
                    target.state,
                    base,
                    offset,
                    value.values,
                    assignment.target.align,
                    frame.pb(),
                ) {
                    Some(state) => Some(Lowered { state, values: value.values }),
                    None => None,
                },
                Storage::Values(_) => None,
            },
            None => None,
        },
        None => None,
    }
}

/// The operands of a machine-code statement, as far as they have been lowered:
/// the values in registers, what those are constrained to, and what the
/// statement's bindings resolve to.
pub struct Operands {
    pub state: LoweringView,
    pub args: Seq<Value>,
    pub texts: Seq<Seq<char>>,
    pub positional: Seq<ResolutionView>,
    pub named: Seq<(Seq<char>, ResolutionView)>,
}

impl Operands {
    /// One binding more, by position and, where it has a name, by name.
    pub open spec fn bind(self, name: Option<Ident>, resolution: ResolutionView) -> Operands {
        Operands {
            positional: self.positional.push(resolution),
            named: match name {
                Some(name) => self.named.push((name@, resolution)),
                None => self.named,
            },
            ..self
        }
    }
}

/// What a register operand is constrained to.
pub open spec fn operand_text(arch: Arch, leaf: Leaf, physical: Option<String>) -> Seq<char> {
    match physical {
        Some(physical) => "+&{"@ + physical@ + "}"@,
        None => "+&"@ + class_of(arch, leaf),
    }
}

/// One operand more.
pub open spec fn operand_lowered(frame: FrameView, operand: MirAsmOperand, o: Operands) -> Option<
    Operands,
>
    decreases operand, 0int, 0nat,
{
    match operand.kind {
        MirAsmOperandKind::Reg { value, physical } => {
            let leaves = leaves_spec(value.ty, frame.pb());
            match first_of(expr_lowered(frame, value, o.state)) {
                Some(found) => if leaves.len() > 0 {
                    Some(
                        (Operands {
                            state: found.state,
                            args: o.args.push(found.values[0]),
                            texts: o.texts.push(
                                operand_text(frame.target.arch, leaves[0], physical),
                            ),
                            ..o
                        }).bind(
                            operand.binding_name,
                            ResolutionView::Reg(o.args.len() as usize),
                        ),
                    )
                } else {
                    None
                },
                None => None,
            }
        },
        MirAsmOperandKind::Comp { text } => Some(
            o.bind(operand.binding_name, ResolutionView::CompText(text@)),
        ),
    }
}

/// The first `n` operands, in order.
pub open spec fn operands_lowered(
    frame: FrameView,
    operands: Seq<MirAsmOperand>,
    s: LoweringView,
    n: nat,
) -> Option<Operands>
    decreases operands, 0int, n,
{
    if n == 0 || n > operands.len() {
        Some(
            Operands {
                state: s,
                args: Seq::empty(),
                texts: Seq::empty(),
                positional: Seq::empty(),
                named: Seq::empty(),
            },
        )
    } else {
        match operands_lowered(frame, operands, s, (n - 1) as nat) {
            Some(before) => operand_lowered(frame, operands[n - 1], before),
            None => None,
        }
    }
}

/// The constraints of a statement: its operands, its declared clobbers, the
/// status registers, and memory.
pub open spec fn constraints_from(
    texts: Seq<Seq<char>>,
    clobbers: Seq<String>,
    arch: Arch,
) -> Seq<char> {
    crate::text::joined(
        (texts + clobber_texts(clobbers) + status_of(arch)).push("~{memory}"@),
        ","@,
    )
}

/// A machine-code statement, run with its operands in registers. What it
/// leaves in them is discarded.
pub open spec fn code_lowered(frame: FrameView, code: MirInlineAsm, s: LoweringView) -> Option<
    LoweringView,
>
    decreases code, 0int, 0nat,
{
    let arch = frame.target.arch;
    match operands_lowered(frame, code.operands@, s, code.operands@.len()) {
        Some(o) => match rendered_template(code.template@, o.positional, o.named) {
            Some(text) => {
                let ready = passed(o.state, o.args, o.args.len());
                let statement = StatementView {
                    text,
                    constraints: constraints_from(o.texts, code.clobbers@, arch),
                    intel: arch is X86_64 || arch is X86,
                };
                Some(
                    (LoweringView {
                        statements: ready.statements.push(statement),
                        ..ready
                    }).push(
                        Op::InlineCode {
                            statement: ready.statements.len() as usize,
                            count: o.args.len() as usize,
                        },
                        None,
                    ),
                )
            },
            None => None,
        },
        None => None,
    }
}

/// An expression's values. Nothing where the expression is not one that a
/// checked function holds.
pub open spec fn expr_lowered(frame: FrameView, node: MirExprNode, s: LoweringView) -> Option<
    Lowered,
>
    decreases node, 0int, 0nat,
{
    let pb = frame.pb();
    match node.kind {
        MirExpr::Str(text) => bytes_emitted(s, text@),
        MirExpr::ByteString(text) => bytes_emitted(s, text@),
        MirExpr::Const(value) => const_emitted(s, *value, node.ty, pb),
        MirExpr::InlineAsm(code) => match code_lowered(frame, code, s) {
            Some(state) => Some(Lowered { state, values: Seq::empty() }),
            None => None,
        },
        MirExpr::FunctionCall(call) => call_lowered(frame, call, s),
        MirExpr::SpecCoerce(coerce) => coerce_lowered(frame, coerce, node.ty, s),
        MirExpr::DynamicCall(call) => dynamic_lowered(frame, call, s),
        MirExpr::Number(number) => if leaves_spec(node.ty, pb).len() > 0 {
            number_emitted(s, number, leaves_spec(node.ty, pb)[0], pb)
        } else {
            None
        },
        MirExpr::Bool(flag) => Some(s.having(flag_value(flag))),
        MirExpr::Sizeof(ty) => Some(s.having(int_value(index_ir(pb), size_of(ty, pb) as u64))),
        MirExpr::Char(c) => Some(s.having(int_value(ValueType::I32, c as u64))),
        MirExpr::Place(place) => place_lowered(frame, place, s),
        MirExpr::Assignment(assignment) => assigned(frame, assignment, s),
        MirExpr::AddressOf(place) => match place_resolved(frame, place, s) {
            Some(found) => addressed(found.state, found.storage, pb),
            None => None,
        },
        MirExpr::Negate(base) => match first_of(expr_lowered(frame, *base, s)) {
            Some(value) => negated(
                value.state,
                value.values[0],
                is_float(base.ty, (pb * 8) as u32),
            ),
            None => None,
        },
        MirExpr::BitNot(base) => match first_of(expr_lowered(frame, *base, s)) {
            Some(value) => if value.values[0].ty.integral() {
                Some(value.state.define(Op::Not(value.values[0]), value.values[0].ty))
            } else {
                None
            },
            None => None,
        },
        MirExpr::BinaryOp(binary) => binary_lowered(frame, binary, node.ty, s),
        MirExpr::ArrayLiteral(elements) => nodes_lowered(frame, elements@, s, elements@.len()),
        MirExpr::StructLiteral(fields) => struct_lowered(frame, fields@, node.ty, s),
        MirExpr::EnumConstruct(construct) => constructed(frame, construct, node.ty, s),
        MirExpr::UnionConstruct(field) => union_lowered(frame, *field, node.ty, s),
        MirExpr::Slice(slice) => slice_lowered(frame, slice, s),
        MirExpr::Cast(cast) => cast_lowered(frame, cast, s),
    }
}

/// A number negated.
pub open spec fn negated(s: LoweringView, value: Value, float: bool) -> Option<Lowered> {
    if float && value.ty.floating() {
        Some(s.define(Op::FloatNeg(value), value.ty))
    } else if !float && value.ty.integral() {
        Some(s.define(Op::IntNeg(value), value.ty))
    } else {
        None
    }
}

proof fn lemma_args_stop(
    frame: FrameView,
    args: Seq<MirExprNode>,
    fn_type: ResolvedFunctionType,
    s: LoweringView,
    n: nat,
    m: nat,
)
    requires
        n <= m <= args.len(),
        args_lowered(frame, args, fn_type, s, n) is None,
    ensures
        args_lowered(frame, args, fn_type, s, m) is None,
    decreases m,
{
    if n < m {
        lemma_args_stop(frame, args, fn_type, s, n, (m - 1) as nat);
    }
}

proof fn lemma_nodes_stop(frame: FrameView, nodes: Seq<MirExprNode>, s: LoweringView, n: nat, m: nat)
    requires
        n <= m <= nodes.len(),
        nodes_lowered(frame, nodes, s, n) is None,
    ensures
        nodes_lowered(frame, nodes, s, m) is None,
    decreases m,
{
    if n < m {
        lemma_nodes_stop(frame, nodes, s, n, (m - 1) as nat);
    }
}

proof fn lemma_gathering_stops(
    frame: FrameView,
    fields: Seq<MirFieldValue>,
    count: nat,
    s: LoweringView,
    n: nat,
    m: nat,
)
    requires
        n <= m <= fields.len(),
        fields_gathered(frame, fields, count, s, n) is None,
    ensures
        fields_gathered(frame, fields, count, s, m) is None,
    decreases m,
{
    if n < m {
        lemma_gathering_stops(frame, fields, count, s, n, (m - 1) as nat);
    }
}

proof fn lemma_placing_stops(
    frame: FrameView,
    fields: Seq<MirFieldValue>,
    offsets: Seq<nat>,
    slot: Value,
    s: LoweringView,
    n: nat,
    m: nat,
)
    requires
        n <= m <= fields.len(),
        fields_placed(frame, fields, offsets, slot, s, n) is None,
    ensures
        fields_placed(frame, fields, offsets, slot, s, m) is None,
    decreases m,
{
    if n < m {
        lemma_placing_stops(frame, fields, offsets, slot, s, n, (m - 1) as nat);
    }
}

proof fn lemma_flattening_stops(per_field: Seq<Option<Seq<Value>>>, n: nat, m: nat)
    requires
        n <= m,
        flattened(per_field, n) is None,
    ensures
        flattened(per_field, m) is None,
    decreases m,
{
    if n < m {
        lemma_flattening_stops(per_field, n, (m - 1) as nat);
    }
}

/// The values given to each field.
pub open spec fn given(per_field: Seq<Option<Vec<Value>>>) -> Seq<Option<Seq<Value>>> {
    per_field.map_values(
        |values: Option<Vec<Value>>|
            match values {
                Some(found) => Some(found@),
                None => None::<Seq<Value>>,
            },
    )
}

fn flatten(per_field: &Vec<Option<Vec<Value>>>) -> (values: Option<Vec<Value>>)
    ensures
        match flattened(given(per_field@), per_field@.len()) {
            Some(found) => values is Some && values->0@ == found,
            None => values is None,
        },
{
    let ghost all = given(per_field@);
    let mut values: Vec<Value> = Vec::new();
    let mut i: usize = 0;
    assert(values@ =~= Seq::empty());
    while i < per_field.len()
        invariant
            i <= per_field@.len(),
            all == given(per_field@),
            flattened(all, i as nat) == Some(values@),
        decreases per_field.len() - i,
    {
        match &per_field[i] {
            Some(found) => {
                let mut more: Vec<Value> = copy_values(found);
                assert(all[i as int] == Some(found@));
                values.append(&mut more);
            },
            None => {
                proof {
                    assert(all[i as int] is None);
                    lemma_flattening_stops(all, (i + 1) as nat, per_field@.len());
                }
                return None;
            },
        }
        i = i + 1;
    }
    Some(values)
}

proof fn lemma_operands_stop(
    frame: FrameView,
    operands: Seq<MirAsmOperand>,
    s: LoweringView,
    n: nat,
    m: nat,
)
    requires
        n <= m <= operands.len(),
        operands_lowered(frame, operands, s, n) is None,
    ensures
        operands_lowered(frame, operands, s, m) is None,
    decreases m,
{
    if n < m {
        lemma_operands_stop(frame, operands, s, n, (m - 1) as nat);
    }
}

impl Lowering {
    fn negate(&mut self, value: Value, float: bool) -> (found: Option<Value>)
        ensures
            yields_one(found, final(self)@, negated(old(self)@, value, float)),
    {
        if float && value.ty.is_float_type() {
            let result: Value = self.define(Op::FloatNeg(value), value.ty);
            Some(result)
        } else if !float && value.ty.is_int_type() {
            let result: Value = self.define(Op::IntNeg(value), value.ty);
            Some(result)
        } else {
            None
        }
    }

    /// An expression's values.
    #[verifier::rlimit(60)]
    pub fn process_expr(&mut self, frame: &Frame, node: &MirExprNode) -> (values: Option<
        Vec<Value>,
    >)
        requires
            node_fits(*node, frame.pb()),
        ensures
            yields(values, final(self)@, expr_lowered(frame@, *node, old(self)@)),
        decreases node, 0int,
    {
        let pb: u32 = frame.target.pointer_bytes();
        match &node.kind {
            MirExpr::Str(text) => self.emit_bytes(text),
            MirExpr::ByteString(text) => self.emit_bytes(text),
            MirExpr::Const(value) => self.emit_const_value(value, &node.ty, pb),
            MirExpr::InlineAsm(code) => if self.process_inline_asm(frame, code) {
                let values: Vec<Value> = Vec::new();
                assert(values@ =~= Seq::empty());
                Some(values)
            } else {
                None
            },
            MirExpr::FunctionCall(call) => self.lower_call(frame, call),
            MirExpr::SpecCoerce(coerce) => self.lower_coerce(frame, coerce, &node.ty),
            MirExpr::DynamicCall(call) => self.lower_dynamic_call(frame, call),
            MirExpr::Number(number) => {
                let leaves: Vec<Leaf> = leaves_of(&node.ty, pb);
                if leaves.len() == 0 {
                    return None;
                }
                match scalar_const(leaves[0], number, pb) {
                    Some(value) => Some(one_value(value)),
                    None => None,
                }
            },
            MirExpr::Bool(flag) => Some(one_value(const_flag(*flag))),
            MirExpr::Sizeof(ty) => Some(
                one_value(const_int(index_type(pb), total_bytes(ty, pb) as u64)),
            ),
            MirExpr::Char(c) => Some(
                one_value(const_int(ValueType::I32, code_point(*c) as u64)),
            ),
            MirExpr::Place(place) => self.get_place_value(frame, place),
            MirExpr::Assignment(assignment) => self.lower_assignment(frame, assignment),
            MirExpr::AddressOf(place) => match self.resolve_place_storage(frame, place) {
                Some((storage, _)) => match self.place_storage_address(&storage, pb) {
                    Some(address) => Some(one_value(address)),
                    None => None,
                },
                None => None,
            },
            MirExpr::Negate(base) => {
                let lowered: Option<Vec<Value>> = self.process_expr(frame, base);
                let float: bool = match base.ty.numeric_kind(frame.target.pointer_bits()) {
                    Some(NumericKind::Float(_)) => true,
                    _ => false,
                };
                match first_value(&lowered) {
                    Some(value) => match self.negate(value, float) {
                        Some(result) => Some(one_value(result)),
                        None => None,
                    },
                    None => None,
                }
            },
            MirExpr::BitNot(base) => {
                let lowered: Option<Vec<Value>> = self.process_expr(frame, base);
                match first_value(&lowered) {
                    Some(value) => if value.ty.is_int_type() {
                        let result: Value = self.define(Op::Not(value), value.ty);
                        Some(one_value(result))
                    } else {
                        None
                    },
                    None => None,
                }
            },
            MirExpr::BinaryOp(binary) => self.lower_binary(frame, binary, &node.ty),
            MirExpr::ArrayLiteral(elements) => self.lower_nodes(frame, elements),
            MirExpr::StructLiteral(fields) => self.lower_struct(frame, fields, &node.ty),
            MirExpr::EnumConstruct(construct) => self.lower_enum(frame, construct, &node.ty),
            MirExpr::UnionConstruct(field) => self.lower_union(frame, field, &node.ty),
            MirExpr::Slice(slice) => self.lower_slice(frame, slice),
            MirExpr::Cast(cast) => self.lower_cast(frame, cast),
        }
    }

    fn lower_assignment(&mut self, frame: &Frame, assignment: &MirAssignment) -> (values: Option<
        Vec<Value>,
    >)
        requires
            place_fits(assignment.target, frame.pb()),
            node_fits(*assignment.value, frame.pb()),
        ensures
            yields(values, final(self)@, assigned(frame@, *assignment, old(self)@)),
        decreases assignment, 0int,
    {
        let pb: u32 = frame.target.pointer_bytes();
        let values: Vec<Value> = match self.process_expr(frame, &assignment.value) {
            Some(values) => values,
            None => {
                return None;
            },
        };
        let align: u32 = assignment.target.align;
        match self.resolve_place_storage(frame, &assignment.target) {
            Some((PlaceStorage::Memory { base, offset }, _)) => if self.store_scalars(
                base,
                offset,
                &values,
                align,
                pb,
            ) {
                Some(values)
            } else {
                None
            },
            _ => None,
        }
    }

    fn lower_call(&mut self, frame: &Frame, call: &MirFunctionCall) -> (values: Option<Vec<Value>>)
        requires
            node_fits(*call.callee, frame.pb()),
            nodes_fit(call.args@, frame.pb()),
            fn_measurable(*call.fn_type, frame.pb()),
        ensures
            yields(values, final(self)@, call_lowered(frame@, *call, old(self)@)),
        decreases call, 0int,
    {
        let lowered: Option<Vec<Value>> = self.process_expr(frame, &call.callee);
        let callee: Value = match pointer_in(&lowered) {
            Some(callee) => callee,
            None => {
                return None;
            },
        };
        let convention: CallingConvention = call.fn_type.calling_convention;
        match self.lower_args(frame, &call.args, &call.fn_type) {
            Some(args) => self.emit_call(frame, callee, &call.fn_type, Some(convention), args),
            None => None,
        }
    }

    fn lower_arg(
        &mut self,
        frame: &Frame,
        arg: &MirExprNode,
        promote: bool,
    ) -> (values: Option<Vec<Value>>)
        requires
            node_fits(*arg, frame.pb()),
        ensures
            yields(
                values,
                final(self)@,
                match expr_lowered(frame@, *arg, old(self)@) {
                    Some(found) => if promote {
                        all_promoted(
                            found.state,
                            found.values,
                            arg.ty,
                            (frame.pb() * 8) as u32,
                            found.values.len(),
                        )
                    } else {
                        Some(found)
                    },
                    None => None,
                },
            ),
        decreases arg, 1int,
    {
        match self.process_expr(frame, arg) {
            Some(values) => if promote {
                self.promote_all(&values, &arg.ty, frame)
            } else {
                Some(values)
            },
            None => None,
        }
    }

    fn lower_args(
        &mut self,
        frame: &Frame,
        args: &Vec<MirExprNode>,
        fn_type: &ResolvedFunctionType,
    ) -> (values: Option<Vec<Value>>)
        requires
            nodes_fit(args@, frame.pb()),
        ensures
            yields(
                values,
                final(self)@,
                args_lowered(frame@, args@, *fn_type, old(self)@, args@.len()),
            ),
        decreases args, 0int,
    {
        let ghost before = self@;
        let mut all: Vec<Value> = Vec::new();
        let mut i: usize = 0;
        assert(all@ =~= Seq::empty());
        while i < args.len()
            invariant
                i <= args@.len(),
                nodes_fit(args@, frame.pb()),
                before == old(self)@,
                args_lowered(frame@, args@, *fn_type, before, i as nat) == Some(
                    Lowered { state: self@, values: all@ },
                ),
            decreases args.len() - i,
        {
            assert(node_fits(args@[i as int], frame.pb()));
            let follows_c: bool = match fn_type.calling_convention {
                CallingConvention::C => true,
                _ => false,
            };
            let promote: bool = fn_type.is_variadic && follows_c && i >= fn_type.params.len();
            match self.lower_arg(frame, &args[i], promote) {
                Some(mut more) => {
                    all.append(&mut more);
                },
                None => {
                    proof {
                        lemma_args_stop(
                            frame@,
                            args@,
                            *fn_type,
                            before,
                            (i + 1) as nat,
                            args@.len(),
                        );
                    }
                    return None;
                },
            }
            i = i + 1;
        }
        Some(all)
    }

    fn lower_nodes(
        &mut self,
        frame: &Frame,
        nodes: &Vec<MirExprNode>,
    ) -> (values: Option<Vec<Value>>)
        requires
            nodes_fit(nodes@, frame.pb()),
        ensures
            yields(values, final(self)@, nodes_lowered(frame@, nodes@, old(self)@, nodes@.len())),
        decreases nodes, 0int,
    {
        let ghost before = self@;
        let mut all: Vec<Value> = Vec::new();
        let mut i: usize = 0;
        assert(all@ =~= Seq::empty());
        while i < nodes.len()
            invariant
                i <= nodes@.len(),
                nodes_fit(nodes@, frame.pb()),
                before == old(self)@,
                nodes_lowered(frame@, nodes@, before, i as nat) == Some(
                    Lowered { state: self@, values: all@ },
                ),
            decreases nodes.len() - i,
        {
            assert(node_fits(nodes@[i as int], frame.pb()));
            match self.process_expr(frame, &nodes[i]) {
                Some(mut more) => {
                    all.append(&mut more);
                },
                None => {
                    proof {
                        lemma_nodes_stop(frame@, nodes@, before, (i + 1) as nat, nodes@.len());
                    }
                    return None;
                },
            }
            i = i + 1;
        }
        Some(all)
    }

    fn lower_coerce(&mut self, frame: &Frame, coerce: &MirSpecCoerce, ty: &ResolvedType) -> (values:
        Option<Vec<Value>>)
        requires
            node_fits(*coerce.base, frame.pb()),
        ensures
            yields(values, final(self)@, coerce_lowered(frame@, *coerce, *ty, old(self)@)),
        decreases coerce, 0int,
    {
        match (ty, &coerce.base.ty) {
            (ResolvedType::SpecObject { .. }, ResolvedType::Pointer { pointee, .. }) => {
                let lowered: Option<Vec<Value>> = self.process_expr(frame, &coerce.base);
                match pointer_in(&lowered) {
                    Some(data) => match self.vtable_for(frame, pointee, ty, &coerce.slots) {
                        Some(table) => Some(two_values(data, table)),
                        None => None,
                    },
                    None => None,
                }
            },
            _ => None,
        }
    }

    fn lower_dynamic_call(&mut self, frame: &Frame, call: &MirDynamicCall) -> (values: Option<
        Vec<Value>,
    >)
        requires
            place_fits(call.base, frame.pb()),
            nodes_fit(call.args@, frame.pb()),
            fn_measurable(*call.fn_type, frame.pb()),
        ensures
            yields(values, final(self)@, dynamic_lowered(frame@, *call, old(self)@)),
        decreases call, 0int,
    {
        let pb: u32 = frame.target.pointer_bytes();
        let base: Vec<Value> = match self.get_place_value(frame, &call.base) {
            Some(values) => values,
            None => {
                return None;
            },
        };
        assert(call.slot_index as int * pb as int <= 0xffff_ffff * 0xffff_ffff) by (nonlinear_arith)
            requires
                0 <= call.slot_index <= 0xffff_ffff,
                0 <= pb <= 0xffff_ffff,
        ;
        let along: u64 = call.slot_index as u64 * pb as u64;
        if along > 0xffff_ffff || base.len() < 2 || !base[0].ty.is_pointer_type()
            || !base[1].ty.is_pointer_type() {
            return None;
        }
        let pointer: Value = self.byte_gep(base[1], along as u32, pb);
        let function: Value = self.define(Op::Load { pointer, align: pb }, ValueType::Ptr);
        match self.lower_nodes(frame, &call.args) {
            Some(mut more) => {
                let mut args: Vec<Value> = one_value(base[0]);
                args.append(&mut more);
                self.emit_call(frame, function, &call.fn_type, None, args)
            },
            None => None,
        }
    }

    fn lower_binary(&mut self, frame: &Frame, binary: &MirBinaryOp, ty: &ResolvedType) -> (values:
        Option<Vec<Value>>)
        requires
            node_fits(*binary.left, frame.pb()),
            node_fits(*binary.right, frame.pb()),
            measurable(*ty, frame.pb()),
        ensures
            yields(values, final(self)@, binary_lowered(frame@, *binary, *ty, old(self)@)),
        decreases binary, 0int,
    {
        let pb: u32 = frame.target.pointer_bytes();
        let kind: NumericKind = match kind_of_operand(
            &binary.left.ty,
            frame.target.pointer_bits(),
        ) {
            Some(kind) => kind,
            None => {
                return None;
            },
        };
        let lowered: Option<Vec<Value>> = self.process_expr(frame, &binary.left);
        let left: Value = match first_value(&lowered) {
            Some(left) => left,
            None => {
                return None;
            },
        };
        let lowered: Option<Vec<Value>> = self.process_expr(frame, &binary.right);
        let right: Value = match first_value(&lowered) {
            Some(right) => right,
            None => {
                return None;
            },
        };
        match self.operate(binary.op, kind, left, right, pb) {
            Some(result) => {
                let leaves: Vec<Leaf> = leaves_of(ty, pb);
                if leaves.len() == 0 {
                    return Some(one_value(result));
                }
                match self.reinterpret_leaf(result, llvm_type(leaves[0], pb), pb) {
                    Some(value) => Some(one_value(value)),
                    None => None,
                }
            },
            None => None,
        }
    }

    fn lower_struct(
        &mut self,
        frame: &Frame,
        fields: &Vec<MirFieldValue>,
        ty: &ResolvedType,
    ) -> (values: Option<Vec<Value>>)
        requires
            field_values_fit(fields@, frame.pb()),
        ensures
            yields(values, final(self)@, struct_lowered(frame@, fields@, *ty, old(self)@)),
        decreases fields, 0int,
    {
        let count: usize = match ty {
            ResolvedType::Struct(cell) => cell.fields.len(),
            _ => {
                return None;
            },
        };
        let ghost before = self@;
        let mut per_field: Vec<Option<Vec<Value>>> = Vec::new();
        let mut k: usize = 0;
        while k < count
            invariant
                k <= count,
                per_field@.len() == k,
                forall|j: int| 0 <= j < k ==> (#[trigger] per_field@[j]) is None,
            decreases count - k,
        {
            per_field.push(None);
            k = k + 1;
        }
        assert(given(per_field@) =~= Seq::new(count as nat, |i: int| None));
        let mut i: usize = 0;
        while i < fields.len()
            invariant
                i <= fields@.len(),
                field_values_fit(fields@, frame.pb()),
                before == old(self)@,
                per_field@.len() == count,
                match *ty {
                    ResolvedType::Struct(cell) => count == cell.fields@.len(),
                    _ => false,
                },
                fields_gathered(frame@, fields@, count as nat, before, i as nat) == Some(
                    (self@, given(per_field@)),
                ),
            decreases fields.len() - i,
        {
            assert(node_fits(fields@[i as int].value, frame.pb()));
            let field: &MirFieldValue = &fields[i];
            let lowered: Option<Vec<Value>> = self.process_expr(frame, &field.value);
            match lowered {
                Some(values) if field.field_index < count => {
                    let ghost earlier = per_field@;
                    per_field.set(field.field_index, Some(values));
                    assert(given(per_field@) =~= given(earlier).update(
                        field.field_index as int,
                        Some(values@),
                    ));
                },
                _ => {
                    proof {
                        lemma_gathering_stops(
                            frame@,
                            fields@,
                            count as nat,
                            before,
                            (i + 1) as nat,
                            fields@.len(),
                        );
                    }
                    return None;
                },
            }
            i = i + 1;
        }
        assert(given(per_field@).len() == count);
        flatten(&per_field)
    }

    fn place_fields(
        &mut self,
        frame: &Frame,
        fields: &Vec<MirFieldValue>,
        offsets: &Vec<u32>,
        slot: Value,
    ) -> (done: bool)
        requires
            field_values_fit(fields@, frame.pb()),
        ensures
            match fields_placed(
                frame@,
                fields@,
                as_nats(offsets@),
                slot,
                old(self)@,
                fields@.len(),
            ) {
                Some(after) => done && final(self)@ == after,
                None => !done,
            },
        decreases fields, 0int,
    {
        let ghost before = self@;
        let ghost places = as_nats(offsets@);
        let pb: u32 = frame.target.pointer_bytes();
        let mut i: usize = 0;
        while i < fields.len()
            invariant
                i <= fields@.len(),
                field_values_fit(fields@, frame.pb()),
                before == old(self)@,
                places == as_nats(offsets@),
                places.len() == offsets@.len(),
                pb == frame.pb(),
                fields_placed(frame@, fields@, places, slot, before, i as nat) == Some(self@),
            decreases fields.len() - i,
        {
            assert(node_fits(fields@[i as int].value, frame.pb()));
            let field: &MirFieldValue = &fields[i];
            let done: bool = if field.field_index < offsets.len() {
                let offset: u32 = offsets[field.field_index];
                assert(places[field.field_index as int] == offset as nat);
                match self.process_expr(frame, &field.value) {
                    Some(values) => self.store_scalars(slot, offset, &values, 1, pb),
                    None => false,
                }
            } else {
                false
            };
            if !done {
                proof {
                    lemma_placing_stops(
                        frame@,
                        fields@,
                        places,
                        slot,
                        before,
                        (i + 1) as nat,
                        fields@.len(),
                    );
                }
                return false;
            }
            i = i + 1;
        }
        true
    }

    fn lower_enum(
        &mut self,
        frame: &Frame,
        construct: &MirEnumConstruct,
        ty: &ResolvedType,
    ) -> (values: Option<Vec<Value>>)
        requires
            measurable(*ty, frame.pb()),
            field_values_fit(construct.fields@, frame.pb()),
            match *ty {
                ResolvedType::Enum { cell, .. } => {
                    &&& leaves_spec(cell.tag_type, frame.pb()).len() > 0
                    &&& construct.variant_index < cell.variants@.len() ==> fields_fit(
                        cell.variants@[construct.variant_index as int].header_values@,
                        cell.header@,
                        frame.pb(),
                    )
                },
                _ => true,
            },
        ensures
            yields(values, final(self)@, constructed(frame@, *construct, *ty, old(self)@)),
        decreases construct, 0int,
    {
        let pb: u32 = frame.target.pointer_bytes();
        match ty {
            ResolvedType::Enum { cell, .. } => {
                if construct.variant_index >= cell.variants.len() {
                    return None;
                }
                assert(crate::layout::parts_measurable(*ty, pb));
                assert(crate::layout::parts_measurable(
                    ResolvedType::Enum { cell: *cell, variant: None },
                    pb,
                ));
                assert(enum_measurable(**cell, pb));
                let variant = &cell.variants[construct.variant_index];
                let slot: Value = self.slot_for(ty, SlotUse::Enum, pb);
                if !self.store_prefix(&variant.tag, &variant.header_values, cell, slot, pb) {
                    return None;
                }
                let cleared: Vec<Leaf> = payload_chunks(named_payload_bytes(cell, pb));
                if !self.zero_fill(&cleared, slot, named_payload_offset(cell, pb), pb) {
                    return None;
                }
                let mut offsets: Vec<u32> = offsets_of_dynamic(cell, pb);
                let mut own: Vec<u32> = offsets_of_body(cell, construct.variant_index, pb);
                let ghost shared = offsets@;
                let ghost body = own@;
                offsets.append(&mut own);
                assert(as_nats(offsets@) =~= as_nats(shared) + as_nats(body));
                if !self.place_fields(frame, &construct.fields, &offsets, slot) {
                    return None;
                }
                self.load_aligned(&PlaceStorage::Memory { base: slot, offset: 0 }, ty, pb)
            },
            _ => None,
        }
    }

    fn lower_union(&mut self, frame: &Frame, field: &MirFieldValue, ty: &ResolvedType) -> (values:
        Option<Vec<Value>>)
        requires
            measurable(*ty, frame.pb()),
            node_fits(field.value, frame.pb()),
        ensures
            yields(values, final(self)@, union_lowered(frame@, *field, *ty, old(self)@)),
        decreases field, 0int,
    {
        let pb: u32 = frame.target.pointer_bytes();
        let slot: Value = self.entry_alloca(total_bytes(ty, pb), 16, SlotUse::Union);
        let leaves: Vec<Leaf> = leaves_of(ty, pb);
        if !self.zero_fill(&leaves, slot, 0, pb) {
            return None;
        }
        match self.process_expr(frame, &field.value) {
            Some(values) => if self.store_scalars(slot, 0, &values, 1, pb) {
                self.load_aligned(&PlaceStorage::Memory { base: slot, offset: 0 }, ty, pb)
            } else {
                None
            },
            None => None,
        }
    }

    fn lower_bound(&mut self, frame: &Frame, bound: &Option<Box<MirExprNode>>) -> (value: Option<
        Value,
    >)
        requires
            match *bound {
                Some(expr) => node_fits(*expr, frame.pb()),
                None => true,
            },
        ensures
            yields_one(value, final(self)@, bound_lowered(frame@, *bound, old(self)@)),
        decreases bound, 0int,
    {
        match bound {
            Some(expr) => {
                let lowered: Option<Vec<Value>> = self.process_expr(frame, expr);
                first_value(&lowered)
            },
            None => Some(const_int(ValueType::I32, 0)),
        }
    }

    fn lower_end(
        &mut self,
        frame: &Frame,
        bound: &Option<Box<MirExprNode>>,
        inclusive: bool,
        length: Value,
    ) -> (value: Option<Value>)
        requires
            match *bound {
                Some(expr) => node_fits(*expr, frame.pb()),
                None => true,
            },
        ensures
            yields_one(
                value,
                final(self)@,
                end_lowered(frame@, *bound, inclusive, length, old(self)@),
            ),
        decreases bound, 0int,
    {
        match bound {
            Some(expr) => {
                let lowered: Option<Vec<Value>> = self.process_expr(frame, expr);
                match first_value(&lowered) {
                    Some(end) => self.close_range(end, inclusive),
                    None => None,
                }
            },
            None => Some(length),
        }
    }

    fn lower_slice(
        &mut self,
        frame: &Frame,
        slice: &MirSlice,
    ) -> (values: Option<Vec<Value>>)
        requires
            place_fits(slice.base, frame.pb()),
            measurable(slice.item_type, frame.pb()),
            match slice.start {
                Some(start) => node_fits(*start, frame.pb()),
                None => true,
            },
            match slice.end {
                Some(end) => node_fits(*end, frame.pb()),
                None => true,
            },
        ensures
            yields(values, final(self)@, slice_lowered(frame@, *slice, old(self)@)),
        decreases slice, 1int,
    {
        let pb: u32 = frame.target.pointer_bytes();
        let (storage, ty) = match self.resolve_place_storage(frame, &slice.base) {
            Some(found) => found,
            None => {
                return None;
            },
        };
        let (data, length) = match self.split_sequence(&storage, &ty, pb) {
            Some(parts) => parts,
            None => {
                return None;
            },
        };
        self.slice_parts(frame, slice, data, length)
    }

    fn slice_parts(&mut self, frame: &Frame, slice: &MirSlice, data: Value, length: Value) -> (values:
        Option<Vec<Value>>)
        requires
            measurable(slice.item_type, frame.pb()),
            match slice.start {
                Some(start) => node_fits(*start, frame.pb()),
                None => true,
            },
            match slice.end {
                Some(end) => node_fits(*end, frame.pb()),
                None => true,
            },
        ensures
            yields(values, final(self)@, slice_of(frame@, *slice, Lowered { state: old(self)@, values: seq![data, length] })),
        decreases slice, 0int,
    {
        let pb: u32 = frame.target.pointer_bytes();
        let start: Value = match self.lower_bound(frame, &slice.start) {
            Some(start) => start,
            None => {
                return None;
            },
        };
        let end: Value = match self.lower_end(frame, &slice.end, slice.inclusive, length) {
            Some(end) => end,
            None => {
                return None;
            },
        };
        self.cut(data, start, end, total_bytes(&slice.item_type, pb), pb)
    }

    fn lower_cast(&mut self, frame: &Frame, cast: &MirCast) -> (values: Option<Vec<Value>>)
        requires
            node_fits(*cast.base, frame.pb()),
            measurable(cast.target_type, frame.pb()),
        ensures
            yields(values, final(self)@, cast_lowered(frame@, *cast, old(self)@)),
        decreases cast, 0int,
    {
        let pb: u32 = frame.target.pointer_bytes();
        match self.process_expr(frame, &cast.base) {
            Some(base) => {
                let leaves: Vec<Leaf> = leaves_of(&cast.target_type, pb);
                if leaves.len() == 0 {
                    return None;
                }
                self.cast_values(&base, cast.kind, &cast.base.ty, &leaves, pb)
            },
            None => None,
        }
    }

    /// Lowers one machine-code statement to a single call whose results are
    /// discarded: a register operand is never written back to the expression
    /// it came from.
    pub fn process_inline_asm(&mut self, frame: &Frame, code: &MirInlineAsm) -> (done: bool)
        requires
            operands_fit(code.operands@, frame.pb()),
        ensures
            match code_lowered(frame@, *code, old(self)@) {
                Some(after) => done && final(self)@ == after,
                None => !done,
            },
        decreases code, 0int,
    {
        let arch: Arch = frame.target.arch;
        let mut args: Vec<Value> = Vec::new();
        let mut regs: Vec<RegConstraint> = Vec::new();
        let mut positional: Vec<Resolution> = Vec::new();
        let mut named: Vec<(Ident, Resolution)> = Vec::new();
        let operands: &Vec<MirAsmOperand> = &code.operands;
        if !self.lower_operands(
            frame,
            operands,
            &mut args,
            &mut regs,
            &mut positional,
            &mut named,
        ) {
            return false;
        }
        let text: String = match render_template(code.template.as_str(), &positional, &named) {
            Some(text) => text,
            None => {
                return false;
            },
        };
        let constraints: String = constraint_string(&regs, &code.clobbers, arch);
        let intel: bool = match arch {
            Arch::X86_64 | Arch::X86 => true,
            _ => false,
        };
        self.pass_all(&args);
        let index: usize = self.statements.len();
        let ghost ready = self@;
        let statement = Statement { text, constraints, intel };
        let ghost found = statement@;
        self.statements.push(statement);
        assert(self@.statements =~= ready.statements.push(found));
        self.perform(Op::InlineCode { statement: index, count: args.len() });
        true
    }

    fn lower_operands(
        &mut self,
        frame: &Frame,
        operands: &Vec<MirAsmOperand>,
        args: &mut Vec<Value>,
        regs: &mut Vec<RegConstraint>,
        positional: &mut Vec<Resolution>,
        named: &mut Vec<(Ident, Resolution)>,
    ) -> (done: bool)
        requires
            operands_fit(operands@, frame.pb()),
            old(args)@.len() == 0,
            old(regs)@.len() == 0,
            old(positional)@.len() == 0,
            old(named)@.len() == 0,
        ensures
            match operands_lowered(frame@, operands@, old(self)@, operands@.len()) {
                Some(o) => {
                    &&& done
                    &&& final(self)@ == o.state
                    &&& final(args)@ == o.args
                    &&& reg_texts(final(regs)@) == o.texts
                    &&& resolution_views(final(positional)@) == o.positional
                    &&& named_views(final(named)@) == o.named
                },
                None => !done,
            },
        decreases operands, 0int,
    {
        let ghost before = self@;
        let mut i: usize = 0;
        assert(args@ =~= Seq::empty());
        assert(reg_texts(regs@) =~= Seq::empty());
        assert(resolution_views(positional@) =~= Seq::empty());
        assert(named_views(named@) =~= Seq::empty());
        while i < operands.len()
            invariant
                i <= operands@.len(),
                operands_fit(operands@, frame.pb()),
                before == old(self)@,
                operands_lowered(frame@, operands@, before, i as nat) == Some(
                    Operands {
                        state: self@,
                        args: args@,
                        texts: reg_texts(regs@),
                        positional: resolution_views(positional@),
                        named: named_views(named@),
                    },
                ),
            decreases operands.len() - i,
        {
            assert(operand_fits(operands@[i as int], frame.pb()));
            if !self.lower_operand(frame, &operands[i], args, regs, positional, named) {
                proof {
                    lemma_operands_stop(
                        frame@,
                        operands@,
                        before,
                        (i + 1) as nat,
                        operands@.len(),
                    );
                }
                return false;
            }
            i = i + 1;
        }
        true
    }

    fn lower_operand(
        &mut self,
        frame: &Frame,
        operand: &MirAsmOperand,
        args: &mut Vec<Value>,
        regs: &mut Vec<RegConstraint>,
        positional: &mut Vec<Resolution>,
        named: &mut Vec<(Ident, Resolution)>,
    ) -> (done: bool)
        requires
            operand_fits(*operand, frame.pb()),
        ensures
            match operand_lowered(
                frame@,
                *operand,
                Operands {
                    state: old(self)@,
                    args: old(args)@,
                    texts: reg_texts(old(regs)@),
                    positional: resolution_views(old(positional)@),
                    named: named_views(old(named)@),
                },
            ) {
                Some(o) => {
                    &&& done
                    &&& final(self)@ == o.state
                    &&& final(args)@ == o.args
                    &&& reg_texts(final(regs)@) == o.texts
                    &&& resolution_views(final(positional)@) == o.positional
                    &&& named_views(final(named)@) == o.named
                },
                None => !done,
            },
        decreases operand, 0int,
    {
        let pb: u32 = frame.target.pointer_bytes();
        let resolution: Resolution = match &operand.kind {
            MirAsmOperandKind::Reg { value, physical } => {
                let leaves: Vec<Leaf> = leaves_of(&value.ty, pb);
                let lowered: Option<Vec<Value>> = self.process_expr(frame, value);
                let found: Value = match first_value(&lowered) {
                    Some(found) => found,
                    None => {
                        return false;
                    },
                };
                if leaves.len() == 0 {
                    return false;
                }
                let index: usize = args.len();
                args.push(found);
                let reg = RegConstraint {
                    class: register_class(frame.target.arch, leaves[0]),
                    physical: match physical {
                        Some(name) => Some(name.as_str().to_owned()),
                        None => None,
                    },
                };
                let ghost text = reg_text(reg);
                assert(text == operand_text(frame.target.arch, leaves@[0], *physical));
                regs.push(reg);
                assert(reg_texts(regs@) =~= reg_texts(old(regs)@).push(text));
                Resolution::Reg(index)
            },
            MirAsmOperandKind::Comp { text } => Resolution::CompText(text.as_str().to_owned()),
        };
        let ghost view = resolution@;
        if let Some(name) = &operand.binding_name {
            named.push((name.clone(), clone_resolution(&resolution)));
            assert(named_views(named@) =~= named_views(old(named)@).push((name@, view)));
        }
        positional.push(resolution);
        assert(resolution_views(positional@) =~= resolution_views(old(positional)@).push(view));
        true
    }
}

} // verus!
