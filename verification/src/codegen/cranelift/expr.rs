//! Expressions.

use crate::checked::CastKind;
use crate::codegen::abi::{
    fn_measurable, needs_sret, promoted, returned, returns_indirectly, variadic_promotion,
    AbiReturn, ReturnView,
};
use crate::codegen::constants::{
    as_nats, body_offsets, dynamic_offsets, fields_fit, moved, offsets_of_body, offsets_of_dynamic,
};
use crate::codegen::cranelift::{
    addressed, cranelift_type, leaf_ir, loaded, pointer_ir, pointer_type, slot_for, stack_slot_for,
    stored, Arith, Convert, FloatCC, Frame, FrameView, IntCC, IrType, Lowered, Lowering,
    LoweringView, Op, PlaceStorage, SlotData, Storage,
};
use crate::codegen::cranelift::constant::{
    bytes_emitted, const_emitted, number_emitted, one_value, prefix_stored, zero_filled,
};
use crate::codegen::cranelift::place::{
    place_lowered, place_resolved, pointer_wide, PlaceState,
};
use crate::codegen::fits::{field_values_fit, node_fits, nodes_fit, place_fits};
use crate::codegen::mir::{
    MirBinaryOp, MirCast, MirDynamicCall, MirEnumConstruct, MirExpr, MirExprNode, MirFieldValue,
    MirFunctionCall, MirSlice, MirSpecCoerce,
};
use crate::codegen::shared::{
    all_declared, is_float, kind_of_operand, operand_kind, same_slots, table_position,
    unsized_length, Vtable,
};
use crate::hir::HirId;
use crate::layout::{
    chunks, enum_measurable, leaves_of, leaves_spec, measurable, named_payload_bytes,
    named_payload_offset, payload_chunks, payload_of, payload_width, size_of, total_bytes, Leaf,
};
use crate::order::code_point;
use crate::resolved_type::{NumericKind, ResolvedFunctionType, ResolvedType};
use crate::syntax::BinaryOp;
use crate::text::share;
use std::rc::Rc;
use vstd::prelude::*;

verus! {

/// The first value of some, which are no longer needed.
pub open spec fn first_of(lowered: Option<Lowered>) -> Option<Lowered> {
    match lowered {
        Some(found) => if found.values.len() > 0 {
            Some(Lowered { values: seq![found.values[0]], ..found })
        } else {
            None
        },
        None => None,
    }
}

/// The operation an operator is, where it computes rather than compares.
pub open spec fn arith_of(op: BinaryOp, kind: NumericKind) -> Option<Arith> {
    match (op, kind) {
        (BinaryOp::Add, NumericKind::Float(_)) => Some(Arith::Fadd),
        (BinaryOp::Add, _) => Some(Arith::Iadd),
        (BinaryOp::Sub, NumericKind::Float(_)) => Some(Arith::Fsub),
        (BinaryOp::Sub, _) => Some(Arith::Isub),
        (BinaryOp::Mul, NumericKind::Float(_)) => Some(Arith::Fmul),
        (BinaryOp::Mul, _) => Some(Arith::Imul),
        (BinaryOp::Div, NumericKind::Float(_)) => Some(Arith::Fdiv),
        (BinaryOp::Div, NumericKind::Signed(_)) => Some(Arith::Sdiv),
        (BinaryOp::Div, NumericKind::Unsigned(_)) => Some(Arith::Udiv),
        (BinaryOp::Rem, NumericKind::Signed(_)) => Some(Arith::Srem),
        (BinaryOp::Rem, NumericKind::Unsigned(_)) => Some(Arith::Urem),
        (BinaryOp::BitAnd, _) => Some(Arith::Band),
        (BinaryOp::BitOr, _) => Some(Arith::Bor),
        (BinaryOp::BitXor, _) => Some(Arith::Bxor),
        (BinaryOp::Shl, _) => Some(Arith::Ishl),
        (BinaryOp::Shr, NumericKind::Signed(_)) => Some(Arith::Sshr),
        (BinaryOp::Shr, NumericKind::Unsigned(_)) => Some(Arith::Ushr),
        _ => None,
    }
}

/// The comparison an operator is on floats.
pub open spec fn float_cc(op: BinaryOp) -> Option<FloatCC> {
    match op {
        BinaryOp::Eq => Some(FloatCC::Equal),
        BinaryOp::Ne => Some(FloatCC::NotEqual),
        BinaryOp::Lt => Some(FloatCC::LessThan),
        BinaryOp::Le => Some(FloatCC::LessThanOrEqual),
        BinaryOp::Gt => Some(FloatCC::GreaterThan),
        BinaryOp::Ge => Some(FloatCC::GreaterThanOrEqual),
        _ => None,
    }
}

/// The comparison an operator is on integers.
pub open spec fn int_cc(op: BinaryOp, signed: bool) -> Option<IntCC> {
    match op {
        BinaryOp::Eq => Some(IntCC::Equal),
        BinaryOp::Ne => Some(IntCC::NotEqual),
        BinaryOp::Lt => Some(
            if signed {
                IntCC::SignedLessThan
            } else {
                IntCC::UnsignedLessThan
            },
        ),
        BinaryOp::Le => Some(
            if signed {
                IntCC::SignedLessThanOrEqual
            } else {
                IntCC::UnsignedLessThanOrEqual
            },
        ),
        BinaryOp::Gt => Some(
            if signed {
                IntCC::SignedGreaterThan
            } else {
                IntCC::UnsignedGreaterThan
            },
        ),
        BinaryOp::Ge => Some(
            if signed {
                IntCC::SignedGreaterThanOrEqual
            } else {
                IntCC::UnsignedGreaterThanOrEqual
            },
        ),
        _ => None,
    }
}

/// An operator applied to two values. Remainders and right shifts of floats
/// do not exist.
pub open spec fn operated(
    s: LoweringView,
    op: BinaryOp,
    kind: NumericKind,
    left: usize,
    right: usize,
) -> Option<Lowered> {
    match arith_of(op, kind) {
        Some(arith) => s.define_like(Op::Binary { op: arith, left, right }, left),
        None => match kind {
            NumericKind::Float(_) => match float_cc(op) {
                Some(cc) => Some(s.define(Op::Fcmp { cc, left, right }, IrType::I8)),
                None => None,
            },
            NumericKind::Signed(_) => match int_cc(op, true) {
                Some(cc) => Some(s.define(Op::Icmp { cc, left, right }, IrType::I8)),
                None => None,
            },
            NumericKind::Unsigned(_) => match int_cc(op, false) {
                Some(cc) => Some(s.define(Op::Icmp { cc, left, right }, IrType::I8)),
                None => None,
            },
        },
    }
}

/// An argument beyond a variadic function's parameters, promoted as C does.
pub open spec fn variadic_promoted(
    s: LoweringView,
    value: usize,
    ty: ResolvedType,
    pointer_bits: u32,
) -> Lowered {
    match promoted(ty, pointer_bits) {
        Some(NumericKind::Float(_)) => s.define(
            Op::Convert { op: Convert::Fpromote, value },
            IrType::F64,
        ),
        Some(NumericKind::Signed(_)) => s.define(
            Op::Convert { op: Convert::Sextend, value },
            IrType::I32,
        ),
        Some(NumericKind::Unsigned(_)) => s.define(
            Op::Convert { op: Convert::Uextend, value },
            IrType::I32,
        ),
        None => Lowered { state: s, values: seq![value] },
    }
}

/// The first `n` values handed to a call or return.
pub open spec fn passed(s: LoweringView, values: Seq<usize>, n: nat) -> LoweringView
    decreases n,
{
    if n == 0 {
        s
    } else {
        passed(s, values, (n - 1) as nat).push(Op::Pass(values[n - 1]), None)
    }
}

/// The first `n` results of a call.
pub open spec fn results(
    s: LoweringView,
    call: usize,
    leaves: Seq<Leaf>,
    pointer_bytes: u32,
    n: nat,
) -> Lowered
    decreases n,
{
    if n == 0 {
        Lowered { state: s, values: Seq::empty() }
    } else {
        let before = results(s, call, leaves, pointer_bytes, (n - 1) as nat);
        Lowered {
            state: before.state.push(
                Op::CallResult { call, index: (n - 1) as usize },
                Some(leaf_ir(leaves[n - 1], pointer_bytes)),
            ),
            values: before.values.push(before.state.next()),
        }
    }
}

/// A call of an address. A result that comes back indirectly is returned
/// through a slot whose address goes in front of the arguments, and is loaded
/// from there.
pub open spec fn called(
    s: LoweringView,
    callee: usize,
    fn_type: Rc<ResolvedFunctionType>,
    args: Seq<usize>,
    pointer_bytes: u32,
) -> Option<Lowered> {
    let ret = *fn_type.return_type;
    if returns_indirectly(ret, pointer_bytes) {
        let slot = s.next_slot();
        let address = s.with_slot(slot_for(ret, pointer_bytes)).define(
            Op::StackAddr { slot, offset: 0 },
            pointer_ir(pointer_bytes),
        );
        let all = address.values + args;
        let done = passed(address.state, all, all.len()).push(
            Op::CallIndirect { callee, fn_type, count: all.len() as usize },
            None,
        );
        loaded(done, Storage::Slot { slot, offset: 0 }, ret, pointer_bytes)
    } else {
        let ready = passed(s, args, args.len());
        let done = ready.push(
            Op::CallIndirect { callee, fn_type, count: args.len() as usize },
            None,
        );
        match returned(ret, pointer_bytes) {
            ReturnView::Direct(leaves) => Some(
                results(done, ready.next(), leaves, pointer_bytes, leaves.len()),
            ),
            _ => Some(Lowered { state: done, values: Seq::empty() }),
        }
    }
}

/// The address of the table with these slots; it is made once.
pub open spec fn table_address(
    frame: FrameView,
    s: LoweringView,
    concrete: ResolvedType,
    object: ResolvedType,
    slots: Rc<Vec<HirId>>,
) -> Option<Lowered> {
    match table_position(s.vtables, slots@, 0) {
        Some(index) => Some(s.define(Op::VtableAddr(index as usize), pointer_ir(frame.pb()))),
        None => if forall|i: int|
            0 <= i < slots@.len() ==> frame.functions.contains(#[trigger] slots@[i]) {
            Some(
                (LoweringView {
                    vtables: s.vtables.push(Vtable { concrete, object, slots }),
                    ..s
                }).define(Op::VtableAddr(s.vtables.len() as usize), pointer_ir(frame.pb())),
            )
        } else {
            None
        },
    }
}

/// The arguments of a call, flattened, as far as the first `n`.
pub open spec fn args_lowered(
    frame: FrameView,
    args: Seq<MirExprNode>,
    fn_type: ResolvedFunctionType,
    s: LoweringView,
    n: nat,
) -> Option<Lowered>
    decreases args, 0int, n,
{
    if n == 0 || n > args.len() {
        Some(Lowered { state: s, values: Seq::empty() })
    } else {
        match args_lowered(frame, args, fn_type, s, (n - 1) as nat) {
            Some(before) => match expr_lowered(frame, args[n - 1], before.state) {
                Some(arg) => {
                    let last = if fn_type.is_variadic && n - 1 >= fn_type.params@.len()
                        && arg.values.len() == 1 {
                        variadic_promoted(
                            arg.state,
                            arg.values[0],
                            args[n - 1].ty,
                            (frame.pb() * 8) as u32,
                        )
                    } else {
                        arg
                    };
                    Some(Lowered { values: before.values + last.values, ..last })
                },
                None => None,
            },
            None => None,
        }
    }
}

/// The values of the first `n` expressions, one after the other.
pub open spec fn nodes_lowered(frame: FrameView, nodes: Seq<MirExprNode>, s: LoweringView, n: nat) -> Option<
    Lowered,
>
    decreases nodes, 0int, n,
{
    if n == 0 || n > nodes.len() {
        Some(Lowered { state: s, values: Seq::empty() })
    } else {
        match nodes_lowered(frame, nodes, s, (n - 1) as nat) {
            Some(before) => match expr_lowered(frame, nodes[n - 1], before.state) {
                Some(last) => Some(Lowered { values: before.values + last.values, ..last }),
                None => None,
            },
            None => None,
        }
    }
}

/// The values given to the fields of a struct, in the order in which they are
/// written: by field, as far as the first `n`.
pub open spec fn fields_gathered(
    frame: FrameView,
    fields: Seq<MirFieldValue>,
    count: nat,
    s: LoweringView,
    n: nat,
) -> Option<(LoweringView, Seq<Option<Seq<usize>>>)>
    decreases fields, 0int, n,
{
    if n == 0 || n > fields.len() {
        Some((s, Seq::new(count, |i: int| None)))
    } else {
        match fields_gathered(frame, fields, count, s, (n - 1) as nat) {
            Some((before, per_field)) => match expr_lowered(
                frame,
                fields[n - 1].value,
                before,
            ) {
                Some(last) => if fields[n - 1].field_index < count {
                    Some(
                        (
                            last.state,
                            per_field.update(
                                fields[n - 1].field_index as int,
                                Some(last.values),
                            ),
                        ),
                    )
                } else {
                    None
                },
                None => None,
            },
            None => None,
        }
    }
}

/// The values of the first `n` fields, one after the other, where each has
/// been given some.
pub open spec fn flattened(per_field: Seq<Option<Seq<usize>>>, n: nat) -> Option<Seq<usize>>
    decreases n,
{
    if n == 0 {
        Some(Seq::empty())
    } else {
        match (flattened(per_field, (n - 1) as nat), per_field[n - 1]) {
            (Some(before), Some(last)) => Some(before + last),
            _ => None,
        }
    }
}

/// The values of a variant's fields, each stored where its field lies in a
/// slot, in the order in which they are written, as far as the first `n`.
pub open spec fn fields_placed(
    frame: FrameView,
    fields: Seq<MirFieldValue>,
    offsets: Seq<nat>,
    slot: usize,
    s: LoweringView,
    n: nat,
) -> Option<LoweringView>
    decreases fields, 0int, n,
{
    if n == 0 || n > fields.len() {
        Some(s)
    } else {
        match fields_placed(frame, fields, offsets, slot, s, (n - 1) as nat) {
            Some(before) => if fields[n - 1].field_index < offsets.len() {
                match expr_lowered(frame, fields[n - 1].value, before) {
                    Some(last) => match moved(0, offsets[fields[n - 1].field_index as int]) {
                        Some(offset) => stored(
                            last.state,
                            Storage::Slot { slot, offset },
                            last.values,
                            last.values.len(),
                        ),
                        None => None,
                    },
                    None => None,
                }
            } else {
                None
            },
            None => None,
        }
    }
}

/// The data pointer and the length of what is sliced: an array's address and
/// size, or what another sequence holds. A pointer to an array of unknown size
/// has no length.
pub open spec fn sequence_parts(p: PlaceState, pointer_bytes: u32) -> Option<Lowered> {
    match p.ty {
        ResolvedType::SizedArray(_, size) => match addressed(
            p.state,
            p.storage,
            pointer_bytes,
        ) {
            Some(address) => {
                let length = address.state.define(Op::Iconst(size as i64), IrType::I32);
                Some(Lowered { values: address.values + length.values, ..length })
            },
            None => None,
        },
        ResolvedType::Slice { .. } | ResolvedType::Str { .. } => match loaded(
            p.state,
            p.storage,
            p.ty,
            pointer_bytes,
        ) {
            Some(found) => if found.values.len() >= 2 {
                Some(Lowered { values: seq![found.values[0], found.values[1]], ..found })
            } else {
                None
            },
            None => None,
        },
        ResolvedType::Array(_, _) => match loaded(p.state, p.storage, p.ty, pointer_bytes) {
            Some(found) => if found.values.len() >= 1 {
                let length = found.state.define(Op::Iconst(0), IrType::I32);
                Some(Lowered { values: seq![found.values[0], length.values[0]], ..length })
            } else {
                None
            },
            None => None,
        },
        _ => None,
    }
}

/// Where a slice starts: at an expression's value, or at zero.
pub open spec fn bound_lowered(frame: FrameView, bound: Option<Box<MirExprNode>>, s: LoweringView) -> Option<
    Lowered,
>
    decreases bound, 0int, 0nat,
{
    match bound {
        Some(expr) => first_of(expr_lowered(frame, *expr, s)),
        None => Some(s.define(Op::Iconst(0), IrType::I32)),
    }
}

/// Where a slice ends: at an expression's value, behind it where the range is
/// inclusive, or at the length.
pub open spec fn end_lowered(
    frame: FrameView,
    bound: Option<Box<MirExprNode>>,
    inclusive: bool,
    length: usize,
    s: LoweringView,
) -> Option<Lowered>
    decreases bound, 0int, 0nat,
{
    match bound {
        Some(expr) => match first_of(expr_lowered(frame, *expr, s)) {
            Some(end) => if inclusive {
                end.state.define_like(
                    Op::IaddImm { value: end.values[0], imm: 1 },
                    end.values[0],
                )
            } else {
                Some(end)
            },
            None => None,
        },
        None => Some(Lowered { state: s, values: seq![length] }),
    }
}

/// The data pointer and the length of part of a sequence.
pub open spec fn sliced(
    s: LoweringView,
    data: usize,
    start: usize,
    end: usize,
    size: nat,
    pointer_bytes: u32,
) -> Option<Lowered> {
    let ptr = pointer_ir(pointer_bytes);
    match pointer_wide(s, start, pointer_bytes) {
        Some(wide) => {
            let scale = wide.state.define(Op::Iconst(size as i64), ptr);
            let along = scale.state.define(
                Op::Binary { op: Arith::Imul, left: wide.values[0], right: scale.values[0] },
                ptr,
            );
            match along.state.define_like(
                Op::Binary { op: Arith::Iadd, left: data, right: along.values[0] },
                data,
            ) {
                Some(pointer) => match pointer.state.define_like(
                    Op::Binary { op: Arith::Isub, left: end, right: start },
                    end,
                ) {
                    Some(length) => Some(
                        Lowered { values: pointer.values + length.values, ..length },
                    ),
                    None => None,
                },
                None => None,
            }
        },
        None => None,
    }
}

/// The conversion a cast of one value is.
pub open spec fn conversion(kind: CastKind) -> Option<Convert> {
    match kind {
        CastKind::IntExtend { signed } => Some(
            if signed {
                Convert::Sextend
            } else {
                Convert::Uextend
            },
        ),
        CastKind::IntTruncate => Some(Convert::Ireduce),
        CastKind::IntToFloat { signed } => Some(
            if signed {
                Convert::FcvtFromSint
            } else {
                Convert::FcvtFromUint
            },
        ),
        CastKind::FloatToInt { signed } => Some(
            if signed {
                Convert::FcvtToSintSat
            } else {
                Convert::FcvtToUintSat
            },
        ),
        CastKind::FloatExtend => Some(Convert::Fpromote),
        CastKind::FloatTruncate => Some(Convert::Fdemote),
        _ => None,
    }
}

/// Values as a cast makes them. Narrowing a spec object moves its table
/// pointer to the section of the narrower spec.
pub open spec fn converted(
    base: Lowered,
    kind: CastKind,
    source: ResolvedType,
    target: IrType,
    pointer_bytes: u32,
) -> Option<Lowered> {
    match kind {
        CastKind::Reinterpret => Some(base),
        CastKind::DropLength => first_of(Some(base)),
        CastKind::Unsize => match unsized_length(source) {
            Some(size) => if base.values.len() > 0 {
                let length = base.state.define(Op::Iconst(size as i64), IrType::I32);
                Some(Lowered { values: seq![base.values[0], length.values[0]], ..length })
            } else {
                None
            },
            None => None,
        },
        CastKind::SpecNarrow { slot_offset } => if base.values.len() >= 2 {
            match base.state.define_like(
                Op::IaddImm {
                    value: base.values[1],
                    imm: (slot_offset * pointer_bytes) as i64,
                },
                base.values[1],
            ) {
                Some(table) => Some(
                    Lowered { values: seq![base.values[0], table.values[0]], ..table },
                ),
                None => None,
            }
        } else {
            None
        },
        _ => match conversion(kind) {
            Some(op) => if base.values.len() > 0 {
                Some(
                    base.state.define(Op::Convert { op, value: base.values[0] }, target),
                )
            } else {
                None
            },
            None => None,
        },
    }
}

/// A value of an enum's variant: the tag and header of the variant, a cleared
/// payload, and the fields, put together in a slot and loaded from it.
pub open spec fn constructed(
    frame: FrameView,
    construct: MirEnumConstruct,
    ty: ResolvedType,
    s: LoweringView,
) -> Option<Lowered>
    decreases construct, 0int, 0nat,
{
    let pb = frame.pb();
    match ty {
        ResolvedType::Enum { cell, .. } => if construct.variant_index < cell.variants@.len() {
            let variant = cell.variants@[construct.variant_index as int];
            let slot = s.next_slot();
            let cleared = chunks(payload_width(*cell, pb));
            match prefix_stored(
                s.with_slot(slot_for(ty, pb)),
                variant.tag,
                variant.header_values@,
                *cell,
                slot,
                pb,
            ) {
                Some(headed) => match zero_filled(
                    headed,
                    cleared,
                    slot,
                    payload_of(*cell, pb) as u32,
                    pb,
                    cleared.len(),
                ) {
                    Some(empty) => match fields_placed(
                        frame,
                        construct.fields@,
                        dynamic_offsets(*cell, pb) + body_offsets(
                            *cell,
                            construct.variant_index as int,
                            pb,
                        ),
                        slot,
                        empty,
                        construct.fields@.len(),
                    ) {
                        Some(whole) => loaded(whole, Storage::Slot { slot, offset: 0 }, ty, pb),
                        None => None,
                    },
                    None => None,
                },
                None => None,
            }
        } else {
            None
        },
        _ => None,
    }
}

/// The values of a call.
pub open spec fn call_lowered(frame: FrameView, call: MirFunctionCall, s: LoweringView) -> Option<
    Lowered,
>
    decreases call, 0int, 0nat,
{
    match first_of(expr_lowered(frame, *call.callee, s)) {
        Some(callee) => match args_lowered(
            frame,
            call.args@,
            *call.fn_type,
            callee.state,
            call.args@.len(),
        ) {
            Some(args) => called(
                args.state,
                callee.values[0],
                call.fn_type,
                args.values,
                frame.pb(),
            ),
            None => None,
        },
        None => None,
    }
}

/// A spec object: a data pointer and the table of its methods.
pub open spec fn coerce_lowered(
    frame: FrameView,
    coerce: MirSpecCoerce,
    ty: ResolvedType,
    s: LoweringView,
) -> Option<Lowered>
    decreases coerce, 0int, 0nat,
{
    match (ty, coerce.base.ty) {
        (ResolvedType::SpecObject { .. }, ResolvedType::Pointer { pointee, .. }) => match first_of(
            expr_lowered(frame, *coerce.base, s),
        ) {
            Some(data) => match table_address(frame, data.state, *pointee, ty, coerce.slots) {
                Some(table) => Some(Lowered { values: data.values + table.values, ..table }),
                None => None,
            },
            None => None,
        },
        _ => None,
    }
}

/// The values of a call through a spec object: the function is loaded from the
/// object's table, and the data pointer goes in front of the arguments.
pub open spec fn dynamic_lowered(frame: FrameView, call: MirDynamicCall, s: LoweringView) -> Option<
    Lowered,
>
    decreases call, 0int, 0nat,
{
    let pb = frame.pb();
    match place_lowered(frame, call.base, s) {
        Some(base) => match moved(0, (call.slot_index * pb) as nat) {
            Some(offset) => if base.values.len() == 2 {
                let entry = base.state.define(
                    Op::Load { base: base.values[1], offset },
                    pointer_ir(pb),
                );
                match nodes_lowered(frame, call.args@, entry.state, call.args@.len()) {
                    Some(args) => called(
                        args.state,
                        entry.values[0],
                        call.fn_type,
                        seq![base.values[0]] + args.values,
                        pb,
                    ),
                    None => None,
                }
            } else {
                None
            },
            None => None,
        },
        None => None,
    }
}

/// The values of an operator's result.
pub open spec fn binary_lowered(frame: FrameView, binary: MirBinaryOp, s: LoweringView) -> Option<
    Lowered,
>
    decreases binary, 0int, 0nat,
{
    match operand_kind(binary.left.ty, (frame.pb() * 8) as u32) {
        Some(kind) => match first_of(expr_lowered(frame, *binary.left, s)) {
            Some(left) => match first_of(expr_lowered(frame, *binary.right, left.state)) {
                Some(right) => operated(
                    right.state,
                    binary.op,
                    kind,
                    left.values[0],
                    right.values[0],
                ),
                None => None,
            },
            None => None,
        },
        None => None,
    }
}

/// The values of a struct, in the order of its fields.
pub open spec fn struct_lowered(
    frame: FrameView,
    fields: Seq<MirFieldValue>,
    ty: ResolvedType,
    s: LoweringView,
) -> Option<Lowered>
    decreases fields, 1int, 0nat,
{
    match ty {
        ResolvedType::Struct(cell) => match fields_gathered(
            frame,
            fields,
            cell.fields@.len(),
            s,
            fields.len(),
        ) {
            Some((state, per_field)) => match flattened(per_field, per_field.len()) {
                Some(values) => Some(Lowered { state, values }),
                None => None,
            },
            None => None,
        },
        _ => None,
    }
}

/// The values of a union: its cleared storage with one field stored over it.
pub open spec fn union_lowered(
    frame: FrameView,
    field: MirFieldValue,
    ty: ResolvedType,
    s: LoweringView,
) -> Option<Lowered>
    decreases field, 0int, 0nat,
{
    let pb = frame.pb();
    let storage = Storage::Slot { slot: s.next_slot(), offset: 0 };
    let leaves = leaves_spec(ty, pb);
    match zero_filled(
        s.with_slot(SlotData { size: size_of(ty, pb) as u32, align_shift: 4 }),
        leaves,
        s.next_slot(),
        0,
        pb,
        leaves.len(),
    ) {
        Some(empty) => match expr_lowered(frame, field.value, empty) {
            Some(value) => match stored(
                value.state,
                storage,
                value.values,
                value.values.len(),
            ) {
                Some(whole) => loaded(whole, storage, ty, pb),
                None => None,
            },
            None => None,
        },
        None => None,
    }
}

/// Part of the sequence at a place, as its data pointer and its length.
pub open spec fn slice_of(frame: FrameView, slice: MirSlice, parts: Lowered) -> Option<Lowered>
    decreases slice, 0int, 0nat,
{
    match bound_lowered(frame, slice.start, parts.state) {
        Some(start) => match end_lowered(
            frame,
            slice.end,
            slice.inclusive,
            parts.values[1],
            start.state,
        ) {
            Some(end) => sliced(
                end.state,
                parts.values[0],
                start.values[0],
                end.values[0],
                size_of(slice.item_type, frame.pb()),
                frame.pb(),
            ),
            None => None,
        },
        None => None,
    }
}

/// The data pointer and the length of a slice.
pub open spec fn slice_lowered(frame: FrameView, slice: MirSlice, s: LoweringView) -> Option<Lowered>
    decreases slice, 1int, 0nat,
{
    match place_resolved(frame, slice.base, s) {
        Some(base) => match sequence_parts(base, frame.pb()) {
            Some(parts) => slice_of(frame, slice, parts),
            None => None,
        },
        None => None,
    }
}

/// The values of a cast's result.
pub open spec fn cast_lowered(frame: FrameView, cast: MirCast, s: LoweringView) -> Option<Lowered>
    decreases cast, 0int, 0nat,
{
    let pb = frame.pb();
    match expr_lowered(frame, *cast.base, s) {
        Some(base) => if leaves_spec(cast.target_type, pb).len() > 0 {
            converted(
                base,
                cast.kind,
                cast.base.ty,
                leaf_ir(leaves_spec(cast.target_type, pb)[0], pb),
                pb,
            )
        } else {
            None
        },
        None => None,
    }
}

/// An expression's values. Nothing where the expression is not one that a
/// checked function holds.
pub open spec fn expr_lowered(frame: FrameView, node: MirExprNode, s: LoweringView) -> Option<Lowered>
    decreases node, 0int, 0nat,
{
    let pb = frame.pb();
    match node.kind {
        MirExpr::Str(text) => bytes_emitted(s, text@, pb),
        MirExpr::ByteString(text) => bytes_emitted(s, text@, pb),
        MirExpr::Const(value) => const_emitted(s, *value, node.ty, pb),
        MirExpr::InlineAsm(_) => None,
        MirExpr::FunctionCall(call) => call_lowered(frame, call, s),
        MirExpr::SpecCoerce(coerce) => coerce_lowered(frame, coerce, node.ty, s),
        MirExpr::DynamicCall(call) => dynamic_lowered(frame, call, s),
        MirExpr::Number(number) => if leaves_spec(node.ty, pb).len() > 0 {
            Some(number_emitted(s, number, leaf_ir(leaves_spec(node.ty, pb)[0], pb)))
        } else {
            None
        },
        MirExpr::Bool(flag) => Some(
            s.define(
                Op::Iconst(
                    if flag {
                        1
                    } else {
                        0
                    },
                ),
                IrType::I8,
            ),
        ),
        MirExpr::Sizeof(ty) => Some(s.define(Op::Iconst(size_of(ty, pb) as i64), pointer_ir(pb))),
        MirExpr::Char(c) => Some(s.define(Op::Iconst(c as i64), IrType::I32)),
        MirExpr::Place(place) => place_lowered(frame, place, s),
        MirExpr::Assignment(assignment) => match expr_lowered(frame, *assignment.value, s) {
            Some(value) => match place_resolved(frame, assignment.target, value.state) {
                Some(target) => match stored(
                    target.state,
                    target.storage,
                    value.values,
                    value.values.len(),
                ) {
                    Some(state) => Some(Lowered { state, values: value.values }),
                    None => None,
                },
                None => None,
            },
            None => None,
        },
        MirExpr::AddressOf(place) => match place_resolved(frame, place, s) {
            Some(found) => addressed(found.state, found.storage, pb),
            None => None,
        },
        MirExpr::Negate(base) => match first_of(expr_lowered(frame, *base, s)) {
            Some(value) => value.state.define_like(
                if is_float(base.ty, (pb * 8) as u32) {
                    Op::Fneg(value.values[0])
                } else {
                    Op::Ineg(value.values[0])
                },
                value.values[0],
            ),
            None => None,
        },
        MirExpr::BitNot(base) => match first_of(expr_lowered(frame, *base, s)) {
            Some(value) => value.state.define_like(Op::Bnot(value.values[0]), value.values[0]),
            None => None,
        },
        MirExpr::BinaryOp(binary) => binary_lowered(frame, binary, s),
        MirExpr::ArrayLiteral(elements) => nodes_lowered(frame, elements@, s, elements@.len()),
        MirExpr::StructLiteral(fields) => struct_lowered(frame, fields@, node.ty, s),
        MirExpr::EnumConstruct(construct) => constructed(frame, construct, node.ty, s),
        MirExpr::UnionConstruct(field) => union_lowered(frame, *field, node.ty, s),
        MirExpr::Slice(slice) => slice_lowered(frame, slice, s),
        MirExpr::Cast(cast) => cast_lowered(frame, cast, s),
    }
}

fn first_value(values: &Option<Vec<usize>>) -> (value: Option<usize>)
    ensures
        match *values {
            Some(found) => if found@.len() > 0 {
                value == Some(found@[0])
            } else {
                value is None
            },
            None => value is None,
        },
{
    match values {
        Some(found) => if found.len() > 0 {
            Some(found[0])
        } else {
            None
        },
        None => None,
    }
}

fn arith_for(op: BinaryOp, kind: NumericKind) -> (arith: Option<Arith>)
    ensures
        arith == arith_of(op, kind),
{
    match (op, kind) {
        (BinaryOp::Add, NumericKind::Float(_)) => Some(Arith::Fadd),
        (BinaryOp::Add, _) => Some(Arith::Iadd),
        (BinaryOp::Sub, NumericKind::Float(_)) => Some(Arith::Fsub),
        (BinaryOp::Sub, _) => Some(Arith::Isub),
        (BinaryOp::Mul, NumericKind::Float(_)) => Some(Arith::Fmul),
        (BinaryOp::Mul, _) => Some(Arith::Imul),
        (BinaryOp::Div, NumericKind::Float(_)) => Some(Arith::Fdiv),
        (BinaryOp::Div, NumericKind::Signed(_)) => Some(Arith::Sdiv),
        (BinaryOp::Div, NumericKind::Unsigned(_)) => Some(Arith::Udiv),
        (BinaryOp::Rem, NumericKind::Signed(_)) => Some(Arith::Srem),
        (BinaryOp::Rem, NumericKind::Unsigned(_)) => Some(Arith::Urem),
        (BinaryOp::BitAnd, _) => Some(Arith::Band),
        (BinaryOp::BitOr, _) => Some(Arith::Bor),
        (BinaryOp::BitXor, _) => Some(Arith::Bxor),
        (BinaryOp::Shl, _) => Some(Arith::Ishl),
        (BinaryOp::Shr, NumericKind::Signed(_)) => Some(Arith::Sshr),
        (BinaryOp::Shr, NumericKind::Unsigned(_)) => Some(Arith::Ushr),
        _ => None,
    }
}

fn float_comparison(op: BinaryOp) -> (cc: Option<FloatCC>)
    ensures
        cc == float_cc(op),
{
    match op {
        BinaryOp::Eq => Some(FloatCC::Equal),
        BinaryOp::Ne => Some(FloatCC::NotEqual),
        BinaryOp::Lt => Some(FloatCC::LessThan),
        BinaryOp::Le => Some(FloatCC::LessThanOrEqual),
        BinaryOp::Gt => Some(FloatCC::GreaterThan),
        BinaryOp::Ge => Some(FloatCC::GreaterThanOrEqual),
        _ => None,
    }
}

fn int_comparison(op: BinaryOp, signed: bool) -> (cc: Option<IntCC>)
    ensures
        cc == int_cc(op, signed),
{
    match (op, signed) {
        (BinaryOp::Eq, _) => Some(IntCC::Equal),
        (BinaryOp::Ne, _) => Some(IntCC::NotEqual),
        (BinaryOp::Lt, true) => Some(IntCC::SignedLessThan),
        (BinaryOp::Lt, false) => Some(IntCC::UnsignedLessThan),
        (BinaryOp::Le, true) => Some(IntCC::SignedLessThanOrEqual),
        (BinaryOp::Le, false) => Some(IntCC::UnsignedLessThanOrEqual),
        (BinaryOp::Gt, true) => Some(IntCC::SignedGreaterThan),
        (BinaryOp::Gt, false) => Some(IntCC::UnsignedGreaterThan),
        (BinaryOp::Ge, true) => Some(IntCC::SignedGreaterThanOrEqual),
        (BinaryOp::Ge, false) => Some(IntCC::UnsignedGreaterThanOrEqual),
        _ => None,
    }
}

fn conversion_for(kind: CastKind) -> (op: Option<Convert>)
    ensures
        op == conversion(kind),
{
    match kind {
        CastKind::IntExtend { signed: true } => Some(Convert::Sextend),
        CastKind::IntExtend { signed: false } => Some(Convert::Uextend),
        CastKind::IntTruncate => Some(Convert::Ireduce),
        CastKind::IntToFloat { signed: true } => Some(Convert::FcvtFromSint),
        CastKind::IntToFloat { signed: false } => Some(Convert::FcvtFromUint),
        CastKind::FloatToInt { signed: true } => Some(Convert::FcvtToSintSat),
        CastKind::FloatToInt { signed: false } => Some(Convert::FcvtToUintSat),
        CastKind::FloatExtend => Some(Convert::Fpromote),
        CastKind::FloatTruncate => Some(Convert::Fdemote),
        _ => None,
    }
}

impl Lowering {
    fn operate(&mut self, op: BinaryOp, kind: NumericKind, left: usize, right: usize) -> (value:
        Option<usize>)
        ensures
            match operated(old(self)@, op, kind, left, right) {
                Some(lowered) => {
                    &&& value is Some
                    &&& lowered.values == seq![value->0]
                    &&& final(self)@ == lowered.state
                },
                None => value is None,
            },
    {
        if let Some(arith) = arith_for(op, kind) {
            return self.define_like(Op::Binary { op: arith, left, right }, left);
        }
        match kind {
            NumericKind::Float(_) => match float_comparison(op) {
                Some(cc) => {
                    let value: usize = self.define(Op::Fcmp { cc, left, right }, IrType::I8);
                    Some(value)
                },
                None => None,
            },
            NumericKind::Signed(_) => match int_comparison(op, true) {
                Some(cc) => {
                    let value: usize = self.define(Op::Icmp { cc, left, right }, IrType::I8);
                    Some(value)
                },
                None => None,
            },
            NumericKind::Unsigned(_) => match int_comparison(op, false) {
                Some(cc) => {
                    let value: usize = self.define(Op::Icmp { cc, left, right }, IrType::I8);
                    Some(value)
                },
                None => None,
            },
        }
    }

    fn promote_variadic_arg(&mut self, value: usize, ty: &ResolvedType, frame: &Frame) -> (promoted:
        usize)
        ensures
            ({
                let lowered = variadic_promoted(
                    old(self)@,
                    value,
                    *ty,
                    (frame.pb() * 8) as u32,
                );
                lowered.values == seq![promoted] && final(self)@ == lowered.state
            }),
    {
        match variadic_promotion(ty, frame.target) {
            Some(NumericKind::Float(_)) => self.define(
                Op::Convert { op: Convert::Fpromote, value },
                IrType::F64,
            ),
            Some(NumericKind::Signed(_)) => self.define(
                Op::Convert { op: Convert::Sextend, value },
                IrType::I32,
            ),
            Some(NumericKind::Unsigned(_)) => self.define(
                Op::Convert { op: Convert::Uextend, value },
                IrType::I32,
            ),
            None => value,
        }
    }

    /// Hands values to the call or return that follows.
    pub fn pass_all(&mut self, values: &Vec<usize>)
        ensures
            final(self)@ == passed(old(self)@, values@, values@.len()),
    {
        let ghost before = self@;
        let mut i: usize = 0;
        while i < values.len()
            invariant
                i <= values@.len(),
                before == old(self)@,
                self@ == passed(before, values@, i as nat),
            decreases values.len() - i,
        {
            self.perform(Op::Pass(values[i]));
            i = i + 1;
        }
    }

    fn call_results(&mut self, call: usize, leaves: &Vec<Leaf>, pointer_bytes: u32) -> (values: Vec<
        usize,
    >)
        ensures
            ({
                let lowered = results(old(self)@, call, leaves@, pointer_bytes, leaves@.len());
                values@ == lowered.values && final(self)@ == lowered.state
            }),
    {
        let ghost before = self@;
        let mut values: Vec<usize> = Vec::new();
        let mut i: usize = 0;
        assert(values@ =~= Seq::empty());
        while i < leaves.len()
            invariant
                i <= leaves@.len(),
                before == old(self)@,
                results(before, call, leaves@, pointer_bytes, i as nat) == (Lowered {
                    state: self@,
                    values: values@,
                }),
            decreases leaves.len() - i,
        {
            let value: usize = self.define(
                Op::CallResult { call, index: i },
                cranelift_type(leaves[i], pointer_bytes),
            );
            values.push(value);
            i = i + 1;
        }
        values
    }

    fn emit_call_indirect(
        &mut self,
        frame: &Frame,
        callee: usize,
        fn_type: &Rc<ResolvedFunctionType>,
        args: Vec<usize>,
    ) -> (values: Option<Vec<usize>>)
        requires
            fn_measurable(**fn_type, frame.pb()),
        ensures
            match called(old(self)@, callee, *fn_type, args@, frame.pb()) {
                Some(lowered) => {
                    &&& values is Some
                    &&& values->0@ == lowered.values
                    &&& final(self)@ == lowered.state
                },
                None => values is None,
            },
    {
        let pb: u32 = frame.target.pointer_bytes();
        if needs_sret(frame.target, &fn_type.return_type) {
            let slot: usize = self.create_slot(stack_slot_for(&fn_type.return_type, pb));
            let address: usize = self.define(
                Op::StackAddr { slot, offset: 0 },
                pointer_type(pb),
            );
            let mut all: Vec<usize> = one_value(address);
            let mut rest: Vec<usize> = args;
            all.append(&mut rest);
            self.pass_all(&all);
            self.perform(
                Op::CallIndirect { callee, fn_type: share(fn_type), count: all.len() },
            );
            return self.load_scalars(
                &PlaceStorage::Slot { slot, offset: 0 },
                &fn_type.return_type,
                pb,
            );
        }
        self.pass_all(&args);
        let call: usize = self.steps.len();
        self.perform(Op::CallIndirect { callee, fn_type: share(fn_type), count: args.len() });
        match AbiReturn::for_type(frame.target, &fn_type.return_type) {
            AbiReturn::Direct(leaves) => Some(self.call_results(call, &leaves, pb)),
            _ => {
                let values: Vec<usize> = Vec::new();
                assert(values@ =~= Seq::empty());
                Some(values)
            },
        }
    }

    fn vtable_for(
        &mut self,
        frame: &Frame,
        concrete: &ResolvedType,
        object: &ResolvedType,
        slots: &Rc<Vec<HirId>>,
    ) -> (address: Option<usize>)
        ensures
            match table_address(frame@, old(self)@, *concrete, *object, *slots) {
                Some(lowered) => {
                    &&& address is Some
                    &&& lowered.values == seq![address->0]
                    &&& final(self)@ == lowered.state
                },
                None => address is None,
            },
    {
        let ptr: IrType = pointer_type(frame.target.pointer_bytes());
        let mut i: usize = 0;
        while i < self.vtables.len()
            invariant
                i <= self.vtables@.len(),
                self@ == old(self)@,
                ptr == pointer_ir(frame.pb()),
                table_position(self.vtables@, slots@, 0) == table_position(
                    self.vtables@,
                    slots@,
                    i as int,
                ),
            decreases self.vtables.len() - i,
        {
            if same_slots(&self.vtables[i].slots, slots) {
                let address: usize = self.define(Op::VtableAddr(i), ptr);
                return Some(address);
            }
            i = i + 1;
        }
        if !all_declared(&frame.functions, slots) {
            return None;
        }
        let index: usize = self.vtables.len();
        self.vtables.push(
            Vtable { concrete: concrete.clone(), object: object.clone(), slots: share(slots) },
        );
        let address: usize = self.define(Op::VtableAddr(index), ptr);
        Some(address)
    }
}

proof fn lemma_args_stop(
    frame: FrameView,
    args: Seq<MirExprNode>,
    fn_type: ResolvedFunctionType,
    s: LoweringView,
    n: nat,
    m: nat,
)
    requires
        n <= m <= args.len(),
        args_lowered(frame, args, fn_type, s, n) is None,
    ensures
        args_lowered(frame, args, fn_type, s, m) is None,
    decreases m,
{
    if n < m {
        lemma_args_stop(frame, args, fn_type, s, n, (m - 1) as nat);
    }
}

proof fn lemma_nodes_stop(frame: FrameView, nodes: Seq<MirExprNode>, s: LoweringView, n: nat, m: nat)
    requires
        n <= m <= nodes.len(),
        nodes_lowered(frame, nodes, s, n) is None,
    ensures
        nodes_lowered(frame, nodes, s, m) is None,
    decreases m,
{
    if n < m {
        lemma_nodes_stop(frame, nodes, s, n, (m - 1) as nat);
    }
}

proof fn lemma_gathering_stops(
    frame: FrameView,
    fields: Seq<MirFieldValue>,
    count: nat,
    s: LoweringView,
    n: nat,
    m: nat,
)
    requires
        n <= m <= fields.len(),
        fields_gathered(frame, fields, count, s, n) is None,
    ensures
        fields_gathered(frame, fields, count, s, m) is None,
    decreases m,
{
    if n < m {
        lemma_gathering_stops(frame, fields, count, s, n, (m - 1) as nat);
    }
}

proof fn lemma_placing_stops(
    frame: FrameView,
    fields: Seq<MirFieldValue>,
    offsets: Seq<nat>,
    slot: usize,
    s: LoweringView,
    n: nat,
    m: nat,
)
    requires
        n <= m <= fields.len(),
        fields_placed(frame, fields, offsets, slot, s, n) is None,
    ensures
        fields_placed(frame, fields, offsets, slot, s, m) is None,
    decreases m,
{
    if n < m {
        lemma_placing_stops(frame, fields, offsets, slot, s, n, (m - 1) as nat);
    }
}

proof fn lemma_flattening_stops(per_field: Seq<Option<Seq<usize>>>, n: nat, m: nat)
    requires
        n <= m,
        flattened(per_field, n) is None,
    ensures
        flattened(per_field, m) is None,
    decreases m,
{
    if n < m {
        lemma_flattening_stops(per_field, n, (m - 1) as nat);
    }
}

/// The values given to each field.
pub open spec fn given(per_field: Seq<Option<Vec<usize>>>) -> Seq<Option<Seq<usize>>> {
    per_field.map_values(
        |values: Option<Vec<usize>>|
            match values {
                Some(found) => Some(found@),
                None => None::<Seq<usize>>,
            },
    )
}

fn flatten(per_field: &Vec<Option<Vec<usize>>>) -> (values: Option<Vec<usize>>)
    ensures
        match flattened(given(per_field@), per_field@.len()) {
            Some(found) => values is Some && values->0@ == found,
            None => values is None,
        },
{
    let ghost all = given(per_field@);
    let mut values: Vec<usize> = Vec::new();
    let mut i: usize = 0;
    assert(values@ =~= Seq::empty());
    while i < per_field.len()
        invariant
            i <= per_field@.len(),
            all == given(per_field@),
            flattened(all, i as nat) == Some(values@),
        decreases per_field.len() - i,
    {
        match &per_field[i] {
            Some(found) => {
                let mut more: Vec<usize> = crate::codegen::cranelift::copy_values(found);
                assert(all[i as int] == Some(found@));
                values.append(&mut more);
            },
            None => {
                proof {
                    assert(all[i as int] is None);
                    lemma_flattening_stops(all, (i + 1) as nat, per_field@.len());
                }
                return None;
            },
        }
        i = i + 1;
    }
    Some(values)
}

impl Lowering {
    /// An expression's values.
    #[verifier::rlimit(60)]
    pub fn process_expr(&mut self, frame: &Frame, node: &MirExprNode) -> (values: Option<Vec<usize>>)
        requires
            node_fits(*node, frame.pb()),
        ensures
            match expr_lowered(frame@, *node, old(self)@) {
                Some(lowered) => {
                    &&& values is Some
                    &&& values->0@ == lowered.values
                    &&& final(self)@ == lowered.state
                },
                None => values is None,
            },
        decreases node, 0int,
    {
        let pb: u32 = frame.target.pointer_bytes();
        match &node.kind {
            MirExpr::Str(text) => self.emit_bytes(text, pb),
            MirExpr::ByteString(text) => self.emit_bytes(text, pb),
            MirExpr::Const(value) => self.emit_const_value(value, &node.ty, pb),
            MirExpr::InlineAsm(_) => None,
            MirExpr::FunctionCall(call) => self.lower_call(frame, call),
            MirExpr::SpecCoerce(coerce) => self.lower_coerce(frame, coerce, &node.ty),
            MirExpr::DynamicCall(call) => self.lower_dynamic_call(frame, call),
            MirExpr::Number(number) => {
                let leaves: Vec<Leaf> = leaves_of(&node.ty, pb);
                if leaves.len() > 0 {
                    let value: usize = self.emit_number(number, cranelift_type(leaves[0], pb));
                    Some(one_value(value))
                } else {
                    None
                }
            },
            MirExpr::Bool(flag) => {
                let bit: i64 = if *flag {
                    1
                } else {
                    0
                };
                let value: usize = self.define(Op::Iconst(bit), IrType::I8);
                Some(one_value(value))
            },
            MirExpr::Sizeof(ty) => {
                let size: u32 = total_bytes(ty, pb);
                let value: usize = self.define(Op::Iconst(size as i64), pointer_type(pb));
                Some(one_value(value))
            },
            MirExpr::Char(c) => {
                let value: usize = self.define(Op::Iconst(code_point(*c) as i64), IrType::I32);
                Some(one_value(value))
            },
            MirExpr::Place(place) => self.get_place_value(frame, place),
            MirExpr::Assignment(assignment) => {
                let values: Vec<usize> = match self.process_expr(frame, &assignment.value) {
                    Some(values) => values,
                    None => {
                        return None;
                    },
                };
                match self.resolve_place_storage(frame, &assignment.target) {
                    Some((storage, _)) => if self.store_scalars(&storage, &values) {
                        Some(values)
                    } else {
                        None
                    },
                    None => None,
                }
            },
            MirExpr::AddressOf(place) => match self.resolve_place_storage(frame, place) {
                Some((storage, _)) => match self.place_storage_address(&storage, pb) {
                    Some(address) => Some(one_value(address)),
                    None => None,
                },
                None => None,
            },
            MirExpr::Negate(base) => {
                let lowered: Option<Vec<usize>> = self.process_expr(frame, base);
                match first_value(&lowered) {
                    Some(value) => {
                        let float: bool = match base.ty.numeric_kind(frame.target.pointer_bits()) {
                            Some(NumericKind::Float(_)) => true,
                            _ => false,
                        };
                        let op: Op = if float {
                            Op::Fneg(value)
                        } else {
                            Op::Ineg(value)
                        };
                        match self.define_like(op, value) {
                            Some(result) => Some(one_value(result)),
                            None => None,
                        }
                    },
                    None => None,
                }
            },
            MirExpr::BitNot(base) => {
                let lowered: Option<Vec<usize>> = self.process_expr(frame, base);
                match first_value(&lowered) {
                    Some(value) => match self.define_like(Op::Bnot(value), value) {
                        Some(result) => Some(one_value(result)),
                        None => None,
                    },
                    None => None,
                }
            },
            MirExpr::BinaryOp(binary) => self.lower_binary(frame, binary),
            MirExpr::ArrayLiteral(elements) => self.lower_nodes(frame, elements),
            MirExpr::StructLiteral(fields) => self.lower_struct(frame, fields, &node.ty),
            MirExpr::EnumConstruct(construct) => self.lower_enum(frame, construct, &node.ty),
            MirExpr::UnionConstruct(field) => self.lower_union(frame, field, &node.ty),
            MirExpr::Slice(slice) => self.lower_slice(frame, slice),
            MirExpr::Cast(cast) => self.lower_cast(frame, cast),
        }
    }

    fn lower_call(
        &mut self,
        frame: &Frame,
        call: &MirFunctionCall,
    ) -> (values: Option<Vec<usize>>)
        requires
            node_fits(*call.callee, frame.pb()),
            nodes_fit(call.args@, frame.pb()),
            fn_measurable(*call.fn_type, frame.pb()),
        ensures
            match call_lowered(frame@, *call, old(self)@) {
                Some(lowered) => {
                    &&& values is Some
                    &&& values->0@ == lowered.values
                    &&& final(self)@ == lowered.state
                },
                None => values is None,
            },
        decreases call, 0int,
    {
        let lowered: Option<Vec<usize>> = self.process_expr(frame, &call.callee);
        let callee: usize = match first_value(&lowered) {
            Some(callee) => callee,
            None => {
                return None;
            },
        };
        match self.lower_args(frame, &call.args, &call.fn_type) {
            Some(args) => self.emit_call_indirect(frame, callee, &call.fn_type, args),
            None => None,
        }
    }

    fn lower_args(
        &mut self,
        frame: &Frame,
        args: &Vec<MirExprNode>,
        fn_type: &ResolvedFunctionType,
    ) -> (values: Option<Vec<usize>>)
        requires
            nodes_fit(args@, frame.pb()),
        ensures
            match args_lowered(frame@, args@, *fn_type, old(self)@, args@.len()) {
                Some(lowered) => {
                    &&& values is Some
                    &&& values->0@ == lowered.values
                    &&& final(self)@ == lowered.state
                },
                None => values is None,
            },
        decreases args, 0int,
    {
        let ghost before = self@;
        let mut all: Vec<usize> = Vec::new();
        let mut i: usize = 0;
        assert(all@ =~= Seq::empty());
        while i < args.len()
            invariant
                i <= args@.len(),
                nodes_fit(args@, frame.pb()),
                before == old(self)@,
                args_lowered(frame@, args@, *fn_type, before, i as nat) == Some(
                    Lowered { state: self@, values: all@ },
                ),
            decreases args.len() - i,
        {
            assert(node_fits(args@[i as int], frame.pb()));
            match self.process_expr(frame, &args[i]) {
                Some(found) => {
                    let mut more: Vec<usize> = found;
                    if fn_type.is_variadic && i >= fn_type.params.len() && more.len() == 1 {
                        let promoted: usize = self.promote_variadic_arg(
                            more[0],
                            &args[i].ty,
                            frame,
                        );
                        more = one_value(promoted);
                    }
                    all.append(&mut more);
                },
                None => {
                    proof {
                        lemma_args_stop(
                            frame@,
                            args@,
                            *fn_type,
                            before,
                            (i + 1) as nat,
                            args@.len(),
                        );
                    }
                    return None;
                },
            }
            i = i + 1;
        }
        Some(all)
    }

    fn lower_nodes(
        &mut self,
        frame: &Frame,
        nodes: &Vec<MirExprNode>,
    ) -> (values: Option<Vec<usize>>)
        requires
            nodes_fit(nodes@, frame.pb()),
        ensures
            match nodes_lowered(frame@, nodes@, old(self)@, nodes@.len()) {
                Some(lowered) => {
                    &&& values is Some
                    &&& values->0@ == lowered.values
                    &&& final(self)@ == lowered.state
                },
                None => values is None,
            },
        decreases nodes, 0int,
    {
        let ghost before = self@;
        let mut all: Vec<usize> = Vec::new();
        let mut i: usize = 0;
        assert(all@ =~= Seq::empty());
        while i < nodes.len()
            invariant
                i <= nodes@.len(),
                nodes_fit(nodes@, frame.pb()),
                before == old(self)@,
                nodes_lowered(frame@, nodes@, before, i as nat) == Some(
                    Lowered { state: self@, values: all@ },
                ),
            decreases nodes.len() - i,
        {
            assert(node_fits(nodes@[i as int], frame.pb()));
            match self.process_expr(frame, &nodes[i]) {
                Some(mut more) => {
                    all.append(&mut more);
                },
                None => {
                    proof {
                        lemma_nodes_stop(frame@, nodes@, before, (i + 1) as nat, nodes@.len());
                    }
                    return None;
                },
            }
            i = i + 1;
        }
        Some(all)
    }

    fn lower_coerce(
        &mut self,
        frame: &Frame,
        coerce: &MirSpecCoerce,
        ty: &ResolvedType,
    ) -> (values: Option<Vec<usize>>)
        requires
            node_fits(*coerce.base, frame.pb()),
        ensures
            match coerce_lowered(frame@, *coerce, *ty, old(self)@) {
                Some(lowered) => {
                    &&& values is Some
                    &&& values->0@ == lowered.values
                    &&& final(self)@ == lowered.state
                },
                None => values is None,
            },
        decreases coerce, 0int,
    {
        match (ty, &coerce.base.ty) {
            (ResolvedType::SpecObject { .. }, ResolvedType::Pointer { pointee, .. }) => {
                let lowered: Option<Vec<usize>> = self.process_expr(frame, &coerce.base);
                match first_value(&lowered) {
                    Some(data) => match self.vtable_for(frame, pointee, ty, &coerce.slots) {
                        Some(table) => {
                            let mut values: Vec<usize> = one_value(data);
                            values.push(table);
                            assert(values@ =~= seq![data] + seq![table]);
                            Some(values)
                        },
                        None => None,
                    },
                    None => None,
                }
            },
            _ => None,
        }
    }

    fn lower_dynamic_call(
        &mut self,
        frame: &Frame,
        call: &MirDynamicCall,
    ) -> (values: Option<Vec<usize>>)
        requires
            place_fits(call.base, frame.pb()),
            nodes_fit(call.args@, frame.pb()),
            fn_measurable(*call.fn_type, frame.pb()),
        ensures
            match dynamic_lowered(frame@, *call, old(self)@) {
                Some(lowered) => {
                    &&& values is Some
                    &&& values->0@ == lowered.values
                    &&& final(self)@ == lowered.state
                },
                None => values is None,
            },
        decreases call, 0int,
    {
        let pb: u32 = frame.target.pointer_bytes();
        let base: Vec<usize> = match self.get_place_value(frame, &call.base) {
            Some(values) => values,
            None => {
                return None;
            },
        };
        assert(call.slot_index as int * pb as int <= 0xffff_ffff * 0xffff_ffff) by (nonlinear_arith)
            requires
                0 <= call.slot_index <= 0xffff_ffff,
                0 <= pb <= 0xffff_ffff,
        ;
        let along: u64 = call.slot_index as u64 * pb as u64;
        if along > 0xffff_ffff || base.len() != 2 {
            return None;
        }
        let entry: usize = self.define(
            Op::Load { base: base[1], offset: along as u32 },
            pointer_type(pb),
        );
        match self.lower_nodes(frame, &call.args) {
            Some(mut more) => {
                let mut args: Vec<usize> = one_value(base[0]);
                args.append(&mut more);
                self.emit_call_indirect(frame, entry, &call.fn_type, args)
            },
            None => None,
        }
    }

    fn lower_binary(
        &mut self,
        frame: &Frame,
        binary: &MirBinaryOp,
    ) -> (values: Option<Vec<usize>>)
        requires
            node_fits(*binary.left, frame.pb()),
            node_fits(*binary.right, frame.pb()),
        ensures
            match binary_lowered(frame@, *binary, old(self)@) {
                Some(lowered) => {
                    &&& values is Some
                    &&& values->0@ == lowered.values
                    &&& final(self)@ == lowered.state
                },
                None => values is None,
            },
        decreases binary, 0int,
    {
        let kind: NumericKind = match kind_of_operand(
            &binary.left.ty,
            frame.target.pointer_bits(),
        ) {
            Some(kind) => kind,
            None => {
                return None;
            },
        };
        let lowered: Option<Vec<usize>> = self.process_expr(frame, &binary.left);
        let left: usize = match first_value(&lowered) {
            Some(left) => left,
            None => {
                return None;
            },
        };
        let lowered: Option<Vec<usize>> = self.process_expr(frame, &binary.right);
        match first_value(&lowered) {
            Some(right) => match self.operate(binary.op, kind, left, right) {
                Some(result) => Some(one_value(result)),
                None => None,
            },
            None => None,
        }
    }

    fn lower_struct(
        &mut self,
        frame: &Frame,
        fields: &Vec<MirFieldValue>,
        ty: &ResolvedType,
    ) -> (values: Option<Vec<usize>>)
        requires
            field_values_fit(fields@, frame.pb()),
        ensures
            match struct_lowered(frame@, fields@, *ty, old(self)@) {
                Some(lowered) => {
                    &&& values is Some
                    &&& values->0@ == lowered.values
                    &&& final(self)@ == lowered.state
                },
                None => values is None,
            },
        decreases fields, 0int,
    {
        let count: usize = match ty {
            ResolvedType::Struct(cell) => cell.fields.len(),
            _ => {
                return None;
            },
        };
        let ghost before = self@;
        let mut per_field: Vec<Option<Vec<usize>>> = Vec::new();
        let mut k: usize = 0;
        while k < count
            invariant
                k <= count,
                per_field@.len() == k,
                forall|j: int| 0 <= j < k ==> (#[trigger] per_field@[j]) is None,
            decreases count - k,
        {
            per_field.push(None);
            k = k + 1;
        }
        assert(given(per_field@) =~= Seq::new(count as nat, |i: int| None));
        let mut i: usize = 0;
        while i < fields.len()
            invariant
                i <= fields@.len(),
                field_values_fit(fields@, frame.pb()),
                before == old(self)@,
                per_field@.len() == count,
                match *ty {
                    ResolvedType::Struct(cell) => count == cell.fields@.len(),
                    _ => false,
                },
                fields_gathered(frame@, fields@, count as nat, before, i as nat) == Some(
                    (self@, given(per_field@)),
                ),
            decreases fields.len() - i,
        {
            assert(node_fits(fields@[i as int].value, frame.pb()));
            let field: &MirFieldValue = &fields[i];
            let lowered: Option<Vec<usize>> = self.process_expr(frame, &field.value);
            match lowered {
                Some(values) if field.field_index < count => {
                    let ghost earlier = per_field@;
                    per_field.set(field.field_index, Some(values));
                    assert(given(per_field@) =~= given(earlier).update(
                        field.field_index as int,
                        Some(values@),
                    ));
                },
                _ => {
                    proof {
                        lemma_gathering_stops(
                            frame@,
                            fields@,
                            count as nat,
                            before,
                            (i + 1) as nat,
                            fields@.len(),
                        );
                    }
                    return None;
                },
            }
            i = i + 1;
        }
        assert(given(per_field@).len() == count);
        flatten(&per_field)
    }

    fn place_fields(
        &mut self,
        frame: &Frame,
        fields: &Vec<MirFieldValue>,
        offsets: &Vec<u32>,
        slot: usize,
    ) -> (done: bool)
        requires
            field_values_fit(fields@, frame.pb()),
        ensures
            match fields_placed(
                frame@,
                fields@,
                as_nats(offsets@),
                slot,
                old(self)@,
                fields@.len(),
            ) {
                Some(after) => done && final(self)@ == after,
                None => !done,
            },
        decreases fields, 0int,
    {
        let ghost before = self@;
        let ghost places = as_nats(offsets@);
        let mut i: usize = 0;
        while i < fields.len()
            invariant
                i <= fields@.len(),
                field_values_fit(fields@, frame.pb()),
                before == old(self)@,
                places == as_nats(offsets@),
                places.len() == offsets@.len(),
                fields_placed(frame@, fields@, places, slot, before, i as nat) == Some(self@),
            decreases fields.len() - i,
        {
            assert(node_fits(fields@[i as int].value, frame.pb()));
            let field: &MirFieldValue = &fields[i];
            let done: bool = if field.field_index < offsets.len() {
                let offset: u32 = offsets[field.field_index];
                assert(places[field.field_index as int] == offset as nat);
                match self.process_expr(frame, &field.value) {
                    Some(values) => self.store_scalars(
                        &PlaceStorage::Slot { slot, offset },
                        &values,
                    ),
                    None => false,
                }
            } else {
                false
            };
            if !done {
                proof {
                    lemma_placing_stops(
                        frame@,
                        fields@,
                        places,
                        slot,
                        before,
                        (i + 1) as nat,
                        fields@.len(),
                    );
                }
                return false;
            }
            i = i + 1;
        }
        true
    }

    fn lower_enum(
        &mut self,
        frame: &Frame,
        construct: &MirEnumConstruct,
        ty: &ResolvedType,
    ) -> (values: Option<Vec<usize>>)
        requires
            measurable(*ty, frame.pb()),
            field_values_fit(construct.fields@, frame.pb()),
            match *ty {
                ResolvedType::Enum { cell, .. } => {
                    &&& leaves_spec(cell.tag_type, frame.pb()).len() > 0
                    &&& construct.variant_index < cell.variants@.len() ==> fields_fit(
                        cell.variants@[construct.variant_index as int].header_values@,
                        cell.header@,
                        frame.pb(),
                    )
                },
                _ => true,
            },
        ensures
            match constructed(frame@, *construct, *ty, old(self)@) {
                Some(lowered) => {
                    &&& values is Some
                    &&& values->0@ == lowered.values
                    &&& final(self)@ == lowered.state
                },
                None => values is None,
            },
        decreases construct, 0int,
    {
        let pb: u32 = frame.target.pointer_bytes();
        match ty {
            ResolvedType::Enum { cell, .. } => {
                if construct.variant_index >= cell.variants.len() {
                    return None;
                }
                assert(crate::layout::parts_measurable(*ty, pb));
                assert(crate::layout::parts_measurable(
                    ResolvedType::Enum { cell: *cell, variant: None },
                    pb,
                ));
                assert(enum_measurable(**cell, pb));
                let variant = &cell.variants[construct.variant_index];
                let slot: usize = self.create_slot(stack_slot_for(ty, pb));
                if !self.store_prefix(&variant.tag, &variant.header_values, cell, slot, pb) {
                    return None;
                }
                let cleared: Vec<Leaf> = payload_chunks(named_payload_bytes(cell, pb));
                if !self.zero_fill(&cleared, slot, named_payload_offset(cell, pb), pb) {
                    return None;
                }
                let mut offsets: Vec<u32> = offsets_of_dynamic(cell, pb);
                let mut own: Vec<u32> = offsets_of_body(cell, construct.variant_index, pb);
                let ghost shared = offsets@;
                let ghost body = own@;
                offsets.append(&mut own);
                assert(as_nats(offsets@) =~= as_nats(shared) + as_nats(body));
                if !self.place_fields(frame, &construct.fields, &offsets, slot) {
                    return None;
                }
                self.load_scalars(&PlaceStorage::Slot { slot, offset: 0 }, ty, pb)
            },
            _ => None,
        }
    }

    fn lower_union(
        &mut self,
        frame: &Frame,
        field: &MirFieldValue,
        ty: &ResolvedType,
    ) -> (values: Option<Vec<usize>>)
        requires
            measurable(*ty, frame.pb()),
            node_fits(field.value, frame.pb()),
        ensures
            match union_lowered(frame@, *field, *ty, old(self)@) {
                Some(lowered) => {
                    &&& values is Some
                    &&& values->0@ == lowered.values
                    &&& final(self)@ == lowered.state
                },
                None => values is None,
            },
        decreases field, 0int,
    {
        let pb: u32 = frame.target.pointer_bytes();
        let slot: usize = self.create_slot(
            SlotData { size: total_bytes(ty, pb), align_shift: 4 },
        );
        let leaves: Vec<Leaf> = leaves_of(ty, pb);
        if !self.zero_fill(&leaves, slot, 0, pb) {
            return None;
        }
        let storage = PlaceStorage::Slot { slot, offset: 0 };
        match self.process_expr(frame, &field.value) {
            Some(values) => if self.store_scalars(&storage, &values) {
                self.load_scalars(&storage, ty, pb)
            } else {
                None
            },
            None => None,
        }
    }

    fn split_sequence(&mut self, storage: &PlaceStorage, ty: &ResolvedType, pointer_bytes: u32) -> (
        parts: Option<(usize, usize)>)
        requires
            measurable(*ty, pointer_bytes),
        ensures
            match sequence_parts(
                PlaceState { state: old(self)@, storage: storage@, ty: *ty },
                pointer_bytes,
            ) {
                Some(lowered) => {
                    &&& parts is Some
                    &&& lowered.values == seq![(parts->0).0, (parts->0).1]
                    &&& final(self)@ == lowered.state
                },
                None => parts is None,
            },
    {
        match ty {
            ResolvedType::SizedArray(_, size) => match self.place_storage_address(
                storage,
                pointer_bytes,
            ) {
                Some(data) => {
                    let length: usize = self.define(Op::Iconst(*size as i64), IrType::I32);
                    assert(seq![data] + seq![length] =~= seq![data, length]);
                    Some((data, length))
                },
                None => None,
            },
            ResolvedType::Slice { .. } | ResolvedType::Str { .. } => match self.load_scalars(
                storage,
                ty,
                pointer_bytes,
            ) {
                Some(values) => if values.len() >= 2 {
                    Some((values[0], values[1]))
                } else {
                    None
                },
                None => None,
            },
            ResolvedType::Array(_, _) => match self.load_scalars(storage, ty, pointer_bytes) {
                Some(values) => if values.len() >= 1 {
                    let length: usize = self.define(Op::Iconst(0), IrType::I32);
                    Some((values[0], length))
                } else {
                    None
                },
                None => None,
            },
            _ => None,
        }
    }

    fn cut(
        &mut self,
        data: usize,
        start: usize,
        end: usize,
        size: u32,
        pointer_bytes: u32,
    ) -> (values: Option<Vec<usize>>)
        ensures
            match sliced(old(self)@, data, start, end, size as nat, pointer_bytes) {
                Some(lowered) => {
                    &&& values is Some
                    &&& values->0@ == lowered.values
                    &&& final(self)@ == lowered.state
                },
                None => values is None,
            },
    {
        let ptr: IrType = pointer_type(pointer_bytes);
        let wide: usize = match self.widen_to_pointer(start, pointer_bytes) {
            Some(wide) => wide,
            None => {
                return None;
            },
        };
        let scale: usize = self.define(Op::Iconst(size as i64), ptr);
        let along: usize = self.define(
            Op::Binary { op: Arith::Imul, left: wide, right: scale },
            ptr,
        );
        match self.define_like(Op::Binary { op: Arith::Iadd, left: data, right: along }, data) {
            Some(pointer) => match self.define_like(
                Op::Binary { op: Arith::Isub, left: end, right: start },
                end,
            ) {
                Some(length) => {
                    let mut values: Vec<usize> = one_value(pointer);
                    values.push(length);
                    assert(values@ =~= seq![pointer] + seq![length]);
                    Some(values)
                },
                None => None,
            },
            None => None,
        }
    }

    fn lower_bound(&mut self, frame: &Frame, bound: &Option<Box<MirExprNode>>) -> (value: Option<
        usize,
    >)
        requires
            match *bound {
                Some(expr) => node_fits(*expr, frame.pb()),
                None => true,
            },
        ensures
            match bound_lowered(frame@, *bound, old(self)@) {
                Some(lowered) => {
                    &&& value is Some
                    &&& lowered.values == seq![value->0]
                    &&& final(self)@ == lowered.state
                },
                None => value is None,
            },
        decreases bound, 0int,
    {
        match bound {
            Some(expr) => {
                let lowered: Option<Vec<usize>> = self.process_expr(frame, expr);
                first_value(&lowered)
            },
            None => {
                let value: usize = self.define(Op::Iconst(0), IrType::I32);
                Some(value)
            },
        }
    }

    fn lower_end(
        &mut self,
        frame: &Frame,
        bound: &Option<Box<MirExprNode>>,
        inclusive: bool,
        length: usize,
    ) -> (value: Option<usize>)
        requires
            match *bound {
                Some(expr) => node_fits(*expr, frame.pb()),
                None => true,
            },
        ensures
            match end_lowered(frame@, *bound, inclusive, length, old(self)@) {
                Some(lowered) => {
                    &&& value is Some
                    &&& lowered.values == seq![value->0]
                    &&& final(self)@ == lowered.state
                },
                None => value is None,
            },
        decreases bound, 0int,
    {
        match bound {
            Some(expr) => {
                let lowered: Option<Vec<usize>> = self.process_expr(frame, expr);
                match first_value(&lowered) {
                    Some(end) => if inclusive {
                        self.define_like(Op::IaddImm { value: end, imm: 1 }, end)
                    } else {
                        Some(end)
                    },
                    None => None,
                }
            },
            None => Some(length),
        }
    }

    fn lower_slice(
        &mut self,
        frame: &Frame,
        slice: &MirSlice,
    ) -> (values: Option<Vec<usize>>)
        requires
            place_fits(slice.base, frame.pb()),
            measurable(slice.item_type, frame.pb()),
            match slice.start {
                Some(start) => node_fits(*start, frame.pb()),
                None => true,
            },
            match slice.end {
                Some(end) => node_fits(*end, frame.pb()),
                None => true,
            },
        ensures
            match slice_lowered(frame@, *slice, old(self)@) {
                Some(lowered) => {
                    &&& values is Some
                    &&& values->0@ == lowered.values
                    &&& final(self)@ == lowered.state
                },
                None => values is None,
            },
        decreases slice, 1int,
    {
        let pb: u32 = frame.target.pointer_bytes();
        let (storage, ty) = match self.resolve_place_storage(frame, &slice.base) {
            Some(found) => found,
            None => {
                return None;
            },
        };
        let (data, length) = match self.split_sequence(&storage, &ty, pb) {
            Some(parts) => parts,
            None => {
                return None;
            },
        };
        self.slice_parts(frame, slice, data, length)
    }

    fn slice_parts(&mut self, frame: &Frame, slice: &MirSlice, data: usize, length: usize) -> (values:
        Option<Vec<usize>>)
        requires
            measurable(slice.item_type, frame.pb()),
            match slice.start {
                Some(start) => node_fits(*start, frame.pb()),
                None => true,
            },
            match slice.end {
                Some(end) => node_fits(*end, frame.pb()),
                None => true,
            },
        ensures
            match slice_of(
                frame@,
                *slice,
                Lowered { state: old(self)@, values: seq![data, length] },
            ) {
                Some(lowered) => {
                    &&& values is Some
                    &&& values->0@ == lowered.values
                    &&& final(self)@ == lowered.state
                },
                None => values is None,
            },
        decreases slice, 0int,
    {
        let pb: u32 = frame.target.pointer_bytes();
        let start: usize = match self.lower_bound(frame, &slice.start) {
            Some(start) => start,
            None => {
                return None;
            },
        };
        let end: usize = match self.lower_end(frame, &slice.end, slice.inclusive, length) {
            Some(end) => end,
            None => {
                return None;
            },
        };
        self.cut(data, start, end, total_bytes(&slice.item_type, pb), pb)
    }

    fn lower_cast(
        &mut self,
        frame: &Frame,
        cast: &MirCast,
    ) -> (values: Option<Vec<usize>>)
        requires
            node_fits(*cast.base, frame.pb()),
            measurable(cast.target_type, frame.pb()),
        ensures
            match cast_lowered(frame@, *cast, old(self)@) {
                Some(lowered) => {
                    &&& values is Some
                    &&& values->0@ == lowered.values
                    &&& final(self)@ == lowered.state
                },
                None => values is None,
            },
        decreases cast, 0int,
    {
        let pb: u32 = frame.target.pointer_bytes();
        let base: Vec<usize> = match self.process_expr(frame, &cast.base) {
            Some(values) => values,
            None => {
                return None;
            },
        };
        let leaves: Vec<Leaf> = leaves_of(&cast.target_type, pb);
        if leaves.len() == 0 {
            return None;
        }
        let target: IrType = cranelift_type(leaves[0], pb);
        match cast.kind {
            CastKind::Reinterpret => Some(base),
            CastKind::DropLength => if base.len() > 0 {
                Some(one_value(base[0]))
            } else {
                None
            },
            CastKind::Unsize => {
                let size: u32 = match &cast.base.ty {
                    ResolvedType::Pointer { pointee, .. } => match &**pointee {
                        ResolvedType::SizedArray(_, size) => *size,
                        _ => {
                            return None;
                        },
                    },
                    _ => {
                        return None;
                    },
                };
                if base.len() == 0 {
                    return None;
                }
                let length: usize = self.define(Op::Iconst(size as i64), IrType::I32);
                let mut values: Vec<usize> = one_value(base[0]);
                values.push(length);
                assert(values@ =~= seq![base@[0], length]);
                Some(values)
            },
            CastKind::SpecNarrow { slot_offset } => {
                if base.len() < 2 {
                    return None;
                }
                assert(slot_offset as int * pb as int <= 0xffff_ffff * 16) by (nonlinear_arith)
                    requires
                        0 <= slot_offset <= 0xffff_ffff,
                        0 <= pb <= 16,
                ;
                let along: i64 = slot_offset as i64 * pb as i64;
                match self.define_like(Op::IaddImm { value: base[1], imm: along }, base[1]) {
                    Some(table) => {
                        let mut values: Vec<usize> = one_value(base[0]);
                        values.push(table);
                        assert(values@ =~= seq![base@[0], table]);
                        Some(values)
                    },
                    None => None,
                }
            },
            kind => match conversion_for(kind) {
                Some(op) => if base.len() > 0 {
                    let value: usize = self.define(Op::Convert { op, value: base[0] }, target);
                    Some(one_value(value))
                } else {
                    None
                },
                None => None,
            },
        }
    }
}

} // verus!
