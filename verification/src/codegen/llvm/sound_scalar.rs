//! That operators, casts, calls and slices keep functions sound.

use crate::checked::CastKind;
use crate::codegen::abi::{promoted, returned, returns_indirectly, ReturnView};
use crate::codegen::llvm::{
    index_ir, int_value, leaf_type, loaded_aligned, pointer_value, size_ir, slot_of, stack_align,
    Arith, Convert, IntPredicate, Lowered, LoweringView, Op, Operand, SlotUse, Storage, Value,
    ValueType,
};
use crate::codegen::llvm::place::{element_address, first_pointer, index_wide, PlaceState};
use crate::codegen::llvm::scalar::{
    all_promoted, all_reinterpreted, as_address, as_condition, as_flag, as_integer, called,
    cast_bits, common, converted, extracted, first_of, float_arith, float_predicate, float_to_int,
    int_arith, int_cast, int_of_bits, int_predicate, int_to_float, operated, passed, range_end,
    reinterpreted, resized, result_type, sequence_parts, sliced, table_address, variadic_promoted,
};
use crate::codegen::llvm::soundness::{
    at, countable, has, have_all, is_call, kept, lemma_addressed, lemma_count, lemma_define,
    lemma_has, lemma_have, lemma_having, lemma_kept_then, lemma_loaded_aligned, lemma_made_then,
    lemma_push, lemma_same, lemma_slot, lemma_table, made, ok, passed_last, plain, reachable,
    usable, Scope,
};
use crate::codegen::shared::{lemma_table_found, table_position, Vtable};
use crate::hir::HirId;
use crate::layout::{size_of, Leaf};
use crate::resolved_type::{CallingConvention, NumericKind, ResolvedFunctionType, ResolvedType};
use crate::syntax::BinaryOp;
use std::rc::Rc;
use vstd::prelude::*;

verus! {

/// Whether a step of lowering keeps a function sound and leaves one value.
pub open spec fn made_one(c: Scope, before: LoweringView, lowered: Lowered) -> bool {
    &&& made(c, before, lowered)
    &&& lowered.values.len() == 1
    &&& countable(lowered.state) ==> has(c, lowered.state, lowered.values[0])
}

pub(crate) proof fn lemma_first(c: Scope, s: LoweringView, lowered: Option<Lowered>)
    requires
        lowered is Some ==> made(c, s, lowered->0),
        first_of(lowered) is Some,
    ensures
        made_one(c, s, first_of(lowered)->0),
{
    let l = lowered->0;
    if countable(l.state) {
        assert(has(c, l.state, l.values[0]));
    }
}

pub(crate) proof fn lemma_first_pointer(c: Scope, s: LoweringView, lowered: Option<Lowered>)
    requires
        lowered is Some ==> made(c, s, lowered->0),
        first_pointer(lowered) is Some,
    ensures
        made_one(c, s, first_pointer(lowered)->0),
        first_pointer(lowered)->0.values[0].ty is Ptr,
{
    let l = lowered->0;
    if countable(l.state) {
        assert(has(c, l.state, l.values[0]));
    }
}

proof fn lemma_as_integer(c: Scope, s: LoweringView, value: Value, pointer_bytes: u32)
    requires
        ok(c, s),
        countable(s) ==> has(c, s, value),
        as_integer(s, value, pointer_bytes) is Some,
    ensures
        made_one(c, s, as_integer(s, value, pointer_bytes)->0),
{
    if value.ty is Ptr {
        lemma_define(
            c,
            s,
            Op::Convert { op: Convert::PtrToInt, value },
            size_ir(pointer_bytes),
        );
    } else {
        lemma_having(c, s, value);
    }
}

proof fn lemma_as_address(c: Scope, s: LoweringView, value: Value)
    requires
        ok(c, s),
        countable(s) ==> has(c, s, value),
        as_address(s, value) is Some,
    ensures
        made_one(c, s, as_address(s, value)->0),
{
    lemma_define(c, s, Op::Convert { op: Convert::IntToPtr, value }, ValueType::Ptr);
}

pub(crate) proof fn lemma_reinterpreted(
    c: Scope,
    s: LoweringView,
    value: Value,
    want: ValueType,
    pointer_bytes: u32,
)
    requires
        ok(c, s),
        countable(s) ==> has(c, s, value),
        reinterpreted(s, value, want, pointer_bytes) is Some,
    ensures
        made_one(c, s, reinterpreted(s, value, want, pointer_bytes)->0),
{
    if value.ty is Ptr && !(want is Ptr) {
        lemma_as_integer(c, s, value, pointer_bytes);
    } else if !(value.ty is Ptr) && want is Ptr {
        lemma_as_address(c, s, value);
    } else {
        lemma_having(c, s, value);
    }
}

pub(crate) proof fn lemma_as_condition(c: Scope, s: LoweringView, value: Value)
    requires
        ok(c, s),
        countable(s) ==> has(c, s, value),
        as_condition(s, value) is Some,
    ensures
        made_one(c, s, as_condition(s, value)->0),
        as_condition(s, value)->0.values[0].ty is I1,
{
    if value.ty is I1 {
        lemma_having(c, s, value);
    } else {
        lemma_define(
            c,
            s,
            Op::IntCompare {
                predicate: IntPredicate::NE,
                left: value,
                right: int_value(value.ty, 0),
            },
            ValueType::I1,
        );
    }
}

proof fn lemma_flagged(c: Scope, s: LoweringView, op: Op)
    requires
        ok(c, s),
        plain(op),
        countable(s.push(op, Some(ValueType::I1))) ==> usable(c, s, op),
    ensures
        ({
            let compared = s.define(op, ValueType::I1);
            made_one(c, s, as_flag(compared.state, compared.values[0]))
        }),
{
    let compared = s.define(op, ValueType::I1);
    lemma_define(c, s, op, ValueType::I1);
    let value = compared.values[0];
    lemma_define(
        c,
        compared.state,
        Op::Convert { op: Convert::ZeroExtend, value },
        ValueType::I8,
    );
    lemma_made_then(c, s, compared.state, as_flag(compared.state, value));
}

pub(crate) proof fn lemma_operated(
    c: Scope,
    s: LoweringView,
    op: BinaryOp,
    kind: NumericKind,
    left: Value,
    right: Value,
    pointer_bytes: u32,
)
    requires
        ok(c, s),
        countable(s) ==> has(c, s, left) && has(c, s, right),
        operated(s, op, kind, left, right, pointer_bytes) is Some,
    ensures
        made_one(c, s, operated(s, op, kind, left, right, pointer_bytes)->0),
{
    match kind {
        NumericKind::Float(_) => match float_arith(op) {
            Some(arith) => {
                lemma_define(c, s, Op::Binary { op: arith, left, right }, left.ty);
            },
            None => {
                lemma_flagged(
                    c,
                    s,
                    Op::FloatCompare { predicate: float_predicate(op)->0, left, right },
                );
            },
        },
        _ => {
            lemma_as_integer(c, s, left, pointer_bytes);
            let l = as_integer(s, left, pointer_bytes)->0;
            lemma_count(s, l.state);
            if countable(l.state) {
                lemma_has(c, s, l.state, right);
            }
            lemma_as_integer(c, l.state, right, pointer_bytes);
            let r = as_integer(l.state, right, pointer_bytes)->0;
            lemma_kept_then(c, s, l.state, r.state);
            if countable(r.state) {
                lemma_has(c, l.state, r.state, l.values[0]);
            }
            let signed = kind is Signed;
            match int_arith(op, signed) {
                Some(arith) => {
                    let step = Op::Binary {
                        op: arith,
                        left: l.values[0],
                        right: r.values[0],
                    };
                    lemma_define(c, r.state, step, l.values[0].ty);
                    lemma_made_then(c, s, r.state, r.state.define(step, l.values[0].ty));
                },
                None => {
                    let step = Op::IntCompare {
                        predicate: int_predicate(op, signed)->0,
                        left: l.values[0],
                        right: r.values[0],
                    };
                    lemma_flagged(c, r.state, step);
                    let compared = r.state.define(step, ValueType::I1);
                    lemma_made_then(
                        c,
                        s,
                        r.state,
                        as_flag(compared.state, compared.values[0]),
                    );
                },
            }
        },
    }
}

proof fn lemma_resized(c: Scope, s: LoweringView, value: Value, bits: u32, signed: bool)
    requires
        ok(c, s),
        countable(s) ==> has(c, s, value),
        resized(s, value, bits, signed) is Some,
    ensures
        made_one(c, s, resized(s, value, bits, signed)->0),
{
    let source = value.ty.int_bits()->0;
    if source < bits {
        lemma_define(
            c,
            s,
            Op::Convert {
                op: if signed {
                    Convert::SignExtend
                } else {
                    Convert::ZeroExtend
                },
                value,
            },
            int_of_bits(bits),
        );
    } else if source > bits {
        lemma_define(c, s, Op::Convert { op: Convert::Truncate, value }, int_of_bits(bits));
    } else {
        lemma_having(c, s, value);
    }
}

proof fn lemma_int_cast(
    c: Scope,
    s: LoweringView,
    value: Value,
    target: ValueType,
    signed: bool,
    pointer_bytes: u32,
)
    requires
        ok(c, s),
        countable(s) ==> has(c, s, value),
        int_cast(s, value, target, signed, pointer_bytes) is Some,
    ensures
        made_one(c, s, int_cast(s, value, target, signed, pointer_bytes)->0),
{
    lemma_as_integer(c, s, value, pointer_bytes);
    let base = as_integer(s, value, pointer_bytes)->0;
    let bits = cast_bits(target, pointer_bytes)->0;
    lemma_resized(c, base.state, base.values[0], bits, signed);
    let wide = resized(base.state, base.values[0], bits, signed)->0;
    lemma_made_then(c, s, base.state, wide);
    if target is Ptr {
        lemma_as_address(c, wide.state, wide.values[0]);
        lemma_made_then(c, s, wide.state, as_address(wide.state, wide.values[0])->0);
    }
}

proof fn lemma_int_to_float(
    c: Scope,
    s: LoweringView,
    value: Value,
    target: ValueType,
    signed: bool,
    pointer_bytes: u32,
)
    requires
        ok(c, s),
        countable(s) ==> has(c, s, value),
        int_to_float(s, value, target, signed, pointer_bytes) is Some,
    ensures
        made_one(c, s, int_to_float(s, value, target, signed, pointer_bytes)->0),
{
    lemma_as_integer(c, s, value, pointer_bytes);
    let base = as_integer(s, value, pointer_bytes)->0;
    let op = Op::Convert {
        op: if signed {
            Convert::SignedIntToFloat
        } else {
            Convert::UnsignedIntToFloat
        },
        value: base.values[0],
    };
    lemma_define(c, base.state, op, target);
    lemma_made_then(c, s, base.state, base.state.define(op, target));
}

proof fn lemma_float_to_int(
    c: Scope,
    s: LoweringView,
    value: Value,
    target: ValueType,
    signed: bool,
    pointer_bytes: u32,
)
    requires
        ok(c, s),
        countable(s) ==> has(c, s, value),
        float_to_int(s, value, target, signed, pointer_bytes) is Some,
    ensures
        made_one(c, s, float_to_int(s, value, target, signed, pointer_bytes)->0),
{
    let to = if target is Ptr {
        size_ir(pointer_bytes)
    } else {
        target
    };
    let op = Op::Convert {
        op: if signed {
            Convert::FloatToSignedInt
        } else {
            Convert::FloatToUnsignedInt
        },
        value,
    };
    lemma_define(c, s, op, to);
    let bits = s.define(op, to);
    lemma_reinterpreted(c, bits.state, bits.values[0], target, pointer_bytes);
    lemma_made_then(
        c,
        s,
        bits.state,
        reinterpreted(bits.state, bits.values[0], target, pointer_bytes)->0,
    );
}

pub(crate) proof fn lemma_extended(c: Scope, s: LoweringView, before: Lowered, last: Lowered)
    requires
        made(c, s, before),
        made_one(c, before.state, last),
    ensures
        made(
            c,
            s,
            Lowered { state: last.state, values: before.values.push(last.values[0]) },
        ),
{
    lemma_made_then(c, s, before.state, last);
    if countable(last.state) {
        lemma_have(c, before.state, last.state, before.values);
    }
}

proof fn lemma_all_reinterpreted(
    c: Scope,
    s: LoweringView,
    values: Seq<Value>,
    leaves: Seq<Leaf>,
    pointer_bytes: u32,
    n: nat,
)
    requires
        ok(c, s),
        n <= values.len(),
        countable(s) ==> have_all(c, s, values),
        all_reinterpreted(s, values, leaves, pointer_bytes, n) is Some,
    ensures
        made(c, s, all_reinterpreted(s, values, leaves, pointer_bytes, n)->0),
    decreases n,
{
    if n == 0 {
        lemma_same(c, s);
    } else {
        lemma_all_reinterpreted(c, s, values, leaves, pointer_bytes, (n - 1) as nat);
        let before = all_reinterpreted(s, values, leaves, pointer_bytes, (n - 1) as nat)->0;
        let want = leaf_type(leaves[n - 1], pointer_bytes);
        lemma_count(s, before.state);
        if countable(before.state) {
            lemma_has(c, s, before.state, values[n - 1]);
        }
        lemma_reinterpreted(c, before.state, values[n - 1], want, pointer_bytes);
        lemma_extended(
            c,
            s,
            before,
            reinterpreted(before.state, values[n - 1], want, pointer_bytes)->0,
        );
    }
}

pub(crate) proof fn lemma_converted(
    c: Scope,
    s: LoweringView,
    base: Lowered,
    kind: CastKind,
    source: ResolvedType,
    leaves: Seq<Leaf>,
    pointer_bytes: u32,
)
    requires
        made(c, s, base),
        converted(base, kind, source, leaves, pointer_bytes) is Some,
    ensures
        made(c, s, converted(base, kind, source, leaves, pointer_bytes)->0),
{
    let b = base.state;
    let target = leaf_type(leaves[0], pointer_bytes);
    let out = converted(base, kind, source, leaves, pointer_bytes)->0;
    if countable(b) {
        if base.values.len() > 0 {
            assert(has(c, b, base.values[0]));
        }
        if base.values.len() > 1 {
            assert(has(c, b, base.values[1]));
        }
    }
    match kind {
        CastKind::Reinterpret => {
            lemma_all_reinterpreted(
                c,
                b,
                base.values,
                leaves,
                pointer_bytes,
                common(base.values.len(), leaves.len()),
            );
            lemma_made_then(c, s, b, out);
        },
        CastKind::DropLength => {},
        CastKind::Unsize => {},
        CastKind::SpecNarrow { slot_offset } => {
            let op = Op::Gep {
                base: base.values[1],
                offset: int_value(
                    index_ir(pointer_bytes),
                    (slot_offset * pointer_bytes) as u64,
                ),
            };
            lemma_define(c, b, op, ValueType::Ptr);
            let table = b.define(op, ValueType::Ptr);
            lemma_made_then(c, s, b, table);
            if countable(table.state) {
                lemma_has(c, b, table.state, base.values[0]);
            }
        },
        CastKind::IntExtend { signed } => {
            lemma_int_cast(c, b, base.values[0], target, signed, pointer_bytes);
            lemma_made_then(c, s, b, out);
        },
        CastKind::IntTruncate => {
            lemma_int_cast(c, b, base.values[0], target, false, pointer_bytes);
            lemma_made_then(c, s, b, out);
        },
        CastKind::IntToFloat { signed } => {
            lemma_int_to_float(c, b, base.values[0], target, signed, pointer_bytes);
            lemma_made_then(c, s, b, out);
        },
        CastKind::FloatToInt { signed } => {
            lemma_float_to_int(c, b, base.values[0], target, signed, pointer_bytes);
            lemma_made_then(c, s, b, out);
        },
        CastKind::FloatExtend => {
            let op = Op::Convert { op: Convert::FloatExtend, value: base.values[0] };
            lemma_define(c, b, op, target);
            lemma_made_then(c, s, b, out);
        },
        CastKind::FloatTruncate => {
            let op = Op::Convert { op: Convert::FloatTruncate, value: base.values[0] };
            lemma_define(c, b, op, target);
            lemma_made_then(c, s, b, out);
        },
    }
}

proof fn lemma_promoted(
    c: Scope,
    s: LoweringView,
    value: Value,
    ty: ResolvedType,
    pointer_bits: u32,
)
    requires
        ok(c, s),
        countable(s) ==> has(c, s, value),
        variadic_promoted(s, value, ty, pointer_bits) is Some,
    ensures
        made_one(c, s, variadic_promoted(s, value, ty, pointer_bits)->0),
{
    match promoted(ty, pointer_bits) {
        Some(NumericKind::Float(_)) => {
            lemma_define(c, s, Op::Convert { op: Convert::FloatExtend, value }, ValueType::F64);
        },
        Some(NumericKind::Signed(_)) => {
            lemma_define(c, s, Op::Convert { op: Convert::SignExtend, value }, ValueType::I32);
        },
        Some(NumericKind::Unsigned(_)) => {
            lemma_define(c, s, Op::Convert { op: Convert::ZeroExtend, value }, ValueType::I32);
        },
        None => {
            lemma_having(c, s, value);
        },
    }
}

pub(crate) proof fn lemma_all_promoted(
    c: Scope,
    s: LoweringView,
    values: Seq<Value>,
    ty: ResolvedType,
    pointer_bits: u32,
    n: nat,
)
    requires
        ok(c, s),
        n <= values.len(),
        countable(s) ==> have_all(c, s, values),
        all_promoted(s, values, ty, pointer_bits, n) is Some,
    ensures
        made(c, s, all_promoted(s, values, ty, pointer_bits, n)->0),
    decreases n,
{
    if n == 0 {
        lemma_same(c, s);
    } else {
        lemma_all_promoted(c, s, values, ty, pointer_bits, (n - 1) as nat);
        let before = all_promoted(s, values, ty, pointer_bits, (n - 1) as nat)->0;
        lemma_count(s, before.state);
        if countable(before.state) {
            lemma_has(c, s, before.state, values[n - 1]);
        }
        lemma_promoted(c, before.state, values[n - 1], ty, pointer_bits);
        lemma_extended(
            c,
            s,
            before,
            variadic_promoted(before.state, values[n - 1], ty, pointer_bits)->0,
        );
    }
}

pub(crate) proof fn lemma_passed(c: Scope, s: LoweringView, values: Seq<Value>, n: nat)
    requires
        ok(c, s),
        n <= values.len(),
        countable(s) ==> have_all(c, s, values),
    ensures
        kept(c, s, passed(s, values, n)),
        passed(s, values, n).steps.len() == s.steps.len() + n,
        forall|k: int|
            s.steps.len() <= k < s.steps.len() + n ==> (#[trigger] passed(
                s,
                values,
                n,
            ).steps[k]).op is Pass,
        countable(passed(s, values, n)) ==> passed_last(passed(s, values, n), n as usize),
    decreases n,
{
    if n == 0 {
        lemma_same(c, s);
    } else {
        lemma_passed(c, s, values, (n - 1) as nat);
        let before = passed(s, values, (n - 1) as nat);
        lemma_count(s, before);
        if countable(before) {
            lemma_has(c, s, before, values[n - 1]);
        }
        lemma_push(c, before, Op::Pass(values[n - 1]), None);
        lemma_kept_then(c, s, before, before.push(Op::Pass(values[n - 1]), None));
    }
}

proof fn lemma_extracted(
    c: Scope,
    s: LoweringView,
    call: usize,
    leaves: Seq<Leaf>,
    pointer_bytes: u32,
    n: nat,
)
    requires
        ok(c, s),
        countable(s) ==> is_call(s, call),
    ensures
        made(c, s, extracted(s, call, leaves, pointer_bytes, n)),
        countable(extracted(s, call, leaves, pointer_bytes, n).state) ==> is_call(
            extracted(s, call, leaves, pointer_bytes, n).state,
            call,
        ),
    decreases n,
{
    if n == 0 {
        lemma_same(c, s);
    } else {
        lemma_extracted(c, s, call, leaves, pointer_bytes, (n - 1) as nat);
        let before = extracted(s, call, leaves, pointer_bytes, (n - 1) as nat);
        let op = Op::ExtractValue { call, index: (n - 1) as usize };
        let ty = leaf_type(leaves[n - 1], pointer_bytes);
        lemma_define(c, before.state, op, ty);
        lemma_extended(c, s, before, before.state.define(op, ty));
    }
}

pub(crate) proof fn lemma_called(
    c: Scope,
    s: LoweringView,
    callee: Value,
    fn_type: Rc<ResolvedFunctionType>,
    convention: Option<CallingConvention>,
    args: Seq<Value>,
    pointer_bytes: u32,
)
    requires
        ok(c, s),
        countable(s) ==> at(c, s, callee) && have_all(c, s, args),
        called(s, callee, fn_type, convention, args, pointer_bytes) is Some,
    ensures
        made(c, s, called(s, callee, fn_type, convention, args, pointer_bytes)->0),
{
    let ret: &ResolvedType = &*fn_type.return_type;
    if returns_indirectly(*ret, pointer_bytes) {
        let slot = s.next_slot();
        let storage = Storage::Memory { base: slot, offset: 0 };
        let data = slot_of(size_of(*ret, pointer_bytes), stack_align(*ret), SlotUse::Sret);
        let room = s.with_slot(data);
        lemma_slot(c, s, data);
        let all = seq![slot] + args;
        if countable(room) {
            lemma_have(c, s, room, args);
            assert forall|i: int| 0 <= i < all.len() implies has(c, room, #[trigger] all[i]) by {
                if i > 0 {
                    assert(all[i] == args[i - 1]);
                }
            }
        }
        lemma_passed(c, room, all, all.len());
        let ready = passed(room, all, all.len());
        lemma_kept_then(c, s, room, ready);
        if countable(ready) {
            lemma_has(c, s, ready, callee);
            lemma_has(c, room, ready, slot);
        }
        let call = Op::Call { callee, fn_type, convention, count: all.len() as usize };
        let done = ready.push(call, None);
        lemma_push(c, ready, call, None);
        lemma_kept_then(c, s, ready, done);
        if countable(done) {
            lemma_has(c, ready, done, slot);
        }
        lemma_loaded_aligned(c, done, storage, *ret, pointer_bytes);
        lemma_made_then(c, s, done, loaded_aligned(done, storage, *ret, pointer_bytes)->0);
    } else {
        lemma_passed(c, s, args, args.len());
        let ready = passed(s, args, args.len());
        lemma_count(s, ready);
        if countable(ready) {
            lemma_has(c, s, ready, callee);
        }
        let call = Op::Call { callee, fn_type, convention, count: args.len() as usize };
        match returned(*ret, pointer_bytes) {
            ReturnView::Direct(leaves) => match result_type(leaves, pointer_bytes) {
                Some(ty) => {
                    lemma_define(c, ready, call, ty);
                    lemma_made_then(c, s, ready, ready.define(call, ty));
                },
                None => {
                    let done = ready.push(call, None);
                    let position = ready.steps.len() as usize;
                    lemma_push(c, ready, call, None);
                    lemma_kept_then(c, s, ready, done);
                    lemma_extracted(c, done, position, leaves, pointer_bytes, leaves.len());
                    lemma_made_then(
                        c,
                        s,
                        done,
                        extracted(done, position, leaves, pointer_bytes, leaves.len()),
                    );
                },
            },
            _ => {
                let done = ready.push(call, None);
                lemma_push(c, ready, call, None);
                lemma_kept_then(c, s, ready, done);
            },
        }
    }
}

pub(crate) proof fn lemma_table_address(
    c: Scope,
    s: LoweringView,
    concrete: ResolvedType,
    object: ResolvedType,
    slots: Rc<Vec<HirId>>,
)
    requires
        ok(c, s),
        table_address(c.frame, s, concrete, object, slots) is Some,
    ensures
        made_one(c, s, table_address(c.frame, s, concrete, object, slots)->0),
{
    lemma_table_found(s.vtables, slots@, 0);
    match table_position(s.vtables, slots@, 0) {
        Some(index) => {
            lemma_having(c, s, pointer_value(Operand::Vtable(index as usize)));
        },
        None => {
            lemma_table(c, s, Vtable { concrete, object, slots });
        },
    }
}

proof fn lemma_index_wide(c: Scope, s: LoweringView, value: Value, pointer_bytes: u32)
    requires
        ok(c, s),
        countable(s) ==> has(c, s, value),
    ensures
        made_one(c, s, index_wide(s, value, pointer_bytes)),
{
    if value.ty == index_ir(pointer_bytes) {
        lemma_having(c, s, value);
    } else {
        lemma_define(
            c,
            s,
            Op::Convert { op: Convert::ZeroExtend, value },
            index_ir(pointer_bytes),
        );
    }
}

pub(crate) proof fn lemma_element_address(
    c: Scope,
    s: LoweringView,
    base: Value,
    index: Value,
    size: nat,
    pointer_bytes: u32,
)
    requires
        ok(c, s),
        countable(s) ==> has(c, s, base) && has(c, s, index),
        element_address(s, base, index, size, pointer_bytes) is Some,
    ensures
        made_one(c, s, element_address(s, base, index, size, pointer_bytes)->0),
        element_address(s, base, index, size, pointer_bytes)->0.values[0].ty is Ptr,
{
    let ty = index_ir(pointer_bytes);
    lemma_index_wide(c, s, index, pointer_bytes);
    let wide = index_wide(s, index, pointer_bytes);
    let product = Op::Binary {
        op: Arith::IntMul,
        left: wide.values[0],
        right: int_value(ty, size as u64),
    };
    lemma_define(c, wide.state, product, ty);
    let along = wide.state.define(product, ty);
    lemma_made_then(c, s, wide.state, along);
    if countable(along.state) {
        lemma_has(c, s, along.state, base);
    }
    let op = Op::Gep { base, offset: along.values[0] };
    lemma_define(c, along.state, op, ValueType::Ptr);
    lemma_made_then(c, s, along.state, along.state.define(op, ValueType::Ptr));
}

pub(crate) proof fn lemma_sequence_parts(c: Scope, p: PlaceState, pointer_bytes: u32)
    requires
        ok(c, p.state),
        countable(p.state) ==> reachable(c, p.state, p.storage),
        sequence_parts(p, pointer_bytes) is Some,
    ensures
        made(c, p.state, sequence_parts(p, pointer_bytes)->0),
        sequence_parts(p, pointer_bytes)->0.values.len() == 2,
{
    match p.ty {
        ResolvedType::SizedArray(_, _) => {
            lemma_addressed(c, p.state, p.storage, pointer_bytes);
        },
        ResolvedType::Array(_, _) => {
            lemma_loaded_aligned(c, p.state, p.storage, p.ty, pointer_bytes);
            let lowered = loaded_aligned(p.state, p.storage, p.ty, pointer_bytes);
            lemma_first_pointer(c, p.state, lowered);
        },
        _ => {
            lemma_loaded_aligned(c, p.state, p.storage, p.ty, pointer_bytes);
            let l = loaded_aligned(p.state, p.storage, p.ty, pointer_bytes)->0;
            if countable(l.state) {
                assert(has(c, l.state, l.values[0]));
                assert(has(c, l.state, l.values[1]));
            }
        },
    }
}

pub(crate) proof fn lemma_sliced(
    c: Scope,
    s: LoweringView,
    data: Value,
    start: Value,
    end: Value,
    size: nat,
    pointer_bytes: u32,
)
    requires
        ok(c, s),
        countable(s) ==> has(c, s, data) && has(c, s, start) && has(c, s, end),
        sliced(s, data, start, end, size, pointer_bytes) is Some,
    ensures
        made(c, s, sliced(s, data, start, end, size, pointer_bytes)->0),
{
    lemma_element_address(c, s, data, start, size, pointer_bytes);
    let pointer = element_address(s, data, start, size, pointer_bytes)->0;
    lemma_count(s, pointer.state);
    if countable(pointer.state) {
        lemma_has(c, s, pointer.state, end);
        lemma_has(c, s, pointer.state, start);
    }
    let op = Op::Binary { op: Arith::IntSub, left: end, right: start };
    lemma_define(c, pointer.state, op, end.ty);
    let length = pointer.state.define(op, end.ty);
    lemma_made_then(c, s, pointer.state, length);
    if countable(length.state) {
        lemma_has(c, pointer.state, length.state, pointer.values[0]);
    }
}

pub(crate) proof fn lemma_range_end(c: Scope, s: LoweringView, end: Value, inclusive: bool)
    requires
        ok(c, s),
        countable(s) ==> has(c, s, end),
        range_end(s, end, inclusive) is Some,
    ensures
        made_one(c, s, range_end(s, end, inclusive)->0),
{
    if inclusive {
        lemma_define(
            c,
            s,
            Op::Binary { op: Arith::IntAdd, left: end, right: int_value(ValueType::I32, 1) },
            end.ty,
        );
    } else {
        lemma_having(c, s, end);
    }
}

} // verus!
