//! Operations on values that have been lowered.

use crate::checked::CastKind;
use crate::codegen::abi::{
    fn_measurable, needs_sret, promoted, returned, returns_indirectly, variadic_promotion,
    AbiReturn, ReturnView,
};
use crate::codegen::llvm::{
    addressed, const_int, index_ir, index_type, int_value, leaf_type, llvm_type, loaded_aligned,
    one_value, pointer_to, pointer_value, size_ir, size_type, slot_of, stack_align, two_values,
    Arith, Convert, FloatPredicate, Frame, FrameView, IntPredicate, Lowered, Lowering, LoweringView,
    Op, Operand, PlaceStorage, SlotUse, Storage, Value, ValueType,
};
use crate::codegen::llvm::place::{element_address, first_pointer, pointer_in, PlaceState};
use crate::codegen::shared::{all_declared, same_slots, table_position, unsized_length, Vtable};
use crate::hir::HirId;
use crate::layout::{measurable, size_of, Leaf};
use crate::resolved_type::{CallingConvention, NumericKind, ResolvedFunctionType, ResolvedType};
use crate::syntax::BinaryOp;
use crate::text::share;
use std::rc::Rc;
use vstd::prelude::*;

verus! {

/// Whether values and what has been emitted are what is expected.
pub open spec fn yields(
    found: Option<Vec<Value>>,
    after: LoweringView,
    expected: Option<Lowered>,
) -> bool {
    match expected {
        Some(lowered) => found is Some && found->0@ == lowered.values && after == lowered.state,
        None => found is None,
    }
}

/// [`yields`] for one value.
pub open spec fn yields_one(
    found: Option<Value>,
    after: LoweringView,
    expected: Option<Lowered>,
) -> bool {
    match expected {
        Some(lowered) => found is Some && lowered.values == seq![found->0] && after
            == lowered.state,
        None => found is None,
    }
}

/// The first of some values.
pub open spec fn first_of(lowered: Option<Lowered>) -> Option<Lowered> {
    match lowered {
        Some(found) => if found.values.len() > 0 {
            Some(Lowered { values: seq![found.values[0]], ..found })
        } else {
            None
        },
        None => None,
    }
}

pub fn first_value(values: &Option<Vec<Value>>) -> (value: Option<Value>)
    ensures
        match *values {
            Some(found) => if found@.len() > 0 {
                value == Some(found@[0])
            } else {
                value is None
            },
            None => value is None,
        },
{
    match values {
        Some(found) => if found.len() > 0 {
            Some(found[0])
        } else {
            None
        },
        None => None,
    }
}

/// The operation an operator is on integers, where it computes rather than
/// compares.
pub open spec fn int_arith(op: BinaryOp, signed: bool) -> Option<Arith> {
    match op {
        BinaryOp::Add => Some(Arith::IntAdd),
        BinaryOp::Sub => Some(Arith::IntSub),
        BinaryOp::Mul => Some(Arith::IntMul),
        BinaryOp::Div => Some(
            if signed {
                Arith::IntSignedDiv
            } else {
                Arith::IntUnsignedDiv
            },
        ),
        BinaryOp::Rem => Some(
            if signed {
                Arith::IntSignedRem
            } else {
                Arith::IntUnsignedRem
            },
        ),
        BinaryOp::BitAnd => Some(Arith::And),
        BinaryOp::BitOr => Some(Arith::Or),
        BinaryOp::BitXor => Some(Arith::Xor),
        BinaryOp::Shl => Some(Arith::LeftShift),
        BinaryOp::Shr => Some(
            if signed {
                Arith::ArithmeticRightShift
            } else {
                Arith::LogicalRightShift
            },
        ),
        _ => None,
    }
}

fn int_arith_for(op: BinaryOp, signed: bool) -> (arith: Option<Arith>)
    ensures
        arith == int_arith(op, signed),
{
    match (op, signed) {
        (BinaryOp::Add, _) => Some(Arith::IntAdd),
        (BinaryOp::Sub, _) => Some(Arith::IntSub),
        (BinaryOp::Mul, _) => Some(Arith::IntMul),
        (BinaryOp::Div, true) => Some(Arith::IntSignedDiv),
        (BinaryOp::Div, false) => Some(Arith::IntUnsignedDiv),
        (BinaryOp::Rem, true) => Some(Arith::IntSignedRem),
        (BinaryOp::Rem, false) => Some(Arith::IntUnsignedRem),
        (BinaryOp::BitAnd, _) => Some(Arith::And),
        (BinaryOp::BitOr, _) => Some(Arith::Or),
        (BinaryOp::BitXor, _) => Some(Arith::Xor),
        (BinaryOp::Shl, _) => Some(Arith::LeftShift),
        (BinaryOp::Shr, true) => Some(Arith::ArithmeticRightShift),
        (BinaryOp::Shr, false) => Some(Arith::LogicalRightShift),
        _ => None,
    }
}

/// The comparison an operator is on integers.
pub open spec fn int_predicate(op: BinaryOp, signed: bool) -> Option<IntPredicate> {
    match op {
        BinaryOp::Eq => Some(IntPredicate::EQ),
        BinaryOp::Ne => Some(IntPredicate::NE),
        BinaryOp::Lt => Some(
            if signed {
                IntPredicate::SLT
            } else {
                IntPredicate::ULT
            },
        ),
        BinaryOp::Le => Some(
            if signed {
                IntPredicate::SLE
            } else {
                IntPredicate::ULE
            },
        ),
        BinaryOp::Gt => Some(
            if signed {
                IntPredicate::SGT
            } else {
                IntPredicate::UGT
            },
        ),
        BinaryOp::Ge => Some(
            if signed {
                IntPredicate::SGE
            } else {
                IntPredicate::UGE
            },
        ),
        _ => None,
    }
}

fn int_predicate_for(op: BinaryOp, signed: bool) -> (predicate: Option<IntPredicate>)
    ensures
        predicate == int_predicate(op, signed),
{
    match (op, signed) {
        (BinaryOp::Eq, _) => Some(IntPredicate::EQ),
        (BinaryOp::Ne, _) => Some(IntPredicate::NE),
        (BinaryOp::Lt, true) => Some(IntPredicate::SLT),
        (BinaryOp::Lt, false) => Some(IntPredicate::ULT),
        (BinaryOp::Le, true) => Some(IntPredicate::SLE),
        (BinaryOp::Le, false) => Some(IntPredicate::ULE),
        (BinaryOp::Gt, true) => Some(IntPredicate::SGT),
        (BinaryOp::Gt, false) => Some(IntPredicate::UGT),
        (BinaryOp::Ge, true) => Some(IntPredicate::SGE),
        (BinaryOp::Ge, false) => Some(IntPredicate::UGE),
        _ => None,
    }
}

/// The operation an operator is on floats, where it computes. Remainders,
/// shifts and bitwise operations of floats do not exist.
pub open spec fn float_arith(op: BinaryOp) -> Option<Arith> {
    match op {
        BinaryOp::Add => Some(Arith::FloatAdd),
        BinaryOp::Sub => Some(Arith::FloatSub),
        BinaryOp::Mul => Some(Arith::FloatMul),
        BinaryOp::Div => Some(Arith::FloatDiv),
        _ => None,
    }
}

fn float_arith_for(op: BinaryOp) -> (arith: Option<Arith>)
    ensures
        arith == float_arith(op),
{
    match op {
        BinaryOp::Add => Some(Arith::FloatAdd),
        BinaryOp::Sub => Some(Arith::FloatSub),
        BinaryOp::Mul => Some(Arith::FloatMul),
        BinaryOp::Div => Some(Arith::FloatDiv),
        _ => None,
    }
}

/// The comparison an operator is on floats.
pub open spec fn float_predicate(op: BinaryOp) -> Option<FloatPredicate> {
    match op {
        BinaryOp::Eq => Some(FloatPredicate::OEQ),
        BinaryOp::Ne => Some(FloatPredicate::ONE),
        BinaryOp::Lt => Some(FloatPredicate::OLT),
        BinaryOp::Le => Some(FloatPredicate::OLE),
        BinaryOp::Gt => Some(FloatPredicate::OGT),
        BinaryOp::Ge => Some(FloatPredicate::OGE),
        _ => None,
    }
}

fn float_predicate_for(op: BinaryOp) -> (predicate: Option<FloatPredicate>)
    ensures
        predicate == float_predicate(op),
{
    match op {
        BinaryOp::Eq => Some(FloatPredicate::OEQ),
        BinaryOp::Ne => Some(FloatPredicate::ONE),
        BinaryOp::Lt => Some(FloatPredicate::OLT),
        BinaryOp::Le => Some(FloatPredicate::OLE),
        BinaryOp::Gt => Some(FloatPredicate::OGT),
        BinaryOp::Ge => Some(FloatPredicate::OGE),
        _ => None,
    }
}

/// A value as an integer: an address becomes one as wide as a pointer.
pub open spec fn as_integer(s: LoweringView, value: Value, pointer_bytes: u32) -> Option<Lowered> {
    if value.ty is Ptr {
        Some(s.define(Op::Convert { op: Convert::PtrToInt, value }, size_ir(pointer_bytes)))
    } else if value.ty.integral() {
        Some(s.having(value))
    } else {
        None
    }
}

/// An integer as an address.
pub open spec fn as_address(s: LoweringView, value: Value) -> Option<Lowered> {
    if value.ty.integral() {
        Some(s.define(Op::Convert { op: Convert::IntToPtr, value }, ValueType::Ptr))
    } else {
        None
    }
}

/// A value where one of a type is wanted: addresses become integers and
/// integers addresses, and nothing else changes.
pub open spec fn reinterpreted(
    s: LoweringView,
    value: Value,
    want: ValueType,
    pointer_bytes: u32,
) -> Option<Lowered> {
    if value.ty is Ptr && !(want is Ptr) {
        as_integer(s, value, pointer_bytes)
    } else if !(value.ty is Ptr) && want is Ptr {
        as_address(s, value)
    } else {
        Some(s.having(value))
    }
}

/// The result of a comparison as a `bool`.
pub open spec fn as_flag(s: LoweringView, value: Value) -> Lowered {
    s.define(Op::Convert { op: Convert::ZeroExtend, value }, ValueType::I8)
}

/// A value as the condition of a branch.
pub open spec fn as_condition(s: LoweringView, value: Value) -> Option<Lowered> {
    if value.ty is I1 {
        Some(s.having(value))
    } else if value.ty.integral() {
        Some(
            s.define(
                Op::IntCompare {
                    predicate: IntPredicate::NE,
                    left: value,
                    right: int_value(value.ty, 0),
                },
                ValueType::I1,
            ),
        )
    } else {
        None
    }
}

impl Lowering {
    pub fn to_int_operand(&mut self, value: Value, pointer_bytes: u32) -> (found: Option<Value>)
        ensures
            yields_one(found, final(self)@, as_integer(old(self)@, value, pointer_bytes)),
    {
        if value.ty.is_pointer_type() {
            let bits: Value = self.define(
                Op::Convert { op: Convert::PtrToInt, value },
                size_type(pointer_bytes),
            );
            Some(bits)
        } else if value.ty.is_int_type() {
            Some(value)
        } else {
            None
        }
    }

    fn to_address(&mut self, value: Value) -> (found: Option<Value>)
        ensures
            yields_one(found, final(self)@, as_address(old(self)@, value)),
    {
        if value.ty.is_int_type() {
            let address: Value = self.define(
                Op::Convert { op: Convert::IntToPtr, value },
                ValueType::Ptr,
            );
            Some(address)
        } else {
            None
        }
    }

    pub fn reinterpret_leaf(&mut self, value: Value, want: ValueType, pointer_bytes: u32) -> (found:
        Option<Value>)
        ensures
            yields_one(
                found,
                final(self)@,
                reinterpreted(old(self)@, value, want, pointer_bytes),
            ),
    {
        if value.ty.is_pointer_type() && !want.is_pointer_type() {
            self.to_int_operand(value, pointer_bytes)
        } else if !value.ty.is_pointer_type() && want.is_pointer_type() {
            self.to_address(value)
        } else {
            Some(value)
        }
    }

    fn bool_result(&mut self, value: Value) -> (found: Value)
        ensures
            final(self)@ == as_flag(old(self)@, value).state,
            seq![found] == as_flag(old(self)@, value).values,
    {
        self.define(Op::Convert { op: Convert::ZeroExtend, value }, ValueType::I8)
    }

    pub fn to_i1(&mut self, value: Value) -> (found: Option<Value>)
        ensures
            yields_one(found, final(self)@, as_condition(old(self)@, value)),
    {
        if value.ty == ValueType::I1 {
            Some(value)
        } else if value.ty.is_int_type() {
            let condition: Value = self.define(
                Op::IntCompare {
                    predicate: IntPredicate::NE,
                    left: value,
                    right: const_int(value.ty, 0),
                },
                ValueType::I1,
            );
            Some(condition)
        } else {
            None
        }
    }
}

/// An operator applied to two integers.
pub open spec fn int_operated(
    s: LoweringView,
    op: BinaryOp,
    signed: bool,
    left: Value,
    right: Value,
) -> Option<Lowered> {
    match int_arith(op, signed) {
        Some(arith) => Some(s.define(Op::Binary { op: arith, left, right }, left.ty)),
        None => match int_predicate(op, signed) {
            Some(predicate) => {
                let compared = s.define(
                    Op::IntCompare { predicate, left, right },
                    ValueType::I1,
                );
                Some(as_flag(compared.state, compared.values[0]))
            },
            None => None,
        },
    }
}

/// An operator applied to two floats.
pub open spec fn float_operated(
    s: LoweringView,
    op: BinaryOp,
    left: Value,
    right: Value,
) -> Option<Lowered> {
    if !left.ty.floating() || !right.ty.floating() {
        None
    } else {
        match float_arith(op) {
            Some(arith) => Some(s.define(Op::Binary { op: arith, left, right }, left.ty)),
            None => match float_predicate(op) {
                Some(predicate) => {
                    let compared = s.define(
                        Op::FloatCompare { predicate, left, right },
                        ValueType::I1,
                    );
                    Some(as_flag(compared.state, compared.values[0]))
                },
                None => None,
            },
        }
    }
}

/// An operator applied to two values. Addresses take part as integers.
pub open spec fn operated(
    s: LoweringView,
    op: BinaryOp,
    kind: NumericKind,
    left: Value,
    right: Value,
    pointer_bytes: u32,
) -> Option<Lowered> {
    match kind {
        NumericKind::Float(_) => float_operated(s, op, left, right),
        _ => match as_integer(s, left, pointer_bytes) {
            Some(l) => match as_integer(l.state, right, pointer_bytes) {
                Some(r) => int_operated(r.state, op, kind is Signed, l.values[0], r.values[0]),
                None => None,
            },
            None => None,
        },
    }
}

impl Lowering {
    fn operate_on_ints(&mut self, op: BinaryOp, signed: bool, left: Value, right: Value) -> (found:
        Option<Value>)
        ensures
            yields_one(found, final(self)@, int_operated(old(self)@, op, signed, left, right)),
    {
        if let Some(arith) = int_arith_for(op, signed) {
            let value: Value = self.define(Op::Binary { op: arith, left, right }, left.ty);
            return Some(value);
        }
        match int_predicate_for(op, signed) {
            Some(predicate) => {
                let compared: Value = self.define(
                    Op::IntCompare { predicate, left, right },
                    ValueType::I1,
                );
                let flag: Value = self.bool_result(compared);
                Some(flag)
            },
            None => None,
        }
    }

    fn operate_on_floats(&mut self, op: BinaryOp, left: Value, right: Value) -> (found: Option<
        Value,
    >)
        ensures
            yields_one(found, final(self)@, float_operated(old(self)@, op, left, right)),
    {
        if !left.ty.is_float_type() || !right.ty.is_float_type() {
            return None;
        }
        if let Some(arith) = float_arith_for(op) {
            let value: Value = self.define(Op::Binary { op: arith, left, right }, left.ty);
            return Some(value);
        }
        match float_predicate_for(op) {
            Some(predicate) => {
                let compared: Value = self.define(
                    Op::FloatCompare { predicate, left, right },
                    ValueType::I1,
                );
                let flag: Value = self.bool_result(compared);
                Some(flag)
            },
            None => None,
        }
    }

    pub fn operate(
        &mut self,
        op: BinaryOp,
        kind: NumericKind,
        left: Value,
        right: Value,
        pointer_bytes: u32,
    ) -> (found: Option<Value>)
        ensures
            yields_one(
                found,
                final(self)@,
                operated(old(self)@, op, kind, left, right, pointer_bytes),
            ),
    {
        let signed: bool = match kind {
            NumericKind::Float(_) => {
                return self.operate_on_floats(op, left, right);
            },
            NumericKind::Signed(_) => true,
            NumericKind::Unsigned(_) => false,
        };
        match self.to_int_operand(left, pointer_bytes) {
            Some(l) => match self.to_int_operand(right, pointer_bytes) {
                Some(r) => self.operate_on_ints(op, signed, l, r),
                None => None,
            },
            None => None,
        }
    }
}

/// The integer type of a width.
pub open spec fn int_of_bits(bits: u32) -> ValueType {
    if bits == 8 {
        ValueType::I8
    } else if bits == 16 {
        ValueType::I16
    } else if bits == 32 {
        ValueType::I32
    } else {
        ValueType::I64
    }
}

fn int_of_width(bits: u32) -> (ty: ValueType)
    ensures
        ty == int_of_bits(bits),
{
    if bits == 8 {
        ValueType::I8
    } else if bits == 16 {
        ValueType::I16
    } else if bits == 32 {
        ValueType::I32
    } else {
        ValueType::I64
    }
}

/// The bits an integer needs to stand for a value of a type.
pub open spec fn cast_bits(target: ValueType, pointer_bytes: u32) -> Option<u32> {
    if target is Ptr {
        Some((pointer_bytes * 8) as u32)
    } else {
        target.int_bits()
    }
}

/// An integer extended or truncated to a number of bits.
pub open spec fn resized(s: LoweringView, value: Value, bits: u32, signed: bool) -> Option<
    Lowered,
> {
    match value.ty.int_bits() {
        Some(source) => if source < bits {
            Some(
                s.define(
                    Op::Convert {
                        op: if signed {
                            Convert::SignExtend
                        } else {
                            Convert::ZeroExtend
                        },
                        value,
                    },
                    int_of_bits(bits),
                ),
            )
        } else if source > bits {
            Some(s.define(Op::Convert { op: Convert::Truncate, value }, int_of_bits(bits)))
        } else {
            Some(s.having(value))
        },
        None => None,
    }
}

/// An integer cast to a type: resized, and made an address where one is
/// wanted.
pub open spec fn int_cast(
    s: LoweringView,
    value: Value,
    target: ValueType,
    signed: bool,
    pointer_bytes: u32,
) -> Option<Lowered> {
    match as_integer(s, value, pointer_bytes) {
        Some(base) => match cast_bits(target, pointer_bytes) {
            Some(bits) => match resized(base.state, base.values[0], bits, signed) {
                Some(wide) => if target is Ptr {
                    as_address(wide.state, wide.values[0])
                } else {
                    Some(wide)
                },
                None => None,
            },
            None => None,
        },
        None => None,
    }
}

/// An integer turned into a float.
pub open spec fn int_to_float(
    s: LoweringView,
    value: Value,
    target: ValueType,
    signed: bool,
    pointer_bytes: u32,
) -> Option<Lowered> {
    match as_integer(s, value, pointer_bytes) {
        Some(base) => if target.floating() {
            Some(
                base.state.define(
                    Op::Convert {
                        op: if signed {
                            Convert::SignedIntToFloat
                        } else {
                            Convert::UnsignedIntToFloat
                        },
                        value: base.values[0],
                    },
                    target,
                ),
            )
        } else {
            None
        },
        None => None,
    }
}

/// A float turned into an integer, which saturates.
pub open spec fn float_to_int(
    s: LoweringView,
    value: Value,
    target: ValueType,
    signed: bool,
    pointer_bytes: u32,
) -> Option<Lowered> {
    let to = if target is Ptr {
        size_ir(pointer_bytes)
    } else {
        target
    };
    if value.ty.floating() && to.integral() {
        let bits = s.define(
            Op::Convert {
                op: if signed {
                    Convert::FloatToSignedInt
                } else {
                    Convert::FloatToUnsignedInt
                },
                value,
            },
            to,
        );
        reinterpreted(bits.state, bits.values[0], target, pointer_bytes)
    } else {
        None
    }
}

/// A float of another width.
pub open spec fn float_cast(
    s: LoweringView,
    value: Value,
    target: ValueType,
    op: Convert,
) -> Option<Lowered> {
    if value.ty.floating() && target.floating() {
        Some(s.define(Op::Convert { op, value }, target))
    } else {
        None
    }
}

/// The first `n` values of two lists that both have, each where the other's
/// type is wanted.
pub open spec fn all_reinterpreted(
    s: LoweringView,
    values: Seq<Value>,
    leaves: Seq<Leaf>,
    pointer_bytes: u32,
    n: nat,
) -> Option<Lowered>
    decreases n,
{
    if n == 0 {
        Some(Lowered { state: s, values: Seq::empty() })
    } else {
        match all_reinterpreted(s, values, leaves, pointer_bytes, (n - 1) as nat) {
            Some(before) => match reinterpreted(
                before.state,
                values[n - 1],
                leaf_type(leaves[n - 1], pointer_bytes),
                pointer_bytes,
            ) {
                Some(last) => Some(
                    Lowered { state: last.state, values: before.values.push(last.values[0]) },
                ),
                None => None,
            },
            None => None,
        }
    }
}

/// How many items two lists have in common.
pub open spec fn common(a: nat, b: nat) -> nat {
    if a <= b {
        a
    } else {
        b
    }
}

/// Values as a cast makes them. Narrowing a spec object moves its table
/// pointer to the section of the narrower spec.
pub open spec fn converted(
    base: Lowered,
    kind: CastKind,
    source: ResolvedType,
    leaves: Seq<Leaf>,
    pointer_bytes: u32,
) -> Option<Lowered> {
    let s = base.state;
    let target = leaf_type(leaves[0], pointer_bytes);
    match kind {
        CastKind::Reinterpret => all_reinterpreted(
            s,
            base.values,
            leaves,
            pointer_bytes,
            common(base.values.len(), leaves.len()),
        ),
        CastKind::DropLength => first_of(Some(base)),
        CastKind::Unsize => match unsized_length(source) {
            Some(size) => if base.values.len() > 0 {
                Some(
                    Lowered {
                        state: s,
                        values: seq![base.values[0], int_value(ValueType::I32, size as u64)],
                    },
                )
            } else {
                None
            },
            None => None,
        },
        CastKind::SpecNarrow { slot_offset } => if base.values.len() >= 2
            && base.values[1].ty is Ptr {
            let table = s.define(
                Op::Gep {
                    base: base.values[1],
                    offset: int_value(
                        index_ir(pointer_bytes),
                        (slot_offset * pointer_bytes) as u64,
                    ),
                },
                ValueType::Ptr,
            );
            Some(Lowered { values: seq![base.values[0], table.values[0]], ..table })
        } else {
            None
        },
        CastKind::IntExtend { signed } => if base.values.len() > 0 {
            int_cast(s, base.values[0], target, signed, pointer_bytes)
        } else {
            None
        },
        CastKind::IntTruncate => if base.values.len() > 0 {
            int_cast(s, base.values[0], target, false, pointer_bytes)
        } else {
            None
        },
        CastKind::IntToFloat { signed } => if base.values.len() > 0 {
            int_to_float(s, base.values[0], target, signed, pointer_bytes)
        } else {
            None
        },
        CastKind::FloatToInt { signed } => if base.values.len() > 0 {
            float_to_int(s, base.values[0], target, signed, pointer_bytes)
        } else {
            None
        },
        CastKind::FloatExtend => if base.values.len() > 0 {
            float_cast(s, base.values[0], target, Convert::FloatExtend)
        } else {
            None
        },
        CastKind::FloatTruncate => if base.values.len() > 0 {
            float_cast(s, base.values[0], target, Convert::FloatTruncate)
        } else {
            None
        },
    }
}

proof fn lemma_reinterpreting_stops(
    s: LoweringView,
    values: Seq<Value>,
    leaves: Seq<Leaf>,
    pointer_bytes: u32,
    n: nat,
    m: nat,
)
    requires
        n <= m,
        all_reinterpreted(s, values, leaves, pointer_bytes, n) is None,
    ensures
        all_reinterpreted(s, values, leaves, pointer_bytes, m) is None,
    decreases m,
{
    if n < m {
        lemma_reinterpreting_stops(s, values, leaves, pointer_bytes, n, (m - 1) as nat);
    }
}

impl Lowering {
    fn resize(&mut self, value: Value, bits: u32, signed: bool) -> (found: Option<Value>)
        ensures
            yields_one(found, final(self)@, resized(old(self)@, value, bits, signed)),
    {
        match value.ty.get_bit_width() {
            Some(source) => {
                let ty: ValueType = int_of_width(bits);
                if source < bits {
                    let op: Convert = if signed {
                        Convert::SignExtend
                    } else {
                        Convert::ZeroExtend
                    };
                    let wide: Value = self.define(Op::Convert { op, value }, ty);
                    Some(wide)
                } else if source > bits {
                    let narrow: Value = self.define(
                        Op::Convert { op: Convert::Truncate, value },
                        ty,
                    );
                    Some(narrow)
                } else {
                    Some(value)
                }
            },
            None => None,
        }
    }

    fn cast_to_target_leaf(
        &mut self,
        value: Value,
        target: ValueType,
        signed: bool,
        pointer_bytes: u32,
    ) -> (found: Option<Value>)
        requires
            pointer_bytes <= 16,
        ensures
            yields_one(
                found,
                final(self)@,
                int_cast(old(self)@, value, target, signed, pointer_bytes),
            ),
    {
        let base: Value = match self.to_int_operand(value, pointer_bytes) {
            Some(base) => base,
            None => {
                return None;
            },
        };
        let bits: u32 = if target.is_pointer_type() {
            pointer_bytes * 8
        } else {
            match target.get_bit_width() {
                Some(bits) => bits,
                None => {
                    return None;
                },
            }
        };
        match self.resize(base, bits, signed) {
            Some(wide) => if target.is_pointer_type() {
                self.to_address(wide)
            } else {
                Some(wide)
            },
            None => None,
        }
    }

    fn cast_int_to_float(
        &mut self,
        value: Value,
        target: ValueType,
        signed: bool,
        pointer_bytes: u32,
    ) -> (found: Option<Value>)
        ensures
            yields_one(
                found,
                final(self)@,
                int_to_float(old(self)@, value, target, signed, pointer_bytes),
            ),
    {
        match self.to_int_operand(value, pointer_bytes) {
            Some(base) => if target.is_float_type() {
                let op: Convert = if signed {
                    Convert::SignedIntToFloat
                } else {
                    Convert::UnsignedIntToFloat
                };
                let float: Value = self.define(Op::Convert { op, value: base }, target);
                Some(float)
            } else {
                None
            },
            None => None,
        }
    }

    fn cast_float_to_int(
        &mut self,
        value: Value,
        target: ValueType,
        signed: bool,
        pointer_bytes: u32,
    ) -> (found: Option<Value>)
        ensures
            yields_one(
                found,
                final(self)@,
                float_to_int(old(self)@, value, target, signed, pointer_bytes),
            ),
    {
        let to: ValueType = if target.is_pointer_type() {
            size_type(pointer_bytes)
        } else {
            target
        };
        if !value.ty.is_float_type() || !to.is_int_type() {
            return None;
        }
        let op: Convert = if signed {
            Convert::FloatToSignedInt
        } else {
            Convert::FloatToUnsignedInt
        };
        let bits: Value = self.define(Op::Convert { op, value }, to);
        self.reinterpret_leaf(bits, target, pointer_bytes)
    }

    fn cast_float(&mut self, value: Value, target: ValueType, op: Convert) -> (found: Option<Value>)
        ensures
            yields_one(found, final(self)@, float_cast(old(self)@, value, target, op)),
    {
        if value.ty.is_float_type() && target.is_float_type() {
            let float: Value = self.define(Op::Convert { op, value }, target);
            Some(float)
        } else {
            None
        }
    }

    fn reinterpret_all(&mut self, values: &Vec<Value>, leaves: &Vec<Leaf>, pointer_bytes: u32) -> (
        found: Option<Vec<Value>>)
        ensures
            yields(
                found,
                final(self)@,
                all_reinterpreted(
                    old(self)@,
                    values@,
                    leaves@,
                    pointer_bytes,
                    common(values@.len(), leaves@.len()),
                ),
            ),
    {
        let ghost before = self@;
        let mut all: Vec<Value> = Vec::new();
        let mut i: usize = 0;
        assert(all@ =~= Seq::empty());
        while i < values.len() && i < leaves.len()
            invariant
                i <= values@.len(),
                i <= leaves@.len(),
                before == old(self)@,
                all_reinterpreted(before, values@, leaves@, pointer_bytes, i as nat) == Some(
                    Lowered { state: self@, values: all@ },
                ),
            decreases values.len() - i,
        {
            match self.reinterpret_leaf(
                values[i],
                llvm_type(leaves[i], pointer_bytes),
                pointer_bytes,
            ) {
                Some(value) => {
                    all.push(value);
                },
                None => {
                    proof {
                        lemma_reinterpreting_stops(
                            before,
                            values@,
                            leaves@,
                            pointer_bytes,
                            (i + 1) as nat,
                            common(values@.len(), leaves@.len()),
                        );
                    }
                    return None;
                },
            }
            i = i + 1;
        }
        Some(all)
    }

    fn cast_first(
        &mut self,
        kind: CastKind,
        value: Value,
        target: ValueType,
        pointer_bytes: u32,
    ) -> (found: Option<Value>)
        requires
            pointer_bytes <= 16,
        ensures
            match kind {
                CastKind::IntExtend { signed } => yields_one(
                    found,
                    final(self)@,
                    int_cast(old(self)@, value, target, signed, pointer_bytes),
                ),
                CastKind::IntTruncate => yields_one(
                    found,
                    final(self)@,
                    int_cast(old(self)@, value, target, false, pointer_bytes),
                ),
                CastKind::IntToFloat { signed } => yields_one(
                    found,
                    final(self)@,
                    int_to_float(old(self)@, value, target, signed, pointer_bytes),
                ),
                CastKind::FloatToInt { signed } => yields_one(
                    found,
                    final(self)@,
                    float_to_int(old(self)@, value, target, signed, pointer_bytes),
                ),
                CastKind::FloatExtend => yields_one(
                    found,
                    final(self)@,
                    float_cast(old(self)@, value, target, Convert::FloatExtend),
                ),
                CastKind::FloatTruncate => yields_one(
                    found,
                    final(self)@,
                    float_cast(old(self)@, value, target, Convert::FloatTruncate),
                ),
                _ => found is None,
            },
    {
        match kind {
            CastKind::IntExtend { signed } => self.cast_to_target_leaf(
                value,
                target,
                signed,
                pointer_bytes,
            ),
            CastKind::IntTruncate => self.cast_to_target_leaf(value, target, false, pointer_bytes),
            CastKind::IntToFloat { signed } => self.cast_int_to_float(
                value,
                target,
                signed,
                pointer_bytes,
            ),
            CastKind::FloatToInt { signed } => self.cast_float_to_int(
                value,
                target,
                signed,
                pointer_bytes,
            ),
            CastKind::FloatExtend => self.cast_float(value, target, Convert::FloatExtend),
            CastKind::FloatTruncate => self.cast_float(value, target, Convert::FloatTruncate),
            _ => None,
        }
    }

    /// Casts values.
    pub fn cast_values(
        &mut self,
        base: &Vec<Value>,
        kind: CastKind,
        source: &ResolvedType,
        leaves: &Vec<Leaf>,
        pointer_bytes: u32,
    ) -> (values: Option<Vec<Value>>)
        requires
            leaves@.len() > 0,
            pointer_bytes <= 16,
        ensures
            yields(
                values,
                final(self)@,
                converted(
                    Lowered { state: old(self)@, values: base@ },
                    kind,
                    *source,
                    leaves@,
                    pointer_bytes,
                ),
            ),
    {
        if let CastKind::Reinterpret = kind {
            return self.reinterpret_all(base, leaves, pointer_bytes);
        }
        let target: ValueType = llvm_type(leaves[0], pointer_bytes);
        if base.len() == 0 {
            return None;
        }
        match kind {
            CastKind::DropLength => Some(one_value(base[0])),
            CastKind::Unsize => match source {
                ResolvedType::Pointer { pointee, .. } => match &**pointee {
                    ResolvedType::SizedArray(_, size) => Some(
                        two_values(base[0], const_int(ValueType::I32, *size as u64)),
                    ),
                    _ => None,
                },
                _ => None,
            },
            CastKind::SpecNarrow { slot_offset } => {
                if base.len() < 2 || !base[1].ty.is_pointer_type() {
                    return None;
                }
                assert(slot_offset as int * pointer_bytes as int <= 0xffff_ffff * 16)
                    by (nonlinear_arith)
                    requires
                        0 <= slot_offset <= 0xffff_ffff,
                        0 <= pointer_bytes <= 16,
                ;
                let along: u64 = slot_offset as u64 * pointer_bytes as u64;
                let table: Value = self.gep(base[1], const_int(index_type(pointer_bytes), along));
                Some(two_values(base[0], table))
            },
            _ => match self.cast_first(kind, base[0], target, pointer_bytes) {
                Some(value) => Some(one_value(value)),
                None => None,
            },
        }
    }
}

/// An argument beyond a variadic function's parameters, promoted as C does.
pub open spec fn variadic_promoted(
    s: LoweringView,
    value: Value,
    ty: ResolvedType,
    pointer_bits: u32,
) -> Option<Lowered> {
    match promoted(ty, pointer_bits) {
        Some(NumericKind::Float(_)) => if value.ty.floating() {
            Some(s.define(Op::Convert { op: Convert::FloatExtend, value }, ValueType::F64))
        } else {
            None
        },
        Some(NumericKind::Signed(_)) => if value.ty.integral() {
            Some(s.define(Op::Convert { op: Convert::SignExtend, value }, ValueType::I32))
        } else {
            None
        },
        Some(NumericKind::Unsigned(_)) => if value.ty.integral() {
            Some(s.define(Op::Convert { op: Convert::ZeroExtend, value }, ValueType::I32))
        } else {
            None
        },
        None => Some(s.having(value)),
    }
}

/// The first `n` values of such an argument, each promoted.
pub open spec fn all_promoted(
    s: LoweringView,
    values: Seq<Value>,
    ty: ResolvedType,
    pointer_bits: u32,
    n: nat,
) -> Option<Lowered>
    decreases n,
{
    if n == 0 {
        Some(Lowered { state: s, values: Seq::empty() })
    } else {
        match all_promoted(s, values, ty, pointer_bits, (n - 1) as nat) {
            Some(before) => match variadic_promoted(
                before.state,
                values[n - 1],
                ty,
                pointer_bits,
            ) {
                Some(last) => Some(
                    Lowered { state: last.state, values: before.values.push(last.values[0]) },
                ),
                None => None,
            },
            None => None,
        }
    }
}

proof fn lemma_promoting_stops(
    s: LoweringView,
    values: Seq<Value>,
    ty: ResolvedType,
    pointer_bits: u32,
    n: nat,
    m: nat,
)
    requires
        n <= m,
        all_promoted(s, values, ty, pointer_bits, n) is None,
    ensures
        all_promoted(s, values, ty, pointer_bits, m) is None,
    decreases m,
{
    if n < m {
        lemma_promoting_stops(s, values, ty, pointer_bits, n, (m - 1) as nat);
    }
}

/// The first `n` values handed to a call or return.
pub open spec fn passed(s: LoweringView, values: Seq<Value>, n: nat) -> LoweringView
    decreases n,
{
    if n == 0 {
        s
    } else {
        passed(s, values, (n - 1) as nat).push(Op::Pass(values[n - 1]), None)
    }
}

/// The first `n` results of a call that has several.
pub open spec fn extracted(
    s: LoweringView,
    call: usize,
    leaves: Seq<Leaf>,
    pointer_bytes: u32,
    n: nat,
) -> Lowered
    decreases n,
{
    if n == 0 {
        Lowered { state: s, values: Seq::empty() }
    } else {
        let before = extracted(s, call, leaves, pointer_bytes, (n - 1) as nat);
        let last = before.state.define(
            Op::ExtractValue { call, index: (n - 1) as usize },
            leaf_type(leaves[n - 1], pointer_bytes),
        );
        Lowered { state: last.state, values: before.values.push(last.values[0]) }
    }
}

/// What a call hands back as one value, if it does so.
pub open spec fn result_type(leaves: Seq<Leaf>, pointer_bytes: u32) -> Option<ValueType> {
    if leaves.len() == 0 {
        Some(ValueType::Empty)
    } else if leaves.len() == 1 {
        Some(leaf_type(leaves[0], pointer_bytes))
    } else {
        None
    }
}

/// A call of an address. A result that comes back indirectly is returned
/// through a slot whose address goes in front of the arguments, and is loaded
/// from there; several leaves come back as one aggregate and are taken apart.
pub open spec fn called(
    s: LoweringView,
    callee: Value,
    fn_type: Rc<ResolvedFunctionType>,
    convention: Option<CallingConvention>,
    args: Seq<Value>,
    pointer_bytes: u32,
) -> Option<Lowered> {
    let ret = *fn_type.return_type;
    if returns_indirectly(ret, pointer_bytes) {
        let slot = s.next_slot();
        let ready = s.with_slot(
            slot_of(size_of(ret, pointer_bytes), stack_align(ret), SlotUse::Sret),
        );
        let all = seq![slot] + args;
        let done = passed(ready, all, all.len()).push(
            Op::Call { callee, fn_type, convention, count: all.len() as usize },
            None,
        );
        loaded_aligned(done, Storage::Memory { base: slot, offset: 0 }, ret, pointer_bytes)
    } else {
        let ready = passed(s, args, args.len());
        let op = Op::Call { callee, fn_type, convention, count: args.len() as usize };
        match returned(ret, pointer_bytes) {
            ReturnView::Direct(leaves) => match result_type(leaves, pointer_bytes) {
                Some(ty) => Some(ready.define(op, ty)),
                None => Some(
                    extracted(
                        ready.push(op, None),
                        ready.steps.len() as usize,
                        leaves,
                        pointer_bytes,
                        leaves.len(),
                    ),
                ),
            },
            _ => Some(Lowered { state: ready.push(op, None), values: Seq::empty() }),
        }
    }
}

/// The address of the table with these slots; it is made once.
pub open spec fn table_address(
    frame: FrameView,
    s: LoweringView,
    concrete: ResolvedType,
    object: ResolvedType,
    slots: Rc<Vec<HirId>>,
) -> Option<Lowered> {
    match table_position(s.vtables, slots@, 0) {
        Some(index) => Some(s.having(pointer_value(Operand::Vtable(index as usize)))),
        None => if forall|i: int|
            0 <= i < slots@.len() ==> frame.functions.contains(#[trigger] slots@[i]) {
            Some(
                (LoweringView {
                    vtables: s.vtables.push(Vtable { concrete, object, slots }),
                    ..s
                }).having(pointer_value(Operand::Vtable(s.vtables.len() as usize))),
            )
        } else {
            None
        },
    }
}

impl Lowering {
    fn promote_variadic_value(&mut self, value: Value, ty: &ResolvedType, frame: &Frame) -> (found:
        Option<Value>)
        ensures
            yields_one(
                found,
                final(self)@,
                variadic_promoted(old(self)@, value, *ty, (frame.pb() * 8) as u32),
            ),
    {
        let (op, wide): (Convert, ValueType) = match variadic_promotion(ty, frame.target) {
            Some(NumericKind::Float(_)) => {
                if !value.ty.is_float_type() {
                    return None;
                }
                (Convert::FloatExtend, ValueType::F64)
            },
            Some(NumericKind::Signed(_)) => {
                if !value.ty.is_int_type() {
                    return None;
                }
                (Convert::SignExtend, ValueType::I32)
            },
            Some(NumericKind::Unsigned(_)) => {
                if !value.ty.is_int_type() {
                    return None;
                }
                (Convert::ZeroExtend, ValueType::I32)
            },
            None => {
                return Some(value);
            },
        };
        let promoted: Value = self.define(Op::Convert { op, value }, wide);
        Some(promoted)
    }

    pub fn promote_all(&mut self, values: &Vec<Value>, ty: &ResolvedType, frame: &Frame) -> (found:
        Option<Vec<Value>>)
        ensures
            yields(
                found,
                final(self)@,
                all_promoted(
                    old(self)@,
                    values@,
                    *ty,
                    (frame.pb() * 8) as u32,
                    values@.len(),
                ),
            ),
    {
        let ghost before = self@;
        let ghost bits = (frame.pb() * 8) as u32;
        let mut all: Vec<Value> = Vec::new();
        let mut i: usize = 0;
        assert(all@ =~= Seq::empty());
        while i < values.len()
            invariant
                i <= values@.len(),
                before == old(self)@,
                bits == (frame.pb() * 8) as u32,
                all_promoted(before, values@, *ty, bits, i as nat) == Some(
                    Lowered { state: self@, values: all@ },
                ),
            decreases values.len() - i,
        {
            match self.promote_variadic_value(values[i], ty, frame) {
                Some(value) => {
                    all.push(value);
                },
                None => {
                    proof {
                        lemma_promoting_stops(
                            before,
                            values@,
                            *ty,
                            bits,
                            (i + 1) as nat,
                            values@.len(),
                        );
                    }
                    return None;
                },
            }
            i = i + 1;
        }
        Some(all)
    }

    /// Hands values to the call or return that follows.
    pub fn pass_all(&mut self, values: &Vec<Value>)
        ensures
            final(self)@ == passed(old(self)@, values@, values@.len()),
    {
        let ghost before = self@;
        let mut i: usize = 0;
        while i < values.len()
            invariant
                i <= values@.len(),
                before == old(self)@,
                self@ == passed(before, values@, i as nat),
            decreases values.len() - i,
        {
            self.perform(Op::Pass(values[i]));
            i = i + 1;
        }
    }

    fn extract_all(&mut self, call: usize, leaves: &Vec<Leaf>, pointer_bytes: u32) -> (values: Vec<
        Value,
    >)
        ensures
            ({
                let lowered = extracted(old(self)@, call, leaves@, pointer_bytes, leaves@.len());
                values@ == lowered.values && final(self)@ == lowered.state
            }),
    {
        let ghost before = self@;
        let mut values: Vec<Value> = Vec::new();
        let mut i: usize = 0;
        assert(values@ =~= Seq::empty());
        while i < leaves.len()
            invariant
                i <= leaves@.len(),
                before == old(self)@,
                extracted(before, call, leaves@, pointer_bytes, i as nat) == (Lowered {
                    state: self@,
                    values: values@,
                }),
            decreases leaves.len() - i,
        {
            let value: Value = self.define(
                Op::ExtractValue { call, index: i },
                llvm_type(leaves[i], pointer_bytes),
            );
            values.push(value);
            i = i + 1;
        }
        values
    }

    pub fn emit_call(
        &mut self,
        frame: &Frame,
        callee: Value,
        fn_type: &Rc<ResolvedFunctionType>,
        convention: Option<CallingConvention>,
        args: Vec<Value>,
    ) -> (values: Option<Vec<Value>>)
        requires
            fn_measurable(**fn_type, frame.pb()),
        ensures
            yields(
                values,
                final(self)@,
                called(old(self)@, callee, *fn_type, convention, args@, frame.pb()),
            ),
    {
        let pb: u32 = frame.target.pointer_bytes();
        if needs_sret(frame.target, &fn_type.return_type) {
            let slot: Value = self.slot_for(&fn_type.return_type, SlotUse::Sret, pb);
            let mut all: Vec<Value> = one_value(slot);
            let mut rest: Vec<Value> = args;
            all.append(&mut rest);
            self.pass_all(&all);
            self.perform(
                Op::Call { callee, fn_type: share(fn_type), convention, count: all.len() },
            );
            return self.load_aligned(
                &PlaceStorage::Memory { base: slot, offset: 0 },
                &fn_type.return_type,
                pb,
            );
        }
        self.pass_all(&args);
        let op: Op = Op::Call { callee, fn_type: share(fn_type), convention, count: args.len() };
        match AbiReturn::for_type(frame.target, &fn_type.return_type) {
            AbiReturn::Direct(leaves) => {
                if leaves.len() == 0 {
                    let value: Value = self.define(op, ValueType::Empty);
                    return Some(one_value(value));
                }
                if leaves.len() == 1 {
                    let value: Value = self.define(op, llvm_type(leaves[0], pb));
                    return Some(one_value(value));
                }
                let call: usize = self.steps.len();
                self.perform(op);
                Some(self.extract_all(call, &leaves, pb))
            },
            _ => {
                self.perform(op);
                let values: Vec<Value> = Vec::new();
                assert(values@ =~= Seq::empty());
                Some(values)
            },
        }
    }

    pub fn vtable_for(
        &mut self,
        frame: &Frame,
        concrete: &ResolvedType,
        object: &ResolvedType,
        slots: &Rc<Vec<HirId>>,
    ) -> (address: Option<Value>)
        ensures
            yields_one(
                address,
                final(self)@,
                table_address(frame@, old(self)@, *concrete, *object, *slots),
            ),
    {
        let mut i: usize = 0;
        while i < self.vtables.len()
            invariant
                i <= self.vtables@.len(),
                self@ == old(self)@,
                table_position(self.vtables@, slots@, 0) == table_position(
                    self.vtables@,
                    slots@,
                    i as int,
                ),
            decreases self.vtables.len() - i,
        {
            if same_slots(&self.vtables[i].slots, slots) {
                return Some(pointer_to(Operand::Vtable(i)));
            }
            i = i + 1;
        }
        if !all_declared(&frame.functions, slots) {
            return None;
        }
        let index: usize = self.vtables.len();
        self.vtables.push(
            Vtable { concrete: concrete.clone(), object: object.clone(), slots: share(slots) },
        );
        Some(pointer_to(Operand::Vtable(index)))
    }
}

/// The data pointer and the length of what is sliced: an array's address and
/// size, or what another sequence holds. A pointer to an array of unknown size
/// has no length.
pub open spec fn sequence_parts(p: PlaceState, pointer_bytes: u32) -> Option<Lowered> {
    match p.ty {
        ResolvedType::SizedArray(_, size) => match addressed(p.state, p.storage, pointer_bytes) {
            Some(address) => Some(
                Lowered {
                    values: seq![address.values[0], int_value(ValueType::I32, size as u64)],
                    ..address
                },
            ),
            None => None,
        },
        ResolvedType::Slice { .. } | ResolvedType::Str { .. } => match loaded_aligned(
            p.state,
            p.storage,
            p.ty,
            pointer_bytes,
        ) {
            Some(found) => if found.values.len() >= 2 && found.values[0].ty is Ptr {
                Some(Lowered { values: seq![found.values[0], found.values[1]], ..found })
            } else {
                None
            },
            None => None,
        },
        ResolvedType::Array(_, _) => match first_pointer(
            loaded_aligned(p.state, p.storage, p.ty, pointer_bytes),
        ) {
            Some(found) => Some(
                Lowered {
                    values: seq![found.values[0], int_value(ValueType::I32, 0)],
                    ..found
                },
            ),
            None => None,
        },
        _ => None,
    }
}

/// The data pointer and the length of part of a sequence.
pub open spec fn sliced(
    s: LoweringView,
    data: Value,
    start: Value,
    end: Value,
    size: nat,
    pointer_bytes: u32,
) -> Option<Lowered> {
    match element_address(s, data, start, size, pointer_bytes) {
        Some(pointer) => if end.ty.integral() {
            let length = pointer.state.define(
                Op::Binary { op: Arith::IntSub, left: end, right: start },
                end.ty,
            );
            Some(Lowered { values: seq![pointer.values[0], length.values[0]], ..length })
        } else {
            None
        },
        None => None,
    }
}

/// Where a range ends: behind its last element where it is inclusive.
pub open spec fn range_end(s: LoweringView, end: Value, inclusive: bool) -> Option<Lowered> {
    if !end.ty.integral() {
        None
    } else if inclusive {
        Some(
            s.define(
                Op::Binary { op: Arith::IntAdd, left: end, right: int_value(ValueType::I32, 1) },
                end.ty,
            ),
        )
    } else {
        Some(s.having(end))
    }
}

impl Lowering {
    pub fn split_sequence(&mut self, storage: &PlaceStorage, ty: &ResolvedType, pointer_bytes: u32) -> (
        parts: Option<(Value, Value)>)
        requires
            measurable(*ty, pointer_bytes),
        ensures
            match sequence_parts(
                PlaceState { state: old(self)@, storage: storage@, ty: *ty },
                pointer_bytes,
            ) {
                Some(lowered) => {
                    &&& parts is Some
                    &&& lowered.values == seq![(parts->0).0, (parts->0).1]
                    &&& final(self)@ == lowered.state
                },
                None => parts is None,
            },
    {
        match ty {
            ResolvedType::SizedArray(_, size) => match self.place_storage_address(
                storage,
                pointer_bytes,
            ) {
                Some(data) => Some((data, const_int(ValueType::I32, *size as u64))),
                None => None,
            },
            ResolvedType::Slice { .. } | ResolvedType::Str { .. } => match self.load_aligned(
                storage,
                ty,
                pointer_bytes,
            ) {
                Some(values) => if values.len() >= 2 && values[0].ty.is_pointer_type() {
                    Some((values[0], values[1]))
                } else {
                    None
                },
                None => None,
            },
            ResolvedType::Array(_, _) => {
                let found: Option<Vec<Value>> = self.load_aligned(storage, ty, pointer_bytes);
                match pointer_in(&found) {
                    Some(data) => Some((data, const_int(ValueType::I32, 0))),
                    None => None,
                }
            },
            _ => None,
        }
    }

    pub fn cut(
        &mut self,
        data: Value,
        start: Value,
        end: Value,
        size: u32,
        pointer_bytes: u32,
    ) -> (values: Option<Vec<Value>>)
        ensures
            yields(
                values,
                final(self)@,
                sliced(old(self)@, data, start, end, size as nat, pointer_bytes),
            ),
    {
        match self.element_at(data, start, size, pointer_bytes) {
            Some(pointer) => if end.ty.is_int_type() {
                let length: Value = self.define(
                    Op::Binary { op: Arith::IntSub, left: end, right: start },
                    end.ty,
                );
                Some(two_values(pointer, length))
            } else {
                None
            },
            None => None,
        }
    }

    pub fn close_range(&mut self, end: Value, inclusive: bool) -> (value: Option<Value>)
        ensures
            yields_one(value, final(self)@, range_end(old(self)@, end, inclusive)),
    {
        if !end.ty.is_int_type() {
            return None;
        }
        if inclusive {
            let behind: Value = self.define(
                Op::Binary { op: Arith::IntAdd, left: end, right: const_int(ValueType::I32, 1) },
                end.ty,
            );
            Some(behind)
        } else {
            Some(end)
        }
    }
}

} // verus!
