//! What LLVM is told to emit. A value is typed, and is either a constant, a
//! symbol's address, or what an earlier instruction defined.

pub mod blob;
pub mod call_laws;
pub mod constant;
pub mod evaluation;
pub mod expr;
pub mod expression_laws;
pub mod function;
pub mod item;
pub mod laws;
pub mod memory_laws;
pub mod operation_laws;
pub mod place;
pub mod scalar;
pub mod sound_code;
pub mod sound_scalar;
pub mod soundness;

use crate::codegen::constants::{forward, moved, ConstPool, ObjectView};
use crate::codegen::shared::Vtable;
use crate::hir::HirId;
use crate::layout::{
    align_of, floor_log2, larger, leaves_of, leaves_spec, measurable, size_of, stack_align_shift,
    total_bytes, type_alignment, Leaf,
};
use crate::resolved_type::{CallingConvention, ResolvedFunctionType, ResolvedType};
use crate::target::Target;
use std::rc::Rc;
use vstd::arithmetic::power2::pow2;
use vstd::prelude::*;

verus! {

/// The type of a value.
#[derive(Debug, Clone, Copy, PartialEq, Eq, Structural)]
pub enum ValueType {
    I1,
    I8,
    I16,
    I32,
    I64,
    F32,
    F64,
    Ptr,
    /// An aggregate without fields.
    Empty,
}

impl ValueType {
    /// Bytes of a value of this type in memory.
    pub open spec fn width(self, pointer_bytes: u32) -> nat {
        match self {
            ValueType::I1 => 0,
            ValueType::I8 => 1,
            ValueType::I16 => 2,
            ValueType::I32 => 4,
            ValueType::I64 => 8,
            ValueType::F32 => 4,
            ValueType::F64 => 8,
            ValueType::Ptr => pointer_bytes as nat,
            ValueType::Empty => pointer_bytes as nat,
        }
    }

    pub fn value_byte_width(self, pointer_bytes: u32) -> (bytes: u32)
        ensures
            bytes == self.width(pointer_bytes),
    {
        match self {
            ValueType::I1 => 0,
            ValueType::I8 => 1,
            ValueType::I16 => 2,
            ValueType::I32 => 4,
            ValueType::I64 => 8,
            ValueType::F32 => 4,
            ValueType::F64 => 8,
            ValueType::Ptr => pointer_bytes,
            ValueType::Empty => pointer_bytes,
        }
    }

    /// Bits of an integer type; nothing for other types.
    pub open spec fn int_bits(self) -> Option<u32> {
        match self {
            ValueType::I1 => Some(1),
            ValueType::I8 => Some(8),
            ValueType::I16 => Some(16),
            ValueType::I32 => Some(32),
            ValueType::I64 => Some(64),
            _ => None,
        }
    }

    pub fn get_bit_width(self) -> (bits: Option<u32>)
        ensures
            bits == self.int_bits(),
    {
        match self {
            ValueType::I1 => Some(1),
            ValueType::I8 => Some(8),
            ValueType::I16 => Some(16),
            ValueType::I32 => Some(32),
            ValueType::I64 => Some(64),
            _ => None,
        }
    }

    pub open spec fn integral(self) -> bool {
        self.int_bits() is Some
    }

    pub open spec fn floating(self) -> bool {
        self is F32 || self is F64
    }

    pub fn is_int_type(self) -> (r: bool)
        ensures
            r == self.integral(),
    {
        self.get_bit_width().is_some()
    }

    pub fn is_float_type(self) -> (r: bool)
        ensures
            r == self.floating(),
    {
        match self {
            ValueType::F32 | ValueType::F64 => true,
            _ => false,
        }
    }

    pub fn is_pointer_type(self) -> (r: bool)
        ensures
            r == (self is Ptr),
    {
        match self {
            ValueType::Ptr => true,
            _ => false,
        }
    }
}

/// The integer type as wide as a pointer.
pub open spec fn size_ir(pointer_bytes: u32) -> ValueType {
    if pointer_bytes == 8 {
        ValueType::I64
    } else if pointer_bytes == 4 {
        ValueType::I32
    } else {
        ValueType::I16
    }
}

pub fn size_type(pointer_bytes: u32) -> (ty: ValueType)
    ensures
        ty == size_ir(pointer_bytes),
{
    if pointer_bytes == 8 {
        ValueType::I64
    } else if pointer_bytes == 4 {
        ValueType::I32
    } else {
        ValueType::I16
    }
}

/// The integer type that addresses are computed in.
pub open spec fn index_ir(pointer_bytes: u32) -> ValueType {
    if pointer_bytes == 8 {
        ValueType::I64
    } else {
        ValueType::I32
    }
}

pub fn index_type(pointer_bytes: u32) -> (ty: ValueType)
    ensures
        ty == index_ir(pointer_bytes),
{
    if pointer_bytes == 8 {
        ValueType::I64
    } else {
        ValueType::I32
    }
}

/// The type a leaf is held in. Integers as wide as a pointer and pointers are
/// distinct types.
pub open spec fn leaf_type(leaf: Leaf, pointer_bytes: u32) -> ValueType {
    match leaf {
        Leaf::I8 => ValueType::I8,
        Leaf::I16 => ValueType::I16,
        Leaf::I32 => ValueType::I32,
        Leaf::I64 => ValueType::I64,
        Leaf::F32 => ValueType::F32,
        Leaf::F64 => ValueType::F64,
        Leaf::Ptr => ValueType::Ptr,
        Leaf::FnPtr => ValueType::Ptr,
        Leaf::Size => size_ir(pointer_bytes),
    }
}

pub fn llvm_type(leaf: Leaf, pointer_bytes: u32) -> (ty: ValueType)
    ensures
        ty == leaf_type(leaf, pointer_bytes),
{
    match leaf {
        Leaf::I8 => ValueType::I8,
        Leaf::I16 => ValueType::I16,
        Leaf::I32 => ValueType::I32,
        Leaf::I64 => ValueType::I64,
        Leaf::F32 => ValueType::F32,
        Leaf::F64 => ValueType::F64,
        Leaf::Ptr => ValueType::Ptr,
        Leaf::FnPtr => ValueType::Ptr,
        Leaf::Size => size_type(pointer_bytes),
    }
}

/// What a value is.
#[derive(Debug, Clone, Copy, PartialEq, Eq, Structural)]
pub enum Operand {
    /// What an instruction defined, by its position.
    Step(usize),
    /// A parameter of the function, by its position.
    Param(usize),
    /// An integer, by its bits; those beyond its type do not count.
    Int(u64),
    /// A float, by its bits as one of 64 bits.
    Float(u64),
    /// An integer of pointer width, as an address.
    IntAddress(u64),
    Null,
    /// The address of a stack slot, by its position.
    Slot(usize),
    /// The address of constant data, by its position in the pool.
    Data(usize),
    /// The address of a method table, by its position.
    Vtable(usize),
    Function(HirId),
    Global(HirId),
}

/// A value and its type.
#[derive(Debug, Clone, Copy, PartialEq, Eq, Structural)]
pub struct Value {
    pub ty: ValueType,
    pub operand: Operand,
}

/// An integer constant.
pub open spec fn int_value(ty: ValueType, bits: u64) -> Value {
    Value { ty, operand: Operand::Int(bits) }
}

pub fn const_int(ty: ValueType, bits: u64) -> (value: Value)
    ensures
        value == int_value(ty, bits),
{
    Value { ty, operand: Operand::Int(bits) }
}

/// An address.
pub open spec fn pointer_value(operand: Operand) -> Value {
    Value { ty: ValueType::Ptr, operand }
}

pub fn pointer_to(operand: Operand) -> (value: Value)
    ensures
        value == pointer_value(operand),
{
    Value { ty: ValueType::Ptr, operand }
}

/// The zero of a type.
pub open spec fn zero_of(ty: ValueType) -> Value {
    Value {
        ty,
        operand: if ty is Ptr {
            Operand::Null
        } else if ty.floating() {
            Operand::Float(0)
        } else {
            Operand::Int(0)
        },
    }
}

pub fn const_zero(ty: ValueType) -> (value: Value)
    ensures
        value == zero_of(ty),
{
    let operand: Operand = if ty.is_pointer_type() {
        Operand::Null
    } else if ty.is_float_type() {
        Operand::Float(0)
    } else {
        Operand::Int(0)
    };
    Value { ty, operand }
}

/// How integers are compared.
#[derive(Debug, Clone, Copy, PartialEq, Eq, Structural)]
pub enum IntPredicate {
    EQ,
    NE,
    SLT,
    SLE,
    SGT,
    SGE,
    ULT,
    ULE,
    UGT,
    UGE,
}

/// How floats are compared; nothing holds of what is not a number.
#[derive(Debug, Clone, Copy, PartialEq, Eq, Structural)]
pub enum FloatPredicate {
    OEQ,
    ONE,
    OLT,
    OLE,
    OGT,
    OGE,
}

/// An operation on two values of one type.
#[derive(Debug, Clone, Copy, PartialEq, Eq, Structural)]
pub enum Arith {
    IntAdd,
    IntSub,
    IntMul,
    IntSignedDiv,
    IntUnsignedDiv,
    IntSignedRem,
    IntUnsignedRem,
    And,
    Or,
    Xor,
    LeftShift,
    ArithmeticRightShift,
    LogicalRightShift,
    FloatAdd,
    FloatSub,
    FloatMul,
    FloatDiv,
}

/// An operation that turns a value into one of another type.
#[derive(Debug, Clone, Copy, PartialEq, Eq, Structural)]
pub enum Convert {
    SignExtend,
    ZeroExtend,
    Truncate,
    SignedIntToFloat,
    UnsignedIntToFloat,
    /// Saturating, as casts of floats to integers are.
    FloatToSignedInt,
    FloatToUnsignedInt,
    FloatExtend,
    FloatTruncate,
    PtrToInt,
    IntToPtr,
}

/// An instruction.
#[derive(Debug)]
#[allow(inconsistent_fields)]
pub enum Op {
    /// An address, that many bytes along.
    Gep { base: Value, offset: Value },
    Load { pointer: Value, align: u32 },
    Store { value: Value, pointer: Value, align: u32 },
    Binary { op: Arith, left: Value, right: Value },
    IntCompare { predicate: IntPredicate, left: Value, right: Value },
    FloatCompare { predicate: FloatPredicate, left: Value, right: Value },
    IntNeg(Value),
    FloatNeg(Value),
    Not(Value),
    Convert { op: Convert, value: Value },
    /// Hands a value to the call or return that follows.
    Pass(Value),
    /// Calls an address with the `count` values passed last, by a convention
    /// of its own where it has one.
    Call {
        callee: Value,
        fn_type: Rc<ResolvedFunctionType>,
        convention: Option<CallingConvention>,
        count: usize,
    },
    /// One of the results of a call that has several.
    ExtractValue { call: usize, index: usize },
    /// Runs a machine-code statement, by its position, with the `count` values
    /// passed last.
    InlineCode { statement: usize, count: usize },
    /// What follows belongs to this block.
    Enter(usize),
    Branch(usize),
    ConditionalBranch { condition: Value, then_block: usize, else_block: usize },
    /// Returns the `count` values passed last; several as one aggregate.
    Return { count: usize },
    Unreachable,
}

/// An instruction and the type of the value it defines, if it defines one.
#[derive(Debug)]
pub struct Step {
    pub op: Op,
    pub ty: Option<ValueType>,
}

/// What a stack slot is for.
#[derive(Debug, Clone, Copy, PartialEq, Eq, Structural)]
pub enum SlotUse {
    Locals,
    Param,
    ParamAddr,
    Tmp,
    UnionSpill,
    Sret,
    EnumConst,
    UnionConst,
    Enum,
    Union,
}

/// A stack slot: its bytes, of which there is at least one, and its alignment.
#[derive(Debug, Clone, Copy, PartialEq, Eq, Structural)]
pub struct SlotData {
    pub size: u32,
    pub align: u32,
    pub purpose: SlotUse,
}

/// A machine-code statement: its text, what its operands are constrained to,
/// and whether it is in Intel's dialect.
#[derive(Debug)]
pub struct Statement {
    pub text: String,
    pub constraints: String,
    pub intel: bool,
}

/// What a [`Statement`] says.
pub struct StatementView {
    pub text: Seq<char>,
    pub constraints: Seq<char>,
    pub intel: bool,
}

impl View for Statement {
    type V = StatementView;

    open spec fn view(&self) -> StatementView {
        StatementView {
            text: self.text@,
            constraints: self.constraints@,
            intel: self.intel,
        }
    }
}

/// A function being lowered, with the data and tables of the compilation.
#[derive(Debug)]
pub struct Lowering {
    pub steps: Vec<Step>,
    pub slots: Vec<SlotData>,
    pub statements: Vec<Statement>,
    pub pool: ConstPool,
    pub vtables: Vec<Vtable>,
}

/// What a [`Lowering`] holds.
pub struct LoweringView {
    pub steps: Seq<Step>,
    pub slots: Seq<SlotData>,
    pub statements: Seq<StatementView>,
    pub pool: Seq<ObjectView>,
    pub vtables: Seq<Vtable>,
}

/// What statements say, in order.
pub open spec fn statement_views(statements: Seq<Statement>) -> Seq<StatementView> {
    statements.map_values(|statement: Statement| statement@)
}

impl View for Lowering {
    type V = LoweringView;

    open spec fn view(&self) -> LoweringView {
        LoweringView {
            steps: self.steps@,
            slots: self.slots@,
            statements: statement_views(self.statements@),
            pool: self.pool@,
            vtables: self.vtables@,
        }
    }
}

/// A function being lowered, and the values an expression has.
pub struct Lowered {
    pub state: LoweringView,
    pub values: Seq<Value>,
}

/// A slot of some bytes.
pub open spec fn slot_of(size: nat, align: u32, purpose: SlotUse) -> SlotData {
    SlotData {
        size: if size == 0 {
            1
        } else {
            size as u32
        },
        align,
        purpose,
    }
}

impl LoweringView {
    /// What the next instruction defines.
    pub open spec fn next(self, ty: ValueType) -> Value {
        Value { ty, operand: Operand::Step(self.steps.len() as usize) }
    }

    /// The address of the next stack slot.
    pub open spec fn next_slot(self) -> Value {
        pointer_value(Operand::Slot(self.slots.len() as usize))
    }

    pub open spec fn push(self, op: Op, ty: Option<ValueType>) -> LoweringView {
        LoweringView { steps: self.steps.push(Step { op, ty }), ..self }
    }

    pub open spec fn with_slot(self, slot: SlotData) -> LoweringView {
        LoweringView { slots: self.slots.push(slot), ..self }
    }

    pub open spec fn with_pool(self, pool: Seq<ObjectView>) -> LoweringView {
        LoweringView { pool, ..self }
    }

    /// An instruction that defines a value.
    pub open spec fn define(self, op: Op, ty: ValueType) -> Lowered {
        Lowered { state: self.push(op, Some(ty)), values: seq![self.next(ty)] }
    }

    /// Values that need no instruction.
    pub open spec fn having(self, value: Value) -> Lowered {
        Lowered { state: self, values: seq![value] }
    }

    /// The address that many bytes along.
    pub open spec fn along(self, base: Value, offset: u32, pointer_bytes: u32) -> Lowered {
        self.define(
            Op::Gep { base, offset: int_value(index_ir(pointer_bytes), offset as u64) },
            ValueType::Ptr,
        )
    }
}

impl Lowering {
    pub fn define(&mut self, op: Op, ty: ValueType) -> (value: Value)
        ensures
            final(self)@ == old(self)@.push(op, Some(ty)),
            value == old(self)@.next(ty),
    {
        let value: Value = Value { ty, operand: Operand::Step(self.steps.len()) };
        self.steps.push(Step { op, ty: Some(ty) });
        value
    }

    pub fn perform(&mut self, op: Op)
        ensures
            final(self)@ == old(self)@.push(op, None),
    {
        self.steps.push(Step { op, ty: None });
    }

    pub fn entry_alloca(&mut self, bytes: u32, align: u32, purpose: SlotUse) -> (address: Value)
        ensures
            final(self)@ == old(self)@.with_slot(slot_of(bytes as nat, align, purpose)),
            address == old(self)@.next_slot(),
    {
        let index: usize = self.slots.len();
        let size: u32 = if bytes == 0 {
            1
        } else {
            bytes
        };
        self.slots.push(SlotData { size, align, purpose });
        pointer_to(Operand::Slot(index))
    }

    pub fn gep(&mut self, base: Value, offset: Value) -> (address: Value)
        ensures
            final(self)@ == old(self)@.push(Op::Gep { base, offset }, Some(ValueType::Ptr)),
            address == old(self)@.next(ValueType::Ptr),
    {
        self.define(Op::Gep { base, offset }, ValueType::Ptr)
    }

    pub fn byte_gep(&mut self, base: Value, offset: u32, pointer_bytes: u32) -> (address: Value)
        ensures
            final(self)@ == old(self)@.along(base, offset, pointer_bytes).state,
            seq![address] == old(self)@.along(base, offset, pointer_bytes).values,
    {
        self.gep(base, const_int(index_type(pointer_bytes), offset as u64))
    }
}

/// The largest power of two that divides a number other than zero.
pub open spec fn low_power(n: nat) -> nat
    decreases n,
{
    if n == 0 || n % 2 == 1 {
        1
    } else {
        2 * low_power(n / 2)
    }
}

/// The alignment known at an offset from an address of a known alignment.
pub open spec fn aligned_at(base: u32, offset: u32) -> u32 {
    let least = larger(base as nat, 1);
    if offset == 0 || least <= low_power(offset as nat) {
        least as u32
    } else {
        low_power(offset as nat) as u32
    }
}

proof fn lemma_low_power(n: nat)
    requires
        n > 0,
    ensures
        1 <= low_power(n) <= n,
    decreases n,
{
    if n % 2 == 0 {
        lemma_low_power(n / 2);
    }
}

pub fn offset_align(base: u32, offset: u32) -> (align: u32)
    ensures
        align == aligned_at(base, offset),
{
    let least: u32 = if base < 1 {
        1
    } else {
        base
    };
    if offset == 0 {
        return least;
    }
    let mut power: u32 = 1;
    let mut rest: u32 = offset;
    proof {
        lemma_low_power(offset as nat);
    }
    while rest % 2 == 0
        invariant
            rest > 0,
            power * low_power(rest as nat) == low_power(offset as nat),
            low_power(offset as nat) <= offset,
            power >= 1,
        decreases rest,
    {
        proof {
            lemma_low_power(rest as nat / 2);
            let half = low_power(rest as nat / 2);
            let whole = low_power(offset as nat);
            assert(power * 2 <= whole && (power * 2) * half == whole) by (nonlinear_arith)
                requires
                    power * (2 * half) == whole,
                    half >= 1,
                    power >= 1,
            ;
        }
        power = power * 2;
        rest = rest / 2;
    }
    assert(power == low_power(offset as nat)) by (nonlinear_arith)
        requires
            power * low_power(rest as nat) == low_power(offset as nat),
            low_power(rest as nat) == 1,
    ;
    if least <= power {
        least
    } else {
        power
    }
}

/// Two to a power.
pub fn power_of_two(shift: u8) -> (power: u32)
    requires
        shift < 32,
    ensures
        power == pow2(shift as nat),
{
    let mut power: u32 = 1;
    let mut i: u8 = 0;
    proof {
        vstd::arithmetic::power2::lemma2_to64();
    }
    while i < shift
        invariant
            i <= shift < 32,
            power == pow2(i as nat),
        decreases shift - i,
    {
        proof {
            vstd::arithmetic::power2::lemma_pow2_unfold((i + 1) as nat);
            vstd::arithmetic::power2::lemma2_to64();
            if i + 1 < 31 {
                vstd::arithmetic::power2::lemma_pow2_strictly_increases((i + 1) as nat, 31);
            }
        }
        power = power * 2;
        i = i + 1;
    }
    power
}

/// The alignment of a stack slot for a type: that of the type, at least 16.
pub open spec fn stack_align(ty: ResolvedType) -> u32 {
    pow2(larger(floor_log2(align_of(ty)), 4)) as u32
}

pub fn stack_alignment(ty: &ResolvedType) -> (align: u32)
    ensures
        align == stack_align(*ty),
{
    power_of_two(stack_align_shift(type_alignment(ty)))
}

/// What surrounds the function being lowered: the target, where its parameters
/// and locals are, and the names that have been declared.
#[derive(Debug)]
pub struct Frame {
    pub target: Target,
    pub arg_count: usize,
    /// The values of each parameter, by local.
    pub local_args: Vec<Vec<Value>>,
    /// The address of the slot that holds the other locals.
    pub frame_slot: Value,
    /// Where each of the other locals lies in that slot, by local.
    pub local_offsets: Vec<u32>,
    pub functions: Vec<HirId>,
    pub globals: Vec<HirId>,
}

/// What a [`Frame`] says.
pub struct FrameView {
    pub target: Target,
    pub arg_count: usize,
    pub local_args: Seq<Seq<Value>>,
    pub frame_slot: Value,
    pub local_offsets: Seq<u32>,
    pub functions: Seq<HirId>,
    pub globals: Seq<HirId>,
}

impl View for Frame {
    type V = FrameView;

    open spec fn view(&self) -> FrameView {
        FrameView {
            target: self.target,
            arg_count: self.arg_count,
            local_args: self.local_args@.map_values(|values: Vec<Value>| values@),
            frame_slot: self.frame_slot,
            local_offsets: self.local_offsets@,
            functions: self.functions@,
            globals: self.globals@,
        }
    }
}

impl Frame {
    /// Bytes of a pointer.
    pub open spec fn pb(&self) -> u32 {
        self.target.pointer_width()
    }
}

impl FrameView {
    /// Bytes of a pointer.
    pub open spec fn pb(self) -> u32 {
        self.target.pointer_width()
    }
}

/// Where a place's value is: in values, or in memory.
pub enum Storage {
    Values(Seq<Value>),
    Memory { base: Value, offset: u32 },
}

#[derive(Debug)]
#[allow(inconsistent_fields)]
pub enum PlaceStorage {
    Values(Vec<Value>),
    Memory { base: Value, offset: u32 },
}

impl View for PlaceStorage {
    type V = Storage;

    open spec fn view(&self) -> Storage {
        match *self {
            PlaceStorage::Values(values) => Storage::Values(values@),
            PlaceStorage::Memory { base, offset } => Storage::Memory { base, offset },
        }
    }
}

/// The bytes the first `n` values take.
pub open spec fn values_width(values: Seq<Value>, pointer_bytes: u32, n: nat) -> nat
    decreases n,
{
    if n == 0 {
        0
    } else {
        values_width(values, pointer_bytes, (n - 1) as nat) + values[n - 1].ty.width(pointer_bytes)
    }
}

/// The first `n` values stored one behind the other.
pub open spec fn stored(
    s: LoweringView,
    base: Value,
    offset: u32,
    values: Seq<Value>,
    align: u32,
    pointer_bytes: u32,
    n: nat,
) -> Option<LoweringView>
    decreases n,
{
    if n == 0 {
        Some(s)
    } else {
        match stored(s, base, offset, values, align, pointer_bytes, (n - 1) as nat) {
            Some(before) => match moved(
                offset,
                values_width(values, pointer_bytes, (n - 1) as nat),
            ) {
                Some(at) => {
                    let pointer = before.along(base, at, pointer_bytes);
                    Some(
                        pointer.state.push(
                            Op::Store {
                                value: values[n - 1],
                                pointer: pointer.values[0],
                                align: aligned_at(align, at),
                            },
                            None,
                        ),
                    )
                },
                None => None,
            },
            None => None,
        }
    }
}

/// All of the values stored one behind the other.
pub open spec fn all_stored(
    s: LoweringView,
    base: Value,
    offset: u32,
    values: Seq<Value>,
    align: u32,
    pointer_bytes: u32,
) -> Option<LoweringView> {
    stored(s, base, offset, values, align, pointer_bytes, values.len())
}

proof fn lemma_storing_stops(
    s: LoweringView,
    base: Value,
    offset: u32,
    values: Seq<Value>,
    align: u32,
    pointer_bytes: u32,
    n: nat,
    m: nat,
)
    requires
        n <= m,
        stored(s, base, offset, values, align, pointer_bytes, n) is None,
    ensures
        stored(s, base, offset, values, align, pointer_bytes, m) is None,
    decreases m,
{
    if n < m {
        lemma_storing_stops(s, base, offset, values, align, pointer_bytes, n, (m - 1) as nat);
    }
}

impl Lowering {
    /// Stores values one behind the other.
    pub fn store_scalars(
        &mut self,
        base: Value,
        offset: u32,
        values: &Vec<Value>,
        align: u32,
        pointer_bytes: u32,
    ) -> (done: bool)
        ensures
            match all_stored(old(self)@, base, offset, values@, align, pointer_bytes) {
                Some(after) => done && final(self)@ == after,
                None => !done,
            },
    {
        let ghost start = self@;
        let mut along: u64 = 0;
        let mut i: usize = 0;
        while i < values.len()
            invariant
                i <= values@.len(),
                start == old(self)@,
                stored(start, base, offset, values@, align, pointer_bytes, i as nat) == Some(self@),
                along == values_width(values@, pointer_bytes, i as nat),
                along <= 0x1_ffff_fffe,
            decreases values.len() - i,
        {
            let value: Value = values[i];
            let place: Option<u32> = if along > 0xffff_ffff {
                None
            } else {
                forward(offset, along as u32)
            };
            match place {
                Some(at) => {
                    let pointer: Value = self.byte_gep(base, at, pointer_bytes);
                    self.perform(
                        Op::Store { value, pointer, align: offset_align(align, at) },
                    );
                    along = along + value.ty.value_byte_width(pointer_bytes) as u64;
                },
                None => {
                    proof {
                        lemma_storing_stops(
                            start,
                            base,
                            offset,
                            values@,
                            align,
                            pointer_bytes,
                            (i + 1) as nat,
                            values@.len(),
                        );
                    }
                    return false;
                },
            }
            i = i + 1;
        }
        true
    }
}

/// The bytes the first `n` leaves take.
pub open spec fn leaves_width(leaves: Seq<Leaf>, pointer_bytes: u32, n: nat) -> nat
    decreases n,
{
    if n == 0 {
        0
    } else {
        leaves_width(leaves, pointer_bytes, (n - 1) as nat) + leaf_type(
            leaves[n - 1],
            pointer_bytes,
        ).width(pointer_bytes)
    }
}

/// The first `n` leaves loaded from memory, one after the other.
pub open spec fn leaves_loaded(
    s: LoweringView,
    base: Value,
    offset: u32,
    leaves: Seq<Leaf>,
    align: u32,
    pointer_bytes: u32,
    n: nat,
) -> Option<Lowered>
    decreases n,
{
    if n == 0 {
        Some(Lowered { state: s, values: Seq::empty() })
    } else {
        match leaves_loaded(s, base, offset, leaves, align, pointer_bytes, (n - 1) as nat) {
            Some(before) => match moved(
                offset,
                leaves_width(leaves, pointer_bytes, (n - 1) as nat),
            ) {
                Some(at) => {
                    let pointer = before.state.along(base, at, pointer_bytes);
                    let value = pointer.state.define(
                        Op::Load {
                            pointer: pointer.values[0],
                            align: aligned_at(align, at),
                        },
                        leaf_type(leaves[n - 1], pointer_bytes),
                    );
                    Some(
                        Lowered {
                            state: value.state,
                            values: before.values.push(value.values[0]),
                        },
                    )
                },
                None => None,
            },
            None => None,
        }
    }
}

/// The values of what a storage holds: those it is, or the leaves loaded from
/// it.
pub open spec fn loaded(
    s: LoweringView,
    storage: Storage,
    ty: ResolvedType,
    align: u32,
    pointer_bytes: u32,
) -> Option<Lowered> {
    match storage {
        Storage::Values(values) => Some(Lowered { state: s, values }),
        Storage::Memory { base, offset } => leaves_loaded(
            s,
            base,
            offset,
            leaves_spec(ty, pointer_bytes),
            align,
            pointer_bytes,
            leaves_spec(ty, pointer_bytes).len(),
        ),
    }
}

/// [`loaded`] with the alignment of the type.
pub open spec fn loaded_aligned(
    s: LoweringView,
    storage: Storage,
    ty: ResolvedType,
    pointer_bytes: u32,
) -> Option<Lowered> {
    loaded(s, storage, ty, align_of(ty) as u32, pointer_bytes)
}

proof fn lemma_loading_stops(
    s: LoweringView,
    base: Value,
    offset: u32,
    leaves: Seq<Leaf>,
    align: u32,
    pointer_bytes: u32,
    n: nat,
    m: nat,
)
    requires
        n <= m,
        leaves_loaded(s, base, offset, leaves, align, pointer_bytes, n) is None,
    ensures
        leaves_loaded(s, base, offset, leaves, align, pointer_bytes, m) is None,
    decreases m,
{
    if n < m {
        lemma_loading_stops(s, base, offset, leaves, align, pointer_bytes, n, (m - 1) as nat);
    }
}

/// A copy of values.
pub fn copy_values(values: &Vec<Value>) -> (copy: Vec<Value>)
    ensures
        copy@ == values@,
{
    let mut copy: Vec<Value> = Vec::new();
    let mut i: usize = 0;
    while i < values.len()
        invariant
            i <= values@.len(),
            copy@ =~= values@.take(i as int),
        decreases values.len() - i,
    {
        copy.push(values[i]);
        i = i + 1;
    }
    assert(copy@ =~= values@);
    copy
}

/// One value.
pub fn one_value(value: Value) -> (values: Vec<Value>)
    ensures
        values@ == seq![value],
{
    let mut values: Vec<Value> = Vec::new();
    values.push(value);
    assert(values@ =~= seq![value]);
    values
}

/// Two values.
pub fn two_values(first: Value, second: Value) -> (values: Vec<Value>)
    ensures
        values@ == seq![first, second],
{
    let mut values: Vec<Value> = Vec::new();
    values.push(first);
    values.push(second);
    assert(values@ =~= seq![first, second]);
    values
}

impl Lowering {
    /// Loads what a storage holds.
    pub fn load_scalars(
        &mut self,
        storage: &PlaceStorage,
        ty: &ResolvedType,
        align: u32,
        pointer_bytes: u32,
    ) -> (values: Option<Vec<Value>>)
        requires
            measurable(*ty, pointer_bytes),
        ensures
            match loaded(old(self)@, storage@, *ty, align, pointer_bytes) {
                Some(lowered) => {
                    &&& values is Some
                    &&& values->0@ == lowered.values
                    &&& final(self)@ == lowered.state
                },
                None => values is None,
            },
    {
        let (base, offset): (Value, u32) = match storage {
            PlaceStorage::Values(values) => {
                return Some(copy_values(values));
            },
            PlaceStorage::Memory { base, offset } => (*base, *offset),
        };
        let ghost start = self@;
        let leaves: Vec<Leaf> = leaves_of(ty, pointer_bytes);
        let mut values: Vec<Value> = Vec::new();
        let mut along: u64 = 0;
        let mut i: usize = 0;
        assert(values@ =~= Seq::empty());
        while i < leaves.len()
            invariant
                i <= leaves@.len(),
                start == old(self)@,
                leaves@ == leaves_spec(*ty, pointer_bytes),
                storage@ == (Storage::Memory { base, offset }),
                leaves_loaded(start, base, offset, leaves@, align, pointer_bytes, i as nat) == Some(
                    Lowered { state: self@, values: values@ },
                ),
                along == leaves_width(leaves@, pointer_bytes, i as nat),
                along <= 0x1_ffff_fffe,
            decreases leaves.len() - i,
        {
            let ir: ValueType = llvm_type(leaves[i], pointer_bytes);
            let place: Option<u32> = if along > 0xffff_ffff {
                None
            } else {
                forward(offset, along as u32)
            };
            match place {
                Some(at) => {
                    let pointer: Value = self.byte_gep(base, at, pointer_bytes);
                    let value: Value = self.define(
                        Op::Load { pointer, align: offset_align(align, at) },
                        ir,
                    );
                    values.push(value);
                },
                None => {
                    proof {
                        lemma_loading_stops(
                            start,
                            base,
                            offset,
                            leaves@,
                            align,
                            pointer_bytes,
                            (i + 1) as nat,
                            leaves@.len(),
                        );
                    }
                    return None;
                },
            }
            along = along + ir.value_byte_width(pointer_bytes) as u64;
            i = i + 1;
        }
        Some(values)
    }

    /// [`Lowering::load_scalars`] with the alignment of the type.
    pub fn load_aligned(&mut self, storage: &PlaceStorage, ty: &ResolvedType, pointer_bytes: u32) -> (
        values: Option<Vec<Value>>)
        requires
            measurable(*ty, pointer_bytes),
        ensures
            match loaded_aligned(old(self)@, storage@, *ty, pointer_bytes) {
                Some(lowered) => {
                    &&& values is Some
                    &&& values->0@ == lowered.values
                    &&& final(self)@ == lowered.state
                },
                None => values is None,
            },
    {
        self.load_scalars(storage, ty, type_alignment(ty), pointer_bytes)
    }
}

/// The address of a storage; what is in values is spilled first.
pub open spec fn addressed(s: LoweringView, storage: Storage, pointer_bytes: u32) -> Option<
    Lowered,
> {
    match storage {
        Storage::Values(values) => {
            let size = values_width(values, pointer_bytes, values.len());
            if size > u32::MAX {
                None
            } else {
                let slot = s.next_slot();
                match all_stored(
                    s.with_slot(slot_of(size, 16, SlotUse::ParamAddr)),
                    slot,
                    0,
                    values,
                    1,
                    pointer_bytes,
                ) {
                    Some(after) => Some(after.having(slot)),
                    None => None,
                }
            }
        },
        Storage::Memory { base, offset } => Some(s.along(base, offset, pointer_bytes)),
    }
}

proof fn lemma_width_grows(values: Seq<Value>, pointer_bytes: u32, n: nat, m: nat)
    requires
        n <= m,
    ensures
        values_width(values, pointer_bytes, n) <= values_width(values, pointer_bytes, m),
    decreases m,
{
    if n < m {
        lemma_width_grows(values, pointer_bytes, n, (m - 1) as nat);
    }
}

fn width_of_values(values: &Vec<Value>, pointer_bytes: u32) -> (width: Option<u32>)
    ensures
        ({
            let size = values_width(values@, pointer_bytes, values@.len());
            if size > u32::MAX {
                width is None
            } else {
                width is Some && width->0 == size
            }
        }),
{
    let mut width: u64 = 0;
    let mut i: usize = 0;
    while i < values.len()
        invariant
            i <= values@.len(),
            values_width(values@, pointer_bytes, i as nat) == width,
            width <= 0xffff_ffff,
        decreases values.len() - i,
    {
        width = width + values[i].ty.value_byte_width(pointer_bytes) as u64;
        if width > 0xffff_ffff {
            proof {
                lemma_width_grows(values@, pointer_bytes, (i + 1) as nat, values@.len());
            }
            return None;
        }
        i = i + 1;
    }
    Some(width as u32)
}

/// A value stored in a slot of its own, as a storage.
pub open spec fn spilled(
    s: LoweringView,
    values: Seq<Value>,
    ty: ResolvedType,
    purpose: SlotUse,
    pointer_bytes: u32,
) -> Option<(LoweringView, Storage)> {
    let slot = s.next_slot();
    match all_stored(
        s.with_slot(slot_of(size_of(ty, pointer_bytes), stack_align(ty), purpose)),
        slot,
        0,
        values,
        align_of(ty) as u32,
        pointer_bytes,
    ) {
        Some(after) => Some((after, Storage::Memory { base: slot, offset: 0 })),
        None => None,
    }
}

impl Lowering {
    /// The address of a storage; parameters are spilled.
    pub fn place_storage_address(&mut self, storage: &PlaceStorage, pointer_bytes: u32) -> (
        address: Option<Value>)
        ensures
            match addressed(old(self)@, storage@, pointer_bytes) {
                Some(lowered) => {
                    &&& address is Some
                    &&& lowered.values == seq![address->0]
                    &&& final(self)@ == lowered.state
                },
                None => address is None,
            },
    {
        match storage {
            PlaceStorage::Values(values) => {
                let size: u32 = match width_of_values(values, pointer_bytes) {
                    Some(size) => size,
                    None => {
                        return None;
                    },
                };
                let slot: Value = self.entry_alloca(size, 16, SlotUse::ParamAddr);
                if self.store_scalars(slot, 0, values, 1, pointer_bytes) {
                    Some(slot)
                } else {
                    None
                }
            },
            PlaceStorage::Memory { base, offset } => {
                let address: Value = self.byte_gep(*base, *offset, pointer_bytes);
                Some(address)
            },
        }
    }

    /// A slot for a value of a type.
    pub fn slot_for(&mut self, ty: &ResolvedType, purpose: SlotUse, pointer_bytes: u32) -> (slot:
        Value)
        requires
            measurable(*ty, pointer_bytes),
        ensures
            final(self)@ == old(self)@.with_slot(
                slot_of(size_of(*ty, pointer_bytes), stack_align(*ty), purpose),
            ),
            slot == old(self)@.next_slot(),
    {
        self.entry_alloca(total_bytes(ty, pointer_bytes), stack_alignment(ty), purpose)
    }

    /// Stores values in a slot of their own.
    pub fn spill(
        &mut self,
        values: &Vec<Value>,
        ty: &ResolvedType,
        purpose: SlotUse,
        pointer_bytes: u32,
    ) -> (storage: Option<PlaceStorage>)
        requires
            measurable(*ty, pointer_bytes),
        ensures
            match spilled(old(self)@, values@, *ty, purpose, pointer_bytes) {
                Some((after, found)) => {
                    &&& storage is Some
                    &&& storage->0@ == found
                    &&& final(self)@ == after
                },
                None => storage is None,
            },
    {
        let slot: Value = self.slot_for(ty, purpose, pointer_bytes);
        if self.store_scalars(slot, 0, values, type_alignment(ty), pointer_bytes) {
            Some(PlaceStorage::Memory { base: slot, offset: 0 })
        } else {
            None
        }
    }
}

} // verus!
