//! What Cranelift is told to emit: one instruction after the other, each
//! naming the values it uses by the position of the instruction that defined
//! them.

pub mod call_laws;
pub mod constant;
pub mod data;
pub mod evaluation;
pub mod expr;
pub mod expression_laws;
pub mod function;
pub mod item;
pub mod laws;
pub mod literal_laws;
pub mod memory_laws;
pub mod operation_laws;
pub mod place;
pub mod place_laws;
pub mod sound_code;
pub mod soundness;

use crate::codegen::constants::{moved, ConstPool, ObjectView};
use crate::codegen::shared::Vtable;
use crate::hir::HirId;
use crate::layout::{
    align_of, floor_log2, larger, leaves_of, leaves_spec, measurable, size_of, stack_align_shift,
    total_bytes, type_alignment, Leaf,
};
use crate::resolved_type::{ResolvedFunctionType, ResolvedType};
use crate::target::Target;
use std::rc::Rc;
use vstd::prelude::*;

verus! {

/// The type of a value.
#[derive(Debug, Clone, Copy, PartialEq, Eq, Structural)]
pub enum IrType {
    I8,
    I16,
    I32,
    I64,
    F32,
    F64,
}

impl IrType {
    /// Bytes of a value of this type.
    pub open spec fn width(self) -> nat {
        match self {
            IrType::I8 => 1,
            IrType::I16 => 2,
            IrType::I32 => 4,
            IrType::I64 => 8,
            IrType::F32 => 4,
            IrType::F64 => 8,
        }
    }

    pub fn bytes(self) -> (bytes: u32)
        ensures
            bytes == self.width(),
            bytes <= 8,
    {
        match self {
            IrType::I8 => 1,
            IrType::I16 => 2,
            IrType::I32 => 4,
            IrType::I64 => 8,
            IrType::F32 => 4,
            IrType::F64 => 8,
        }
    }
}

/// The integer type that holds a pointer.
pub open spec fn pointer_ir(pointer_bytes: u32) -> IrType {
    if pointer_bytes == 8 {
        IrType::I64
    } else if pointer_bytes == 4 {
        IrType::I32
    } else {
        IrType::I16
    }
}

pub fn pointer_type(pointer_bytes: u32) -> (ty: IrType)
    ensures
        ty == pointer_ir(pointer_bytes),
{
    if pointer_bytes == 8 {
        IrType::I64
    } else if pointer_bytes == 4 {
        IrType::I32
    } else {
        IrType::I16
    }
}

/// The type a leaf is held in. Pointers are integers here, so what is a
/// pointer must stay explicit elsewhere.
pub open spec fn leaf_ir(leaf: Leaf, pointer_bytes: u32) -> IrType {
    match leaf {
        Leaf::I8 => IrType::I8,
        Leaf::I16 => IrType::I16,
        Leaf::I32 => IrType::I32,
        Leaf::I64 => IrType::I64,
        Leaf::F32 => IrType::F32,
        Leaf::F64 => IrType::F64,
        Leaf::Ptr => pointer_ir(pointer_bytes),
        Leaf::FnPtr => pointer_ir(pointer_bytes),
        Leaf::Size => pointer_ir(pointer_bytes),
    }
}

pub fn cranelift_type(leaf: Leaf, pointer_bytes: u32) -> (ty: IrType)
    ensures
        ty == leaf_ir(leaf, pointer_bytes),
{
    match leaf {
        Leaf::I8 => IrType::I8,
        Leaf::I16 => IrType::I16,
        Leaf::I32 => IrType::I32,
        Leaf::I64 => IrType::I64,
        Leaf::F32 => IrType::F32,
        Leaf::F64 => IrType::F64,
        Leaf::Ptr => pointer_type(pointer_bytes),
        Leaf::FnPtr => pointer_type(pointer_bytes),
        Leaf::Size => pointer_type(pointer_bytes),
    }
}

/// How integers are compared.
#[derive(Debug, Clone, Copy, PartialEq, Eq, Structural)]
pub enum IntCC {
    Equal,
    NotEqual,
    SignedLessThan,
    SignedLessThanOrEqual,
    SignedGreaterThan,
    SignedGreaterThanOrEqual,
    UnsignedLessThan,
    UnsignedLessThanOrEqual,
    UnsignedGreaterThan,
    UnsignedGreaterThanOrEqual,
}

/// How floats are compared.
#[derive(Debug, Clone, Copy, PartialEq, Eq, Structural)]
pub enum FloatCC {
    Equal,
    NotEqual,
    LessThan,
    LessThanOrEqual,
    GreaterThan,
    GreaterThanOrEqual,
}

/// An operation on two values of one type.
#[derive(Debug, Clone, Copy, PartialEq, Eq, Structural)]
pub enum Arith {
    Iadd,
    Isub,
    Imul,
    Sdiv,
    Udiv,
    Srem,
    Urem,
    Band,
    Bor,
    Bxor,
    Ishl,
    Sshr,
    Ushr,
    Fadd,
    Fsub,
    Fmul,
    Fdiv,
}

/// An operation that turns a value into one of another type.
#[derive(Debug, Clone, Copy, PartialEq, Eq, Structural)]
pub enum Convert {
    Sextend,
    Uextend,
    Ireduce,
    FcvtFromSint,
    FcvtFromUint,
    FcvtToSintSat,
    FcvtToUintSat,
    Fpromote,
    Fdemote,
}

/// An instruction.
#[derive(Debug)]
#[allow(inconsistent_fields)]
pub enum Op {
    /// A parameter of the function, by position.
    Param(usize),
    Iconst(i64),
    F32Const(u32),
    F64Const(u64),
    StackAddr { slot: usize, offset: u32 },
    StackLoad { slot: usize, offset: u32 },
    StackStore { value: usize, slot: usize, offset: u32 },
    Load { base: usize, offset: u32 },
    Store { value: usize, base: usize, offset: u32 },
    /// The address of a variable.
    GlobalAddr(HirId),
    /// The address of constant data, by its position in the pool.
    DataAddr(usize),
    /// The address of a method table, by its position.
    VtableAddr(usize),
    FuncAddr(HirId),
    Binary { op: Arith, left: usize, right: usize },
    Icmp { cc: IntCC, left: usize, right: usize },
    Fcmp { cc: FloatCC, left: usize, right: usize },
    Ineg(usize),
    Fneg(usize),
    Bnot(usize),
    IaddImm { value: usize, imm: i64 },
    Convert { op: Convert, value: usize },
    /// Hands a value to the call or return that follows.
    Pass(usize),
    /// Calls an address with the `count` values passed last. Arguments beyond
    /// the parameters of a variadic function have the types they are passed
    /// with.
    CallIndirect { callee: usize, fn_type: Rc<ResolvedFunctionType>, count: usize },
    /// One of the results of a call.
    CallResult { call: usize, index: usize },
    /// What follows belongs to this block.
    Enter(usize),
    Jump(usize),
    Brif { condition: usize, then_block: usize, else_block: usize },
    /// Returns the `count` values passed last.
    Return { count: usize },
    Trap,
}

/// An instruction and the type of the value it defines, if it defines one.
#[derive(Debug)]
pub struct Step {
    pub op: Op,
    pub ty: Option<IrType>,
}

/// A piece of the stack frame: its size, and its alignment as a power of two.
#[derive(Debug, Clone, Copy, PartialEq, Eq, Structural)]
pub struct SlotData {
    pub size: u32,
    pub align_shift: u8,
}

/// A function being lowered, with the data and tables of the compilation.
#[derive(Debug)]
pub struct Lowering {
    pub steps: Vec<Step>,
    pub slots: Vec<SlotData>,
    pub pool: ConstPool,
    pub vtables: Vec<Vtable>,
}

/// What a [`Lowering`] holds.
pub struct LoweringView {
    pub steps: Seq<Step>,
    pub slots: Seq<SlotData>,
    pub pool: Seq<ObjectView>,
    pub vtables: Seq<Vtable>,
}

impl View for Lowering {
    type V = LoweringView;

    open spec fn view(&self) -> LoweringView {
        LoweringView {
            steps: self.steps@,
            slots: self.slots@,
            pool: self.pool@,
            vtables: self.vtables@,
        }
    }
}

/// A function being lowered, and the values an expression has.
pub struct Lowered {
    pub state: LoweringView,
    pub values: Seq<usize>,
}

impl LoweringView {
    /// The number of the next instruction.
    pub open spec fn next(self) -> usize {
        self.steps.len() as usize
    }

    /// The number of the next stack slot.
    pub open spec fn next_slot(self) -> usize {
        self.slots.len() as usize
    }

    /// The type of a value.
    pub open spec fn type_of(self, value: usize) -> Option<IrType> {
        if value < self.steps.len() {
            self.steps[value as int].ty
        } else {
            None
        }
    }

    pub open spec fn push(self, op: Op, ty: Option<IrType>) -> LoweringView {
        LoweringView { steps: self.steps.push(Step { op, ty }), ..self }
    }

    pub open spec fn with_slot(self, slot: SlotData) -> LoweringView {
        LoweringView { slots: self.slots.push(slot), ..self }
    }

    pub open spec fn with_pool(self, pool: Seq<ObjectView>) -> LoweringView {
        LoweringView { pool, ..self }
    }

    /// An instruction that defines a value.
    pub open spec fn define(self, op: Op, ty: IrType) -> Lowered {
        Lowered { state: self.push(op, Some(ty)), values: seq![self.next()] }
    }

    /// An instruction that defines a value of the type another value has.
    pub open spec fn define_like(self, op: Op, value: usize) -> Option<Lowered> {
        match self.type_of(value) {
            Some(ty) => Some(self.define(op, ty)),
            None => None,
        }
    }
}

/// The stack slot that holds a value of a type.
pub open spec fn slot_for(ty: ResolvedType, pointer_bytes: u32) -> SlotData {
    SlotData {
        size: size_of(ty, pointer_bytes) as u32,
        align_shift: larger(floor_log2(align_of(ty)), 4) as u8,
    }
}

pub fn stack_slot_for(ty: &ResolvedType, pointer_bytes: u32) -> (slot: SlotData)
    requires
        measurable(*ty, pointer_bytes),
    ensures
        slot == slot_for(*ty, pointer_bytes),
{
    let shift: u8 = stack_align_shift(type_alignment(ty));
    SlotData { size: total_bytes(ty, pointer_bytes), align_shift: shift }
}

impl Lowering {
    pub fn define(&mut self, op: Op, ty: IrType) -> (value: usize)
        ensures
            final(self)@ == old(self)@.push(op, Some(ty)),
            value == old(self)@.next(),
            value == old(self)@.steps.len(),
    {
        let value: usize = self.steps.len();
        self.steps.push(Step { op, ty: Some(ty) });
        value
    }

    pub fn perform(&mut self, op: Op)
        ensures
            final(self)@ == old(self)@.push(op, None),
    {
        self.steps.push(Step { op, ty: None });
    }

    pub fn create_slot(&mut self, slot: SlotData) -> (index: usize)
        ensures
            final(self)@ == old(self)@.with_slot(slot),
            index == old(self)@.next_slot(),
    {
        let index: usize = self.slots.len();
        self.slots.push(slot);
        index
    }

    pub fn value_type(&self, value: usize) -> (ty: Option<IrType>)
        ensures
            ty == self@.type_of(value),
    {
        if value < self.steps.len() {
            self.steps[value].ty
        } else {
            None
        }
    }

    pub fn define_like(&mut self, op: Op, like: usize) -> (value: Option<usize>)
        ensures
            match old(self)@.define_like(op, like) {
                Some(lowered) => {
                    &&& value is Some
                    &&& lowered.values == seq![value->0]
                    &&& value->0 == old(self)@.next()
                    &&& final(self)@ == lowered.state
                },
                None => value is None,
            },
    {
        match self.value_type(like) {
            Some(ty) => Some(self.define(op, ty)),
            None => None,
        }
    }
}

/// What surrounds the function being lowered: the target, where its parameters
/// and locals are, and the names that have been declared.
#[derive(Debug)]
pub struct Frame {
    pub target: Target,
    pub arg_count: usize,
    /// The values of each parameter, by local.
    pub local_args: Vec<Vec<usize>>,
    /// The slot that holds the other locals.
    pub frame_slot: usize,
    /// Where each of the other locals lies in that slot, by local.
    pub local_offsets: Vec<u32>,
    pub functions: Vec<HirId>,
    pub globals: Vec<HirId>,
}

/// What a [`Frame`] says.
pub struct FrameView {
    pub target: Target,
    pub arg_count: usize,
    pub local_args: Seq<Seq<usize>>,
    pub frame_slot: usize,
    pub local_offsets: Seq<u32>,
    pub functions: Seq<HirId>,
    pub globals: Seq<HirId>,
}

impl View for Frame {
    type V = FrameView;

    open spec fn view(&self) -> FrameView {
        FrameView {
            target: self.target,
            arg_count: self.arg_count,
            local_args: self.local_args@.map_values(|values: Vec<usize>| values@),
            frame_slot: self.frame_slot,
            local_offsets: self.local_offsets@,
            functions: self.functions@,
            globals: self.globals@,
        }
    }
}

impl Frame {
    /// Bytes of a pointer.
    pub open spec fn pb(&self) -> u32 {
        self.target.pointer_width()
    }
}

impl FrameView {
    /// Bytes of a pointer.
    pub open spec fn pb(self) -> u32 {
        self.target.pointer_width()
    }
}

/// Where a place's value is: in values, in a stack slot, or in memory.
pub enum Storage {
    Values(Seq<usize>),
    Slot { slot: usize, offset: u32 },
    Address { base: usize, offset: u32 },
}

#[derive(Debug)]
#[allow(inconsistent_fields)]
pub enum PlaceStorage {
    Values(Vec<usize>),
    Slot { slot: usize, offset: u32 },
    Address { base: usize, offset: u32 },
}

impl View for PlaceStorage {
    type V = Storage;

    open spec fn view(&self) -> Storage {
        match *self {
            PlaceStorage::Values(values) => Storage::Values(values@),
            PlaceStorage::Slot { slot, offset } => Storage::Slot { slot, offset },
            PlaceStorage::Address { base, offset } => Storage::Address { base, offset },
        }
    }
}

/// The bytes the first `n` values take, where each has a type.
pub open spec fn values_width(s: LoweringView, values: Seq<usize>, n: nat) -> Option<nat>
    decreases n,
{
    if n == 0 {
        Some(0)
    } else {
        match values_width(s, values, (n - 1) as nat) {
            Some(before) => match s.type_of(values[n - 1]) {
                Some(ty) => Some(before + ty.width()),
                None => None,
            },
            None => None,
        }
    }
}

/// The instruction that stores a value `at` bytes into a storage.
pub open spec fn store_op(storage: Storage, value: usize, at: nat) -> Option<Op> {
    match storage {
        Storage::Values(_) => None,
        Storage::Slot { slot, offset } => match moved(offset, at) {
            Some(offset) => Some(Op::StackStore { value, slot, offset }),
            None => None,
        },
        Storage::Address { base, offset } => match moved(offset, at) {
            Some(offset) => Some(Op::Store { value, base, offset }),
            None => None,
        },
    }
}

/// The first `n` values stored one behind the other. Parameters cannot be
/// stored into.
pub open spec fn stored(s: LoweringView, storage: Storage, values: Seq<usize>, n: nat) -> Option<
    LoweringView,
>
    decreases n,
{
    if n == 0 {
        Some(s)
    } else {
        match stored(s, storage, values, (n - 1) as nat) {
            Some(before) => match (
                values_width(s, values, n),
                values_width(s, values, (n - 1) as nat),
            ) {
                (Some(_), Some(at)) => match store_op(storage, values[n - 1], at) {
                    Some(op) => Some(before.push(op, None)),
                    None => None,
                },
                _ => None,
            },
            None => None,
        }
    }
}

proof fn lemma_stored_grows(s: LoweringView, storage: Storage, values: Seq<usize>, n: nat)
    requires
        stored(s, storage, values, n) is Some,
    ensures
        stored(s, storage, values, n)->0.steps.len() == s.steps.len() + n,
        forall|v: int|
            0 <= v < s.steps.len() ==> stored(s, storage, values, n)->0.steps[v] == s.steps[v],
        stored(s, storage, values, n)->0.slots == s.slots,
    decreases n,
{
    if n > 0 {
        lemma_stored_grows(s, storage, values, (n - 1) as nat);
    }
}

proof fn lemma_stored_fails(s: LoweringView, storage: Storage, values: Seq<usize>, n: nat, m: nat)
    requires
        n <= m,
        stored(s, storage, values, n) is None,
    ensures
        stored(s, storage, values, m) is None,
    decreases m,
{
    if n < m {
        lemma_stored_fails(s, storage, values, n, (m - 1) as nat);
    }
}

impl PlaceStorage {
    fn store_op_at(&self, value: usize, at: u64) -> (op: Option<Op>)
        ensures
            op == store_op(self@, value, at as nat),
    {
        if at > 0xffff_ffff {
            return None;
        }
        let by: u32 = at as u32;
        match self {
            PlaceStorage::Values(_) => None,
            PlaceStorage::Slot { slot, offset } => match crate::codegen::constants::forward(
                *offset,
                by,
            ) {
                Some(offset) => Some(Op::StackStore { value, slot: *slot, offset }),
                None => None,
            },
            PlaceStorage::Address { base, offset } => match crate::codegen::constants::forward(
                *offset,
                by,
            ) {
                Some(offset) => Some(Op::Store { value, base: *base, offset }),
                None => None,
            },
        }
    }

    fn load_op_at(&self, at: u64) -> (op: Option<Op>)
        ensures
            op == load_op(self@, at as nat),
    {
        if at > 0xffff_ffff {
            return None;
        }
        let by: u32 = at as u32;
        match self {
            PlaceStorage::Values(_) => None,
            PlaceStorage::Slot { slot, offset } => match crate::codegen::constants::forward(
                *offset,
                by,
            ) {
                Some(offset) => Some(Op::StackLoad { slot: *slot, offset }),
                None => None,
            },
            PlaceStorage::Address { base, offset } => match crate::codegen::constants::forward(
                *offset,
                by,
            ) {
                Some(offset) => Some(Op::Load { base: *base, offset }),
                None => None,
            },
        }
    }
}

impl Lowering {
    /// Stores values one behind the other.
    pub fn store_scalars(&mut self, storage: &PlaceStorage, values: &Vec<usize>) -> (done: bool)
        ensures
            match stored(old(self)@, storage@, values@, values@.len()) {
                Some(after) => done && final(self)@ == after,
                None => !done,
            },
    {
        let ghost start = self@;
        let ghost at = storage@;
        let mut along: u64 = 0;
        let mut i: usize = 0;
        while i < values.len()
            invariant
                i <= values@.len(),
                start == old(self)@,
                at == storage@,
                stored(start, at, values@, i as nat) == Some(self@),
                values_width(start, values@, i as nat) == Some(along as nat),
                along <= 0x1_0000_0007,
            decreases values.len() - i,
        {
            let value: usize = values[i];
            proof {
                lemma_stored_grows(start, at, values@, i as nat);
            }
            let known: Option<IrType> = if value < self.steps.len() - i {
                self.value_type(value)
            } else {
                None
            };
            assert(known == start.type_of(value));
            let op: Option<Op> = match known {
                Some(_) => storage.store_op_at(value, along),
                None => None,
            };
            match (op, known) {
                (Some(op), Some(ty)) => {
                    self.perform(op);
                    along = along + ty.bytes() as u64;
                },
                _ => {
                    proof {
                        lemma_stored_fails(start, at, values@, (i + 1) as nat, values@.len());
                    }
                    return false;
                },
            }
            i = i + 1;
        }
        true
    }
}

/// The instruction that loads a value `at` bytes into a storage.
pub open spec fn load_op(storage: Storage, at: nat) -> Option<Op> {
    match storage {
        Storage::Values(_) => None,
        Storage::Slot { slot, offset } => match moved(offset, at) {
            Some(offset) => Some(Op::StackLoad { slot, offset }),
            None => None,
        },
        Storage::Address { base, offset } => match moved(offset, at) {
            Some(offset) => Some(Op::Load { base, offset }),
            None => None,
        },
    }
}

/// The bytes the first `n` leaves take.
pub open spec fn leaves_width(leaves: Seq<Leaf>, pointer_bytes: u32, n: nat) -> nat
    decreases n,
{
    if n == 0 {
        0
    } else {
        leaves_width(leaves, pointer_bytes, (n - 1) as nat) + leaf_ir(
            leaves[n - 1],
            pointer_bytes,
        ).width()
    }
}

/// The first `n` leaves of a type loaded from memory, one after the other.
pub open spec fn leaves_loaded(
    s: LoweringView,
    storage: Storage,
    leaves: Seq<Leaf>,
    pointer_bytes: u32,
    n: nat,
) -> Option<Lowered>
    decreases n,
{
    if n == 0 {
        Some(Lowered { state: s, values: Seq::empty() })
    } else {
        match leaves_loaded(s, storage, leaves, pointer_bytes, (n - 1) as nat) {
            Some(before) => match load_op(
                storage,
                leaves_width(leaves, pointer_bytes, (n - 1) as nat),
            ) {
                Some(op) => Some(
                    Lowered {
                        state: before.state.push(
                            op,
                            Some(leaf_ir(leaves[n - 1], pointer_bytes)),
                        ),
                        values: before.values.push(before.state.next()),
                    },
                ),
                None => None,
            },
            None => None,
        }
    }
}

/// The values of what a storage holds: those it is, or the leaves loaded from
/// it.
pub open spec fn loaded(
    s: LoweringView,
    storage: Storage,
    ty: ResolvedType,
    pointer_bytes: u32,
) -> Option<Lowered> {
    match storage {
        Storage::Values(values) => Some(Lowered { state: s, values }),
        _ => leaves_loaded(
            s,
            storage,
            leaves_spec(ty, pointer_bytes),
            pointer_bytes,
            leaves_spec(ty, pointer_bytes).len(),
        ),
    }
}

proof fn lemma_loading_fails(
    s: LoweringView,
    storage: Storage,
    leaves: Seq<Leaf>,
    pointer_bytes: u32,
    n: nat,
    m: nat,
)
    requires
        n <= m,
        leaves_loaded(s, storage, leaves, pointer_bytes, n) is None,
    ensures
        leaves_loaded(s, storage, leaves, pointer_bytes, m) is None,
    decreases m,
{
    if n < m {
        lemma_loading_fails(s, storage, leaves, pointer_bytes, n, (m - 1) as nat);
    }
}

/// A copy of value numbers.
pub fn copy_values(values: &Vec<usize>) -> (copy: Vec<usize>)
    ensures
        copy@ == values@,
{
    let mut copy: Vec<usize> = Vec::new();
    let mut i: usize = 0;
    while i < values.len()
        invariant
            i <= values@.len(),
            copy@ =~= values@.take(i as int),
        decreases values.len() - i,
    {
        copy.push(values[i]);
        i = i + 1;
    }
    assert(copy@ =~= values@);
    copy
}

impl Lowering {
    /// Loads what a storage holds.
    pub fn load_scalars(
        &mut self,
        storage: &PlaceStorage,
        ty: &ResolvedType,
        pointer_bytes: u32,
    ) -> (values: Option<Vec<usize>>)
        requires
            measurable(*ty, pointer_bytes),
        ensures
            match loaded(old(self)@, storage@, *ty, pointer_bytes) {
                Some(lowered) => {
                    &&& values is Some
                    &&& values->0@ == lowered.values
                    &&& final(self)@ == lowered.state
                },
                None => values is None,
            },
    {
        if let PlaceStorage::Values(values) = storage {
            return Some(copy_values(values));
        }
        let ghost start = self@;
        let leaves: Vec<Leaf> = leaves_of(ty, pointer_bytes);
        let mut values: Vec<usize> = Vec::new();
        let mut along: u64 = 0;
        let mut i: usize = 0;
        assert(values@ =~= Seq::empty());
        while i < leaves.len()
            invariant
                i <= leaves@.len(),
                start == old(self)@,
                leaves@ == leaves_spec(*ty, pointer_bytes),
                !(storage@ is Values),
                leaves_loaded(start, storage@, leaves@, pointer_bytes, i as nat) == Some(
                    Lowered { state: self@, values: values@ },
                ),
                along == leaves_width(leaves@, pointer_bytes, i as nat),
                along <= 0x1_0000_0007,
            decreases leaves.len() - i,
        {
            let ir: IrType = cranelift_type(leaves[i], pointer_bytes);
            match storage.load_op_at(along) {
                Some(op) => {
                    let value: usize = self.define(op, ir);
                    values.push(value);
                },
                None => {
                    proof {
                        lemma_loading_fails(
                            start,
                            storage@,
                            leaves@,
                            pointer_bytes,
                            (i + 1) as nat,
                            leaves@.len(),
                        );
                    }
                    return None;
                },
            }
            along = along + ir.bytes() as u64;
            i = i + 1;
        }
        Some(values)
    }
}

/// The address of a storage; what is in values is spilled first.
pub open spec fn addressed(s: LoweringView, storage: Storage, pointer_bytes: u32) -> Option<
    Lowered,
> {
    match storage {
        Storage::Values(values) => match values_width(s, values, values.len()) {
            Some(size) => if size > u32::MAX {
                None
            } else {
                let slot = s.next_slot();
                match stored(
                    s.with_slot(SlotData { size: size as u32, align_shift: 4 }),
                    Storage::Slot { slot, offset: 0 },
                    values,
                    values.len(),
                ) {
                    Some(after) => Some(
                        after.define(Op::StackAddr { slot, offset: 0 }, pointer_ir(pointer_bytes)),
                    ),
                    None => None,
                }
            },
            None => None,
        },
        Storage::Slot { slot, offset } => Some(
            s.define(Op::StackAddr { slot, offset }, pointer_ir(pointer_bytes)),
        ),
        Storage::Address { base, offset } => if offset == 0 {
            Some(Lowered { state: s, values: seq![base] })
        } else {
            let moved_by = s.push(Op::Iconst(offset as i64), Some(pointer_ir(pointer_bytes)));
            moved_by.define_like(
                Op::Binary { op: Arith::Iadd, left: base, right: s.next() },
                base,
            )
        },
    }
}

impl Lowering {
    fn width_of_values(&self, values: &Vec<usize>) -> (width: Option<u32>)
        ensures
            match values_width(self@, values@, values@.len()) {
                Some(size) => if size > u32::MAX {
                    width is None
                } else {
                    width is Some && width->0 == size
                },
                None => width is None,
            },
    {
        let mut width: u64 = 0;
        let mut i: usize = 0;
        while i < values.len()
            invariant
                i <= values@.len(),
                values_width(self@, values@, i as nat) == Some(width as nat),
                width <= 0xffff_ffff,
            decreases values.len() - i,
        {
            match self.value_type(values[i]) {
                Some(ty) => {
                    width = width + ty.bytes() as u64;
                },
                None => {
                    proof {
                        lemma_width_fails(self@, values@, (i + 1) as nat, values@.len());
                    }
                    return None;
                },
            }
            if width > 0xffff_ffff {
                proof {
                    if values_width(self@, values@, values@.len()) is Some {
                        lemma_width_grows(self@, values@, (i + 1) as nat, values@.len());
                    }
                }
                return None;
            }
            i = i + 1;
        }
        Some(width as u32)
    }

    /// The address of a storage; parameters are spilled.
    pub fn place_storage_address(&mut self, storage: &PlaceStorage, pointer_bytes: u32) -> (
        address: Option<usize>)
        ensures
            match addressed(old(self)@, storage@, pointer_bytes) {
                Some(lowered) => {
                    &&& address is Some
                    &&& lowered.values == seq![address->0]
                    &&& final(self)@ == lowered.state
                },
                None => address is None,
            },
    {
        match storage {
            PlaceStorage::Values(values) => {
                let size: u32 = match self.width_of_values(values) {
                    Some(size) => size,
                    None => {
                        return None;
                    },
                };
                let slot: usize = self.create_slot(SlotData { size, align_shift: 4 });
                let spilled = PlaceStorage::Slot { slot, offset: 0 };
                if !self.store_scalars(&spilled, values) {
                    return None;
                }
                let address: usize = self.define(
                    Op::StackAddr { slot, offset: 0 },
                    pointer_type(pointer_bytes),
                );
                Some(address)
            },
            PlaceStorage::Slot { slot, offset } => {
                let address: usize = self.define(
                    Op::StackAddr { slot: *slot, offset: *offset },
                    pointer_type(pointer_bytes),
                );
                Some(address)
            },
            PlaceStorage::Address { base, offset } => if *offset == 0 {
                Some(*base)
            } else {
                let by: usize = self.define(
                    Op::Iconst(*offset as i64),
                    pointer_type(pointer_bytes),
                );
                self.define_like(Op::Binary { op: Arith::Iadd, left: *base, right: by }, *base)
            },
        }
    }
}

proof fn lemma_width_fails(s: LoweringView, values: Seq<usize>, n: nat, m: nat)
    requires
        n <= m,
        values_width(s, values, n) is None,
    ensures
        values_width(s, values, m) is None,
    decreases m,
{
    if n < m {
        lemma_width_fails(s, values, n, (m - 1) as nat);
    }
}

proof fn lemma_width_grows(s: LoweringView, values: Seq<usize>, n: nat, m: nat)
    requires
        n <= m,
        values_width(s, values, n) is Some,
        values_width(s, values, m) is Some,
    ensures
        values_width(s, values, n)->0 <= values_width(s, values, m)->0,
    decreases m,
{
    if n < m {
        lemma_width_grows(s, values, n, (m - 1) as nat);
    }
}

/// A value stored in a slot of its own, as a storage.
pub open spec fn spilled(
    s: LoweringView,
    values: Seq<usize>,
    ty: ResolvedType,
    pointer_bytes: u32,
) -> Option<(LoweringView, Storage)> {
    let storage = Storage::Slot { slot: s.next_slot(), offset: 0 };
    match stored(s.with_slot(slot_for(ty, pointer_bytes)), storage, values, values.len()) {
        Some(after) => Some((after, storage)),
        None => None,
    }
}

impl Lowering {
    /// Stores values in a slot of their own.
    pub fn spill(&mut self, values: &Vec<usize>, ty: &ResolvedType, pointer_bytes: u32) -> (storage:
        Option<PlaceStorage>)
        requires
            measurable(*ty, pointer_bytes),
        ensures
            match spilled(old(self)@, values@, *ty, pointer_bytes) {
                Some((after, found)) => {
                    &&& storage is Some
                    &&& storage->0@ == found
                    &&& final(self)@ == after
                },
                None => storage is None,
            },
    {
        let slot: usize = self.create_slot(stack_slot_for(ty, pointer_bytes));
        let storage = PlaceStorage::Slot { slot, offset: 0 };
        if self.store_scalars(&storage, values) {
            Some(storage)
        } else {
            None
        }
    }
}

} // verus!
