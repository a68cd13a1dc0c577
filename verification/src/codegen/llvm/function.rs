//! Functions: their types, their frames, and their blocks.

use crate::codegen::abi::{
    fn_measurable, needs_sret, param_leaves, returned, returns_indirectly, AbiReturn, AbiSignature,
    ReturnView,
};
use crate::codegen::constants::{ConstPool, ObjectView};
use crate::codegen::fits::{node_fits, operands_fit};
use crate::codegen::frame::{
    args_of, args_width, block_fits, body_fits, copy_ids, frame_offsets, frame_types,
    offsets_of_frame, run_views, strictest, types_of_frame, values_of_args,
};
use crate::codegen::llvm::{
    all_stored, leaf_type, llvm_type, pointer_to, pointer_value, power_of_two, slot_of, Frame,
    FrameView, Lowered, Lowering, LoweringView, Op, Operand, SlotData, SlotUse, Value, ValueType,
};
use crate::codegen::llvm::expr::{code_lowered, expr_lowered};
use crate::codegen::llvm::scalar::{as_condition, first_of, first_value, passed};
use crate::codegen::mir::{
    MirBlock, MirBody, MirExprNode, MirInlineAsm, MirTerminator,
};
use crate::codegen::shared::Vtable;
use crate::hir::HirId;
use crate::layout::{
    align_of, floor_log2, larger, locals_layout, measurable, plan_end, size_of, stack_align_shift,
    total_bytes, type_alignment, type_parts, types_align, types_measurable, FieldLayout, Leaf,
};
use crate::resolved_type::{ResolvedFunctionType, ResolvedType};
use crate::target::Target;
use vstd::arithmetic::power2::pow2;
use vstd::prelude::*;

verus! {

/// What a function hands back.
#[derive(Debug)]
pub enum ResultType {
    Void,
    Single(ValueType),
    Aggregate(Vec<ValueType>),
}

/// What a [`ResultType`] says.
pub enum ResultView {
    Void,
    Single(ValueType),
    Aggregate(Seq<ValueType>),
}

impl View for ResultType {
    type V = ResultView;

    open spec fn view(&self) -> ResultView {
        match *self {
            ResultType::Void => ResultView::Void,
            ResultType::Single(ty) => ResultView::Single(ty),
            ResultType::Aggregate(types) => ResultView::Aggregate(types@),
        }
    }
}

/// The type of a function.
#[derive(Debug)]
pub struct FunctionType {
    pub params: Vec<ValueType>,
    pub result: ResultType,
    pub variadic: bool,
}

/// The types of leaves.
pub open spec fn leaf_types(leaves: Seq<Leaf>, pointer_bytes: u32) -> Seq<ValueType> {
    leaves.map_values(|leaf: Leaf| leaf_type(leaf, pointer_bytes))
}

/// What a function takes: the address for an indirect result, then the leaves
/// of each declared parameter.
pub open spec fn params_of(fn_type: ResolvedFunctionType, pointer_bytes: u32) -> Seq<ValueType> {
    let declared = leaf_types(param_leaves(fn_type.params@, pointer_bytes), pointer_bytes);
    if returns_indirectly(*fn_type.return_type, pointer_bytes) {
        seq![ValueType::Ptr] + declared
    } else {
        declared
    }
}

/// What a function hands back: one leaf as it is, any other number of leaves
/// as one aggregate.
pub open spec fn result_of(fn_type: ResolvedFunctionType, pointer_bytes: u32) -> ResultView {
    match returned(*fn_type.return_type, pointer_bytes) {
        ReturnView::Direct(leaves) => if leaves.len() == 1 {
            ResultView::Single(leaf_type(leaves[0], pointer_bytes))
        } else {
            ResultView::Aggregate(leaf_types(leaves, pointer_bytes))
        },
        _ => ResultView::Void,
    }
}

fn types_of_leaves(leaves: &Vec<Leaf>, pointer_bytes: u32) -> (types: Vec<ValueType>)
    ensures
        types@ == leaf_types(leaves@, pointer_bytes),
{
    let mut types: Vec<ValueType> = Vec::new();
    let mut i: usize = 0;
    while i < leaves.len()
        invariant
            i <= leaves@.len(),
            types@ =~= leaf_types(leaves@, pointer_bytes).take(i as int),
        decreases leaves.len() - i,
    {
        types.push(llvm_type(leaves[i], pointer_bytes));
        i = i + 1;
    }
    assert(types@ =~= leaf_types(leaves@, pointer_bytes));
    types
}

/// The type of a function.
pub fn llvm_function_type(target: Target, fn_type: &ResolvedFunctionType) -> (ty: FunctionType)
    requires
        fn_measurable(*fn_type, target.pointer_width()),
    ensures
        ty.params@ == params_of(*fn_type, target.pointer_width()),
        ty.result@ == result_of(*fn_type, target.pointer_width()),
        ty.variadic == fn_type.is_variadic,
{
    let pb: u32 = target.pointer_bytes();
    let abi: AbiSignature = AbiSignature::build(target, fn_type);
    let mut params: Vec<ValueType> = Vec::new();
    let result: ResultType = match &abi.ret {
        AbiReturn::Void => ResultType::Void,
        AbiReturn::Indirect => {
            params.push(ValueType::Ptr);
            ResultType::Void
        },
        AbiReturn::Direct(leaves) => if leaves.len() == 1 {
            ResultType::Single(llvm_type(leaves[0], pb))
        } else {
            ResultType::Aggregate(types_of_leaves(leaves, pb))
        },
    };
    let mut declared: Vec<ValueType> = types_of_leaves(&abi.params, pb);
    params.append(&mut declared);
    assert(params@ =~= params_of(*fn_type, pb));
    FunctionType { params, result, variadic: fn_type.is_variadic }
}

/// How a block ends. A result that comes back indirectly is stored where
/// `sret` says.
pub open spec fn terminated(
    frame: FrameView,
    terminator: MirTerminator,
    block_count: nat,
    sret: Option<Value>,
    ret: ResolvedType,
    s: LoweringView,
) -> Option<LoweringView> {
    match terminator {
        MirTerminator::Goto(target) => if target.0 < block_count {
            Some(s.push(Op::Branch(target.0 as usize), None))
        } else {
            None
        },
        MirTerminator::Branch { condition, then_block, else_block } => match first_of(
            expr_lowered(frame, condition, s),
        ) {
            Some(found) => match as_condition(found.state, found.values[0]) {
                Some(flag) => if then_block.0 < block_count && else_block.0 < block_count {
                    Some(
                        flag.state.push(
                            Op::ConditionalBranch {
                                condition: flag.values[0],
                                then_block: then_block.0 as usize,
                                else_block: else_block.0 as usize,
                            },
                            None,
                        ),
                    )
                } else {
                    None
                },
                None => None,
            },
            None => None,
        },
        MirTerminator::Return(value) => {
            let lowered = match value {
                Some(expr) => expr_lowered(frame, expr, s),
                None => Some(Lowered { state: s, values: Seq::empty() }),
            };
            match (lowered, sret) {
                (Some(found), Some(base)) => match all_stored(
                    found.state,
                    base,
                    0,
                    found.values,
                    align_of(ret) as u32,
                    frame.pb(),
                ) {
                    Some(after) => Some(after.push(Op::Return { count: 0 }, None)),
                    None => None,
                },
                (Some(found), None) => Some(
                    passed(found.state, found.values, found.values.len()).push(
                        Op::Return { count: found.values.len() as usize },
                        None,
                    ),
                ),
                (None, _) => None,
            }
        },
        MirTerminator::Unreachable => Some(s.push(Op::Unreachable, None)),
    }
}

/// The first `n` statements, one after the other.
pub open spec fn statements_lowered(
    frame: FrameView,
    statements: Seq<MirExprNode>,
    s: LoweringView,
    n: nat,
) -> Option<LoweringView>
    decreases n,
{
    if n == 0 {
        Some(s)
    } else {
        match statements_lowered(frame, statements, s, (n - 1) as nat) {
            Some(before) => match expr_lowered(frame, statements[n - 1], before) {
                Some(found) => Some(found.state),
                None => None,
            },
            None => None,
        }
    }
}

/// A block: its statements, and how it ends.
pub open spec fn block_lowered(
    frame: FrameView,
    block: MirBlock,
    index: nat,
    block_count: nat,
    sret: Option<Value>,
    ret: ResolvedType,
    s: LoweringView,
) -> Option<LoweringView> {
    match statements_lowered(
        frame,
        block.statements@,
        s.push(Op::Enter(index as usize), None),
        block.statements@.len(),
    ) {
        Some(after) => terminated(frame, block.terminator, block_count, sret, ret, after),
        None => None,
    }
}

/// The first `n` blocks, one after the other.
pub open spec fn blocks_lowered(
    frame: FrameView,
    blocks: Seq<MirBlock>,
    sret: Option<Value>,
    ret: ResolvedType,
    s: LoweringView,
    n: nat,
) -> Option<LoweringView>
    decreases n,
{
    if n == 0 {
        Some(s)
    } else {
        match blocks_lowered(frame, blocks, sret, ret, s, (n - 1) as nat) {
            Some(before) => block_lowered(
                frame,
                blocks[n - 1],
                (n - 1) as nat,
                blocks.len(),
                sret,
                ret,
                before,
            ),
            None => None,
        }
    }
}

/// Where a parameter lives: in values, or in memory of its own.
#[derive(Debug, Clone, Copy, PartialEq, Eq, Structural)]
pub enum ParameterHome {
    Ssa,
    Memory,
}

/// The slot that holds the locals that are no parameters.
pub open spec fn locals_slot(body: MirBody, pointer_bytes: u32) -> SlotData {
    let types = frame_types(body);
    slot_of(
        plan_end(type_parts(types, pointer_bytes), 1, pointer_bytes),
        pow2(larger(floor_log2(types_align(types)), 4)) as u32,
        SlotUse::Locals,
    )
}

/// The parameter at a position of a function's type.
pub open spec fn param_at(params: Seq<ValueType>, position: usize) -> Value {
    Value { ty: params[position as int], operand: Operand::Param(position) }
}

/// The parameters at some positions.
pub open spec fn params_at(params: Seq<ValueType>, positions: Seq<usize>) -> Seq<Value> {
    positions.map_values(|position: usize| param_at(params, position))
}

/// The parameters at some positions, by local.
pub open spec fn local_params(params: Seq<ValueType>, runs: Seq<Seq<usize>>) -> Seq<Seq<Value>> {
    runs.map_values(|run: Seq<usize>| params_at(params, run))
}

/// The first `n` parameters that live in memory, stored there.
pub open spec fn homes_filled(
    s: LoweringView,
    body: MirBody,
    homes: Seq<ParameterHome>,
    args: Seq<Seq<Value>>,
    pointer_bytes: u32,
    n: nat,
) -> Option<LoweringView>
    decreases n,
{
    if n == 0 {
        Some(s)
    } else {
        match homes_filled(s, body, homes, args, pointer_bytes, (n - 1) as nat) {
            Some(before) => if homes[n - 1] is Ssa {
                Some(before)
            } else if n - 1 < body.arg_count && n - 1 < args.len() {
                let ty = body.locals@[n - 1].ty;
                let align = align_of(ty) as u32;
                all_stored(
                    before.with_slot(
                        slot_of(size_of(ty, pointer_bytes), align, SlotUse::Param),
                    ),
                    before.next_slot(),
                    0,
                    args[n - 1],
                    align,
                    pointer_bytes,
                )
            } else {
                None
            },
            None => None,
        }
    }
}

/// How many values come before the declared parameters.
pub open spec fn hidden_params(fn_type: ResolvedFunctionType, pointer_bytes: u32) -> nat {
    if returns_indirectly(*fn_type.return_type, pointer_bytes) {
        1
    } else {
        0
    }
}

/// What surrounds the body of a function.
pub open spec fn frame_of(
    target: Target,
    fn_type: ResolvedFunctionType,
    body: MirBody,
    functions: Seq<HirId>,
    globals: Seq<HirId>,
) -> FrameView {
    let pb = target.pointer_width();
    FrameView {
        target,
        arg_count: body.arg_count,
        local_args: local_params(
            params_of(fn_type, pb),
            args_of(
                body,
                hidden_params(fn_type, pb),
                param_leaves(fn_type.params@, pb).len(),
                pb,
            ),
        ),
        frame_slot: pointer_value(Operand::Slot(0)),
        local_offsets: frame_offsets(body, pb),
        functions,
        globals,
    }
}

/// A function: a slot for its locals, its parameters stored where they live in
/// memory, and its blocks. What comes before the first block belongs to it.
pub open spec fn function_lowered(
    target: Target,
    fn_type: ResolvedFunctionType,
    body: MirBody,
    homes: Seq<ParameterHome>,
    functions: Seq<HirId>,
    globals: Seq<HirId>,
    pool: Seq<ObjectView>,
    vtables: Seq<Vtable>,
) -> Option<LoweringView> {
    let pb = target.pointer_width();
    let declared = param_leaves(fn_type.params@, pb).len();
    if body.arg_count > body.locals@.len() || body.blocks@.len() == 0 || declared > args_width(
        body.locals@,
        pb,
        body.arg_count as nat,
    ) {
        None
    } else {
        let frame = frame_of(target, fn_type, body, functions, globals);
        let start = LoweringView {
            steps: Seq::empty(),
            slots: seq![locals_slot(body, pb)],
            statements: Seq::empty(),
            pool,
            vtables,
        };
        let sret = if returns_indirectly(*fn_type.return_type, pb) {
            Some(pointer_value(Operand::Param(0)))
        } else {
            None
        };
        match homes_filled(start, body, homes, frame.local_args, pb, homes.len()) {
            Some(entered) => blocks_lowered(
                frame,
                body.blocks@,
                sret,
                *fn_type.return_type,
                entered,
                body.blocks@.len(),
            ),
            None => None,
        }
    }
}

/// What surrounds a function that is nothing but machine code.
pub open spec fn naked_frame(target: Target, functions: Seq<HirId>, globals: Seq<HirId>) -> FrameView {
    FrameView {
        target,
        arg_count: 0,
        local_args: Seq::empty(),
        frame_slot: pointer_value(Operand::Null),
        local_offsets: Seq::empty(),
        functions,
        globals,
    }
}

/// A function that is nothing but machine code, which never comes back.
pub open spec fn naked_lowered(
    target: Target,
    code: MirInlineAsm,
    functions: Seq<HirId>,
    globals: Seq<HirId>,
    pool: Seq<ObjectView>,
    vtables: Seq<Vtable>,
) -> Option<LoweringView> {
    let start = LoweringView {
        steps: Seq::empty(),
        slots: Seq::empty(),
        statements: Seq::empty(),
        pool,
        vtables,
    };
    match code_lowered(
        naked_frame(target, functions, globals),
        code,
        start.push(Op::Enter(0), None),
    ) {
        Some(after) => Some(after.push(Op::Unreachable, None)),
        None => None,
    }
}

impl Lowering {
    fn emit_terminator(
        &mut self,
        frame: &Frame,
        terminator: &MirTerminator,
        block_count: usize,
        sret: Option<Value>,
        ret: &ResolvedType,
    ) -> (done: bool)
        requires
            match *terminator {
                MirTerminator::Branch { condition, .. } => node_fits(condition, frame.pb()),
                MirTerminator::Return(Some(value)) => node_fits(value, frame.pb()),
                _ => true,
            },
        ensures
            match terminated(frame@, *terminator, block_count as nat, sret, *ret, old(self)@) {
                Some(after) => done && final(self)@ == after,
                None => !done,
            },
    {
        match terminator {
            MirTerminator::Goto(target) => {
                let block: usize = target.0 as usize;
                if block < block_count {
                    self.perform(Op::Branch(block));
                    true
                } else {
                    false
                }
            },
            MirTerminator::Branch { condition, then_block, else_block } => {
                let lowered: Option<Vec<Value>> = self.process_expr(frame, condition);
                let value: Value = match first_value(&lowered) {
                    Some(value) => value,
                    None => {
                        return false;
                    },
                };
                let condition: Value = match self.to_i1(value) {
                    Some(condition) => condition,
                    None => {
                        return false;
                    },
                };
                let then_block: usize = then_block.0 as usize;
                let else_block: usize = else_block.0 as usize;
                if then_block < block_count && else_block < block_count {
                    self.perform(Op::ConditionalBranch { condition, then_block, else_block });
                    true
                } else {
                    false
                }
            },
            MirTerminator::Return(value) => {
                let values: Vec<Value> = match value {
                    Some(expr) => match self.process_expr(frame, expr) {
                        Some(values) => values,
                        None => {
                            return false;
                        },
                    },
                    None => {
                        let values: Vec<Value> = Vec::new();
                        assert(values@ =~= Seq::empty());
                        values
                    },
                };
                match sret {
                    Some(base) => {
                        let align: u32 = type_alignment(ret);
                        let pb: u32 = frame.target.pointer_bytes();
                        if !self.store_scalars(base, 0, &values, align, pb) {
                            return false;
                        }
                        self.perform(Op::Return { count: 0 });
                        true
                    },
                    None => {
                        self.pass_all(&values);
                        self.perform(Op::Return { count: values.len() });
                        true
                    },
                }
            },
            MirTerminator::Unreachable => {
                self.perform(Op::Unreachable);
                true
            },
        }
    }

    fn lower_statements(&mut self, frame: &Frame, statements: &Vec<MirExprNode>) -> (done: bool)
        requires
            forall|i: int|
                0 <= i < statements@.len() ==> node_fits(#[trigger] statements@[i], frame.pb()),
        ensures
            match statements_lowered(frame@, statements@, old(self)@, statements@.len()) {
                Some(after) => done && final(self)@ == after,
                None => !done,
            },
    {
        let ghost before = self@;
        let mut i: usize = 0;
        while i < statements.len()
            invariant
                i <= statements@.len(),
                forall|k: int|
                    0 <= k < statements@.len() ==> node_fits(
                        #[trigger] statements@[k],
                        frame.pb(),
                    ),
                before == old(self)@,
                statements_lowered(frame@, statements@, before, i as nat) == Some(self@),
            decreases statements.len() - i,
        {
            assert(node_fits(statements@[i as int], frame.pb()));
            if self.process_expr(frame, &statements[i]).is_none() {
                proof {
                    lemma_statements_stop(
                        frame@,
                        statements@,
                        before,
                        (i + 1) as nat,
                        statements@.len(),
                    );
                }
                return false;
            }
            i = i + 1;
        }
        true
    }

    fn lower_blocks(
        &mut self,
        frame: &Frame,
        blocks: &Vec<MirBlock>,
        sret: Option<Value>,
        ret: &ResolvedType,
    ) -> (done: bool)
        requires
            forall|i: int|
                0 <= i < blocks@.len() ==> block_fits(#[trigger] blocks@[i], frame.pb()),
        ensures
            match blocks_lowered(frame@, blocks@, sret, *ret, old(self)@, blocks@.len()) {
                Some(after) => done && final(self)@ == after,
                None => !done,
            },
    {
        let ghost before = self@;
        let mut i: usize = 0;
        while i < blocks.len()
            invariant
                i <= blocks@.len(),
                forall|k: int|
                    0 <= k < blocks@.len() ==> block_fits(#[trigger] blocks@[k], frame.pb()),
                before == old(self)@,
                blocks_lowered(frame@, blocks@, sret, *ret, before, i as nat) == Some(self@),
            decreases blocks.len() - i,
        {
            assert(block_fits(blocks@[i as int], frame.pb()));
            let block: &MirBlock = &blocks[i];
            self.perform(Op::Enter(i));
            let done: bool = self.lower_statements(frame, &block.statements)
                && self.emit_terminator(frame, &block.terminator, blocks.len(), sret, ret);
            if !done {
                proof {
                    lemma_blocks_stop(
                        frame@,
                        blocks@,
                        sret,
                        *ret,
                        before,
                        (i + 1) as nat,
                        blocks@.len(),
                    );
                }
                return false;
            }
            i = i + 1;
        }
        true
    }

    fn fill_homes(
        &mut self,
        body: &MirBody,
        homes: &Vec<ParameterHome>,
        args: &Vec<Vec<Value>>,
        pointer_bytes: u32,
    ) -> (done: bool)
        requires
            body.arg_count <= body.locals@.len(),
            forall|i: int|
                0 <= i < body.locals@.len() ==> measurable(
                    #[trigger] body.locals@[i].ty,
                    pointer_bytes,
                ),
        ensures
            match homes_filled(
                old(self)@,
                *body,
                homes@,
                arg_views(args@),
                pointer_bytes,
                homes@.len(),
            ) {
                Some(after) => done && final(self)@ == after,
                None => !done,
            },
    {
        let ghost before = self@;
        let ghost lists = arg_views(args@);
        let mut i: usize = 0;
        while i < homes.len()
            invariant
                i <= homes@.len(),
                body.arg_count <= body.locals@.len(),
                forall|k: int|
                    0 <= k < body.locals@.len() ==> measurable(
                        #[trigger] body.locals@[k].ty,
                        pointer_bytes,
                    ),
                before == old(self)@,
                lists == arg_views(args@),
                homes_filled(before, *body, homes@, lists, pointer_bytes, i as nat) == Some(self@),
            decreases homes.len() - i,
        {
            let done: bool = match homes[i] {
                ParameterHome::Ssa => true,
                ParameterHome::Memory => if i < body.arg_count && i < args.len() {
                    assert(measurable(body.locals@[i as int].ty, pointer_bytes));
                    assert(lists[i as int] == args@[i as int]@);
                    let ty: &ResolvedType = &body.locals[i].ty;
                    let align: u32 = type_alignment(ty);
                    let slot: Value = self.entry_alloca(
                        total_bytes(ty, pointer_bytes),
                        align,
                        SlotUse::Param,
                    );
                    self.store_scalars(slot, 0, &args[i], align, pointer_bytes)
                } else {
                    false
                },
            };
            if !done {
                proof {
                    lemma_filling_stops(
                        before,
                        *body,
                        homes@,
                        lists,
                        pointer_bytes,
                        (i + 1) as nat,
                        homes@.len(),
                    );
                }
                return false;
            }
            i = i + 1;
        }
        true
    }
}

/// The views of value lists.
pub open spec fn arg_views(lists: Seq<Vec<Value>>) -> Seq<Seq<Value>> {
    lists.map_values(|values: Vec<Value>| values@)
}

proof fn lemma_filling_stops(
    s: LoweringView,
    body: MirBody,
    homes: Seq<ParameterHome>,
    args: Seq<Seq<Value>>,
    pointer_bytes: u32,
    n: nat,
    m: nat,
)
    requires
        n <= m,
        homes_filled(s, body, homes, args, pointer_bytes, n) is None,
    ensures
        homes_filled(s, body, homes, args, pointer_bytes, m) is None,
    decreases m,
{
    if n < m {
        lemma_filling_stops(s, body, homes, args, pointer_bytes, n, (m - 1) as nat);
    }
}

proof fn lemma_statements_stop(
    frame: FrameView,
    statements: Seq<MirExprNode>,
    s: LoweringView,
    n: nat,
    m: nat,
)
    requires
        n <= m,
        statements_lowered(frame, statements, s, n) is None,
    ensures
        statements_lowered(frame, statements, s, m) is None,
    decreases m,
{
    if n < m {
        lemma_statements_stop(frame, statements, s, n, (m - 1) as nat);
    }
}

proof fn lemma_blocks_stop(
    frame: FrameView,
    blocks: Seq<MirBlock>,
    sret: Option<Value>,
    ret: ResolvedType,
    s: LoweringView,
    n: nat,
    m: nat,
)
    requires
        n <= m,
        blocks_lowered(frame, blocks, sret, ret, s, n) is None,
    ensures
        blocks_lowered(frame, blocks, sret, ret, s, m) is None,
    decreases m,
{
    if n < m {
        lemma_blocks_stop(frame, blocks, sret, ret, s, n, (m - 1) as nat);
    }
}

fn values_at(params: &Vec<ValueType>, run: &Vec<usize>) -> (values: Vec<Value>)
    requires
        forall|k: int| 0 <= k < run@.len() ==> #[trigger] run@[k] < params@.len(),
    ensures
        values@ == params_at(params@, run@),
{
    let mut values: Vec<Value> = Vec::new();
    let mut i: usize = 0;
    while i < run.len()
        invariant
            i <= run@.len(),
            forall|k: int| 0 <= k < run@.len() ==> #[trigger] run@[k] < params@.len(),
            values@ =~= params_at(params@, run@).take(i as int),
        decreases run.len() - i,
    {
        let position: usize = run[i];
        values.push(Value { ty: params[position], operand: Operand::Param(position) });
        i = i + 1;
    }
    assert(values@ =~= params_at(params@, run@));
    values
}

fn params_by_local(params: &Vec<ValueType>, runs: &Vec<Vec<usize>>) -> (lists: Vec<Vec<Value>>)
    requires
        forall|i: int, k: int|
            0 <= i < runs@.len() && 0 <= k < runs@[i]@.len() ==> #[trigger] runs@[i]@[k]
                < params@.len(),
    ensures
        arg_views(lists@) == local_params(params@, run_views(runs@)),
{
    let ghost goal = local_params(params@, run_views(runs@));
    let mut lists: Vec<Vec<Value>> = Vec::new();
    let mut i: usize = 0;
    assert(arg_views(lists@) =~= goal.take(0));
    while i < runs.len()
        invariant
            i <= runs@.len(),
            forall|i: int, k: int|
                0 <= i < runs@.len() && 0 <= k < runs@[i]@.len() ==> #[trigger] runs@[i]@[k]
                    < params@.len(),
            goal == local_params(params@, run_views(runs@)),
            arg_views(lists@) =~= goal.take(i as int),
        decreases runs.len() - i,
    {
        let ghost before = lists@;
        let values: Vec<Value> = values_at(params, &runs[i]);
        assert(goal[i as int] == values@);
        lists.push(values);
        assert(arg_views(lists@) =~= arg_views(before).push(values@));
        i = i + 1;
    }
    assert(arg_views(lists@) =~= goal);
    lists
}

/// Lowers the body of a function. The data and tables of the compilation are
/// handed in and come back grown.
pub fn define_function_def(
    target: Target,
    fn_type: &ResolvedFunctionType,
    body: &MirBody,
    homes: &Vec<ParameterHome>,
    functions: &Vec<HirId>,
    globals: &Vec<HirId>,
    pool: ConstPool,
    vtables: Vec<Vtable>,
) -> (lowered: Option<Lowering>)
    requires
        fn_measurable(*fn_type, target.pointer_width()),
        body_fits(*body, target.pointer_width()),
    ensures
        match function_lowered(
            target,
            *fn_type,
            *body,
            homes@,
            functions@,
            globals@,
            pool@,
            vtables@,
        ) {
            Some(after) => lowered is Some && lowered->0@ == after,
            None => lowered is None,
        },
{
    let pb: u32 = target.pointer_bytes();
    if body.arg_count > body.locals.len() || body.blocks.len() == 0 {
        return None;
    }
    let signature: FunctionType = llvm_function_type(target, fn_type);
    let indirect: bool = needs_sret(target, &fn_type.return_type);
    let hidden: usize = if indirect {
        1
    } else {
        0
    };
    let ghost declared_leaves = param_leaves(fn_type.params@, pb);
    assert(signature.params@.len() == hidden + declared_leaves.len());
    let declared: usize = signature.params.len() - hidden;
    let runs: Vec<Vec<usize>> = match values_of_args(body, hidden, declared, pb) {
        Some(runs) => runs,
        None => {
            return None;
        },
    };
    proof {
        assert forall|i: int, k: int|
            0 <= i < runs@.len() && 0 <= k < runs@[i]@.len() implies #[trigger] runs@[i]@[k]
            < signature.params@.len() by {
            assert(run_views(runs@)[i] == runs@[i]@);
        }
    }
    let local_args: Vec<Vec<Value>> = params_by_local(&signature.params, &runs);
    let types: Vec<ResolvedType> = types_of_frame(body);
    assert(types_measurable(types@, pb)) by {
        assert forall|i: int| 0 <= i < types@.len() implies measurable(
            #[trigger] types@[i],
            pb,
        ) by {
            assert(measurable(body.locals@[body.arg_count + i].ty, pb));
        }
    }
    let layout: FieldLayout = locals_layout(&types, pb);
    proof {
        crate::layout::lemma_type_parts(types@, pb);
    }
    let align: u32 = power_of_two(stack_align_shift(strictest(&types)));
    let local_offsets: Vec<u32> = offsets_of_frame(body, &layout, pb);
    let mut lowering = Lowering {
        steps: Vec::new(),
        slots: Vec::new(),
        statements: Vec::new(),
        pool,
        vtables,
    };
    let frame_slot: Value = lowering.entry_alloca(layout.packed_end, align, SlotUse::Locals);
    let frame = Frame {
        target,
        arg_count: body.arg_count,
        local_args,
        frame_slot,
        local_offsets,
        functions: copy_ids(functions),
        globals: copy_ids(globals),
    };
    assert(frame@ == frame_of(target, *fn_type, *body, functions@, globals@)) by {
        assert(frame@.local_args =~= arg_views(local_args@));
    }
    assert(lowering@.steps =~= Seq::empty());
    assert(lowering@.statements =~= Seq::empty());
    assert(lowering@.slots =~= seq![locals_slot(*body, pb)]);
    if !lowering.fill_homes(body, homes, &frame.local_args, pb) {
        return None;
    }
    let sret: Option<Value> = if indirect {
        Some(pointer_to(Operand::Param(0)))
    } else {
        None
    };
    if lowering.lower_blocks(&frame, &body.blocks, sret, &fn_type.return_type) {
        Some(lowering)
    } else {
        None
    }
}

/// Lowers a function that is nothing but machine code: no parameter storage,
/// locals, or ordinary return exist.
pub fn define_naked_function(
    target: Target,
    code: &MirInlineAsm,
    functions: &Vec<HirId>,
    globals: &Vec<HirId>,
    pool: ConstPool,
    vtables: Vec<Vtable>,
) -> (lowered: Option<Lowering>)
    requires
        operands_fit(code.operands@, target.pointer_width()),
    ensures
        match naked_lowered(target, *code, functions@, globals@, pool@, vtables@) {
            Some(after) => lowered is Some && lowered->0@ == after,
            None => lowered is None,
        },
{
    let frame = Frame {
        target,
        arg_count: 0,
        local_args: Vec::new(),
        frame_slot: pointer_to(Operand::Null),
        local_offsets: Vec::new(),
        functions: copy_ids(functions),
        globals: copy_ids(globals),
    };
    assert(frame@.local_args =~= Seq::empty());
    assert(frame@.local_offsets =~= Seq::empty());
    let mut lowering = Lowering {
        steps: Vec::new(),
        slots: Vec::new(),
        statements: Vec::new(),
        pool,
        vtables,
    };
    assert(lowering@.steps =~= Seq::empty());
    assert(lowering@.slots =~= Seq::empty());
    assert(lowering@.statements =~= Seq::empty());
    lowering.perform(Op::Enter(0));
    if lowering.process_inline_asm(&frame, code) {
        lowering.perform(Op::Unreachable);
        Some(lowering)
    } else {
        None
    }
}

} // verus!
