//! Functions: their signatures, their frames, and their blocks.

use crate::codegen::abi::{
    fn_measurable, needs_sret, param_leaves, returned, returns_indirectly, AbiReturn, AbiSignature,
    ReturnView,
};
use crate::codegen::constants::{ConstPool, ObjectView};
use crate::codegen::cranelift::{
    cranelift_type, leaf_ir, pointer_ir, pointer_type, stored, Frame, FrameView, IrType, Lowering,
    LoweringView, Op, PlaceStorage, SlotData, Storage,
};
use crate::codegen::cranelift::expr::{expr_lowered, first_of, passed};
use crate::codegen::fits::node_fits;
use crate::codegen::frame::{
    args_of, args_width, block_fits, body_fits, copy_ids, frame_offsets, frame_types,
    offsets_of_frame, run_views, strictest, types_of_frame, values_of_args,
};
use crate::codegen::mir::{MirBlock, MirBody, MirExprNode, MirTerminator};
use crate::codegen::shared::Vtable;
use crate::hir::HirId;
use crate::layout::{
    floor_log2, larger, locals_layout, measurable, plan_end, stack_align_shift, type_parts,
    types_align, types_measurable, FieldLayout, Leaf,
};
use crate::resolved_type::{ResolvedFunctionType, ResolvedType};
use crate::target::Target;
use vstd::prelude::*;

verus! {

/// A parameter of a signature; the one a result comes back through is special.
#[derive(Debug, Clone, Copy, PartialEq, Eq, Structural)]
pub struct SignatureParam {
    pub ty: IrType,
    pub struct_return: bool,
}

/// How a function is called.
#[derive(Debug)]
pub struct Signature {
    pub params: Vec<SignatureParam>,
    pub results: Vec<IrType>,
    /// Whether the System V convention applies, as it does to variadic
    /// functions.
    pub system_v: bool,
}

/// The parameters of a function: the address for an indirect result, then the
/// leaves of each declared parameter.
pub open spec fn signature_params(fn_type: ResolvedFunctionType, pointer_bytes: u32) -> Seq<
    SignatureParam,
> {
    let declared = param_leaves(fn_type.params@, pointer_bytes).map_values(
        |leaf: Leaf|
            SignatureParam { ty: leaf_ir(leaf, pointer_bytes), struct_return: false },
    );
    if returns_indirectly(*fn_type.return_type, pointer_bytes) {
        seq![SignatureParam { ty: pointer_ir(pointer_bytes), struct_return: true }] + declared
    } else {
        declared
    }
}

/// The results of a function.
pub open spec fn signature_returns(fn_type: ResolvedFunctionType, pointer_bytes: u32) -> Seq<
    IrType,
> {
    match returned(*fn_type.return_type, pointer_bytes) {
        ReturnView::Direct(leaves) => leaves.map_values(
            |leaf: Leaf| leaf_ir(leaf, pointer_bytes),
        ),
        _ => Seq::empty(),
    }
}

fn types_of_leaves(leaves: &Vec<Leaf>, pointer_bytes: u32) -> (types: Vec<IrType>)
    ensures
        types@ == leaves@.map_values(|leaf: Leaf| leaf_ir(leaf, pointer_bytes)),
{
    let ghost goal = leaves@.map_values(|leaf: Leaf| leaf_ir(leaf, pointer_bytes));
    let mut types: Vec<IrType> = Vec::new();
    let mut i: usize = 0;
    while i < leaves.len()
        invariant
            i <= leaves@.len(),
            goal == leaves@.map_values(|leaf: Leaf| leaf_ir(leaf, pointer_bytes)),
            types@ =~= goal.take(i as int),
        decreases leaves.len() - i,
    {
        types.push(cranelift_type(leaves[i], pointer_bytes));
        i = i + 1;
    }
    assert(types@ =~= goal);
    types
}

/// How a function of a type is called.
pub fn make_function_sig(target: Target, fn_type: &ResolvedFunctionType) -> (sig: Signature)
    requires
        fn_measurable(*fn_type, target.pointer_width()),
    ensures
        sig.params@ == signature_params(*fn_type, target.pointer_width()),
        sig.results@ == signature_returns(*fn_type, target.pointer_width()),
        sig.system_v == fn_type.is_variadic,
{
    let pb: u32 = target.pointer_bytes();
    let abi: AbiSignature = AbiSignature::build(target, fn_type);
    let mut params: Vec<SignatureParam> = Vec::new();
    let mut results: Vec<IrType> = Vec::new();
    match &abi.ret {
        AbiReturn::Void => {},
        AbiReturn::Indirect => {
            params.push(SignatureParam { ty: pointer_type(pb), struct_return: true });
        },
        AbiReturn::Direct(leaves) => {
            results = types_of_leaves(leaves, pb);
        },
    }
    assert(results@ =~= signature_returns(*fn_type, pb));
    let ghost hidden = params@;
    let ghost goal = signature_params(*fn_type, pb);
    let mut i: usize = 0;
    while i < abi.params.len()
        invariant
            i <= abi.params@.len(),
            abi.params@ == param_leaves(fn_type.params@, pb),
            goal == signature_params(*fn_type, pb),
            goal.len() == hidden.len() + abi.params@.len(),
            forall|k: int|
                0 <= k < abi.params@.len() ==> #[trigger] goal[hidden.len() + k]
                    == (SignatureParam {
                    ty: leaf_ir(abi.params@[k], pb),
                    struct_return: false,
                }),
            params@ =~= goal.take(hidden.len() + i),
        decreases abi.params.len() - i,
    {
        let param = SignatureParam { ty: cranelift_type(abi.params[i], pb), struct_return: false };
        assert(goal[hidden.len() + i as int] == param);
        params.push(param);
        i = i + 1;
    }
    assert(params@ =~= goal);
    Signature { params, results, system_v: fn_type.is_variadic }
}

/// The signature a call site has: a variadic function's, with the arguments
/// beyond its parameters as they are passed.
pub fn call_site_signature(target: Target, fn_type: &ResolvedFunctionType, args: &Vec<IrType>) -> (
    sig: Signature)
    requires
        fn_measurable(*fn_type, target.pointer_width()),
    ensures
        ({
            let fixed = signature_params(*fn_type, target.pointer_width());
            sig.params@ == if fn_type.is_variadic && args@.len() > fixed.len() {
                fixed + args@.skip(fixed.len() as int).map_values(
                    |ty: IrType| SignatureParam { ty, struct_return: false },
                )
            } else {
                fixed
            }
        }),
        sig.results@ == signature_returns(*fn_type, target.pointer_width()),
        sig.system_v == fn_type.is_variadic,
{
    let mut sig: Signature = make_function_sig(target, fn_type);
    let ghost fixed = sig.params@;
    if fn_type.is_variadic && args.len() > sig.params.len() {
        let count: usize = sig.params.len();
        let ghost extra = args@.skip(count as int).map_values(
            |ty: IrType| SignatureParam { ty, struct_return: false },
        );
        let mut i: usize = count;
        assert(fixed + extra.take(0) =~= fixed);
        while i < args.len()
            invariant
                count <= i <= args@.len(),
                fixed.len() == count,
                sig.results@ == signature_returns(*fn_type, target.pointer_width()),
                sig.system_v == fn_type.is_variadic,
                extra == args@.skip(count as int).map_values(
                    |ty: IrType| SignatureParam { ty, struct_return: false },
                ),
                sig.params@ =~= fixed + extra.take(i - count),
            decreases args.len() - i,
        {
            assert(extra[i - count] == (SignatureParam {
                ty: args@[i as int],
                struct_return: false,
            }));
            sig.params.push(SignatureParam { ty: args[i], struct_return: false });
            i = i + 1;
        }
        assert(extra.take(args@.len() - count) =~= extra);
    }
    sig
}

/// How a block ends.
pub open spec fn terminated(
    frame: FrameView,
    terminator: MirTerminator,
    block_count: nat,
    sret: Option<usize>,
    s: LoweringView,
) -> Option<LoweringView> {
    match terminator {
        MirTerminator::Goto(target) => if target.0 < block_count {
            Some(s.push(Op::Jump(target.0 as usize), None))
        } else {
            None
        },
        MirTerminator::Branch { condition, then_block, else_block } => match first_of(
            expr_lowered(frame, condition, s),
        ) {
            Some(found) => if then_block.0 < block_count && else_block.0 < block_count {
                Some(
                    found.state.push(
                        Op::Brif {
                            condition: found.values[0],
                            then_block: then_block.0 as usize,
                            else_block: else_block.0 as usize,
                        },
                        None,
                    ),
                )
            } else {
                None
            },
            None => None,
        },
        MirTerminator::Return(value) => {
            let lowered = match value {
                Some(expr) => expr_lowered(frame, expr, s),
                None => Some(
                    crate::codegen::cranelift::Lowered { state: s, values: Seq::empty() },
                ),
            };
            match (lowered, sret) {
                (Some(found), Some(base)) => match stored(
                    found.state,
                    Storage::Address { base, offset: 0 },
                    found.values,
                    found.values.len(),
                ) {
                    Some(after) => Some(after.push(Op::Return { count: 0 }, None)),
                    None => None,
                },
                (Some(found), None) => Some(
                    passed(found.state, found.values, found.values.len()).push(
                        Op::Return { count: found.values.len() as usize },
                        None,
                    ),
                ),
                (None, _) => None,
            }
        },
        MirTerminator::Unreachable => Some(s.push(Op::Trap, None)),
    }
}

/// The first `n` statements, one after the other.
pub open spec fn statements_lowered(
    frame: FrameView,
    statements: Seq<MirExprNode>,
    s: LoweringView,
    n: nat,
) -> Option<LoweringView>
    decreases n,
{
    if n == 0 {
        Some(s)
    } else {
        match statements_lowered(frame, statements, s, (n - 1) as nat) {
            Some(before) => match expr_lowered(frame, statements[n - 1], before) {
                Some(found) => Some(found.state),
                None => None,
            },
            None => None,
        }
    }
}

/// A block: its statements, and how it ends.
pub open spec fn block_lowered(
    frame: FrameView,
    block: MirBlock,
    index: nat,
    block_count: nat,
    sret: Option<usize>,
    s: LoweringView,
) -> Option<LoweringView> {
    match statements_lowered(
        frame,
        block.statements@,
        s.push(Op::Enter(index as usize), None),
        block.statements@.len(),
    ) {
        Some(after) => terminated(frame, block.terminator, block_count, sret, after),
        None => None,
    }
}

/// The first `n` blocks, one after the other.
pub open spec fn blocks_lowered(
    frame: FrameView,
    blocks: Seq<MirBlock>,
    sret: Option<usize>,
    s: LoweringView,
    n: nat,
) -> Option<LoweringView>
    decreases n,
{
    if n == 0 {
        Some(s)
    } else {
        match blocks_lowered(frame, blocks, sret, s, (n - 1) as nat) {
            Some(before) => block_lowered(
                frame,
                blocks[n - 1],
                (n - 1) as nat,
                blocks.len(),
                sret,
                before,
            ),
            None => None,
        }
    }
}

/// The slot that holds the locals that are no parameters.
pub open spec fn frame_slot_of(body: MirBody, pointer_bytes: u32) -> SlotData {
    let types = frame_types(body);
    SlotData {
        size: plan_end(type_parts(types, pointer_bytes), 1, pointer_bytes) as u32,
        align_shift: larger(floor_log2(types_align(types)), 4) as u8,
    }
}

/// The first `n` parameters of a signature as values.
pub open spec fn params_entered(s: LoweringView, params: Seq<SignatureParam>, n: nat) -> LoweringView
    decreases n,
{
    if n == 0 {
        s
    } else {
        params_entered(s, params, (n - 1) as nat).push(
            Op::Param((n - 1) as usize),
            Some(params[n - 1].ty),
        )
    }
}

/// What surrounds the body of a function.
pub open spec fn frame_of(
    target: Target,
    fn_type: ResolvedFunctionType,
    body: MirBody,
    functions: Seq<HirId>,
    globals: Seq<HirId>,
) -> FrameView {
    let pb = target.pointer_width();
    FrameView {
        target,
        arg_count: body.arg_count,
        local_args: args_of(
            body,
            if returns_indirectly(*fn_type.return_type, pb) {
                1
            } else {
                0
            },
            param_leaves(fn_type.params@, pb).len(),
            pb,
        ),
        frame_slot: 0,
        local_offsets: frame_offsets(body, pb),
        functions,
        globals,
    }
}

/// A function: a slot for its locals, its parameters, and its blocks.
pub open spec fn function_lowered(
    target: Target,
    fn_type: ResolvedFunctionType,
    body: MirBody,
    functions: Seq<HirId>,
    globals: Seq<HirId>,
    pool: Seq<ObjectView>,
    vtables: Seq<Vtable>,
) -> Option<LoweringView> {
    let pb = target.pointer_width();
    let declared = param_leaves(fn_type.params@, pb).len();
    if body.arg_count > body.locals@.len() || body.blocks@.len() == 0 || declared > args_width(
        body.locals@,
        pb,
        body.arg_count as nat,
    ) {
        None
    } else {
        let params = signature_params(fn_type, pb);
        let start = LoweringView {
            steps: Seq::empty(),
            slots: seq![frame_slot_of(body, pb)],
            pool,
            vtables,
        };
        let sret = if returns_indirectly(*fn_type.return_type, pb) {
            Some(0usize)
        } else {
            None
        };
        blocks_lowered(
            frame_of(target, fn_type, body, functions, globals),
            body.blocks@,
            sret,
            params_entered(start, params, params.len()),
            body.blocks@.len(),
        )
    }
}

impl Lowering {
    fn emit_terminator(
        &mut self,
        frame: &Frame,
        terminator: &MirTerminator,
        block_count: usize,
        sret: Option<usize>,
    ) -> (done: bool)
        requires
            match *terminator {
                MirTerminator::Branch { condition, .. } => node_fits(condition, frame.pb()),
                MirTerminator::Return(Some(value)) => node_fits(value, frame.pb()),
                _ => true,
            },
        ensures
            match terminated(frame@, *terminator, block_count as nat, sret, old(self)@) {
                Some(after) => done && final(self)@ == after,
                None => !done,
            },
    {
        match terminator {
            MirTerminator::Goto(target) => {
                let block: usize = target.0 as usize;
                if block < block_count {
                    self.perform(Op::Jump(block));
                    true
                } else {
                    false
                }
            },
            MirTerminator::Branch { condition, then_block, else_block } => {
                let condition: usize = match self.process_expr(frame, condition) {
                    Some(values) => if values.len() > 0 {
                        values[0]
                    } else {
                        return false;
                    },
                    None => {
                        return false;
                    },
                };
                let then_block: usize = then_block.0 as usize;
                let else_block: usize = else_block.0 as usize;
                if then_block < block_count && else_block < block_count {
                    self.perform(Op::Brif { condition, then_block, else_block });
                    true
                } else {
                    false
                }
            },
            MirTerminator::Return(value) => {
                let values: Vec<usize> = match value {
                    Some(expr) => match self.process_expr(frame, expr) {
                        Some(values) => values,
                        None => {
                            return false;
                        },
                    },
                    None => {
                        let values: Vec<usize> = Vec::new();
                        assert(values@ =~= Seq::empty());
                        values
                    },
                };
                match sret {
                    Some(base) => {
                        if !self.store_scalars(
                            &PlaceStorage::Address { base, offset: 0 },
                            &values,
                        ) {
                            return false;
                        }
                        self.perform(Op::Return { count: 0 });
                        true
                    },
                    None => {
                        self.pass_all(&values);
                        self.perform(Op::Return { count: values.len() });
                        true
                    },
                }
            },
            MirTerminator::Unreachable => {
                self.perform(Op::Trap);
                true
            },
        }
    }

    fn lower_statements(&mut self, frame: &Frame, statements: &Vec<MirExprNode>) -> (done: bool)
        requires
            forall|i: int|
                0 <= i < statements@.len() ==> node_fits(#[trigger] statements@[i], frame.pb()),
        ensures
            match statements_lowered(frame@, statements@, old(self)@, statements@.len()) {
                Some(after) => done && final(self)@ == after,
                None => !done,
            },
    {
        let ghost before = self@;
        let mut i: usize = 0;
        while i < statements.len()
            invariant
                i <= statements@.len(),
                forall|k: int|
                    0 <= k < statements@.len() ==> node_fits(
                        #[trigger] statements@[k],
                        frame.pb(),
                    ),
                before == old(self)@,
                statements_lowered(frame@, statements@, before, i as nat) == Some(self@),
            decreases statements.len() - i,
        {
            assert(node_fits(statements@[i as int], frame.pb()));
            if self.process_expr(frame, &statements[i]).is_none() {
                proof {
                    lemma_statements_stop(
                        frame@,
                        statements@,
                        before,
                        (i + 1) as nat,
                        statements@.len(),
                    );
                }
                return false;
            }
            i = i + 1;
        }
        true
    }

    fn lower_blocks(&mut self, frame: &Frame, blocks: &Vec<MirBlock>, sret: Option<usize>) -> (done:
        bool)
        requires
            forall|i: int|
                0 <= i < blocks@.len() ==> block_fits(#[trigger] blocks@[i], frame.pb()),
        ensures
            match blocks_lowered(frame@, blocks@, sret, old(self)@, blocks@.len()) {
                Some(after) => done && final(self)@ == after,
                None => !done,
            },
    {
        let ghost before = self@;
        let mut i: usize = 0;
        while i < blocks.len()
            invariant
                i <= blocks@.len(),
                forall|k: int|
                    0 <= k < blocks@.len() ==> block_fits(#[trigger] blocks@[k], frame.pb()),
                before == old(self)@,
                blocks_lowered(frame@, blocks@, sret, before, i as nat) == Some(self@),
            decreases blocks.len() - i,
        {
            assert(block_fits(blocks@[i as int], frame.pb()));
            let block: &MirBlock = &blocks[i];
            self.perform(Op::Enter(i));
            let done: bool = self.lower_statements(frame, &block.statements)
                && self.emit_terminator(frame, &block.terminator, blocks.len(), sret);
            if !done {
                proof {
                    lemma_blocks_stop(
                        frame@,
                        blocks@,
                        sret,
                        before,
                        (i + 1) as nat,
                        blocks@.len(),
                    );
                }
                return false;
            }
            i = i + 1;
        }
        true
    }

    fn enter_params(&mut self, params: &Vec<SignatureParam>)
        ensures
            final(self)@ == params_entered(old(self)@, params@, params@.len()),
    {
        let ghost before = self@;
        let mut i: usize = 0;
        while i < params.len()
            invariant
                i <= params@.len(),
                before == old(self)@,
                self@ == params_entered(before, params@, i as nat),
            decreases params.len() - i,
        {
            self.define(Op::Param(i), params[i].ty);
            i = i + 1;
        }
    }
}

proof fn lemma_statements_stop(
    frame: FrameView,
    statements: Seq<MirExprNode>,
    s: LoweringView,
    n: nat,
    m: nat,
)
    requires
        n <= m,
        statements_lowered(frame, statements, s, n) is None,
    ensures
        statements_lowered(frame, statements, s, m) is None,
    decreases m,
{
    if n < m {
        lemma_statements_stop(frame, statements, s, n, (m - 1) as nat);
    }
}

proof fn lemma_blocks_stop(
    frame: FrameView,
    blocks: Seq<MirBlock>,
    sret: Option<usize>,
    s: LoweringView,
    n: nat,
    m: nat,
)
    requires
        n <= m,
        blocks_lowered(frame, blocks, sret, s, n) is None,
    ensures
        blocks_lowered(frame, blocks, sret, s, m) is None,
    decreases m,
{
    if n < m {
        lemma_blocks_stop(frame, blocks, sret, s, n, (m - 1) as nat);
    }
}

/// Lowers the body of a function. The data and tables of the compilation are
/// handed in and come back grown.
pub fn define_function_def(
    target: Target,
    fn_type: &ResolvedFunctionType,
    body: &MirBody,
    functions: &Vec<HirId>,
    globals: &Vec<HirId>,
    pool: ConstPool,
    vtables: Vec<Vtable>,
) -> (lowered: Option<Lowering>)
    requires
        fn_measurable(*fn_type, target.pointer_width()),
        body_fits(*body, target.pointer_width()),
    ensures
        match function_lowered(
            target,
            *fn_type,
            *body,
            functions@,
            globals@,
            pool@,
            vtables@,
        ) {
            Some(after) => lowered is Some && lowered->0@ == after,
            None => lowered is None,
        },
{
    let pb: u32 = target.pointer_bytes();
    if body.arg_count > body.locals.len() || body.blocks.len() == 0 {
        return None;
    }
    let signature: Signature = make_function_sig(target, fn_type);
    let indirect: bool = needs_sret(target, &fn_type.return_type);
    let hidden: usize = if indirect {
        1
    } else {
        0
    };
    let ghost declared_leaves = param_leaves(fn_type.params@, pb);
    assert(signature.params@.len() == hidden + declared_leaves.len());
    let declared: usize = signature.params.len() - hidden;
    let local_args: Vec<Vec<usize>> = match values_of_args(body, hidden, declared, pb) {
        Some(lists) => lists,
        None => {
            return None;
        },
    };
    let types: Vec<ResolvedType> = types_of_frame(body);
    assert(types_measurable(types@, pb)) by {
        assert forall|i: int| 0 <= i < types@.len() implies measurable(
            #[trigger] types@[i],
            pb,
        ) by {
            assert(measurable(body.locals@[body.arg_count + i].ty, pb));
        }
    }
    let layout: FieldLayout = locals_layout(&types, pb);
    proof {
        crate::layout::lemma_type_parts(types@, pb);
    }
    let shift: u8 = stack_align_shift(strictest(&types));
    let mut slots: Vec<SlotData> = Vec::new();
    slots.push(SlotData { size: layout.packed_end, align_shift: shift });
    assert(slots@ =~= seq![frame_slot_of(*body, pb)]);
    let local_offsets: Vec<u32> = offsets_of_frame(body, &layout, pb);
    let frame = Frame {
        target,
        arg_count: body.arg_count,
        local_args,
        frame_slot: 0,
        local_offsets,
        functions: copy_ids(functions),
        globals: copy_ids(globals),
    };
    assert(frame@ == frame_of(target, *fn_type, *body, functions@, globals@)) by {
        assert(frame@.local_args =~= run_views(local_args@));
    }
    let mut lowering = Lowering { steps: Vec::new(), slots, pool, vtables };
    assert(lowering@.steps =~= Seq::empty());
    lowering.enter_params(&signature.params);
    let sret: Option<usize> = if indirect {
        Some(0)
    } else {
        None
    };
    if lowering.lower_blocks(&frame, &body.blocks, sret) {
        Some(lowering)
    } else {
        None
    }
}

} // verus!
