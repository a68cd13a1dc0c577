//! That every function a unit lowers, and every variable it lays out, refers
//! only to what there is.

use crate::codegen::abi::{param_leaves, returns_indirectly};
use crate::codegen::catalog::{
    declared_ids, reference_views, units_added, CatalogView, FunctionView, GlobalView,
};
use crate::codegen::constants::{written, zeros, BlobView, ObjectView, Writing};
use crate::codegen::fits::defined_functions;
use crate::codegen::llvm::{
    all_stored, pointer_value, slot_of, Lowered, LoweringView, Op, Operand, SlotUse, Step, Value,
};
use crate::codegen::llvm::blob::{by_offset, materialized, pieces_of, placed, InitView, PieceView};
use crate::codegen::llvm::expr::{code_lowered, expr_lowered};
use crate::codegen::llvm::function::{
    block_lowered, blocks_lowered, frame_of, function_lowered, hidden_params, homes_filled,
    locals_slot, naked_frame, naked_lowered, params_of, statements_lowered, terminated,
    ParameterHome,
};
use crate::codegen::llvm::item::{
    all_owned, body_lowered, declared, emitted, function_defined, function_of, functions_declared,
    functions_defined, generated, global_defined, globals_declared, homes_of, items_configured,
    items_defined, owned, symbol_position, units_emitted, CodeView, ContentsView, FunctionHomes,
    SymbolView, UnitView,
};
use crate::codegen::llvm::scalar::{as_condition, first_of, passed};
use crate::codegen::llvm::sound_code::{lemma_code, lemma_expr};
use crate::codegen::llvm::sound_scalar::{lemma_as_condition, lemma_first, lemma_passed};
use crate::codegen::llvm::soundness::{
    all_given, at, countable, ends, follows, given, grows, have_all, kept, lemma_all_stored,
    lemma_count, lemma_given, lemma_grows, lemma_grows_then, lemma_has, lemma_have, lemma_kept_then,
    lemma_ready, lemma_room_does_not_matter, lemma_same, lemma_slot, lemma_stays, lemma_step, ok,
    plain, ready, shaped, sound, usable, within_block, Scope,
};
use crate::codegen::mir::{
    EmissionUnit, ExternFunctionRef, MirBlock, MirBody, MirDeclaration, MirExprNode,
    MirFunctionBody, MirFunctionDef, MirInlineAsm, MirItem, MirTerminator,
};
use crate::codegen::pool_laws::{
    below, law_writing_keeps_the_pool_orderly, lemma_starts_with_len, orderly, starts_with,
};
use crate::codegen::shared::{tabled, Vtable};
use crate::hir::HirId;
use crate::layout::{align_of, size_of};
use crate::resolved_type::{ConstValue, ResolvedFunctionType, ResolvedType};
use crate::target::Target;
use vstd::prelude::*;

verus! {

/// Whether there is the address an indirect result goes to, in every block.
pub open spec fn addressable(c: Scope, s: LoweringView, sret: Option<Value>) -> bool {
    match sret {
        Some(base) => at(c, s, base) && given(c, s, base),
        None => true,
    }
}

proof fn lemma_addressable(c: Scope, a: LoweringView, b: LoweringView, sret: Option<Value>)
    requires
        grows(a, b),
        addressable(c, a, sret),
    ensures
        addressable(c, b, sret),
{
    match sret {
        Some(base) => {
            lemma_given(c, a, b, base);
        },
        None => {},
    }
}

/// Whether a step of lowering keeps a function sound and ends a block.
pub open spec fn ended(c: Scope, before: LoweringView, after: LoweringView) -> bool {
    &&& ok(c, after)
    &&& grows(before, after)
    &&& before.steps.len() < after.steps.len()
    &&& within_block(after.steps, before.steps.len() as int, after.steps.len() - 1)
    &&& ends(after.steps.last().op)
}

proof fn lemma_ended(c: Scope, s: LoweringView, mid: LoweringView, op: Op)
    requires
        kept(c, s, mid),
        ends(op),
        countable(mid.push(op, None)) ==> usable(c, mid, op),
    ensures
        ended(c, s, mid.push(op, None)),
{
    lemma_step(c, mid, op, None);
    lemma_grows(s, mid);
    lemma_grows_then(s, mid, mid.push(op, None));
    reveal(follows);
    reveal(grows);
}

proof fn lemma_terminated(
    c: Scope,
    terminator: &MirTerminator,
    sret: Option<Value>,
    ret: &ResolvedType,
    s: LoweringView,
)
    requires
        ready(c, s),
        countable(s) ==> addressable(c, s, sret),
        terminated(c.frame, *terminator, c.blocks, sret, *ret, s) is Some,
    ensures
        ended(c, s, terminated(c.frame, *terminator, c.blocks, sret, *ret, s)->0),
{
    match terminator {
        MirTerminator::Goto(target) => {
            lemma_same(c, s);
            lemma_ended(c, s, s, Op::Branch(target.0 as usize));
        },
        MirTerminator::Branch { condition, then_block, else_block } => {
            lemma_expr(c, condition, s);
            let lowered = expr_lowered(c.frame, *condition, s);
            lemma_first(c, s, lowered);
            let found = first_of(lowered)->0;
            lemma_as_condition(c, found.state, found.values[0]);
            let flag = as_condition(found.state, found.values[0])->0;
            lemma_kept_then(c, s, found.state, flag.state);
            let op = Op::ConditionalBranch {
                condition: flag.values[0],
                then_block: then_block.0 as usize,
                else_block: else_block.0 as usize,
            };
            lemma_ended(c, s, flag.state, op);
        },
        MirTerminator::Return(value) => {
            let found = match value {
                Some(expr) => expr_lowered(c.frame, *expr, s)->0,
                None => Lowered { state: s, values: Seq::empty() },
            };
            match value {
                Some(expr) => {
                    lemma_expr(c, expr, s);
                },
                None => {
                    lemma_same(c, s);
                },
            }
            lemma_count(s, found.state);
            match sret {
                Some(base) => {
                    if countable(found.state) {
                        lemma_has(c, s, found.state, base);
                    }
                    let align = align_of(*ret) as u32;
                    let pb = c.frame.pb();
                    lemma_all_stored(c, found.state, base, 0, found.values, align, pb);
                    let after = all_stored(found.state, base, 0, found.values, align, pb)->0;
                    lemma_kept_then(c, s, found.state, after);
                    lemma_ended(c, s, after, Op::Return { count: 0 });
                },
                None => {
                    lemma_passed(c, found.state, found.values, found.values.len());
                    let after = passed(found.state, found.values, found.values.len());
                    lemma_kept_then(c, s, found.state, after);
                    let op = Op::Return { count: found.values.len() as usize };
                    lemma_ended(c, s, after, op);
                },
            }
        },
        MirTerminator::Unreachable => {
            lemma_same(c, s);
            lemma_ended(c, s, s, Op::Unreachable);
        },
    }
}

proof fn lemma_statements(c: Scope, statements: Seq<MirExprNode>, s: LoweringView, n: nat)
    requires
        ready(c, s),
        statements_lowered(c.frame, statements, s, n) is Some,
    ensures
        kept(c, s, statements_lowered(c.frame, statements, s, n)->0),
    decreases n,
{
    if n == 0 {
        lemma_same(c, s);
    } else {
        lemma_statements(c, statements, s, (n - 1) as nat);
        let before = statements_lowered(c.frame, statements, s, (n - 1) as nat)->0;
        lemma_ready(c, s, before);
        lemma_expr(c, &statements[n - 1], before);
        lemma_kept_then(
            c,
            s,
            before,
            expr_lowered(c.frame, statements[n - 1], before)->0.state,
        );
    }
}

proof fn lemma_block(
    c: Scope,
    block: &MirBlock,
    index: nat,
    sret: Option<Value>,
    ret: &ResolvedType,
    s: LoweringView,
)
    requires
        ready(c, s),
        countable(s) ==> addressable(c, s, sret),
        index < c.blocks <= usize::MAX,
        block_lowered(c.frame, *block, index, c.blocks, sret, *ret, s) is Some,
    ensures
        ok(c, block_lowered(c.frame, *block, index, c.blocks, sret, *ret, s)->0),
        grows(s, block_lowered(c.frame, *block, index, c.blocks, sret, *ret, s)->0),
        ({
            let steps = block_lowered(c.frame, *block, index, c.blocks, sret, *ret, s)->0.steps;
            let start = s.steps.len() as int;
            &&& start < steps.len() - 1
            &&& steps[start].op == Op::Enter(index as usize)
            &&& within_block(steps, start + 1, steps.len() - 1)
            &&& ends(steps.last().op)
        }),
{
    let entered = s.push(Op::Enter(index as usize), None);
    lemma_step(c, s, Op::Enter(index as usize), None);
    lemma_stays(c, s, entered);
    lemma_statements(c, block.statements@, entered, block.statements@.len());
    let after = statements_lowered(
        c.frame,
        block.statements@,
        entered,
        block.statements@.len(),
    )->0;
    lemma_grows(entered, after);
    lemma_grows_then(s, entered, after);
    lemma_stays(c, s, after);
    if countable(after) {
        lemma_addressable(c, s, after, sret);
    }
    lemma_terminated(c, &block.terminator, sret, ret, after);
    let done = terminated(c.frame, block.terminator, c.blocks, sret, *ret, after)->0;
    lemma_grows_then(s, after, done);
    reveal(grows);
    reveal(follows);
    assert forall|k: int| s.steps.len() < k < done.steps.len() - 1 implies plain(
        (#[trigger] done.steps[k]).op,
    ) by {
        if k < after.steps.len() {
            assert(done.steps[k] == after.steps[k]);
        }
    }
    assert(done.steps[s.steps.len() as int] == after.steps[s.steps.len() as int]);
    assert(after.steps[s.steps.len() as int] == entered.steps[s.steps.len() as int]);
}

proof fn lemma_blocks(
    c: Scope,
    blocks: Seq<MirBlock>,
    sret: Option<Value>,
    ret: &ResolvedType,
    s: LoweringView,
    n: nat,
)
    requires
        ready(c, s),
        countable(s) ==> addressable(c, s, sret),
        n <= blocks.len() == c.blocks <= usize::MAX,
        blocks_lowered(c.frame, blocks, sret, *ret, s, n) is Some,
    ensures
        ok(c, blocks_lowered(c.frame, blocks, sret, *ret, s, n)->0),
        grows(s, blocks_lowered(c.frame, blocks, sret, *ret, s, n)->0),
        shaped(blocks_lowered(c.frame, blocks, sret, *ret, s, n)->0.steps, s.steps.len() as int, n),
    decreases n,
{
    if n == 0 {
        lemma_same(c, s);
        lemma_grows(s, s);
    } else {
        lemma_blocks(c, blocks, sret, ret, s, (n - 1) as nat);
        let before = blocks_lowered(c.frame, blocks, sret, *ret, s, (n - 1) as nat)->0;
        lemma_stays(c, s, before);
        if countable(before) {
            lemma_addressable(c, s, before, sret);
        }
        lemma_block(c, &blocks[n - 1], (n - 1) as nat, sret, ret, before);
        let done = block_lowered(c.frame, blocks[n - 1], (n - 1) as nat, c.blocks, sret, *ret, before)->0;
        lemma_grows_then(s, before, done);
        assert(done.steps.take(before.steps.len() as int) =~= before.steps) by {
            reveal(grows);
        }
        assert(s.steps.len() <= before.steps.len()) by {
            reveal(grows);
        }
        assert(done.steps[before.steps.len() as int].op == Op::Enter((n - 1) as usize));
    }
}

proof fn lemma_homes(
    c: Scope,
    s: LoweringView,
    body: MirBody,
    homes: Seq<ParameterHome>,
    n: nat,
)
    requires
        ready(c, s),
        homes_filled(s, body, homes, c.frame.local_args, c.frame.pb(), n) is Some,
    ensures
        kept(c, s, homes_filled(s, body, homes, c.frame.local_args, c.frame.pb(), n)->0),
    decreases n,
{
    let pb = c.frame.pb();
    let args = c.frame.local_args;
    if n == 0 {
        lemma_same(c, s);
    } else {
        lemma_homes(c, s, body, homes, (n - 1) as nat);
        let before = homes_filled(s, body, homes, args, pb, (n - 1) as nat)->0;
        if !(homes[n - 1] is Ssa) {
            let ty = body.locals@[n - 1].ty;
            let align = align_of(ty) as u32;
            let data = slot_of(size_of(ty, pb), align, SlotUse::Param);
            let room = before.with_slot(data);
            let slot = before.next_slot();
            lemma_slot(c, before, data);
            lemma_kept_then(c, s, before, room);
            if countable(room) {
                assert(all_given(c, s, args[n - 1]));
                assert(have_all(c, s, args[n - 1]));
                lemma_have(c, s, room, args[n - 1]);
            }
            lemma_all_stored(c, room, slot, 0, args[n - 1], align, pb);
            lemma_kept_then(
                c,
                s,
                room,
                all_stored(room, slot, 0, args[n - 1], align, pb)->0,
            );
        }
    }
}

/// Whether steps are `n` blocks behind some that belong to the function's
/// entry.
pub open spec fn framed(steps: Seq<Step>, n: nat) -> bool {
    exists|entry: int|
        0 <= entry && within_block(steps, 0, entry) && #[trigger] shaped(steps, entry, n)
}

/// What a function can refer to besides what it defines.
pub open spec fn scope_of(
    target: Target,
    fn_type: ResolvedFunctionType,
    body: MirBody,
    functions: Seq<HirId>,
    globals: Seq<HirId>,
) -> Scope {
    Scope {
        frame: frame_of(target, fn_type, body, functions, globals),
        params: params_of(fn_type, target.pointer_width()),
        blocks: body.blocks@.len(),
    }
}

/// What a naked function can refer to besides what it defines.
pub open spec fn naked_scope(
    target: Target,
    functions: Seq<HirId>,
    globals: Seq<HirId>,
) -> Scope {
    Scope { frame: naked_frame(target, functions, globals), params: Seq::empty(), blocks: 1 }
}

/// Every function that is lowered is sound: each of its instructions uses
/// only parameters, constants and values that earlier instructions of the same
/// block defined, with the types they have, goes to memory and to functions by
/// addresses only, branches on flags of one bit, and names only slots,
/// statements, constant data, tables, declared functions and variables, and
/// blocks that there are. Behind what fills the homes of its parameters its
/// blocks come in order, each entered once and ended by its last instruction
/// only. Constant data stays
/// orderly, tables hold declared functions only, and the data and the tables
/// that were there stay.
pub proof fn law_lowered_functions_are_sound(
    target: Target,
    fn_type: ResolvedFunctionType,
    body: MirBody,
    homes: Seq<ParameterHome>,
    functions: Seq<HirId>,
    globals: Seq<HirId>,
    pool: Seq<ObjectView>,
    vtables: Seq<Vtable>,
)
    requires
        orderly(pool),
        tabled(functions, vtables),
        params_of(fn_type, target.pointer_width()).len() <= usize::MAX,
        function_lowered(
            target,
            fn_type,
            body,
            homes,
            functions,
            globals,
            pool,
            vtables,
        ) is Some,
    ensures
        ({
            let after = function_lowered(
                target,
                fn_type,
                body,
                homes,
                functions,
                globals,
                pool,
                vtables,
            )->0;
            &&& orderly(after.pool)
            &&& starts_with(after.pool, pool)
            &&& tabled(functions, after.vtables)
            &&& vtables.len() <= after.vtables.len()
            &&& framed(after.steps, body.blocks@.len())
            &&& countable(after) ==> sound(
                scope_of(target, fn_type, body, functions, globals),
                after,
            )
        }),
{
    let pb = target.pointer_width();
    let ret: &ResolvedType = &*fn_type.return_type;
    let c = scope_of(target, fn_type, body, functions, globals);
    let params = c.params;
    let start = LoweringView {
        steps: Seq::empty(),
        slots: seq![locals_slot(body, pb)],
        statements: Seq::empty(),
        pool,
        vtables,
    };
    let hidden = hidden_params(fn_type, pb);
    let sret = if returns_indirectly(*ret, pb) {
        Some(pointer_value(Operand::Param(0)))
    } else {
        None
    };
    let declared = param_leaves(fn_type.params@, pb).len();
    assert(ok(c, start)) by {
        reveal(sound);
    }
    assert(params.len() == hidden + declared);
    assert forall|i: int| 0 <= i < c.frame.local_args.len() implies all_given(
        c,
        start,
        #[trigger] c.frame.local_args[i],
    ) by {
        let run = c.frame.local_args[i];
        assert forall|k: int| 0 <= k < run.len() implies given(c, start, #[trigger] run[k]) by {
            assert(i < body.arg_count);
        }
    }
    assert(body.blocks@.len() == body.blocks.len());
    lemma_homes(c, start, body, homes, homes.len());
    let entered = homes_filled(start, body, homes, c.frame.local_args, pb, homes.len())->0;
    lemma_ready(c, start, entered);
    lemma_blocks(c, body.blocks@, sret, ret, entered, body.blocks@.len());
    let after = blocks_lowered(c.frame, body.blocks@, sret, *ret, entered, body.blocks@.len())->0;
    lemma_grows(start, entered);
    lemma_grows_then(start, entered, after);
    let entry = entered.steps.len() as int;
    assert(within_block(entered.steps, 0, entry)) by {
        reveal(follows);
    }
    reveal(grows);
    assert forall|k: int| 0 <= k < entry implies plain((#[trigger] after.steps[k]).op) by {
        assert(after.steps[k] == entered.steps[k]);
    }
    assert(shaped(after.steps, entry, body.blocks@.len()));
}

/// A naked function that is lowered is sound in the same way.
pub proof fn law_naked_functions_are_sound(
    target: Target,
    code: MirInlineAsm,
    functions: Seq<HirId>,
    globals: Seq<HirId>,
    pool: Seq<ObjectView>,
    vtables: Seq<Vtable>,
)
    requires
        orderly(pool),
        tabled(functions, vtables),
        naked_lowered(target, code, functions, globals, pool, vtables) is Some,
    ensures
        ({
            let after = naked_lowered(target, code, functions, globals, pool, vtables)->0;
            &&& orderly(after.pool)
            &&& starts_with(after.pool, pool)
            &&& tabled(functions, after.vtables)
            &&& vtables.len() <= after.vtables.len()
            &&& framed(after.steps, 1)
            &&& countable(after) ==> sound(naked_scope(target, functions, globals), after)
        }),
{
    let c = naked_scope(target, functions, globals);
    let start = LoweringView {
        steps: Seq::empty(),
        slots: Seq::empty(),
        statements: Seq::empty(),
        pool,
        vtables,
    };
    assert(ready(c, start)) by {
        reveal(sound);
    }
    let entered = start.push(Op::Enter(0), None);
    lemma_step(c, start, Op::Enter(0), None);
    lemma_stays(c, start, entered);
    lemma_code(c, &code, entered);
    let coded = code_lowered(c.frame, code, entered)->0;
    let done = coded.push(Op::Unreachable, None);
    lemma_ended(c, entered, coded, Op::Unreachable);
    lemma_grows_then(start, entered, done);
    reveal(grows);
    assert(done.steps[0] == entered.steps[0]);
    assert(done.steps.take(0) =~= Seq::<Step>::empty());
    assert(shaped(done.steps.take(0), 0, 0));
    assert(done.steps[0].op == Op::Enter(0));
    assert(shaped(done.steps, 0, 1));
}

/// Whether a machine can number what a unit holds.
pub open spec fn numbered(u: UnitView) -> bool {
    &&& u.functions.len() <= usize::MAX
    &&& u.pool.len() <= usize::MAX
    &&& u.vtables.len() <= usize::MAX
    &&& forall|k: int|
        0 <= k < u.bodies.len() ==> (#[trigger] u.bodies[k]).steps.len() <= usize::MAX
            && u.bodies[k].slots.len() <= usize::MAX && u.bodies[k].statements.len()
            <= usize::MAX
}

/// Whether an item defines a function.
pub open spec fn defines(items: Seq<MirItem>, function: MirFunctionDef) -> bool {
    exists|i: int|
        0 <= i < items.len() && defined_functions(#[trigger] items[i]).contains(function)
}

/// Whether a machine can number the parameters of each function that an item
/// defines.
pub open spec fn passable(target: Target, items: Seq<MirItem>) -> bool {
    forall|function: MirFunctionDef|
        #[trigger] defines(items, function) ==> params_of(
            *function.fn_type,
            target.pointer_width(),
        ).len() <= usize::MAX
}

/// What a function's body can refer to besides what it defines.
pub open spec fn body_scope(target: Target, u: UnitView, function: MirFunctionDef) -> Scope {
    match function.body {
        MirFunctionBody::Normal(body) => scope_of(
            target,
            *function.fn_type,
            body,
            u.function_ids(),
            u.global_ids(),
        ),
        MirFunctionBody::Naked(_) => naked_scope(target, u.function_ids(), u.global_ids()),
    }
}

/// Whether a body is a function's, has its blocks, and is sound among what a
/// unit holds.
pub open spec fn body_sound(
    target: Target,
    u: UnitView,
    code: CodeView,
    function: MirFunctionDef,
) -> bool {
    &&& function_of(u.ids, function.id) == Some(code.function)
    &&& code.function < u.functions.len()
    &&& framed(code.steps, body_scope(target, u, function).blocks)
    &&& sound(
        body_scope(target, u, function),
        LoweringView {
            steps: code.steps,
            slots: code.slots,
            statements: code.statements,
            pool: u.pool,
            vtables: u.vtables,
        },
    )
}

/// Whether a body is that of a function that some item defines, and sound.
#[verifier::opaque]
pub open spec fn body_found(
    target: Target,
    items: Seq<MirItem>,
    u: UnitView,
    code: CodeView,
) -> bool {
    exists|function: MirFunctionDef|
        defines(items, function) && #[trigger] body_sound(target, u, code, function)
}

/// Whether each body is that of a function that some item defines, and sound.
#[verifier::opaque]
pub open spec fn bodies_sound(target: Target, items: Seq<MirItem>, u: UnitView) -> bool {
    forall|k: int|
        0 <= k < u.bodies.len() ==> body_found(target, items, u, #[trigger] u.bodies[k])
}

/// Whether initial contents hold addresses of the first `n` pieces of constant
/// data only.
pub open spec fn contents_below(contents: ContentsView, n: nat) -> bool {
    match contents {
        ContentsView::Data(InitView::Packed(pieces)) => forall|i: int|
            0 <= i < pieces.len() ==> match #[trigger] pieces[i] {
                PieceView::Pointer(position) => position < n,
                PieceView::Bytes(_) => true,
            },
        _ => true,
    }
}

/// Whether the initial contents of each variable hold addresses of constant
/// data that there is.
#[verifier::opaque]
pub open spec fn globals_sound(u: UnitView) -> bool {
    forall|k: int|
        0 <= k < u.globals.len() ==> contents_below(
            (#[trigger] u.globals[k]).contents,
            u.pool.len(),
        )
}

/// Whether each known function has a symbol.
#[verifier::opaque]
pub open spec fn ids_sound(u: UnitView) -> bool {
    forall|k: int| 0 <= k < u.ids.len() ==> (#[trigger] u.ids[k]).1 < u.functions.len()
}

/// Whether everything that a unit holds refers only to what there is.
pub open spec fn unit_sound(target: Target, items: Seq<MirItem>, u: UnitView) -> bool {
    &&& orderly(u.pool)
    &&& tabled(u.function_ids(), u.vtables)
    &&& numbered(u) ==> ids_sound(u) && globals_sound(u) && bodies_sound(target, items, u)
}

proof fn lemma_placed_below(reloc: (u32, usize), sorted: Seq<(u32, usize)>, n: nat)
    requires
        reloc.1 < n,
        below(sorted, n),
    ensures
        below(placed(reloc, sorted), n),
    decreases sorted.len(),
{
    if !(sorted.len() == 0 || reloc.0 <= sorted[0].0) {
        let rest = sorted.skip(1);
        assert(below(rest, n)) by {
            assert forall|i: int| 0 <= i < rest.len() implies (#[trigger] rest[i]).1 < n by {
                assert(rest[i] == sorted[i + 1]);
            }
        }
        lemma_placed_below(reloc, rest, n);
    }
    let all = placed(reloc, sorted);
    assert forall|i: int| 0 <= i < all.len() implies (#[trigger] all[i]).1 < n by {
        if sorted.len() == 0 || reloc.0 <= sorted[0].0 {
            if i > 0 {
                assert(all[i] == sorted[i - 1]);
            }
        } else {
            if i > 0 {
                assert(all[i] == placed(reloc, sorted.skip(1))[i - 1]);
            } else {
                assert(all[0] == sorted[0]);
            }
        }
    }
}

proof fn lemma_sorted_below(relocs: Seq<(u32, usize)>, n: nat)
    requires
        below(relocs, n),
    ensures
        below(by_offset(relocs), n),
    decreases relocs.len(),
{
    if relocs.len() > 0 {
        let rest = relocs.skip(1);
        assert forall|i: int| 0 <= i < rest.len() implies (#[trigger] rest[i]).1 < n by {
            assert(rest[i] == relocs[i + 1]);
        }
        lemma_sorted_below(rest, n);
        assert(relocs[0].1 < n);
        lemma_placed_below(relocs[0], by_offset(rest), n);
    }
}

proof fn lemma_pieces_below(
    bytes: Seq<u8>,
    sorted: Seq<(u32, usize)>,
    pointer_bytes: u32,
    limit: nat,
    n: nat,
)
    requires
        below(sorted, limit),
        n <= sorted.len(),
        pieces_of(bytes, sorted, pointer_bytes, n) is Some,
    ensures
        contents_below(
            ContentsView::Data(InitView::Packed(pieces_of(bytes, sorted, pointer_bytes, n)->0)),
            limit,
        ),
    decreases n,
{
    if n > 0 {
        lemma_pieces_below(bytes, sorted, pointer_bytes, limit, (n - 1) as nat);
        assert(sorted[n - 1].1 < limit);
    }
}

proof fn lemma_contents_below(blob: BlobView, pointer_bytes: u32, limit: nat)
    requires
        below(blob.relocs, limit),
        materialized(blob, pointer_bytes) is Some,
    ensures
        contents_below(ContentsView::Data(materialized(blob, pointer_bytes)->0), limit),
{
    if blob.relocs.len() > 0 {
        let sorted = by_offset(blob.relocs);
        lemma_sorted_below(blob.relocs, limit);
        lemma_pieces_below(blob.bytes, sorted, pointer_bytes, limit, sorted.len());
    }
}

/// Whether a unit has declared things properly, and defined no function.
spec fn declared_properly(u: UnitView) -> bool {
    &&& orderly(u.pool)
    &&& u.pool.len() <= usize::MAX ==> globals_sound(u)
    &&& u.functions.len() <= usize::MAX ==> ids_sound(u)
    &&& u.vtables.len() == 0
    &&& u.bodies.len() == 0
}

proof fn lemma_symbol_found(functions: Seq<SymbolView>, symbol: Seq<char>, from: int)
    ensures
        match symbol_position(functions, symbol, from) {
            Some(index) => 0 <= index < functions.len(),
            None => true,
        },
    decreases functions.len() - from,
{
    if 0 <= from < functions.len() && functions[from].symbol != symbol {
        lemma_symbol_found(functions, symbol, from + 1);
    }
}

proof fn lemma_declared(
    u: UnitView,
    id: HirId,
    symbol: Seq<char>,
    fn_type: ResolvedFunctionType,
)
    requires
        declared_properly(u),
    ensures
        declared_properly(declared(u, id, symbol, fn_type).0),
        0 <= declared(u, id, symbol, fn_type).1 < declared(
            u,
            id,
            symbol,
            fn_type,
        ).0.functions.len(),
{
    reveal(globals_sound);
    reveal(ids_sound);
    lemma_symbol_found(u.functions, symbol, 0);
}

proof fn lemma_owned(target: Target, u: UnitView, function: &MirFunctionDef)
    requires
        declared_properly(u),
    ensures
        declared_properly(owned(target, u, *function)),
{
    let fn_type: &ResolvedFunctionType = &*function.fn_type;
    lemma_declared(u, function.id, function.symbol@, *fn_type);
    reveal(globals_sound);
    reveal(ids_sound);
}

proof fn lemma_all_owned(target: Target, u: UnitView, functions: Seq<MirFunctionDef>, n: nat)
    requires
        declared_properly(u),
    ensures
        declared_properly(all_owned(target, u, functions, n)),
    decreases n,
{
    if n > 0 {
        lemma_all_owned(target, u, functions, (n - 1) as nat);
        lemma_owned(
            target,
            all_owned(target, u, functions, (n - 1) as nat),
            &functions[n - 1],
        );
    }
}

proof fn lemma_functions_declared(u: UnitView, functions: Seq<FunctionView>, n: nat)
    requires
        declared_properly(u),
    ensures
        declared_properly(functions_declared(u, functions, n)),
    decreases n,
{
    if n > 0 {
        lemma_functions_declared(u, functions, (n - 1) as nat);
        let function = functions[n - 1];
        lemma_declared(
            functions_declared(u, functions, (n - 1) as nat),
            function.id,
            function.symbol,
            function.fn_type,
        );
    }
}

proof fn lemma_globals_declared(
    u: UnitView,
    globals: Seq<GlobalView>,
    own: Seq<HirId>,
    pointer_bytes: u32,
    n: nat,
)
    requires
        declared_properly(u),
    ensures
        declared_properly(globals_declared(u, globals, own, pointer_bytes, n)),
    decreases n,
{
    if n > 0 {
        lemma_globals_declared(u, globals, own, pointer_bytes, (n - 1) as nat);
        reveal(globals_sound);
        reveal(ids_sound);
    }
}

proof fn lemma_global_defined(target: Target, u: UnitView, declaration: &MirDeclaration)
    requires
        declared_properly(u),
        global_defined(target, u, *declaration) is Some,
    ensures
        declared_properly(global_defined(target, u, *declaration)->0),
{
    reveal(globals_sound);
    reveal(ids_sound);
    let pb = target.pointer_width();
    match &declaration.initial_value {
        None => {},
        Some(value) => {
            let value: &ConstValue = &**value;
            let start = Writing { pool: u.pool, blob: zeros(size_of(declaration.ty, pb)) };
            law_writing_keeps_the_pool_orderly(*value, &declaration.ty, 0, start, pb);
            let w = written(*value, declaration.ty, 0, start, pb)->0;
            lemma_starts_with_len(w.pool, u.pool);
            if w.pool.len() <= usize::MAX {
                lemma_contents_below(w.blob, pb, w.pool.len());
            }
        },
    }
}

proof fn lemma_items_configured(target: Target, u: UnitView, items: Seq<MirItem>, n: nat)
    requires
        declared_properly(u),
        items_configured(target, u, items, n) is Some,
    ensures
        declared_properly(items_configured(target, u, items, n)->0),
    decreases n,
{
    if n > 0 {
        lemma_items_configured(target, u, items, (n - 1) as nat);
        let before = items_configured(target, u, items, (n - 1) as nat)->0;
        match &items[n - 1] {
            MirItem::Declaration(declaration) => {
                lemma_global_defined(target, before, declaration);
            },
            _ => {
                let functions = defined_functions(items[n - 1]);
                lemma_all_owned(target, before, functions, functions.len());
            },
        }
    }
}

proof fn lemma_known(u: UnitView, ids: Seq<(HirId, usize)>, id: HirId)
    requires
        forall|k: int| 0 <= k < ids.len() ==> (#[trigger] ids[k]).1 < u.functions.len(),
        function_of(ids, id) is Some,
    ensures
        function_of(ids, id)->0 < u.functions.len(),
    decreases ids.len(),
{
    if ids.len() > 0 {
        assert(ids.last().1 < u.functions.len());
        if ids.last().0 != id {
            let rest = ids.drop_last();
            assert forall|k: int| 0 <= k < rest.len() implies (#[trigger] rest[k]).1
                < u.functions.len() by {
                assert(rest[k] == ids[k]);
            }
            lemma_known(u, rest, id);
        }
    }
}

proof fn lemma_found_stays(
    target: Target,
    items: Seq<MirItem>,
    u: UnitView,
    after: UnitView,
    code: CodeView,
)
    requires
        body_found(target, items, u, code),
        after.functions == u.functions,
        after.ids == u.ids,
        after.globals == u.globals,
        u.pool.len() <= after.pool.len(),
        u.vtables.len() <= after.vtables.len(),
    ensures
        body_found(target, items, after, code),
{
    reveal(body_found);
    let function = choose|function: MirFunctionDef|
        defines(items, function) && #[trigger] body_sound(target, u, code, function);
    lemma_room_does_not_matter(
        body_scope(target, u, function),
        LoweringView {
            steps: code.steps,
            slots: code.slots,
            statements: code.statements,
            pool: u.pool,
            vtables: u.vtables,
        },
        LoweringView {
            steps: code.steps,
            slots: code.slots,
            statements: code.statements,
            pool: after.pool,
            vtables: after.vtables,
        },
    );
    assert(body_sound(target, after, code, function));
}

proof fn lemma_found(
    target: Target,
    items: Seq<MirItem>,
    u: UnitView,
    code: CodeView,
    function: MirFunctionDef,
)
    requires
        defines(items, function),
        body_sound(target, u, code, function),
    ensures
        body_found(target, items, u, code),
{
    reveal(body_found);
}

proof fn lemma_bodies_stay(
    target: Target,
    items: Seq<MirItem>,
    u: UnitView,
    after: UnitView,
    code: CodeView,
)
    requires
        bodies_sound(target, items, u),
        body_found(target, items, after, code),
        after.bodies == u.bodies.push(code),
        after.functions == u.functions,
        after.ids == u.ids,
        after.globals == u.globals,
        u.pool.len() <= after.pool.len(),
        u.vtables.len() <= after.vtables.len(),
    ensures
        bodies_sound(target, items, after),
{
    reveal(bodies_sound);
    assert forall|k: int| 0 <= k < after.bodies.len() implies body_found(
        target,
        items,
        after,
        #[trigger] after.bodies[k],
    ) by {
        if k < u.bodies.len() {
            assert(after.bodies[k] == u.bodies[k]);
            lemma_found_stays(target, items, u, after, u.bodies[k]);
        }
    }
}

proof fn lemma_body_lowered(
    target: Target,
    u: UnitView,
    function: &MirFunctionDef,
    homes: Seq<FunctionHomes>,
)
    requires
        orderly(u.pool),
        tabled(u.function_ids(), u.vtables),
        params_of(*function.fn_type, target.pointer_width()).len() <= usize::MAX,
        body_lowered(target, u, *function, homes) is Some,
    ensures
        ({
            let after = body_lowered(target, u, *function, homes)->0;
            &&& orderly(after.pool)
            &&& starts_with(after.pool, u.pool)
            &&& tabled(u.function_ids(), after.vtables)
            &&& u.vtables.len() <= after.vtables.len()
            &&& framed(after.steps, body_scope(target, u, *function).blocks)
            &&& countable(after) ==> sound(body_scope(target, u, *function), after)
        }),
{
    let fn_type: &ResolvedFunctionType = &*function.fn_type;
    match &function.body {
        MirFunctionBody::Normal(body) => {
            law_lowered_functions_are_sound(
                target,
                *fn_type,
                *body,
                homes_of(homes, function.id),
                u.function_ids(),
                u.global_ids(),
                u.pool,
                u.vtables,
            );
        },
        MirFunctionBody::Naked(code) => {
            law_naked_functions_are_sound(
                target,
                *code,
                u.function_ids(),
                u.global_ids(),
                u.pool,
                u.vtables,
            );
        },
    }
}

proof fn lemma_function_defined(
    target: Target,
    items: Seq<MirItem>,
    u: UnitView,
    function: &MirFunctionDef,
    homes: Seq<FunctionHomes>,
)
    requires
        unit_sound(target, items, u),
        passable(target, items),
        defines(items, *function),
        function_defined(target, u, *function, homes) is Some,
    ensures
        unit_sound(target, items, function_defined(target, u, *function, homes)->0),
{
    lemma_body_lowered(target, u, function, homes);
    let lowered = body_lowered(target, u, *function, homes)->0;
    let after = function_defined(target, u, *function, homes)->0;
    lemma_starts_with_len(after.pool, u.pool);
    assert(after.function_ids() == u.function_ids());
    assert(after.global_ids() == u.global_ids());
    if numbered(after) {
        let code = after.bodies.last();
        assert(code.steps == lowered.steps);
        assert(code.slots == lowered.slots);
        assert(code.statements == lowered.statements);
        assert(numbered(u)) by {
            assert forall|k: int| 0 <= k < u.bodies.len() implies (
            #[trigger] u.bodies[k]).steps.len() <= usize::MAX && u.bodies[k].slots.len()
                <= usize::MAX && u.bodies[k].statements.len() <= usize::MAX by {
                assert(after.bodies[k] == u.bodies[k]);
            }
        }
        assert(ids_sound(after) && code.function < u.functions.len()) by {
            reveal(ids_sound);
            lemma_known(u, u.ids, function.id);
        }
        assert(globals_sound(after)) by {
            reveal(globals_sound);
        }
        assert(body_sound(target, after, code, *function));
        lemma_found(target, items, after, code, *function);
        lemma_bodies_stay(target, items, u, after, code);
    }
}

proof fn lemma_functions_defined(
    target: Target,
    items: Seq<MirItem>,
    u: UnitView,
    functions: Seq<MirFunctionDef>,
    homes: Seq<FunctionHomes>,
    n: nat,
)
    requires
        unit_sound(target, items, u),
        passable(target, items),
        n <= functions.len(),
        forall|j: int| 0 <= j < functions.len() ==> defines(items, #[trigger] functions[j]),
        functions_defined(target, u, functions, homes, n) is Some,
    ensures
        unit_sound(target, items, functions_defined(target, u, functions, homes, n)->0),
    decreases n,
{
    if n > 0 {
        lemma_functions_defined(target, items, u, functions, homes, (n - 1) as nat);
        let before = functions_defined(target, u, functions, homes, (n - 1) as nat)->0;
        lemma_function_defined(target, items, before, &functions[n - 1], homes);
    }
}

proof fn lemma_items_defined(
    target: Target,
    u: UnitView,
    items: Seq<MirItem>,
    homes: Seq<FunctionHomes>,
    n: nat,
)
    requires
        unit_sound(target, items, u),
        passable(target, items),
        n <= items.len(),
        items_defined(target, u, items, homes, n) is Some,
    ensures
        unit_sound(target, items, items_defined(target, u, items, homes, n)->0),
    decreases n,
{
    if n > 0 {
        lemma_items_defined(target, u, items, homes, (n - 1) as nat);
        let before = items_defined(target, u, items, homes, (n - 1) as nat)->0;
        let functions = defined_functions(items[n - 1]);
        assert forall|j: int| 0 <= j < functions.len() implies defines(
            items,
            #[trigger] functions[j],
        ) by {
            assert(defined_functions(items[n - 1]).contains(functions[j]));
        }
        lemma_functions_defined(target, items, before, functions, homes, functions.len());
    }
}

/// Everything that a unit holds refers only to what there is: its bodies are
/// those of functions that its items define, each under the symbol its
/// function was given last, and are sound; its tables hold declared
/// functions; and the initial contents of its variables and its constant data
/// hold the addresses of constant data that there is.
pub proof fn law_units_are_sound(
    target: Target,
    functions: Seq<FunctionView>,
    globals: Seq<GlobalView>,
    items: Seq<MirItem>,
    homes: Seq<FunctionHomes>,
)
    requires
        passable(target, items),
        emitted(target, functions, globals, items, homes) is Some,
    ensures
        unit_sound(target, items, emitted(target, functions, globals, items, homes)->0),
{
    let pb = target.pointer_width();
    let empty = UnitView::empty();
    assert(declared_properly(empty)) by {
        reveal(globals_sound);
        reveal(ids_sound);
    }
    lemma_functions_declared(empty, functions, functions.len());
    let named = functions_declared(empty, functions, functions.len());
    lemma_globals_declared(named, globals, declared_ids(items), pb, globals.len());
    let referred = globals_declared(named, globals, declared_ids(items), pb, globals.len());
    lemma_items_configured(target, referred, items, items.len());
    let all = items_configured(target, referred, items, items.len())->0;
    assert(unit_sound(target, items, all)) by {
        reveal(bodies_sound);
        reveal(tabled);
    }
    lemma_items_defined(target, all, items, homes, items.len());
}

/// Whether everything that units hold, each among its own, refers only to what
/// there is.
pub open spec fn units_sound(
    target: Target,
    units: Seq<EmissionUnit>,
    plans: Seq<UnitView>,
) -> bool {
    &&& plans.len() == units.len()
    &&& forall|k: int|
        0 <= k < units.len() && passable(target, units[k].items@) ==> unit_sound(
            target,
            units[k].items@,
            #[trigger] plans[k],
        )
}

proof fn lemma_units_emitted(
    target: Target,
    functions: Seq<FunctionView>,
    globals: Seq<GlobalView>,
    units: Seq<EmissionUnit>,
    homes: Seq<FunctionHomes>,
    n: nat,
)
    requires
        n <= units.len(),
        units_emitted(target, functions, globals, units, homes, n) is Some,
    ensures
        units_sound(
            target,
            units.take(n as int),
            units_emitted(target, functions, globals, units, homes, n)->0,
        ),
    decreases n,
{
    if n > 0 {
        lemma_units_emitted(target, functions, globals, units, homes, (n - 1) as nat);
        let before = units_emitted(target, functions, globals, units, homes, (n - 1) as nat)->0;
        let plans = units_emitted(target, functions, globals, units, homes, n)->0;
        let fewer = units.take(n - 1);
        let some = units.take(n as int);
        assert forall|k: int| 0 <= k < n && passable(target, some[k].items@) implies unit_sound(
            target,
            some[k].items@,
            #[trigger] plans[k],
        ) by {
            if k < n - 1 {
                assert(some[k] == fewer[k]);
                assert(plans[k] == before[k]);
            } else {
                law_units_are_sound(target, functions, globals, some[k].items@, homes);
            }
        }
    }
}

/// Everything that the units of a compilation hold refers only to what there
/// is.
pub proof fn law_compilations_are_sound(
    target: Target,
    units: Seq<EmissionUnit>,
    extern_functions: Seq<ExternFunctionRef>,
    homes: Seq<FunctionHomes>,
)
    requires
        generated(target, units, extern_functions, homes) is Ok,
    ensures
        units_sound(target, units, generated(target, units, extern_functions, homes)->Ok_0),
{
    match units_added(CatalogView::empty(), units) {
        Ok(catalog) => {
            assert(units.take(units.len() as int) =~= units);
            lemma_units_emitted(
                target,
                catalog.functions + reference_views(extern_functions),
                catalog.globals,
                units,
                homes,
                units.len(),
            );
        },
        Err(_) => {},
    }
}

} // verus!
