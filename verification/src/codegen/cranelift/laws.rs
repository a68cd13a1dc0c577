//! That every function a compilation lowers, and every piece of data it lays
//! out, refers only to what there is.

use crate::codegen::abi::{param_leaves, returns_indirectly};
use crate::codegen::constants::{written, zeros, ObjectView, Writing};
use crate::codegen::cranelift::{stored, Lowered, LoweringView, Op, Storage};
use crate::codegen::cranelift::expr::{expr_lowered, first_of, passed};
use crate::codegen::cranelift::function::{
    block_lowered, blocks_lowered, frame_of, frame_slot_of, function_lowered, params_entered,
    signature_params, statements_lowered, terminated, SignatureParam,
};
use crate::codegen::cranelift::item::{
    compiled, function_defined, functions_declared, functions_defined, global_declared, imported,
    items_declared, items_defined, units_declared, units_defined, CodeView, ModuleView,
};
use crate::codegen::cranelift::sound_code::{lemma_expr, lemma_passed, lemma_ready, ready};
use crate::codegen::cranelift::soundness::{
    all_given, countable, ends, follows, given, grows, has, kept, lemma_count, lemma_grows,
    lemma_grows_then, lemma_has, lemma_push, lemma_rooted, lemma_same, lemma_slots_do_not_matter,
    lemma_step, lemma_stored, lemma_then, ok, plain, shaped, sound, usable, within_block, Scope,
};
use crate::codegen::fits::defined_functions;
use crate::codegen::frame::{args_width, at_most};
use crate::codegen::mir::{
    EmissionUnit, ExternFunctionRef, MirBlock, MirBody, MirDeclaration, MirExprNode, MirFunctionDef,
    MirItem, MirTerminator,
};
use crate::codegen::pool_laws::{
    below, law_writing_keeps_the_pool_orderly, lemma_starts_with_len, orderly, starts_with,
};
use crate::codegen::shared::{tabled, Vtable};
use crate::hir::HirId;
use crate::layout::size_of;
use crate::resolved_type::{ConstValue, ResolvedFunctionType, ResolvedType};
use crate::target::Target;
use vstd::prelude::*;

verus! {

/// Whether the address an indirect result goes to is a parameter.
pub open spec fn addressable(s: LoweringView, sret: Option<usize>) -> bool {
    match sret {
        Some(base) => given(s, base),
        None => true,
    }
}

/// Whether a step of lowering keeps a function sound and ends a block.
pub open spec fn ended(c: Scope, before: LoweringView, after: LoweringView) -> bool {
    &&& ok(c, after)
    &&& grows(before, after)
    &&& before.steps.len() < after.steps.len()
    &&& within_block(after.steps, before.steps.len() as int, after.steps.len() - 1)
    &&& ends(after.steps.last().op)
}

proof fn lemma_ended(c: Scope, s: LoweringView, mid: LoweringView, op: Op)
    requires
        kept(c, s, mid),
        ends(op),
        countable(mid.push(op, None)) ==> usable(c, mid, op),
    ensures
        ended(c, s, mid.push(op, None)),
{
    lemma_step(c, mid, op, None);
    lemma_grows(s, mid);
    lemma_grows_then(s, mid, mid.push(op, None));
    reveal(follows);
    reveal(grows);
}

proof fn lemma_terminated(
    c: Scope,
    terminator: &MirTerminator,
    sret: Option<usize>,
    s: LoweringView,
)
    requires
        ready(c, s),
        countable(s) ==> addressable(s, sret),
        terminated(c.frame, *terminator, c.blocks, sret, s) is Some,
    ensures
        ended(c, s, terminated(c.frame, *terminator, c.blocks, sret, s)->0),
{
    match terminator {
        MirTerminator::Goto(target) => {
            lemma_same(c, s);
            lemma_ended(c, s, s, Op::Jump(target.0 as usize));
        },
        MirTerminator::Branch { condition, then_block, else_block } => {
            lemma_expr(c, condition, s);
            let lowered = expr_lowered(c.frame, *condition, s);
            let found = first_of(lowered)->0;
            lemma_count(s, found.state);
            if countable(found.state) {
                assert(has(found.state, (lowered->0).values[0]));
            }
            let op = Op::Brif {
                condition: found.values[0],
                then_block: then_block.0 as usize,
                else_block: else_block.0 as usize,
            };
            lemma_ended(c, s, found.state, op);
        },
        MirTerminator::Return(value) => {
            let found = match value {
                Some(expr) => expr_lowered(c.frame, *expr, s)->0,
                None => Lowered { state: s, values: Seq::empty() },
            };
            match value {
                Some(expr) => {
                    lemma_expr(c, expr, s);
                },
                None => {
                    lemma_same(c, s);
                },
            }
            lemma_count(s, found.state);
            match sret {
                Some(base) => {
                    let storage = Storage::Address { base, offset: 0 };
                    if countable(found.state) {
                        lemma_has(s, found.state, base);
                    }
                    lemma_stored(c, found.state, storage, found.values, found.values.len());
                    let after = stored(
                        found.state,
                        storage,
                        found.values,
                        found.values.len(),
                    )->0;
                    lemma_then(s, found.state, after);
                    lemma_ended(c, s, after, Op::Return { count: 0 });
                },
                None => {
                    lemma_passed(c, found.state, found.values, found.values.len());
                    let after = passed(found.state, found.values, found.values.len());
                    lemma_then(s, found.state, after);
                    let op = Op::Return { count: found.values.len() as usize };
                    lemma_ended(c, s, after, op);
                },
            }
        },
        MirTerminator::Unreachable => {
            lemma_same(c, s);
            lemma_ended(c, s, s, Op::Trap);
        },
    }
}

proof fn lemma_statements(c: Scope, statements: Seq<MirExprNode>, s: LoweringView, n: nat)
    requires
        ready(c, s),
        statements_lowered(c.frame, statements, s, n) is Some,
    ensures
        kept(c, s, statements_lowered(c.frame, statements, s, n)->0),
    decreases n,
{
    if n == 0 {
        lemma_same(c, s);
    } else {
        lemma_statements(c, statements, s, (n - 1) as nat);
        let before = statements_lowered(c.frame, statements, s, (n - 1) as nat)->0;
        lemma_ready(c, s, before);
        lemma_expr(c, &statements[n - 1], before);
        lemma_then(s, before, expr_lowered(c.frame, statements[n - 1], before)->0.state);
    }
}

/// What surrounds a function stays where the function only gains something.
proof fn lemma_stays(c: Scope, s: LoweringView, a: LoweringView, sret: Option<usize>)
    requires
        ready(c, s),
        countable(s) ==> addressable(s, sret),
        ok(c, a),
        grows(s, a),
    ensures
        ready(c, a),
        countable(a) ==> addressable(a, sret),
{
    reveal(grows);
    lemma_starts_with_len(a.pool, s.pool);
    if countable(a) {
        lemma_rooted(c, s, a);
    }
}

proof fn lemma_block(
    c: Scope,
    block: &MirBlock,
    index: nat,
    sret: Option<usize>,
    s: LoweringView,
)
    requires
        ready(c, s),
        countable(s) ==> addressable(s, sret),
        index < c.blocks <= usize::MAX,
        block_lowered(c.frame, *block, index, c.blocks, sret, s) is Some,
    ensures
        ok(c, block_lowered(c.frame, *block, index, c.blocks, sret, s)->0),
        grows(s, block_lowered(c.frame, *block, index, c.blocks, sret, s)->0),
        ({
            let steps = block_lowered(c.frame, *block, index, c.blocks, sret, s)->0.steps;
            let start = s.steps.len() as int;
            &&& start < steps.len() - 1
            &&& steps[start].op == Op::Enter(index as usize)
            &&& within_block(steps, start + 1, steps.len() - 1)
            &&& ends(steps.last().op)
        }),
{
    let entered = s.push(Op::Enter(index as usize), None);
    lemma_step(c, s, Op::Enter(index as usize), None);
    lemma_stays(c, s, entered, sret);
    lemma_statements(c, block.statements@, entered, block.statements@.len());
    let after = statements_lowered(
        c.frame,
        block.statements@,
        entered,
        block.statements@.len(),
    )->0;
    lemma_grows(entered, after);
    lemma_stays(c, entered, after, sret);
    lemma_terminated(c, &block.terminator, sret, after);
    let done = terminated(c.frame, block.terminator, c.blocks, sret, after)->0;
    lemma_grows_then(s, entered, after);
    lemma_grows_then(s, after, done);
    reveal(grows);
    reveal(follows);
    assert forall|k: int| s.steps.len() < k < done.steps.len() - 1 implies plain(
        (#[trigger] done.steps[k]).op,
    ) by {
        if k < after.steps.len() {
            assert(done.steps[k] == after.steps[k]);
        }
    }
    assert(done.steps[s.steps.len() as int] == after.steps[s.steps.len() as int]);
    assert(after.steps[s.steps.len() as int] == entered.steps[s.steps.len() as int]);
}

proof fn lemma_blocks(
    c: Scope,
    blocks: Seq<MirBlock>,
    sret: Option<usize>,
    s: LoweringView,
    n: nat,
)
    requires
        ready(c, s),
        countable(s) ==> addressable(s, sret),
        n <= blocks.len() == c.blocks <= usize::MAX,
        blocks_lowered(c.frame, blocks, sret, s, n) is Some,
    ensures
        ok(c, blocks_lowered(c.frame, blocks, sret, s, n)->0),
        grows(s, blocks_lowered(c.frame, blocks, sret, s, n)->0),
        shaped(blocks_lowered(c.frame, blocks, sret, s, n)->0.steps, s.steps.len() as int, n),
    decreases n,
{
    if n == 0 {
        lemma_same(c, s);
        lemma_grows(s, s);
    } else {
        lemma_blocks(c, blocks, sret, s, (n - 1) as nat);
        let before = blocks_lowered(c.frame, blocks, sret, s, (n - 1) as nat)->0;
        lemma_stays(c, s, before, sret);
        lemma_block(c, &blocks[n - 1], (n - 1) as nat, sret, before);
        let done = block_lowered(c.frame, blocks[n - 1], (n - 1) as nat, c.blocks, sret, before)->0;
        lemma_grows_then(s, before, done);
        assert(done.steps.take(before.steps.len() as int) =~= before.steps) by {
            reveal(grows);
        }
        assert(s.steps.len() <= before.steps.len()) by {
            reveal(grows);
        }
        assert(done.steps[before.steps.len() as int].op == Op::Enter((n - 1) as usize));
    }
}

proof fn lemma_params(c: Scope, s: LoweringView, params: Seq<SignatureParam>, n: nat)
    requires
        ok(c, s),
        s.steps.len() == 0,
        n <= params.len() == c.params,
    ensures
        kept(c, s, params_entered(s, params, n)),
        params_entered(s, params, n).steps.len() == n,
        forall|k: int|
            0 <= k < n ==> (#[trigger] params_entered(s, params, n).steps[k]).ty is Some
                && params_entered(s, params, n).steps[k].op is Param,
    decreases n,
{
    if n == 0 {
        lemma_same(c, s);
    } else {
        lemma_params(c, s, params, (n - 1) as nat);
        let before = params_entered(s, params, (n - 1) as nat);
        let op = Op::Param((n - 1) as usize);
        lemma_push(c, before, op, Some(params[n - 1].ty));
        lemma_then(s, before, before.push(op, Some(params[n - 1].ty)));
    }
}

/// What a function can refer to besides what it defines.
pub open spec fn scope_of(
    target: Target,
    fn_type: ResolvedFunctionType,
    body: MirBody,
    functions: Seq<HirId>,
    globals: Seq<HirId>,
) -> Scope {
    Scope {
        frame: frame_of(target, fn_type, body, functions, globals),
        params: signature_params(fn_type, target.pointer_width()).len(),
        blocks: body.blocks@.len(),
    }
}

/// A function of which nothing has been lowered yet.
spec fn started(
    target: Target,
    body: MirBody,
    pool: Seq<ObjectView>,
    vtables: Seq<Vtable>,
) -> LoweringView {
    LoweringView {
        steps: Seq::empty(),
        slots: seq![frame_slot_of(body, target.pointer_width())],
        pool,
        vtables,
    }
}

proof fn lemma_entered(
    target: Target,
    fn_type: ResolvedFunctionType,
    body: MirBody,
    functions: Seq<HirId>,
    globals: Seq<HirId>,
    pool: Seq<ObjectView>,
    vtables: Seq<Vtable>,
)
    requires
        orderly(pool),
        tabled(functions, vtables),
    ensures
        ({
            let pb = target.pointer_width();
            let c = scope_of(target, fn_type, body, functions, globals);
            let params = signature_params(fn_type, pb);
            let start = started(target, body, pool, vtables);
            let entered = params_entered(start, params, params.len());
            &&& ready(c, entered)
            &&& grows(start, entered)
            &&& entered.steps.len() == params.len()
            &&& countable(entered) && returns_indirectly(*fn_type.return_type, pb) ==> given(
                entered,
                0,
            )
        }),
{
    let pb = target.pointer_width();
    let ret: &ResolvedType = &*fn_type.return_type;
    let c = scope_of(target, fn_type, body, functions, globals);
    let params = signature_params(fn_type, pb);
    let start = started(target, body, pool, vtables);
    let hidden: nat = if returns_indirectly(*ret, pb) {
        1
    } else {
        0
    };
    let declared = param_leaves(fn_type.params@, pb).len();
    assert(ok(c, start)) by {
        reveal(sound);
    }
    lemma_params(c, start, params, params.len());
    let entered = params_entered(start, params, params.len());
    lemma_grows(start, entered);
    assert(params.len() == hidden + declared);
    if countable(entered) {
        assert(entered.slots.len() >= 1) by {
            reveal(grows);
        }
        assert forall|i: int| 0 <= i < c.frame.local_args.len() implies all_given(
            entered,
            #[trigger] c.frame.local_args[i],
        ) by {
            let run = c.frame.local_args[i];
            assert forall|k: int| 0 <= k < run.len() implies given(entered, #[trigger] run[k]) by {
                assert(i < body.arg_count);
                let from = at_most(args_width(body.locals@, pb, i as nat), declared);
                assert(run[k] == (hidden + from + k) as usize);
                assert(hidden + from + k < params.len());
                assert(entered.steps[hidden + from + k].ty is Some);
            }
        }
        if hidden == 1 {
            assert(entered.steps[0].ty is Some);
        }
    }
}

/// Every function that is lowered is sound: each of its instructions uses
/// only parameters and values that earlier instructions of the same block
/// defined, and only slots, constant data, tables, declared functions and
/// variables, parameters and blocks that there are. Behind the parameters its
/// blocks come in order, each entered once and ended by its last instruction
/// only. Constant data stays orderly, tables hold declared functions only, and
/// the data and the tables that were there stay.
pub proof fn law_lowered_functions_are_sound(
    target: Target,
    fn_type: ResolvedFunctionType,
    body: MirBody,
    functions: Seq<HirId>,
    globals: Seq<HirId>,
    pool: Seq<ObjectView>,
    vtables: Seq<Vtable>,
)
    requires
        orderly(pool),
        tabled(functions, vtables),
        function_lowered(target, fn_type, body, functions, globals, pool, vtables) is Some,
    ensures
        ({
            let after = function_lowered(
                target,
                fn_type,
                body,
                functions,
                globals,
                pool,
                vtables,
            )->0;
            &&& orderly(after.pool)
            &&& starts_with(after.pool, pool)
            &&& tabled(functions, after.vtables)
            &&& vtables.len() <= after.vtables.len()
            &&& shaped(
                after.steps,
                signature_params(fn_type, target.pointer_width()).len() as int,
                body.blocks@.len(),
            )
            &&& countable(after) ==> sound(
                scope_of(target, fn_type, body, functions, globals),
                after,
            )
        }),
{
    let pb = target.pointer_width();
    let ret: &ResolvedType = &*fn_type.return_type;
    let c = scope_of(target, fn_type, body, functions, globals);
    let params = signature_params(fn_type, pb);
    let start = started(target, body, pool, vtables);
    let sret = if returns_indirectly(*ret, pb) {
        Some(0usize)
    } else {
        None
    };
    lemma_entered(target, fn_type, body, functions, globals, pool, vtables);
    let entered = params_entered(start, params, params.len());
    assert(body.blocks@.len() == body.blocks.len());
    lemma_blocks(c, body.blocks@, sret, entered, body.blocks@.len());
    let after = blocks_lowered(c.frame, body.blocks@, sret, entered, body.blocks@.len())->0;
    lemma_grows_then(start, entered, after);
    reveal(grows);
}

/// Whether a machine can number what a compilation holds.
pub open spec fn numbered(m: ModuleView) -> bool {
    &&& m.pool.len() <= usize::MAX
    &&& m.vtables.len() <= usize::MAX
    &&& forall|k: int|
        0 <= k < m.bodies.len() ==> (#[trigger] m.bodies[k]).steps.len() <= usize::MAX
            && m.bodies[k].slots.len() <= usize::MAX
}

/// Whether a unit defines a function.
pub open spec fn defines(units: Seq<EmissionUnit>, function: MirFunctionDef) -> bool {
    exists|u: int, i: int|
        0 <= u < units.len() && 0 <= i < units[u].items@.len() && defined_functions(
            #[trigger] units[u].items@[i],
        ).contains(function)
}

/// Whether a body is a function's, has its blocks, and is sound among what a
/// compilation holds.
pub open spec fn body_sound(
    target: Target,
    m: ModuleView,
    code: CodeView,
    function: MirFunctionDef,
) -> bool {
    &&& code.id == function.id
    &&& function.body is Normal
    &&& shaped(
        code.steps,
        signature_params(*function.fn_type, target.pointer_width()).len() as int,
        function.body->Normal_0.blocks@.len(),
    )
    &&& sound(
        scope_of(
            target,
            *function.fn_type,
            function.body->Normal_0,
            m.function_ids(),
            m.global_ids(),
        ),
        LoweringView { steps: code.steps, slots: code.slots, pool: m.pool, vtables: m.vtables },
    )
}

/// Whether a body is that of a function that some unit defines, and sound.
#[verifier::opaque]
pub open spec fn body_found(
    target: Target,
    units: Seq<EmissionUnit>,
    m: ModuleView,
    code: CodeView,
) -> bool {
    exists|function: MirFunctionDef|
        defines(units, function) && #[trigger] body_sound(target, m, code, function)
}

/// Whether each body is that of a function that some unit defines, and sound.
#[verifier::opaque]
pub open spec fn bodies_sound(target: Target, units: Seq<EmissionUnit>, m: ModuleView) -> bool {
    forall|k: int|
        0 <= k < m.bodies.len() ==> body_found(target, units, m, #[trigger] m.bodies[k])
}

/// Whether the initial contents of each variable hold addresses of constant
/// data that there is.
#[verifier::opaque]
pub open spec fn globals_sound(m: ModuleView) -> bool {
    forall|k: int|
        0 <= k < m.globals.len() ==> match (#[trigger] m.globals[k]).blob {
            Some(blob) => below(blob.relocs, m.pool.len()),
            None => true,
        }
}

/// Whether everything that a compilation holds refers only to what there is.
pub open spec fn module_sound(target: Target, units: Seq<EmissionUnit>, m: ModuleView) -> bool {
    &&& orderly(m.pool)
    &&& tabled(m.function_ids(), m.vtables)
    &&& numbered(m) ==> globals_sound(m) && bodies_sound(target, units, m)
}

/// Whether a compilation has declared things properly, and defined nothing.
spec fn declared_properly(m: ModuleView) -> bool {
    &&& orderly(m.pool)
    &&& m.pool.len() <= usize::MAX ==> globals_sound(m)
    &&& m.vtables.len() == 0
    &&& m.bodies.len() == 0
}

proof fn lemma_functions_declared(m: ModuleView, functions: Seq<MirFunctionDef>, n: nat)
    requires
        declared_properly(m),
        functions_declared(m, functions, n) is Ok,
    ensures
        declared_properly(functions_declared(m, functions, n)->Ok_0),
    decreases n,
{
    if n > 0 {
        lemma_functions_declared(m, functions, (n - 1) as nat);
        reveal(globals_sound);
    }
}

proof fn lemma_global_declared(m: ModuleView, declaration: MirDeclaration, pointer_bytes: u32)
    requires
        declared_properly(m),
        global_declared(m, declaration, pointer_bytes) is Ok,
    ensures
        declared_properly(global_declared(m, declaration, pointer_bytes)->Ok_0),
{
    reveal(globals_sound);
    match &declaration.initial_value {
        None => {},
        Some(value) => {
            let value: &ConstValue = &**value;
            let total = size_of(declaration.ty, pointer_bytes);
            let start = Writing { pool: m.pool, blob: zeros(total) };
            law_writing_keeps_the_pool_orderly(
                *value,
                &declaration.ty,
                0,
                start,
                pointer_bytes,
            );
            let w = written(*value, declaration.ty, 0, start, pointer_bytes)->0;
            lemma_starts_with_len(w.pool, m.pool);
        },
    }
}

proof fn lemma_items_declared(m: ModuleView, items: Seq<MirItem>, pointer_bytes: u32, n: nat)
    requires
        declared_properly(m),
        items_declared(m, items, pointer_bytes, n) is Ok,
    ensures
        declared_properly(items_declared(m, items, pointer_bytes, n)->Ok_0),
    decreases n,
{
    if n > 0 {
        lemma_items_declared(m, items, pointer_bytes, (n - 1) as nat);
        let before = items_declared(m, items, pointer_bytes, (n - 1) as nat)->Ok_0;
        let item = items[n - 1];
        match item {
            MirItem::Declaration(declaration) => {
                lemma_global_declared(before, declaration, pointer_bytes);
            },
            MirItem::ForeignBinding(_) => {
                reveal(globals_sound);
            },
            _ => {
                lemma_functions_declared(
                    before,
                    defined_functions(item),
                    defined_functions(item).len(),
                );
            },
        }
    }
}

proof fn lemma_units_declared(m: ModuleView, units: Seq<EmissionUnit>, pointer_bytes: u32, n: nat)
    requires
        declared_properly(m),
        units_declared(m, units, pointer_bytes, n) is Ok,
    ensures
        declared_properly(units_declared(m, units, pointer_bytes, n)->Ok_0),
    decreases n,
{
    if n > 0 {
        lemma_units_declared(m, units, pointer_bytes, (n - 1) as nat);
        let before = units_declared(m, units, pointer_bytes, (n - 1) as nat)->Ok_0;
        lemma_items_declared(
            before,
            units[n - 1].items@,
            pointer_bytes,
            units[n - 1].items@.len(),
        );
    }
}

proof fn lemma_imported(m: ModuleView, functions: Seq<ExternFunctionRef>, n: nat)
    requires
        declared_properly(m),
    ensures
        declared_properly(imported(m, functions, n)),
    decreases n,
{
    if n > 0 {
        lemma_imported(m, functions, (n - 1) as nat);
        reveal(globals_sound);
    }
}

proof fn lemma_body_stays(
    target: Target,
    m: ModuleView,
    after: ModuleView,
    code: CodeView,
    function: MirFunctionDef,
)
    requires
        body_sound(target, m, code, function),
        after.functions == m.functions,
        after.globals == m.globals,
        m.pool.len() <= after.pool.len(),
        m.vtables.len() <= after.vtables.len(),
    ensures
        body_sound(target, after, code, function),
{
    let fn_type: &ResolvedFunctionType = &*function.fn_type;
    lemma_slots_do_not_matter(
        scope_of(
            target,
            *fn_type,
            function.body->Normal_0,
            m.function_ids(),
            m.global_ids(),
        ),
        LoweringView { steps: code.steps, slots: code.slots, pool: m.pool, vtables: m.vtables },
        LoweringView {
            steps: code.steps,
            slots: code.slots,
            pool: after.pool,
            vtables: after.vtables,
        },
    );
}

proof fn lemma_found_stays(
    target: Target,
    units: Seq<EmissionUnit>,
    m: ModuleView,
    after: ModuleView,
    code: CodeView,
)
    requires
        body_found(target, units, m, code),
        after.functions == m.functions,
        after.globals == m.globals,
        m.pool.len() <= after.pool.len(),
        m.vtables.len() <= after.vtables.len(),
    ensures
        body_found(target, units, after, code),
{
    reveal(body_found);
    let function = choose|function: MirFunctionDef|
        defines(units, function) && #[trigger] body_sound(target, m, code, function);
    lemma_body_stays(target, m, after, code, function);
}

proof fn lemma_found(
    target: Target,
    units: Seq<EmissionUnit>,
    m: ModuleView,
    code: CodeView,
    function: MirFunctionDef,
)
    requires
        defines(units, function),
        body_sound(target, m, code, function),
    ensures
        body_found(target, units, m, code),
{
    reveal(body_found);
}

proof fn lemma_function_defined(
    target: Target,
    units: Seq<EmissionUnit>,
    m: ModuleView,
    function: MirFunctionDef,
)
    requires
        module_sound(target, units, m),
        defines(units, function),
        function_defined(target, m, function) is Ok,
    ensures
        module_sound(target, units, function_defined(target, m, function)->Ok_0),
{
    let fn_type: &ResolvedFunctionType = &*function.fn_type;
    let body = function.body->Normal_0;
    let functions = m.function_ids();
    let globals = m.global_ids();
    law_lowered_functions_are_sound(
        target,
        *fn_type,
        body,
        functions,
        globals,
        m.pool,
        m.vtables,
    );
    let lowered = function_lowered(
        target,
        *fn_type,
        body,
        functions,
        globals,
        m.pool,
        m.vtables,
    )->0;
    let after = function_defined(target, m, function)->Ok_0;
    lemma_starts_with_len(after.pool, m.pool);
    assert(after.function_ids() == functions);
    assert(after.global_ids() == globals);
    if numbered(after) {
        let code = after.bodies.last();
        assert(code.steps == lowered.steps);
        assert(code.slots == lowered.slots);
        assert(numbered(m)) by {
            assert forall|k: int| 0 <= k < m.bodies.len() implies (
            #[trigger] m.bodies[k]).steps.len() <= usize::MAX && m.bodies[k].slots.len()
                <= usize::MAX by {
                assert(after.bodies[k] == m.bodies[k]);
            }
        }
        assert(globals_sound(after)) by {
            reveal(globals_sound);
        }
        assert(body_sound(target, after, code, function));
        lemma_found(target, units, after, code, function);
        lemma_bodies_stay(target, units, m, after, code);
    }
}

proof fn lemma_bodies_stay(
    target: Target,
    units: Seq<EmissionUnit>,
    m: ModuleView,
    after: ModuleView,
    code: CodeView,
)
    requires
        bodies_sound(target, units, m),
        body_found(target, units, after, code),
        after.bodies == m.bodies.push(code),
        after.functions == m.functions,
        after.globals == m.globals,
        m.pool.len() <= after.pool.len(),
        m.vtables.len() <= after.vtables.len(),
    ensures
        bodies_sound(target, units, after),
{
    reveal(bodies_sound);
    assert forall|k: int| 0 <= k < after.bodies.len() implies body_found(
        target,
        units,
        after,
        #[trigger] after.bodies[k],
    ) by {
        if k < m.bodies.len() {
            assert(after.bodies[k] == m.bodies[k]);
            lemma_found_stays(target, units, m, after, m.bodies[k]);
        }
    }
}

proof fn lemma_functions_defined(
    target: Target,
    units: Seq<EmissionUnit>,
    m: ModuleView,
    functions: Seq<MirFunctionDef>,
    n: nat,
)
    requires
        module_sound(target, units, m),
        n <= functions.len(),
        forall|j: int| 0 <= j < functions.len() ==> defines(units, #[trigger] functions[j]),
        functions_defined(target, m, functions, n) is Ok,
    ensures
        module_sound(target, units, functions_defined(target, m, functions, n)->Ok_0),
    decreases n,
{
    if n > 0 {
        lemma_functions_defined(target, units, m, functions, (n - 1) as nat);
        let before = functions_defined(target, m, functions, (n - 1) as nat)->Ok_0;
        lemma_function_defined(target, units, before, functions[n - 1]);
    }
}

proof fn lemma_items_defined(
    target: Target,
    units: Seq<EmissionUnit>,
    m: ModuleView,
    u: int,
    n: nat,
)
    requires
        module_sound(target, units, m),
        0 <= u < units.len(),
        n <= units[u].items@.len(),
        items_defined(target, m, units[u].items@, n) is Ok,
    ensures
        module_sound(target, units, items_defined(target, m, units[u].items@, n)->Ok_0),
    decreases n,
{
    if n > 0 {
        lemma_items_defined(target, units, m, u, (n - 1) as nat);
        let items = units[u].items@;
        let before = items_defined(target, m, items, (n - 1) as nat)->Ok_0;
        let functions = defined_functions(items[n - 1]);
        assert forall|j: int| 0 <= j < functions.len() implies defines(
            units,
            #[trigger] functions[j],
        ) by {
            assert(defined_functions(units[u].items@[n - 1]).contains(functions[j]));
        }
        lemma_functions_defined(target, units, before, functions, functions.len());
    }
}

proof fn lemma_units_defined(target: Target, units: Seq<EmissionUnit>, m: ModuleView, n: nat)
    requires
        module_sound(target, units, m),
        n <= units.len(),
        units_defined(target, m, units, n) is Ok,
    ensures
        module_sound(target, units, units_defined(target, m, units, n)->Ok_0),
    decreases n,
{
    if n > 0 {
        lemma_units_defined(target, units, m, (n - 1) as nat);
        let before = units_defined(target, m, units, (n - 1) as nat)->Ok_0;
        lemma_items_defined(target, units, before, n - 1, units[n - 1].items@.len());
    }
}

/// Everything that a compilation holds refers only to what there is: its
/// bodies are those of functions that its units define, and are sound; its
/// tables hold declared functions; and the initial contents of its variables
/// and its constant data hold the addresses of constant data that there is.
pub proof fn law_compilations_are_sound(
    target: Target,
    units: Seq<EmissionUnit>,
    functions: Seq<ExternFunctionRef>,
)
    requires
        compiled(target, units, functions) is Ok,
    ensures
        module_sound(target, units, compiled(target, units, functions)->Ok_0),
{
    let empty = ModuleView::empty();
    let pb = target.pointer_width();
    assert(declared_properly(empty)) by {
        reveal(globals_sound);
    }
    lemma_units_declared(empty, units, pb, units.len());
    let declared = units_declared(empty, units, pb, units.len())->Ok_0;
    lemma_imported(declared, functions, functions.len());
    let all = imported(declared, functions, functions.len());
    assert(module_sound(target, units, all)) by {
        reveal(bodies_sound);
        reveal(tabled);
    }
    lemma_units_defined(target, units, all, units.len());
}

} // verus!
