//! Where the parameters and the other locals of a function are.

use crate::codegen::fits::node_fits;
use crate::codegen::mir::{MirBlock, MirBody, MirLocal, MirTerminator};
use crate::hir::HirId;
use crate::layout::{
    leaves_of, leaves_spec, measurable, plan_end, plan_offset, type_alignment, type_parts,
    types_align, FieldLayout,
};
use crate::resolved_type::ResolvedType;
use vstd::prelude::*;

verus! {

/// The types of the locals that are no parameters.
pub open spec fn frame_types(body: MirBody) -> Seq<ResolvedType> {
    Seq::new(
        (body.locals@.len() - body.arg_count) as nat,
        |i: int| body.locals@[body.arg_count + i].ty,
    )
}

/// Whether everything a body mentions can be laid out, and its locals fit in
/// one frame.
pub open spec fn body_fits(body: MirBody, pointer_bytes: u32) -> bool {
    &&& forall|i: int|
        0 <= i < body.locals@.len() ==> measurable(#[trigger] body.locals@[i].ty, pointer_bytes)
    &&& body.arg_count <= body.locals@.len() ==> plan_end(
        type_parts(frame_types(body), pointer_bytes),
        1,
        pointer_bytes,
    ) <= u32::MAX
    &&& forall|i: int|
        0 <= i < body.blocks@.len() ==> block_fits(#[trigger] body.blocks@[i], pointer_bytes)
}

/// [`body_fits`] for one block.
pub open spec fn block_fits(block: MirBlock, pointer_bytes: u32) -> bool {
    &&& forall|i: int|
        0 <= i < block.statements@.len() ==> node_fits(
            #[trigger] block.statements@[i],
            pointer_bytes,
        )
    &&& match block.terminator {
        MirTerminator::Branch { condition, .. } => node_fits(condition, pointer_bytes),
        MirTerminator::Return(Some(value)) => node_fits(value, pointer_bytes),
        _ => true,
    }
}

/// Where each local lies in the frame's slot.
pub open spec fn frame_offsets(body: MirBody, pointer_bytes: u32) -> Seq<u32> {
    Seq::new(
        body.locals@.len(),
        |i: int|
            if i < body.arg_count {
                0
            } else {
                plan_offset(
                    type_parts(frame_types(body), pointer_bytes),
                    i - body.arg_count,
                    1,
                    pointer_bytes,
                ) as u32
            },
    )
}

/// How many values the first `n` parameters take.
pub open spec fn args_width(locals: Seq<MirLocal>, pointer_bytes: u32, n: nat) -> nat
    decreases n,
{
    if n == 0 {
        0
    } else {
        args_width(locals, pointer_bytes, (n - 1) as nat) + leaves_spec(
            locals[n - 1].ty,
            pointer_bytes,
        ).len()
    }
}

/// The smaller of two counts.
pub open spec fn at_most(n: nat, limit: nat) -> nat {
    if n < limit {
        n
    } else {
        limit
    }
}

/// The positions from `start` on that a run of parameters has, `hidden`
/// positions coming before all of them.
pub open spec fn value_run(hidden: nat, start: nat, end: nat) -> Seq<usize> {
    Seq::new(
        (end - start) as nat,
        |k: int| (hidden + start + k) as usize,
    )
}

/// The positions of each local's leaves among the values a function takes,
/// where the local is a parameter.
pub open spec fn args_of(body: MirBody, hidden: nat, declared: nat, pointer_bytes: u32) -> Seq<
    Seq<usize>,
> {
    Seq::new(
        body.locals@.len(),
        |i: int|
            if i < body.arg_count {
                value_run(
                    hidden,
                    at_most(args_width(body.locals@, pointer_bytes, i as nat), declared),
                    at_most(args_width(body.locals@, pointer_bytes, (i + 1) as nat), declared),
                )
            } else {
                Seq::empty()
            },
    )
}

pub fn types_of_frame(body: &MirBody) -> (types: Vec<ResolvedType>)
    requires
        body.arg_count <= body.locals@.len(),
    ensures
        types@ == frame_types(*body),
{
    let mut types: Vec<ResolvedType> = Vec::new();
    let mut i: usize = body.arg_count;
    while i < body.locals.len()
        invariant
            body.arg_count <= i <= body.locals@.len(),
            types@ =~= frame_types(*body).take(i - body.arg_count),
        decreases body.locals.len() - i,
    {
        types.push(body.locals[i].ty.clone());
        i = i + 1;
    }
    assert(types@ =~= frame_types(*body));
    types
}

/// The strictest alignment of some types.
pub fn strictest(types: &Vec<ResolvedType>) -> (align: u32)
    ensures
        align == types_align(types@),
{
    let mut align: u32 = 1;
    let mut i: usize = 0;
    while i < types.len()
        invariant
            i <= types@.len(),
            align == types_align(types@.take(i as int)),
        decreases types.len() - i,
    {
        assert(types@.take(i as int + 1).drop_last() =~= types@.take(i as int));
        let next: u32 = type_alignment(&types[i]);
        if align < next {
            align = next;
        }
        i = i + 1;
    }
    assert(types@.take(i as int) =~= types@);
    align
}

pub fn offsets_of_frame(body: &MirBody, layout: &FieldLayout, pointer_bytes: u32) -> (offsets: Vec<u32>)
    requires
        body.arg_count <= body.locals@.len(),
        layout.lays_out(type_parts(frame_types(*body), pointer_bytes), 1, pointer_bytes),
        layout.byte_offsets@.len() == body.locals@.len() - body.arg_count,
    ensures
        offsets@ == frame_offsets(*body, pointer_bytes),
{
    let mut offsets: Vec<u32> = Vec::new();
    let mut i: usize = 0;
    while i < body.locals.len()
        invariant
            i <= body.locals@.len(),
            body.arg_count <= body.locals@.len(),
            layout.lays_out(type_parts(frame_types(*body), pointer_bytes), 1, pointer_bytes),
            layout.byte_offsets@.len() == body.locals@.len() - body.arg_count,
            offsets@ =~= frame_offsets(*body, pointer_bytes).take(i as int),
        decreases body.locals.len() - i,
    {
        if i < body.arg_count {
            offsets.push(0);
        } else {
            offsets.push(layout.byte_offsets[i - body.arg_count]);
        }
        i = i + 1;
    }
    assert(offsets@ =~= frame_offsets(*body, pointer_bytes));
    offsets
}

fn clamped(start: usize, by: usize, limit: usize) -> (end: usize)
    requires
        start <= limit,
    ensures
        end == at_most((start + by) as nat, limit as nat),
{
    if by >= limit - start {
        limit
    } else {
        start + by
    }
}

fn run_of_values(hidden: usize, start: usize, end: usize) -> (values: Vec<usize>)
    requires
        start <= end,
        hidden + end <= usize::MAX,
    ensures
        values@ == value_run(hidden as nat, start as nat, end as nat),
{
    let mut values: Vec<usize> = Vec::new();
    let mut k: usize = start;
    while k < end
        invariant
            start <= k <= end,
            hidden + end <= usize::MAX,
            values@ =~= value_run(hidden as nat, start as nat, end as nat).take(k - start),
        decreases end - k,
    {
        values.push(hidden + k);
        k = k + 1;
    }
    assert(values@ =~= value_run(hidden as nat, start as nat, end as nat));
    values
}

/// The views of value lists.
pub open spec fn run_views(lists: Seq<Vec<usize>>) -> Seq<Seq<usize>> {
    lists.map_values(|values: Vec<usize>| values@)
}

pub fn values_of_args(body: &MirBody, hidden: usize, declared: usize, pointer_bytes: u32) -> (found:
    Option<Vec<Vec<usize>>>)
    requires
        body.arg_count <= body.locals@.len(),
        hidden + declared <= usize::MAX,
        forall|i: int|
            0 <= i < body.locals@.len() ==> measurable(
                #[trigger] body.locals@[i].ty,
                pointer_bytes,
            ),
    ensures
        match found {
            Some(lists) => {
                &&& declared <= args_width(body.locals@, pointer_bytes, body.arg_count as nat)
                &&& run_views(lists@) == args_of(
                    *body,
                    hidden as nat,
                    declared as nat,
                    pointer_bytes,
                )
            },
            None => declared > args_width(body.locals@, pointer_bytes, body.arg_count as nat),
        },
{
    let ghost goal = args_of(*body, hidden as nat, declared as nat, pointer_bytes);
    let mut lists: Vec<Vec<usize>> = Vec::new();
    let mut start: usize = 0;
    let mut i: usize = 0;
    assert(run_views(lists@) =~= goal.take(0));
    while i < body.arg_count
        invariant
            i <= body.arg_count <= body.locals@.len(),
            hidden + declared <= usize::MAX,
            forall|k: int|
                0 <= k < body.locals@.len() ==> measurable(
                    #[trigger] body.locals@[k].ty,
                    pointer_bytes,
                ),
            goal == args_of(*body, hidden as nat, declared as nat, pointer_bytes),
            start == at_most(
                args_width(body.locals@, pointer_bytes, i as nat),
                declared as nat,
            ),
            run_views(lists@) =~= goal.take(i as int),
        decreases body.arg_count - i,
    {
        assert(measurable(body.locals@[i as int].ty, pointer_bytes));
        let count: usize = leaves_of(&body.locals[i].ty, pointer_bytes).len();
        let end: usize = clamped(start, count, declared);
        let ghost before = lists@;
        let run: Vec<usize> = run_of_values(hidden, start, end);
        lists.push(run);
        assert(goal[i as int] == run@);
        assert(run_views(lists@) =~= run_views(before).push(run@));
        start = end;
        i = i + 1;
    }
    if start < declared {
        return None;
    }
    while i < body.locals.len()
        invariant
            body.arg_count <= i <= body.locals@.len(),
            goal == args_of(*body, hidden as nat, declared as nat, pointer_bytes),
            run_views(lists@) =~= goal.take(i as int),
        decreases body.locals.len() - i,
    {
        let ghost before = lists@;
        let run: Vec<usize> = Vec::new();
        lists.push(run);
        assert(goal[i as int] =~= run@);
        assert(run_views(lists@) =~= run_views(before).push(run@));
        i = i + 1;
    }
    assert(run_views(lists@) =~= goal);
    Some(lists)
}

/// A copy of identities.
pub fn copy_ids(ids: &Vec<HirId>) -> (copy: Vec<HirId>)
    ensures
        copy@ == ids@,
{
    let mut copy: Vec<HirId> = Vec::new();
    let mut i: usize = 0;
    while i < ids.len()
        invariant
            i <= ids@.len(),
            copy@ =~= ids@.take(i as int),
        decreases ids.len() - i,
    {
        copy.push(ids[i]);
        i = i + 1;
    }
    assert(copy@ =~= ids@);
    copy
}

} // verus!
