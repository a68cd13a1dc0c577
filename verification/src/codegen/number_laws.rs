//! What numbers promise wherever they are: in a type, in a constant's bytes, as
//! an argument, and in a frame.

use crate::checked::NumberValue;
use crate::codegen::abi::{param_leaves, promoted, returned, returns_indirectly, ReturnView};
use crate::codegen::constants::{le_bytes, number_bits};
use crate::codegen::frame::{args_of, args_width, body_fits, frame_offsets, frame_types};
use crate::codegen::machine::{kind_of, lemma_wrap_shift, read, signed, whole, wrap};
use crate::codegen::mir::MirBody;
use crate::layout::{
    law_fields_do_not_overlap, leaf_bytes, leaves_spec, lemma_type_parts, type_parts,
};
use crate::resolved_type::{NumericKind, ResolvedFunctionParam, ResolvedType};
use vstd::arithmetic::power2::{lemma_pow2_adds, lemma_pow2_pos, lemma_pow2_unfold, pow2};
use vstd::prelude::*;

verus! {

/// The numbers an integer type holds are those that its bits can be; a `bool`
/// holds two and a `char` every code point.
pub proof fn law_types_hold_what_their_bits_can_be(ty: ResolvedType, pointer_bits: u32, v: int)
    requires
        pointer_bits > 0,
    ensures
        ty is Bool ==> (ty.in_domain(v, pointer_bits) <==> v == 0 || v == 1),
        ty is Char ==> (ty.in_domain(v, pointer_bits) <==> 0 <= v <= 0x10ffff),
        kind_of(ty, pointer_bits) is None ==> !ty.in_domain(v, pointer_bits),
        kind_of(ty, pointer_bits) matches Some(kind) ==> (kind is Float ==> !ty.in_domain(
            v,
            pointer_bits,
        )),
        kind_of(ty, pointer_bits) matches Some(kind) ==> (!(kind is Float) && !(ty is Bool) && !(
        ty is Char) ==> (ty.in_domain(v, pointer_bits) <==> whole(v, kind))),
{
    if let Some(kind) = kind_of(ty, pointer_bits) {
        lemma_pow2_unfold(kind.width() as nat);
        lemma_pow2_pos(kind.width() as nat);
    }
}

proof fn lemma_bytes_read(memory: spec_fn(int) -> int, at: int, n: nat, count: nat)
    requires
        forall|i: int|
            0 <= i < count ==> #[trigger] le_bytes(n, count)[i] as int == memory(at + i),
    ensures
        read(memory, at, count) == wrap(n as int, 8 * count),
    decreases count,
{
    vstd::arithmetic::power2::lemma2_to64();
    if count > 0 {
        let rest = le_bytes(n / 256, (count - 1) as nat);
        let all = le_bytes(n, count);
        lemma_bytes_count(n / 256, (count - 1) as nat);
        assert(all[0] as int == memory(at + 0));
        assert forall|i: int| 0 <= i < count - 1 implies #[trigger] rest[i] as int == memory(
            at + 1 + i,
        ) by {
            assert(all[i + 1] == rest[i]);
            assert(at + (i + 1) == at + 1 + i);
        }
        lemma_bytes_read(memory, at + 1, n / 256, (count - 1) as nat);
        let z = pow2((8 * (count - 1)) as nat);
        lemma_pow2_pos((8 * (count - 1)) as nat);
        lemma_pow2_adds(8, (8 * (count - 1)) as nat);
        vstd::arithmetic::div_mod::lemma_mod_breakdown(n as int, 256, z as int);
    } else {
        assert(n as int % 1 == 0);
    }
}

proof fn lemma_bytes_count(n: nat, count: nat)
    ensures
        le_bytes(n, count).len() == count,
    decreases count,
{
    if count > 0 {
        lemma_bytes_count(n / 256, (count - 1) as nat);
    }
}

/// A whole number that is written into memory, the lowest byte first, is read
/// back from there: all of it where there is room, and else its low bits. Read
/// as signed, a signed number comes back with its sign.
pub proof fn law_written_numbers_read_back(
    memory: spec_fn(int) -> int,
    at: int,
    written: NumberValue,
    x: int,
    count: nat,
)
    requires
        match written {
            NumberValue::Signed(v) => x == v,
            NumberValue::Unsigned(v) => x == v,
            NumberValue::Float(_) => false,
        },
        count == 1 || count == 2 || count == 4 || count == 8,
        forall|i: int|
            0 <= i < count ==> #[trigger] le_bytes(number_bits(written, count), count)[i] as int
                == memory(at + i),
    ensures
        read(memory, at, count) == wrap(x, 8 * count),
        whole(x, NumericKind::Signed((8 * count) as u32)) ==> signed(
            read(memory, at, count),
            8 * count,
        ) == x,
{
    lemma_bytes_read(memory, at, number_bits(written, count), count);
    vstd::arithmetic::power2::lemma2_to64();
    vstd::arithmetic::power2::lemma2_to64_rest();
    if x < 0 {
        let k: int = if count == 1 {
            0x100_0000_0000_0000
        } else if count == 2 {
            0x1_0000_0000_0000
        } else if count == 4 {
            0x1_0000_0000
        } else {
            1
        };
        lemma_wrap_shift(x, k, 8 * count);
    }
    let kind = NumericKind::Signed((8 * count) as u32);
    if whole(x, kind) {
        crate::codegen::machine::law_numbers_read_back(x, kind);
    }
}

/// Promotion never loses anything: what is promoted becomes wider, keeps its
/// sign, and is then an `int` or a `double` of C; and what is as wide as that
/// already, or is no number, is left alone.
pub proof fn law_promotion_widens(ty: ResolvedType, pointer_bits: u32)
    requires
        pointer_bits > 0,
    ensures
        promoted(ty, pointer_bits) matches Some(to) ==> (kind_of(ty, pointer_bits) matches Some(
            from,
        ) && from.width() < to.width() && (from is Signed <==> to is Signed) && (from is Float
            <==> to is Float) && to.width() == if to is Float {
            64
        } else {
            32int
        }),
        promoted(ty, pointer_bits) is None ==> (kind_of(ty, pointer_bits) matches Some(from)
            ==> from.width() >= if from is Float {
            64
        } else {
            32int
        }),
{
}

/// Two variables of a function, neither of them a parameter, never share a byte
/// of its frame.
pub proof fn law_locals_do_not_overlap(body: MirBody, pointer_bytes: u32, i: int, j: int)
    requires
        body_fits(body, pointer_bytes),
        body.arg_count <= i < j < body.locals@.len(),
    ensures
        frame_offsets(body, pointer_bytes)[i] + leaf_bytes(
            leaves_spec(body.locals@[i].ty, pointer_bytes),
            pointer_bytes,
        ) <= frame_offsets(body, pointer_bytes)[j],
{
    let types = frame_types(body);
    let parts = type_parts(types, pointer_bytes);
    lemma_type_parts(types, pointer_bytes);
    law_fields_do_not_overlap(
        parts,
        i - body.arg_count,
        j - body.arg_count,
        1,
        pointer_bytes,
    );
    assert(parts[i - body.arg_count].leaves == leaves_spec(body.locals@[i].ty, pointer_bytes));
}

proof fn lemma_args_grow(body: MirBody, pointer_bytes: u32, i: nat, j: nat)
    requires
        i <= j,
    ensures
        args_width(body.locals@, pointer_bytes, i) <= args_width(body.locals@, pointer_bytes, j),
    decreases j,
{
    if i < j {
        lemma_args_grow(body, pointer_bytes, i, (j - 1) as nat);
    }
}

/// The parameters of a function take its values one after the other, the
/// hidden ones first: each parameter has as many as its type has leaves, and
/// starts right behind the one before it.
pub proof fn law_parameters_follow_each_other(
    body: MirBody,
    hidden: nat,
    declared: nat,
    pointer_bytes: u32,
    i: int,
)
    requires
        0 <= i < body.arg_count <= body.locals@.len(),
        args_width(body.locals@, pointer_bytes, body.arg_count as nat) <= declared,
        hidden + declared <= usize::MAX,
    ensures
        ({
            let runs = args_of(body, hidden, declared, pointer_bytes);
            let leaves = leaves_spec(body.locals@[i].ty, pointer_bytes).len();
            &&& runs[i].len() == leaves
            &&& forall|k: int, l: int|
                0 <= k < l < runs[i].len() ==> (#[trigger] runs[i][l]) - (#[trigger] runs[i][k])
                    == l - k
            &&& i == 0 && leaves > 0 ==> runs[0][0] == hidden
            &&& i > 0 && leaves > 0 && runs[i - 1].len() > 0 ==> runs[i][0] == runs[i - 1].last()
                + 1
        }),
{
    lemma_args_grow(body, pointer_bytes, i as nat, body.arg_count as nat);
    lemma_args_grow(body, pointer_bytes, (i + 1) as nat, body.arg_count as nat);
    if i > 0 {
        lemma_args_grow(body, pointer_bytes, (i - 1) as nat, i as nat);
    }
}

/// The leaves of a function's parameters stand one parameter behind the other,
/// in their order.
pub proof fn law_parameters_pass_their_leaves(
    params: Seq<ResolvedFunctionParam>,
    pointer_bytes: u32,
    i: int,
)
    requires
        0 <= i < params.len(),
    ensures
        ({
            let start = param_leaves(params.take(i), pointer_bytes).len() as int;
            let own = leaves_spec(params[i].ty, pointer_bytes);
            &&& start + own.len() <= param_leaves(params, pointer_bytes).len()
            &&& param_leaves(params, pointer_bytes).subrange(start, start + own.len()) == own
        }),
    decreases params.len(),
{
    let front = params.drop_last();
    let start = param_leaves(params.take(i), pointer_bytes).len() as int;
    let own = leaves_spec(params[i].ty, pointer_bytes);
    if i < params.len() - 1 {
        law_parameters_pass_their_leaves(front, pointer_bytes, i);
        assert(front.take(i) =~= params.take(i));
        assert(param_leaves(params, pointer_bytes).subrange(start, start + own.len())
            =~= param_leaves(front, pointer_bytes).subrange(start, start + own.len()));
    } else {
        assert(params.take(i) =~= front);
        assert(param_leaves(params, pointer_bytes).subrange(start, start + own.len()) =~= own);
    }
}

/// A result that comes back in registers takes one or two of them at most, and
/// holds all of its leaves; one that comes back through memory would not have
/// fitted there; and only what has no value at all does not come back.
pub proof fn law_results_come_back(ty: ResolvedType, pointer_bytes: u32)
    ensures
        returned(ty, pointer_bytes) matches ReturnView::Direct(leaves) ==> leaves.len() < 3
            && leaves == leaves_spec(ty, pointer_bytes),
        returned(ty, pointer_bytes) is Indirect ==> leaves_spec(ty, pointer_bytes).len() >= 3,
        returned(ty, pointer_bytes) is Void <==> ty is Void || ty is Never,
        returns_indirectly(ty, pointer_bytes) <==> returned(ty, pointer_bytes) is Indirect,
{
}

} // verus!
