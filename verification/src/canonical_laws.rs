//! What canonicalizing an anonymous enum's members keeps and what it forgets.

use crate::key_laws::{coherent, law_key_determines_type, law_type_determines_key, Declarations};
use crate::order::{deduplicated, key_le, lemma_sorted_once, lemma_strict_keys_unique, strict_keys};
use crate::resolved_type::ResolvedType;
use crate::type_eq::{
    has_member, law_same_type_reflexive, law_same_type_transitive, same_type, same_types,
};
use crate::type_key::{
    all_leaves, canonical_members, member_leaves, sorted_types, type_key, type_keys,
};
use vstd::prelude::*;

verus! {

/// Whether every type of a list is coherent with the declarations' names.
pub open spec fn coherent_types(all: Declarations, types: Seq<ResolvedType>) -> bool {
    forall|i: int| 0 <= i < types.len() ==> coherent(all, #[trigger] types[i])
}

/// Whether the keys of a list are strictly ascending.
pub open spec fn strictly_ascending(types: Seq<ResolvedType>) -> bool {
    forall|i: int, j: int|
        0 <= i < j < types.len() ==> key_le(
            type_key(#[trigger] types[i]),
            type_key(#[trigger] types[j]),
        ) && type_key(types[i]) != type_key(types[j])
}

proof fn lemma_member_leaves(all: Declarations, member: &ResolvedType)
    requires
        coherent(all, *member),
    ensures
        coherent_types(all, member_leaves(*member)),
        forall|i: int|
            0 <= i < member_leaves(*member).len() ==> !(#[trigger] member_leaves(*member)[i]
                is AnonymousEnum),
    decreases member,
{
    if let ResolvedType::AnonymousEnum { shape, .. } = member {
        lemma_all_leaves(all, shape.members@);
        assert(member_leaves(*member) == all_leaves(shape.members@));
    }
}

proof fn lemma_all_leaves(all: Declarations, members: Seq<ResolvedType>)
    requires
        forall|i: int| 0 <= i < members.len() ==> coherent(all, #[trigger] members[i]),
    ensures
        coherent_types(all, all_leaves(members)),
        forall|i: int|
            0 <= i < all_leaves(members).len() ==> !(#[trigger] all_leaves(members)[i]
                is AnonymousEnum),
    decreases members,
{
    if members.len() > 0 {
        let rest = members.drop_first();
        assert(coherent(all, members[0]));
        lemma_member_leaves(all, &members[0]);
        assert forall|i: int| 0 <= i < rest.len() implies coherent(all, #[trigger] rest[i]) by {
            assert(coherent(all, members[i + 1]));
        }
        lemma_all_leaves(all, rest);
        let first = member_leaves(members[0]);
        let tail = all_leaves(rest);
        assert(all_leaves(members) == first + tail);
        assert forall|i: int| 0 <= i < all_leaves(members).len() implies coherent(
            all,
            #[trigger] all_leaves(members)[i],
        ) && !(all_leaves(members)[i] is AnonymousEnum) by {
            if i < first.len() {
                assert(coherent(all, first[i]));
            } else {
                assert(coherent(all, tail[i - first.len()]));
            }
        }
    }
}

/// Two coherent types are the same where their keys are.
proof fn lemma_same_where_keyed(all: Declarations, a: &ResolvedType, b: &ResolvedType)
    requires
        all.distinct(),
        coherent(all, *a),
        coherent(all, *b),
    ensures
        same_type(*a, *b) == (type_key(*a) == type_key(*b)),
{
    if same_type(*a, *b) {
        law_type_determines_key(all, a, b);
    } else if type_key(*a) == type_key(*b) {
        law_key_determines_type(all, a, b);
    }
}

/// What sorting leaves and dropping repeated ones keeps, over keys.
proof fn lemma_canonical(all: Declarations, leaves: Seq<ResolvedType>)
    requires
        all.distinct(),
        coherent_types(all, leaves),
    ensures
        ({
            let kept = deduplicated(
                sorted_types(leaves),
                |a: ResolvedType, b: ResolvedType| same_type(a, b),
            );
            &&& strict_keys(type_keys(kept))
            &&& forall|i: int| 0 <= i < kept.len() ==> leaves.contains(#[trigger] kept[i])
            &&& forall|i: int|
                0 <= i < leaves.len() ==> type_keys(kept).contains(type_key(#[trigger] leaves[i]))
        }),
{
    let key = |ty: ResolvedType| type_key(ty);
    let same = |a: ResolvedType, b: ResolvedType| same_type(a, b);
    assert forall|i: int, j: int| 0 <= i < leaves.len() && 0 <= j < leaves.len() implies same(
        #[trigger] leaves[i],
        #[trigger] leaves[j],
    ) == (key(leaves[i]) == key(leaves[j])) by {
        assert(coherent(all, leaves[i]) && coherent(all, leaves[j]));
        lemma_same_where_keyed(all, &leaves[i], &leaves[j]);
    }
    lemma_sorted_once(leaves, key, same);
    let kept = deduplicated(sorted_types(leaves), same);
    assert(leaves.map_values(key) == type_keys(leaves));
    assert(kept.map_values(key) == type_keys(kept));
    assert forall|i: int| 0 <= i < leaves.len() implies type_keys(kept).contains(
        type_key(#[trigger] leaves[i]),
    ) by {
        assert(kept.map_values(key).contains(key(leaves[i])));
    }
}

/// A canonical member list holds the leaves it was written with, each once, in
/// strictly ascending order of their keys, and no anonymous enum.
pub proof fn law_canonical_members(all: Declarations, members: Seq<ResolvedType>)
    requires
        all.distinct(),
        coherent_types(all, members),
    ensures
        strictly_ascending(canonical_members(members)),
        coherent_types(all, canonical_members(members)),
        forall|i: int|
            0 <= i < canonical_members(members).len() ==> !(#[trigger] canonical_members(members)[i]
                is AnonymousEnum),
        forall|i: int|
            0 <= i < canonical_members(members).len() ==> has_member(
                all_leaves(members),
                #[trigger] canonical_members(members)[i],
            ),
        forall|i: int|
            0 <= i < all_leaves(members).len() ==> has_member(
                canonical_members(members),
                #[trigger] all_leaves(members)[i],
            ),
{
    let leaves = all_leaves(members);
    let kept = canonical_members(members);
    let keys = type_keys(kept);
    lemma_all_leaves(all, members);
    lemma_canonical(all, leaves);
    assert forall|i: int| 0 <= i < kept.len() implies coherent(all, #[trigger] kept[i]) && !(
    kept[i] is AnonymousEnum) && has_member(leaves, kept[i]) by {
        assert(leaves.contains(kept[i]));
        let k = choose|k: int| 0 <= k < leaves.len() && leaves[k] == kept[i];
        assert(coherent(all, leaves[k]) && !(leaves[k] is AnonymousEnum));
        law_same_type_reflexive(&leaves[k]);
        assert(same_type(leaves[k], kept[i]));
    }
    assert forall|i: int, j: int| 0 <= i < j < kept.len() implies key_le(
        type_key(#[trigger] kept[i]),
        type_key(#[trigger] kept[j]),
    ) && type_key(kept[i]) != type_key(kept[j]) by {
        assert(key_le(keys[i], keys[j]));
    }
    assert forall|i: int| 0 <= i < leaves.len() implies has_member(
        kept,
        #[trigger] leaves[i],
    ) by {
        assert(keys.contains(type_key(leaves[i])));
        let k = choose|k: int| 0 <= k < keys.len() && keys[k] == type_key(leaves[i]);
        assert(coherent(all, kept[k]) && coherent(all, leaves[i]));
        lemma_same_where_keyed(all, &kept[k], &leaves[i]);
        assert(same_type(kept[k], leaves[i]));
    }
}

/// A canonical member list holds each type once, so a member has one tag.
pub proof fn law_canonical_members_are_distinct(
    all: Declarations,
    members: Seq<ResolvedType>,
    i: int,
    j: int,
)
    requires
        all.distinct(),
        coherent_types(all, members),
        0 <= i < canonical_members(members).len(),
        0 <= j < canonical_members(members).len(),
        same_type(canonical_members(members)[i], canonical_members(members)[j]),
    ensures
        i == j,
{
    law_canonical_members(all, members);
    let kept = canonical_members(members);
    assert(coherent(all, kept[i]) && coherent(all, kept[j]));
    law_type_determines_key(all, &kept[i], &kept[j]);
}

/// Whether two lists of members have the same leaves, whatever their order,
/// nesting, and repetition.
pub open spec fn same_leaves(a: Seq<ResolvedType>, b: Seq<ResolvedType>) -> bool {
    &&& forall|i: int|
        0 <= i < all_leaves(a).len() ==> has_member(all_leaves(b), #[trigger] all_leaves(a)[i])
    &&& forall|i: int|
        0 <= i < all_leaves(b).len() ==> has_member(all_leaves(a), #[trigger] all_leaves(b)[i])
}

proof fn lemma_keys_contained(
    all: Declarations,
    a: Seq<ResolvedType>,
    b: Seq<ResolvedType>,
    index: int,
)
    requires
        all.distinct(),
        coherent_types(all, a),
        coherent_types(all, b),
        same_leaves(a, b),
        0 <= index < canonical_members(a).len(),
    ensures
        type_keys(canonical_members(b)).contains(type_keys(canonical_members(a))[index]),
{
    let p = canonical_members(a);
    let q = canonical_members(b);
    let x = p[index];
    assert(coherent(all, x) && has_member(all_leaves(a), x)) by {
        law_canonical_members(all, a);
        assert(coherent(all, p[index]));
    }
    let i = choose|i: int|
        0 <= i < all_leaves(a).len() && same_type(#[trigger] all_leaves(a)[i], x);
    let leaf = all_leaves(a)[i];
    assert(has_member(all_leaves(b), leaf));
    let j = choose|j: int|
        0 <= j < all_leaves(b).len() && same_type(#[trigger] all_leaves(b)[j], leaf);
    let other = all_leaves(b)[j];
    assert(coherent_types(all, q) && has_member(q, other)) by {
        law_canonical_members(all, b);
    }
    let k = choose|k: int| 0 <= k < q.len() && same_type(#[trigger] q[k], other);
    lemma_same_through(&q[k], &other, &leaf, &x);
    assert(coherent(all, q[k]));
    law_type_determines_key(all, &q[k], &x);
    assert(type_keys(q)[k] == type_keys(p)[index]);
}

proof fn lemma_same_through(
    a: &ResolvedType,
    b: &ResolvedType,
    c: &ResolvedType,
    d: &ResolvedType,
)
    requires
        same_type(*a, *b),
        same_type(*b, *c),
        same_type(*c, *d),
    ensures
        same_type(*a, *d),
{
    law_same_type_transitive(a, b, c);
    law_same_type_transitive(a, c, d);
}

/// Order, nesting, and repetition of the written members are irrelevant: two
/// lists with the same leaves have the same canonical members.
pub proof fn law_canonical_members_ignore_spelling(
    all: Declarations,
    a: Seq<ResolvedType>,
    b: Seq<ResolvedType>,
)
    requires
        all.distinct(),
        coherent_types(all, a),
        coherent_types(all, b),
        same_leaves(a, b),
    ensures
        same_types(canonical_members(a), canonical_members(b)),
{
    law_canonical_members(all, a);
    law_canonical_members(all, b);
    let p = canonical_members(a);
    let q = canonical_members(b);
    assert(strict_keys(type_keys(p))) by {
        assert forall|i: int, j: int| 0 <= i < j < type_keys(p).len() implies key_le(
            #[trigger] type_keys(p)[i],
            #[trigger] type_keys(p)[j],
        ) && type_keys(p)[i] != type_keys(p)[j] by {
            assert(key_le(type_key(p[i]), type_key(p[j])));
        }
    }
    assert(strict_keys(type_keys(q))) by {
        assert forall|i: int, j: int| 0 <= i < j < type_keys(q).len() implies key_le(
            #[trigger] type_keys(q)[i],
            #[trigger] type_keys(q)[j],
        ) && type_keys(q)[i] != type_keys(q)[j] by {
            assert(key_le(type_key(q[i]), type_key(q[j])));
        }
    }
    assert forall|i: int| 0 <= i < type_keys(p).len() implies type_keys(q).contains(
        #[trigger] type_keys(p)[i],
    ) by {
        lemma_keys_contained(all, a, b, i);
    }
    assert forall|i: int| 0 <= i < type_keys(q).len() implies type_keys(p).contains(
        #[trigger] type_keys(q)[i],
    ) by {
        lemma_keys_contained(all, b, a, i);
    }
    lemma_strict_keys_unique(type_keys(p), type_keys(q));
    assert(type_keys(p).len() == p.len() && type_keys(q).len() == q.len());
    assert forall|i: int| 0 <= i < p.len() implies same_type(#[trigger] p[i], q[i]) by {
        assert(type_keys(p)[i] == type_keys(q)[i]);
        assert(coherent(all, p[i]) && coherent(all, q[i]));
        law_key_determines_type(all, &p[i], &q[i]);
    }
}

proof fn lemma_leaves_of_leaves(members: Seq<ResolvedType>)
    requires
        forall|i: int| 0 <= i < members.len() ==> !(#[trigger] members[i] is AnonymousEnum),
    ensures
        all_leaves(members) == members,
    decreases members.len(),
{
    if members.len() > 0 {
        let rest = members.drop_first();
        assert forall|i: int| 0 <= i < rest.len() implies !(#[trigger] rest[i]
            is AnonymousEnum) by {
            assert(!(members[i + 1] is AnonymousEnum));
        }
        lemma_leaves_of_leaves(rest);
        assert(!(members[0] is AnonymousEnum));
        assert(member_leaves(members[0]) == seq![members[0]]);
        assert(all_leaves(members) =~= members);
    } else {
        assert(all_leaves(members) =~= members);
    }
}

/// Canonicalizing canonical members changes nothing.
pub proof fn law_canonicalization_is_idempotent(all: Declarations, members: Seq<ResolvedType>)
    requires
        all.distinct(),
        coherent_types(all, members),
    ensures
        same_types(canonical_members(canonical_members(members)), canonical_members(members)),
{
    law_canonical_members(all, members);
    let kept = canonical_members(members);
    lemma_leaves_of_leaves(kept);
    assert(same_leaves(kept, members)) by {
        assert forall|i: int| 0 <= i < all_leaves(members).len() implies has_member(
            all_leaves(kept),
            #[trigger] all_leaves(members)[i],
        ) by {
            assert(has_member(kept, all_leaves(members)[i]));
        }
    }
    law_canonical_members_ignore_spelling(all, kept, members);
}

/// An anonymous enum written inside another is the same as its members written
/// there, refined or not.
pub proof fn law_nested_members_are_flattened(
    outer: Seq<ResolvedType>,
    shape: std::rc::Rc<crate::resolved_type::ResolvedAnonymousEnum>,
    variant: Option<usize>,
)
    ensures
        canonical_members(seq![ResolvedType::AnonymousEnum { shape, variant }] + outer)
            == canonical_members(shape.members@ + outer),
{
    let nested = ResolvedType::AnonymousEnum { shape, variant };
    lemma_leaves_concat(seq![nested], outer);
    lemma_leaves_concat(shape.members@, outer);
    assert(seq![nested].drop_first() =~= Seq::empty());
    assert(all_leaves(seq![nested]) =~= all_leaves(shape.members@)) by {
        assert(member_leaves(nested) == all_leaves(shape.members@));
        assert(all_leaves(Seq::<ResolvedType>::empty()) =~= Seq::empty());
    }
}

proof fn lemma_leaves_concat(a: Seq<ResolvedType>, b: Seq<ResolvedType>)
    ensures
        all_leaves(a + b) == all_leaves(a) + all_leaves(b),
    decreases a.len(),
{
    if a.len() == 0 {
        assert(a + b =~= b);
        assert(all_leaves(a) + all_leaves(b) =~= all_leaves(b));
    } else {
        lemma_leaves_concat(a.drop_first(), b);
        assert((a + b).drop_first() =~= a.drop_first() + b);
        assert(all_leaves(a + b) =~= all_leaves(a) + all_leaves(b));
    }
}

} // verus!
