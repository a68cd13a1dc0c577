//! What canonicalizing a spec conjunction keeps and what it forgets.

use crate::key_laws::{
    coherent_application, law_application_determines_key, law_key_determines_application,
    Declarations,
};
use crate::order::{key_le, lemma_sorted_once, lemma_strict_keys_unique, strict_keys};
use crate::resolved_type::ResolvedSpecApplication;
use crate::type_eq::{law_same_application_reflexive, same_application, same_applications};
use crate::type_key::{application_key, application_keys, canonical_applications};
use vstd::prelude::*;

verus! {

/// Whether every application of a list is coherent with the declarations'
/// names.
pub open spec fn coherent_applications(
    all: Declarations,
    members: Seq<ResolvedSpecApplication>,
) -> bool {
    forall|i: int| 0 <= i < members.len() ==> coherent_application(all, #[trigger] members[i])
}

/// Whether an application occurs in a list.
pub open spec fn has_application(
    members: Seq<ResolvedSpecApplication>,
    application: ResolvedSpecApplication,
) -> bool {
    exists|i: int| 0 <= i < members.len() && same_application(#[trigger] members[i], application)
}

/// Whether two lists hold the same applications, whatever their order and
/// repetition.
pub open spec fn same_conjuncts(
    a: Seq<ResolvedSpecApplication>,
    b: Seq<ResolvedSpecApplication>,
) -> bool {
    &&& forall|i: int| 0 <= i < a.len() ==> has_application(b, #[trigger] a[i])
    &&& forall|i: int| 0 <= i < b.len() ==> has_application(a, #[trigger] b[i])
}

/// Two applications of coherent lists are the same where their keys are.
proof fn lemma_same_where_keyed(
    all: Declarations,
    a: &ResolvedSpecApplication,
    b: &ResolvedSpecApplication,
)
    requires
        all.distinct(),
        coherent_application(all, *a),
        coherent_application(all, *b),
    ensures
        same_application(*a, *b) == (application_key(*a) == application_key(*b)),
{
    if same_application(*a, *b) {
        law_application_determines_key(all, a, b);
    } else if application_key(*a) == application_key(*b) {
        law_key_determines_application(all, a, b);
    }
}

/// What canonicalizing keeps, over keys.
proof fn lemma_canonical(all: Declarations, members: Seq<ResolvedSpecApplication>)
    requires
        all.distinct(),
        coherent_applications(all, members),
    ensures
        strict_keys(application_keys(canonical_applications(members))),
        coherent_applications(all, canonical_applications(members)),
        forall|i: int|
            0 <= i < canonical_applications(members).len() ==> members.contains(
                #[trigger] canonical_applications(members)[i],
            ),
        forall|i: int|
            0 <= i < members.len() ==> application_keys(canonical_applications(members)).contains(
                application_key(#[trigger] members[i]),
            ),
{
    let key = |member: ResolvedSpecApplication| application_key(member);
    let same = |a: ResolvedSpecApplication, b: ResolvedSpecApplication| same_application(a, b);
    let kept = canonical_applications(members);
    assert forall|i: int, j: int| 0 <= i < members.len() && 0 <= j < members.len() implies same(
        #[trigger] members[i],
        #[trigger] members[j],
    ) == (key(members[i]) == key(members[j])) by {
        assert(coherent_application(all, members[i]) && coherent_application(all, members[j]));
        lemma_same_where_keyed(all, &members[i], &members[j]);
    }
    lemma_sorted_once(members, key, same);
    assert(members.map_values(key) == application_keys(members));
    assert(kept.map_values(key) == application_keys(kept));
    assert forall|i: int| 0 <= i < kept.len() implies coherent_application(
        all,
        #[trigger] kept[i],
    ) by {
        assert(members.contains(kept[i]));
        let k = choose|k: int| 0 <= k < members.len() && members[k] == kept[i];
        assert(coherent_application(all, members[k]));
    }
    assert forall|i: int| 0 <= i < members.len() implies application_keys(kept).contains(
        application_key(#[trigger] members[i]),
    ) by {
        assert(kept.map_values(key).contains(key(members[i])));
    }
}

/// A canonical spec conjunction holds exactly the applications it was written
/// with, in strictly ascending order of their keys.
pub proof fn law_canonical_applications(all: Declarations, members: Seq<ResolvedSpecApplication>)
    requires
        all.distinct(),
        coherent_applications(all, members),
    ensures
        coherent_applications(all, canonical_applications(members)),
        forall|i: int, j: int|
            0 <= i < j < canonical_applications(members).len() ==> key_le(
                application_key(#[trigger] canonical_applications(members)[i]),
                application_key(#[trigger] canonical_applications(members)[j]),
            ) && application_key(canonical_applications(members)[i]) != application_key(
                canonical_applications(members)[j],
            ),
        forall|i: int|
            0 <= i < canonical_applications(members).len() ==> members.contains(
                #[trigger] canonical_applications(members)[i],
            ),
        same_conjuncts(canonical_applications(members), members),
{
    lemma_canonical(all, members);
    let kept = canonical_applications(members);
    let keys = application_keys(kept);
    assert forall|i: int, j: int| 0 <= i < j < kept.len() implies key_le(
        application_key(#[trigger] kept[i]),
        application_key(#[trigger] kept[j]),
    ) && application_key(kept[i]) != application_key(kept[j]) by {
        assert(key_le(keys[i], keys[j]));
    }
    assert forall|i: int| 0 <= i < kept.len() implies has_application(
        members,
        #[trigger] kept[i],
    ) by {
        assert(members.contains(kept[i]));
        let k = choose|k: int| 0 <= k < members.len() && members[k] == kept[i];
        law_same_application_reflexive(&kept[i]);
        assert(same_application(members[k], kept[i]));
    }
    assert forall|i: int| 0 <= i < members.len() implies has_application(
        kept,
        #[trigger] members[i],
    ) by {
        assert(keys.contains(application_key(members[i])));
        let k = choose|k: int| 0 <= k < keys.len() && keys[k] == application_key(members[i]);
        assert(coherent_application(all, kept[k]) && coherent_application(all, members[i]));
        lemma_same_where_keyed(all, &kept[k], &members[i]);
        assert(same_application(kept[k], members[i]));
    }
}

/// A canonical spec conjunction holds each application once.
pub proof fn law_canonical_applications_are_distinct(
    all: Declarations,
    members: Seq<ResolvedSpecApplication>,
    i: int,
    j: int,
)
    requires
        all.distinct(),
        coherent_applications(all, members),
        0 <= i < canonical_applications(members).len(),
        0 <= j < canonical_applications(members).len(),
        same_application(canonical_applications(members)[i], canonical_applications(members)[j]),
    ensures
        i == j,
{
    law_canonical_applications(all, members);
    let kept = canonical_applications(members);
    assert(coherent_application(all, kept[i]) && coherent_application(all, kept[j]));
    lemma_same_where_keyed(all, &kept[i], &kept[j]);
}

proof fn lemma_keys_contained(
    all: Declarations,
    a: Seq<ResolvedSpecApplication>,
    b: Seq<ResolvedSpecApplication>,
    index: int,
)
    requires
        all.distinct(),
        coherent_applications(all, a),
        coherent_applications(all, b),
        same_conjuncts(a, b),
        0 <= index < canonical_applications(a).len(),
    ensures
        application_keys(canonical_applications(b)).contains(
            application_keys(canonical_applications(a))[index],
        ),
{
    let x = canonical_applications(a)[index];
    assert(a.contains(x)) by {
        lemma_canonical(all, a);
    }
    let i = choose|i: int| 0 <= i < a.len() && a[i] == x;
    assert(has_application(b, a[i]));
    let j = choose|j: int| 0 <= j < b.len() && same_application(#[trigger] b[j], a[i]);
    assert(application_key(b[j]) == application_key(x)) by {
        assert(coherent_application(all, a[i]) && coherent_application(all, b[j]));
        lemma_same_where_keyed(all, &b[j], &a[i]);
    }
    assert(application_keys(canonical_applications(b)).contains(application_key(b[j]))) by {
        lemma_canonical(all, b);
    }
}

/// Order and repetition of the written applications are irrelevant: `A + B` is
/// `B + A`, and `A + A` is `A`.
pub proof fn law_canonical_applications_ignore_spelling(
    all: Declarations,
    a: Seq<ResolvedSpecApplication>,
    b: Seq<ResolvedSpecApplication>,
)
    requires
        all.distinct(),
        coherent_applications(all, a),
        coherent_applications(all, b),
        same_conjuncts(a, b),
    ensures
        same_applications(canonical_applications(a), canonical_applications(b)),
{
    lemma_canonical(all, a);
    lemma_canonical(all, b);
    let p = canonical_applications(a);
    let q = canonical_applications(b);
    assert forall|i: int| 0 <= i < application_keys(p).len() implies application_keys(q).contains(
        #[trigger] application_keys(p)[i],
    ) by {
        lemma_keys_contained(all, a, b, i);
    }
    assert forall|i: int| 0 <= i < application_keys(q).len() implies application_keys(p).contains(
        #[trigger] application_keys(q)[i],
    ) by {
        lemma_keys_contained(all, b, a, i);
    }
    lemma_strict_keys_unique(application_keys(p), application_keys(q));
    assert(application_keys(p).len() == p.len() && application_keys(q).len() == q.len());
    assert forall|i: int| 0 <= i < p.len() implies same_application(#[trigger] p[i], q[i]) by {
        assert(application_keys(p)[i] == application_keys(q)[i]);
        assert(coherent_application(all, p[i]) && coherent_application(all, q[i]));
        lemma_same_where_keyed(all, &p[i], &q[i]);
    }
}

/// Canonicalizing a canonical spec conjunction changes nothing.
pub proof fn law_shape_canonicalization_is_idempotent(
    all: Declarations,
    members: Seq<ResolvedSpecApplication>,
)
    requires
        all.distinct(),
        coherent_applications(all, members),
    ensures
        same_applications(
            canonical_applications(canonical_applications(members)),
            canonical_applications(members),
        ),
{
    law_canonical_applications(all, members);
    law_canonical_applications_ignore_spelling(all, canonical_applications(members), members);
}

} // verus!
