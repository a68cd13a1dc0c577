//! Suggestions for misspelled names.

use crate::edit_laws::{edits, law_distance_is_enough, law_distance_is_the_fewest_edits};
use crate::syntax::Ident;
use crate::text::chars_of;
use vstd::prelude::*;

verus! {

/// The smaller of two counts.
pub open spec fn least(a: nat, b: nat) -> nat {
    if a < b {
        a
    } else {
        b
    }
}

/// The fewest single-character insertions, deletions and substitutions that
/// turn `a` into `b`.
pub open spec fn edit_distance(a: Seq<char>, b: Seq<char>) -> nat
    decreases a.len() + b.len(),
{
    if a.len() == 0 {
        b.len()
    } else if b.len() == 0 {
        a.len()
    } else {
        let substituted = edit_distance(a.drop_last(), b.drop_last()) + if a.last() == b.last() {
            0nat
        } else {
            1nat
        };
        let inserted = edit_distance(a, b.drop_last()) + 1;
        let deleted = edit_distance(a.drop_last(), b) + 1;
        least(least(substituted, inserted), deleted)
    }
}

proof fn lemma_distance_bounded(a: Seq<char>, b: Seq<char>)
    ensures
        edit_distance(a, b) <= a.len() || edit_distance(a, b) <= b.len(),
    decreases a.len() + b.len(),
{
    if a.len() > 0 && b.len() > 0 {
        lemma_distance_bounded(a.drop_last(), b.drop_last());
    }
}

/// The distance is no more than the length of the longer name.
pub proof fn law_distance_is_at_most_the_longer_length(a: Seq<char>, b: Seq<char>)
    ensures
        edit_distance(a, b) <= if a.len() < b.len() {
            b.len()
        } else {
            a.len()
        },
{
    lemma_distance_bounded(a, b);
}

/// It takes as many edits one way as the other.
pub proof fn law_distance_is_symmetric(a: Seq<char>, b: Seq<char>)
    ensures
        edit_distance(a, b) == edit_distance(b, a),
    decreases a.len() + b.len(),
{
    if a.len() > 0 && b.len() > 0 {
        law_distance_is_symmetric(a.drop_last(), b.drop_last());
        law_distance_is_symmetric(a, b.drop_last());
        law_distance_is_symmetric(a.drop_last(), b);
    }
}

/// No edits are needed exactly between equal names.
pub proof fn law_distance_zero_means_equal(a: Seq<char>, b: Seq<char>)
    ensures
        edit_distance(a, b) == 0 <==> a == b,
    decreases a.len() + b.len(),
{
    if a.len() == 0 || b.len() == 0 {
        if a.len() == b.len() {
            assert(a =~= b);
        }
    } else {
        law_distance_zero_means_equal(a.drop_last(), b.drop_last());
        if edit_distance(a, b) == 0 {
            assert(a =~= a.drop_last().push(a.last()));
            assert(b =~= b.drop_last().push(b.last()));
        }
    }
}

pub fn levenshtein(a: &str, b: &str) -> (distance: usize)
    requires
        a@.len() < usize::MAX,
        b@.len() < usize::MAX,
    ensures
        distance == edit_distance(a@, b@),
        exists|names: Seq<Seq<char>>| #[trigger]
            edits(names, a@, b@) && names.len() == distance + 1,
        forall|names: Seq<Seq<char>>| #[trigger]
            edits(names, a@, b@) ==> names.len() >= distance + 1,
{
    let a_chars: Vec<char> = chars_of(a);
    let b_chars: Vec<char> = chars_of(b);
    let ghost xs = a@;
    let ghost ys = b@;
    let mut row: Vec<usize> = Vec::new();
    let mut n: usize = 0;
    while n <= b_chars.len()
        invariant
            n <= b_chars@.len() + 1,
            b_chars@.len() < usize::MAX,
            row@.len() == n,
            forall|k: int| 0 <= k < n ==> #[trigger] row@[k] == k,
        decreases b_chars.len() + 1 - n,
    {
        row.push(n);
        n = n + 1;
    }
    proof {
        assert forall|k: int| 0 <= k <= ys.len() implies #[trigger] row@[k] == edit_distance(
            xs.take(0),
            ys.take(k),
        ) by {}
    }
    let mut i: usize = 0;
    while i < a_chars.len()
        invariant
            i <= a_chars@.len(),
            a_chars@ == xs,
            b_chars@ == ys,
            xs.len() < usize::MAX,
            ys.len() < usize::MAX,
            row@.len() == ys.len() + 1,
            forall|k: int|
                0 <= k <= ys.len() ==> #[trigger] row@[k] == edit_distance(
                    xs.take(i as int),
                    ys.take(k),
                ),
        decreases a_chars.len() - i,
    {
        let ca: char = a_chars[i];
        let ghost before = row@;
        let mut prev_diag: usize = row[0];
        row.set(0, i + 1);
        let mut j: usize = 0;
        assert(edit_distance(xs.take(i as int + 1), ys.take(0)) == i + 1);
        while j < b_chars.len()
            invariant
                i < a_chars@.len(),
                j <= b_chars@.len(),
                a_chars@ == xs,
                b_chars@ == ys,
                xs.len() < usize::MAX,
                ys.len() < usize::MAX,
                ca == xs[i as int],
                row@.len() == ys.len() + 1,
                before.len() == ys.len() + 1,
                prev_diag == before[j as int],
                forall|k: int|
                    0 <= k <= ys.len() ==> #[trigger] before[k] == edit_distance(
                        xs.take(i as int),
                        ys.take(k),
                    ),
                forall|k: int|
                    0 <= k <= j ==> #[trigger] row@[k] == edit_distance(
                        xs.take(i as int + 1),
                        ys.take(k),
                    ),
                forall|k: int| j < k <= ys.len() ==> #[trigger] row@[k] == before[k],
            decreases b_chars.len() - j,
        {
            let cb: char = b_chars[j];
            proof {
                let x = xs.take(i as int + 1);
                let y = ys.take(j as int + 1);
                assert(x.drop_last() =~= xs.take(i as int));
                assert(y.drop_last() =~= ys.take(j as int));
                assert(x.last() == ca);
                assert(y.last() == cb);
                lemma_distance_bounded(x, y.drop_last());
                lemma_distance_bounded(x.drop_last(), y.drop_last());
                lemma_distance_bounded(x.drop_last(), y);
                assert(before[j as int] == edit_distance(x.drop_last(), y.drop_last()));
                assert(before[j as int + 1] == edit_distance(x.drop_last(), y));
                assert(row@[j as int] == edit_distance(x, y.drop_last()));
                assert(row@[j as int + 1] == before[j as int + 1]);
            }
            let substitution: usize = if ca != cb {
                prev_diag + 1
            } else {
                prev_diag
            };
            prev_diag = row[j + 1];
            let inserted: usize = row[j] + 1;
            let deleted: usize = row[j + 1] + 1;
            let mut best: usize = substitution;
            if inserted < best {
                best = inserted;
            }
            if deleted < best {
                best = deleted;
            }
            row.set(j + 1, best);
            j = j + 1;
        }
        i = i + 1;
    }
    assert(xs.take(i as int) =~= xs);
    assert(ys.take(ys.len() as int) =~= ys);
    proof {
        law_distance_is_enough(xs, ys);
        assert forall|names: Seq<Seq<char>>| #[trigger] edits(names, xs, ys) implies names.len()
            >= edit_distance(xs, ys) + 1 by {
            law_distance_is_the_fewest_edits(names, xs, ys);
        }
    }
    row[b_chars.len()]
}

/// The most edits at which a name still suggests `target`.
pub open spec fn suggestion_reach(target: Seq<char>) -> nat {
    if target.len() / 3 > 1 {
        target.len() / 3
    } else {
        1
    }
}

/// Whether `candidate` is near enough to `target`, and not `target` itself.
pub open spec fn suggestible(target: Seq<char>, candidate: Seq<char>) -> bool {
    0 < edit_distance(target, candidate) <= suggestion_reach(target)
}

/// Whether the candidate at `i` is the first of the nearest ones.
pub open spec fn is_best(target: Seq<char>, candidates: Seq<Ident>, i: int) -> bool {
    &&& 0 <= i < candidates.len()
    &&& suggestible(target, candidates[i]@)
    &&& forall|j: int|
        0 <= j < candidates.len() && suggestible(target, (#[trigger] candidates[j])@) ==> {
            ||| edit_distance(target, candidates[i]@) < edit_distance(target, candidates[j]@)
            ||| edit_distance(target, candidates[i]@) == edit_distance(target, candidates[j]@) && i
                <= j
        }
}

/// The candidate nearest to `target`, the first of several equally near, if
/// any is near enough to be a plausible misspelling.
pub fn best_match(target: &Ident, candidates: &Vec<Ident>) -> (best: Option<Ident>)
    requires
        target@.len() < usize::MAX,
        forall|i: int| 0 <= i < candidates@.len() ==> (#[trigger] candidates@[i])@.len() < usize::MAX,
    ensures
        match best {
            Some(name) => exists|i: int| #[trigger]
                is_best(target@, candidates@, i) && name == candidates@[i],
            None => forall|i: int|
                0 <= i < candidates@.len() ==> !suggestible(target@, (#[trigger] candidates@[i])@),
        },
{
    let max_distance: usize = {
        let third: usize = chars_of(target.as_ref()).len() / 3;
        if third > 1 {
            third
        } else {
            1
        }
    };
    let mut best: Option<(usize, usize)> = None;
    let mut i: usize = 0;
    while i < candidates.len()
        invariant
            i <= candidates@.len(),
            target@.len() < usize::MAX,
            forall|k: int|
                0 <= k < candidates@.len() ==> (#[trigger] candidates@[k])@.len() < usize::MAX,
            max_distance == suggestion_reach(target@),
            match best {
                Some((at, distance)) => {
                    &&& at < i
                    &&& distance == edit_distance(target@, candidates@[at as int]@)
                    &&& is_best(target@, candidates@.take(i as int), at as int)
                },
                None => forall|k: int|
                    0 <= k < i ==> !suggestible(target@, (#[trigger] candidates@[k])@),
            },
        decreases candidates.len() - i,
    {
        let ghost before = candidates@.take(i as int);
        let ghost after = candidates@.take(i as int + 1);
        assert(forall|k: int| 0 <= k < i ==> before[k] == #[trigger] after[k]);
        let distance: usize = levenshtein(target.as_ref(), candidates[i].as_ref());
        if distance > 0 && distance <= max_distance {
            let nearer: bool = match best {
                Some((_, least)) => distance < least,
                None => true,
            };
            if nearer {
                best = Some((i, distance));
            }
        }
        i = i + 1;
    }
    assert(candidates@.take(i as int) =~= candidates@);
    match best {
        Some((at, _)) => {
            assert(is_best(target@, candidates@, at as int));
            Some(candidates[at].clone())
        },
        None => None,
    }
}

} // verus!
