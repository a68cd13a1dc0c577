//! That the distance between two names is the fewest edits between them.

use crate::similarity::{edit_distance, law_distance_zero_means_equal};
use vstd::prelude::*;

verus! {

/// Whether one character was inserted into `a`, deleted from it, or replaced
/// by another one to make `b`.
pub open spec fn one_edit(a: Seq<char>, b: Seq<char>) -> bool {
    ||| exists|i: int, c: char| 0 <= i <= a.len() && b == #[trigger] a.insert(i, c)
    ||| exists|i: int| 0 <= i < a.len() && b == #[trigger] a.remove(i)
    ||| exists|i: int, c: char| 0 <= i < a.len() && c != a[i] && b == #[trigger] a.update(i, c)
}

/// Whether a list of names leads from `a` to `b`, each name one edit behind
/// the one before it.
pub open spec fn edits(names: Seq<Seq<char>>, a: Seq<char>, b: Seq<char>) -> bool {
    &&& names.len() > 0
    &&& names[0] == a
    &&& names.last() == b
    &&& forall|i: int| 0 <= i < names.len() - 1 ==> one_edit(#[trigger] names[i], names[i + 1])
}

proof fn lemma_insert_last(a: Seq<char>, c: char)
    ensures
        one_edit(a, a.push(c)),
{
    assert(a.push(c) =~= a.insert(a.len() as int, c));
}

proof fn lemma_delete_last(a: Seq<char>)
    requires
        a.len() > 0,
    ensures
        one_edit(a, a.drop_last()),
{
    assert(a.drop_last() =~= a.remove(a.len() - 1));
}

proof fn lemma_replace_last(a: Seq<char>, c: char, d: char)
    requires
        c != d,
    ensures
        one_edit(a.push(c), a.push(d)),
{
    let longer = a.push(c);
    assert(a.push(d) =~= longer.update(a.len() as int, d));
    assert(longer[a.len() as int] == c);
}

/// An edit is one with more characters behind it, too.
proof fn lemma_edit_before(a: Seq<char>, b: Seq<char>, c: char)
    requires
        one_edit(a, b),
    ensures
        one_edit(a.push(c), b.push(c)),
{
    let x = a.push(c);
    if exists|i: int, d: char| 0 <= i <= a.len() && b == #[trigger] a.insert(i, d) {
        let (i, d) = choose|i: int, d: char| 0 <= i <= a.len() && b == #[trigger] a.insert(i, d);
        assert(b.push(c) =~= x.insert(i, d));
    } else if exists|i: int| 0 <= i < a.len() && b == #[trigger] a.remove(i) {
        let i = choose|i: int| 0 <= i < a.len() && b == #[trigger] a.remove(i);
        assert(b.push(c) =~= x.remove(i));
    } else {
        let (i, d) = choose|i: int, d: char|
            0 <= i < a.len() && d != a[i] && b == #[trigger] a.update(i, d);
        assert(b.push(c) =~= x.update(i, d));
        assert(x[i] == a[i]);
    }
}

proof fn lemma_edits_front(names: Seq<Seq<char>>, a: Seq<char>, mid: Seq<char>, b: Seq<char>)
    requires
        one_edit(a, mid),
        edits(names, mid, b),
    ensures
        edits(seq![a] + names, a, b),
{
    let all = seq![a] + names;
    assert forall|i: int| 0 <= i < all.len() - 1 implies one_edit(
        #[trigger] all[i],
        all[i + 1],
    ) by {
        if i > 0 {
            assert(one_edit(names[i - 1], names[i]));
        }
    }
    assert(all.last() == names.last());
}

proof fn lemma_edits_back(names: Seq<Seq<char>>, a: Seq<char>, mid: Seq<char>, b: Seq<char>)
    requires
        edits(names, a, mid),
        one_edit(mid, b),
    ensures
        edits(names.push(b), a, b),
{
    let all = names.push(b);
    assert forall|i: int| 0 <= i < all.len() - 1 implies one_edit(
        #[trigger] all[i],
        all[i + 1],
    ) by {
        if i < names.len() - 1 {
            assert(one_edit(names[i], names[i + 1]));
        }
    }
}

proof fn lemma_edits_before(names: Seq<Seq<char>>, a: Seq<char>, b: Seq<char>, c: char)
    requires
        edits(names, a, b),
    ensures
        edits(names.map_values(|name: Seq<char>| name.push(c)), a.push(c), b.push(c)),
{
    let all = names.map_values(|name: Seq<char>| name.push(c));
    assert forall|i: int| 0 <= i < all.len() - 1 implies one_edit(
        #[trigger] all[i],
        all[i + 1],
    ) by {
        assert(one_edit(names[i], names[i + 1]));
        lemma_edit_before(names[i], names[i + 1], c);
    }
}

/// As many edits as the distance says lead from one name to the other.
pub proof fn law_distance_is_enough(a: Seq<char>, b: Seq<char>)
    ensures
        exists|names: Seq<Seq<char>>| #[trigger]
            edits(names, a, b) && names.len() == edit_distance(a, b) + 1,
    decreases a.len() + b.len(),
{
    let distance = edit_distance(a, b);
    if a.len() == 0 && b.len() == 0 {
        assert(a =~= b);
        assert(edits(seq![a], a, b));
    } else if a.len() > 0 && distance == edit_distance(a.drop_last(), b) + 1 {
        let front = a.drop_last();
        law_distance_is_enough(front, b);
        let names = choose|names: Seq<Seq<char>>| #[trigger]
            edits(names, front, b) && names.len() == edit_distance(front, b) + 1;
        lemma_delete_last(a);
        lemma_edits_front(names, a, front, b);
        assert((seq![a] + names).len() == distance + 1);
    } else if b.len() > 0 && distance == edit_distance(a, b.drop_last()) + 1 {
        let front = b.drop_last();
        law_distance_is_enough(a, front);
        let names = choose|names: Seq<Seq<char>>| #[trigger]
            edits(names, a, front) && names.len() == edit_distance(a, front) + 1;
        lemma_insert_last(front, b.last());
        assert(front.push(b.last()) =~= b);
        lemma_edits_back(names, a, front, b);
        assert(names.push(b).len() == distance + 1);
    } else {
        let p = a.drop_last();
        let q = b.drop_last();
        let c = a.last();
        law_distance_is_enough(p, q);
        let names = choose|names: Seq<Seq<char>>| #[trigger]
            edits(names, p, q) && names.len() == edit_distance(p, q) + 1;
        let longer = names.map_values(|name: Seq<char>| name.push(c));
        lemma_edits_before(names, p, q, c);
        assert(p.push(c) =~= a);
        assert(q.push(b.last()) =~= b);
        if c == b.last() {
            assert(edits(longer, a, b));
        } else {
            lemma_replace_last(q, c, b.last());
            lemma_edits_back(longer, a, q.push(c), b);
            assert(longer.push(b).len() == distance + 1);
        }
    }
}

/// Whether two names are almost as far from a third.
spec fn near(a: Seq<char>, m: Seq<char>, b: Seq<char>) -> bool {
    &&& edit_distance(a, b) <= edit_distance(m, b) + 1
    &&& edit_distance(m, b) <= edit_distance(a, b) + 1
}

proof fn lemma_shorter_is_near(a: Seq<char>, b: Seq<char>)
    requires
        a.len() > 0,
    ensures
        near(a, a.drop_last(), b),
    decreases b.len(),
{
    if b.len() > 0 {
        lemma_shorter_is_near(a, b.drop_last());
    }
}

proof fn lemma_same_end_is_near(a: Seq<char>, m: Seq<char>, b: Seq<char>)
    requires
        a.len() > 0,
        m.len() > 0,
        a.last() == m.last(),
        b.len() > 0,
        near(a.drop_last(), m.drop_last(), b.drop_last()),
        near(a, m, b.drop_last()),
        near(a.drop_last(), m.drop_last(), b),
    ensures
        near(a, m, b),
{
}

proof fn lemma_removed_is_near(a: Seq<char>, i: int, b: Seq<char>)
    requires
        0 <= i < a.len(),
    ensures
        near(a, a.remove(i), b),
    decreases a.len() + b.len(),
{
    let m = a.remove(i);
    if i == a.len() - 1 {
        assert(m =~= a.drop_last());
        lemma_shorter_is_near(a, b);
    } else if b.len() > 0 {
        assert(m.drop_last() =~= a.drop_last().remove(i));
        lemma_removed_is_near(a.drop_last(), i, b.drop_last());
        lemma_removed_is_near(a, i, b.drop_last());
        lemma_removed_is_near(a.drop_last(), i, b);
        lemma_same_end_is_near(a, m, b);
    }
}

proof fn lemma_replaced_is_near(a: Seq<char>, i: int, c: char, b: Seq<char>)
    requires
        0 <= i < a.len(),
    ensures
        near(a, a.update(i, c), b),
    decreases a.len() + b.len(),
{
    let m = a.update(i, c);
    if b.len() > 0 {
        lemma_replaced_is_near(a, i, c, b.drop_last());
        if i == a.len() - 1 {
            assert(m.drop_last() =~= a.drop_last());
            lemma_shorter_is_near(a, b);
            lemma_shorter_is_near(m, b);
        } else {
            assert(m.drop_last() =~= a.drop_last().update(i, c));
            lemma_replaced_is_near(a.drop_last(), i, c, b.drop_last());
            lemma_replaced_is_near(a.drop_last(), i, c, b);
            lemma_same_end_is_near(a, m, b);
        }
    }
}

/// One edit changes a distance by one at most.
proof fn lemma_edited_is_near(a: Seq<char>, m: Seq<char>, b: Seq<char>)
    requires
        one_edit(a, m),
    ensures
        near(a, m, b),
{
    if exists|i: int, c: char| 0 <= i <= a.len() && m == #[trigger] a.insert(i, c) {
        let (i, c) = choose|i: int, c: char| 0 <= i <= a.len() && m == #[trigger] a.insert(i, c);
        assert(m.remove(i) =~= a);
        lemma_removed_is_near(m, i, b);
    } else if exists|i: int| 0 <= i < a.len() && m == #[trigger] a.remove(i) {
        let i = choose|i: int| 0 <= i < a.len() && m == #[trigger] a.remove(i);
        lemma_removed_is_near(a, i, b);
    } else {
        let (i, c) = choose|i: int, c: char|
            0 <= i < a.len() && c != a[i] && m == #[trigger] a.update(i, c);
        lemma_replaced_is_near(a, i, c, b);
    }
}

/// However one name is edited into the other, it takes as many edits as the
/// distance says, or more.
pub proof fn law_distance_is_the_fewest_edits(
    names: Seq<Seq<char>>,
    a: Seq<char>,
    b: Seq<char>,
)
    requires
        edits(names, a, b),
    ensures
        edit_distance(a, b) <= names.len() - 1,
    decreases names.len(),
{
    if names.len() == 1 {
        law_distance_zero_means_equal(a, b);
    } else {
        let rest = names.skip(1);
        assert(one_edit(names[0], names[0int + 1]));
        assert forall|i: int| 0 <= i < rest.len() - 1 implies one_edit(
            #[trigger] rest[i],
            rest[i + 1],
        ) by {
            assert(one_edit(names[i + 1], names[i + 1 + 1]));
        }
        law_distance_is_the_fewest_edits(rest, names[1], b);
        lemma_edited_is_near(a, names[1], b);
    }
}

} // verus!
