//! Stable ordering by text keys.

use vstd::prelude::*;

verus! {

/// Whether `a` comes no later than `b` in lexicographic order of code points.
pub open spec fn key_le(a: Seq<char>, b: Seq<char>) -> bool
    decreases a.len(),
{
    if a.len() == 0 {
        true
    } else if b.len() == 0 {
        false
    } else if a[0] != b[0] {
        (a[0] as int) < (b[0] as int)
    } else {
        key_le(a.drop_first(), b.drop_first())
    }
}

/// The code point of a character.
pub fn code_point(c: char) -> (n: u32)
    ensures
        n as int == c as int,
{
    c as u32
}

/// Compares two keys.
pub fn comes_first(a: &Vec<char>, b: &Vec<char>) -> (r: bool)
    ensures
        r == key_le(a@, b@),
{
    let mut i: usize = 0;
    assert(a@.skip(0) =~= a@);
    assert(b@.skip(0) =~= b@);
    while i < a.len() && i < b.len()
        invariant
            i <= a@.len(),
            i <= b@.len(),
            key_le(a@, b@) == key_le(a@.skip(i as int), b@.skip(i as int)),
        decreases a.len() - i,
    {
        assert(a@.skip(i as int).drop_first() =~= a@.skip(i as int + 1));
        assert(b@.skip(i as int).drop_first() =~= b@.skip(i as int + 1));
        let left: char = a[i];
        let right: char = b[i];
        if left != right {
            return code_point(left) < code_point(right);
        }
        i = i + 1;
    }
    i >= a.len()
}

/// `order` with `index` added behind every index whose key comes no later.
pub open spec fn inserted(order: Seq<int>, keys: Seq<Seq<char>>, index: int) -> Seq<int>
    decreases order.len(),
{
    if order.len() == 0 {
        seq![index]
    } else if key_le(keys[order.last()], keys[index]) {
        order.push(index)
    } else {
        inserted(order.drop_last(), keys, index).push(order.last())
    }
}

/// The positions of `keys` in ascending order of key; equal keys keep their
/// order.
pub open spec fn stable_order(keys: Seq<Seq<char>>) -> Seq<int>
    decreases keys.len(),
{
    if keys.len() == 0 {
        Seq::empty()
    } else {
        inserted(stable_order(keys.drop_last()), keys, keys.len() - 1)
    }
}

/// The items at the given positions.
pub open spec fn arranged<T>(items: Seq<T>, order: Seq<int>) -> Seq<T> {
    order.map_values(|i: int| items[i])
}

/// `items` without any item that is the same as the one kept before it.
pub open spec fn deduplicated<T>(items: Seq<T>, same: spec_fn(T, T) -> bool) -> Seq<T>
    decreases items.len(),
{
    if items.len() == 0 {
        Seq::empty()
    } else {
        let kept = deduplicated(items.drop_last(), same);
        if kept.len() > 0 && same(kept.last(), items.last()) {
            kept
        } else {
            kept.push(items.last())
        }
    }
}

/// The views of a list of keys.
pub open spec fn key_views(keys: Seq<Vec<char>>) -> Seq<Seq<char>> {
    keys.map_values(|key: Vec<char>| key@)
}

/// The positions an order holds.
pub open spec fn positions(order: Seq<usize>) -> Seq<int> {
    order.map_values(|i: usize| i as int)
}

proof fn lemma_inserted_prefix(order: Seq<int>, a: Seq<Seq<char>>, b: Seq<Seq<char>>, index: int)
    requires
        a.len() <= b.len(),
        0 <= index < a.len(),
        forall|k: int| 0 <= k < a.len() ==> a[k] == b[k],
        forall|k: int| 0 <= k < order.len() ==> 0 <= #[trigger] order[k] < a.len(),
    ensures
        inserted(order, a, index) == inserted(order, b, index),
    decreases order.len(),
{
    if order.len() > 0 {
        assert(0 <= order[order.len() - 1] < a.len());
        lemma_inserted_prefix(order.drop_last(), a, b, index);
    }
}

proof fn lemma_inserted_members(order: Seq<int>, keys: Seq<Seq<char>>, index: int)
    ensures
        inserted(order, keys, index).len() == order.len() + 1,
        forall|x: int|
            #[trigger] inserted(order, keys, index).contains(x) <==> (order.contains(x) || x
                == index),
    decreases order.len(),
{
    let result = inserted(order, keys, index);
    if order.len() == 0 {
        assert(result[0] == index);
    } else if key_le(keys[order.last()], keys[index]) {
        assert(result =~= order.push(index));
        assert forall|x: int| #[trigger] result.contains(x) <==> (order.contains(x) || x
            == index) by {
            if order.contains(x) {
                let k = choose|k: int| 0 <= k < order.len() && order[k] == x;
                assert(result[k] == x);
            }
            if x == index {
                assert(result[order.len() as int] == x);
            }
            if result.contains(x) {
                let k = choose|k: int| 0 <= k < result.len() && result[k] == x;
                if k < order.len() {
                    assert(order[k] == x);
                }
            }
        }
    } else {
        let front = order.drop_last();
        lemma_inserted_members(front, keys, index);
        let inner = inserted(front, keys, index);
        assert(result =~= inner.push(order.last()));
        assert forall|x: int| #[trigger] result.contains(x) <==> (order.contains(x) || x
            == index) by {
            if order.contains(x) {
                let k = choose|k: int| 0 <= k < order.len() && order[k] == x;
                if k < front.len() {
                    assert(front[k] == x);
                    assert(inner.contains(x));
                    let j = choose|j: int| 0 <= j < inner.len() && inner[j] == x;
                    assert(result[j] == x);
                } else {
                    assert(result[inner.len() as int] == x);
                }
            }
            if x == index {
                assert(inner.contains(x));
                let j = choose|j: int| 0 <= j < inner.len() && inner[j] == x;
                assert(result[j] == x);
            }
            if result.contains(x) {
                let k = choose|k: int| 0 <= k < result.len() && result[k] == x;
                if k < inner.len() {
                    assert(inner[k] == x);
                    assert(inner.contains(x));
                    if front.contains(x) {
                        let j = choose|j: int| 0 <= j < front.len() && front[j] == x;
                        assert(order[j] == x);
                    }
                } else {
                    assert(order[order.len() - 1] == x);
                }
            }
        }
    }
}

/// The stable order holds every position exactly when it is one of the keys'.
pub proof fn law_stable_order_is_permutation(keys: Seq<Seq<char>>)
    ensures
        stable_order(keys).len() == keys.len(),
        forall|x: int| #[trigger] stable_order(keys).contains(x) <==> 0 <= x < keys.len(),
        forall|k: int| 0 <= k < keys.len() ==> 0 <= #[trigger] stable_order(keys)[k] < keys.len(),
    decreases keys.len(),
{
    if keys.len() > 0 {
        law_stable_order_is_permutation(keys.drop_last());
        lemma_inserted_members(stable_order(keys.drop_last()), keys, keys.len() - 1);
    }
    assert forall|k: int| 0 <= k < keys.len() implies 0 <= #[trigger] stable_order(keys)[k]
        < keys.len() by {
        assert(stable_order(keys).contains(stable_order(keys)[k]));
    }
}

/// A key comes no later than itself.
pub proof fn law_key_le_reflexive(a: Seq<char>)
    ensures
        key_le(a, a),
    decreases a.len(),
{
    if a.len() > 0 {
        law_key_le_reflexive(a.drop_first());
    }
}

/// Of two keys one comes no later than the other.
pub proof fn law_key_le_total(a: Seq<char>, b: Seq<char>)
    ensures
        key_le(a, b) || key_le(b, a),
    decreases a.len(),
{
    if a.len() > 0 && b.len() > 0 && a[0] == b[0] {
        law_key_le_total(a.drop_first(), b.drop_first());
    }
}

/// The order of keys is transitive.
pub proof fn law_key_le_transitive(a: Seq<char>, b: Seq<char>, c: Seq<char>)
    requires
        key_le(a, b),
        key_le(b, c),
    ensures
        key_le(a, c),
    decreases a.len(),
{
    if a.len() > 0 && b.len() > 0 && c.len() > 0 && a[0] == b[0] && b[0] == c[0] {
        law_key_le_transitive(a.drop_first(), b.drop_first(), c.drop_first());
    }
}

/// Two keys that each come no later than the other are equal.
pub proof fn law_key_le_antisymmetric(a: Seq<char>, b: Seq<char>)
    requires
        key_le(a, b),
        key_le(b, a),
    ensures
        a == b,
    decreases a.len(),
{
    if a.len() > 0 && b.len() > 0 {
        assert(a[0] == b[0]);
        law_key_le_antisymmetric(a.drop_first(), b.drop_first());
        assert(a =~= seq![a[0]] + a.drop_first());
        assert(b =~= seq![b[0]] + b.drop_first());
    } else {
        assert(a =~= b);
    }
}

/// Whether the keys at `order`'s positions ascend.
pub open spec fn ascending(keys: Seq<Seq<char>>, order: Seq<int>) -> bool {
    forall|i: int, j: int|
        0 <= i <= j < order.len() ==> key_le(keys[#[trigger] order[i]], keys[#[trigger] order[j]])
}

proof fn lemma_inserted_ascends(order: Seq<int>, keys: Seq<Seq<char>>, index: int)
    requires
        ascending(keys, order),
    ensures
        ascending(keys, inserted(order, keys, index)),
        forall|k: int|
            0 <= k < order.len() + 1 ==> key_le(
                keys[#[trigger] inserted(order, keys, index)[k]],
                keys[index],
            ) || (order.len() > 0 && key_le(
                keys[inserted(order, keys, index)[k]],
                keys[order.last()],
            )),
    decreases order.len(),
{
    let result = inserted(order, keys, index);
    law_key_le_reflexive(keys[index]);
    lemma_inserted_members(order, keys, index);
    if order.len() == 0 {
    } else if key_le(keys[order.last()], keys[index]) {
        assert(result =~= order.push(index));
        assert forall|i: int, j: int| 0 <= i <= j < result.len() implies key_le(
            keys[#[trigger] result[i]],
            keys[#[trigger] result[j]],
        ) by {
            if j == order.len() && i < j {
                assert(key_le(keys[order[i]], keys[order[order.len() - 1]]));
                law_key_le_transitive(keys[order[i]], keys[order.last()], keys[index]);
            }
        }
        assert forall|k: int| 0 <= k < order.len() + 1 implies key_le(
            keys[#[trigger] result[k]],
            keys[index],
        ) by {
            assert(result[order.len() as int] == index);
            assert(key_le(keys[result[k]], keys[result[order.len() as int]]));
        }
    } else {
        let front = order.drop_last();
        let inner = inserted(front, keys, index);
        assert(ascending(keys, front)) by {
            assert forall|i: int, j: int| 0 <= i <= j < front.len() implies key_le(
                keys[#[trigger] front[i]],
                keys[#[trigger] front[j]],
            ) by {
                assert(key_le(keys[order[i]], keys[order[j]]));
            }
        }
        lemma_inserted_ascends(front, keys, index);
        lemma_inserted_members(front, keys, index);
        assert(result =~= inner.push(order.last()));
        law_key_le_total(keys[order.last()], keys[index]);
        law_key_le_reflexive(keys[order.last()]);
        assert forall|k: int| 0 <= k < inner.len() implies key_le(
            keys[#[trigger] inner[k]],
            keys[order.last()],
        ) by {
            if key_le(keys[inner[k]], keys[index]) {
                law_key_le_transitive(keys[inner[k]], keys[index], keys[order.last()]);
            } else {
                assert(key_le(keys[order[front.len() - 1]], keys[order[order.len() - 1]]));
                law_key_le_transitive(keys[inner[k]], keys[front.last()], keys[order.last()]);
            }
        }
        assert forall|i: int, j: int| 0 <= i <= j < result.len() implies key_le(
            keys[#[trigger] result[i]],
            keys[#[trigger] result[j]],
        ) by {
            if j == inner.len() && i < j {
                assert(key_le(keys[inner[i]], keys[order.last()]));
            } else if j < inner.len() {
                assert(key_le(keys[inner[i]], keys[inner[j]]));
            }
        }
        assert forall|k: int| 0 <= k < order.len() + 1 implies key_le(
            keys[#[trigger] result[k]],
            keys[order.last()],
        ) by {
            assert(result[inner.len() as int] == order.last());
            assert(key_le(keys[result[k]], keys[result[inner.len() as int]]));
        }
    }
}

proof fn lemma_ascending_prefix(order: Seq<int>, a: Seq<Seq<char>>, b: Seq<Seq<char>>)
    requires
        a.len() <= b.len(),
        forall|k: int| 0 <= k < a.len() ==> a[k] == b[k],
        forall|k: int| 0 <= k < order.len() ==> 0 <= #[trigger] order[k] < a.len(),
        ascending(a, order),
    ensures
        ascending(b, order),
{
    assert forall|i: int, j: int| 0 <= i <= j < order.len() implies key_le(
        b[#[trigger] order[i]],
        b[#[trigger] order[j]],
    ) by {
        assert(key_le(a[order[i]], a[order[j]]));
    }
}

/// The stable order is ascending.
pub proof fn law_stable_order_ascends(keys: Seq<Seq<char>>)
    ensures
        ascending(keys, stable_order(keys)),
    decreases keys.len(),
{
    if keys.len() > 0 {
        let shorter = keys.drop_last();
        law_stable_order_ascends(shorter);
        law_stable_order_is_permutation(shorter);
        lemma_ascending_prefix(stable_order(shorter), shorter, keys);
        lemma_inserted_ascends(stable_order(shorter), keys, keys.len() - 1);
    }
}

proof fn lemma_insert_split(order: Seq<int>, keys: Seq<Seq<char>>, index: int, at: int)
    requires
        0 <= at <= order.len(),
        forall|k: int|
            at <= k < order.len() ==> !key_le(keys[#[trigger] order[k]], keys[index]),
    ensures
        inserted(order, keys, index) == inserted(order.take(at), keys, index) + order.skip(at),
    decreases order.len(),
{
    if at == order.len() {
        assert(order.take(at) =~= order);
        assert(inserted(order, keys, index) =~= inserted(order.take(at), keys, index) + order.skip(
            at,
        ));
    } else {
        assert(!key_le(keys[order[order.len() - 1]], keys[index]));
        let front = order.drop_last();
        lemma_insert_split(front, keys, index, at);
        assert(front.take(at) =~= order.take(at));
        assert(front.skip(at).push(order.last()) =~= order.skip(at));
        assert(inserted(order, keys, index) =~= inserted(order.take(at), keys, index) + order.skip(
            at,
        ));
    }
}

/// The positions of `keys` in stable ascending order.
pub fn sorted_order(keys: &Vec<Vec<char>>) -> (order: Vec<usize>)
    ensures
        positions(order@) == stable_order(key_views(keys@)),
        order@.len() == keys@.len(),
        forall|k: int| 0 <= k < order@.len() ==> #[trigger] order@[k] < keys@.len(),
{
    let mut order: Vec<usize> = Vec::new();
    let mut n: usize = 0;
    assert(positions(order@) =~= Seq::<int>::empty());
    while n < keys.len()
        invariant
            n <= keys@.len(),
            order@.len() == n,
            positions(order@) == stable_order(key_views(keys@).take(n as int)),
            forall|k: int| 0 <= k < n ==> #[trigger] order@[k] < n,
        decreases keys.len() - n,
    {
        let ghost views = key_views(keys@);
        let ghost sofar = positions(order@);
        let mut at: usize = order.len();
        while at > 0 && !comes_first(&keys[order[at - 1]], &keys[n])
            invariant
                at <= order@.len() == n,
                n < keys@.len(),
                views == key_views(keys@),
                sofar == positions(order@),
                forall|k: int| 0 <= k < n ==> #[trigger] order@[k] < n,
                forall|k: int|
                    at <= k < sofar.len() ==> !key_le(views[#[trigger] sofar[k]], views[n as int]),
            decreases at,
        {
            assert(sofar[at - 1] == order@[at - 1] as int);
            assert(views[sofar[at - 1]] == keys@[order@[at - 1] as int]@);
            at = at - 1;
        }
        proof {
            let next = views.take(n as int + 1);
            assert(next.drop_last() =~= views.take(n as int));
            lemma_insert_split(sofar, views, n as int, at as int);
            if at > 0 {
                assert(sofar.take(at as int).last() == order@[at - 1] as int);
                assert(views[order@[at - 1] as int] == keys@[order@[at - 1] as int]@);
                assert(views[n as int] == keys@[n as int]@);
            }
            assert(inserted(sofar.take(at as int), views, n as int) == sofar.take(at as int).push(
                n as int,
            ));
            assert forall|k: int| 0 <= k < sofar.len() implies 0 <= #[trigger] sofar[k]
                < next.len() by {
                assert(order@[k] < n);
            }
            lemma_inserted_prefix(sofar, next, views, n as int);
            assert(positions(order@.insert(at as int, n)) =~= sofar.take(at as int).push(n as int)
                + sofar.skip(at as int));
        }
        order.insert(at, n);
        n = n + 1;
    }
    assert(key_views(keys@).take(n as int) =~= key_views(keys@));
    order
}

/// Deduplication keeps only items it was given.
pub proof fn lemma_deduplicated_members<T>(items: Seq<T>, same: spec_fn(T, T) -> bool)
    ensures
        forall|x: T| #[trigger] deduplicated(items, same).contains(x) ==> items.contains(x),
        items.len() > 0 ==> deduplicated(items, same).len() > 0,
        deduplicated(items, same).len() <= items.len(),
    decreases items.len(),
{
    if items.len() > 0 {
        lemma_deduplicated_members(items.drop_last(), same);
        let kept = deduplicated(items.drop_last(), same);
        let result = deduplicated(items, same);
        assert forall|x: T| #[trigger] result.contains(x) implies items.contains(x) by {
            let k = choose|k: int| 0 <= k < result.len() && result[k] == x;
            if k < kept.len() {
                assert(kept[k] == x);
                assert(kept.contains(x));
                let j = choose|j: int| 0 <= j < items.drop_last().len() && items.drop_last()[j] == x;
                assert(items[j] == x);
            } else {
                assert(items[items.len() - 1] == x);
            }
        }
    }
}

/// Where every item is the same as itself, deduplication keeps one that is the
/// same as each item.
pub(crate) proof fn lemma_deduplicated_covers<T>(
    items: Seq<T>,
    same: spec_fn(T, T) -> bool,
    index: int,
)
    requires
        forall|x: T| #[trigger] items.contains(x) ==> same(x, x),
        0 <= index < items.len(),
    ensures
        exists|k: int|
            0 <= k < deduplicated(items, same).len() && same(
                #[trigger] deduplicated(items, same)[k],
                items[index],
            ),
    decreases items.len(),
{
    let front = items.drop_last();
    let before = deduplicated(front, same);
    let kept = deduplicated(items, same);
    assert(items.contains(items[index]));
    if index == items.len() - 1 {
        assert(same(kept[kept.len() - 1], items[index]));
    } else {
        assert forall|x: T| #[trigger] front.contains(x) implies same(x, x) by {
            let k = choose|k: int| 0 <= k < front.len() && front[k] == x;
            assert(items[k] == x);
            assert(items.contains(x));
        }
        lemma_deduplicated_covers(front, same, index);
        let k = choose|k: int| 0 <= k < before.len() && same(#[trigger] before[k], front[index]);
        assert(kept[k] == before[k]);
    }
}

proof fn lemma_inserted_multiset(order: Seq<int>, keys: Seq<Seq<char>>, index: int)
    ensures
        arranged(keys, inserted(order, keys, index)).to_multiset() == arranged(
            keys,
            order,
        ).to_multiset().insert(keys[index]),
    decreases order.len(),
{
    broadcast use vstd::seq_lib::group_to_multiset_ensures;

    let result = inserted(order, keys, index);
    if order.len() == 0 {
        assert(arranged(keys, result) =~= arranged(keys, order).push(keys[index]));
    } else if key_le(keys[order.last()], keys[index]) {
        assert(arranged(keys, result) =~= arranged(keys, order).push(keys[index]));
    } else {
        let front = order.drop_last();
        lemma_inserted_multiset(front, keys, index);
        assert(arranged(keys, result) =~= arranged(keys, inserted(front, keys, index)).push(
            keys[order.last()],
        ));
        assert(arranged(keys, order) =~= arranged(keys, front).push(keys[order.last()]));
        assert(arranged(keys, result).to_multiset() =~= arranged(
            keys,
            order,
        ).to_multiset().insert(keys[index]));
    }
}

proof fn lemma_arranged_prefix(order: Seq<int>, a: Seq<Seq<char>>, b: Seq<Seq<char>>)
    requires
        a.len() <= b.len(),
        forall|k: int| 0 <= k < a.len() ==> a[k] == b[k],
        forall|k: int| 0 <= k < order.len() ==> 0 <= #[trigger] order[k] < a.len(),
    ensures
        arranged(a, order) == arranged(b, order),
{
    assert(arranged(a, order) =~= arranged(b, order));
}

/// Sorting keys keeps every key as often as it occurred.
pub proof fn law_sorting_keeps_keys(keys: Seq<Seq<char>>)
    ensures
        arranged(keys, stable_order(keys)).to_multiset() == keys.to_multiset(),
    decreases keys.len(),
{
    broadcast use vstd::seq_lib::group_to_multiset_ensures;

    if keys.len() == 0 {
        assert(arranged(keys, stable_order(keys)) =~= keys);
    } else {
        let front = keys.drop_last();
        law_sorting_keeps_keys(front);
        law_stable_order_is_permutation(front);
        lemma_arranged_prefix(stable_order(front), front, keys);
        lemma_inserted_multiset(stable_order(front), keys, keys.len() - 1);
        assert(keys =~= front.push(keys.last()));
    }
}

proof fn lemma_keys_total()
    ensures
        vstd::relations::total_ordering(|a: Seq<char>, b: Seq<char>| key_le(a, b)),
{
    let leq = |a: Seq<char>, b: Seq<char>| key_le(a, b);
    assert forall|x: Seq<char>| #[trigger] leq(x, x) by {
        law_key_le_reflexive(x);
    }
    assert forall|x: Seq<char>, y: Seq<char>| #[trigger] leq(x, y) && #[trigger] leq(
        y,
        x,
    ) implies x == y by {
        law_key_le_antisymmetric(x, y);
    }
    assert forall|x: Seq<char>, y: Seq<char>, z: Seq<char>| #[trigger] leq(x, y) && #[trigger] leq(
        y,
        z,
    ) implies leq(x, z) by {
        law_key_le_transitive(x, y, z);
    }
    assert forall|x: Seq<char>, y: Seq<char>| #[trigger] leq(x, y) || #[trigger] leq(y, x) by {
        law_key_le_total(x, y);
    }
}

proof fn lemma_mapped_multiset<T>(a: Seq<T>, b: Seq<T>, key: spec_fn(T) -> Seq<char>)
    requires
        a.to_multiset() == b.to_multiset(),
    ensures
        a.map_values(key).to_multiset() == b.map_values(key).to_multiset(),
    decreases a.len(),
{
    broadcast use vstd::seq_lib::group_to_multiset_ensures;

    a.to_multiset_ensures();
    b.to_multiset_ensures();
    if a.len() == 0 {
        assert(b.len() == 0);
        assert(a.map_values(key) =~= b.map_values(key));
    } else {
        let x = a.last();
        assert(a.to_multiset().count(x) > 0) by {
            assert(a.contains(a[a.len() - 1]));
        }
        assert(b.contains(x));
        let k = b.index_of(x);
        assert(b[k] == x);
        let rest = b.remove(k);
        b.to_multiset_ensures();
        assert(a =~= a.drop_last().push(x));
        assert(a.drop_last().to_multiset() =~= a.to_multiset().remove(x));
        assert(rest.to_multiset() =~= b.to_multiset().remove(x));
        lemma_mapped_multiset(a.drop_last(), rest, key);
        assert(a.map_values(key) =~= a.drop_last().map_values(key).push(key(x)));
        b.map_values(key).to_multiset_ensures();
        assert(b.map_values(key).remove(k) =~= rest.map_values(key));
        assert(b.map_values(key)[k] == key(x));
        assert(b.map_values(key).contains(key(x)));
        assert(b.map_values(key).to_multiset() =~= rest.map_values(key).to_multiset().insert(
            key(x),
        ));
    }
}

/// Where equal keys mean equal items, sorting forgets the order the items were
/// given in.
pub proof fn lemma_sorting_is_canonical<T>(a: Seq<T>, b: Seq<T>, key: spec_fn(T) -> Seq<char>)
    requires
        a.to_multiset() == b.to_multiset(),
        forall|x: T, y: T|
            a.contains(x) && a.contains(y) && #[trigger] key(x) == #[trigger] key(y) ==> x == y,
    ensures
        arranged(a, stable_order(a.map_values(key))) == arranged(
            b,
            stable_order(b.map_values(key)),
        ),
{
    let p = a.map_values(key);
    let q = b.map_values(key);
    let leq = |x: Seq<char>, y: Seq<char>| key_le(x, y);
    lemma_mapped_multiset(a, b, key);
    law_sorting_keeps_keys(p);
    law_sorting_keeps_keys(q);
    law_stable_order_ascends(p);
    law_stable_order_ascends(q);
    law_stable_order_is_permutation(p);
    law_stable_order_is_permutation(q);
    lemma_keys_total();
    let sp = arranged(p, stable_order(p));
    let sq = arranged(q, stable_order(q));
    assert(vstd::relations::sorted_by(sp, leq));
    assert(vstd::relations::sorted_by(sq, leq));
    vstd::seq_lib::lemma_sorted_unique(sp, sq, leq);
    let x = arranged(a, stable_order(p));
    let y = arranged(b, stable_order(q));
    assert forall|i: int| 0 <= i < x.len() implies x[i] == y[i] by {
        a.to_multiset_ensures();
        b.to_multiset_ensures();
        assert(sp[i] == sq[i]);
        let m = stable_order(p)[i];
        let n = stable_order(q)[i];
        assert(key(a[m]) == key(b[n]));
        assert(a.contains(a[m]));
        assert(b.contains(b[n]));
        assert(b.to_multiset().count(b[n]) > 0);
        assert(a.contains(b[n]));
    }
    assert(x.len() == y.len()) by {
        assert(sp.len() == sq.len());
    }
    assert(x =~= y);
}

/// Whether keys are strictly ascending.
pub open spec fn strict_keys(keys: Seq<Seq<char>>) -> bool {
    forall|i: int, j: int|
        0 <= i < j < keys.len() ==> key_le(#[trigger] keys[i], #[trigger] keys[j]) && keys[i]
            != keys[j]
}

pub(crate) proof fn lemma_strict_keys_unique(a: Seq<Seq<char>>, b: Seq<Seq<char>>)
    requires
        strict_keys(a),
        strict_keys(b),
        forall|i: int| 0 <= i < a.len() ==> b.contains(#[trigger] a[i]),
        forall|i: int| 0 <= i < b.len() ==> a.contains(#[trigger] b[i]),
    ensures
        a == b,
    decreases a.len(),
{
    if a.len() == 0 {
        if b.len() > 0 {
            assert(a.contains(b[0]));
        }
        assert(a =~= b);
    } else {
        assert(b.contains(a[a.len() - 1]));
        let top = a.last();
        let other = b.last();
        let k = choose|k: int| 0 <= k < b.len() && b[k] == top;
        assert(a.contains(b[b.len() - 1]));
        let j = choose|j: int| 0 <= j < a.len() && a[j] == other;
        law_key_le_reflexive(top);
        if k < b.len() - 1 {
            assert(key_le(b[k], b[b.len() - 1]));
        }
        if j < a.len() - 1 {
            assert(key_le(a[j], a[a.len() - 1]));
        }
        law_key_le_antisymmetric(top, other);
        let p = a.drop_last();
        let q = b.drop_last();
        assert forall|i: int| 0 <= i < p.len() implies q.contains(#[trigger] p[i]) by {
            assert(b.contains(a[i]));
            let m = choose|m: int| 0 <= m < b.len() && b[m] == a[i];
            assert(a[i] != a[a.len() - 1]);
            assert(q[m] == p[i]);
        }
        assert forall|i: int| 0 <= i < q.len() implies p.contains(#[trigger] q[i]) by {
            assert(a.contains(b[i]));
            let m = choose|m: int| 0 <= m < a.len() && a[m] == b[i];
            assert(b[i] != b[b.len() - 1]);
            assert(p[m] == q[i]);
        }
        assert(strict_keys(p)) by {
            assert forall|i: int, j: int| 0 <= i < j < p.len() implies key_le(
                #[trigger] p[i],
                #[trigger] p[j],
            ) && p[i] != p[j] by {
                assert(key_le(a[i], a[j]));
            }
        }
        assert(strict_keys(q)) by {
            assert forall|i: int, j: int| 0 <= i < j < q.len() implies key_le(
                #[trigger] q[i],
                #[trigger] q[j],
            ) && q[i] != q[j] by {
                assert(key_le(b[i], b[j]));
            }
        }
        lemma_strict_keys_unique(p, q);
        assert(a =~= p.push(top));
        assert(b =~= q.push(other));
    }
}

proof fn lemma_dedup_sorted<T>(
    items: Seq<T>,
    key: spec_fn(T) -> Seq<char>,
    same: spec_fn(T, T) -> bool,
)
    requires
        forall|i: int, j: int|
            0 <= i < items.len() && 0 <= j < items.len() ==> same(
                #[trigger] items[i],
                #[trigger] items[j],
            ) == (key(items[i]) == key(items[j])),
        forall|i: int, j: int|
            0 <= i <= j < items.len() ==> key_le(
                key(#[trigger] items[i]),
                key(#[trigger] items[j]),
            ),
    ensures
        strict_keys(deduplicated(items, same).map_values(key)),
        forall|i: int|
            0 <= i < deduplicated(items, same).len() ==> items.contains(
                #[trigger] deduplicated(items, same)[i],
            ),
        forall|i: int|
            0 <= i < items.len() ==> deduplicated(items, same).map_values(key).contains(
                key(#[trigger] items[i]),
            ),
        items.len() > 0 ==> deduplicated(items, same).len() > 0 && key(
            deduplicated(items, same).last(),
        ) == key(items.last()),
    decreases items.len(),
{
    let kept = deduplicated(items, same);
    if items.len() > 0 {
        let front = items.drop_last();
        assert forall|i: int, j: int| 0 <= i < front.len() && 0 <= j < front.len() implies same(
            #[trigger] front[i],
            #[trigger] front[j],
        ) == (key(front[i]) == key(front[j])) by {
            assert(front[i] == items[i] && front[j] == items[j]);
        }
        assert forall|i: int, j: int| 0 <= i <= j < front.len() implies key_le(
            key(#[trigger] front[i]),
            key(#[trigger] front[j]),
        ) by {
            assert(front[i] == items[i] && front[j] == items[j]);
        }
        lemma_dedup_sorted(front, key, same);
        let before = deduplicated(front, same);
        let last = items.last();
        let keys = kept.map_values(key);
        let old_keys = before.map_values(key);
        if before.len() > 0 {
            assert(front.contains(before[before.len() - 1]));
            let k = choose|k: int| 0 <= k < front.len() && front[k] == before.last();
            assert(items[k] == before.last());
            assert(same(items[k], items[items.len() - 1]) == (key(items[k]) == key(last)));
        }
        if before.len() > 0 && same(before.last(), last) {
            assert(kept == before);
            assert(keys[kept.len() - 1] == key(last));
            assert forall|i: int| 0 <= i < items.len() implies keys.contains(
                key(#[trigger] items[i]),
            ) by {
                if i < front.len() {
                    assert(keys.contains(key(front[i])));
                }
            }
        } else {
            assert(kept == before.push(last));
            assert(keys =~= old_keys.push(key(last)));
            if before.len() > 0 {
                let top = key(before.last());
                assert(key_le(key(items[front.len() - 1]), key(items[items.len() - 1])));
                assert(top == key(front.last()));
                assert forall|i: int, j: int| 0 <= i < j < keys.len() implies key_le(
                    #[trigger] keys[i],
                    #[trigger] keys[j],
                ) && keys[i] != keys[j] by {
                    if j < before.len() {
                        assert(key_le(old_keys[i], old_keys[j]));
                    } else if i < before.len() - 1 {
                        assert(key_le(old_keys[i], old_keys[before.len() - 1]));
                        law_key_le_transitive(old_keys[i], top, key(last));
                        if old_keys[i] == key(last) {
                            law_key_le_antisymmetric(old_keys[i], top);
                        }
                    }
                }
            }
            assert forall|i: int| 0 <= i < items.len() implies keys.contains(
                key(#[trigger] items[i]),
            ) by {
                if i < front.len() {
                    assert(old_keys.contains(key(front[i])));
                    let k = choose|k: int| 0 <= k < old_keys.len() && old_keys[k] == key(front[i]);
                    assert(keys[k] == key(items[i]));
                } else {
                    assert(keys[before.len() as int] == key(items[i]));
                }
            }
        }
        assert forall|i: int| 0 <= i < kept.len() implies items.contains(#[trigger] kept[i]) by {
            if i < before.len() {
                assert(kept[i] == before[i]);
                assert(front.contains(before[i]));
                let k = choose|k: int| 0 <= k < front.len() && front[k] == before[i];
                assert(items[k] == kept[i]);
            } else {
                assert(items[items.len() - 1] == kept[i]);
            }
        }
    }
}

/// Where items are the same exactly if their keys are, sorting items by their
/// keys and dropping repeated ones leaves each key once, in ascending order.
pub(crate) proof fn lemma_sorted_once<T>(
    items: Seq<T>,
    key: spec_fn(T) -> Seq<char>,
    same: spec_fn(T, T) -> bool,
)
    requires
        forall|i: int, j: int|
            0 <= i < items.len() && 0 <= j < items.len() ==> same(
                #[trigger] items[i],
                #[trigger] items[j],
            ) == (key(items[i]) == key(items[j])),
    ensures
        ({
            let kept = deduplicated(arranged(items, stable_order(items.map_values(key))), same);
            &&& strict_keys(kept.map_values(key))
            &&& forall|i: int| 0 <= i < kept.len() ==> items.contains(#[trigger] kept[i])
            &&& forall|i: int|
                0 <= i < items.len() ==> kept.map_values(key).contains(key(#[trigger] items[i]))
        }),
{
    let keys = items.map_values(key);
    let order = stable_order(keys);
    law_stable_order_is_permutation(keys);
    law_stable_order_ascends(keys);
    let sorted = arranged(items, order);
    let kept = deduplicated(sorted, same);
    assert forall|i: int, j: int| 0 <= i < sorted.len() && 0 <= j < sorted.len() implies same(
        #[trigger] sorted[i],
        #[trigger] sorted[j],
    ) == (key(sorted[i]) == key(sorted[j])) by {
        assert(sorted[i] == items[order[i]] && sorted[j] == items[order[j]]);
    }
    assert forall|i: int, j: int| 0 <= i <= j < sorted.len() implies key_le(
        key(#[trigger] sorted[i]),
        key(#[trigger] sorted[j]),
    ) by {
        assert(key_le(keys[order[i]], keys[order[j]]));
    }
    lemma_dedup_sorted(sorted, key, same);
    assert forall|i: int| 0 <= i < kept.len() implies items.contains(#[trigger] kept[i]) by {
        assert(sorted.contains(kept[i]));
        let k = choose|k: int| 0 <= k < sorted.len() && sorted[k] == kept[i];
        assert(items[order[k]] == kept[i]);
    }
    assert forall|i: int| 0 <= i < items.len() implies kept.map_values(key).contains(
        key(#[trigger] items[i]),
    ) by {
        assert(order.contains(i));
        let k = choose|k: int| 0 <= k < order.len() && order[k] == i;
        assert(sorted[k] == items[i]);
    }
}

} // verus!
