//! Ordering of texts and stable sorting by a text key.

use vstd::prelude::*;

use crate::text::chars_of;

verus! {

/// Whether `a` comes before `b` in the order of their characters' code points.
pub open spec fn text_before(a: Seq<char>, b: Seq<char>) -> bool
    decreases a.len(),
{
    if b.len() == 0 {
        false
    } else if a.len() == 0 {
        true
    } else if a[0] != b[0] {
        a[0] < b[0]
    } else {
        text_before(a.skip(1), b.skip(1))
    }
}

/// Whether a key has to stand before another, from first to last or from last to first.
pub open spec fn key_before(a: Seq<char>, b: Seq<char>, descending: bool) -> bool {
    if descending {
        text_before(b, a)
    } else {
        text_before(a, b)
    }
}

/// The first position whose key has to stand behind `key`.
pub open spec fn slot(keys: Seq<Seq<char>>, key: Seq<char>, descending: bool) -> int
    decreases keys.len(),
{
    if keys.len() == 0 || key_before(key, keys[0], descending) {
        0
    } else {
        1 + slot(keys.skip(1), key, descending)
    }
}

/// The keys of some items.
pub open spec fn keys_of<A>(items: Seq<A>, key: spec_fn(A) -> Seq<char>) -> Seq<Seq<char>> {
    items.map_values(key)
}

/// The items ordered by key; items with equal keys keep their order.
pub open spec fn sorted_by_key<A>(
    items: Seq<A>,
    key: spec_fn(A) -> Seq<char>,
    descending: bool,
) -> Seq<A>
    decreases items.len(),
{
    if items.len() == 0 {
        items
    } else {
        let rest = sorted_by_key(items.drop_last(), key, descending);
        rest.insert(slot(keys_of(rest, key), key(items.last()), descending), items.last())
    }
}

/// Whether `a` comes before `b`.
pub fn text_is_before(a: &str, b: &str) -> (before: bool)
    ensures
        before == text_before(a@, b@),
{
    let x = chars_of(a);
    let y = chars_of(b);
    let mut i: usize = 0;
    assert(x@.skip(0) =~= x@);
    assert(y@.skip(0) =~= y@);
    while i < x.len() && i < y.len()
        invariant
            x@ == a@,
            y@ == b@,
            i <= x.len(),
            i <= y.len(),
            text_before(a@, b@) == text_before(x@.skip(i as int), y@.skip(i as int)),
        decreases x.len() - i,
    {
        if x[i] != y[i] {
            return x[i] < y[i];
        }
        assert(x@.skip(i as int).skip(1) =~= x@.skip(i + 1));
        assert(y@.skip(i as int).skip(1) =~= y@.skip(i + 1));
        i = i + 1;
    }
    i < y.len()
}

/// The keys of a list of strings.
pub open spec fn key_views(keys: Seq<String>) -> Seq<Seq<char>> {
    keys.map_values(|k: String| k@)
}

/// Finds where an item with the given key is to be inserted among sorted keys.
pub fn find_slot(keys: &Vec<String>, key: &str, descending: bool) -> (at: usize)
    ensures
        at == slot(key_views(keys@), key@, descending),
        at <= keys.len(),
{
    let ghost views = key_views(keys@);
    let mut i: usize = 0;
    assert(views.skip(0) =~= views);
    while i < keys.len()
        invariant
            i <= keys.len(),
            views == key_views(keys@),
            slot(views, key@, descending) == i + slot(views.skip(i as int), key@, descending),
        decreases keys.len() - i,
    {
        let before = if descending {
            text_is_before(keys[i].as_str(), key)
        } else {
            text_is_before(key, keys[i].as_str())
        };
        assert(views.skip(i as int)[0] == keys@[i as int]@);
        if before {
            return i;
        }
        assert(views.skip(i as int).skip(1) =~= views.skip(i + 1));
        i = i + 1;
    }
    i
}

// ---------------------------------------------------------------------------
// Laws
// ---------------------------------------------------------------------------

/// No text comes before itself, and of two texts that come before each other neither
/// way both are the same.
pub proof fn text_before_is_total(a: Seq<char>, b: Seq<char>)
    ensures
        !text_before(a, a),
        !(text_before(a, b) && text_before(b, a)),
        text_before(a, b) || text_before(b, a) || a == b,
    decreases a.len(),
{
    if a.len() == 0 {
        if b.len() == 0 {
            assert(a =~= b);
        }
    } else if b.len() == 0 {
        text_before_is_total(a.skip(1), a.skip(1));
    } else {
        text_before_is_total(a.skip(1), b.skip(1));
        if a[0] == b[0] && a.skip(1) == b.skip(1) {
            assert(a =~= seq![a[0]] + a.skip(1));
            assert(b =~= seq![b[0]] + b.skip(1));
        }
    }
}

/// The order of texts is transitive.
pub proof fn text_before_is_transitive(a: Seq<char>, b: Seq<char>, c: Seq<char>)
    requires
        text_before(a, b),
        text_before(b, c),
    ensures
        text_before(a, c),
    decreases a.len(),
{
    if a.len() > 0 && b.len() > 0 && c.len() > 0 && a[0] == b[0] && b[0] == c[0] {
        text_before_is_transitive(a.skip(1), b.skip(1), c.skip(1));
    }
}

/// What is not before a key that is not before a third is not before the third either.
proof fn lemma_not_before(a: Seq<char>, b: Seq<char>, c: Seq<char>, descending: bool)
    requires
        !key_before(b, a, descending),
        !key_before(c, b, descending),
    ensures
        !key_before(c, a, descending),
{
    text_before_is_total(a, b);
    text_before_is_total(b, c);
    text_before_is_total(a, c);
    if key_before(c, a, descending) {
        if a != b {
            if descending {
                text_before_is_transitive(b, a, c);
            } else {
                text_before_is_transitive(c, a, b);
            }
        }
    }
}

/// Whether no key stands in front of one that has to stand before it.
pub open spec fn in_key_order(keys: Seq<Seq<char>>, descending: bool) -> bool {
    forall|i: int, j: int|
        0 <= i < j < keys.len() ==> !key_before(#[trigger] keys[j], #[trigger] keys[i], descending)
}

proof fn lemma_slot(keys: Seq<Seq<char>>, key: Seq<char>, descending: bool)
    ensures
        0 <= slot(keys, key, descending) <= keys.len(),
        forall|i: int|
            0 <= i < slot(keys, key, descending) ==> !key_before(key, #[trigger] keys[i], descending),
        slot(keys, key, descending) < keys.len() ==> key_before(
            key,
            keys[slot(keys, key, descending)],
            descending,
        ),
    decreases keys.len(),
{
    if keys.len() > 0 && !key_before(key, keys[0], descending) {
        lemma_slot(keys.skip(1), key, descending);
        assert forall|i: int| 0 <= i < slot(keys, key, descending) implies !key_before(
            key,
            #[trigger] keys[i],
            descending,
        ) by {
            if i > 0 {
                assert(keys[i] == keys.skip(1)[i - 1]);
            }
        }
    }
}

/// Sorting puts the keys in order.
pub proof fn sorted_by_key_is_ordered<A>(
    items: Seq<A>,
    key: spec_fn(A) -> Seq<char>,
    descending: bool,
)
    ensures
        in_key_order(keys_of(sorted_by_key(items, key, descending), key), descending),
    decreases items.len(),
{
    if items.len() > 0 {
        sorted_by_key_is_ordered(items.drop_last(), key, descending);
        let rest = sorted_by_key(items.drop_last(), key, descending);
        let keys = keys_of(rest, key);
        let k = key(items.last());
        let p = slot(keys, k, descending);
        lemma_slot(keys, k, descending);
        let all = keys_of(sorted_by_key(items, key, descending), key);
        assert(all =~= keys.insert(p, k));
        assert forall|i: int, j: int| 0 <= i < j < all.len() implies !key_before(
            #[trigger] all[j],
            #[trigger] all[i],
            descending,
        ) by {
            if i == p {
                // The key at the slot comes behind `k`, and all that follows behind that.
                let x = keys[p];
                let y = keys[j - 1];
                if p < j - 1 {
                    assert(!key_before(y, x, descending));
                } else {
                    text_before_is_total(x, y);
                }
                text_before_is_total(k, x);
                lemma_not_before(k, x, y, descending);
            } else if j == p {
                assert(all[i] == keys[i]);
            } else {
                let i0 = if i < p {
                    i
                } else {
                    i - 1
                };
                let j0 = if j < p {
                    j
                } else {
                    j - 1
                };
                assert(all[i] == keys[i0] && all[j] == keys[j0]);
            }
        }
    }
}

/// Sorting keeps every item, as often as it was there.
pub proof fn sorted_by_key_keeps_items<A>(
    items: Seq<A>,
    key: spec_fn(A) -> Seq<char>,
    descending: bool,
)
    ensures
        sorted_by_key(items, key, descending).to_multiset() == items.to_multiset(),
        sorted_by_key(items, key, descending).len() == items.len(),
    decreases items.len(),
{
    broadcast use vstd::seq_lib::group_to_multiset_ensures;

    if items.len() > 0 {
        sorted_by_key_keeps_items(items.drop_last(), key, descending);
        let rest = sorted_by_key(items.drop_last(), key, descending);
        let p = slot(keys_of(rest, key), key(items.last()), descending);
        lemma_slot(keys_of(rest, key), key(items.last()), descending);
        assert(items =~= items.drop_last().push(items.last()));
        assert(rest.insert(p, items.last()).to_multiset() =~= rest.to_multiset().insert(
            items.last(),
        ));
    }
}

/// The items with one given key, in the order in which they stand.
pub open spec fn with_key<A>(items: Seq<A>, key: spec_fn(A) -> Seq<char>, k: Seq<char>) -> Seq<A>
    decreases items.len(),
{
    if items.len() == 0 {
        items
    } else if key(items.last()) == k {
        with_key(items.drop_last(), key, k).push(items.last())
    } else {
        with_key(items.drop_last(), key, k)
    }
}

proof fn lemma_with_key_concat<A>(
    a: Seq<A>,
    b: Seq<A>,
    key: spec_fn(A) -> Seq<char>,
    k: Seq<char>,
)
    ensures
        with_key(a + b, key, k) == with_key(a, key, k) + with_key(b, key, k),
    decreases b.len(),
{
    if b.len() == 0 {
        assert(a + b =~= a);
        assert(with_key(a, key, k) + with_key(b, key, k) =~= with_key(a, key, k));
    } else {
        lemma_with_key_concat(a, b.drop_last(), key, k);
        assert((a + b).drop_last() =~= a + b.drop_last());
        assert((a + b).last() == b.last());
        assert(with_key(a + b, key, k) =~= with_key(a, key, k) + with_key(b, key, k));
    }
}

proof fn lemma_with_key_none<A>(items: Seq<A>, key: spec_fn(A) -> Seq<char>, k: Seq<char>)
    requires
        forall|i: int| 0 <= i < items.len() ==> key(#[trigger] items[i]) != k,
    ensures
        with_key(items, key, k).len() == 0,
    decreases items.len(),
{
    if items.len() > 0 {
        assert(key(items[items.len() - 1]) != k);
        assert forall|i: int| 0 <= i < items.drop_last().len() implies key(
            #[trigger] items.drop_last()[i],
        ) != k by {
            assert(items.drop_last()[i] == items[i]);
        }
        lemma_with_key_none(items.drop_last(), key, k);
    }
}

/// Sorting is stable: the items with one given key keep their order.
pub proof fn sorted_by_key_is_stable<A>(
    items: Seq<A>,
    key: spec_fn(A) -> Seq<char>,
    descending: bool,
    k: Seq<char>,
)
    ensures
        with_key(sorted_by_key(items, key, descending), key, k) == with_key(items, key, k),
    decreases items.len(),
{
    if items.len() > 0 {
        let rest = sorted_by_key(items.drop_last(), key, descending);
        let last = items.last();
        let keys = keys_of(rest, key);
        let p = slot(keys, key(last), descending);
        sorted_by_key_is_stable(items.drop_last(), key, descending, k);
        sorted_by_key_is_ordered(items.drop_last(), key, descending);
        lemma_slot(keys, key(last), descending);
        let head = rest.take(p);
        let tail = rest.skip(p);
        assert(rest.insert(p, last) =~= head + (seq![last] + tail));
        assert(rest =~= head + tail);
        lemma_with_key_concat(head, tail, key, k);
        lemma_with_key_concat(head, seq![last] + tail, key, k);
        lemma_with_key_concat(seq![last], tail, key, k);
        assert(seq![last].drop_last() =~= Seq::<A>::empty());
        reveal_with_fuel(with_key, 2);
        if key(last) == k {
            assert forall|i: int| 0 <= i < tail.len() implies key(#[trigger] tail[i]) != k by {
                assert(tail[i] == rest[p + i]);
                assert(keys[p + i] == key(rest[p + i]));
                assert(keys[p] == key(rest[p]));
                if i > 0 {
                    assert(!key_before(keys[p + i], keys[p], descending));
                }
                text_before_is_total(key(last), keys[p + i]);
                text_before_is_total(key(last), keys[p]);
            }
            lemma_with_key_none(tail, key, k);
            assert(with_key(rest.insert(p, last), key, k) =~= with_key(head, key, k).push(last));
            assert(with_key(rest, key, k) =~= with_key(head, key, k));
        } else {
            assert(with_key(rest.insert(p, last), key, k) =~= with_key(rest, key, k));
        }
    }
}

/// Texts are ordered by the first character in which they differ; where one ends before
/// that, it comes first.
pub proof fn the_first_difference_decides(
    same: Seq<char>,
    a: char,
    x: Seq<char>,
    b: char,
    y: Seq<char>,
)
    requires
        a != b,
    ensures
        text_before(same + seq![a] + x, same + seq![b] + y) == ((a as int) < b as int),
        text_before(same, same + seq![b] + y),
        !text_before(same + seq![b] + y, same),
    decreases same.len(),
{
    let p = same + seq![a] + x;
    let q = same + seq![b] + y;
    if same.len() > 0 {
        assert(p[0] == same[0] && q[0] == same[0]);
        assert(p.skip(1) =~= same.skip(1) + seq![a] + x);
        assert(q.skip(1) =~= same.skip(1) + seq![b] + y);
        the_first_difference_decides(same.skip(1), a, x, b, y);
    } else {
        assert(p[0] == a && q[0] == b);
    }
}

} // verus!
