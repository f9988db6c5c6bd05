//! Sequences of keyed entries in order of use: the mathematical model of a
//! least-recently-used cache. The first entry is the least recently used one,
//! the last entry the most recently used one.

use vstd::prelude::*;

verus! {

/// Whether some entry has the key `key`.
pub open spec fn holds<V>(entries: Seq<(usize, V)>, key: usize) -> bool {
    exists|i: int| 0 <= i < entries.len() && (#[trigger] entries[i]).0 == key
}

/// The position of an entry with the key `key`.
pub open spec fn place<V>(entries: Seq<(usize, V)>, key: usize) -> int {
    choose|i: int| 0 <= i < entries.len() && (#[trigger] entries[i]).0 == key
}

/// The value stored under `key`, if there is one.
pub open spec fn lookup<V>(entries: Seq<(usize, V)>, key: usize) -> Option<V> {
    if holds(entries, key) {
        Some(entries[place(entries, key)].1)
    } else {
        None
    }
}

/// No key occurs twice.
pub open spec fn distinct<V>(entries: Seq<(usize, V)>) -> bool {
    forall|i: int, j: int|
        0 <= i < j < entries.len() ==> (#[trigger] entries[i]).0 != (#[trigger] entries[j]).0
}

/// The entries after the one under `key` got the value `value` and became the
/// most recently used one. Without an entry under `key` nothing changes.
pub open spec fn renewed<V>(entries: Seq<(usize, V)>, key: usize, value: V) -> Seq<(usize, V)> {
    if holds(entries, key) {
        entries.remove(place(entries, key)).push((key, value))
    } else {
        entries
    }
}

/// The entries after the one under `key` became the most recently used one.
/// Without an entry under `key` nothing changes.
pub open spec fn touched<V>(entries: Seq<(usize, V)>, key: usize) -> Seq<(usize, V)> {
    if holds(entries, key) {
        renewed(entries, key, entries[place(entries, key)].1)
    } else {
        entries
    }
}

/// The entries after `value` was put under `key` into a cache that holds at most
/// `limit` entries: an entry under `key` is renewed; otherwise the new entry
/// becomes the most recently used one, and where the cache is full the least
/// recently used entry leaves first. A cache without room for any entry stays
/// empty.
pub open spec fn inserted<V>(entries: Seq<(usize, V)>, limit: nat, key: usize, value: V) -> Seq<
    (usize, V),
> {
    if holds(entries, key) {
        renewed(entries, key, value)
    } else if limit == 0 {
        entries
    } else if entries.len() == limit {
        entries.drop_first().push((key, value))
    } else {
        entries.push((key, value))
    }
}

/// With distinct keys, the entry under a key is found at its one position.
pub proof fn lemma_place_unique<V>(entries: Seq<(usize, V)>, i: int)
    requires
        distinct(entries),
        0 <= i < entries.len(),
    ensures
        holds(entries, entries[i].0),
        place(entries, entries[i].0) == i,
        lookup(entries, entries[i].0) == Some(entries[i].1),
{
    let key = entries[i].0;
    let p = place(entries, key);
    assert(0 <= p < entries.len() && entries[p].0 == key);
    if p < i {
        assert(entries[p].0 != entries[i].0);
    } else if i < p {
        assert(entries[i].0 != entries[p].0);
    }
}

/// Renewing an entry keeps the keys distinct and the number of entries, makes
/// the entry the last one, and leaves every other key's value as it was.
pub proof fn lemma_renewed<V>(entries: Seq<(usize, V)>, key: usize, value: V)
    requires
        distinct(entries),
        holds(entries, key),
    ensures
        distinct(renewed(entries, key, value)),
        renewed(entries, key, value).len() == entries.len(),
        renewed(entries, key, value).last() == (key, value),
        forall|other: usize| holds(renewed(entries, key, value), other) <==> holds(entries, other),
        lookup(renewed(entries, key, value), key) == Some(value),
        forall|other: usize|
            other != key ==> lookup(renewed(entries, key, value), other) == lookup(entries, other),
{
    let p = place(entries, key);
    let after = renewed(entries, key, value);
    let rest = entries.remove(p);
    assert(0 <= p < entries.len() && entries[p].0 == key);
    assert forall|i: int| 0 <= i < rest.len() implies (#[trigger] rest[i]).0 != key && rest[i]
        == entries[if i < p { i } else { i + 1 }] by {
        let j = if i < p { i } else { i + 1 };
        assert(rest[i] == entries[j]);
        if j < p {
            assert(entries[j].0 != entries[p].0);
        } else {
            assert(entries[p].0 != entries[j].0);
        }
    }
    assert forall|i: int, j: int| 0 <= i < j < after.len() implies (#[trigger] after[i]).0 != (
    #[trigger] after[j]).0 by {
        if j < rest.len() {
            let a = if i < p { i } else { i + 1 };
            let b = if j < p { j } else { j + 1 };
            assert(after[i] == rest[i] && after[j] == rest[j]);
            assert(entries[a].0 != entries[b].0);
        } else {
            assert(after[i] == rest[i]);
        }
    }
    let last = after.len() - 1;
    assert(after[last] == (key, value));
    lemma_place_unique(after, last);
    assert forall|other: usize| holds(after, other) <==> holds(entries, other) by {
        if holds(after, other) {
            let i = place(after, other);
            assert(0 <= i < after.len() && after[i].0 == other);
            if i < rest.len() {
                let a = if i < p { i } else { i + 1 };
                assert(after[i] == rest[i]);
                assert(entries[a].0 == other);
            } else {
                assert(entries[p].0 == other);
            }
        }
        if holds(entries, other) {
            let a = place(entries, other);
            assert(0 <= a < entries.len() && entries[a].0 == other);
            if a == p {
                assert(after[last].0 == other);
            } else {
                let i = if a < p { a } else { a - 1 };
                assert(after[i] == rest[i]);
                assert(after[i].0 == other);
            }
        }
    }
    assert forall|other: usize| other != key implies lookup(after, other) == lookup(
        entries,
        other,
    ) by {
        if holds(entries, other) {
            let a = place(entries, other);
            assert(0 <= a < entries.len() && entries[a].0 == other);
            let i = if a < p { a } else { a - 1 };
            assert(after[i] == rest[i]);
            assert(after[i] == entries[a]);
            lemma_place_unique(after, i);
        }
    }
}

/// Touching an entry keeps the keys distinct, the number of entries and every
/// key's value.
pub proof fn lemma_touched<V>(entries: Seq<(usize, V)>, key: usize)
    requires
        distinct(entries),
    ensures
        distinct(touched(entries, key)),
        touched(entries, key).len() == entries.len(),
        forall|other: usize| holds(touched(entries, key), other) <==> holds(entries, other),
        forall|other: usize| lookup(touched(entries, key), other) == lookup(entries, other),
        holds(entries, key) ==> touched(entries, key).last().0 == key,
{
    if holds(entries, key) {
        let p = place(entries, key);
        assert(0 <= p < entries.len() && entries[p].0 == key);
        lemma_renewed(entries, key, entries[p].1);
    }
}

/// Putting a value under a key keeps the keys distinct and the cache within its
/// limit. With room for at least one entry the key is held afterwards, as the
/// most recently used one, with the value that was put.
pub proof fn lemma_inserted<V>(entries: Seq<(usize, V)>, limit: nat, key: usize, value: V)
    requires
        distinct(entries),
        entries.len() <= limit,
    ensures
        distinct(inserted(entries, limit, key, value)),
        inserted(entries, limit, key, value).len() <= limit,
        forall|other: usize|
            holds(inserted(entries, limit, key, value), other) ==> other == key || holds(
                entries,
                other,
            ),
        limit >= 1 ==> lookup(inserted(entries, limit, key, value), key) == Some(value),
        limit >= 1 ==> inserted(entries, limit, key, value).last() == (key, value),
        limit >= 1 && !holds(entries, key) && entries.len() < limit ==> forall|other: usize|
            other != key ==> lookup(inserted(entries, limit, key, value), other) == lookup(
                entries,
                other,
            ),
        limit >= 1 && !holds(entries, key) && entries.len() == limit ==> forall|other: usize|
            other != key && other != entries[0].0 ==> lookup(
                inserted(entries, limit, key, value),
                other,
            ) == lookup(entries, other),
        limit >= 1 && !holds(entries, key) && entries.len() == limit ==> !holds(
            inserted(entries, limit, key, value),
            entries[0].0,
        ),
{
    let after = inserted(entries, limit, key, value);
    if holds(entries, key) {
        lemma_renewed(entries, key, value);
    } else if limit == 0 {
    } else {
        let kept = if entries.len() == limit { entries.drop_first() } else { entries };
        let shift: int = if entries.len() == limit { 1 } else { 0 };
        assert(after == kept.push((key, value)));
        assert forall|i: int| 0 <= i < kept.len() implies #[trigger] kept[i] == entries[i + shift]
            && kept[i].0 != key by {
            assert(entries[i + shift].0 != key);
        }
        assert forall|i: int, j: int| 0 <= i < j < after.len() implies (#[trigger] after[i]).0 != (
        #[trigger] after[j]).0 by {
            if j < kept.len() {
                assert(after[i] == kept[i] && after[j] == kept[j]);
                assert(entries[i + shift].0 != entries[j + shift].0);
            } else {
                assert(after[i] == kept[i]);
            }
        }
        let last = after.len() - 1;
        assert(after[last] == (key, value));
        lemma_place_unique(after, last);
        assert forall|other: usize| holds(after, other) implies other == key || holds(
            entries,
            other,
        ) by {
            let i = place(after, other);
            assert(0 <= i < after.len() && after[i].0 == other);
            if i < kept.len() {
                assert(after[i] == kept[i]);
                assert(entries[i + shift].0 == other);
            }
        }
        assert forall|other: usize|
            other != key && (shift == 1 ==> other != entries[0].0) implies lookup(after, other)
            == lookup(entries, other) by {
            if holds(entries, other) {
                let a = place(entries, other);
                assert(0 <= a < entries.len() && entries[a].0 == other);
                assert(after[a - shift] == kept[a - shift]);
                lemma_place_unique(after, a - shift);
            } else if holds(after, other) {
                let i = place(after, other);
                assert(0 <= i < after.len() && after[i].0 == other);
                assert(after[i] == kept[i]);
                assert(entries[i + shift].0 == other);
            }
        }
        if shift == 1 {
            if holds(after, entries[0].0) {
                let i = place(after, entries[0].0);
                assert(0 <= i < after.len() && after[i].0 == entries[0].0);
                assert(after[i] == kept[i]);
                assert(entries[0].0 != entries[i + 1].0);
            }
        }
    }
}

/// The entries after each key of `targets`, in turn, that had no entry was put
/// with the value `value`.
pub open spec fn filled<V>(
    entries: Seq<(usize, V)>,
    limit: nat,
    targets: Seq<usize>,
    value: V,
) -> Seq<(usize, V)>
    decreases targets.len(),
{
    if targets.len() == 0 {
        entries
    } else {
        let before = filled(entries, limit, targets.drop_last(), value);
        if holds(before, targets.last()) {
            before
        } else {
            inserted(before, limit, targets.last(), value)
        }
    }
}

/// The keys of `targets`, in their order, that had no entry when their turn
/// came while the cache was [`filled`].
pub open spec fn missing<V>(
    entries: Seq<(usize, V)>,
    limit: nat,
    targets: Seq<usize>,
    value: V,
) -> Seq<usize>
    decreases targets.len(),
{
    if targets.len() == 0 {
        Seq::empty()
    } else {
        let before = filled(entries, limit, targets.drop_last(), value);
        let earlier = missing(entries, limit, targets.drop_last(), value);
        if holds(before, targets.last()) {
            earlier
        } else {
            earlier.push(targets.last())
        }
    }
}

/// Filling a cache keeps the keys distinct and the cache within its limit, brings
/// in no key but those of the targets, and asks for no more keys than there are
/// targets: only for targets, and for none of them twice unless it occurs twice
/// among the targets.
pub proof fn lemma_filled<V>(entries: Seq<(usize, V)>, limit: nat, targets: Seq<usize>, value: V)
    requires
        distinct(entries),
        entries.len() <= limit,
    ensures
        distinct(filled(entries, limit, targets, value)),
        filled(entries, limit, targets, value).len() <= limit,
        forall|key: usize|
            holds(filled(entries, limit, targets, value), key) ==> holds(entries, key)
                || targets.contains(key),
        missing(entries, limit, targets, value).len() <= targets.len(),
        forall|i: int|
            0 <= i < missing(entries, limit, targets, value).len() ==> targets.contains(
                #[trigger] missing(entries, limit, targets, value)[i],
            ),
        targets.no_duplicates() ==> missing(entries, limit, targets, value).no_duplicates(),
    decreases targets.len(),
{
    if targets.len() > 0 {
        let shorter = targets.drop_last();
        let before = filled(entries, limit, shorter, value);
        let earlier = missing(entries, limit, shorter, value);
        lemma_filled(entries, limit, shorter, value);
        lemma_inserted(before, limit, targets.last(), value);
        assert(targets.contains(targets.last())) by {
            assert(targets[targets.len() - 1] == targets.last());
        }
        assert forall|key: usize| shorter.contains(key) implies targets.contains(key) by {
            let i = choose|i: int| 0 <= i < shorter.len() && shorter[i] == key;
            assert(targets[i] == key);
        }
        let asked = missing(entries, limit, targets, value);
        assert forall|i: int| 0 <= i < asked.len() implies targets.contains(
            #[trigger] asked[i],
        ) by {
            if i < earlier.len() {
                assert(asked[i] == earlier[i]);
            } else {
                assert(asked[i] == targets.last());
            }
        }
        if targets.no_duplicates() {
            assert forall|i: int, j: int| 0 <= i < j < asked.len() implies asked[i]
                != asked[j] by {
                assert(asked[i] == earlier[i]);
                if j < earlier.len() {
                    assert(asked[j] == earlier[j]);
                } else {
                    let at = choose|at: int| 0 <= at < shorter.len() && shorter[at] == earlier[i];
                    assert(targets[at] == earlier[i]);
                }
            }
        }
    }
}

/// The entries that stand for `keys`, each with the value `value`.
pub open spec fn fresh<V>(keys: Seq<usize>, value: V) -> Seq<(usize, V)> {
    keys.map_values(|key: usize| (key, value))
}

/// The number of entries that have to leave for `count` entries to fit a cache
/// that holds at most `limit`.
pub open spec fn overflow(count: nat, limit: nat) -> nat {
    if count > limit {
        (count - limit) as nat
    } else {
        0
    }
}

/// A filled cache holds what it held before, followed by an entry for each key
/// that was asked for, less as many of the least recently used entries as did
/// not fit.
pub proof fn lemma_filled_shape<V>(
    entries: Seq<(usize, V)>,
    limit: nat,
    targets: Seq<usize>,
    value: V,
)
    requires
        entries.len() <= limit,
    ensures
        filled(entries, limit, targets, value) == (entries + fresh(
            missing(entries, limit, targets, value),
            value,
        )).skip(
            overflow(entries.len() + missing(entries, limit, targets, value).len(), limit) as int,
        ),
        filled(entries, limit, targets, value).len() <= limit,
    decreases targets.len(),
{
    let asked = missing(entries, limit, targets, value);
    let all = entries + fresh(asked, value);
    if targets.len() == 0 {
        assert(all =~= entries);
        assert(all.skip(0) =~= entries);
    } else {
        let shorter = targets.drop_last();
        let last = targets.last();
        let before = filled(entries, limit, shorter, value);
        let earlier = missing(entries, limit, shorter, value);
        let old_all = entries + fresh(earlier, value);
        let gone = overflow(entries.len() + earlier.len(), limit);
        lemma_filled_shape(entries, limit, shorter, value);
        assert(before == old_all.skip(gone as int));
        if holds(before, last) {
        } else {
            assert(asked == earlier.push(last));
            assert(all =~= old_all.push((last, value)));
            if limit == 0 {
                assert(filled(entries, limit, targets, value) =~= all.skip(all.len() as int));
            } else if before.len() == limit {
                assert(before.drop_first().push((last, value)) =~= all.skip(gone as int + 1));
            } else {
                assert(gone == 0);
                assert(before.push((last, value)) =~= all.skip(0));
            }
        }
    }
}

/// What is asked for on the way through the first `k` targets is the beginning
/// of what is asked for on the way through all of them, and the rest of the way
/// asks for no more keys than it has targets.
pub proof fn lemma_missing_prefix<V>(
    entries: Seq<(usize, V)>,
    limit: nat,
    targets: Seq<usize>,
    value: V,
    k: int,
)
    requires
        0 <= k <= targets.len(),
    ensures
        missing(entries, limit, targets.take(k), value).is_prefix_of(
            missing(entries, limit, targets, value),
        ),
        missing(entries, limit, targets, value).len() - missing(
            entries,
            limit,
            targets.take(k),
            value,
        ).len() <= targets.len() - k,
    decreases targets.len() - k,
{
    if k == targets.len() {
        assert(targets.take(k) =~= targets);
    } else {
        lemma_missing_prefix(entries, limit, targets, value, k + 1);
        assert(targets.take(k + 1).drop_last() =~= targets.take(k));
        let short = missing(entries, limit, targets.take(k), value);
        let long = missing(entries, limit, targets.take(k + 1), value);
        let whole = missing(entries, limit, targets, value);
        assert(short.is_prefix_of(long));
        assert(short =~= whole.take(short.len() as int));
    }
}

/// A key that is asked for is a target that had no entry when its turn came.
pub proof fn lemma_missing_source<V>(
    entries: Seq<(usize, V)>,
    limit: nat,
    targets: Seq<usize>,
    value: V,
    j: int,
) -> (i: int)
    requires
        0 <= j < missing(entries, limit, targets, value).len(),
    ensures
        0 <= i < targets.len(),
        targets[i] == missing(entries, limit, targets, value)[j],
        !holds(filled(entries, limit, targets.take(i), value), targets[i]),
    decreases targets.len(),
{
    let shorter = targets.drop_last();
    let earlier = missing(entries, limit, shorter, value);
    assert(shorter =~= targets.take(targets.len() - 1));
    if j < earlier.len() {
        let i = lemma_missing_source(entries, limit, shorter, value, j);
        assert(shorter.take(i) =~= targets.take(i));
        i
    } else {
        targets.len() - 1
    }
}

/// On the way through the first `k` targets, a second filling asks for none of
/// the keys that the first filling asked for, and the two fillings together
/// ask for no more keys than `k`.
proof fn lemma_refill_prefix<V>(
    entries: Seq<(usize, V)>,
    limit: nat,
    targets: Seq<usize>,
    value: V,
    k: int,
)
    requires
        entries.len() <= limit,
        targets.no_duplicates(),
        targets.len() <= limit,
        0 <= k <= targets.len(),
    ensures
        missing(filled(entries, limit, targets, value), limit, targets.take(k), value).len()
            + missing(entries, limit, targets.take(k), value).len() <= k,
        forall|i: int|
            0 <= i < missing(
                filled(entries, limit, targets, value),
                limit,
                targets.take(k),
                value,
            ).len() ==> !missing(entries, limit, targets, value).contains(
                #[trigger] missing(
                    filled(entries, limit, targets, value),
                    limit,
                    targets.take(k),
                    value,
                )[i],
            ),
    decreases k,
{
    let first = missing(entries, limit, targets, value);
    let once = filled(entries, limit, targets, value);
    if k > 0 {
        let t = targets[k - 1];
        let head = targets.take(k - 1);
        lemma_refill_prefix(entries, limit, targets, value, k - 1);
        assert(targets.take(k).drop_last() =~= head);
        assert(targets.take(k).last() == t);
        let again_before = missing(once, limit, head, value);
        let again = missing(once, limit, targets.take(k), value);
        let first_before = missing(entries, limit, head, value);
        let twice_before = filled(once, limit, head, value);
        lemma_filled_shape(entries, limit, targets, value);
        lemma_filled_shape(once, limit, head, value);
        lemma_missing_prefix(entries, limit, targets, value, k - 1);
        lemma_missing_prefix(entries, limit, targets, value, k);
        if !holds(filled(entries, limit, head, value), t) {
            // The first filling asked for `t`; it is still held when the
            // second filling comes to it.
            let j = first_before.len() as int;
            assert(missing(entries, limit, targets.take(k), value) == first_before.push(t));
            assert(first[j] == t) by {
                assert(missing(entries, limit, targets.take(k), value)[j] == t);
            }
            let all = entries + fresh(first, value);
            let gone = overflow(entries.len() + first.len(), limit) as int;
            assert(all[entries.len() + j] == (t, value));
            let at = entries.len() + j - gone;
            assert(once[at] == (t, value));
            let all2 = once + fresh(again_before, value);
            let gone2 = overflow(once.len() + again_before.len(), limit) as int;
            assert(all2[at] == (t, value));
            assert(twice_before[at - gone2] == (t, value));
            assert(holds(twice_before, t));
            assert(again == again_before);
        } else {
            // The first filling did not ask for `t`.
            assert(!first.contains(t)) by {
                if first.contains(t) {
                    let j = choose|j: int| 0 <= j < first.len() && first[j] == t;
                    let i = lemma_missing_source(entries, limit, targets, value, j);
                    assert(targets[i] == targets[k - 1]);
                }
            }
            assert forall|i: int| 0 <= i < again.len() implies !first.contains(
                #[trigger] again[i],
            ) by {
                if i < again_before.len() {
                    assert(again[i] == again_before[i]);
                }
            }
        }
    } else {
        assert(targets.take(0) =~= Seq::<usize>::empty());
    }
}

/// A cache that is filled twice for the same targets is not asked twice for
/// any key, as long as no target occurs twice and the cache has room for as
/// many entries as there are targets.
pub proof fn lemma_refill_asks_nothing_twice<V>(
    entries: Seq<(usize, V)>,
    limit: nat,
    targets: Seq<usize>,
    value: V,
)
    requires
        entries.len() <= limit,
        targets.no_duplicates(),
        targets.len() <= limit,
    ensures
        forall|key: usize|
            missing(entries, limit, targets, value).contains(key) ==> !missing(
                filled(entries, limit, targets, value),
                limit,
                targets,
                value,
            ).contains(key),
{
    let first = missing(entries, limit, targets, value);
    let again = missing(filled(entries, limit, targets, value), limit, targets, value);
    lemma_refill_prefix(entries, limit, targets, value, targets.len() as int);
    assert(targets.take(targets.len() as int) =~= targets);
    assert forall|key: usize| first.contains(key) implies !again.contains(key) by {
        if again.contains(key) {
            let i = choose|i: int| 0 <= i < again.len() && again[i] == key;
            assert(!first.contains(again[i]));
        }
    }
}

/// In a cache that had room for every key it was asked for, each target has an
/// entry after the filling.
proof fn lemma_filled_holds_targets<V>(
    entries: Seq<(usize, V)>,
    limit: nat,
    targets: Seq<usize>,
    value: V,
    i: int,
)
    requires
        entries.len() + missing(entries, limit, targets, value).len() <= limit,
        0 <= i < targets.len(),
    ensures
        holds(filled(entries, limit, targets, value), targets[i]),
{
    let first = missing(entries, limit, targets, value);
    let once = filled(entries, limit, targets, value);
    let t = targets[i];
    lemma_filled_shape(entries, limit, targets, value);
    assert(once =~= entries + fresh(first, value));
    lemma_missing_prefix(entries, limit, targets, value, i);
    lemma_missing_prefix(entries, limit, targets, value, i + 1);
    lemma_filled_shape(entries, limit, targets.take(i), value);
    assert(targets.take(i + 1).drop_last() =~= targets.take(i));
    assert(targets.take(i + 1).last() == t);
    let before = filled(entries, limit, targets.take(i), value);
    let earlier = missing(entries, limit, targets.take(i), value);
    assert(before =~= entries + fresh(earlier, value));
    if holds(before, t) {
        let p = place(before, t);
        assert(0 <= p < before.len() && before[p].0 == t);
        assert(once[p] == before[p]);
    } else {
        let j = earlier.len() as int;
        assert(missing(entries, limit, targets.take(i + 1), value) == earlier.push(t));
        assert(first[j] == t) by {
            assert(missing(entries, limit, targets.take(i + 1), value)[j] == t);
        }
        assert(once[entries.len() + j] == (t, value));
    }
}

/// On the way through the first `k` targets, a cache that had room for every
/// key it was asked for is asked for nothing more and stays as it is.
proof fn lemma_refill_with_room_prefix<V>(
    entries: Seq<(usize, V)>,
    limit: nat,
    targets: Seq<usize>,
    value: V,
    k: int,
)
    requires
        entries.len() + missing(entries, limit, targets, value).len() <= limit,
        0 <= k <= targets.len(),
    ensures
        missing(filled(entries, limit, targets, value), limit, targets.take(k), value)
            == Seq::<usize>::empty(),
        filled(filled(entries, limit, targets, value), limit, targets.take(k), value) == filled(
            entries,
            limit,
            targets,
            value,
        ),
    decreases k,
{
    if k > 0 {
        lemma_refill_with_room_prefix(entries, limit, targets, value, k - 1);
        assert(targets.take(k).drop_last() =~= targets.take(k - 1));
        assert(targets.take(k).last() == targets[k - 1]);
        lemma_filled_holds_targets(entries, limit, targets, value, k - 1);
    } else {
        assert(targets.take(0) =~= Seq::<usize>::empty());
    }
}

/// A cache that had room for every key it was asked for is asked for nothing
/// when it is filled again for the same targets, and stays as it is.
pub proof fn lemma_refill_with_room<V>(
    entries: Seq<(usize, V)>,
    limit: nat,
    targets: Seq<usize>,
    value: V,
)
    requires
        entries.len() + missing(entries, limit, targets, value).len() <= limit,
    ensures
        missing(filled(entries, limit, targets, value), limit, targets, value)
            == Seq::<usize>::empty(),
        filled(filled(entries, limit, targets, value), limit, targets, value) == filled(
            entries,
            limit,
            targets,
            value,
        ),
{
    lemma_refill_with_room_prefix(entries, limit, targets, value, targets.len() as int);
    assert(targets.take(targets.len() as int) =~= targets);
}

} // verus!
