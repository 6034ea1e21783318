//! Stable sorting.

use vstd::prelude::*;

verus! {

/// Puts an item behind the last one that may stand before it.
pub open spec fn insert_sorted<A>(sorted: Seq<A>, item: A, le: spec_fn(A, A) -> bool) -> Seq<A>
    decreases sorted.len(),
{
    if sorted.len() == 0 || le(sorted.last(), item) {
        sorted.push(item)
    } else {
        insert_sorted(sorted.drop_last(), item, le).push(sorted.last())
    }
}

/// The items in order; items that may stand in either order keep theirs.
pub open spec fn stable_sort<A>(items: Seq<A>, le: spec_fn(A, A) -> bool) -> Seq<A>
    decreases items.len(),
{
    if items.len() == 0 {
        items
    } else {
        insert_sorted(stable_sort(items.drop_last(), le), items.last(), le)
    }
}

/// Whether each item may stand before all that follow it.
pub open spec fn is_sorted<A>(items: Seq<A>, le: spec_fn(A, A) -> bool) -> bool {
    forall|i: int, j: int| 0 <= i < j < items.len() ==> le(#[trigger] items[i], #[trigger] items[j])
}

/// Whether a relation orders any two items, and does so transitively.
pub open spec fn is_order<A>(le: spec_fn(A, A) -> bool) -> bool {
    &&& forall|a: A, b: A| #[trigger] le(a, b) || le(b, a)
    &&& forall|a: A, b: A, c: A| #[trigger] le(a, b) && #[trigger] le(b, c) ==> le(a, c)
}

proof fn lemma_insert_sorted<A>(sorted: Seq<A>, item: A, le: spec_fn(A, A) -> bool)
    requires
        is_order(le),
        is_sorted(sorted, le),
    ensures
        is_sorted(insert_sorted(sorted, item, le), le),
        insert_sorted(sorted, item, le).to_multiset() == sorted.to_multiset().insert(item),
        insert_sorted(sorted, item, le).len() == sorted.len() + 1,
        forall|a: A| insert_sorted(sorted, item, le).contains(a) ==> sorted.contains(a) || a == item,
    decreases sorted.len(),
{
    broadcast use vstd::seq_lib::group_to_multiset_ensures;

    let inserted = insert_sorted(sorted, item, le);
    if sorted.len() == 0 || le(sorted.last(), item) {
        assert forall|i: int, j: int| 0 <= i < j < inserted.len() implies le(
            #[trigger] inserted[i],
            #[trigger] inserted[j],
        ) by {
            if j == sorted.len() {
                if i < sorted.len() - 1 {
                    assert(le(sorted[i], sorted[sorted.len() - 1]));
                }
            }
        }
        assert forall|a: A| inserted.contains(a) implies sorted.contains(a) || a == item by {
            let k = choose|k: int| 0 <= k < inserted.len() && inserted[k] == a;
            if k < sorted.len() {
                assert(sorted[k] == a);
            }
        }
    } else {
        let rest = sorted.drop_last();
        let last = sorted.last();
        assert(is_sorted(rest, le)) by {
            assert forall|i: int, j: int| 0 <= i < j < rest.len() implies le(
                #[trigger] rest[i],
                #[trigger] rest[j],
            ) by {
                assert(le(sorted[i], sorted[j]));
            }
        }
        lemma_insert_sorted(rest, item, le);
        let inner = insert_sorted(rest, item, le);
        assert(inserted == inner.push(last));
        assert(le(item, last));
        assert forall|i: int, j: int| 0 <= i < j < inserted.len() implies le(
            #[trigger] inserted[i],
            #[trigger] inserted[j],
        ) by {
            if j == inner.len() {
                assert(inner.contains(inner[i]));
                if inner[i] != item {
                    assert(rest.contains(inner[i]));
                    let k = choose|k: int| 0 <= k < rest.len() && rest[k] == inner[i];
                    assert(sorted[k] == inner[i]);
                    assert(le(sorted[k], sorted[sorted.len() - 1]));
                }
            } else {
                assert(le(inner[i], inner[j]));
            }
        }
        assert(rest.push(last) =~= sorted);
        assert(inserted.to_multiset() =~= sorted.to_multiset().insert(item));
        assert forall|a: A| inserted.contains(a) implies sorted.contains(a) || a == item by {
            let k = choose|k: int| 0 <= k < inserted.len() && inserted[k] == a;
            if k < inner.len() {
                assert(inner.contains(a));
                if a != item {
                    assert(rest.contains(a));
                    let m = choose|m: int| 0 <= m < rest.len() && rest[m] == a;
                    assert(sorted[m] == a);
                }
            } else {
                assert(sorted[sorted.len() - 1] == a);
            }
        }
    }
}

/// Sorting gives the same items, in order.
pub proof fn law_sort_orders_the_same_items<A>(items: Seq<A>, le: spec_fn(A, A) -> bool)
    requires
        is_order(le),
    ensures
        is_sorted(stable_sort(items, le), le),
        stable_sort(items, le).to_multiset() == items.to_multiset(),
        stable_sort(items, le).len() == items.len(),
    decreases items.len(),
{
    broadcast use vstd::seq_lib::group_to_multiset_ensures;

    if items.len() > 0 {
        law_sort_orders_the_same_items(items.drop_last(), le);
        lemma_insert_sorted(stable_sort(items.drop_last(), le), items.last(), le);
        assert(items.drop_last().push(items.last()) =~= items);
    }
}

/// The items that may stand in either order with `item`.
pub open spec fn ties<A>(items: Seq<A>, item: A, le: spec_fn(A, A) -> bool) -> Seq<A>
    decreases items.len(),
{
    if items.len() == 0 {
        items
    } else {
        let before = ties(items.drop_last(), item, le);
        if le(items.last(), item) && le(item, items.last()) {
            before.push(items.last())
        } else {
            before
        }
    }
}

proof fn lemma_insert_ties<A>(sorted: Seq<A>, item: A, probe: A, le: spec_fn(A, A) -> bool)
    requires
        is_order(le),
    ensures
        ties(insert_sorted(sorted, item, le), probe, le) == ties(sorted.push(item), probe, le),
    decreases sorted.len(),
{
    reveal_with_fuel(ties, 3);
    assert(sorted.push(item).drop_last() =~= sorted);
    if sorted.len() == 0 || le(sorted.last(), item) {
    } else {
        let rest = sorted.drop_last();
        let last = sorted.last();
        let inner = insert_sorted(rest, item, le);
        lemma_insert_ties(rest, item, probe, le);
        assert(rest.push(item).drop_last() =~= rest);
        assert(inner.push(last).drop_last() =~= inner);
        assert(le(item, last));
        if le(last, probe) && le(probe, last) && le(item, probe) && le(probe, item) {
            assert(le(last, item));
        }
    }
}

/// Sorting is stable: items that may stand in either order keep the order in
/// which they came.
pub proof fn law_sort_is_stable<A>(items: Seq<A>, probe: A, le: spec_fn(A, A) -> bool)
    requires
        is_order(le),
    ensures
        ties(stable_sort(items, le), probe, le) == ties(items, probe, le),
    decreases items.len(),
{
    if items.len() > 0 {
        let rest = items.drop_last();
        law_sort_is_stable(rest, probe, le);
        let sorted = stable_sort(rest, le);
        lemma_insert_ties(sorted, items.last(), probe, le);
        assert(sorted.push(items.last()).drop_last() =~= sorted);
    }
}

proof fn lemma_ties_are_items<A>(items: Seq<A>, probe: A, le: spec_fn(A, A) -> bool)
    ensures
        forall|k: int|
            0 <= k < ties(items, probe, le).len() ==> items.contains(
                #[trigger] ties(items, probe, le)[k],
            ) && le(ties(items, probe, le)[k], probe) && le(probe, ties(items, probe, le)[k]),
    decreases items.len(),
{
    if items.len() > 0 {
        let rest = items.drop_last();
        lemma_ties_are_items(rest, probe, le);
        assert forall|k: int| 0 <= k < ties(items, probe, le).len() implies items.contains(
            #[trigger] ties(items, probe, le)[k],
        ) && le(ties(items, probe, le)[k], probe) && le(probe, ties(items, probe, le)[k]) by {
            if k < ties(rest, probe, le).len() {
                let tie = ties(rest, probe, le)[k];
                assert(rest.contains(tie));
                let at = choose|at: int| 0 <= at < rest.len() && rest[at] == tie;
                assert(items[at] == tie);
            } else {
                assert(items[items.len() - 1] == items.last());
            }
        }
    }
}

/// The last of sorted items may stand behind anything that ties with an item.
proof fn lemma_last_is_behind_ties<A>(sorted: Seq<A>, probe: A, le: spec_fn(A, A) -> bool)
    requires
        is_order(le),
        is_sorted(sorted, le),
        ties(sorted, probe, le).len() > 0,
    ensures
        sorted.len() > 0,
        le(probe, sorted.last()),
{
    lemma_ties_are_items(sorted, probe, le);
    let tie = ties(sorted, probe, le)[0];
    assert(sorted.contains(tie));
    let at = choose|at: int| 0 <= at < sorted.len() && sorted[at] == tie;
    if at < sorted.len() - 1 {
        assert(le(sorted[at], sorted[sorted.len() - 1]));
    }
}

/// Sorted items are known by what ties with what, in order.
proof fn lemma_sorted_by_ties<A>(left: Seq<A>, right: Seq<A>, le: spec_fn(A, A) -> bool)
    requires
        is_order(le),
        is_sorted(left, le),
        is_sorted(right, le),
        forall|probe: A| #[trigger] ties(left, probe, le) == ties(right, probe, le),
    ensures
        left == right,
    decreases left.len(),
{
    if left.len() == 0 {
        if right.len() > 0 {
            assert(le(right.last(), right.last()));
            assert(ties(left, right.last(), le).len() == 0);
        }
        assert(left =~= right);
    } else {
        let last = left.last();
        assert(le(last, last));
        assert(ties(left, last, le).last() == last);
        assert(ties(right, last, le).len() > 0);
        lemma_last_is_behind_ties(right, last, le);
        let other = right.last();
        assert(le(other, other));
        assert(ties(right, other, le).last() == other);
        assert(ties(left, other, le).len() > 0);
        lemma_last_is_behind_ties(left, other, le);
        assert(ties(right, last, le).last() == other);
        assert(last == other);
        let left_rest = left.drop_last();
        let right_rest = right.drop_last();
        assert forall|i: int, j: int| 0 <= i < j < left_rest.len() implies le(
            #[trigger] left_rest[i],
            #[trigger] left_rest[j],
        ) by {
            assert(le(left[i], left[j]));
        }
        assert forall|i: int, j: int| 0 <= i < j < right_rest.len() implies le(
            #[trigger] right_rest[i],
            #[trigger] right_rest[j],
        ) by {
            assert(le(right[i], right[j]));
        }
        assert forall|probe: A| #[trigger] ties(left_rest, probe, le) == ties(
            right_rest,
            probe,
            le,
        ) by {
            assert(ties(left, probe, le) == ties(right, probe, le));
            if le(last, probe) && le(probe, last) {
                assert(ties(left, probe, le).drop_last() =~= ties(left_rest, probe, le));
                assert(ties(right, probe, le).drop_last() =~= ties(right_rest, probe, le));
            }
        }
        lemma_sorted_by_ties(left_rest, right_rest, le);
        assert(left =~= left_rest.push(last));
        assert(right =~= right_rest.push(last));
    }
}

/// Sorting depends only on the order among items that may stand in either: two
/// arrangements that agree on it sort to the same.
pub proof fn law_sort_depends_on_ties<A>(left: Seq<A>, right: Seq<A>, le: spec_fn(A, A) -> bool)
    requires
        is_order(le),
        forall|probe: A| #[trigger] ties(left, probe, le) == ties(right, probe, le),
    ensures
        stable_sort(left, le) == stable_sort(right, le),
{
    law_sort_orders_the_same_items(left, le);
    law_sort_orders_the_same_items(right, le);
    let first = stable_sort(left, le);
    let second = stable_sort(right, le);
    assert forall|probe: A| #[trigger] ties(first, probe, le) == ties(second, probe, le) by {
        law_sort_is_stable(left, probe, le);
        law_sort_is_stable(right, probe, le);
        assert(ties(left, probe, le) == ties(right, probe, le));
    }
    lemma_sorted_by_ties(first, second, le);
}

proof fn lemma_insert_map<A, B>(
    sorted: Seq<A>,
    item: A,
    f: spec_fn(A) -> B,
    le: spec_fn(A, A) -> bool,
    mapped_le: spec_fn(B, B) -> bool,
)
    requires
        forall|a: A, b: A| #[trigger] le(a, b) == mapped_le(f(a), f(b)),
    ensures
        insert_sorted(sorted, item, le).map_values(f) == insert_sorted(
            sorted.map_values(f),
            f(item),
            mapped_le,
        ),
    decreases sorted.len(),
{
    let mapped = sorted.map_values(f);
    if sorted.len() == 0 || le(sorted.last(), item) {
        assert(sorted.push(item).map_values(f) =~= mapped.push(f(item)));
        if sorted.len() > 0 {
            assert(mapped.last() == f(sorted.last()));
        }
    } else {
        lemma_insert_map(sorted.drop_last(), item, f, le, mapped_le);
        assert(sorted.drop_last().map_values(f) =~= mapped.drop_last());
        assert(mapped.last() == f(sorted.last()));
        let inner = insert_sorted(sorted.drop_last(), item, le);
        assert(inner.push(sorted.last()).map_values(f) =~= inner.map_values(f).push(
            f(sorted.last()),
        ));
    }
}

/// Sorting commutes with a function that keeps the order.
pub proof fn lemma_sort_map<A, B>(
    items: Seq<A>,
    f: spec_fn(A) -> B,
    le: spec_fn(A, A) -> bool,
    mapped_le: spec_fn(B, B) -> bool,
)
    requires
        forall|a: A, b: A| #[trigger] le(a, b) == mapped_le(f(a), f(b)),
    ensures
        stable_sort(items, le).map_values(f) == stable_sort(items.map_values(f), mapped_le),
    decreases items.len(),
{
    if items.len() == 0 {
        assert(items.map_values(f) =~= Seq::empty());
    } else {
        lemma_sort_map(items.drop_last(), f, le, mapped_le);
        lemma_insert_map(stable_sort(items.drop_last(), le), items.last(), f, le, mapped_le);
        assert(items.drop_last().map_values(f) =~= items.map_values(f).drop_last());
        assert(items.map_values(f).last() == f(items.last()));
    }
}

/// Something that can be sorted.
pub trait Sortable: Sized {
    /// Whether this may stand before another.
    spec fn precedes(self, other: Self) -> bool;

    /// Whether this may stand before another.
    fn may_precede(&self, other: &Self) -> (may: bool)
        ensures
            may == self.precedes(*other),
    ;
}

/// The order of something that can be sorted.
pub open spec fn order_of<T: Sortable>() -> spec_fn(T, T) -> bool {
    |a: T, b: T| a.precedes(b)
}

proof fn lemma_insert_at<A>(sorted: Seq<A>, item: A, le: spec_fn(A, A) -> bool, at: int)
    requires
        0 <= at <= sorted.len(),
        forall|k: int| at <= k < sorted.len() ==> !le(#[trigger] sorted[k], item),
        at > 0 ==> le(sorted[at - 1], item),
    ensures
        insert_sorted(sorted, item, le) == sorted.insert(at, item),
    decreases sorted.len() - at,
{
    if at == sorted.len() {
        assert(sorted.insert(at, item) =~= sorted.push(item));
    } else {
        let rest = sorted.drop_last();
        assert forall|k: int| at <= k < rest.len() implies !le(#[trigger] rest[k], item) by {
            assert(rest[k] == sorted[k]);
        }
        assert(!le(sorted[sorted.len() - 1], item));
        lemma_insert_at(rest, item, le, at);
        assert(rest.insert(at, item).push(sorted.last()) =~= sorted.insert(at, item));
    }
}

/// Sorts items, stably.
pub fn sort<T: Sortable>(items: Vec<T>) -> (sorted: Vec<T>)
    ensures
        sorted@ == stable_sort(items@, order_of::<T>()),
{
    let ghost le = order_of::<T>();
    let mut sorted: Vec<T> = Vec::new();
    for item in it: items
        invariant
            it.seq() == items@,
            le == order_of::<T>(),
            sorted@ == stable_sort(items@.take(it.index() as int), le),
    {
        let mut at: usize = sorted.len();
        while at > 0 && !sorted[at - 1].may_precede(&item)
            invariant
                at <= sorted@.len(),
                le == order_of::<T>(),
                forall|k: int| at <= k < sorted@.len() ==> !le(#[trigger] sorted@[k], item),
            decreases at,
        {
            at = at - 1;
        }
        proof {
            lemma_insert_at(sorted@, item, le, at as int);
            let seen = items@.take(it.index() + 1);
            assert(seen.drop_last() =~= items@.take(it.index() as int));
            assert(seen.last() == item);
        }
        sorted.insert(at, item);
    }
    assert(items@.take(items@.len() as int) =~= items@);
    sorted
}

// ---------------------------------------------------------------------------
// Orders
// ---------------------------------------------------------------------------

/// Lexicographic order by code point.
pub open spec fn text_le(a: Seq<char>, b: Seq<char>) -> bool
    decreases a.len(),
{
    if a.len() == 0 {
        true
    } else if b.len() == 0 {
        false
    } else if a[0] == b[0] {
        text_le(a.skip(1), b.skip(1))
    } else {
        (a[0] as int) < (b[0] as int)
    }
}

/// Any two texts are in order one way or the other, and in both only where
/// they are equal.
pub proof fn lemma_text_le_total(a: Seq<char>, b: Seq<char>)
    ensures
        text_le(a, b) || text_le(b, a),
        text_le(a, b) && text_le(b, a) ==> a == b,
    decreases a.len(),
{
    if a.len() > 0 && b.len() > 0 && a[0] == b[0] {
        lemma_text_le_total(a.skip(1), b.skip(1));
        if text_le(a, b) && text_le(b, a) {
            assert(a =~= seq![a[0]] + a.skip(1));
            assert(b =~= seq![b[0]] + b.skip(1));
        }
    } else if a.len() == 0 && b.len() == 0 {
        assert(a =~= b);
    }
}

/// The order of texts is transitive.
pub proof fn lemma_text_le_transitive(a: Seq<char>, b: Seq<char>, c: Seq<char>)
    requires
        text_le(a, b),
        text_le(b, c),
    ensures
        text_le(a, c),
    decreases a.len(),
{
    if a.len() > 0 && b.len() > 0 && c.len() > 0 && a[0] == b[0] && b[0] == c[0] {
        lemma_text_le_transitive(a.skip(1), b.skip(1), c.skip(1));
    }
}

/// Whether a text is not after another.
pub fn text_not_after(a: &str, b: &str) -> (le: bool)
    ensures
        le == text_le(a@, b@),
{
    let left = crate::text::chars_of(a);
    let right = crate::text::chars_of(b);
    let mut i: usize = 0;
    assert(a@.skip(0) =~= a@);
    assert(b@.skip(0) =~= b@);
    while i < left.len() && i < right.len()
        invariant
            left@ == a@,
            right@ == b@,
            i <= left@.len(),
            i <= right@.len(),
            text_le(a@, b@) == text_le(a@.skip(i as int), b@.skip(i as int)),
        decreases left@.len() - i,
    {
        assert(a@.skip(i as int)[0] == left@[i as int]);
        assert(b@.skip(i as int)[0] == right@[i as int]);
        if left[i] != right[i] {
            return left[i] < right[i];
        }
        assert(a@.skip(i as int).skip(1) =~= a@.skip(i + 1));
        assert(b@.skip(i as int).skip(1) =~= b@.skip(i + 1));
        i = i + 1;
    }
    i == left.len()
}

/// A moment: seconds since the Unix epoch, and nanoseconds.
#[derive(Clone, Copy, Debug, PartialEq, Eq, Structural)]
pub struct Timestamp {
    pub seconds: i64,
    pub nanos: u32,
}

/// Whether a moment is not after another.
pub open spec fn not_after(a: Timestamp, b: Timestamp) -> bool {
    a.seconds < b.seconds || (a.seconds == b.seconds && a.nanos <= b.nanos)
}

impl Timestamp {
    /// Whether this moment is not after another.
    pub fn is_not_after(&self, other: &Timestamp) -> (le: bool)
        ensures
            le == not_after(*self, *other),
    {
        self.seconds < other.seconds || (self.seconds == other.seconds && self.nanos
            <= other.nanos)
    }
}

/// A moment is before another where its seconds are fewer, or they are the same
/// and its nanoseconds are fewer.
pub proof fn law_moments_are_ordered_by_time(a: Timestamp, b: Timestamp)
    ensures
        a.seconds < b.seconds ==> not_after(a, b) && !not_after(b, a),
        a.seconds == b.seconds && a.nanos < b.nanos ==> not_after(a, b) && !not_after(b, a),
        a == b ==> not_after(a, b),
{
}

/// Texts are ordered by the first character in which they differ, and a text
/// stands before what it is the beginning of.
pub proof fn law_texts_are_ordered_by_character(
    common: Seq<char>,
    a: char,
    b: char,
    left: Seq<char>,
    right: Seq<char>,
)
    ensures
        text_le(common, common + right),
        right.len() > 0 ==> !text_le(common + right, common),
        (a as u32) < (b as u32) ==> text_le(
            common + seq![a] + left,
            common + seq![b] + right,
        ) && !text_le(common + seq![b] + right, common + seq![a] + left),
    decreases common.len(),
{
    let x = common + seq![a] + left;
    let y = common + seq![b] + right;
    let z = common + right;
    if common.len() == 0 {
        assert(z =~= right);
    } else {
        let rest = common.skip(1);
        law_texts_are_ordered_by_character(rest, a, b, left, right);
        assert(x.skip(1) =~= rest + seq![a] + left);
        assert(y.skip(1) =~= rest + seq![b] + right);
        assert(z.skip(1) =~= rest + right);
        assert(z[0] == common[0]);
    }
}

} // verus!
