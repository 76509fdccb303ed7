//! The order of records by their last use, the latest first.

use vstd::prelude::*;

verus! {

/// A record that knows when it was last used.
pub trait LastUsed: DeepView + Sized {
    /// When the record was last used.
    spec fn used(view: Self::V) -> i64;

    /// When the record was last used.
    fn used_at(&self) -> (res: i64)
        ensures
            res == Self::used(self.deep_view()),
    ;
}

/// Whether a record was last used at `time`.
pub open spec fn used_at_time<T: LastUsed>(time: i64) -> spec_fn(T::V) -> bool {
    |item: T::V| T::used(item) == time
}

/// The records among `items` that were last used at `time`, in their order.
pub open spec fn used_then<T: LastUsed>(items: Seq<T::V>, time: i64) -> Seq<T::V> {
    items.filter(used_at_time::<T>(time))
}

/// Whether `sorted` holds the records of `items`, those used later before those
/// used earlier, and those used at the same time in the order of `items`.
pub open spec fn latest_first<T: LastUsed>(sorted: Seq<T::V>, items: Seq<T::V>) -> bool {
    &&& forall|i: int, j: int|
        0 <= i < j < sorted.len() ==> T::used(#[trigger] sorted[i]) >= T::used(#[trigger] sorted[j])
    &&& sorted.to_multiset() == items.to_multiset()
    &&& forall|time: i64| #[trigger]
        used_then::<T>(sorted, time) == used_then::<T>(items, time)
}

/// A sorted list holds exactly the records of the list that it was made of.
pub proof fn sorting_keeps_the_records<T: LastUsed>(
    sorted: Seq<T::V>,
    items: Seq<T::V>,
    record: T::V,
)
    requires
        latest_first::<T>(sorted, items),
    ensures
        sorted.len() == items.len(),
        sorted.contains(record) <==> items.contains(record),
{
    broadcast use vstd::seq_lib::group_to_multiset_ensures;

    assert(sorted.to_multiset().len() == sorted.len());
    assert(items.to_multiset().len() == items.len());
    assert(sorted.to_multiset().count(record) == items.to_multiset().count(record));
}

/// Where no record stands twice in a list, none stands twice in the sorted
/// list.
pub proof fn sorting_repeats_no_record<T: LastUsed>(sorted: Seq<T::V>, items: Seq<T::V>)
    requires
        latest_first::<T>(sorted, items),
        items.no_duplicates(),
    ensures
        sorted.no_duplicates(),
{
    items.lemma_multiset_has_no_duplicates();
    sorted.lemma_multiset_has_no_duplicates_conv();
}

/// Two lists that are sorted out of the same list are the same.
pub proof fn sorting_gives_one_list<T: LastUsed>(
    first: Seq<T::V>,
    second: Seq<T::V>,
    items: Seq<T::V>,
)
    requires
        latest_first::<T>(first, items),
        latest_first::<T>(second, items),
    ensures
        first == second,
{
    assert forall|time: i64| #[trigger]
        used_then::<T>(first, time) == used_then::<T>(second, time) by {
        assert(used_then::<T>(first, time) == used_then::<T>(items, time));
        assert(used_then::<T>(second, time) == used_then::<T>(items, time));
    }
    lemma_sorted_lists_agree::<T>(first, second);
}

/// Sorting a sorted list changes nothing.
pub proof fn sorted_lists_stay<T: LastUsed>(sorted: Seq<T::V>, items: Seq<T::V>, again: Seq<T::V>)
    requires
        latest_first::<T>(sorted, items),
        latest_first::<T>(again, sorted),
    ensures
        again == sorted,
{
    assert(latest_first::<T>(sorted, sorted));
    sorting_gives_one_list::<T>(again, sorted, sorted);
}

proof fn lemma_used_then_first<T: LastUsed>(items: Seq<T::V>, time: i64)
    requires
        items.len() > 0,
    ensures
        used_then::<T>(items, time) == if T::used(items[0]) == time {
            seq![items[0]] + used_then::<T>(items.drop_first(), time)
        } else {
            used_then::<T>(items.drop_first(), time)
        },
{
    reveal(Seq::filter);
    let same_time = used_at_time::<T>(time);
    let single = seq![items[0]];
    assert(items =~= single + items.drop_first());
    Seq::filter_distributes_over_add(single, items.drop_first(), same_time);
    assert(single.drop_last() =~= Seq::<T::V>::empty());
    if T::used(items[0]) == time {
        assert(single.filter(same_time) =~= single);
    } else {
        lemma_used_then_empty::<T>(single, time);
        assert(Seq::<T::V>::empty() + used_then::<T>(items.drop_first(), time) =~= used_then::<T>(
            items.drop_first(),
            time,
        ));
    }
}

proof fn lemma_later_than_all<T: LastUsed>(sorted: Seq<T::V>, time: i64)
    requires
        forall|i: int, j: int|
            0 <= i < j < sorted.len() ==> T::used(#[trigger] sorted[i]) >= T::used(
                #[trigger] sorted[j],
            ),
        sorted.len() > 0 ==> T::used(sorted[0]) < time,
    ensures
        used_then::<T>(sorted, time) == Seq::<T::V>::empty(),
{
    assert forall|i: int| 0 <= i < sorted.len() implies T::used(#[trigger] sorted[i]) != time by {
        if i > 0 {
            assert(T::used(sorted[0]) >= T::used(sorted[i]));
        }
    }
    lemma_used_then_empty::<T>(sorted, time);
}

proof fn lemma_sorted_lists_agree<T: LastUsed>(first: Seq<T::V>, second: Seq<T::V>)
    requires
        forall|i: int, j: int|
            0 <= i < j < first.len() ==> T::used(#[trigger] first[i]) >= T::used(
                #[trigger] first[j],
            ),
        forall|i: int, j: int|
            0 <= i < j < second.len() ==> T::used(#[trigger] second[i]) >= T::used(
                #[trigger] second[j],
            ),
        forall|time: i64| #[trigger]
            used_then::<T>(first, time) == used_then::<T>(second, time),
    ensures
        first == second,
    decreases first.len() + second.len(),
{
    if first.len() == 0 && second.len() == 0 {
        assert(first =~= second);
    } else {
        if first.len() == 0 || (second.len() > 0 && T::used(first[0]) < T::used(second[0])) {
            let time = T::used(second[0]);
            lemma_later_than_all::<T>(first, time);
            lemma_used_then_first::<T>(second, time);
            assert(used_then::<T>(first, time) == used_then::<T>(second, time));
            assert(used_then::<T>(second, time).len() > 0);
        }
        if second.len() == 0 || (first.len() > 0 && T::used(second[0]) < T::used(first[0])) {
            let time = T::used(first[0]);
            lemma_later_than_all::<T>(second, time);
            lemma_used_then_first::<T>(first, time);
            assert(used_then::<T>(first, time) == used_then::<T>(second, time));
            assert(used_then::<T>(first, time).len() > 0);
        }
        let time = T::used(first[0]);
        assert(T::used(second[0]) == time);
        lemma_used_then_first::<T>(first, time);
        lemma_used_then_first::<T>(second, time);
        assert(used_then::<T>(first, time) == used_then::<T>(second, time));
        assert(used_then::<T>(first, time)[0] == first[0]);
        assert(used_then::<T>(second, time)[0] == second[0]);
        let a = first.drop_first();
        let b = second.drop_first();
        assert forall|other: i64| #[trigger] used_then::<T>(a, other) == used_then::<T>(b, other) by {
            lemma_used_then_first::<T>(first, other);
            lemma_used_then_first::<T>(second, other);
            assert(used_then::<T>(first, other) == used_then::<T>(second, other));
            if other == time {
                assert(used_then::<T>(first, other).drop_first() =~= used_then::<T>(a, other));
                assert(used_then::<T>(second, other).drop_first() =~= used_then::<T>(b, other));
            }
        }
        assert forall|i: int, j: int| 0 <= i < j < a.len() implies T::used(#[trigger] a[i])
            >= T::used(#[trigger] a[j]) by {
            assert(a[i] == first[i + 1] && a[j] == first[j + 1]);
        }
        assert forall|i: int, j: int| 0 <= i < j < b.len() implies T::used(#[trigger] b[i])
            >= T::used(#[trigger] b[j]) by {
            assert(b[i] == second[i + 1] && b[j] == second[j + 1]);
        }
        lemma_sorted_lists_agree::<T>(a, b);
        assert(first =~= seq![first[0]] + a);
        assert(second =~= seq![second[0]] + b);
    }
}

proof fn lemma_insert_multiset<V>(items: Seq<V>, at: int, record: V)
    requires
        0 <= at <= items.len(),
    ensures
        items.insert(at, record).to_multiset() == items.push(record).to_multiset(),
{
    broadcast use vstd::multiset::group_multiset_axioms;
    broadcast use vstd::seq_lib::group_to_multiset_ensures;

    let inserted = items.insert(at, record);
    assert(inserted.remove(at) =~= items);
    assert(inserted[at] == record);
    assert(inserted.contains(record));
    assert(inserted.to_multiset().count(record) > 0);
    assert(inserted.to_multiset().remove(record) == items.to_multiset());
    assert(items.push(record).to_multiset() =~= items.to_multiset().insert(record));
    assert(inserted.to_multiset() =~= items.to_multiset().insert(record));
}

proof fn lemma_used_then_empty<T: LastUsed>(items: Seq<T::V>, time: i64)
    requires
        forall|i: int| 0 <= i < items.len() ==> T::used(#[trigger] items[i]) != time,
    ensures
        used_then::<T>(items, time) == Seq::<T::V>::empty(),
    decreases items.len(),
{
    reveal(Seq::filter);
    if items.len() > 0 {
        assert(items[items.len() - 1] == items.last());
        assert forall|i: int| 0 <= i < items.drop_last().len() implies T::used(
            #[trigger] items.drop_last()[i],
        ) != time by {
            assert(items.drop_last()[i] == items[i]);
        }
        lemma_used_then_empty::<T>(items.drop_last(), time);
    }
}

proof fn lemma_inserted<T: LastUsed>(sorted: Seq<T::V>, at: int, record: T::V, time: i64)
    requires
        0 <= at <= sorted.len(),
        forall|i: int| at <= i < sorted.len() ==> T::used(#[trigger] sorted[i]) < T::used(record),
    ensures
        used_then::<T>(sorted.insert(at, record), time) == used_then::<T>(
            sorted.push(record),
            time,
        ),
{
    reveal(Seq::filter);
    let same_time = used_at_time::<T>(time);
    let head = sorted.take(at);
    let tail = sorted.skip(at);
    let single = seq![record];
    assert(sorted.insert(at, record) =~= head + (single + tail));
    assert(sorted.push(record) =~= head + (tail + single));
    Seq::filter_distributes_over_add(head, single + tail, same_time);
    Seq::filter_distributes_over_add(single, tail, same_time);
    Seq::filter_distributes_over_add(head, tail + single, same_time);
    Seq::filter_distributes_over_add(tail, single, same_time);
    if T::used(record) == time {
        assert forall|i: int| 0 <= i < tail.len() implies T::used(#[trigger] tail[i]) != time by {
            assert(tail[i] == sorted[at + i]);
        }
        lemma_used_then_empty::<T>(tail, time);
        assert(tail.filter(same_time) == Seq::<T::V>::empty());
        assert(single.filter(same_time) + tail.filter(same_time) =~= tail.filter(same_time)
            + single.filter(same_time));
    } else {
        lemma_used_then_empty::<T>(single, time);
        assert(single.filter(same_time) == Seq::<T::V>::empty());
        assert(single.filter(same_time) + tail.filter(same_time) =~= tail.filter(same_time)
            + single.filter(same_time));
    }
}

proof fn lemma_used_then_push<T: LastUsed>(
    first: Seq<T::V>,
    second: Seq<T::V>,
    record: T::V,
    time: i64,
)
    requires
        used_then::<T>(first, time) == used_then::<T>(second, time),
    ensures
        used_then::<T>(first.push(record), time) == used_then::<T>(second.push(record), time),
{
    reveal(Seq::filter);
    assert(first.push(record).drop_last() =~= first);
    assert(second.push(record).drop_last() =~= second);
}

/// Sorts records by their last use, the latest first. Records used at the same
/// time keep their order.
pub fn sort_latest_first<T: LastUsed>(items: Vec<T>) -> (res: Vec<T>)
    ensures
        latest_first::<T>(res.deep_view(), items.deep_view()),
{
    let ghost all = items.deep_view();
    let mut rest = items;
    let mut sorted: Vec<T> = Vec::new();
    let ghost mut done: int = 0;
    assert(sorted.deep_view() =~= all.take(0));
    assert(rest.deep_view() =~= all.skip(0));
    while rest.len() > 0
        invariant
            0 <= done <= all.len(),
            rest.deep_view() == all.skip(done),
            latest_first::<T>(sorted.deep_view(), all.take(done)),
        decreases rest@.len(),
    {
        let ghost before = sorted.deep_view();
        let ghost waiting = rest.deep_view();
        let record = rest.remove(0);
        let ghost view = record.deep_view();
        proof {
            assert(waiting[0] == view);
            assert(all.skip(done)[0] == view);
            assert(rest.deep_view() =~= waiting.skip(1));
            assert(waiting.skip(1) =~= all.skip(done + 1));
            assert(all.take(done + 1) =~= all.take(done).push(view));
        }
        let time: i64 = record.used_at();
        let mut at: usize = sorted.len();
        while at > 0 && sorted[at - 1].used_at() < time
            invariant
                at <= sorted@.len(),
                time == T::used(view),
                before == sorted.deep_view(),
                forall|i: int| at <= i < before.len() ==> T::used(#[trigger] before[i]) < time,
            decreases at,
        {
            assert(before[at - 1] == sorted@[at - 1].deep_view());
            at = at - 1;
        }
        proof {
            if at > 0 {
                assert(before[at - 1] == sorted@[at - 1].deep_view());
            }
        }
        sorted.insert(at, record);
        proof {
            assert(sorted.deep_view() =~= before.insert(at as int, view));
            assert forall|i: int, j: int|
                0 <= i < j < sorted.deep_view().len() implies T::used(
                #[trigger] sorted.deep_view()[i],
            ) >= T::used(#[trigger] sorted.deep_view()[j]) by {
                let i0 = if i < at {
                    i
                } else {
                    i - 1
                };
                let j0 = if j < at {
                    j
                } else {
                    j - 1
                };
                if i != at {
                    assert(sorted.deep_view()[i] == before[i0]);
                }
                if j != at {
                    assert(sorted.deep_view()[j] == before[j0]);
                }
                if j == at {
                    assert(T::used(before[at - 1]) >= time);
                }
            }
            assert forall|time: i64| #[trigger]
                used_then::<T>(sorted.deep_view(), time) == used_then::<T>(
                    all.take(done + 1),
                    time,
                ) by {
                lemma_inserted::<T>(before, at as int, view, time);
                assert(used_then::<T>(before, time) == used_then::<T>(all.take(done), time));
                lemma_used_then_push::<T>(before, all.take(done), view, time);
            }
            lemma_insert_multiset(before, at as int, view);
            vstd::seq_lib::to_multiset_build(before, view);
            vstd::seq_lib::to_multiset_build(all.take(done), view);
            done = done + 1;
        }
    }
    assert(all.take(done) =~= all);
    sorted
}

}
