//! The second step of a listing: a stable sort by one field.
//!
//! Records are compared by the string that the sort field resolves to, a
//! record without the field counting as the empty string. Records with the
//! same key keep the sequence they came in, whatever the direction.

use vstd::prelude::*;
use crate::query::{texts_of, QueryOptions, QueryOptionsView, Queryable};
use crate::query::order::{
    goes_before, is_stable_order, key_before, lemma_earlier_goes_first,
    lemma_goes_before_irreflexive, lemma_goes_before_transitive, lemma_stable_order_exists,
    lemma_stable_order_is_unique,
};
use crate::text::str_lt;

verus! {

/// The key of a record under the sort field `name`: what the field holds,
/// or the empty string where the record does not know the field.
pub open spec fn sort_key<T: Queryable>(record: T, name: Seq<char>) -> Seq<char> {
    match record.field(name) {
        Some(value) => value,
        None => Seq::empty(),
    }
}

/// The keys of all records, position by position.
pub open spec fn sort_keys<T: Queryable>(data: Seq<T>, name: Seq<char>) -> Seq<Seq<char>> {
    Seq::new(data.len(), |i: int| sort_key(data[i], name))
}

/// The records of `data` in the sequence that `order` names.
pub open spec fn rearranged<T>(data: Seq<T>, order: Seq<int>) -> Seq<T> {
    Seq::new(order.len(), |i: int| data[order[i]])
}

/// Whether `sorted` is `data` after a stable sort by the field `name`.
pub open spec fn is_stable_sort_of<T: Queryable>(
    sorted: Seq<T>,
    data: Seq<T>,
    name: Seq<char>,
    ascending: bool,
) -> bool {
    exists|order: Seq<int>|
        #[trigger] is_stable_order(order, sort_keys(data, name), ascending) && sorted
            == rearranged(data, order)
}

/// The stable sort of `data` by the field `name`.
pub open spec fn stably_sorted<T: Queryable>(data: Seq<T>, name: Seq<char>, ascending: bool) -> Seq<
    T,
> {
    choose|sorted: Seq<T>| is_stable_sort_of(sorted, data, name, ascending)
}

/// What the sort step of `options` makes of `data`: `data` itself where no
/// sort field is named, the stable sort of it by that field where one is.
pub open spec fn sorted_by<T: Queryable>(data: Seq<T>, options: QueryOptionsView) -> Seq<T> {
    match options.sort_field {
        Some(name) => stably_sorted(data, name, options.sort_ascending),
        None => data,
    }
}

/// A stable sort has one result only: to say that a run of records is a
/// stable sort of another is to say which run it is.
pub proof fn lemma_stable_sort_is_unique<T: Queryable>(
    first: Seq<T>,
    second: Seq<T>,
    data: Seq<T>,
    name: Seq<char>,
    ascending: bool,
)
    requires
        is_stable_sort_of(first, data, name, ascending),
        is_stable_sort_of(second, data, name, ascending),
    ensures
        first == second,
{
    let keys = sort_keys(data, name);
    let one = choose|order: Seq<int>|
        #[trigger] is_stable_order(order, keys, ascending) && first == rearranged(data, order);
    let two = choose|order: Seq<int>|
        #[trigger] is_stable_order(order, keys, ascending) && second == rearranged(data, order);
    lemma_stable_order_is_unique(one, two, keys, ascending);
}

/// The stable sort of a run of records is a stable sort of it: there is
/// one for every run.
pub proof fn lemma_stably_sorted_is_stable_sort<T: Queryable>(
    data: Seq<T>,
    name: Seq<char>,
    ascending: bool,
)
    ensures
        is_stable_sort_of(stably_sorted(data, name, ascending), data, name, ascending),
{
    let keys = sort_keys(data, name);
    lemma_stable_order_exists(keys, ascending);
    let order = choose|order: Seq<int>| is_stable_order(order, keys, ascending);
    assert(is_stable_sort_of(rearranged(data, order), data, name, ascending));
}

/// Whether the positions in `order` stand in the sequence of their places.
spec fn is_ranked(order: Seq<usize>, keys: Seq<Seq<char>>, ascending: bool) -> bool {
    forall|i: int, j: int|
        0 <= i < j < order.len() ==> goes_before(
            keys,
            ascending,
            #[trigger] order[i] as int,
            #[trigger] order[j] as int,
        )
}

/// Whether every position in `order` lies in `lo..hi`.
spec fn is_within(order: Seq<usize>, lo: int, hi: int) -> bool {
    forall|i: int| 0 <= i < order.len() ==> lo <= #[trigger] order[i] < hi
}

/// The key of each record, an empty string for a record without the field.
fn collect_keys<T: Queryable>(data: &Vec<T>, name: &str) -> (keys: Vec<String>)
    ensures
        texts_of(keys@) == sort_keys(data@, name@),
{
    let mut keys: Vec<String> = Vec::new();
    let mut i: usize = 0;
    while i < data.len()
        invariant
            i <= data.len(),
            keys.len() == i,
            forall|k: int| 0 <= k < i ==> (#[trigger] keys[k])@ == sort_key(data[k], name@),
        decreases data.len() - i,
    {
        let key = match data[i].get_field_str(name) {
            Some(value) => value,
            None => String::new(),
        };
        keys.push(key);
        i += 1;
    }
    keys
}

/// Whether the key at position `a` comes strictly before the key at `b`.
fn key_comes_before(keys: &Vec<String>, ascending: bool, a: usize, b: usize) -> (before: bool)
    requires
        a < keys.len(),
        b < keys.len(),
    ensures
        before == key_before(texts_of(keys@)[a as int], texts_of(keys@)[b as int], ascending),
{
    if ascending {
        str_lt(keys[a].as_str(), keys[b].as_str())
    } else {
        str_lt(keys[b].as_str(), keys[a].as_str())
    }
}

/// Merges the ranked positions of `lo..mid` and of `mid..hi` into the
/// ranked positions of `lo..hi`.
fn merge_ranked(
    keys: &Vec<String>,
    ascending: bool,
    left: &Vec<usize>,
    right: &Vec<usize>,
    Ghost(lo): Ghost<int>,
    Ghost(mid): Ghost<int>,
    Ghost(hi): Ghost<int>,
) -> (merged: Vec<usize>)
    requires
        0 <= lo <= mid <= hi <= keys.len(),
        is_within(left@, lo, mid),
        is_within(right@, mid, hi),
        is_ranked(left@, texts_of(keys@), ascending),
        is_ranked(right@, texts_of(keys@), ascending),
    ensures
        merged.len() == left.len() + right.len(),
        is_within(merged@, lo, hi),
        is_ranked(merged@, texts_of(keys@), ascending),
{
    let ghost ranks = texts_of(keys@);
    let mut merged: Vec<usize> = Vec::new();
    let mut i: usize = 0;
    let mut j: usize = 0;
    while i < left.len() || j < right.len()
        invariant
            0 <= lo <= mid <= hi <= keys.len(),
            ranks == texts_of(keys@),
            is_within(left@, lo, mid),
            is_within(right@, mid, hi),
            is_ranked(left@, ranks, ascending),
            is_ranked(right@, ranks, ascending),
            i <= left.len(),
            j <= right.len(),
            merged.len() == i + j,
            is_within(merged@, lo, hi),
            is_ranked(merged@, ranks, ascending),
            forall|k: int, p: int|
                0 <= k < merged.len() && i <= p < left.len() ==> goes_before(
                    ranks,
                    ascending,
                    #[trigger] merged[k] as int,
                    #[trigger] left[p] as int,
                ),
            forall|k: int, q: int|
                0 <= k < merged.len() && j <= q < right.len() ==> goes_before(
                    ranks,
                    ascending,
                    #[trigger] merged[k] as int,
                    #[trigger] right[q] as int,
                ),
        decreases left.len() - i + right.len() - j,
    {
        let from_left = if i == left.len() {
            false
        } else if j == right.len() {
            true
        } else {
            !key_comes_before(keys, ascending, right[j], left[i])
        };
        if from_left {
            let x = left[i];
            proof {
                assert forall|q: int| j <= q < right.len() implies goes_before(
                    ranks,
                    ascending,
                    x as int,
                    #[trigger] right[q] as int,
                ) by {
                    lemma_earlier_goes_first(ranks, ascending, x as int, right[j as int] as int);
                    if q > j {
                        lemma_goes_before_transitive(
                            ranks,
                            ascending,
                            x as int,
                            right[j as int] as int,
                            right[q] as int,
                        );
                    }
                }
            }
            merged.push(x);
            i += 1;
        } else {
            let y = right[j];
            proof {
                assert forall|p: int| i <= p < left.len() implies goes_before(
                    ranks,
                    ascending,
                    y as int,
                    #[trigger] left[p] as int,
                ) by {
                    if p > i {
                        lemma_goes_before_transitive(
                            ranks,
                            ascending,
                            y as int,
                            left[i as int] as int,
                            left[p] as int,
                        );
                    }
                }
            }
            merged.push(y);
            j += 1;
        }
    }
    merged
}

/// The positions `lo..hi` in the sequence of their places, by merge sort.
fn rank_range(keys: &Vec<String>, ascending: bool, lo: usize, hi: usize) -> (order: Vec<usize>)
    requires
        lo <= hi <= keys.len(),
    ensures
        order.len() == hi - lo,
        is_within(order@, lo as int, hi as int),
        is_ranked(order@, texts_of(keys@), ascending),
    decreases hi - lo,
{
    if hi - lo == 0 {
        Vec::new()
    } else if hi - lo == 1 {
        let mut order: Vec<usize> = Vec::new();
        order.push(lo);
        order
    } else {
        let mid: usize = lo + (hi - lo) / 2;
        let left = rank_range(keys, ascending, lo, mid);
        let right = rank_range(keys, ascending, mid, hi);
        merge_ranked(
            keys,
            ascending,
            &left,
            &right,
            Ghost(lo as int),
            Ghost(mid as int),
            Ghost(hi as int),
        )
    }
}

/// The positions in `order`, as integers.
spec fn positions(order: Seq<usize>) -> Seq<int> {
    order.map_values(|p: usize| p as int)
}

/// Whether no position occurs twice in `order`.
spec fn is_injective(order: Seq<usize>) -> bool {
    forall|i: int, j: int|
        0 <= i < j < order.len() ==> #[trigger] order[i] != #[trigger] order[j]
}

/// Ranked positions that cover `0..n` are a stable order of the keys, and
/// none of them occurs twice.
proof fn lemma_ranked_is_stable_order(order: Seq<usize>, keys: Seq<Seq<char>>, ascending: bool)
    requires
        order.len() == keys.len(),
        is_within(order, 0, keys.len() as int),
        is_ranked(order, keys, ascending),
    ensures
        is_injective(order),
        is_stable_order(positions(order), keys, ascending),
{
    assert forall|i: int, j: int| 0 <= i < j < order.len() implies #[trigger] order[i]
        != #[trigger] order[j] by {
        lemma_goes_before_irreflexive(keys, ascending, order[i] as int);
    }
}

/// Moves the records of `data` into the sequence that `order` names.
fn rearrange<T>(data: Vec<T>, order: &Vec<usize>) -> (out: Vec<T>)
    requires
        order.len() == data.len(),
        is_within(order@, 0, data.len() as int),
        is_injective(order@),
    ensures
        out@ == rearranged(data@, positions(order@)),
{
    let ghost all = data@;
    let n = order.len();
    let mut slots: Vec<Option<T>> = Vec::new();
    for record in it: data
        invariant
            it.seq() == all,
            slots.len() == it.index(),
            forall|p: int| 0 <= p < slots.len() ==> #[trigger] slots[p] == Some(all[p]),
    {
        slots.push(Some(record));
    }
    let mut out: Vec<T> = Vec::new();
    let mut i: usize = 0;
    while i < n
        invariant
            n == order.len(),
            n == all.len(),
            slots.len() == n,
            is_within(order@, 0, n as int),
            is_injective(order@),
            i <= n,
            out.len() == i,
            forall|k: int| 0 <= k < i ==> #[trigger] out[k] == all[order[k] as int],
            forall|k: int|
                i <= k < n ==> slots[#[trigger] order[k] as int] == Some(all[order[k] as int]),
        decreases n - i,
    {
        let p = order[i];
        let record = slots[p].take();
        out.push(record.unwrap());
        i += 1;
    }
    out
}

/// Sorts the records by the sort field of `options`, smaller keys first or
/// last as `sort_ascending` says, and keeps the given sequence among
/// records with equal keys. Without a sort field the records are handed
/// back as they came.
pub fn apply_sorting<T: Queryable>(data: Vec<T>, options: &QueryOptions) -> (sorted: Vec<T>)
    ensures
        sorted@ == sorted_by(data@, options@),
        options@.sort_field matches Some(name) ==> is_stable_sort_of(
            sorted@,
            data@,
            name,
            options@.sort_ascending,
        ),
{
    let name = match &options.sort_field {
        Some(name) => name,
        None => {
            return data;
        },
    };
    let ghost given = data@;
    let keys = collect_keys(&data, name.as_str());
    let order = rank_range(&keys, options.sort_ascending, 0, keys.len());
    proof {
        lemma_ranked_is_stable_order(order@, texts_of(keys@), options.sort_ascending);
    }
    let sorted = rearrange(data, &order);
    proof {
        assert(is_stable_sort_of(sorted@, given, name@, options.sort_ascending));
        lemma_stably_sorted_is_stable_sort(given, name@, options.sort_ascending);
        lemma_stable_sort_is_unique(
            sorted@,
            stably_sorted(given, name@, options.sort_ascending),
            given,
            name@,
            options.sort_ascending,
        );
    }
    sorted
}

} // verus!
