//! What holds of every listing, whatever the records and the options.

use vstd::prelude::*;
use crate::query::filter::{filter_test, filtered, passes_filter, value_matches};
use crate::query::page::{lemma_page_bounds, page_len, page_of};
use crate::query::order::{goes_before, is_arrangement, is_stable_order, key_before};
use crate::query::sort::{
    is_stable_sort_of, lemma_stable_sort_is_unique, lemma_stably_sorted_is_stable_sort,
    rearranged, sort_key, sort_keys, sorted_by, stably_sorted,
};
use crate::query::{QueryOptionsView, Queryable};
use crate::text::{lemma_lex_lt_irreflexive, lemma_lex_lt_transitive, lemma_substring_reflexive};

verus! {

/// The page that a listing of `rows` under `options` shows: the rows are
/// filtered, the rows that pass are sorted, and the page is cut out of the
/// sorted rows.
pub open spec fn listing_page<T: Queryable>(rows: Seq<T>, options: QueryOptionsView) -> Seq<T> {
    page_of(sorted_by(filtered(rows, options), options), options.page, options.limit)
}

/// The total that a listing of `rows` under `options` tells: the number of
/// rows that pass the filter.
pub open spec fn listing_total<T: Queryable>(rows: Seq<T>, options: QueryOptionsView) -> nat {
    filtered(rows, options).len()
}

/// The options `options`, with the way of matching set to `exact`.
pub open spec fn with_exact_match(options: QueryOptionsView, exact: bool) -> QueryOptionsView {
    QueryOptionsView { exact_match: exact, ..options }
}

/// The options `options`, for page `page` of size `limit`.
pub open spec fn with_paging(options: QueryOptionsView, page: nat, limit: nat) -> QueryOptionsView {
    QueryOptionsView { page, limit, ..options }
}

/// A record that passes a filter by equality passes the same filter by
/// containment.
pub proof fn lemma_exact_pass_is_loose_pass<T: Queryable>(record: T, options: QueryOptionsView)
    requires
        passes_filter(record, with_exact_match(options, true)),
    ensures
        passes_filter(record, with_exact_match(options, false)),
{
    if let Some(name) = options.filter_field {
        if name.len() > 0 {
            let value = record.field(name).unwrap();
            let i = choose|i: int|
                0 <= i < options.filter_values.len() && value_matches(
                    value,
                    #[trigger] options.filter_values[i],
                    true,
                );
            lemma_substring_reflexive(value);
            assert(value_matches(value, options.filter_values[i], false));
        }
    }
}

/// Filtering by a test and filtering by a wider test first come to the
/// same.
proof fn lemma_filter_through_wider<T>(
    data: Seq<T>,
    narrow: spec_fn(T) -> bool,
    wide: spec_fn(T) -> bool,
)
    requires
        forall|i: int| 0 <= i < data.len() && narrow(#[trigger] data[i]) ==> wide(data[i]),
    ensures
        data.filter(narrow) == data.filter(wide).filter(narrow),
    decreases data.len(),
{
    reveal(Seq::filter);
    if data.len() > 0 {
        let before = data.drop_last();
        assert forall|i: int| 0 <= i < before.len() && narrow(#[trigger] before[i]) implies wide(
            before[i],
        ) by {
            assert(before[i] == data[i]);
        }
        lemma_filter_through_wider(before, narrow, wide);
        before.filter(wide).lemma_filter_push(data.last(), narrow);
    }
}

/// With the same candidates, matching by equality yields a part of what
/// matching by containment yields: the records that pass by equality are
/// among those that pass by containment, in the same sequence, and there
/// are no more of them.
pub proof fn lemma_exact_match_is_narrower<T: Queryable>(data: Seq<T>, options: QueryOptionsView)
    ensures
        filtered(data, with_exact_match(options, true)) == filtered(
            filtered(data, with_exact_match(options, false)),
            with_exact_match(options, true),
        ),
        filtered(data, with_exact_match(options, true)).len() <= filtered(
            data,
            with_exact_match(options, false),
        ).len(),
        forall|i: int|
            0 <= i < filtered(data, with_exact_match(options, true)).len() ==> filtered(
                data,
                with_exact_match(options, false),
            ).contains(#[trigger] filtered(data, with_exact_match(options, true))[i]),
{
    let narrow = filter_test::<T>(with_exact_match(options, true));
    let wide = filter_test::<T>(with_exact_match(options, false));
    assert forall|i: int| 0 <= i < data.len() && narrow(#[trigger] data[i]) implies wide(
        data[i],
    ) by {
        lemma_exact_pass_is_loose_pass(data[i], options);
    }
    lemma_filter_through_wider(data, narrow, wide);
    let loose = data.filter(wide);
    loose.lemma_filter_len(narrow);
    assert forall|i: int| 0 <= i < loose.filter(narrow).len() implies loose.contains(
        #[trigger] loose.filter(narrow)[i],
    ) by {
        let record = loose.filter(narrow)[i];
        loose.lemma_filter_contains_rev(narrow, record);
    }
}

/// Which records pass a filter does not depend on the page that is asked
/// for.
pub proof fn lemma_filter_ignores_paging<T: Queryable>(
    data: Seq<T>,
    options: QueryOptionsView,
    page: nat,
    limit: nat,
)
    ensures
        filtered(data, with_paging(options, page, limit)) == filtered(data, options),
{
    assert(filter_test::<T>(with_paging(options, page, limit)) =~= filter_test::<T>(options));
}

/// Sorting neither adds nor drops a record.
pub proof fn lemma_sorting_keeps_length<T: Queryable>(data: Seq<T>, options: QueryOptionsView)
    ensures
        sorted_by(data, options).len() == data.len(),
{
    if let Some(name) = options.sort_field {
        lemma_stably_sorted_is_stable_sort(data, name, options.sort_ascending);
    }
}

/// The total of a listing is the number of records that pass the filter,
/// whatever page is asked for and whatever the size of a page; and a page
/// from 1 on holds as many records as the size of a page allows and as are
/// left after the pages before it.
pub proof fn lemma_total_ignores_paging<T: Queryable>(
    rows: Seq<T>,
    options: QueryOptionsView,
    page: nat,
    limit: nat,
)
    ensures
        listing_total(rows, with_paging(options, page, limit)) == listing_total(rows, options),
        page >= 1 ==> listing_page(rows, with_paging(options, page, limit)).len() == page_len(
            page,
            limit,
            listing_total(rows, options),
        ),
{
    let asked = with_paging(options, page, limit);
    lemma_filter_ignores_paging(rows, options, page, limit);
    lemma_sorting_keeps_length(filtered(rows, asked), asked);
    lemma_page_bounds(page, limit, listing_total(rows, options));
}

/// A page that starts beyond the last record is empty, and its listing
/// tells the same total as the listing of page 1.
pub proof fn lemma_page_beyond_last_is_empty<T: Queryable>(
    rows: Seq<T>,
    options: QueryOptionsView,
    page: nat,
    limit: nat,
)
    requires
        page >= 1,
        (page - 1) * limit >= listing_total(rows, options),
    ensures
        listing_page(rows, with_paging(options, page, limit)) == Seq::<T>::empty(),
        listing_total(rows, with_paging(options, page, limit)) == listing_total(
            rows,
            with_paging(options, 1, limit),
        ),
{
    lemma_total_ignores_paging(rows, options, page, limit);
    lemma_total_ignores_paging(rows, options, 1, limit);
}

/// A sort is stable. The sorted records are the given ones in another
/// sequence; no record stands before one whose key comes strictly first;
/// and of two records with equal keys the one that came first stands
/// first.
pub proof fn lemma_sort_is_stable<T: Queryable>(
    sorted: Seq<T>,
    data: Seq<T>,
    name: Seq<char>,
    ascending: bool,
)
    requires
        is_stable_sort_of(sorted, data, name, ascending),
    ensures
        exists|order: Seq<int>|
            {
                &&& #[trigger] is_arrangement(order, data.len())
                &&& sorted == rearranged(data, order)
                &&& forall|i: int, j: int|
                    0 <= i < j < sorted.len() ==> !key_before(
                        sort_key(#[trigger] sorted[j], name),
                        sort_key(#[trigger] sorted[i], name),
                        ascending,
                    )
                &&& forall|i: int, j: int|
                    0 <= i < j < sorted.len() && sort_key(sorted[i], name) == sort_key(
                        sorted[j],
                        name,
                    ) ==> #[trigger] order[i] < #[trigger] order[j]
            },
{
    let keys = sort_keys(data, name);
    let order = choose|order: Seq<int>|
        #[trigger] is_stable_order(order, keys, ascending) && sorted == rearranged(data, order);
    assert forall|i: int, j: int| 0 <= i < j < sorted.len() implies !key_before(
        sort_key(#[trigger] sorted[j], name),
        sort_key(#[trigger] sorted[i], name),
        ascending,
    ) by {
        lemma_ranked_pair(keys, ascending, order, i, j);
    }
    assert forall|i: int, j: int|
        0 <= i < j < sorted.len() && sort_key(sorted[i], name) == sort_key(
            sorted[j],
            name,
        ) implies #[trigger] order[i] < #[trigger] order[j] by {
        lemma_ranked_pair(keys, ascending, order, i, j);
    }
}

/// Of two places in a stable order, the key at the later one does not come
/// strictly before the key at the earlier one, and where the keys are
/// equal the earlier place holds the earlier position.
proof fn lemma_ranked_pair(
    keys: Seq<Seq<char>>,
    ascending: bool,
    order: Seq<int>,
    i: int,
    j: int,
)
    requires
        is_stable_order(order, keys, ascending),
        0 <= i < j < order.len(),
    ensures
        !key_before(keys[order[j]], keys[order[i]], ascending),
        keys[order[i]] == keys[order[j]] ==> order[i] < order[j],
{
    lemma_lex_lt_irreflexive(keys[order[i]]);
    if key_before(keys[order[j]], keys[order[i]], ascending) && key_before(
        keys[order[i]],
        keys[order[j]],
        ascending,
    ) {
        lemma_lex_lt_transitive(keys[order[i]], keys[order[j]], keys[order[i]]);
    }
}

/// Every record of a sorted run is one of the records that were sorted.
pub proof fn lemma_sorted_holds_given<T: Queryable>(
    data: Seq<T>,
    options: QueryOptionsView,
    at: int,
)
    requires
        0 <= at < sorted_by(data, options).len(),
    ensures
        data.contains(sorted_by(data, options)[at]),
{
    if let Some(name) = options.sort_field {
        lemma_stably_sorted_is_stable_sort(data, name, options.sort_ascending);
        let sorted = sorted_by(data, options);
        let order = choose|order: Seq<int>|
            #[trigger] is_stable_order(order, sort_keys(data, name), options.sort_ascending)
                && sorted == rearranged(data, order);
    }
}

/// Records that all have the same key stay as they are, in either
/// direction.
pub proof fn lemma_equal_keys_keep_their_sequence<T: Queryable>(
    data: Seq<T>,
    name: Seq<char>,
    ascending: bool,
)
    requires
        forall|i: int, j: int|
            0 <= i < data.len() && 0 <= j < data.len() ==> sort_key(#[trigger] data[i], name)
                == sort_key(#[trigger] data[j], name),
    ensures
        stably_sorted(data, name, ascending) == data,
{
    let keys = sort_keys(data, name);
    let unmoved = Seq::new(data.len(), |i: int| i);
    assert forall|i: int, j: int| 0 <= i < j < unmoved.len() implies goes_before(
        keys,
        ascending,
        #[trigger] unmoved[i],
        #[trigger] unmoved[j],
    ) by {
        assert(sort_key(data[i], name) == sort_key(data[j], name));
    }
    assert(is_stable_order(unmoved, keys, ascending));
    assert(rearranged(data, unmoved) =~= data);
    lemma_stably_sorted_is_stable_sort(data, name, ascending);
    lemma_stable_sort_is_unique(stably_sorted(data, name, ascending), data, data, name, ascending);
}

/// A sort by a field that no record knows leaves the records as they are:
/// every key is the empty string.
pub proof fn lemma_unknown_sort_field_keeps_sequence<T: Queryable>(
    data: Seq<T>,
    options: QueryOptionsView,
)
    requires
        options.sort_field matches Some(name) && forall|i: int|
            0 <= i < data.len() ==> (#[trigger] data[i]).field(name) is None,
    ensures
        sorted_by(data, options) == data,
{
    lemma_equal_keys_keep_their_sequence(
        data,
        options.sort_field.unwrap(),
        options.sort_ascending,
    );
}

} // verus!
