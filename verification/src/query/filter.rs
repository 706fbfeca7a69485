//! The first step of a listing: keeping the records that match.

use vstd::prelude::*;
use crate::query::{texts_of, QueryOptions, QueryOptionsView, Queryable};
use crate::text::{is_substring, str_contains, str_eq};

verus! {

/// Whether a value matches one candidate: by equality where `exact` is set,
/// by containment where it is not.
pub open spec fn value_matches(value: Seq<char>, candidate: Seq<char>, exact: bool) -> bool {
    if exact {
        value == candidate
    } else {
        is_substring(value, candidate)
    }
}

/// Whether a value matches at least one of the candidates.
pub open spec fn matches_any(value: Seq<char>, candidates: Seq<Seq<char>>, exact: bool) -> bool {
    exists|i: int|
        0 <= i < candidates.len() && value_matches(value, #[trigger] candidates[i], exact)
}

/// Whether the filter is switched on: a field is named, and not by the
/// empty string.
pub open spec fn filter_is_set(options: QueryOptionsView) -> bool {
    options.filter_field matches Some(name) && name.len() > 0
}

/// Whether a record passes the filter of `options`. Without a filter every
/// record passes. With one, a record passes if the field resolves and its
/// value matches a candidate; a record that does not know the field fails.
pub open spec fn passes_filter<T: Queryable>(record: T, options: QueryOptionsView) -> bool {
    filter_is_set(options) ==> match record.field(options.filter_field.unwrap()) {
        Some(value) => matches_any(value, options.filter_values, options.exact_match),
        None => false,
    }
}

/// The test that [`filtered`] applies to each record.
pub open spec fn filter_test<T: Queryable>(options: QueryOptionsView) -> spec_fn(T) -> bool {
    |record: T| passes_filter(record, options)
}

/// The records of `data` that pass the filter, in the sequence they had.
pub open spec fn filtered<T: Queryable>(data: Seq<T>, options: QueryOptionsView) -> Seq<T> {
    data.filter(filter_test(options))
}

/// Whether `value` matches one of `candidates`.
fn matches_candidate(value: &String, candidates: &Vec<String>, exact: bool) -> (found: bool)
    ensures
        found == matches_any(value@, texts_of(candidates@), exact),
{
    let mut i: usize = 0;
    while i < candidates.len()
        invariant
            i <= candidates.len(),
            forall|k: int|
                0 <= k < i ==> !value_matches(value@, #[trigger] texts_of(candidates@)[k], exact),
        decreases candidates.len() - i,
    {
        let candidate = &candidates[i];
        let hit = if exact {
            str_eq(value.as_str(), candidate.as_str())
        } else {
            str_contains(value.as_str(), candidate.as_str())
        };
        if hit {
            assert(value_matches(value@, texts_of(candidates@)[i as int], exact));
            return true;
        }
        i += 1;
    }
    false
}

/// Whether `record` passes a filter on the field `name`.
fn record_passes<T: Queryable>(record: &T, name: &String, options: &QueryOptions) -> (pass: bool)
    requires
        options@.filter_field == Some(name@),
        name@.len() > 0,
    ensures
        pass == passes_filter(*record, options@),
{
    match record.get_field_str(name.as_str()) {
        Some(value) => matches_candidate(&value, &options.filter_values, options.exact_match),
        None => false,
    }
}

/// A test that every record passes keeps the whole sequence.
proof fn lemma_filter_keeps_all<T>(data: Seq<T>, test: spec_fn(T) -> bool)
    requires
        forall|i: int| 0 <= i < data.len() ==> test(#[trigger] data[i]),
    ensures
        data.filter(test) == data,
    decreases data.len(),
{
    reveal(Seq::filter);
    if data.len() > 0 {
        lemma_filter_keeps_all(data.drop_last(), test);
    }
}

/// Where no filter is set, every record passes and the records stay as
/// they are.
pub proof fn lemma_unset_filter_keeps_all<T: Queryable>(data: Seq<T>, options: QueryOptionsView)
    requires
        !filter_is_set(options),
    ensures
        filtered(data, options) == data,
{
    lemma_filter_keeps_all(data, filter_test::<T>(options));
}

/// Keeps the records that pass the filter of `options`, in the sequence
/// they came in. Without a filter field, or with an empty one, all records
/// are kept.
pub fn apply_filters<T: Queryable>(data: Vec<T>, options: &QueryOptions) -> (kept: Vec<T>)
    ensures
        kept@ == filtered(data@, options@),
{
    let name = match &options.filter_field {
        Some(name) => name,
        None => {
            proof {
                lemma_unset_filter_keeps_all(data@, options@);
            }
            return data;
        },
    };
    if name.as_str().is_empty() {
        proof {
            lemma_unset_filter_keeps_all(data@, options@);
        }
        return data;
    }
    let ghost all = data@;
    let mut kept: Vec<T> = Vec::new();
    for record in it: data
        invariant
            it.seq() == all,
            options@.filter_field == Some(name@),
            name@.len() > 0,
            kept@ == filtered(all.take(it.index() as int), options@),
    {
        proof {
            let seen = all.take(it.index() as int);
            assert(all.take(it.index() + 1) =~= seen.push(record));
            seen.lemma_filter_push(record, filter_test::<T>(options@));
        }
        if record_passes(&record, name, options) {
            kept.push(record);
        }
    }
    proof {
        assert(all.take(all.len() as int) =~= all);
    }
    kept
}

} // verus!
