//! Filtering, sorting and paging of records, for any kind of record that
//! can resolve a field name to a string.
//!
//! A listing is produced in three steps that are always taken in the same
//! sequence: the records are filtered, the survivors are sorted, and one
//! page is cut out of the sorted run. Each step is a function of its own.

use vstd::prelude::*;
use crate::text::str_eq;

pub mod filter;
pub mod laws;
pub mod order;
pub mod page;
pub mod sort;

pub use filter::apply_filters;
pub use page::apply_pagination;
pub use sort::apply_sorting;

verus! {

/// A record that can be queried: it resolves the name of a field to the
/// string that it holds there, or to nothing where it knows no such field.
pub trait Queryable {
    /// What this record holds under `name`. A kind of record that does
    /// not say so is taken to hold nothing under any name.
    open spec fn field(&self, name: Seq<char>) -> Option<Seq<char>> {
        None
    }

    /// Resolves `field` to its string, or to `None` for an unknown field.
    fn get_field_str(&self, field: &str) -> (value: Option<String>)
        ensures
            text_of(value) == self.field(field@),
    ;
}

/// The characters of an optional string.
pub open spec fn text_of(value: Option<String>) -> Option<Seq<char>> {
    match value {
        Some(s) => Some(s@),
        None => None,
    }
}

/// The characters of each string of a run of strings.
pub open spec fn texts_of(values: Seq<String>) -> Seq<Seq<char>> {
    values.map_values(|s: String| s@)
}

/// How a listing is to be filtered, sorted and paged.
#[derive(Clone, Debug, PartialEq, Eq)]
pub struct QueryOptions {
    /// The page asked for; the first page is page 1.
    pub page: u32,
    /// The number of records on a full page.
    pub limit: u32,
    /// The field to sort by, if the listing is to be sorted.
    pub sort_field: Option<String>,
    /// Whether smaller keys come first.
    pub sort_ascending: bool,
    /// The field to filter on, if the listing is to be filtered.
    pub filter_field: Option<String>,
    /// The candidate values; a record passes if it matches one of them.
    pub filter_values: Vec<String>,
    /// Whether a value has to equal a candidate, or only to contain it.
    pub exact_match: bool,
}

/// The mathematical content of [`QueryOptions`].
pub struct QueryOptionsView {
    pub page: nat,
    pub limit: nat,
    pub sort_field: Option<Seq<char>>,
    pub sort_ascending: bool,
    pub filter_field: Option<Seq<char>>,
    pub filter_values: Seq<Seq<char>>,
    pub exact_match: bool,
}

impl View for QueryOptions {
    type V = QueryOptionsView;

    open spec fn view(&self) -> QueryOptionsView {
        QueryOptionsView {
            page: self.page as nat,
            limit: self.limit as nat,
            sort_field: text_of(self.sort_field),
            sort_ascending: self.sort_ascending,
            filter_field: text_of(self.filter_field),
            filter_values: texts_of(self.filter_values@),
            exact_match: self.exact_match,
        }
    }
}

/// Whether a requested direction asks for the largest keys first. Only the
/// word `desc` does; any other word, and no word at all, sorts ascending.
pub open spec fn asks_descending(sort_by: Option<Seq<char>>) -> bool {
    sort_by == Some("desc"@)
}

/// The options that a request asks for. A missing list of candidates is an
/// empty one, a missing `exact_match` asks for containment.
pub open spec fn query_params(
    page: nat,
    limit: nat,
    sort_field: Option<Seq<char>>,
    sort_by: Option<Seq<char>>,
    filter_field: Option<Seq<char>>,
    filter_values: Option<Seq<Seq<char>>>,
    exact_match: Option<bool>,
) -> QueryOptionsView {
    QueryOptionsView {
        page,
        limit,
        sort_field,
        sort_ascending: !asks_descending(sort_by),
        filter_field,
        filter_values: match filter_values {
            Some(values) => values,
            None => Seq::empty(),
        },
        exact_match: exact_match == Some(true),
    }
}

/// The characters of each string of an optional run of strings.
pub open spec fn optional_texts_of(values: Option<Vec<String>>) -> Option<Seq<Seq<char>>> {
    match values {
        Some(values) => Some(texts_of(values@)),
        None => None,
    }
}

/// Builds the options of a listing from the parts of a request.
pub fn build_query_params(
    page: u32,
    limit: u32,
    sort_field: Option<String>,
    sort_by: Option<String>,
    filter_field: Option<String>,
    filter_values: Option<Vec<String>>,
    exact_match: Option<bool>,
) -> (options: QueryOptions)
    ensures
        options@ == query_params(
            page as nat,
            limit as nat,
            text_of(sort_field),
            text_of(sort_by),
            text_of(filter_field),
            optional_texts_of(filter_values),
            exact_match,
        ),
{
    let sort_ascending = match &sort_by {
        Some(word) => !str_eq(word.as_str(), "desc"),
        None => true,
    };
    let filter_values = match filter_values {
        Some(values) => values,
        None => {
            assert(texts_of(Seq::<String>::empty()) =~= Seq::<Seq<char>>::empty());
            Vec::new()
        },
    };
    let exact_match = match exact_match {
        Some(exact) => exact,
        None => false,
    };
    QueryOptions {
        page,
        limit,
        sort_field,
        sort_ascending,
        filter_field,
        filter_values,
        exact_match,
    }
}

} // verus!
