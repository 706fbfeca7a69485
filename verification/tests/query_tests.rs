use metadata_bridge::query::{
    apply_filters, apply_pagination, apply_sorting, build_query_params, QueryOptions, Queryable,
};

#[derive(Clone, Debug, PartialEq)]
struct Device {
    id: u32,
    name: String,
    site: Option<String>,
}

impl Queryable for Device {
    fn get_field_str(&self, field: &str) -> Option<String> {
        match field {
            "name" => Some(self.name.clone()),
            "site" => self.site.clone(),
            _ => None,
        }
    }
}

fn device(id: u32, name: &str, site: Option<&str>) -> Device {
    Device { id, name: name.to_string(), site: site.map(|s| s.to_string()) }
}

fn devices() -> Vec<Device> {
    vec![
        device(1, "pump", Some("north")),
        device(2, "valve", Some("south")),
        device(3, "pump-2", None),
        device(4, "sensor", Some("north")),
        device(5, "pump", Some("east")),
    ]
}

fn ids(data: &[Device]) -> Vec<u32> {
    data.iter().map(|d| d.id).collect()
}

fn options(page: u32, limit: u32) -> QueryOptions {
    build_query_params(page, limit, None, None, None, None, None)
}

fn filter_on(field: &str, values: &[&str], exact: bool) -> QueryOptions {
    build_query_params(
        1,
        10,
        None,
        None,
        Some(field.to_string()),
        Some(values.iter().map(|v| v.to_string()).collect()),
        Some(exact),
    )
}

fn sort_on(field: &str, direction: Option<&str>) -> QueryOptions {
    build_query_params(
        1,
        10,
        Some(field.to_string()),
        direction.map(|d| d.to_string()),
        None,
        None,
        None,
    )
}

#[test]
fn build_query_params_keeps_what_the_request_names() {
    let built = build_query_params(
        3,
        25,
        Some("name".to_string()),
        Some("desc".to_string()),
        Some("site".to_string()),
        Some(vec!["north".to_string(), "east".to_string()]),
        Some(true),
    );
    assert_eq!(built.page, 3);
    assert_eq!(built.limit, 25);
    assert_eq!(built.sort_field, Some("name".to_string()));
    assert!(!built.sort_ascending);
    assert_eq!(built.filter_field, Some("site".to_string()));
    assert_eq!(built.filter_values, vec!["north".to_string(), "east".to_string()]);
    assert!(built.exact_match);
}

#[test]
fn build_query_params_fills_in_what_the_request_leaves_out() {
    let built = build_query_params(1, 10, None, None, None, None, None);
    assert_eq!(built.page, 1);
    assert_eq!(built.limit, 10);
    assert_eq!(built.sort_field, None);
    assert!(built.sort_ascending);
    assert_eq!(built.filter_field, None);
    assert!(built.filter_values.is_empty());
    assert!(!built.exact_match);
}

#[test]
fn only_the_word_desc_sorts_descending() {
    assert!(sort_on("name", Some("asc")).sort_ascending);
    assert!(sort_on("name", Some("DESC")).sort_ascending);
    assert!(sort_on("name", Some("")).sort_ascending);
    assert!(sort_on("name", None).sort_ascending);
    assert!(!sort_on("name", Some("desc")).sort_ascending);
}

#[test]
fn without_a_filter_field_every_record_passes() {
    let kept = apply_filters(devices(), &options(1, 10));
    assert_eq!(kept, devices());
}

#[test]
fn an_empty_filter_field_lets_every_record_pass() {
    let kept = apply_filters(devices(), &filter_on("", &["pump"], true));
    assert_eq!(kept, devices());
}

#[test]
fn an_exact_filter_keeps_equal_values_only() {
    let kept = apply_filters(devices(), &filter_on("name", &["pump"], true));
    assert_eq!(ids(&kept), vec![1, 5]);
}

#[test]
fn a_loose_filter_keeps_values_that_contain_the_candidate() {
    let kept = apply_filters(devices(), &filter_on("name", &["pump"], false));
    assert_eq!(ids(&kept), vec![1, 3, 5]);
    let kept = apply_filters(devices(), &filter_on("name", &["ump-"], false));
    assert_eq!(ids(&kept), vec![3]);
    let kept = apply_filters(devices(), &filter_on("name", &["pmu"], false));
    assert_eq!(ids(&kept), Vec::<u32>::new());
}

#[test]
fn the_empty_candidate_is_contained_in_every_value_that_resolves() {
    let kept = apply_filters(devices(), &filter_on("site", &[""], false));
    assert_eq!(ids(&kept), vec![1, 2, 4, 5]);
    let kept = apply_filters(devices(), &filter_on("site", &[""], true));
    assert_eq!(ids(&kept), Vec::<u32>::new());
}

#[test]
fn candidates_are_alternatives() {
    let kept = apply_filters(devices(), &filter_on("site", &["south", "east"], true));
    assert_eq!(ids(&kept), vec![2, 5]);
    let kept = apply_filters(devices(), &filter_on("site", &["ou", "as"], false));
    assert_eq!(ids(&kept), vec![2, 5]);
}

#[test]
fn a_filter_without_candidates_keeps_nothing() {
    let kept = apply_filters(devices(), &filter_on("name", &[], false));
    assert!(kept.is_empty());
    let bare = build_query_params(1, 10, None, None, Some("name".to_string()), None, None);
    assert!(apply_filters(devices(), &bare).is_empty());
}

#[test]
fn a_filter_on_an_unknown_field_keeps_nothing() {
    let kept = apply_filters(devices(), &filter_on("colour", &["", "pump"], false));
    assert!(kept.is_empty());
}

#[test]
fn a_record_without_the_field_fails_the_filter() {
    let kept = apply_filters(devices(), &filter_on("site", &["north", "south", "east"], false));
    assert_eq!(ids(&kept), vec![1, 2, 4, 5]);
}

#[test]
fn what_passes_exactly_passes_loosely_too() {
    let candidates: [&[&str]; 5] = [&["pump"], &["north", "east"], &[""], &["p", "valve"], &[]];
    for field in ["name", "site", "colour", ""] {
        for values in candidates {
            let exact = apply_filters(devices(), &filter_on(field, values, true));
            let loose = apply_filters(devices(), &filter_on(field, values, false));
            assert!(exact.len() <= loose.len());
            for record in &exact {
                assert!(loose.contains(record));
            }
            let again = apply_filters(loose, &filter_on(field, values, true));
            assert_eq!(again, exact);
        }
    }
}

#[test]
fn without_a_sort_field_the_records_stay_as_they_are() {
    let sorted = apply_sorting(devices(), &options(1, 10));
    assert_eq!(sorted, devices());
}

#[test]
fn sorting_ascending_puts_smaller_keys_first() {
    let sorted = apply_sorting(devices(), &sort_on("name", Some("asc")));
    assert_eq!(ids(&sorted), vec![1, 5, 3, 4, 2]);
}

#[test]
fn sorting_descending_puts_larger_keys_first() {
    let sorted = apply_sorting(devices(), &sort_on("name", Some("desc")));
    assert_eq!(ids(&sorted), vec![2, 4, 3, 1, 5]);
}

#[test]
fn records_with_equal_keys_keep_their_sequence_in_both_directions() {
    let data = vec![
        device(1, "b", None),
        device(2, "a", None),
        device(3, "b", None),
        device(4, "a", None),
        device(5, "b", None),
        device(6, "a", None),
    ];
    let up = apply_sorting(data.clone(), &sort_on("name", None));
    assert_eq!(ids(&up), vec![2, 4, 6, 1, 3, 5]);
    let down = apply_sorting(data, &sort_on("name", Some("desc")));
    assert_eq!(ids(&down), vec![1, 3, 5, 2, 4, 6]);
}

#[test]
fn a_record_without_the_sort_field_sorts_as_the_empty_string() {
    let up = apply_sorting(devices(), &sort_on("site", None));
    assert_eq!(ids(&up), vec![3, 5, 1, 4, 2]);
    let down = apply_sorting(devices(), &sort_on("site", Some("desc")));
    assert_eq!(ids(&down), vec![2, 1, 4, 5, 3]);
}

#[test]
fn sorting_by_an_unknown_field_changes_nothing() {
    assert_eq!(apply_sorting(devices(), &sort_on("colour", None)), devices());
    assert_eq!(apply_sorting(devices(), &sort_on("colour", Some("desc"))), devices());
    assert_eq!(apply_sorting(devices(), &sort_on("", None)), devices());
}

#[test]
fn keys_are_ordered_by_code_point_and_a_prefix_comes_first() {
    let data = vec![
        device(1, "b", None),
        device(2, "B", None),
        device(3, "ab", None),
        device(4, "a", None),
        device(5, "\u{e9}", None),
        device(6, "z", None),
        device(7, "", None),
        device(8, "10", None),
        device(9, "9", None),
    ];
    let sorted = apply_sorting(data, &sort_on("name", None));
    assert_eq!(ids(&sorted), vec![7, 8, 9, 2, 4, 3, 1, 6, 5]);
}

#[test]
fn sorting_keeps_every_record() {
    let mut data = Vec::new();
    for i in 0..200u32 {
        data.push(device(i, &format!("n{}", (i * 7919) % 13), None));
    }
    let sorted = apply_sorting(data.clone(), &sort_on("name", None));
    assert_eq!(sorted.len(), 200);
    let mut expected = data.clone();
    expected.sort_by(|a, b| a.name.cmp(&b.name));
    assert_eq!(sorted, expected);
    let sorted = apply_sorting(data.clone(), &sort_on("name", Some("desc")));
    let mut expected = data;
    expected.sort_by(|a, b| b.name.cmp(&a.name));
    assert_eq!(sorted, expected);
}

#[test]
fn sorting_nothing_and_one_record() {
    let none: Vec<Device> = Vec::new();
    assert!(apply_sorting(none, &sort_on("name", None)).is_empty());
    let one = vec![device(9, "solo", None)];
    assert_eq!(apply_sorting(one.clone(), &sort_on("name", Some("desc"))), one);
}

#[test]
fn a_page_is_the_slice_from_its_first_to_its_last_position() {
    let (page, total) = apply_pagination(devices(), &options(1, 2));
    assert_eq!((ids(&page), total), (vec![1, 2], 5));
    let (page, total) = apply_pagination(devices(), &options(2, 2));
    assert_eq!((ids(&page), total), (vec![3, 4], 5));
    let (page, total) = apply_pagination(devices(), &options(3, 2));
    assert_eq!((ids(&page), total), (vec![5], 5));
}

#[test]
fn a_page_beyond_the_last_is_empty_and_tells_the_same_total() {
    let (first, total_of_first) = apply_pagination(devices(), &options(1, 2));
    assert_eq!(first.len(), 2);
    let (page, total) = apply_pagination(devices(), &options(4, 2));
    assert!(page.is_empty());
    assert_eq!(total, total_of_first);
    let (page, total) = apply_pagination(devices(), &options(u32::MAX, u32::MAX));
    assert!(page.is_empty());
    assert_eq!(total, 5);
}

#[test]
fn a_page_larger_than_the_listing_holds_all_of_it() {
    let (page, total) = apply_pagination(devices(), &options(1, 100));
    assert_eq!((ids(&page), total), (vec![1, 2, 3, 4, 5], 5));
    let (page, total) = apply_pagination(devices(), &options(1, u32::MAX));
    assert_eq!((page.len(), total), (5, 5));
}

#[test]
fn page_zero_and_a_page_of_size_zero_are_empty() {
    let (page, total) = apply_pagination(devices(), &options(0, 2));
    assert!(page.is_empty());
    assert_eq!(total, 5);
    let (page, total) = apply_pagination(devices(), &options(1, 0));
    assert!(page.is_empty());
    assert_eq!(total, 5);
    let (page, total) = apply_pagination(devices(), &options(0, 0));
    assert!(page.is_empty());
    assert_eq!(total, 5);
}

#[test]
fn paging_nothing_gives_nothing() {
    let none: Vec<Device> = Vec::new();
    let (page, total) = apply_pagination(none, &options(1, 10));
    assert!(page.is_empty());
    assert_eq!(total, 0);
}

#[test]
fn the_length_of_a_page_follows_the_formula() {
    for total in 0..7usize {
        let data: Vec<Device> = (0..total as u32).map(|i| device(i, "d", None)).collect();
        for page in 1..6u32 {
            for limit in 0..5u32 {
                let (cut, count) = apply_pagination(data.clone(), &options(page, limit));
                let before = (page as usize - 1) * limit as usize;
                let expected = (limit as usize).min(total.saturating_sub(before));
                assert_eq!(cut.len(), expected);
                assert_eq!(count, total);
            }
        }
    }
}

#[test]
fn filter_sort_and_page_work_in_a_row() {
    let asked = build_query_params(
        1,
        2,
        Some("name".to_string()),
        Some("desc".to_string()),
        Some("site".to_string()),
        Some(vec!["north".to_string(), "east".to_string()]),
        Some(true),
    );
    let filtered = apply_filters(devices(), &asked);
    let sorted = apply_sorting(filtered, &asked);
    let (page, total) = apply_pagination(sorted, &asked);
    assert_eq!(ids(&page), vec![4, 1]);
    assert_eq!(total, 3);
}
