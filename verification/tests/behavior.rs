//! Behavior tests of the sorting exercise: the two strategies sort, and
//! the policy picks the right strategy for the input size.

use structure_scan::bubble_sort::BubbleSort;
use structure_scan::context::Algorithm;
use structure_scan::context::Context;
use structure_scan::date::Date;
use structure_scan::merge_sort::MergeSort;
use structure_scan::merge_sort::{merge, mergesort};
use structure_scan::policy::Policy;
use structure_scan::policy::SIZE_THRESHOLD;
use structure_scan::sort_strategy::SortStrategy;

fn dates_unordered() -> Vec<Date> {
    vec![
        Date::from_ymd(2018, 11, 8),
        Date::from_ymd(2017, 4, 15),
        Date::from_ymd(2016, 2, 15),
        Date::from_ymd(2017, 9, 15),
    ]
}

fn dates_ordered() -> Vec<Date> {
    vec![
        Date::from_ymd(2016, 2, 15),
        Date::from_ymd(2017, 4, 15),
        Date::from_ymd(2017, 9, 15),
        Date::from_ymd(2018, 11, 8),
    ]
}

#[test]
fn test_bubble_sort() {
    let bubble_sort = BubbleSort;
    let mut dates = dates_unordered();
    bubble_sort.perform_sort(&mut dates);
    assert_eq!(dates, dates_ordered(), "BubbleSort does not sort correctly");
}

#[test]
fn test_merge_sort() {
    let merge_sort = MergeSort;
    let mut dates = dates_unordered();
    merge_sort.perform_sort(&mut dates);
    assert_eq!(dates, dates_ordered(), "MergeSort does not sort correctly");
}

#[test]
fn test_use_merge_sort_for_big_list() {
    let context = Context::new();
    let mut policy = Policy::new(context);

    let data = vec![Date::default(); 20];
    policy.configure(&data);

    let sort_strategy = policy.context.sort_algorithm();

    assert!(
        matches!(sort_strategy, Algorithm::Merge(_)),
        "The sort algorithm of Context was not MergeSort for a list with more than 10 dates."
    );
}

#[test]
fn test_use_bubble_sort_for_small_list() {
    let context = Context::new();
    let mut policy = Policy::new(context);

    let data = vec![Date::default(); 10];
    policy.configure(&data);

    let sort_strategy = policy.context.sort_algorithm();

    assert!(
        matches!(sort_strategy, Algorithm::Bubble(_)),
        "The sort algorithm of Context was not BubbleSort for a list with less or equal than 10 dates."
    );
}

#[test]
fn test_policy_threshold_boundary() {
    assert_eq!(SIZE_THRESHOLD, 10);
    let mut policy = Policy::new(Context::new());
    let data = vec![Date::default(); 11];
    policy.configure(&data);
    assert!(matches!(policy.context.sort_algorithm(), Algorithm::Merge(_)));
}

#[test]
fn test_context_sort_runs_configured_strategy() {
    let mut context = Context::new();
    context.set_sort_algorithm(Algorithm::Bubble(BubbleSort));
    let mut dates = dates_unordered();
    context.sort(&mut dates);
    assert_eq!(dates, dates_ordered());
}

#[test]
fn test_sort_empty_and_single() {
    let bubble_sort = BubbleSort;
    let mut empty: Vec<Date> = Vec::new();
    bubble_sort.perform_sort(&mut empty);
    assert!(empty.is_empty());

    let mut single = vec![Date::from_ymd(2020, 6, 1)];
    mergesort(&mut single);
    assert_eq!(single, vec![Date::from_ymd(2020, 6, 1)]);
}

#[test]
fn test_sort_with_duplicates() {
    let d1 = Date::from_ymd(2021, 3, 3);
    let d2 = Date::from_ymd(2020, 1, 1);
    let mut dates = vec![d1, d2, d1, d2, d1];
    mergesort(&mut dates);
    assert_eq!(dates, vec![d2, d2, d1, d1, d1]);
}

#[test]
fn test_merge_two_sorted_halves() {
    let a = Date::from_ymd(2019, 1, 1);
    let b = Date::from_ymd(2020, 1, 1);
    let c = Date::from_ymd(2021, 1, 1);
    let d = Date::from_ymd(2022, 1, 1);
    let mut dates = vec![a, c, b, d];
    merge(&mut dates, 2);
    assert_eq!(dates, vec![a, b, c, d]);
}

#[test]
fn test_date_order_and_calendar() {
    assert!(structure_scan::date::is_leap_year(2024));
    assert!(!structure_scan::date::is_leap_year(2023));
    assert!(!structure_scan::date::is_leap_year(1900));
    assert!(structure_scan::date::is_leap_year(2000));
    assert_eq!(structure_scan::date::days_in_month(2024, 2), 29);
    assert_eq!(structure_scan::date::days_in_month(2023, 2), 28);
    assert_eq!(structure_scan::date::days_in_month(2023, 9), 30);
    assert_eq!(structure_scan::date::days_in_month(2023, 12), 31);
    assert_eq!(Date::default(), Date::from_ymd(1970, 1, 1));

    let earlier = Date::from_ymd(2016, 2, 15);
    let later = Date::from_ymd(2016, 3, 1);
    assert!(structure_scan::sort_strategy::Sortable::le(&earlier, &later));
    assert!(!structure_scan::sort_strategy::Sortable::le(&later, &earlier));
    assert!(structure_scan::sort_strategy::Sortable::le(&earlier, &earlier));
}
