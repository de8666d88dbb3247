use polycore::sorting::{largest, largest_t, sort_partial, sort_total, PartialRank, Person};
use polycore::CoreError;

#[test]
fn natural_order_sort() {
    let mut v: Vec<i64> = vec![1, 3, 4, 12, 10];
    sort_total(&mut v);
    assert_eq!(v, vec![1, 3, 4, 10, 12]);
}

#[test]
fn sorting_sorted_input_is_identity() {
    let mut v: Vec<i64> = vec![1, 3, 4, 10, 12];
    sort_total(&mut v);
    assert_eq!(v, vec![1, 3, 4, 10, 12]);
}

#[test]
fn partial_order_sort_of_float_ranks() {
    // Positive floats order exactly as their bit patterns do, so each float
    // enters the engine as the rank its bits give.
    let input: Vec<f32> = vec![1.0, 5.6, 10.3, 2.0, 15.0];
    let mut v: Vec<PartialRank> = input.iter().map(|f| PartialRank::Ranked(f.to_bits() as u64)).collect();
    let outcome = sort_partial(&mut v);
    assert_eq!(outcome, Ok(()));
    let expected: Vec<f32> = vec![1.0, 2.0, 5.6, 10.3, 15.0];
    let expected_ranks: Vec<PartialRank> =
        expected.iter().map(|f| PartialRank::Ranked(f.to_bits() as u64)).collect();
    assert_eq!(v, expected_ranks);
}

#[test]
fn partial_sort_of_sorted_input_is_identity() {
    let mut v = vec![PartialRank::Ranked(1), PartialRank::Ranked(2), PartialRank::Ranked(3)];
    let outcome = sort_partial(&mut v);
    assert_eq!(outcome, Ok(()));
    assert_eq!(v, vec![PartialRank::Ranked(1), PartialRank::Ranked(2), PartialRank::Ranked(3)]);
}

#[test]
fn undefined_value_is_incomparable() {
    let mut v = vec![PartialRank::Ranked(3), PartialRank::Undefined, PartialRank::Ranked(1)];
    let outcome = sort_partial(&mut v);
    assert_eq!(outcome, Err(CoreError::IncomparableValues));
    // Nothing was reordered.
    assert_eq!(v, vec![PartialRank::Ranked(3), PartialRank::Undefined, PartialRank::Ranked(1)]);
}

#[test]
fn lone_undefined_value_meets_no_pair() {
    let mut v = vec![PartialRank::Undefined];
    assert_eq!(sort_partial(&mut v), Ok(()));
    assert_eq!(v, vec![PartialRank::Undefined]);
}

#[test]
fn records_sort_by_age() {
    let mut people = vec![
        Person::new("Zoe".to_string(), 25),
        Person::new("Al".to_string(), 60),
        Person::new("John".to_string(), 1),
    ];
    sort_total(&mut people);
    let order: Vec<(&str, u32)> = people.iter().map(|p| (p.name.as_str(), p.age)).collect();
    assert_eq!(order, vec![("John", 1), ("Zoe", 25), ("Al", 60)]);
}

#[test]
fn equal_ranks_keep_input_order() {
    let mut people = vec![
        Person::new("first".to_string(), 7),
        Person::new("second".to_string(), 7),
    ];
    sort_total(&mut people);
    assert_eq!(people[0].name, "first");
    assert_eq!(people[1].name, "second");
}

#[test]
fn largest_by_value() {
    let list: Vec<i64> = vec![3, 9, 2, 9, 1];
    assert_eq!(largest(&list), 9);
}

#[test]
fn largest_by_reference() {
    let people = vec![
        Person::new("Zoe".to_string(), 25),
        Person::new("Al".to_string(), 60),
        Person::new("John".to_string(), 1),
    ];
    let oldest = largest_t(&people);
    assert_eq!(oldest.name, "Al");
    assert_eq!(oldest.age, 60);
}
