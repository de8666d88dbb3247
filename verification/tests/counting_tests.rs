use polycore::counting::FrequencyMap;
use polycore::CoreError;

fn keys(words: &[&str]) -> Vec<String> {
    words.iter().map(|w| w.to_string()).collect()
}

#[test]
fn aggregate_counts_each_key() {
    let m = FrequencyMap::aggregate(&keys(&["hello", "world", "wonderful", "world"]));
    assert_eq!(m.count(&"hello".to_string()), 1);
    assert_eq!(m.count(&"world".to_string()), 2);
    assert_eq!(m.count(&"wonderful".to_string()), 1);
    assert_eq!(m.count(&"absent".to_string()), 0);
}

#[test]
fn aggregate_of_empty_input_is_empty() {
    let m = FrequencyMap::aggregate(&keys(&[]));
    assert!(m.is_empty());
    assert_eq!(m.count(&"anything".to_string()), 0);
}

#[test]
fn insert_increments_rather_than_overwrites() {
    let mut m = FrequencyMap::new();
    m.add_key("k".to_string());
    m.add_key("k".to_string());
    assert_eq!(m.count(&"k".to_string()), 2);
}

#[test]
fn get_reports_key_absent() {
    let m = FrequencyMap::aggregate(&keys(&["present"]));
    assert_eq!(m.get(&"present".to_string()), Ok(1));
    assert_eq!(m.get(&"missing".to_string()), Err(CoreError::KeyAbsent));
}

#[test]
fn fallback_lookup_cannot_fail() {
    let m = FrequencyMap::aggregate(&keys(&["present"]));
    assert_eq!(m.count_or(&"present".to_string(), 9), 1);
    assert_eq!(m.count_or(&"missing".to_string(), 9), 9);
}

#[test]
fn merging_two_aggregates_matches_aggregating_the_concatenation() {
    let words = ["hello", "world", "wonderful", "world"];
    let mut merged = FrequencyMap::aggregate(&keys(&words));
    let again = FrequencyMap::aggregate(&keys(&words));
    merged.merge(&again);

    let mut doubled: Vec<&str> = words.to_vec();
    doubled.extend_from_slice(&words);
    let combined = FrequencyMap::aggregate(&keys(&doubled));

    for w in ["hello", "world", "wonderful", "absent"] {
        assert_eq!(merged.count(&w.to_string()), combined.count(&w.to_string()));
    }
    assert_eq!(merged.count(&"world".to_string()), 4);
}

#[test]
fn merge_adds_counts_per_key() {
    let mut a = FrequencyMap::aggregate(&keys(&["x", "y"]));
    let b = FrequencyMap::aggregate(&keys(&["y", "z", "y"]));
    a.merge(&b);
    assert_eq!(a.count(&"x".to_string()), 1);
    assert_eq!(a.count(&"y".to_string()), 3);
    assert_eq!(a.count(&"z".to_string()), 1);
}
