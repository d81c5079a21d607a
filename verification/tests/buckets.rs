use std::collections::BTreeMap;

use sqlengine::indexes::{index_from_hashes, ConstructedIndex, LineNumber};
use sqlengine::query::from::{confirm_bucket, into_row, values_equal};
use sqlengine::query::join::{build_buckets, confirm_matches};
use sqlengine::source::RawRecord;
use sqlengine::types::Row;
use sqlengine::value::Value;

fn record(id: i64, name: &str) -> RawRecord {
    RawRecord {
        fields: vec![
            ("id".to_string(), Value::Int(id)),
            ("name".to_string(), Value::Str(name.to_string())),
        ],
    }
}

#[test]
fn an_index_of_hashes_holds_the_positions_of_each_hash() {
    let built = index_from_hashes(&vec![5, 7, 5, 9, 7, 5]);
    assert_eq!(
        built,
        ConstructedIndex {
            items: BTreeMap::from_iter([
                (5, vec![LineNumber(0), LineNumber(2), LineNumber(5)]),
                (7, vec![LineNumber(1), LineNumber(4)]),
                (9, vec![LineNumber(3)]),
            ]),
        }
    );
    assert_eq!(
        index_from_hashes(&vec![]),
        ConstructedIndex {
            items: BTreeMap::new()
        }
    );
}

#[test]
fn a_bucket_is_confirmed_by_the_keys() {
    let records = vec![
        record(1, "a"),
        record(2, "b"),
        record(1, "c"),
        record(3, "d"),
        record(1, "e"),
    ];
    // A bucket in which the records of the keys 1 and 3 have met.
    let bucket = vec![LineNumber(0), LineNumber(2), LineNumber(3), LineNumber(4)];
    let columns = vec!["id".to_string()];
    assert_eq!(
        confirm_bucket(&bucket, &records, &columns, &vec![Value::Int(1)]),
        vec![0, 2, 4]
    );
    assert_eq!(
        confirm_bucket(&bucket, &records, &columns, &vec![Value::Int(3)]),
        vec![3]
    );
    assert_eq!(
        confirm_bucket(&bucket, &records, &columns, &vec![Value::Int(2)]),
        Vec::<usize>::new()
    );
    assert_eq!(
        confirm_bucket(&vec![], &records, &columns, &vec![Value::Int(1)]),
        Vec::<usize>::new()
    );
    assert_eq!(
        confirm_bucket(
            &bucket,
            &records,
            &columns,
            &vec![Value::Str("1".to_string())]
        ),
        Vec::<usize>::new()
    );
}

#[test]
fn the_buckets_of_a_join_are_those_of_the_left_hashes() {
    let buckets = build_buckets(&vec![10, 20, 10], &vec![20, 30, 10, 20, 40]);
    assert_eq!(buckets.len(), 2);
    assert_eq!(buckets.get(&10), Some(&vec![2]));
    assert_eq!(buckets.get(&20), Some(&vec![0, 3]));
    assert_eq!(buckets.get(&30), None);
    let none = build_buckets(&vec![1], &vec![]);
    assert_eq!(none.get(&1), Some(&vec![]));
    assert_eq!(build_buckets(&vec![], &vec![1, 2]).len(), 0);
}

#[test]
fn the_matches_of_a_join_are_confirmed_by_the_keys() {
    let right_keys = vec![
        Value::Int(1),
        Value::Str("1".to_string()),
        Value::Int(2),
        Value::Int(1),
    ];
    assert_eq!(
        confirm_matches(&vec![0, 1, 2, 3], &right_keys, &Value::Int(1)),
        vec![0, 3]
    );
    assert_eq!(
        confirm_matches(&vec![3, 0], &right_keys, &Value::Int(1)),
        vec![3, 0]
    );
    assert_eq!(
        confirm_matches(&vec![0, 2, 3], &right_keys, &Value::Str("1".to_string())),
        Vec::<usize>::new()
    );
}

#[test]
fn keys_are_equal_value_by_value() {
    assert!(values_equal(&vec![], &vec![]));
    assert!(values_equal(
        &vec![Value::Int(1), Value::Null],
        &vec![Value::Int(1), Value::Null]
    ));
    assert!(!values_equal(&vec![Value::Int(1)], &vec![Value::Int(1), Value::Null]));
    assert!(!values_equal(
        &vec![Value::Int(1), Value::Null],
        &vec![Value::Int(1), Value::Bool(false)]
    ));
}

#[test]
fn a_record_becomes_a_row_in_declaration_order() {
    assert_eq!(
        into_row(
            &record(7, "horse"),
            &vec!["name".to_string(), "id".to_string()]
        ),
        Row {
            items: vec![Value::Str("horse".to_string()), Value::Int(7)],
        }
    );
}
