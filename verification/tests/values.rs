use sqlengine::value::{compare_values, flip, float_less, Comparison, Value};

fn text(s: &str) -> Value {
    Value::Str(s.to_string())
}

fn float(f: f64) -> Value {
    Value::Float(f.to_bits())
}

#[test]
fn equality_is_strict_across_kinds() {
    assert!(Value::Int(1).equals(&Value::Int(1)));
    assert!(!Value::Int(1).equals(&Value::Int(2)));
    assert!(!Value::Int(1).equals(&float(1.0)));
    assert!(!Value::Int(1).equals(&text("1")));
    assert!(!Value::Bool(false).equals(&Value::Null));
    assert!(!Value::Int(0).equals(&Value::Bool(false)));
    assert!(Value::Null.equals(&Value::Null));
    assert!(text("horse").equals(&text("horse")));
    assert!(!text("horse").equals(&text("Horse")));
    assert!(float(0.5).equals(&float(0.5)));
}

#[test]
fn float_equality_is_that_of_the_bit_patterns() {
    assert!(!float(0.0).equals(&float(-0.0)));
    assert!(float(-0.0).equals(&float(-0.0)));
}

#[test]
fn clone_keeps_the_value() {
    assert_eq!(text("dog").clone(), text("dog"));
    assert_eq!(Value::Int(-7).clone(), Value::Int(-7));
    assert_eq!(float(2.5).clone(), float(2.5));
    assert_eq!(Value::Null.clone(), Value::Null);
    assert_eq!(Value::Bool(true).clone(), Value::Bool(true));
}

#[test]
fn booleans_order_false_before_true() {
    assert_eq!(
        compare_values(&Value::Bool(false), &Value::Bool(true)),
        Some(Comparison::Less)
    );
    assert_eq!(
        compare_values(&Value::Bool(true), &Value::Bool(false)),
        Some(Comparison::Greater)
    );
    assert_eq!(
        compare_values(&Value::Bool(true), &Value::Bool(true)),
        Some(Comparison::Equal)
    );
}

#[test]
fn integers_order_by_size() {
    assert_eq!(
        compare_values(&Value::Int(-3), &Value::Int(2)),
        Some(Comparison::Less)
    );
    assert_eq!(
        compare_values(&Value::Int(i64::MAX), &Value::Int(i64::MIN)),
        Some(Comparison::Greater)
    );
    assert_eq!(
        compare_values(&Value::Int(5), &Value::Int(5)),
        Some(Comparison::Equal)
    );
}

#[test]
fn floats_order_by_the_total_order() {
    let ascending = [
        f64::NEG_INFINITY,
        -2.5,
        -1.0,
        -0.0,
        0.0,
        f64::MIN_POSITIVE,
        1.0,
        2.5,
        f64::INFINITY,
    ];
    for i in 0..ascending.len() {
        for j in 0..ascending.len() {
            let expected = if i < j {
                Comparison::Less
            } else if i == j {
                Comparison::Equal
            } else {
                Comparison::Greater
            };
            assert_eq!(
                compare_values(&float(ascending[i]), &float(ascending[j])),
                Some(expected)
            );
            assert_eq!(
                float_less(ascending[i].to_bits(), ascending[j].to_bits()),
                ascending[i].total_cmp(&ascending[j]) == std::cmp::Ordering::Less
            );
        }
    }
}

#[test]
fn strings_order_lexicographically() {
    assert_eq!(
        compare_values(&text("apple"), &text("banana")),
        Some(Comparison::Less)
    );
    assert_eq!(
        compare_values(&text("b"), &text("apple")),
        Some(Comparison::Greater)
    );
    assert_eq!(
        compare_values(&text("app"), &text("apple")),
        Some(Comparison::Less)
    );
    assert_eq!(compare_values(&text(""), &text("")), Some(Comparison::Equal));
    assert_eq!(
        compare_values(&text("Zebra"), &text("apple")),
        Some(Comparison::Less)
    );
    assert_eq!(
        compare_values(&text("é"), &text("z")),
        Some(Comparison::Greater)
    );
    assert_eq!(
        compare_values(&text("same"), &text("same")),
        Some(Comparison::Equal)
    );
}

#[test]
fn nulls_are_equal_to_each_other() {
    assert_eq!(
        compare_values(&Value::Null, &Value::Null),
        Some(Comparison::Equal)
    );
}

#[test]
fn values_of_different_kinds_have_no_order() {
    assert_eq!(compare_values(&Value::Int(1), &text("1")), None);
    assert_eq!(compare_values(&text("1"), &Value::Int(1)), None);
    assert_eq!(compare_values(&Value::Int(1), &float(1.0)), None);
    assert_eq!(compare_values(&Value::Null, &Value::Int(0)), None);
    assert_eq!(compare_values(&Value::Bool(true), &Value::Int(1)), None);
    assert_eq!(compare_values(&float(1.0), &Value::Null), None);
}

#[test]
fn flip_swaps_less_and_greater() {
    assert_eq!(flip(Comparison::Less), Comparison::Greater);
    assert_eq!(flip(Comparison::Greater), Comparison::Less);
    assert_eq!(flip(Comparison::Equal), Comparison::Equal);
}

#[test]
fn comparing_the_other_way_flips_the_answer() {
    let values = [
        Value::Int(3),
        Value::Int(-1),
        text("a"),
        text("b"),
        float(1.5),
        float(-1.5),
        Value::Bool(true),
        Value::Null,
    ];
    for a in &values {
        for b in &values {
            assert_eq!(compare_values(b, a), compare_values(a, b).map(flip));
        }
    }
}
