use sqlengine::query::join::{hash_join, join_keys};
use sqlengine::query::order_by::{compare_rows, order_by, resolve_keys, SortKey};
use sqlengine::query::project::{
    index_for_expr, is_aggregate_expr, literal_label, project_field_row, project_fields,
    project_schema,
};
use sqlengine::query::{filter_rows, limit_rows, QueryError};
use sqlengine::types::{
    AggregateFunctionName, Column, Cost, Expr, FunctionName, JoinOn, JoinType, Op, Order,
    OrderByExpr, QueryStep, Row, Schema, SchemaColumn, TableAlias,
};
use sqlengine::value::{Comparison, Value};

fn text(s: &str) -> Value {
    Value::Str(s.to_string())
}

fn col(name: &str) -> Column {
    Column {
        name: name.to_string(),
        table_alias: None,
    }
}

fn column(name: &str) -> Expr {
    Expr::Column { column: col(name) }
}

fn literal(value: Value) -> Expr {
    Expr::Literal { literal: value }
}

fn binary(left: Expr, op: Op, right: Expr) -> Expr {
    Expr::BinaryOperation {
        left: Box::new(left),
        op,
        right: Box::new(right),
    }
}

fn sum(arg: Expr) -> Expr {
    Expr::FunctionCall {
        function_name: FunctionName::Aggregate(AggregateFunctionName::Sum),
        args: vec![arg],
    }
}

fn schema(names: &[&str]) -> Schema {
    Schema {
        columns: names
            .iter()
            .map(|name| SchemaColumn::Column(col(name)))
            .collect(),
    }
}

fn row(items: Vec<Value>) -> Row {
    Row { items }
}

fn ints(items: &[i64]) -> Row {
    Row {
        items: items.iter().map(|i| Value::Int(*i)).collect(),
    }
}

fn key(name: &str, order: Order) -> OrderByExpr {
    OrderByExpr {
        column: col(name),
        order,
    }
}

#[test]
fn filter_keeps_the_rows_that_satisfy_the_predicate() {
    let rows = vec![ints(&[1, 10]), ints(&[2, 20]), ints(&[3, 10]), ints(&[4, 30])];
    let mut cost = Cost { rows_processed: 5 };
    let kept = filter_rows(
        &rows,
        &schema(&["id", "n"]),
        &binary(column("n"), Op::Equals, literal(Value::Int(10))),
        &mut cost,
    );
    assert_eq!(kept, Ok(vec![ints(&[1, 10]), ints(&[3, 10])]));
    assert_eq!(cost.rows_processed, 9);
}

#[test]
fn filter_fails_with_the_first_row_that_fails() {
    let rows = vec![ints(&[1, 10]), row(vec![Value::Int(2), text("x")])];
    let mut cost = Cost::new();
    let kept = filter_rows(
        &rows,
        &schema(&["id", "n"]),
        &binary(column("n"), Op::GreaterThan, literal(Value::Int(5))),
        &mut cost,
    );
    assert!(matches!(kept, Err(QueryError::FilterError(_))));
}

#[test]
fn limit_gives_the_first_rows_in_order() {
    let rows = || vec![ints(&[3]), ints(&[1]), ints(&[2])];
    assert_eq!(limit_rows(rows(), 2), vec![ints(&[3]), ints(&[1])]);
    assert_eq!(limit_rows(rows(), 0), Vec::<Row>::new());
    assert_eq!(limit_rows(rows(), 3), rows());
    assert_eq!(limit_rows(rows(), 4), rows());
    assert_eq!(limit_rows(rows(), u64::MAX), rows());
    assert_eq!(limit_rows(vec![], 5), Vec::<Row>::new());
}

#[test]
fn the_label_of_a_literal_is_its_printed_form() {
    assert_eq!(literal_label(&Value::Int(1)), "1");
    assert_eq!(literal_label(&Value::Int(-42)), "-42");
    assert_eq!(literal_label(&Value::Int(0)), "0");
    assert_eq!(literal_label(&Value::Int(10)), "10");
    assert_eq!(literal_label(&Value::Int(-1)), "-1");
    assert_eq!(literal_label(&Value::Int(907)), "907");
    assert_eq!(literal_label(&Value::Int(i64::MAX)), "9223372036854775807");
    assert_eq!(literal_label(&Value::Int(i64::MIN)), "-9223372036854775808");
    for i in [-1000i64, -11, 5, 99, 100, 123456789] {
        assert_eq!(literal_label(&Value::Int(i)), i.to_string());
    }
    assert_eq!(literal_label(&text("horse")), "\"horse\"");
    assert_eq!(literal_label(&text("a\"b\n")), "\"a\\\"b\\n\"");
    assert_eq!(literal_label(&Value::Null), "null");
    assert_eq!(literal_label(&Value::Bool(true)), "true");
    assert_eq!(literal_label(&Value::Bool(false)), "false");
}

#[test]
fn the_label_of_a_float_is_its_bit_pattern() {
    assert_eq!(
        literal_label(&Value::Float(1.5f64.to_bits())),
        "0x3ff8000000000000"
    );
    assert_eq!(literal_label(&Value::Float(0)), "0x0000000000000000");
    assert_eq!(
        literal_label(&Value::Float(u64::MAX)),
        "0xffffffffffffffff"
    );
    assert_eq!(
        literal_label(&Value::Float(0x0123_4567_89ab_cdef)),
        "0x0123456789abcdef"
    );
}

#[test]
fn a_projected_field_gives_its_schema_column() {
    let s = Schema {
        columns: vec![
            SchemaColumn::Column(col("id")),
            SchemaColumn::Column(Column {
                name: "id".to_string(),
                table_alias: Some(TableAlias("a".to_string())),
            }),
        ],
    };
    assert_eq!(index_for_expr(&column("id"), &s), Ok(SchemaColumn::Column(col("id"))));
    assert_eq!(
        index_for_expr(
            &Expr::Nested {
                expr: Box::new(column("id"))
            },
            &s
        ),
        Ok(SchemaColumn::Column(col("id")))
    );
    assert_eq!(
        index_for_expr(&literal(text("x")), &s),
        Ok(SchemaColumn::Named("\"x\"".to_string()))
    );
    assert_eq!(
        index_for_expr(&binary(column("id"), Op::Add, literal(Value::Int(1))), &s),
        Ok(SchemaColumn::Named("add".to_string()))
    );
    assert_eq!(
        index_for_expr(&sum(column("id")), &s),
        Ok(SchemaColumn::Named("sum".to_string()))
    );
    assert_eq!(
        index_for_expr(&column("name"), &s),
        Err(QueryError::ColumnNotFoundInSchema {
            column_name: col("name")
        })
    );
}

#[test]
fn the_projected_schema_has_one_column_for_each_field() {
    let s = schema(&["id", "name"]);
    assert_eq!(
        project_schema(
            &s,
            &vec![column("name"), sum(column("id")), literal(Value::Int(7))]
        ),
        Ok(Schema {
            columns: vec![
                SchemaColumn::Column(col("name")),
                SchemaColumn::Named("sum".to_string()),
                SchemaColumn::Named("7".to_string()),
            ],
        })
    );
    assert_eq!(project_schema(&s, &vec![]), Ok(Schema { columns: vec![] }));
    assert_eq!(
        project_schema(&s, &vec![column("name"), column("age"), column("size")]),
        Err(QueryError::ColumnNotFoundInSchema {
            column_name: col("age")
        })
    );
}

#[test]
fn an_expression_is_an_aggregate_when_it_holds_one() {
    assert!(!is_aggregate_expr(&column("id")));
    assert!(!is_aggregate_expr(&literal(Value::Int(1))));
    assert!(is_aggregate_expr(&sum(column("id"))));
    assert!(is_aggregate_expr(&binary(
        literal(Value::Int(1)),
        Op::Add,
        Expr::Nested {
            expr: Box::new(sum(column("id")))
        }
    )));
    assert!(!is_aggregate_expr(&binary(
        literal(Value::Int(1)),
        Op::Add,
        Expr::Nested {
            expr: Box::new(column("id"))
        }
    )));
}

#[test]
fn a_projection_of_aggregates_alone_gives_one_row() {
    let rows = vec![ints(&[1, 10]), ints(&[2, 20]), ints(&[3, 30])];
    let mut cost = Cost::new();
    let projected = project_fields(
        &rows,
        &schema(&["id", "n"]),
        &vec![
            sum(column("id")),
            binary(sum(column("n")), Op::Subtract, literal(Value::Int(1))),
        ],
        &mut cost,
    );
    assert_eq!(projected, Ok(vec![ints(&[6, 59])]));
    assert_eq!(cost.rows_processed, 3);
}

#[test]
fn a_projection_of_aggregates_over_no_rows_gives_one_row() {
    let mut cost = Cost::new();
    let projected = project_fields(
        &vec![],
        &schema(&["id"]),
        &vec![sum(column("id"))],
        &mut cost,
    );
    assert_eq!(projected, Ok(vec![ints(&[0])]));
    assert_eq!(cost.rows_processed, 0);
}

#[test]
fn a_mixed_projection_gives_one_row_for_each_row() {
    let rows = vec![ints(&[1, 10]), ints(&[2, 20]), ints(&[3, 30])];
    let mut cost = Cost { rows_processed: 100 };
    let projected = project_fields(
        &rows,
        &schema(&["id", "n"]),
        &vec![column("n"), sum(column("id")), literal(text("x"))],
        &mut cost,
    );
    assert_eq!(
        projected,
        Ok(vec![
            row(vec![Value::Int(10), Value::Int(6), text("x")]),
            row(vec![Value::Int(20), Value::Int(6), text("x")]),
            row(vec![Value::Int(30), Value::Int(6), text("x")]),
        ])
    );
    assert_eq!(cost.rows_processed, 106);
}

#[test]
fn a_plain_projection_counts_each_row_once() {
    let rows = vec![ints(&[1, 10]), ints(&[2, 20])];
    let mut cost = Cost::new();
    let projected = project_fields(
        &rows,
        &schema(&["id", "n"]),
        &vec![column("n")],
        &mut cost,
    );
    assert_eq!(projected, Ok(vec![ints(&[10]), ints(&[20])]));
    assert_eq!(cost.rows_processed, 2);
}

#[test]
fn a_projection_of_no_fields_gives_one_empty_row() {
    let rows = vec![ints(&[1]), ints(&[2])];
    let mut cost = Cost::new();
    assert_eq!(
        project_fields(&rows, &schema(&["id"]), &vec![], &mut cost),
        Ok(vec![row(vec![])])
    );
    assert_eq!(cost.rows_processed, 0);
}

#[test]
fn a_failing_aggregate_fails_the_projection_before_any_row() {
    let rows = vec![row(vec![text("a")])];
    let mut cost = Cost::new();
    assert_eq!(
        project_fields(
            &rows,
            &schema(&["id"]),
            &vec![column("missing"), sum(column("id"))],
            &mut cost
        ),
        Err(QueryError::TypeMismatch {
            expected: "i64".to_string()
        })
    );
}

#[test]
fn a_projected_row_takes_stored_aggregates() {
    let projected = project_field_row(
        &ints(&[1, 10]),
        &schema(&["id", "n"]),
        &vec![column("n"), sum(column("id")), column("id")],
        &vec![None, Some(Value::Int(99))],
    );
    assert_eq!(projected, Ok(ints(&[10, 99, 1])));
}

fn join_inputs() -> (Vec<Row>, Schema, Vec<Row>, Schema, JoinOn) {
    let left = vec![
        row(vec![Value::Int(1), text("mammal")]),
        row(vec![Value::Int(2), text("reptile")]),
        row(vec![Value::Int(3), text("bird")]),
    ];
    let right = vec![
        row(vec![Value::Int(1), text("horse"), Value::Int(1)]),
        row(vec![Value::Int(2), text("dog"), Value::Int(1)]),
        row(vec![Value::Int(3), text("snake"), Value::Int(2)]),
    ];
    let on = JoinOn {
        left: col("species_id"),
        right: col("species_id"),
    };
    (
        left,
        schema(&["species_id", "species_name"]),
        right,
        schema(&["animal_id", "animal_name", "species_id"]),
        on,
    )
}

#[test]
fn an_inner_join_holds_the_rows_with_equal_keys() {
    let (left, left_schema, right, right_schema, on) = join_inputs();
    let step = hash_join(
        left,
        &left_schema,
        right,
        &right_schema,
        &on,
        &JoinType::Inner,
        Cost { rows_processed: 6 },
    )
    .unwrap();
    assert_eq!(
        step.schema,
        schema(&[
            "species_id",
            "species_name",
            "animal_id",
            "animal_name",
            "species_id"
        ])
    );
    assert_eq!(
        step.rows,
        vec![
            row(vec![
                Value::Int(1),
                text("mammal"),
                Value::Int(1),
                text("horse"),
                Value::Int(1)
            ]),
            row(vec![
                Value::Int(1),
                text("mammal"),
                Value::Int(2),
                text("dog"),
                Value::Int(1)
            ]),
            row(vec![
                Value::Int(2),
                text("reptile"),
                Value::Int(3),
                text("snake"),
                Value::Int(2)
            ]),
        ]
    );
    for joined in &step.rows {
        assert_eq!(joined.items[0], joined.items[4]);
    }
    assert_eq!(step.cost.rows_processed, 6 + 3 + 3 + 3);
}

#[test]
fn a_left_outer_join_pads_a_row_without_a_match() {
    let (left, left_schema, right, right_schema, on) = join_inputs();
    let step = hash_join(
        left,
        &left_schema,
        right,
        &right_schema,
        &on,
        &JoinType::LeftOuter,
        Cost::new(),
    )
    .unwrap();
    assert_eq!(step.rows.len(), 4);
    assert_eq!(
        step.rows[3],
        row(vec![
            Value::Int(3),
            text("bird"),
            Value::Null,
            Value::Null,
            Value::Null
        ])
    );
    let padded: Vec<&Row> = step
        .rows
        .iter()
        .filter(|r| r.items[0] == Value::Int(3))
        .collect();
    assert_eq!(padded.len(), 1);
    assert_eq!(step.cost.rows_processed, 9);
    for joined in &step.rows {
        assert_eq!(joined.items.len(), step.schema.columns.len());
    }
}

#[test]
fn a_join_never_matches_values_of_different_kinds() {
    let left = vec![row(vec![Value::Int(1)]), row(vec![text("1")]), row(vec![Value::Null])];
    let right = vec![
        row(vec![text("1")]),
        row(vec![Value::Int(1)]),
        row(vec![Value::Float(1.0f64.to_bits())]),
        row(vec![Value::Null]),
        row(vec![Value::Int(1)]),
    ];
    let on = JoinOn {
        left: col("k"),
        right: col("k"),
    };
    let step = hash_join(
        left,
        &schema(&["k"]),
        right,
        &schema(&["k"]),
        &on,
        &JoinType::Inner,
        Cost::new(),
    )
    .unwrap();
    assert_eq!(
        step.rows,
        vec![
            row(vec![Value::Int(1), Value::Int(1)]),
            row(vec![Value::Int(1), Value::Int(1)]),
            row(vec![text("1"), text("1")]),
            row(vec![Value::Null, Value::Null]),
        ]
    );
}

#[test]
fn a_join_on_a_missing_column_is_an_error() {
    let (left, left_schema, right, right_schema, _) = join_inputs();
    let missing_left = JoinOn {
        left: col("nope"),
        right: col("gone"),
    };
    assert_eq!(
        hash_join(
            left,
            &left_schema,
            right,
            &right_schema,
            &missing_left,
            &JoinType::Inner,
            Cost::new()
        ),
        Err(QueryError::ColumnNotFoundInSchema {
            column_name: col("nope")
        })
    );
    let (left, left_schema, right, right_schema, _) = join_inputs();
    let missing_right = JoinOn {
        left: col("species_id"),
        right: col("gone"),
    };
    assert_eq!(
        hash_join(
            left,
            &left_schema,
            right,
            &right_schema,
            &missing_right,
            &JoinType::LeftOuter,
            Cost::new()
        ),
        Err(QueryError::ColumnNotFoundInSchema {
            column_name: col("gone")
        })
    );
}

#[test]
fn a_join_of_no_rows_reads_no_column() {
    let on = JoinOn {
        left: col("nope"),
        right: col("gone"),
    };
    let step = hash_join(
        vec![],
        &schema(&["a"]),
        vec![],
        &schema(&["b"]),
        &on,
        &JoinType::Inner,
        Cost { rows_processed: 4 },
    )
    .unwrap();
    assert_eq!(step.rows, Vec::<Row>::new());
    assert_eq!(step.schema, schema(&["a", "b"]));
    assert_eq!(step.cost.rows_processed, 4);
}

#[test]
fn join_keys_are_the_values_under_the_column() {
    let rows = vec![ints(&[1, 10]), ints(&[2, 20])];
    assert_eq!(
        join_keys(&rows, &schema(&["id", "n"]), &col("n")),
        Ok(vec![Value::Int(10), Value::Int(20)])
    );
}

#[test]
fn rows_compare_key_by_key() {
    let keys = vec![
        SortKey {
            index: 0,
            order: Order::Asc,
        },
        SortKey {
            index: 1,
            order: Order::Desc,
        },
    ];
    assert_eq!(
        compare_rows(&ints(&[1, 5]), &ints(&[2, 5]), &keys),
        Some(Comparison::Less)
    );
    assert_eq!(
        compare_rows(&ints(&[1, 5]), &ints(&[1, 7]), &keys),
        Some(Comparison::Greater)
    );
    assert_eq!(
        compare_rows(&ints(&[1, 5]), &ints(&[1, 5]), &keys),
        Some(Comparison::Equal)
    );
    assert_eq!(
        compare_rows(
            &row(vec![Value::Int(1), text("a")]),
            &ints(&[1, 5]),
            &keys
        ),
        None
    );
    assert_eq!(
        compare_rows(
            &row(vec![Value::Int(1), text("a")]),
            &ints(&[2, 5]),
            &keys
        ),
        Some(Comparison::Less)
    );
    assert_eq!(
        compare_rows(&ints(&[1, 5]), &ints(&[2, 6]), &vec![]),
        Some(Comparison::Equal)
    );
}

#[test]
fn keys_are_resolved_in_the_schema() {
    let s = schema(&["a", "b"]);
    assert_eq!(
        resolve_keys(&s, &vec![key("b", Order::Desc), key("a", Order::Asc)]),
        Ok(vec![
            SortKey {
                index: 1,
                order: Order::Desc
            },
            SortKey {
                index: 0,
                order: Order::Asc
            },
        ])
    );
    assert_eq!(
        resolve_keys(&s, &vec![key("b", Order::Desc), key("c", Order::Asc)]),
        Err(QueryError::ColumnNotFoundInSchema {
            column_name: col("c")
        })
    );
}

#[test]
fn order_by_sorts_and_is_stable() {
    let rows = vec![
        row(vec![Value::Int(2), text("first two")]),
        row(vec![Value::Int(1), text("first one")]),
        row(vec![Value::Int(2), text("second two")]),
        row(vec![Value::Int(1), text("second one")]),
        row(vec![Value::Int(0), text("zero")]),
        row(vec![Value::Int(2), text("third two")]),
    ];
    let mut cost = Cost::new();
    let sorted = order_by(
        rows,
        &schema(&["n", "label"]),
        &vec![key("n", Order::Asc)],
        &mut cost,
    );
    assert_eq!(
        sorted,
        Ok(vec![
            row(vec![Value::Int(0), text("zero")]),
            row(vec![Value::Int(1), text("first one")]),
            row(vec![Value::Int(1), text("second one")]),
            row(vec![Value::Int(2), text("first two")]),
            row(vec![Value::Int(2), text("second two")]),
            row(vec![Value::Int(2), text("third two")]),
        ])
    );
    // Each half takes three comparisons, and merging the halves five.
    assert_eq!(cost.rows_processed, 11);
}

#[test]
fn order_by_descending_keeps_equal_rows_in_order() {
    let rows = vec![
        row(vec![Value::Int(1), text("a")]),
        row(vec![Value::Int(2), text("b")]),
        row(vec![Value::Int(1), text("c")]),
        row(vec![Value::Int(2), text("d")]),
    ];
    let mut cost = Cost { rows_processed: 10 };
    let sorted = order_by(
        rows,
        &schema(&["n", "label"]),
        &vec![key("n", Order::Desc)],
        &mut cost,
    );
    assert_eq!(
        sorted,
        Ok(vec![
            row(vec![Value::Int(2), text("b")]),
            row(vec![Value::Int(2), text("d")]),
            row(vec![Value::Int(1), text("a")]),
            row(vec![Value::Int(1), text("c")]),
        ])
    );
    assert_eq!(cost.rows_processed, 10 + 1 + 1 + 3);
}

#[test]
fn order_by_two_keys_breaks_ties_by_the_second() {
    let rows = vec![
        row(vec![Value::Int(2), text("b")]),
        row(vec![Value::Int(1), text("z")]),
        row(vec![Value::Int(2), text("a")]),
        row(vec![Value::Int(1), text("y")]),
    ];
    let mut cost = Cost::new();
    let sorted = order_by(
        rows,
        &schema(&["n", "label"]),
        &vec![key("n", Order::Asc), key("label", Order::Asc)],
        &mut cost,
    );
    assert_eq!(
        sorted,
        Ok(vec![
            row(vec![Value::Int(1), text("y")]),
            row(vec![Value::Int(1), text("z")]),
            row(vec![Value::Int(2), text("a")]),
            row(vec![Value::Int(2), text("b")]),
        ])
    );
}

#[test]
fn order_by_of_four_sorted_rows_takes_four_comparisons() {
    let rows = vec![ints(&[1]), ints(&[2]), ints(&[3]), ints(&[4])];
    let mut cost = Cost::new();
    let sorted = order_by(rows.clone(), &schema(&["n"]), &vec![key("n", Order::Asc)], &mut cost);
    assert_eq!(sorted, Ok(rows));
    assert_eq!(cost.rows_processed, 4);
    let mut none = Cost::new();
    assert_eq!(
        order_by(vec![], &schema(&["n"]), &vec![key("n", Order::Asc)], &mut none),
        Ok(vec![])
    );
    assert_eq!(none.rows_processed, 0);
}

#[test]
fn order_by_of_values_of_different_kinds_is_an_error() {
    let rows = vec![ints(&[1]), row(vec![text("a")]), ints(&[2])];
    let mut cost = Cost::new();
    assert_eq!(
        order_by(rows, &schema(&["n"]), &vec![key("n", Order::Asc)], &mut cost),
        Err(QueryError::TypeMismatch {
            expected: "values of one kind".to_string()
        })
    );
    let nulls = vec![ints(&[1]), row(vec![Value::Null])];
    let mut cost = Cost::new();
    assert_eq!(
        order_by(nulls, &schema(&["n"]), &vec![key("n", Order::Desc)], &mut cost),
        Err(QueryError::TypeMismatch {
            expected: "values of one kind".to_string()
        })
    );
}

#[test]
fn order_by_a_missing_column_is_an_error() {
    let mut cost = Cost::new();
    assert_eq!(
        order_by(
            vec![ints(&[1])],
            &schema(&["n"]),
            &vec![key("m", Order::Asc)],
            &mut cost
        ),
        Err(QueryError::ColumnNotFoundInSchema {
            column_name: col("m")
        })
    );
}

#[test]
fn every_row_of_a_step_is_as_long_as_its_schema() {
    let (left, left_schema, right, right_schema, on) = join_inputs();
    let step: QueryStep = hash_join(
        left,
        &left_schema,
        right,
        &right_schema,
        &on,
        &JoinType::LeftOuter,
        Cost::new(),
    )
    .unwrap();
    assert!(step
        .rows
        .iter()
        .all(|r| r.items.len() == step.schema.columns.len()));
}

#[test]
fn order_by_of_many_rows_takes_few_comparisons() {
    let rows: Vec<Row> = (0..1024).rev().map(|i| ints(&[i % 64, i])).collect();
    let mut cost = Cost::new();
    let sorted = order_by(rows, &schema(&["n", "id"]), &vec![key("n", Order::Asc)], &mut cost).unwrap();
    for pair in sorted.windows(2) {
        let (Value::Int(a), Value::Int(b)) = (&pair[0].items[0], &pair[1].items[0]) else {
            panic!("the rows hold integers")
        };
        assert!(a <= b);
        if a == b {
            // Rows with the same key keep the order in which they came.
            let (Value::Int(x), Value::Int(y)) = (&pair[0].items[1], &pair[1].items[1]) else {
                panic!("the rows hold integers")
            };
            assert!(x > y);
        }
    }
    assert_eq!(sorted.len(), 1024);
    assert!(cost.rows_processed <= 1024 * 10);
}
