use sqlengine::types::{
    AggregateFunctionName, Column, Cost, FunctionName, Op, QueryStep, Row, Schema, SchemaColumn,
    TableAlias,
};
use sqlengine::value::Value;

fn column(name: &str, alias: Option<&str>) -> Column {
    Column {
        name: name.to_string(),
        table_alias: alias.map(|a| TableAlias(a.to_string())),
    }
}

fn sample_schema() -> Schema {
    Schema {
        columns: vec![
            SchemaColumn::Column(column("id", None)),
            SchemaColumn::Named("sum".to_string()),
            SchemaColumn::Column(column("id", Some("a"))),
            SchemaColumn::Column(column("id", None)),
            SchemaColumn::Named("sum".to_string()),
        ],
    }
}

#[test]
fn column_displays_with_its_alias() {
    assert_eq!(column("name", None).display(), "name");
    assert_eq!(column("name", Some("artist")).display(), "artist.name");
    assert_eq!(TableAlias("t".to_string()).display(), "t");
}

#[test]
fn column_from_a_name_has_no_alias() {
    assert_eq!(Column::from("ArtistId"), column("ArtistId", None));
}

#[test]
fn columns_are_equal_when_name_and_alias_match() {
    assert!(column("id", None).equals(&column("id", None)));
    assert!(column("id", Some("a")).equals(&column("id", Some("a"))));
    assert!(!column("id", Some("a")).equals(&column("id", None)));
    assert!(!column("id", None).equals(&column("id", Some("a"))));
    assert!(!column("id", Some("a")).equals(&column("id", Some("b"))));
    assert!(!column("id", None).equals(&column("Id", None)));
}

#[test]
fn schema_column_displays_its_key() {
    assert_eq!(SchemaColumn::Column(column("id", Some("a"))).display(), "a.id");
    assert_eq!(SchemaColumn::Column(column("id", None)).display(), "id");
    assert_eq!(SchemaColumn::Named("add".to_string()).display(), "add");
}

#[test]
fn the_same_schema_column_displays_the_same_twice() {
    let first = SchemaColumn::Column(column("Name", Some("artist")));
    let second = SchemaColumn::Column(column("Name", Some("artist")));
    assert_eq!(first.display(), second.display());
    assert_eq!(first.display().as_bytes(), second.display().as_bytes());
}

#[test]
fn operators_and_functions_display_their_names() {
    assert_eq!(Op::Equals.display(), "equals");
    assert_eq!(Op::GreaterThan.display(), "greater_than");
    assert_eq!(Op::GreaterThanOrEqual.display(), "greater_than_or_equal");
    assert_eq!(Op::LessThan.display(), "less_than");
    assert_eq!(Op::LessThanOrEqual.display(), "less_than_or_equal");
    assert_eq!(Op::Add.display(), "add");
    assert_eq!(Op::Subtract.display(), "subtract");
    assert_eq!(AggregateFunctionName::Sum.display(), "sum");
    assert_eq!(
        FunctionName::Aggregate(AggregateFunctionName::Sum).display(),
        "sum"
    );
}

#[test]
fn index_for_column_is_the_first_match() {
    let schema = sample_schema();
    assert_eq!(schema.get_index_for_column(&column("id", None)), Some(0));
    assert_eq!(schema.get_index_for_column(&column("id", Some("a"))), Some(2));
    assert_eq!(schema.get_index_for_column(&column("id", Some("b"))), None);
    assert_eq!(schema.get_index_for_column(&column("sum", None)), None);
}

#[test]
fn index_for_named_is_the_first_match() {
    let schema = sample_schema();
    assert_eq!(schema.get_index_for_named(&"sum".to_string()), Some(1));
    assert_eq!(schema.get_index_for_named(&"id".to_string()), None);
    let empty = Schema { columns: vec![] };
    assert_eq!(empty.get_index_for_named(&"sum".to_string()), None);
}

#[test]
fn schema_extend_appends() {
    let mut schema = Schema {
        columns: vec![SchemaColumn::Column(column("a", None))],
    };
    schema.extend(Schema {
        columns: vec![
            SchemaColumn::Named("b".to_string()),
            SchemaColumn::Column(column("c", None)),
        ],
    });
    assert_eq!(
        schema,
        Schema {
            columns: vec![
                SchemaColumn::Column(column("a", None)),
                SchemaColumn::Named("b".to_string()),
                SchemaColumn::Column(column("c", None)),
            ],
        }
    );
}

#[test]
fn schema_clone_keeps_the_columns() {
    let schema = sample_schema();
    assert_eq!(schema.clone(), schema);
}

#[test]
fn row_gets_the_value_under_a_column() {
    let schema = sample_schema();
    let row = Row {
        items: vec![
            Value::Int(1),
            Value::Int(2),
            Value::Int(3),
            Value::Int(4),
            Value::Int(5),
        ],
    };
    assert_eq!(
        row.get_column(&column("id", None), &schema),
        Some(&Value::Int(1))
    );
    assert_eq!(
        row.get_column(&column("id", Some("a")), &schema),
        Some(&Value::Int(3))
    );
    assert_eq!(row.get_column(&column("nope", None), &schema), None);
    assert_eq!(
        row.get_named(&"sum".to_string(), &schema),
        Some(&Value::Int(2))
    );
    assert_eq!(row.get_named(&"id".to_string(), &schema), None);
}

#[test]
fn a_row_that_is_too_short_has_no_value() {
    let schema = sample_schema();
    let row = Row {
        items: vec![Value::Int(1)],
    };
    assert_eq!(row.get_column(&column("id", Some("a")), &schema), None);
    assert_eq!(row.get_named(&"sum".to_string(), &schema), None);
}

#[test]
fn row_extend_appends() {
    let mut row = Row {
        items: vec![Value::Int(1)],
    };
    row.extend(Row {
        items: vec![Value::Null, Value::Str("x".to_string())],
    });
    assert_eq!(
        row,
        Row {
            items: vec![Value::Int(1), Value::Null, Value::Str("x".to_string())],
        }
    );
    assert_eq!(row.clone(), row);
}

#[test]
fn cost_counts_rows() {
    let mut cost = Cost::new();
    assert_eq!(cost.rows_processed, 0);
    cost.increment_rows_processed();
    cost.increment_rows_processed();
    assert_eq!(cost.rows_processed, 2);
    cost.add_rows(40);
    assert_eq!(cost.rows_processed, 42);
    cost.extend(&Cost { rows_processed: 8 });
    assert_eq!(cost.rows_processed, 50);
    assert_eq!(Cost::default().rows_processed, 0);
}

#[test]
fn cost_stops_at_the_largest_count() {
    let mut cost = Cost {
        rows_processed: u64::MAX - 1,
    };
    cost.increment_rows_processed();
    assert_eq!(cost.rows_processed, u64::MAX);
    cost.increment_rows_processed();
    assert_eq!(cost.rows_processed, u64::MAX);
    cost.extend(&Cost { rows_processed: 10 });
    assert_eq!(cost.rows_processed, u64::MAX);
    let mut other = Cost { rows_processed: 5 };
    other.extend(&Cost {
        rows_processed: u64::MAX,
    });
    assert_eq!(other.rows_processed, u64::MAX);
}

#[test]
fn rendered_rows_take_the_first_of_two_equal_columns() {
    let step = QueryStep {
        schema: Schema {
            columns: vec![
                SchemaColumn::Column(column("species_id", None)),
                SchemaColumn::Column(column("name", Some("s"))),
                SchemaColumn::Column(column("species_id", None)),
                SchemaColumn::Named("1".to_string()),
            ],
        },
        rows: vec![
            Row {
                items: vec![
                    Value::Int(3),
                    Value::Str("bird".to_string()),
                    Value::Null,
                    Value::Int(1),
                ],
            },
            Row {
                items: vec![
                    Value::Int(1),
                    Value::Str("mammal".to_string()),
                    Value::Int(7),
                    Value::Int(1),
                ],
            },
        ],
        cost: Cost::new(),
    };
    assert_eq!(
        step.to_json(),
        vec![
            vec![
                ("species_id".to_string(), Value::Int(3)),
                ("s.name".to_string(), Value::Str("bird".to_string())),
                ("species_id".to_string(), Value::Int(3)),
                ("1".to_string(), Value::Int(1)),
            ],
            vec![
                ("species_id".to_string(), Value::Int(1)),
                ("s.name".to_string(), Value::Str("mammal".to_string())),
                ("species_id".to_string(), Value::Int(1)),
                ("1".to_string(), Value::Int(1)),
            ],
        ]
    );
}
