use sqlengine::query::filter::{
    apply_predicate, evaluate, evaluate_aggregate_expr, evaluate_expr, match_op, FilterError,
};
use sqlengine::query::QueryError;
use sqlengine::types::{
    AggregateFunctionName, Column, Expr, FunctionName, Op, Row, Schema, SchemaColumn, TableAlias,
};
use sqlengine::value::Value;

fn text(s: &str) -> Value {
    Value::Str(s.to_string())
}

fn column(name: &str) -> Expr {
    Expr::Column {
        column: Column {
            name: name.to_string(),
            table_alias: None,
        },
    }
}

fn literal(value: Value) -> Expr {
    Expr::Literal { literal: value }
}

fn binary(left: Expr, op: Op, right: Expr) -> Expr {
    Expr::BinaryOperation {
        left: Box::new(left),
        op,
        right: Box::new(right),
    }
}

fn sum(args: Vec<Expr>) -> Expr {
    Expr::FunctionCall {
        function_name: FunctionName::Aggregate(AggregateFunctionName::Sum),
        args,
    }
}

fn schema() -> Schema {
    Schema {
        columns: vec![
            SchemaColumn::Column(Column {
                name: "id".to_string(),
                table_alias: None,
            }),
            SchemaColumn::Column(Column {
                name: "name".to_string(),
                table_alias: None,
            }),
            SchemaColumn::Column(Column {
                name: "id".to_string(),
                table_alias: Some(TableAlias("other".to_string())),
            }),
        ],
    }
}

fn row(id: i64, name: &str, other: i64) -> Row {
    Row {
        items: vec![Value::Int(id), text(name), Value::Int(other)],
    }
}

fn expected_int(value: Value) -> QueryError {
    QueryError::FilterError(FilterError::ExpectedInt { value })
}

fn mismatch() -> QueryError {
    QueryError::TypeMismatch {
        expected: "i64".to_string(),
    }
}

#[test]
fn equals_is_equality_of_values() {
    assert_eq!(
        match_op(&Value::Int(1), &Op::Equals, &Value::Int(1)),
        Ok(Value::Bool(true))
    );
    assert_eq!(
        match_op(&Value::Int(1), &Op::Equals, &text("1")),
        Ok(Value::Bool(false))
    );
    assert_eq!(
        match_op(&text("horse"), &Op::Equals, &text("horse")),
        Ok(Value::Bool(true))
    );
    assert_eq!(
        match_op(&Value::Null, &Op::Equals, &Value::Null),
        Ok(Value::Bool(true))
    );
    assert_eq!(
        match_op(&Value::Null, &Op::Equals, &Value::Int(0)),
        Ok(Value::Bool(false))
    );
}

#[test]
fn comparisons_work_on_integers() {
    let cases = [
        (Op::GreaterThan, 2, 1, true),
        (Op::GreaterThan, 1, 1, false),
        (Op::GreaterThanOrEqual, 1, 1, true),
        (Op::GreaterThanOrEqual, 0, 1, false),
        (Op::LessThan, 1, 2, true),
        (Op::LessThan, 2, 2, false),
        (Op::LessThanOrEqual, 2, 2, true),
        (Op::LessThanOrEqual, 3, 2, false),
    ];
    for (op, left, right, expected) in cases {
        assert_eq!(
            match_op(&Value::Int(left), &op, &Value::Int(right)),
            Ok(Value::Bool(expected))
        );
    }
}

#[test]
fn arithmetic_works_on_integers() {
    assert_eq!(
        match_op(&Value::Int(40), &Op::Add, &Value::Int(2)),
        Ok(Value::Int(42))
    );
    assert_eq!(
        match_op(&Value::Int(40), &Op::Subtract, &Value::Int(42)),
        Ok(Value::Int(-2))
    );
    assert_eq!(
        match_op(&Value::Int(i64::MAX - 1), &Op::Add, &Value::Int(1)),
        Ok(Value::Int(i64::MAX))
    );
    assert_eq!(
        match_op(&Value::Int(i64::MIN + 1), &Op::Subtract, &Value::Int(1)),
        Ok(Value::Int(i64::MIN))
    );
}

#[test]
fn arithmetic_out_of_range_is_a_type_mismatch() {
    assert_eq!(
        match_op(&Value::Int(i64::MAX), &Op::Add, &Value::Int(1)),
        Err(mismatch())
    );
    assert_eq!(
        match_op(&Value::Int(i64::MIN), &Op::Subtract, &Value::Int(1)),
        Err(mismatch())
    );
    assert_eq!(
        match_op(&Value::Int(0), &Op::Subtract, &Value::Int(i64::MIN)),
        Err(mismatch())
    );
}

#[test]
fn an_operand_that_is_no_integer_is_named() {
    assert_eq!(
        match_op(&text("a"), &Op::GreaterThan, &Value::Int(1)),
        Err(expected_int(text("a")))
    );
    assert_eq!(
        match_op(&Value::Int(1), &Op::GreaterThan, &text("b")),
        Err(expected_int(text("b")))
    );
    assert_eq!(
        match_op(&text("a"), &Op::Add, &text("b")),
        Err(expected_int(text("a")))
    );
    assert_eq!(
        match_op(&Value::Null, &Op::LessThan, &Value::Int(1)),
        Err(expected_int(Value::Null))
    );
    assert_eq!(
        match_op(
            &Value::Float(1.5f64.to_bits()),
            &Op::Subtract,
            &Value::Int(1)
        ),
        Err(expected_int(Value::Float(1.5f64.to_bits())))
    );
}

#[test]
fn a_literal_is_its_value() {
    assert_eq!(
        evaluate_expr(&row(1, "horse", 2), &schema(), &literal(text("x"))),
        Ok(text("x"))
    );
}

#[test]
fn a_column_is_looked_up_in_the_schema() {
    let r = row(1, "horse", 2);
    assert_eq!(evaluate_expr(&r, &schema(), &column("id")), Ok(Value::Int(1)));
    assert_eq!(evaluate_expr(&r, &schema(), &column("name")), Ok(text("horse")));
    let qualified = Expr::Column {
        column: Column {
            name: "id".to_string(),
            table_alias: Some(TableAlias("other".to_string())),
        },
    };
    assert_eq!(evaluate_expr(&r, &schema(), &qualified), Ok(Value::Int(2)));
}

#[test]
fn a_column_that_the_schema_lacks_is_an_error() {
    assert_eq!(
        evaluate_expr(&row(1, "horse", 2), &schema(), &column("age")),
        Err(QueryError::ColumnNotFoundInSchema {
            column_name: Column {
                name: "age".to_string(),
                table_alias: None,
            },
        })
    );
}

#[test]
fn nested_and_binary_expressions_are_evaluated() {
    // id = (other + 1 + 1) - 1
    let expr = binary(
        column("id"),
        Op::Equals,
        binary(
            Expr::Nested {
                expr: Box::new(binary(
                    binary(
                        Expr::Column {
                            column: Column {
                                name: "id".to_string(),
                                table_alias: Some(TableAlias("other".to_string())),
                            },
                        },
                        Op::Add,
                        literal(Value::Int(1)),
                    ),
                    Op::Add,
                    literal(Value::Int(1)),
                )),
            },
            Op::Subtract,
            literal(Value::Int(1)),
        ),
    );
    assert_eq!(
        evaluate_expr(&row(3, "a", 2), &schema(), &expr),
        Ok(Value::Bool(true))
    );
    assert_eq!(
        evaluate_expr(&row(3, "a", 3), &schema(), &expr),
        Ok(Value::Bool(false))
    );
}

#[test]
fn the_left_side_fails_first() {
    let expr = binary(column("missing"), Op::Add, column("gone"));
    assert_eq!(
        evaluate_expr(&row(1, "a", 2), &schema(), &expr),
        Err(QueryError::ColumnNotFoundInSchema {
            column_name: Column {
                name: "missing".to_string(),
                table_alias: None,
            },
        })
    );
}

#[test]
fn an_aggregate_without_rows_to_range_over_is_an_error() {
    assert_eq!(
        evaluate_expr(&row(1, "a", 2), &schema(), &sum(vec![column("id")])),
        Err(QueryError::CannotUseAggregateFunctionInFilter)
    );
    assert_eq!(
        apply_predicate(&row(1, "a", 2), &schema(), &sum(vec![column("id")])),
        Err(QueryError::CannotUseAggregateFunctionInFilter)
    );
}

#[test]
fn sum_adds_the_argument_over_all_rows() {
    let rows = vec![row(1, "a", 10), row(2, "b", 20), row(3, "c", 30)];
    assert_eq!(
        evaluate_aggregate_expr(&rows, &schema(), &sum(vec![column("id")])),
        Ok(Value::Int(6))
    );
    assert_eq!(
        evaluate_aggregate_expr(
            &rows,
            &schema(),
            &binary(sum(vec![column("id")]), Op::Add, literal(Value::Int(100)))
        ),
        Ok(Value::Int(106))
    );
    assert_eq!(
        evaluate_aggregate_expr(&vec![], &schema(), &sum(vec![column("id")])),
        Ok(Value::Int(0))
    );
    assert_eq!(
        evaluate(
            &row(9, "z", 9),
            Some(&rows),
            &schema(),
            &sum(vec![binary(column("id"), Op::Add, column("id"))])
        ),
        Ok(Value::Int(12))
    );
}

#[test]
fn sum_without_an_argument_is_an_error() {
    let rows = vec![row(1, "a", 10)];
    assert_eq!(
        evaluate_aggregate_expr(&rows, &schema(), &sum(vec![])),
        Err(QueryError::ArgumentNotFound)
    );
}

#[test]
fn sum_of_values_that_are_no_integers_is_a_type_mismatch() {
    let rows = vec![row(1, "a", 10), row(2, "b", 20)];
    assert_eq!(
        evaluate_aggregate_expr(&rows, &schema(), &sum(vec![column("name")])),
        Err(mismatch())
    );
}

#[test]
fn sum_out_of_range_is_a_type_mismatch() {
    let rows = vec![row(i64::MAX, "a", 10), row(1, "b", 20)];
    assert_eq!(
        evaluate_aggregate_expr(&rows, &schema(), &sum(vec![column("id")])),
        Err(mismatch())
    );
}

#[test]
fn sum_inside_sum_is_an_error() {
    let rows = vec![row(1, "a", 10)];
    assert_eq!(
        evaluate_aggregate_expr(&rows, &schema(), &sum(vec![sum(vec![column("id")])])),
        Err(QueryError::CannotUseAggregateFunctionInFilter)
    );
}

#[test]
fn a_column_beside_an_aggregate_has_no_row_to_read() {
    let rows = vec![row(1, "a", 10)];
    assert_eq!(
        evaluate_aggregate_expr(
            &rows,
            &schema(),
            &binary(sum(vec![column("id")]), Op::Add, column("id"))
        ),
        Err(QueryError::ColumnNotFoundInSchema {
            column_name: Column {
                name: "id".to_string(),
                table_alias: None,
            },
        })
    );
}

#[test]
fn a_predicate_must_be_a_boolean() {
    let r = row(1, "horse", 2);
    assert_eq!(
        apply_predicate(
            &r,
            &schema(),
            &binary(column("name"), Op::Equals, literal(text("horse")))
        ),
        Ok(true)
    );
    assert_eq!(
        apply_predicate(
            &r,
            &schema(),
            &binary(column("id"), Op::GreaterThan, literal(Value::Int(1)))
        ),
        Ok(false)
    );
    assert_eq!(
        apply_predicate(&r, &schema(), &column("id")),
        Err(QueryError::FilterError(FilterError::ExpectedBooleanType {
            value: Value::Int(1),
        }))
    );
    assert_eq!(
        apply_predicate(
            &r,
            &schema(),
            &binary(column("name"), Op::GreaterThan, literal(Value::Int(1)))
        ),
        Err(expected_int(text("horse")))
    );
}
