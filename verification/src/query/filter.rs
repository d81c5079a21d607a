//! The expression evaluator, which filters and projections share.

use vstd::prelude::*;
use crate::query::{integer_expected, not_an_integer, QueryError, QueryErrorView};
use crate::types::{
    rows_view, value_at, AggregateFunctionName, Expr, ExprView, FunctionName, Op, Row, Schema,
    SchemaColumnView,
};
use crate::value::{Value, ValueView};

verus! {

/// A value of the wrong kind, met by an operator or by a predicate.
#[derive(Debug, PartialEq)]
pub enum FilterError {
    ExpectedInt { value: Value },
    ExpectedBooleanType { value: Value },
}

/// The mathematical value of a [`FilterError`].
pub ghost enum FilterErrorView {
    ExpectedInt { value: ValueView },
    ExpectedBooleanType { value: ValueView },
}

impl View for FilterError {
    type V = FilterErrorView;

    open spec fn view(&self) -> FilterErrorView {
        match self {
            FilterError::ExpectedInt { value } => FilterErrorView::ExpectedInt { value: value@ },
            FilterError::ExpectedBooleanType { value } => FilterErrorView::ExpectedBooleanType {
                value: value@,
            },
        }
    }
}

/// Whether `n` is a 64-bit integer.
pub open spec fn fits_i64(n: int) -> bool {
    i64::MIN <= n <= i64::MAX
}

/// The result of a comparison or of an arithmetic operator on two integers.
pub open spec fn integer_op_spec(left: int, op: Op, right: int) -> Result<ValueView, QueryErrorView> {
    match op {
        Op::Equals => Ok(ValueView::Bool(left == right)),
        Op::GreaterThan => Ok(ValueView::Bool(left > right)),
        Op::GreaterThanOrEqual => Ok(ValueView::Bool(left >= right)),
        Op::LessThan => Ok(ValueView::Bool(left < right)),
        Op::LessThanOrEqual => Ok(ValueView::Bool(left <= right)),
        Op::Add => if fits_i64(left + right) {
            Ok(ValueView::Int(left + right))
        } else {
            Err(not_an_integer())
        },
        Op::Subtract => if fits_i64(left - right) {
            Ok(ValueView::Int(left - right))
        } else {
            Err(not_an_integer())
        },
    }
}

/// The result of a binary operator: `=` is equality of values, every other
/// operator works on two integers and names the first operand that is none.
pub open spec fn match_op_spec(left: ValueView, op: Op, right: ValueView) -> Result<
    ValueView,
    QueryErrorView,
> {
    if op == Op::Equals {
        Ok(ValueView::Bool(left == right))
    } else {
        match (left, right) {
            (ValueView::Int(l), ValueView::Int(r)) => integer_op_spec(l, op, r),
            (ValueView::Int(_), _) => Err(
                QueryErrorView::FilterError(FilterErrorView::ExpectedInt { value: right }),
            ),
            _ => Err(QueryErrorView::FilterError(FilterErrorView::ExpectedInt { value: left })),
        }
    }
}

/// The value of an expression for one row. With `all_rows` an aggregate
/// call ranges over those rows; without, an aggregate call is an error.
pub open spec fn evaluate_spec(
    row: Seq<ValueView>,
    all_rows: Option<Seq<Seq<ValueView>>>,
    schema: Seq<SchemaColumnView>,
    e: ExprView,
) -> Result<ValueView, QueryErrorView>
    decreases e, 0nat,
{
    match e {
        ExprView::Literal { literal } => Ok(literal),
        ExprView::Column { column } => match value_at(row, schema, SchemaColumnView::Column(column)) {
            Some(v) => Ok(v),
            None => Err(QueryErrorView::ColumnNotFoundInSchema { column_name: column }),
        },
        ExprView::Nested { expr } => evaluate_spec(row, all_rows, schema, *expr),
        ExprView::BinaryOperation { left, op, right } => match evaluate_spec(
            row,
            all_rows,
            schema,
            *left,
        ) {
            Err(e) => Err(e),
            Ok(l) => match evaluate_spec(row, all_rows, schema, *right) {
                Err(e) => Err(e),
                Ok(r) => match_op_spec(l, op, r),
            },
        },
        ExprView::FunctionCall { function_name, args } => match all_rows {
            None => Err(QueryErrorView::CannotUseAggregateFunctionInFilter),
            Some(rows) => if args.len() == 0 {
                Err(QueryErrorView::ArgumentNotFound)
            } else {
                match sum_spec(rows, schema, args[0], rows.len()) {
                    Ok(total) => Ok(ValueView::Int(total)),
                    Err(e) => Err(e),
                }
            },
        },
    }
}

/// The sum of `arg` over the first `n` rows, each row evaluated by itself.
/// A value that is no integer, or a sum that leaves the 64-bit range, is a
/// type mismatch; the first row that fails decides.
pub open spec fn sum_spec(
    rows: Seq<Seq<ValueView>>,
    schema: Seq<SchemaColumnView>,
    arg: ExprView,
    n: nat,
) -> Result<int, QueryErrorView>
    decreases arg, n + 1,
{
    if n == 0 {
        Ok(0)
    } else {
        match sum_spec(rows, schema, arg, (n - 1) as nat) {
            Err(e) => Err(e),
            Ok(total) => match evaluate_spec(rows[n - 1], None, schema, arg) {
                Err(e) => Err(e),
                Ok(ValueView::Int(v)) => if fits_i64(total + v) {
                    Ok(total + v)
                } else {
                    Err(not_an_integer())
                },
                Ok(_) => Err(not_an_integer()),
            },
        }
    }
}

/// The outcome of a predicate for one row.
pub open spec fn apply_predicate_spec(
    row: Seq<ValueView>,
    schema: Seq<SchemaColumnView>,
    e: ExprView,
) -> Result<bool, QueryErrorView> {
    match evaluate_spec(row, None, schema, e) {
        Ok(ValueView::Bool(b)) => Ok(b),
        Ok(other) => Err(
            QueryErrorView::FilterError(FilterErrorView::ExpectedBooleanType { value: other }),
        ),
        Err(e) => Err(e),
    }
}

/// Once a row has failed, the sum over more rows fails in the same way.
pub proof fn lemma_sum_error_stays(
    rows: Seq<Seq<ValueView>>,
    schema: Seq<SchemaColumnView>,
    arg: ExprView,
    failed: nat,
    n: nat,
)
    requires
        sum_spec(rows, schema, arg, failed) is Err,
        failed <= n,
    ensures
        sum_spec(rows, schema, arg, n) == sum_spec(rows, schema, arg, failed),
    decreases n,
{
    if failed < n {
        lemma_sum_error_stays(rows, schema, arg, failed, (n - 1) as nat);
    }
}

/// The view of the rows that an aggregate ranges over, if there are any.
pub open spec fn all_rows_view(all_rows: Option<&Vec<Row>>) -> Option<Seq<Seq<ValueView>>> {
    match all_rows {
        Some(rows) => Some(rows_view(rows@)),
        None => None,
    }
}

/// Whether `r` is the exec form of the outcome `expected`.
pub open spec fn is_value_result(r: Result<Value, QueryError>, expected: Result<ValueView, QueryErrorView>) -> bool {
    match r {
        Ok(v) => expected == Ok::<ValueView, QueryErrorView>(v@),
        Err(e) => expected == Err::<ValueView, QueryErrorView>(e@),
    }
}

fn as_int(value: &Value) -> (r: Result<i64, QueryError>)
    ensures
        match r {
            Ok(i) => value@ == ValueView::Int(i as int),
            Err(e) => !(value@ is Int) && e@ == QueryErrorView::FilterError(
                FilterErrorView::ExpectedInt { value: value@ },
            ),
        },
{
    match value {
        Value::Int(i) => Ok(*i),
        _ => Err(QueryError::FilterError(FilterError::ExpectedInt { value: value.clone() })),
    }
}

/// Applies a binary operator to two values.
pub fn match_op(value: &Value, op: &Op, literal: &Value) -> (r: Result<Value, QueryError>)
    ensures
        is_value_result(r, match_op_spec(value@, *op, literal@)),
{
    match op {
        Op::Equals => Ok(Value::Bool(value.equals(literal))),
        _ => {
            let left = match as_int(value) {
                Ok(left) => left,
                Err(e) => {
                    return Err(e);
                },
            };
            let right = match as_int(literal) {
                Ok(right) => right,
                Err(e) => {
                    return Err(e);
                },
            };
            match op {
                Op::Equals => Ok(Value::Bool(left == right)),
                Op::GreaterThan => Ok(Value::Bool(left > right)),
                Op::GreaterThanOrEqual => Ok(Value::Bool(left >= right)),
                Op::LessThan => Ok(Value::Bool(left < right)),
                Op::LessThanOrEqual => Ok(Value::Bool(left <= right)),
                Op::Add => match left.checked_add(right) {
                    Some(total) => Ok(Value::Int(total)),
                    None => Err(integer_expected()),
                },
                Op::Subtract => match left.checked_sub(right) {
                    Some(difference) => Ok(Value::Int(difference)),
                    None => Err(integer_expected()),
                },
            }
        },
    }
}

fn evaluate_function_call(
    function_name: &FunctionName,
    args: &Vec<Expr>,
    all_rows: &Vec<Row>,
    schema: &Schema,
) -> (r: Result<Value, QueryError>)
    ensures
        is_value_result(
            r,
            if args@.len() == 0 {
                Err(QueryErrorView::ArgumentNotFound)
            } else {
                match sum_spec(rows_view(all_rows@), schema@, args@[0]@, all_rows@.len()) {
                    Ok(total) => Ok(ValueView::Int(total)),
                    Err(e) => Err(e),
                }
            },
        ),
    decreases args, 0nat,
{
    match function_name {
        FunctionName::Aggregate(AggregateFunctionName::Sum) => {
            if args.len() == 0 {
                return Err(QueryError::ArgumentNotFound);
            }
            let arg = &args[0];
            let ghost rows = rows_view(all_rows@);
            let mut total: i64 = 0;
            let mut i: usize = 0;
            while i < all_rows.len()
                invariant
                    i <= all_rows.len(),
                    rows == rows_view(all_rows@),
                    arg == &args[0],
                    args@.len() > 0,
                    sum_spec(rows, schema@, arg@, i as nat) == Ok::<int, QueryErrorView>(total as int),
                decreases all_rows.len() - i,
            {
                assert(rows[i as int] == all_rows@[i as int]@);
                let step = match evaluate(&all_rows[i], None, schema, arg) {
                    Ok(Value::Int(v)) => match total.checked_add(v) {
                        Some(next) => Ok(next),
                        None => Err(integer_expected()),
                    },
                    Ok(_) => Err(integer_expected()),
                    Err(e) => Err(e),
                };
                match step {
                    Ok(next) => {
                        total = next;
                    },
                    Err(e) => {
                        proof {
                            assert(sum_spec(rows, schema@, arg@, (i + 1) as nat) == Err::<
                                int,
                                QueryErrorView,
                            >(e@));
                            lemma_sum_error_stays(rows, schema@, arg@, (i + 1) as nat, rows.len());
                        }
                        return Err(e);
                    },
                }
                i += 1;
            }
            Ok(Value::Int(total))
        },
    }
}

/// Evaluates `expr` for `row`; an aggregate call ranges over `all_rows`
/// where they are given and is an error where they are not.
pub fn evaluate(row: &Row, all_rows: Option<&Vec<Row>>, schema: &Schema, expr: &Expr) -> (r: Result<
    Value,
    QueryError,
>)
    ensures
        is_value_result(r, evaluate_spec(row@, all_rows_view(all_rows), schema@, expr@)),
    decreases expr, 1nat,
{
    match expr {
        Expr::BinaryOperation { left, op, right } => {
            let left = match evaluate(row, all_rows, schema, left) {
                Ok(left) => left,
                Err(e) => {
                    return Err(e);
                },
            };
            let right = match evaluate(row, all_rows, schema, right) {
                Ok(right) => right,
                Err(e) => {
                    return Err(e);
                },
            };
            match_op(&left, op, &right)
        },
        Expr::Column { column } => match row.get_column(column, schema) {
            Some(value) => Ok(value.clone()),
            None => Err(QueryError::ColumnNotFoundInSchema { column_name: column.clone() }),
        },
        Expr::Literal { literal } => Ok(literal.clone()),
        Expr::Nested { expr } => evaluate(row, all_rows, schema, expr),
        Expr::FunctionCall { function_name, args } => match all_rows {
            None => Err(QueryError::CannotUseAggregateFunctionInFilter),
            Some(rows) => evaluate_function_call(function_name, args, rows, schema),
        },
    }
}

/// Evaluates `expr` for `row` alone.
pub fn evaluate_expr(row: &Row, schema: &Schema, expr: &Expr) -> (r: Result<Value, QueryError>)
    ensures
        is_value_result(r, evaluate_spec(row@, None, schema@, expr@)),
{
    evaluate(row, None, schema, expr)
}

/// Evaluates an aggregate expression over `all_rows`. No row is current,
/// so that a column outside an aggregate call is not found.
pub fn evaluate_aggregate_expr(all_rows: &Vec<Row>, schema: &Schema, expr: &Expr) -> (r: Result<
    Value,
    QueryError,
>)
    ensures
        is_value_result(
            r,
            evaluate_spec(Seq::empty(), Some(rows_view(all_rows@)), schema@, expr@),
        ),
{
    let no_row = Row { items: Vec::new() };
    assert(no_row@ =~= Seq::empty());
    evaluate(&no_row, Some(all_rows), schema, expr)
}

/// Whether `row` satisfies the predicate `where_expr`, which must come out
/// as a boolean.
pub fn apply_predicate(row: &Row, schema: &Schema, where_expr: &Expr) -> (r: Result<bool, QueryError>)
    ensures
        match r {
            Ok(b) => apply_predicate_spec(row@, schema@, where_expr@) == Ok::<bool, QueryErrorView>(b),
            Err(e) => apply_predicate_spec(row@, schema@, where_expr@) == Err::<bool, QueryErrorView>(
                e@,
            ),
        },
{
    match evaluate_expr(row, schema, where_expr) {
        Ok(Value::Bool(b)) => Ok(b),
        Ok(other) => Err(QueryError::FilterError(FilterError::ExpectedBooleanType { value: other })),
        Err(e) => Err(e),
    }
}

} // verus!
