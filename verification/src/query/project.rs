//! The projection: the schema that a list of fields gives, and the rows,
//! with aggregate fields computed once over all rows.

use vstd::prelude::*;
use vstd::string::StringExecFns;
use crate::query::filter::{evaluate_aggregate_expr, evaluate_expr, evaluate_spec};
use crate::query::{QueryError, QueryErrorView};
use crate::types::{
    exprs_view, first_index_of, function_text, op_text, rows_view, saturate, Cost, Expr, ExprView,
    FunctionName, Row, Schema, SchemaColumn, SchemaColumnView,
};
use crate::value::{Value, ValueView};

verus! {

/// The text that serde_json prints for a string: the string in double
/// quotes, with the escapes of JSON.
pub uninterp spec fn json_quoted(text: Seq<char>) -> Seq<char>;

/// The hexadecimal digit for `d`, which lies below 16.
pub open spec fn hex_digit(d: int) -> char {
    if d == 0 {
        '0'
    } else if d == 1 {
        '1'
    } else if d == 2 {
        '2'
    } else if d == 3 {
        '3'
    } else if d == 4 {
        '4'
    } else if d == 5 {
        '5'
    } else if d == 6 {
        '6'
    } else if d == 7 {
        '7'
    } else if d == 8 {
        '8'
    } else if d == 9 {
        '9'
    } else if d == 10 {
        'a'
    } else if d == 11 {
        'b'
    } else if d == 12 {
        'c'
    } else if d == 13 {
        'd'
    } else if d == 14 {
        'e'
    } else {
        'f'
    }
}

/// The lowest `digits` hexadecimal digits of `n`, the highest first.
pub open spec fn hex_text(n: int, digits: nat) -> Seq<char>
    decreases digits,
{
    if digits == 0 {
        Seq::empty()
    } else {
        hex_text(n / 16, (digits - 1) as nat).push(hex_digit(n % 16))
    }
}

/// The decimal digits of `n`, the highest first.
pub open spec fn decimal_digits(n: nat) -> Seq<char>
    decreases n,
{
    if n < 10 {
        seq![hex_digit(n as int)]
    } else {
        decimal_digits(n / 10).push(hex_digit((n % 10) as int))
    }
}

/// An integer in decimal, with `-` before a negative one.
pub open spec fn integer_text(i: int) -> Seq<char> {
    if i < 0 {
        seq!['-'] + decimal_digits((-i) as nat)
    } else {
        decimal_digits(i as nat)
    }
}

/// The label of a literal, which is its JSON text: `null`, `true` or
/// `false`, an integer in decimal, a string in quotes. A float, which is
/// held as its bit pattern, is labelled `0x` and the sixteen hexadecimal
/// digits of the pattern.
pub open spec fn literal_text(value: ValueView) -> Seq<char> {
    match value {
        ValueView::Null => "null"@,
        ValueView::Bool(b) => if b {
            "true"@
        } else {
            "false"@
        },
        ValueView::Int(i) => integer_text(i),
        ValueView::Float(bits) => seq!['0', 'x'] + hex_text(bits as int, 16),
        ValueView::Str(s) => json_quoted(s),
    }
}

/// The schema column that a projected field gives: the column itself for a
/// column that the schema has, a label for anything else; brackets are
/// looked through.
pub open spec fn projected_column(schema: Seq<SchemaColumnView>, e: ExprView) -> Result<
    SchemaColumnView,
    QueryErrorView,
>
    decreases e,
{
    match e {
        ExprView::Column { column } => match first_index_of(schema, SchemaColumnView::Column(column)) {
            Some(_) => Ok(SchemaColumnView::Column(column)),
            None => Err(QueryErrorView::ColumnNotFoundInSchema { column_name: column }),
        },
        ExprView::Literal { literal } => Ok(SchemaColumnView::Named(literal_text(literal))),
        ExprView::BinaryOperation { op, .. } => Ok(SchemaColumnView::Named(op_text(op))),
        ExprView::Nested { expr } => projected_column(schema, *expr),
        ExprView::FunctionCall { function_name, .. } => Ok(
            SchemaColumnView::Named(function_text(function_name)),
        ),
    }
}

/// The schema of the first `n` fields; the first field that fails decides.
pub open spec fn project_schema_spec(schema: Seq<SchemaColumnView>, fields: Seq<ExprView>, n: nat) -> Result<
    Seq<SchemaColumnView>,
    QueryErrorView,
>
    decreases n,
{
    if n == 0 {
        Ok(Seq::empty())
    } else {
        match project_schema_spec(schema, fields, (n - 1) as nat) {
            Err(e) => Err(e),
            Ok(columns) => match projected_column(schema, fields[n - 1]) {
                Err(e) => Err(e),
                Ok(column) => Ok(columns.push(column)),
            },
        }
    }
}

/// Whether an expression holds a call of an aggregate function, at any
/// depth.
pub open spec fn is_aggregate_spec(e: ExprView) -> bool
    decreases e,
{
    match e {
        ExprView::Column { .. } => false,
        ExprView::Literal { .. } => false,
        ExprView::BinaryOperation { left, right, .. } => is_aggregate_spec(*left) || is_aggregate_spec(
            *right,
        ),
        ExprView::Nested { expr } => is_aggregate_spec(*expr),
        ExprView::FunctionCall { function_name, args } => function_name is Aggregate || exists|
            i: int,
        |
            0 <= i < args.len() && is_aggregate_spec(args[i]),
    }
}

/// Whether every field is an aggregate.
pub open spec fn all_aggregate(fields: Seq<ExprView>) -> bool {
    forall|i: int| 0 <= i < fields.len() ==> is_aggregate_spec(#[trigger] fields[i])
}

/// Whether some field is an aggregate.
pub open spec fn any_aggregate(fields: Seq<ExprView>) -> bool {
    exists|i: int| 0 <= i < fields.len() && is_aggregate_spec(#[trigger] fields[i])
}

/// For each of the first `n` fields the value of the aggregate over all
/// rows, or `None` for a field that is no aggregate; the first aggregate
/// that fails decides.
pub open spec fn aggregate_values_spec(
    rows: Seq<Seq<ValueView>>,
    schema: Seq<SchemaColumnView>,
    fields: Seq<ExprView>,
    n: nat,
) -> Result<Seq<Option<ValueView>>, QueryErrorView>
    decreases n,
{
    if n == 0 {
        Ok(Seq::empty())
    } else {
        match aggregate_values_spec(rows, schema, fields, (n - 1) as nat) {
            Err(e) => Err(e),
            Ok(values) => if is_aggregate_spec(fields[n - 1]) {
                match evaluate_spec(Seq::empty(), Some(rows), schema, fields[n - 1]) {
                    Err(e) => Err(e),
                    Ok(v) => Ok(values.push(Some(v))),
                }
            } else {
                Ok(values.push(None))
            },
        }
    }
}

/// The stored aggregate of field `i`, if there is one.
pub open spec fn stored_aggregate(aggregates: Seq<Option<ValueView>>, i: int) -> Option<ValueView> {
    if 0 <= i < aggregates.len() {
        aggregates[i]
    } else {
        None
    }
}

/// The first `n` values of the projection of one row: the stored aggregate
/// where there is one, else the field evaluated for the row.
pub open spec fn project_field_row_spec(
    row: Seq<ValueView>,
    schema: Seq<SchemaColumnView>,
    fields: Seq<ExprView>,
    aggregates: Seq<Option<ValueView>>,
    n: nat,
) -> Result<Seq<ValueView>, QueryErrorView>
    decreases n,
{
    if n == 0 {
        Ok(Seq::empty())
    } else {
        match project_field_row_spec(row, schema, fields, aggregates, (n - 1) as nat) {
            Err(e) => Err(e),
            Ok(items) => match stored_aggregate(aggregates, n - 1) {
                Some(v) => Ok(items.push(v)),
                None => match evaluate_spec(row, None, schema, fields[n - 1]) {
                    Err(e) => Err(e),
                    Ok(v) => Ok(items.push(v)),
                },
            },
        }
    }
}

/// The projections of the first `n` rows; the first row that fails decides.
pub open spec fn project_rows_spec(
    rows: Seq<Seq<ValueView>>,
    schema: Seq<SchemaColumnView>,
    fields: Seq<ExprView>,
    aggregates: Seq<Option<ValueView>>,
    n: nat,
) -> Result<Seq<Seq<ValueView>>, QueryErrorView>
    decreases n,
{
    if n == 0 {
        Ok(Seq::empty())
    } else {
        match project_rows_spec(rows, schema, fields, aggregates, (n - 1) as nat) {
            Err(e) => Err(e),
            Ok(projected) => match project_field_row_spec(
                rows[n - 1],
                schema,
                fields,
                aggregates,
                fields.len(),
            ) {
                Err(e) => Err(e),
                Ok(items) => Ok(projected.push(items)),
            },
        }
    }
}

/// The rows of a projection. The aggregates are computed first. Where every
/// field is an aggregate, the result is the one row of their values; else
/// it has one row for each row of the input.
pub open spec fn project_fields_spec(
    rows: Seq<Seq<ValueView>>,
    schema: Seq<SchemaColumnView>,
    fields: Seq<ExprView>,
) -> Result<Seq<Seq<ValueView>>, QueryErrorView> {
    match aggregate_values_spec(rows, schema, fields, fields.len()) {
        Err(e) => Err(e),
        Ok(aggregates) => if all_aggregate(fields) {
            Ok(seq![Seq::new(fields.len(), |i: int| aggregates[i]->0)])
        } else {
            project_rows_spec(rows, schema, fields, aggregates, rows.len())
        },
    }
}

/// The rows that a projection of `n` rows touches: each row once where
/// some field is an aggregate, and once more where some field is none.
pub open spec fn project_cost(n: nat, fields: Seq<ExprView>) -> int {
    (if any_aggregate(fields) {
        n as int
    } else {
        0
    }) + (if all_aggregate(fields) {
        0
    } else {
        n as int
    })
}

/// The aggregates of the first `n` fields are `n` many, with a value
/// exactly at the aggregate fields.
pub proof fn lemma_aggregate_values(
    rows: Seq<Seq<ValueView>>,
    schema: Seq<SchemaColumnView>,
    fields: Seq<ExprView>,
    n: nat,
)
    requires
        n <= fields.len(),
        aggregate_values_spec(rows, schema, fields, n) is Ok,
    ensures
        aggregate_values_spec(rows, schema, fields, n)->Ok_0.len() == n,
        forall|i: int|
            0 <= i < n ==> ((#[trigger] aggregate_values_spec(rows, schema, fields, n)->Ok_0[i])
                is Some <==> is_aggregate_spec(fields[i])),
    decreases n,
{
    if n > 0 {
        lemma_aggregate_values(rows, schema, fields, (n - 1) as nat);
    }
}

/// Once a field has failed, the aggregates of more fields fail in the same
/// way.
pub proof fn lemma_aggregate_error_stays(
    rows: Seq<Seq<ValueView>>,
    schema: Seq<SchemaColumnView>,
    fields: Seq<ExprView>,
    failed: nat,
    n: nat,
)
    requires
        aggregate_values_spec(rows, schema, fields, failed) is Err,
        failed <= n,
    ensures
        aggregate_values_spec(rows, schema, fields, n) == aggregate_values_spec(
            rows,
            schema,
            fields,
            failed,
        ),
    decreases n,
{
    if failed < n {
        lemma_aggregate_error_stays(rows, schema, fields, failed, (n - 1) as nat);
    }
}

/// A projected row has one value for each field.
pub proof fn lemma_project_field_row_len(
    row: Seq<ValueView>,
    schema: Seq<SchemaColumnView>,
    fields: Seq<ExprView>,
    aggregates: Seq<Option<ValueView>>,
    n: nat,
)
    requires
        project_field_row_spec(row, schema, fields, aggregates, n) is Ok,
    ensures
        project_field_row_spec(row, schema, fields, aggregates, n)->Ok_0.len() == n,
    decreases n,
{
    if n > 0 {
        lemma_project_field_row_len(row, schema, fields, aggregates, (n - 1) as nat);
    }
}

/// Once a field has failed, the projection of the row with more fields
/// fails in the same way.
pub proof fn lemma_project_field_row_error_stays(
    row: Seq<ValueView>,
    schema: Seq<SchemaColumnView>,
    fields: Seq<ExprView>,
    aggregates: Seq<Option<ValueView>>,
    failed: nat,
    n: nat,
)
    requires
        project_field_row_spec(row, schema, fields, aggregates, failed) is Err,
        failed <= n,
    ensures
        project_field_row_spec(row, schema, fields, aggregates, n) == project_field_row_spec(
            row,
            schema,
            fields,
            aggregates,
            failed,
        ),
    decreases n,
{
    if failed < n {
        lemma_project_field_row_error_stays(row, schema, fields, aggregates, failed, (n - 1) as nat);
    }
}

/// The projection of `n` rows has `n` rows, each with one value for each
/// field.
pub proof fn lemma_project_rows_shape(
    rows: Seq<Seq<ValueView>>,
    schema: Seq<SchemaColumnView>,
    fields: Seq<ExprView>,
    aggregates: Seq<Option<ValueView>>,
    n: nat,
)
    requires
        project_rows_spec(rows, schema, fields, aggregates, n) is Ok,
    ensures
        project_rows_spec(rows, schema, fields, aggregates, n)->Ok_0.len() == n,
        forall|k: int|
            0 <= k < n ==> (#[trigger] project_rows_spec(rows, schema, fields, aggregates, n)->Ok_0[k]).len()
                == fields.len(),
    decreases n,
{
    if n > 0 {
        lemma_project_rows_shape(rows, schema, fields, aggregates, (n - 1) as nat);
        lemma_project_field_row_len(rows[n - 1], schema, fields, aggregates, fields.len());
    }
}

/// Once a row has failed, the projection of more rows fails in the same
/// way.
pub proof fn lemma_project_rows_error_stays(
    rows: Seq<Seq<ValueView>>,
    schema: Seq<SchemaColumnView>,
    fields: Seq<ExprView>,
    aggregates: Seq<Option<ValueView>>,
    failed: nat,
    n: nat,
)
    requires
        project_rows_spec(rows, schema, fields, aggregates, failed) is Err,
        failed <= n,
    ensures
        project_rows_spec(rows, schema, fields, aggregates, n) == project_rows_spec(
            rows,
            schema,
            fields,
            aggregates,
            failed,
        ),
    decreases n,
{
    if failed < n {
        lemma_project_rows_error_stays(rows, schema, fields, aggregates, failed, (n - 1) as nat);
    }
}

/// A projected schema has one column for each field.
pub proof fn lemma_project_schema_len(schema: Seq<SchemaColumnView>, fields: Seq<ExprView>, n: nat)
    requires
        project_schema_spec(schema, fields, n) is Ok,
    ensures
        project_schema_spec(schema, fields, n)->Ok_0.len() == n,
    decreases n,
{
    if n > 0 {
        lemma_project_schema_len(schema, fields, (n - 1) as nat);
    }
}

/// Once a field has failed, the schema of more fields fails in the same
/// way.
pub proof fn lemma_project_schema_error_stays(
    schema: Seq<SchemaColumnView>,
    fields: Seq<ExprView>,
    failed: nat,
    n: nat,
)
    requires
        project_schema_spec(schema, fields, failed) is Err,
        failed <= n,
    ensures
        project_schema_spec(schema, fields, n) == project_schema_spec(schema, fields, failed),
    decreases n,
{
    if failed < n {
        lemma_project_schema_error_stays(schema, fields, failed, (n - 1) as nat);
    }
}

/// serde_json's `Display` of the `serde_json::Value` made from a string,
/// which prints the string as JSON.
#[verifier::external_body]
fn quoted_text(text: &str) -> (r: String)
    ensures
        r@ == json_quoted(text@),
{
    serde_json::Value::from(text).to_string()
}

fn hex_digit_text(d: u64) -> (r: &'static str)
    requires
        d < 16,
    ensures
        r@ == seq![hex_digit(d as int)],
{
    proof {
        reveal_strlit("0");
        reveal_strlit("1");
        reveal_strlit("2");
        reveal_strlit("3");
        reveal_strlit("4");
        reveal_strlit("5");
        reveal_strlit("6");
        reveal_strlit("7");
        reveal_strlit("8");
        reveal_strlit("9");
        reveal_strlit("a");
        reveal_strlit("b");
        reveal_strlit("c");
        reveal_strlit("d");
        reveal_strlit("e");
        reveal_strlit("f");
    }
    let text = if d == 0 {
        "0"
    } else if d == 1 {
        "1"
    } else if d == 2 {
        "2"
    } else if d == 3 {
        "3"
    } else if d == 4 {
        "4"
    } else if d == 5 {
        "5"
    } else if d == 6 {
        "6"
    } else if d == 7 {
        "7"
    } else if d == 8 {
        "8"
    } else if d == 9 {
        "9"
    } else if d == 10 {
        "a"
    } else if d == 11 {
        "b"
    } else if d == 12 {
        "c"
    } else if d == 13 {
        "d"
    } else if d == 14 {
        "e"
    } else {
        "f"
    };
    assert(text@ =~= seq![hex_digit(d as int)]);
    text
}

fn append_hex(text: &mut String, n: u64, digits: u8)
    ensures
        final(text)@ == old(text)@ + hex_text(n as int, digits as nat),
    decreases digits,
{
    if digits == 0 {
        assert(text@ =~= text@ + hex_text(n as int, 0));
    } else {
        let ghost before = text@;
        append_hex(text, n / 16, digits - 1);
        text.append(hex_digit_text(n % 16));
        assert(text@ =~= before + hex_text(n as int, digits as nat));
    }
}

fn decimal_text(n: u64) -> (r: String)
    ensures
        r@ == decimal_digits(n as nat),
    decreases n,
{
    if n < 10 {
        hex_digit_text(n).to_owned()
    } else {
        let mut text = decimal_text(n / 10);
        text.append(hex_digit_text(n % 10));
        text
    }
}

/// The label of a literal.
pub fn literal_label(value: &Value) -> (r: String)
    ensures
        r@ == literal_text(value@),
{
    match value {
        Value::Null => "null".to_owned(),
        Value::Bool(b) => if *b {
            "true".to_owned()
        } else {
            "false".to_owned()
        },
        Value::Int(i) => {
            if *i < 0 {
                proof {
                    reveal_strlit("-");
                }
                let mut text = "-".to_owned();
                text.append(decimal_text((-(*i + 1)) as u64 + 1).as_str());
                assert(text@ =~= integer_text(*i as int));
                text
            } else {
                decimal_text(*i as u64)
            }
        },
        Value::Float(bits) => {
            proof {
                reveal_strlit("0x");
            }
            let mut text = "0x".to_owned();
            assert(text@ =~= seq!['0', 'x']);
            append_hex(&mut text, *bits, 16);
            text
        },
        Value::Str(s) => quoted_text(s.as_str()),
    }
}

/// Whether `r` is the exec form of the outcome `expected`.
pub open spec fn is_column_result(r: Result<SchemaColumn, QueryError>, expected: Result<SchemaColumnView, QueryErrorView>) -> bool {
    match r {
        Ok(column) => expected == Ok::<SchemaColumnView, QueryErrorView>(column@),
        Err(e) => expected == Err::<SchemaColumnView, QueryErrorView>(e@),
    }
}

/// The schema column that the projected field `field` gives.
pub fn index_for_expr(field: &Expr, schema: &Schema) -> (r: Result<SchemaColumn, QueryError>)
    ensures
        is_column_result(r, projected_column(schema@, field@)),
    decreases field,
{
    match field {
        Expr::Column { column } => match schema.get_index_for_column(column) {
            Some(index) => {
                assert(schema@[index as int] == schema.columns@[index as int]@);
                proof {
                    crate::types::lemma_find_from(schema@, SchemaColumnView::Column(column@), 0);
                }
                Ok(schema.columns[index].clone())
            },
            None => Err(QueryError::ColumnNotFoundInSchema { column_name: column.clone() }),
        },
        Expr::Literal { literal } => Ok(SchemaColumn::Named(literal_label(literal))),
        Expr::BinaryOperation { op, .. } => Ok(SchemaColumn::Named(op.display())),
        Expr::Nested { expr } => index_for_expr(expr, schema),
        Expr::FunctionCall { function_name, .. } => Ok(SchemaColumn::Named(function_name.display())),
    }
}

/// The schema of a projection: one column for each field, in order.
pub fn project_schema(schema: &Schema, fields: &Vec<Expr>) -> (r: Result<Schema, QueryError>)
    ensures
        match r {
            Ok(projected) => project_schema_spec(schema@, exprs_view(fields@), fields@.len()) == Ok::<
                Seq<SchemaColumnView>,
                QueryErrorView,
            >(projected@) && projected@.len() == fields@.len(),
            Err(e) => project_schema_spec(schema@, exprs_view(fields@), fields@.len()) == Err::<
                Seq<SchemaColumnView>,
                QueryErrorView,
            >(e@),
        },
{
    let ghost field_views = exprs_view(fields@);
    let mut columns: Vec<SchemaColumn> = Vec::new();
    let mut i: usize = 0;
    while i < fields.len()
        invariant
            i <= fields.len(),
            field_views == exprs_view(fields@),
            columns@.len() == i,
            project_schema_spec(schema@, field_views, i as nat) is Ok,
            project_schema_spec(schema@, field_views, i as nat)->Ok_0.len() == i,
            forall|k: int|
                0 <= k < i ==> columns@[k]@ == project_schema_spec(
                    schema@,
                    field_views,
                    i as nat,
                )->Ok_0[k],
        decreases fields.len() - i,
    {
        assert(field_views[i as int] == fields@[i as int]@);
        match index_for_expr(&fields[i], schema) {
            Ok(column) => {
                columns.push(column);
            },
            Err(e) => {
                proof {
                    lemma_project_schema_error_stays(
                        schema@,
                        field_views,
                        (i + 1) as nat,
                        fields@.len(),
                    );
                }
                return Err(e);
            },
        }
        i += 1;
    }
    let projected = Schema { columns };
    assert(projected@ =~= project_schema_spec(schema@, field_views, fields@.len())->Ok_0);
    Ok(projected)
}

/// Whether `expr` holds a call of an aggregate function.
pub fn is_aggregate_expr(expr: &Expr) -> (r: bool)
    ensures
        r == is_aggregate_spec(expr@),
    decreases expr,
{
    match expr {
        Expr::Column { .. } => false,
        Expr::Literal { .. } => false,
        Expr::BinaryOperation { left, right, .. } => is_aggregate_expr(left) || is_aggregate_expr(right),
        Expr::Nested { expr } => is_aggregate_expr(expr),
        Expr::FunctionCall { function_name, .. } => match function_name {
            FunctionName::Aggregate(_) => true,
        },
    }
}

/// The view of a stored aggregate.
pub open spec fn option_value_view(value: Option<Value>) -> Option<ValueView> {
    match value {
        Some(v) => Some(v@),
        None => None,
    }
}

/// The views of the stored aggregates.
pub open spec fn aggregates_view(aggregates: Seq<Option<Value>>) -> Seq<Option<ValueView>> {
    Seq::new(aggregates.len(), |i: int| option_value_view(aggregates[i]))
}

/// Projects one row: for each field the stored aggregate where
/// `aggregate_results` has one at the field's position, else the field
/// evaluated for the row.
pub fn project_field_row(
    row: &Row,
    schema: &Schema,
    fields: &Vec<Expr>,
    aggregate_results: &Vec<Option<Value>>,
) -> (r: Result<Row, QueryError>)
    ensures
        match r {
            Ok(projected) => project_field_row_spec(
                row@,
                schema@,
                exprs_view(fields@),
                aggregates_view(aggregate_results@),
                fields@.len(),
            ) == Ok::<Seq<ValueView>, QueryErrorView>(projected@),
            Err(e) => project_field_row_spec(
                row@,
                schema@,
                exprs_view(fields@),
                aggregates_view(aggregate_results@),
                fields@.len(),
            ) == Err::<Seq<ValueView>, QueryErrorView>(e@),
        },
{
    let ghost field_views = exprs_view(fields@);
    let ghost aggregates = aggregates_view(aggregate_results@);
    let mut items: Vec<Value> = Vec::new();
    let mut i: usize = 0;
    while i < fields.len()
        invariant
            i <= fields.len(),
            field_views == exprs_view(fields@),
            aggregates == aggregates_view(aggregate_results@),
            items@.len() == i,
            project_field_row_spec(row@, schema@, field_views, aggregates, i as nat) is Ok,
            project_field_row_spec(row@, schema@, field_views, aggregates, i as nat)->Ok_0.len() == i,
            forall|k: int|
                0 <= k < i ==> items@[k]@ == project_field_row_spec(
                    row@,
                    schema@,
                    field_views,
                    aggregates,
                    i as nat,
                )->Ok_0[k],
        decreases fields.len() - i,
    {
        assert(field_views[i as int] == fields@[i as int]@);
        let stored = if i < aggregate_results.len() {
            match &aggregate_results[i] {
                Some(value) => Some(value.clone()),
                None => None,
            }
        } else {
            None
        };
        assert(match stored {
            Some(v) => stored_aggregate(aggregates, i as int) == Some(v@),
            None => stored_aggregate(aggregates, i as int) is None,
        });
        let value = match stored {
            Some(value) => value,
            None => match evaluate_expr(row, schema, &fields[i]) {
                Ok(value) => value,
                Err(e) => {
                    proof {
                        lemma_project_field_row_error_stays(
                            row@,
                            schema@,
                            field_views,
                            aggregates,
                            (i + 1) as nat,
                            fields@.len(),
                        );
                    }
                    return Err(e);
                },
            },
        };
        items.push(value);
        i += 1;
    }
    let projected = Row { items };
    assert(projected@ =~= project_field_row_spec(
        row@,
        schema@,
        field_views,
        aggregates,
        fields@.len(),
    )->Ok_0);
    Ok(projected)
}

/// Projects `rows` onto `fields` and counts the rows touched.
///
/// The aggregate fields are evaluated first, each once over all rows. Where
/// every field is an aggregate the result is one row; else it has one row
/// for each row of `rows`.
pub fn project_fields(rows: &Vec<Row>, schema: &Schema, fields: &Vec<Expr>, cost: &mut Cost) -> (r: Result<
    Vec<Row>,
    QueryError,
>)
    ensures
        match r {
            Ok(projected) => {
                &&& project_fields_spec(rows_view(rows@), schema@, exprs_view(fields@)) == Ok::<
                    Seq<Seq<ValueView>>,
                    QueryErrorView,
                >(rows_view(projected@))
                &&& projected@.len() == if all_aggregate(exprs_view(fields@)) {
                    1
                } else {
                    rows@.len()
                }
                &&& forall|k: int|
                    0 <= k < projected@.len() ==> (#[trigger] projected@[k])@.len() == fields@.len()
                &&& final(cost)@ == saturate(
                    old(cost)@ + project_cost(rows@.len(), exprs_view(fields@)),
                )
            },
            Err(e) => {
                &&& project_fields_spec(rows_view(rows@), schema@, exprs_view(fields@)) == Err::<
                    Seq<Seq<ValueView>>,
                    QueryErrorView,
                >(e@)
                &&& old(cost)@ <= final(cost)@
                &&& final(cost)@ <= saturate(old(cost)@ + 2 * rows@.len())
            },
        },
{
    let ghost field_views = exprs_view(fields@);
    let ghost row_views = rows_view(rows@);
    let ghost start_cost = cost@;
    let mut aggregate_results: Vec<Option<Value>> = Vec::new();
    let mut every_field_aggregate = true;
    let mut some_field_aggregate = false;
    let mut index: usize = 0;
    while index < fields.len()
        invariant
            index <= fields.len(),
            field_views == exprs_view(fields@),
            row_views == rows_view(rows@),
            cost@ == start_cost,
            start_cost == old(cost)@,
            aggregate_results@.len() == index,
            aggregate_values_spec(row_views, schema@, field_views, index as nat) is Ok,
            aggregate_values_spec(row_views, schema@, field_views, index as nat)->Ok_0.len()
                == index,
            forall|k: int|
                0 <= k < index ==> option_value_view(#[trigger] aggregate_results@[k])
                    == aggregate_values_spec(row_views, schema@, field_views, index as nat)->Ok_0[k],
            every_field_aggregate == (forall|k: int|
                0 <= k < index ==> is_aggregate_spec(#[trigger] field_views[k])),
            some_field_aggregate == (exists|k: int|
                0 <= k < index && is_aggregate_spec(#[trigger] field_views[k])),
        decreases fields.len() - index,
    {
        assert(field_views[index as int] == fields@[index as int]@);
        if is_aggregate_expr(&fields[index]) {
            match evaluate_aggregate_expr(rows, schema, &fields[index]) {
                Ok(value) => {
                    aggregate_results.push(Some(value));
                },
                Err(e) => {
                    proof {
                        lemma_aggregate_error_stays(
                            row_views,
                            schema@,
                            field_views,
                            (index + 1) as nat,
                            fields@.len(),
                        );
                    }
                    return Err(e);
                },
            }
            some_field_aggregate = true;
        } else {
            aggregate_results.push(None);
            every_field_aggregate = false;
        }
        index += 1;
    }
    let ghost aggregates = aggregates_view(aggregate_results@);
    proof {
        assert(aggregates =~= aggregate_values_spec(
            row_views,
            schema@,
            field_views,
            fields@.len(),
        )->Ok_0);
        lemma_aggregate_values(row_views, schema@, field_views, fields@.len());
        assert(every_field_aggregate == all_aggregate(field_views));
        assert(some_field_aggregate == any_aggregate(field_views));
    }
    if some_field_aggregate {
        cost.add_rows(rows.len());
    }
    if every_field_aggregate {
        let mut items: Vec<Value> = Vec::new();
        let mut i: usize = 0;
        while i < aggregate_results.len()
            invariant
                i <= aggregate_results.len(),
                aggregates == aggregates_view(aggregate_results@),
                forall|k: int| 0 <= k < aggregates.len() ==> (#[trigger] aggregates[k]) is Some,
                items@.len() == i,
                forall|k: int| 0 <= k < i ==> items@[k]@ == aggregates[k]->0,
            decreases aggregate_results.len() - i,
        {
            assert(aggregates[i as int] is Some);
            match &aggregate_results[i] {
                Some(value) => {
                    items.push(value.clone());
                },
                None => {},
            }
            i += 1;
        }
        let row = Row { items };
        assert(row@ =~= Seq::new(field_views.len(), |i: int| aggregates[i]->0));
        let mut projected: Vec<Row> = Vec::new();
        projected.push(row);
        assert(rows_view(projected@) =~= seq![row@]);
        Ok(projected)
    } else {
        let ghost counted = cost@;
        let mut projected_rows: Vec<Row> = Vec::new();
        let mut k: usize = 0;
        while k < rows.len()
            invariant
                k <= rows.len(),
                field_views == exprs_view(fields@),
                row_views == rows_view(rows@),
                aggregates == aggregates_view(aggregate_results@),
                aggregate_values_spec(row_views, schema@, field_views, fields@.len()) == Ok::<
                    Seq<Option<ValueView>>,
                    QueryErrorView,
                >(aggregates),
                !all_aggregate(field_views),
                projected_rows@.len() == k,
                cost@ == saturate(counted + k),
                0 <= start_cost <= u64::MAX,
            start_cost == old(cost)@,
                start_cost <= counted <= saturate(start_cost + rows@.len()),
                project_rows_spec(row_views, schema@, field_views, aggregates, k as nat) is Ok,
                project_rows_spec(row_views, schema@, field_views, aggregates, k as nat)->Ok_0.len()
                    == k,
                forall|j: int|
                    0 <= j < k ==> (#[trigger] projected_rows@[j])@ == project_rows_spec(
                        row_views,
                        schema@,
                        field_views,
                        aggregates,
                        k as nat,
                    )->Ok_0[j],
            decreases rows.len() - k,
        {
            assert(row_views[k as int] == rows@[k as int]@);
            cost.increment_rows_processed();
            match project_field_row(&rows[k], schema, fields, &aggregate_results) {
                Ok(row) => {
                    projected_rows.push(row);
                },
                Err(e) => {
                    proof {
                        lemma_project_rows_error_stays(
                            row_views,
                            schema@,
                            field_views,
                            aggregates,
                            (k + 1) as nat,
                            rows@.len(),
                        );
                    }
                    return Err(e);
                },
            }
            k += 1;
        }
        proof {
            lemma_project_rows_shape(row_views, schema@, field_views, aggregates, rows@.len());
            assert(rows_view(projected_rows@) =~= project_rows_spec(
                row_views,
                schema@,
                field_views,
                aggregates,
                rows@.len(),
            )->Ok_0);
        }
        Ok(projected_rows)
    }
}

} // verus!
