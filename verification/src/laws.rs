//! What holds of every plan and every database, proved from the
//! definitions of the operators.

use vstd::prelude::*;
use crate::catalog::{catalog_table, CatalogView, ConstructedIndexesView, TableIndexesView};
use crate::database::{lemma_known_table_has_rows, source_fits};
use crate::indexes::{positions_with_key, record_key, record_keys, IndexView};
use crate::query::filter::{apply_predicate_spec, evaluate_spec};
use crate::query::from::{index_scan_rows, probe_rows, record_row, rows_at, scan_schema};
use crate::query::order_by::{resolve_keys_spec, sort_comparisons};
use crate::query::project::{
    aggregate_values_spec, all_aggregate, lemma_project_rows_shape, project_cost,
    project_fields_spec,
};
use crate::query::to_physical_plan::{
    column_bound, covered_index_from, equality_binding, find_index_spec, index_covered, probe_key,
    table_indexes_from, to_physical_plan_spec,
};
use crate::query::{execute_spec, filter_rows_spec, limit_rows_spec, QueryErrorView};
use crate::source::{record_get, source_rows, RecordView, SourceView};
use crate::types::{
    find_from, first_index_of, schema_column_text, ColumnView, ExprView, Op, PhysicalPlanView,
    QueryView, SchemaColumnView,
};
use crate::value::ValueView;

verus! {

/// The keys under which the columns of a schema appear in printed output.
pub open spec fn output_keys(schema: Seq<SchemaColumnView>) -> Seq<Seq<char>> {
    Seq::new(schema.len(), |i: int| schema_column_text(schema[i]))
}

/// The output keys of a plan are a function of the plan and the database:
/// two plans with the same model, run over the same database, give the
/// same keys, character by character.
pub proof fn lemma_output_keys_deterministic(
    first: PhysicalPlanView,
    second: PhysicalPlanView,
    catalog: CatalogView,
    source: SourceView,
)
    requires
        first == second,
        execute_spec(first, catalog, source) is Ok,
    ensures
        execute_spec(second, catalog, source) is Ok,
        output_keys(execute_spec(first, catalog, source)->Ok_0.schema) == output_keys(
            execute_spec(second, catalog, source)->Ok_0.schema,
        ),
{
}

/// A limit gives at most `limit` rows, and they are the first rows of its
/// child, in the order of the child.
pub proof fn lemma_limit_is_prefix(rows: Seq<Seq<ValueView>>, limit: u64)
    ensures
        limit_rows_spec(rows, limit).len() <= limit,
        limit_rows_spec(rows, limit).len() <= rows.len(),
        forall|i: int|
            0 <= i < limit_rows_spec(rows, limit).len() ==> #[trigger] limit_rows_spec(rows, limit)[i]
                == rows[i],
{
}

/// A projection of aggregates alone gives exactly one row; any other
/// projection gives one row for each row of its child.
pub proof fn lemma_project_row_count(
    rows: Seq<Seq<ValueView>>,
    schema: Seq<SchemaColumnView>,
    fields: Seq<ExprView>,
)
    requires
        project_fields_spec(rows, schema, fields) is Ok,
    ensures
        project_fields_spec(rows, schema, fields)->Ok_0.len() == if all_aggregate(fields) {
            1
        } else {
            rows.len()
        },
{
    if !all_aggregate(fields) {
        let aggregates = aggregate_values_spec(rows, schema, fields, fields.len())->Ok_0;
        lemma_project_rows_shape(rows, schema, fields, aggregates, rows.len());
    }
}

/// The cost of a plan is the cost of its children and what the operator at
/// its root adds: a scan one for each row that it gives, a filter one for
/// each row of its child, a projection what `project_cost` says, a join two
/// for each left row and one for each right row, a limit nothing, and a
/// sort one for each comparison.
pub proof fn lemma_cost_additive(plan: PhysicalPlanView, catalog: CatalogView, source: SourceView)
    requires
        execute_spec(plan, catalog, source) is Ok,
    ensures
        execute_spec(plan, catalog, source)->Ok_0.cost == match plan {
            PhysicalPlanView::TableScan { .. } => execute_spec(plan, catalog, source)->Ok_0.rows.len() as int,
            PhysicalPlanView::IndexScan { .. } => execute_spec(plan, catalog, source)->Ok_0.rows.len() as int,
            PhysicalPlanView::Filter { from, .. } => {
                let child = execute_spec(*from, catalog, source)->Ok_0;
                child.cost + child.rows.len()
            },
            PhysicalPlanView::Project { from, fields } => {
                let child = execute_spec(*from, catalog, source)->Ok_0;
                child.cost + project_cost(child.rows.len(), fields)
            },
            PhysicalPlanView::Join { left_from, right_from, .. } => {
                let left = execute_spec(*left_from, catalog, source)->Ok_0;
                let right = execute_spec(*right_from, catalog, source)->Ok_0;
                left.cost + right.cost + 2 * left.rows.len() + right.rows.len()
            },
            PhysicalPlanView::Limit { from, .. } => execute_spec(*from, catalog, source)->Ok_0.cost,
            PhysicalPlanView::OrderBy { from, order_by_exprs } => {
                let child = execute_spec(*from, catalog, source)->Ok_0;
                child.cost + sort_comparisons(
                    child.rows,
                    resolve_keys_spec(child.schema, order_by_exprs, order_by_exprs.len())->Ok_0,
                    child.rows.len(),
                )
            },
        },
{
}

/// The filter that asks whether the column `column`, under the alias
/// `alias`, equals `value`.
pub open spec fn column_equals(column: Seq<char>, alias: Option<Seq<char>>, value: ValueView) -> ExprView {
    ExprView::BinaryOperation {
        left: Box::new(
            ExprView::Column { column: ColumnView { name: column, table_alias: alias } },
        ),
        op: Op::Equals,
        right: Box::new(ExprView::Literal { literal: value }),
    }
}

/// In the schema of a scan, a declared column stands where it first stands
/// among the declared columns.
pub proof fn lemma_scan_schema_find(
    columns: Seq<Seq<char>>,
    alias: Option<Seq<char>>,
    column: Seq<char>,
    from: int,
)
    requires
        0 <= from,
    ensures
        match find_from(
            scan_schema(columns, alias),
            SchemaColumnView::Column(ColumnView { name: column, table_alias: alias }),
            from,
        ) {
            Some(j) => from <= j < columns.len() && columns[j] == column,
            None => forall|j: int| from <= j < columns.len() ==> columns[j] != column,
        },
    decreases columns.len() - from,
{
    let schema = scan_schema(columns, alias);
    let target = SchemaColumnView::Column(ColumnView { name: column, table_alias: alias });
    if from < columns.len() {
        assert(schema[from] == SchemaColumnView::Column(
            ColumnView { name: columns[from], table_alias: alias },
        ));
        if schema[from] != target {
            lemma_scan_schema_find(columns, alias, column, from + 1);
        }
    }
}

/// The filter that asks whether `value` equals the column `column`, under
/// the alias `alias`.
pub open spec fn equals_column(value: ValueView, column: Seq<char>, alias: Option<Seq<char>>) -> ExprView {
    ExprView::BinaryOperation {
        left: Box::new(ExprView::Literal { literal: value }),
        op: Op::Equals,
        right: Box::new(
            ExprView::Column { column: ColumnView { name: column, table_alias: alias } },
        ),
    }
}

/// Whether a filter is the equality of a column and a value, in either
/// order.
pub open spec fn asks_column_equals(
    filter: ExprView,
    column: Seq<char>,
    alias: Option<Seq<char>>,
    value: ValueView,
) -> bool {
    filter == column_equals(column, alias, value) || filter == equals_column(value, column, alias)
}

/// Over the rows of a scan, the filter `column = value` keeps the rows of
/// the records whose key is `value` under an index that has no column but
/// `column`.
pub proof fn lemma_filter_keeps_key_positions(
    records: Seq<RecordView>,
    columns: Seq<Seq<char>>,
    alias: Option<Seq<char>>,
    column: Seq<char>,
    value: ValueView,
    filter: ExprView,
    index_columns: Seq<Seq<char>>,
    n: nat,
)
    requires
        n <= records.len(),
        columns.contains(column),
        asks_column_equals(filter, column, alias, value),
        index_columns.len() > 0,
        forall|j: int| 0 <= j < index_columns.len() ==> index_columns[j] == column,
    ensures
        filter_rows_spec(
            Seq::new(records.len(), |i: int| record_row(records[i], columns)),
            scan_schema(columns, alias),
            filter,
            n,
        ) == Ok::<Seq<Seq<ValueView>>, QueryErrorView>(
            rows_at(
                records,
                columns,
                positions_with_key(
                    record_keys(records, index_columns),
                    Seq::new(index_columns.len(), |j: int| value),
                    n as int,
                ),
            ),
        ),
    decreases n,
{
    reveal_with_fuel(evaluate_spec, 3);
    let rows = Seq::new(records.len(), |i: int| record_row(records[i], columns));
    let schema = scan_schema(columns, alias);
    let keys = record_keys(records, index_columns);
    let probe = Seq::new(index_columns.len(), |j: int| value);
    if n == 0 {
        assert(rows_at(records, columns, positions_with_key(keys, probe, 0)) =~= Seq::<
            Seq<ValueView>,
        >::empty());
    } else {
        lemma_filter_keeps_key_positions(
            records,
            columns,
            alias,
            column,
            value,
            filter,
            index_columns,
            (n - 1) as nat,
        );
        let earlier = positions_with_key(keys, probe, n - 1);
        let record = records[n - 1];
        let row = rows[n - 1];
        let target = SchemaColumnView::Column(ColumnView { name: column, table_alias: alias });
        lemma_scan_schema_find(columns, alias, column, 0);
        let at = first_index_of(schema, target);
        assert(at is Some) by {
            let j = choose|j: int| 0 <= j < columns.len() && columns[j] == column;
            assert(columns[j] == column);
        }
        let j = at->0;
        assert(row[j] == record_key(record, columns)[j]);
        let held = match record_get(record, column) {
            Some(v) => v,
            None => ValueView::Null,
        };
        assert(row[j] == held);
        assert((keys[n - 1] == probe) == (held == value)) by {
            assert(keys[n - 1][0] == held);
            assert(probe[0] == value);
            if held == value {
                assert(keys[n - 1] =~= probe);
            }
        }
        assert(apply_predicate_spec(row, schema, filter) == Ok::<bool, QueryErrorView>(
            held == value,
        ));
        if held == value {
            assert(rows_at(records, columns, earlier.push(n - 1)) =~= rows_at(
                records,
                columns,
                earlier,
            ).push(row));
        }
    }
}

/// The probe of an index on one column with one key gives exactly the rows
/// that a filter over the scan of the table gives, where the filter asks
/// whether that column equals the key: the same rows in the same order,
/// under the same schema. The column is one that the table declares.
pub proof fn lemma_index_scan_is_filter(
    catalog: CatalogView,
    source: SourceView,
    table_name: Seq<char>,
    alias: Option<Seq<char>>,
    index: IndexView,
    column: Seq<char>,
    value: ValueView,
)
    requires
        source_fits(catalog, source),
        catalog_table(catalog, table_name) is Some,
        catalog_table(catalog, table_name)->0.columns.contains(column),
        index.columns == seq![column],
    ensures
        ({
            let probed = execute_spec(
                PhysicalPlanView::IndexScan {
                    table_name,
                    table_alias: alias,
                    index,
                    values: seq![seq![value]],
                },
                catalog,
                source,
            );
            let filtered = execute_spec(
                PhysicalPlanView::Filter {
                    from: Box::new(PhysicalPlanView::TableScan { table_name, table_alias: alias }),
                    filter: column_equals(column, alias, value),
                },
                catalog,
                source,
            );
            &&& probed is Ok
            &&& filtered is Ok
            &&& probed->Ok_0.rows == filtered->Ok_0.rows
            &&& probed->Ok_0.schema == filtered->Ok_0.schema
        }),
{
    reveal_with_fuel(execute_spec, 2);
    reveal_with_fuel(index_scan_rows, 2);
    lemma_known_table_has_rows(catalog, source, table_name);
    let columns = catalog_table(catalog, table_name)->0.columns;
    let records = source_rows(source, table_name)->0;
    lemma_filter_keeps_key_positions(
        records,
        columns,
        alias,
        column,
        value,
        column_equals(column, alias, value),
        index.columns,
        records.len(),
    );
    assert(Seq::new(index.columns.len(), |j: int| value) =~= seq![value]);
    let found = probe_rows(records, columns, index.columns, seq![value]);
    assert(index_scan_rows(records, columns, index.columns, seq![seq![value]], 1) =~= found);
}

/// The index that the planner finds for a filter over a table.
pub open spec fn found_index(
    indexes: ConstructedIndexesView,
    table_name: Seq<char>,
    binding: Option<(Seq<char>, ValueView)>,
) -> IndexView {
    match find_index_spec(indexes, table_name, binding) {
        Some((index, _)) => index,
        None => IndexView { table_name, columns: Seq::empty() },
    }
}

/// The covered index that is found is covered.
pub proof fn lemma_covered_index_is_covered(
    indexes: TableIndexesView,
    binding: Option<(Seq<char>, ValueView)>,
    from: int,
)
    requires
        0 <= from,
        covered_index_from(indexes, binding, from) is Some,
    ensures
        index_covered(covered_index_from(indexes, binding, from)->0, binding),
    decreases indexes.len() - from,
{
    if from < indexes.len() && !index_covered(indexes[from].0, binding) {
        lemma_covered_index_is_covered(indexes, binding, from + 1);
    }
}

/// Where a filter over a table is the equality of a declared column, under
/// the alias of the table, and a value, the physical plan gives the rows
/// that the filter over the scan of the table gives, in the same order and
/// under the same schema, whether or not the planner makes the filter the
/// probe of an index. An index without a column is left aside.
pub proof fn lemma_rewrite_keeps_rows(
    catalog: CatalogView,
    source: SourceView,
    indexes: ConstructedIndexesView,
    table_name: Seq<char>,
    alias: Option<Seq<char>>,
    column: Seq<char>,
    value: ValueView,
    filter: ExprView,
)
    requires
        source_fits(catalog, source),
        catalog_table(catalog, table_name) is Some,
        catalog_table(catalog, table_name)->0.columns.contains(column),
        asks_column_equals(filter, column, alias, value),
        find_index_spec(indexes, table_name, equality_binding(filter)) is Some ==> found_index(
            indexes,
            table_name,
            equality_binding(filter),
        ).columns.len() > 0,
    ensures
        ({
            let planned = execute_spec(
                to_physical_plan_spec(
                    QueryView::Filter {
                        from: Box::new(QueryView::From { table_name, table_alias: alias }),
                        filter,
                    },
                    indexes,
                ),
                catalog,
                source,
            );
            let filtered = execute_spec(
                PhysicalPlanView::Filter {
                    from: Box::new(PhysicalPlanView::TableScan { table_name, table_alias: alias }),
                    filter,
                },
                catalog,
                source,
            );
            &&& planned is Ok
            &&& filtered is Ok
            &&& planned->Ok_0.rows == filtered->Ok_0.rows
            &&& planned->Ok_0.schema == filtered->Ok_0.schema
        }),
{
    reveal_with_fuel(execute_spec, 2);
    reveal_with_fuel(index_scan_rows, 2);
    reveal_with_fuel(to_physical_plan_spec, 2);
    lemma_known_table_has_rows(catalog, source, table_name);
    let columns = catalog_table(catalog, table_name)->0.columns;
    let records = source_rows(source, table_name)->0;
    let binding = equality_binding(filter);
    assert(binding == Some((column, value)));
    let index_columns = if find_index_spec(indexes, table_name, binding) is Some {
        found_index(indexes, table_name, binding).columns
    } else {
        seq![column]
    };
    if find_index_spec(indexes, table_name, binding) is Some {
        let of_table = table_indexes_from(indexes, table_name, 0)->0;
        lemma_covered_index_is_covered(of_table, binding, 0);
        let index = covered_index_from(of_table, binding, 0)->0;
        assert forall|j: int| 0 <= j < index_columns.len() implies index_columns[j] == column by {
            assert(column_bound(index.columns[j], binding));
        }
        let probe = probe_key(index, binding);
        assert(probe =~= Seq::new(index_columns.len(), |j: int| value));
        let found = probe_rows(records, columns, index_columns, probe);
        assert(index_scan_rows(records, columns, index_columns, seq![probe], 1) =~= found);
    }
    lemma_filter_keeps_key_positions(
        records,
        columns,
        alias,
        column,
        value,
        filter,
        index_columns,
        records.len(),
    );
}

} // verus!
