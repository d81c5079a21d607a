//! The executor: it runs a physical plan over a database and returns the
//! schema, the rows and the cost.

pub mod filter;
pub mod from;
pub mod join;
pub mod order_by;
pub mod project;
pub mod to_physical_plan;

use vstd::prelude::*;
use crate::catalog::{catalog_table, CatalogView};
use crate::database::Database;
use crate::query::filter::{apply_predicate, apply_predicate_spec, FilterError, FilterErrorView};
use crate::query::from::{
    alias_view_of, index_scan, index_scan_rows, index_scan_spec, lemma_key_positions_in_range,
    probe_rows, table_scan, table_scan_spec,
};
use crate::query::join::{
    hash_join, hash_join_spec, join_keys_spec, join_rows, join_rows_for, key_seqs,
    lemma_join_keys_len, matching_positions,
};
use crate::query::order_by::{
    all_comparable, lemma_sorted_order_stable, not_comparable,
    order_by, resolve_keys_spec, sort_comparisons, sorted_rows,
};
use crate::query::project::{
    aggregate_values_spec, lemma_project_rows_shape, lemma_project_schema_len, project_cost,
    project_fields, project_fields_spec, project_schema, project_schema_spec,
};
use crate::query::to_physical_plan::{
    lemma_physical_plan_tables, query_tables_known, to_physical_plan, to_physical_plan_spec,
};
use crate::source::{source_rows, SourceView};
use crate::types::{
    alias_view, exprs_view, order_by_view, rows_view, saturate, Column, ColumnView, Cost, Expr,
    ExprView, Filter, From, IndexScan, Join, JoinOn, JoinType, Limit, OrderBy, OrderByExpr,
    PhysicalPlan, PhysicalPlanView, Project, Query, QueryStep, Row, Schema, SchemaColumnView,
    StepView, TableAlias, TableScan,
};
use crate::value::ValueView;

verus! {

/// What can go wrong while a query runs.
#[derive(Debug, PartialEq)]
pub enum QueryError {
    ColumnNotFoundInSchema { column_name: Column },
    IndexNotFoundInSchema { index: usize },
    FilterError(FilterError),
    ArgumentNotFound,
    TypeMismatch { expected: String },
    CannotUseAggregateFunctionInFilter,
}

/// The mathematical value of a [`QueryError`].
pub ghost enum QueryErrorView {
    ColumnNotFoundInSchema { column_name: ColumnView },
    IndexNotFoundInSchema { index: usize },
    FilterError(FilterErrorView),
    ArgumentNotFound,
    TypeMismatch { expected: Seq<char> },
    CannotUseAggregateFunctionInFilter,
}

impl View for QueryError {
    type V = QueryErrorView;

    open spec fn view(&self) -> QueryErrorView {
        match self {
            QueryError::ColumnNotFoundInSchema { column_name } => QueryErrorView::ColumnNotFoundInSchema {
                column_name: column_name@,
            },
            QueryError::IndexNotFoundInSchema { index } => QueryErrorView::IndexNotFoundInSchema {
                index: *index,
            },
            QueryError::FilterError(e) => QueryErrorView::FilterError(e@),
            QueryError::ArgumentNotFound => QueryErrorView::ArgumentNotFound,
            QueryError::TypeMismatch { expected } => QueryErrorView::TypeMismatch { expected: expected@ },
            QueryError::CannotUseAggregateFunctionInFilter => QueryErrorView::CannotUseAggregateFunctionInFilter,
        }
    }
}

/// The error of a value that is no 64-bit integer where one is needed: in a
/// sum, or as the result of an addition or a subtraction.
pub open spec fn not_an_integer() -> QueryErrorView {
    QueryErrorView::TypeMismatch { expected: "i64"@ }
}

/// Makes the error that `not_an_integer` describes.
pub fn integer_expected() -> (r: QueryError)
    ensures
        r@ == not_an_integer(),
{
    QueryError::TypeMismatch { expected: "i64".to_owned() }
}

/// Whether `r` is the exec form of the outcome `expected`, with the cost
/// held to what a `u64` can count.
pub open spec fn is_step_result(r: Result<QueryStep, QueryError>, expected: Result<StepView, QueryErrorView>) -> bool {
    match r {
        Ok(step) => expected is Ok && step@ == expected->Ok_0.saturated(),
        Err(e) => expected == Err::<StepView, QueryErrorView>(e@),
    }
}

/// The rows among the first `n` that satisfy the predicate, in order; the
/// first row for which the predicate fails decides.
pub open spec fn filter_rows_spec(
    rows: Seq<Seq<ValueView>>,
    schema: Seq<SchemaColumnView>,
    predicate: ExprView,
    n: nat,
) -> Result<Seq<Seq<ValueView>>, QueryErrorView>
    decreases n,
{
    if n == 0 {
        Ok(Seq::empty())
    } else {
        match filter_rows_spec(rows, schema, predicate, (n - 1) as nat) {
            Err(e) => Err(e),
            Ok(kept) => match apply_predicate_spec(rows[n - 1], schema, predicate) {
                Err(e) => Err(e),
                Ok(true) => Ok(kept.push(rows[n - 1])),
                Ok(false) => Ok(kept),
            },
        }
    }
}

/// The first `limit` rows, or all of them where there are fewer.
pub open spec fn limit_rows_spec(rows: Seq<Seq<ValueView>>, limit: u64) -> Seq<Seq<ValueView>> {
    if limit < rows.len() {
        rows.take(limit as int)
    } else {
        rows
    }
}

/// Whether the catalog has every table that the plan reads.
pub open spec fn plan_tables_known(plan: PhysicalPlanView, catalog: CatalogView) -> bool
    decreases plan,
{
    match plan {
        PhysicalPlanView::TableScan { table_name, .. } => catalog_table(catalog, table_name) is Some,
        PhysicalPlanView::IndexScan { table_name, .. } => catalog_table(catalog, table_name) is Some,
        PhysicalPlanView::Filter { from, .. } => plan_tables_known(*from, catalog),
        PhysicalPlanView::Join { left_from, right_from, .. } => plan_tables_known(*left_from, catalog)
            && plan_tables_known(*right_from, catalog),
        PhysicalPlanView::Project { from, .. } => plan_tables_known(*from, catalog),
        PhysicalPlanView::Limit { from, .. } => plan_tables_known(*from, catalog),
        PhysicalPlanView::OrderBy { from, .. } => plan_tables_known(*from, catalog),
    }
}

/// What a filter makes of the step of its child: the rows that satisfy the
/// predicate, at the cost of one for each row of the child.
pub open spec fn filter_step_spec(child: StepView, predicate: ExprView) -> Result<StepView, QueryErrorView> {
    match filter_rows_spec(child.rows, child.schema, predicate, child.rows.len()) {
        Err(e) => Err(e),
        Ok(rows) => Ok(StepView { schema: child.schema, rows, cost: child.cost + child.rows.len() }),
    }
}

/// What a projection makes of the step of its child. The schema is computed
/// first, then the rows.
pub open spec fn project_step_spec(child: StepView, fields: Seq<ExprView>) -> Result<StepView, QueryErrorView> {
    match project_schema_spec(child.schema, fields, fields.len()) {
        Err(e) => Err(e),
        Ok(schema) => match project_fields_spec(child.rows, child.schema, fields) {
            Err(e) => Err(e),
            Ok(rows) => Ok(
                StepView { schema, rows, cost: child.cost + project_cost(child.rows.len(), fields) },
            ),
        },
    }
}

/// What a limit makes of the step of its child: schema and cost stay.
pub open spec fn limit_step_spec(child: StepView, limit: u64) -> StepView {
    StepView { rows: limit_rows_spec(child.rows, limit), ..child }
}

/// What an `ORDER BY` makes of the step of its child: the rows in sorted
/// order, at the cost of one for each comparison of two rows.
pub open spec fn order_by_step_spec(child: StepView, exprs: Seq<crate::types::OrderByExprView>) -> Result<
    StepView,
    QueryErrorView,
> {
    match resolve_keys_spec(child.schema, exprs, exprs.len()) {
        Err(e) => Err(e),
        Ok(keys) => if all_comparable(child.rows, keys) {
            Ok(
                StepView {
                    schema: child.schema,
                    rows: sorted_rows(child.rows, keys),
                    cost: child.cost + sort_comparisons(child.rows, keys, child.rows.len()),
                },
            )
        } else {
            Err(not_comparable())
        },
    }
}

/// What a physical plan gives over a catalog and a row source: the schema,
/// the rows, and the cost as the sum of what each operator adds.
pub open spec fn execute_spec(plan: PhysicalPlanView, catalog: CatalogView, source: SourceView) -> Result<
    StepView,
    QueryErrorView,
>
    decreases plan,
{
    match plan {
        PhysicalPlanView::TableScan { table_name, table_alias } => Ok(
            table_scan_spec(catalog, source, table_name, table_alias),
        ),
        PhysicalPlanView::IndexScan { table_name, table_alias, index, values } => Ok(
            index_scan_spec(catalog, source, table_name, table_alias, index, values),
        ),
        PhysicalPlanView::Filter { from, filter } => match execute_spec(*from, catalog, source) {
            Err(e) => Err(e),
            Ok(child) => filter_step_spec(child, filter),
        },
        PhysicalPlanView::Project { from, fields } => match execute_spec(*from, catalog, source) {
            Err(e) => Err(e),
            Ok(child) => project_step_spec(child, fields),
        },
        PhysicalPlanView::Limit { from, limit } => match execute_spec(*from, catalog, source) {
            Err(e) => Err(e),
            Ok(child) => Ok(limit_step_spec(child, limit)),
        },
        PhysicalPlanView::Join { join_type, left_from, right_from, on } => match execute_spec(
            *left_from,
            catalog,
            source,
        ) {
            Err(e) => Err(e),
            Ok(left) => match execute_spec(*right_from, catalog, source) {
                Err(e) => Err(e),
                Ok(right) => hash_join_spec(
                    left.rows,
                    left.schema,
                    right.rows,
                    right.schema,
                    on,
                    join_type,
                    left.cost + right.cost,
                ),
            },
        },
        PhysicalPlanView::OrderBy { from, order_by_exprs } => match execute_spec(
            *from,
            catalog,
            source,
        ) {
            Err(e) => Err(e),
            Ok(child) => order_by_step_spec(child, order_by_exprs),
        },
    }
}

/// Whether every row has `width` values.
pub open spec fn rows_have_width(rows: Seq<Seq<ValueView>>, width: nat) -> bool {
    forall|i: int| 0 <= i < rows.len() ==> (#[trigger] rows[i]).len() == width
}

/// Counting on from a count that was held to a `u64` gives what counting
/// on from the count itself gives.
pub proof fn lemma_saturate_add(count: int, more: int)
    requires
        more >= 0,
    ensures
        saturate(saturate(count) + more) == saturate(count + more),
{
}

/// The same for the sum of two counts that were held to a `u64`.
pub proof fn lemma_saturate_sum(a: int, b: int)
    requires
        a >= 0,
        b >= 0,
    ensures
        saturate(saturate(a) + saturate(b)) == saturate(a + b),
{
}

/// Once a row has failed, the filter over more rows fails in the same way.
pub proof fn lemma_filter_error_stays(
    rows: Seq<Seq<ValueView>>,
    schema: Seq<SchemaColumnView>,
    predicate: ExprView,
    failed: nat,
    n: nat,
)
    requires
        filter_rows_spec(rows, schema, predicate, failed) is Err,
        failed <= n,
    ensures
        filter_rows_spec(rows, schema, predicate, n) == filter_rows_spec(
            rows,
            schema,
            predicate,
            failed,
        ),
    decreases n,
{
    if failed < n {
        lemma_filter_error_stays(rows, schema, predicate, failed, (n - 1) as nat);
    }
}

/// A filter keeps no more rows than it reads, and each row that it keeps
/// is as wide as the rows that it reads.
pub proof fn lemma_filter_rows_shape(
    rows: Seq<Seq<ValueView>>,
    schema: Seq<SchemaColumnView>,
    predicate: ExprView,
    n: nat,
    width: nat,
)
    requires
        n <= rows.len(),
        rows_have_width(rows, width),
        filter_rows_spec(rows, schema, predicate, n) is Ok,
    ensures
        filter_rows_spec(rows, schema, predicate, n)->Ok_0.len() <= n,
        rows_have_width(filter_rows_spec(rows, schema, predicate, n)->Ok_0, width),
    decreases n,
{
    if n > 0 {
        lemma_filter_rows_shape(rows, schema, predicate, (n - 1) as nat, width);
    }
}

/// The rows of an index scan are as wide as the table.
pub proof fn lemma_index_scan_rows_width(
    records: Seq<crate::source::RecordView>,
    columns: Seq<Seq<char>>,
    index_columns: Seq<Seq<char>>,
    probes: Seq<Seq<ValueView>>,
    n: nat,
)
    ensures
        rows_have_width(index_scan_rows(records, columns, index_columns, probes, n), columns.len()),
    decreases n,
{
    if n > 0 {
        lemma_index_scan_rows_width(records, columns, index_columns, probes, (n - 1) as nat);
        let earlier = index_scan_rows(records, columns, index_columns, probes, (n - 1) as nat);
        let last = probe_rows(records, columns, index_columns, probes[n - 1]);
        let all = index_scan_rows(records, columns, index_columns, probes, n);
        assert forall|i: int| 0 <= i < all.len() implies (#[trigger] all[i]).len() == columns.len() by {
            if i < earlier.len() {
                assert(all[i] == earlier[i]);
            } else {
                assert(all[i] == last[i - earlier.len()]);
            }
        }
    }
}

/// The rows of a join are as wide as a left row and a right row together.
pub proof fn lemma_join_rows_width(
    left_rows: Seq<Seq<ValueView>>,
    left_keys: Seq<ValueView>,
    right_rows: Seq<Seq<ValueView>>,
    right_keys: Seq<ValueView>,
    join_type: crate::types::JoinType,
    left_width: nat,
    right_width: nat,
    n: nat,
)
    requires
        n <= left_rows.len(),
        right_keys.len() == right_rows.len(),
        rows_have_width(left_rows, left_width),
        rows_have_width(right_rows, right_width),
    ensures
        rows_have_width(
            join_rows(left_rows, left_keys, right_rows, right_keys, join_type, right_width, n),
            left_width + right_width,
        ),
    decreases n,
{
    if n > 0 {
        lemma_join_rows_width(
            left_rows,
            left_keys,
            right_rows,
            right_keys,
            join_type,
            left_width,
            right_width,
            (n - 1) as nat,
        );
        let earlier = join_rows(
            left_rows,
            left_keys,
            right_rows,
            right_keys,
            join_type,
            right_width,
            (n - 1) as nat,
        );
        let last = join_rows_for(
            left_rows[n - 1],
            left_keys[n - 1],
            right_rows,
            right_keys,
            join_type,
            right_width,
        );
        let all = join_rows(left_rows, left_keys, right_rows, right_keys, join_type, right_width, n);
        let positions = matching_positions(left_keys[n - 1], right_keys);
        lemma_key_positions_in_range(
            key_seqs(right_keys),
            seq![left_keys[n - 1]],
            right_keys.len() as int,
        );
        assert forall|i: int| 0 <= i < all.len() implies (#[trigger] all[i]).len() == left_width
            + right_width by {
            if i < earlier.len() {
                assert(all[i] == earlier[i]);
            } else {
                let k = i - earlier.len();
                assert(all[i] == last[k]);
                assert(left_rows[n - 1].len() == left_width);
                if positions.len() > 0 {
                    assert(right_rows[positions[k]].len() == right_width);
                }
            }
        }
    }
}

/// For every operator output, every row is as long as the schema, and the
/// cost is not negative.
pub proof fn lemma_execute_shape(plan: PhysicalPlanView, catalog: CatalogView, source: SourceView)
    ensures
        execute_spec(plan, catalog, source) is Ok ==> execute_spec(
            plan,
            catalog,
            source,
        )->Ok_0.well_formed() && execute_spec(plan, catalog, source)->Ok_0.cost >= 0,
    decreases plan,
{
    let outcome = execute_spec(plan, catalog, source);
    if outcome is Ok {
        let step = outcome->Ok_0;
        match plan {
            PhysicalPlanView::TableScan { .. } => {},
            PhysicalPlanView::IndexScan { table_name, table_alias, index, values } => {
                let columns = catalog_table(catalog, table_name)->0.columns;
                let records = source_rows(source, table_name)->0;
                lemma_index_scan_rows_width(records, columns, index.columns, values, values.len());
            },
            PhysicalPlanView::Filter { from, filter } => {
                lemma_execute_shape(*from, catalog, source);
                let child = execute_spec(*from, catalog, source)->Ok_0;
                lemma_filter_rows_shape(
                    child.rows,
                    child.schema,
                    filter,
                    child.rows.len(),
                    child.schema.len(),
                );
            },
            PhysicalPlanView::Project { from, fields } => {
                lemma_execute_shape(*from, catalog, source);
                let child = execute_spec(*from, catalog, source)->Ok_0;
                lemma_project_schema_len(child.schema, fields, fields.len());
                let aggregates = aggregate_values_spec(
                    child.rows,
                    child.schema,
                    fields,
                    fields.len(),
                )->Ok_0;
                if !crate::query::project::all_aggregate(fields) {
                    lemma_project_rows_shape(
                        child.rows,
                        child.schema,
                        fields,
                        aggregates,
                        child.rows.len(),
                    );
                }
            },
            PhysicalPlanView::Limit { from, limit } => {
                lemma_execute_shape(*from, catalog, source);
            },
            PhysicalPlanView::Join { join_type, left_from, right_from, on } => {
                lemma_execute_shape(*left_from, catalog, source);
                lemma_execute_shape(*right_from, catalog, source);
                let left = execute_spec(*left_from, catalog, source)->Ok_0;
                let right = execute_spec(*right_from, catalog, source)->Ok_0;
                let left_keys = join_keys_spec(left.rows, left.schema, on.left, left.rows.len())->Ok_0;
                let right_keys = join_keys_spec(
                    right.rows,
                    right.schema,
                    on.right,
                    right.rows.len(),
                )->Ok_0;
                lemma_join_keys_len(left.rows, left.schema, on.left, left.rows.len());
                lemma_join_keys_len(right.rows, right.schema, on.right, right.rows.len());
                lemma_join_rows_width(
                    left.rows,
                    left_keys,
                    right.rows,
                    right_keys,
                    join_type,
                    left.schema.len(),
                    right.schema.len(),
                    left.rows.len(),
                );
            },
            PhysicalPlanView::OrderBy { from, order_by_exprs } => {
                lemma_execute_shape(*from, catalog, source);
                let child = execute_spec(*from, catalog, source)->Ok_0;
                let keys = resolve_keys_spec(child.schema, order_by_exprs, order_by_exprs.len())->Ok_0;
                lemma_sorted_order_stable(child.rows, keys, child.rows.len());
            },
        }
    }
}

/// Keeps the rows that satisfy the predicate, in order, and counts one for
/// each row read.
pub fn filter_rows(rows: &Vec<Row>, schema: &Schema, predicate: &Expr, cost: &mut Cost) -> (r: Result<
    Vec<Row>,
    QueryError,
>)
    ensures
        match r {
            Ok(kept) => filter_rows_spec(rows_view(rows@), schema@, predicate@, rows@.len()) == Ok::<
                Seq<Seq<ValueView>>,
                QueryErrorView,
            >(rows_view(kept@)) && final(cost)@ == saturate(old(cost)@ + rows@.len()),
            Err(e) => {
                &&& filter_rows_spec(rows_view(rows@), schema@, predicate@, rows@.len()) == Err::<
                    Seq<Seq<ValueView>>,
                    QueryErrorView,
                >(e@)
                &&& old(cost)@ <= final(cost)@
                &&& final(cost)@ <= saturate(old(cost)@ + rows@.len())
            },
        },
{
    let ghost views = rows_view(rows@);
    let ghost start_cost = cost@;
    let mut filtered_rows: Vec<Row> = Vec::new();
    assert(rows_view(filtered_rows@) =~= Seq::<Seq<ValueView>>::empty());
    let mut i: usize = 0;
    while i < rows.len()
        invariant
            i <= rows.len(),
            views == rows_view(rows@),
            0 <= start_cost <= u64::MAX,
            start_cost == old(cost)@,
            cost@ == saturate(start_cost + i),
            filter_rows_spec(views, schema@, predicate@, i as nat) == Ok::<
                Seq<Seq<ValueView>>,
                QueryErrorView,
            >(rows_view(filtered_rows@)),
        decreases rows.len() - i,
    {
        assert(views[i as int] == rows@[i as int]@);
        cost.increment_rows_processed();
        let ghost before = rows_view(filtered_rows@);
        match apply_predicate(&rows[i], schema, predicate) {
            Ok(true) => {
                filtered_rows.push(rows[i].clone());
                assert(rows_view(filtered_rows@) =~= before.push(views[i as int]));
            },
            Ok(false) => {},
            Err(e) => {
                proof {
                    lemma_filter_error_stays(views, schema@, predicate@, (i + 1) as nat, rows@.len());
                }
                return Err(e);
            },
        }
        i += 1;
    }
    Ok(filtered_rows)
}

/// Cuts `rows` down to the first `limit`.
pub fn limit_rows(rows: Vec<Row>, limit: u64) -> (r: Vec<Row>)
    ensures
        rows_view(r@) == limit_rows_spec(rows_view(rows@), limit),
        r@.len() <= limit,
        r@.len() <= rows@.len(),
        forall|i: int| 0 <= i < r@.len() ==> r@[i] == rows@[i],
{
    let mut rows = rows;
    let ghost before = rows@;
    if limit < rows.len() as u64 {
        rows.truncate(limit as usize);
        assert(rows_view(rows@) =~= rows_view(before).take(limit as int));
    }
    rows
}

fn alias_ref(alias: &Option<TableAlias>) -> (r: Option<&TableAlias>)
    ensures
        alias_view_of(r) == alias_view(*alias),
{
    match alias {
        Some(a) => Some(a),
        None => None,
    }
}

/// Whether the catalog of `db` has every table that `plan` reads.
pub fn plan_is_known(plan: &PhysicalPlan, db: &Database) -> (r: bool)
    ensures
        r == plan_tables_known(plan@, db.catalog_view()),
    decreases plan,
{
    match plan {
        PhysicalPlan::TableScan(TableScan { table_name, .. }) => db.knows_table(table_name),
        PhysicalPlan::IndexScan(IndexScan { table_name, .. }) => db.knows_table(table_name),
        PhysicalPlan::Filter { from, .. } => plan_is_known(from, db),
        PhysicalPlan::Join { left_from, right_from, .. } => plan_is_known(left_from, db)
            && plan_is_known(right_from, db),
        PhysicalPlan::Project { from, .. } => plan_is_known(from, db),
        PhysicalPlan::Limit { from, .. } => plan_is_known(from, db),
        PhysicalPlan::OrderBy { from, .. } => plan_is_known(from, db),
    }
}

fn filter_step(child: QueryStep, filter: &Expr, Ghost(base): Ghost<StepView>) -> (r: Result<
    QueryStep,
    QueryError,
>)
    requires
        child@ == base.saturated(),
    ensures
        is_step_result(r, filter_step_spec(base, filter@)),
{
    let QueryStep { schema, rows, cost } = child;
    let mut cost = cost;
    match filter_rows(&rows, &schema, filter, &mut cost) {
        Ok(filtered_rows) => {
            proof {
                lemma_saturate_add(base.cost, base.rows.len() as int);
            }
            Ok(QueryStep { schema, rows: filtered_rows, cost })
        },
        Err(e) => Err(e),
    }
}

fn project_step(child: QueryStep, fields: &Vec<Expr>, Ghost(base): Ghost<StepView>) -> (r: Result<
    QueryStep,
    QueryError,
>)
    requires
        child@ == base.saturated(),
    ensures
        is_step_result(r, project_step_spec(base, exprs_view(fields@))),
{
    let QueryStep { schema, rows, cost } = child;
    let mut cost = cost;
    let projected_schema = match project_schema(&schema, fields) {
        Ok(projected_schema) => projected_schema,
        Err(e) => {
            return Err(e);
        },
    };
    match project_fields(&rows, &schema, fields, &mut cost) {
        Ok(projected_rows) => {
            proof {
                lemma_saturate_add(base.cost, project_cost(base.rows.len(), exprs_view(fields@)));
            }
            Ok(QueryStep { schema: projected_schema, rows: projected_rows, cost })
        },
        Err(e) => Err(e),
    }
}

fn limit_step(child: QueryStep, limit: u64, Ghost(base): Ghost<StepView>) -> (r: QueryStep)
    requires
        child@ == base.saturated(),
    ensures
        r@ == limit_step_spec(base, limit).saturated(),
{
    let QueryStep { schema, rows, cost } = child;
    let rows = limit_rows(rows, limit);
    QueryStep { schema, rows, cost }
}

fn join_step(
    left: QueryStep,
    right: QueryStep,
    on: &JoinOn,
    join_type: &JoinType,
    Ghost(left_base): Ghost<StepView>,
    Ghost(right_base): Ghost<StepView>,
) -> (r: Result<QueryStep, QueryError>)
    requires
        left@ == left_base.saturated(),
        right@ == right_base.saturated(),
        left_base.cost >= 0,
        right_base.cost >= 0,
    ensures
        is_step_result(
            r,
            hash_join_spec(
                left_base.rows,
                left_base.schema,
                right_base.rows,
                right_base.schema,
                on@,
                *join_type,
                left_base.cost + right_base.cost,
            ),
        ),
{
    proof {
        lemma_saturate_sum(left_base.cost, right_base.cost);
        lemma_saturate_add(
            left_base.cost + right_base.cost,
            (2 * left_base.rows.len() + right_base.rows.len()) as int,
        );
    }
    let QueryStep { schema: left_schema, rows: left_rows, cost: left_cost } = left;
    let QueryStep { schema: right_schema, rows: right_rows, cost: right_cost } = right;
    let mut left_cost = left_cost;
    left_cost.extend(&right_cost);
    hash_join(left_rows, &left_schema, right_rows, &right_schema, on, join_type, left_cost)
}

fn order_by_step(
    child: QueryStep,
    order_by_exprs: &Vec<OrderByExpr>,
    Ghost(base): Ghost<StepView>,
) -> (r: Result<QueryStep, QueryError>)
    requires
        child@ == base.saturated(),
        base.well_formed(),
    ensures
        is_step_result(r, order_by_step_spec(base, order_by_view(order_by_exprs@))),
{
    let QueryStep { schema, rows, cost } = child;
    let mut cost = cost;
    assert forall|k: int| 0 <= k < rows@.len() implies (#[trigger] rows@[k])@.len()
        == schema@.len() by {
        assert(rows_view(rows@)[k] == rows@[k]@);
    }
    match order_by(rows, &schema, order_by_exprs, &mut cost) {
        Ok(sorted) => {
            proof {
                let keys = resolve_keys_spec(
                    base.schema,
                    order_by_view(order_by_exprs@),
                    order_by_exprs@.len(),
                )->Ok_0;
                lemma_saturate_add(base.cost, sort_comparisons(base.rows, keys, base.rows.len()));
            }
            Ok(QueryStep { schema, rows: sorted, cost })
        },
        Err(e) => Err(e),
    }
}

/// Runs a physical plan over a database.
///
/// Each operator runs its children to the end, then itself; the first
/// error ends the query. The result is what `execute_spec` gives for the
/// plan, with the cost held to what a `u64` can count; every row of it is
/// as long as its schema.
pub fn execute(plan: &PhysicalPlan, db: &Database) -> (r: Result<QueryStep, QueryError>)
    requires
        plan_tables_known(plan@, db.catalog_view()),
    ensures
        is_step_result(r, execute_spec(plan@, db.catalog_view(), db.source_view())),
        r is Ok ==> r->Ok_0@.well_formed(),
    decreases plan,
{
    let ghost catalog = db.catalog_view();
    let ghost source = db.source_view();
    proof {
        lemma_execute_shape(plan@, catalog, source);
    }
    match plan {
        PhysicalPlan::TableScan(TableScan { table_name, table_alias }) => Ok(
            table_scan(table_name, alias_ref(table_alias), db),
        ),
        PhysicalPlan::IndexScan(IndexScan { table_name, table_alias, index, values }) => Ok(
            index_scan(table_name, alias_ref(table_alias), index, values, db),
        ),
        PhysicalPlan::Filter { from, filter } => match execute(from, db) {
            Ok(child) => filter_step(
                child,
                filter,
                Ghost(execute_spec(from@, catalog, source)->Ok_0),
            ),
            Err(e) => Err(e),
        },
        PhysicalPlan::Project { from, fields } => match execute(from, db) {
            Ok(child) => project_step(
                child,
                fields,
                Ghost(execute_spec(from@, catalog, source)->Ok_0),
            ),
            Err(e) => Err(e),
        },
        PhysicalPlan::Limit { from, limit } => match execute(from, db) {
            Ok(child) => Ok(
                limit_step(child, *limit, Ghost(execute_spec(from@, catalog, source)->Ok_0)),
            ),
            Err(e) => Err(e),
        },
        PhysicalPlan::Join { join_type, left_from, right_from, on } => {
            let left = match execute(left_from, db) {
                Ok(left) => left,
                Err(e) => {
                    return Err(e);
                },
            };
            let right = match execute(right_from, db) {
                Ok(right) => right,
                Err(e) => {
                    return Err(e);
                },
            };
            proof {
                lemma_execute_shape(left_from@, catalog, source);
                lemma_execute_shape(right_from@, catalog, source);
            }
            join_step(
                left,
                right,
                on,
                join_type,
                Ghost(execute_spec(left_from@, catalog, source)->Ok_0),
                Ghost(execute_spec(right_from@, catalog, source)->Ok_0),
            )
        },
        PhysicalPlan::OrderBy { from, order_by_exprs } => match execute(from, db) {
            Ok(child) => {
                proof {
                    lemma_execute_shape(from@, catalog, source);
                }
                order_by_step(
                    child,
                    order_by_exprs,
                    Ghost(execute_spec(from@, catalog, source)->Ok_0),
                )
            },
            Err(e) => Err(e),
        },
    }
}

/// Whether the catalog of `db` has every table that `query` names.
pub fn query_is_known(query: &Query, db: &Database) -> (r: bool)
    ensures
        r == query_tables_known(query@, db.catalog_view()),
    decreases query,
{
    match query {
        Query::From(From { table_name, .. }) => db.knows_table(table_name),
        Query::Filter(Filter { from, .. }) => query_is_known(from, db),
        Query::Join(Join { left_from, right_from, .. }) => query_is_known(left_from, db)
            && query_is_known(right_from, db),
        Query::Project(Project { from, .. }) => query_is_known(from, db),
        Query::Limit(Limit { from, .. }) => query_is_known(from, db),
        Query::OrderBy(OrderBy { from, .. }) => query_is_known(from, db),
    }
}

/// Runs a query over a database: the logical plan is turned into a
/// physical plan, with the indexes of the database, and the physical plan
/// is run.
pub fn run_query(query: Query, db: &Database) -> (r: Result<QueryStep, QueryError>)
    requires
        query_tables_known(query@, db.catalog_view()),
    ensures
        is_step_result(
            r,
            execute_spec(
                to_physical_plan_spec(query@, db.indexes_view()),
                db.catalog_view(),
                db.source_view(),
            ),
        ),
        r is Ok ==> r->Ok_0@.well_formed(),
{
    proof {
        lemma_physical_plan_tables(query@, db.indexes_view(), db.catalog_view());
    }
    let plan = to_physical_plan(query, db.indexes());
    execute(&plan, db)
}

} // verus!
