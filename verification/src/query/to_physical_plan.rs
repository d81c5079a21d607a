//! The physical planner: it turns a logical plan into a physical one, and
//! makes a filter over a table into the probe of an index where an index
//! of the table is covered by the filter.

use vstd::prelude::*;
use crate::catalog::{
    catalog_table, CatalogView, ConstructedIndexes, ConstructedIndexesView, TableIndexesView,
};
use crate::indexes::{Index, IndexView};
use crate::query::plan_tables_known;
use crate::types::{
    Expr, ExprView, Filter, From, IndexScan, Join, Limit, Op, OrderBy, PhysicalPlan,
    PhysicalPlanView, Project, Query, QueryView, TableName, TableScan,
};
use crate::value::{values_view, Value, ValueView};

verus! {

/// The column and the value that a filter binds: the filter is an equality
/// of a column and a literal, in either order, and nothing else.
pub open spec fn equality_binding(e: ExprView) -> Option<(Seq<char>, ValueView)> {
    match e {
        ExprView::BinaryOperation { left, op, right } => if op == Op::Equals {
            match (*left, *right) {
                (ExprView::Column { column }, ExprView::Literal { literal }) => Some(
                    (column.name, literal),
                ),
                (ExprView::Literal { literal }, ExprView::Column { column }) => Some(
                    (column.name, literal),
                ),
                _ => None,
            }
        } else {
            None
        },
        _ => None,
    }
}

/// Whether the binding binds the column `column`.
pub open spec fn column_bound(column: Seq<char>, binding: Option<(Seq<char>, ValueView)>) -> bool {
    match binding {
        Some((name, _)) => column == name,
        None => false,
    }
}

/// Whether each column of the index is bound.
pub open spec fn index_covered(index: IndexView, binding: Option<(Seq<char>, ValueView)>) -> bool {
    forall|j: int| 0 <= j < index.columns.len() ==> column_bound(#[trigger] index.columns[j], binding)
}

/// The value that a binding binds its column to.
pub open spec fn bound_value(binding: Option<(Seq<char>, ValueView)>) -> ValueView {
    match binding {
        Some((_, value)) => value,
        None => ValueView::Null,
    }
}

/// The probe key of a covered index: for each column of the index the
/// value that the column is bound to.
pub open spec fn probe_key(index: IndexView, binding: Option<(Seq<char>, ValueView)>) -> Seq<ValueView> {
    Seq::new(index.columns.len(), |j: int| bound_value(binding))
}

/// The first index of a table, from position `from` on, that is covered.
pub open spec fn covered_index_from(
    indexes: TableIndexesView,
    binding: Option<(Seq<char>, ValueView)>,
    from: int,
) -> Option<IndexView>
    decreases indexes.len() - from,
{
    if from < 0 || from >= indexes.len() {
        None
    } else if index_covered(indexes[from].0, binding) {
        Some(indexes[from].0)
    } else {
        covered_index_from(indexes, binding, from + 1)
    }
}

/// The indexes of the first table named `table_name`, from position `from`
/// on.
pub open spec fn table_indexes_from(indexes: ConstructedIndexesView, table_name: Seq<char>, from: int) -> Option<
    TableIndexesView,
>
    decreases indexes.len() - from,
{
    if from < 0 || from >= indexes.len() {
        None
    } else if indexes[from].0 == table_name {
        Some(indexes[from].1)
    } else {
        table_indexes_from(indexes, table_name, from + 1)
    }
}

/// The first index of the table whose columns the filter binds, each of
/// them, with the probe key that the filter gives.
pub open spec fn find_index_spec(
    indexes: ConstructedIndexesView,
    table_name: Seq<char>,
    binding: Option<(Seq<char>, ValueView)>,
) -> Option<(IndexView, Seq<ValueView>)> {
    match table_indexes_from(indexes, table_name, 0) {
        None => None,
        Some(of_table) => match covered_index_from(of_table, binding, 0) {
            None => None,
            Some(index) => Some((index, probe_key(index, binding))),
        },
    }
}

/// The physical plan of a logical plan. A filter directly over a table
/// becomes the probe of the first covered index of the table, and the
/// filter is dropped; every other operator stays, with its children
/// rewritten.
pub open spec fn to_physical_plan_spec(q: QueryView, indexes: ConstructedIndexesView) -> PhysicalPlanView
    decreases q,
{
    match q {
        QueryView::From { table_name, table_alias } => PhysicalPlanView::TableScan {
            table_name,
            table_alias,
        },
        QueryView::Filter { from, filter } => match *from {
            QueryView::From { table_name, table_alias } => match find_index_spec(
                indexes,
                table_name,
                equality_binding(filter),
            ) {
                Some((index, key)) => PhysicalPlanView::IndexScan {
                    table_name,
                    table_alias,
                    index,
                    values: seq![key],
                },
                None => PhysicalPlanView::Filter {
                    from: Box::new(PhysicalPlanView::TableScan { table_name, table_alias }),
                    filter,
                },
            },
            _ => PhysicalPlanView::Filter {
                from: Box::new(to_physical_plan_spec(*from, indexes)),
                filter,
            },
        },
        QueryView::Join { join_type, left_from, right_from, on } => PhysicalPlanView::Join {
            join_type,
            left_from: Box::new(to_physical_plan_spec(*left_from, indexes)),
            right_from: Box::new(to_physical_plan_spec(*right_from, indexes)),
            on,
        },
        QueryView::Project { from, fields } => PhysicalPlanView::Project {
            from: Box::new(to_physical_plan_spec(*from, indexes)),
            fields,
        },
        QueryView::Limit { from, limit } => PhysicalPlanView::Limit {
            from: Box::new(to_physical_plan_spec(*from, indexes)),
            limit,
        },
        QueryView::OrderBy { from, order_by_exprs } => PhysicalPlanView::OrderBy {
            from: Box::new(to_physical_plan_spec(*from, indexes)),
            order_by_exprs,
        },
    }
}

/// Whether the catalog has every table that the logical plan names.
pub open spec fn query_tables_known(q: QueryView, catalog: CatalogView) -> bool
    decreases q,
{
    match q {
        QueryView::From { table_name, .. } => catalog_table(catalog, table_name) is Some,
        QueryView::Filter { from, .. } => query_tables_known(*from, catalog),
        QueryView::Join { left_from, right_from, .. } => query_tables_known(*left_from, catalog)
            && query_tables_known(*right_from, catalog),
        QueryView::Project { from, .. } => query_tables_known(*from, catalog),
        QueryView::Limit { from, .. } => query_tables_known(*from, catalog),
        QueryView::OrderBy { from, .. } => query_tables_known(*from, catalog),
    }
}

/// The physical plan reads the tables that the logical plan names.
pub proof fn lemma_physical_plan_tables(q: QueryView, indexes: ConstructedIndexesView, catalog: CatalogView)
    ensures
        plan_tables_known(to_physical_plan_spec(q, indexes), catalog) == query_tables_known(q, catalog),
    decreases q,
{
    reveal_with_fuel(query_tables_known, 2);
    reveal_with_fuel(plan_tables_known, 2);
    reveal_with_fuel(to_physical_plan_spec, 2);
    match q {
        QueryView::From { .. } => {},
        QueryView::Filter { from, filter } => match *from {
            QueryView::From { .. } => {},
            _ => {
                lemma_physical_plan_tables(*from, indexes, catalog);
            },
        },
        QueryView::Join { left_from, right_from, .. } => {
            lemma_physical_plan_tables(*left_from, indexes, catalog);
            lemma_physical_plan_tables(*right_from, indexes, catalog);
        },
        QueryView::Project { from, .. } => {
            lemma_physical_plan_tables(*from, indexes, catalog);
        },
        QueryView::Limit { from, .. } => {
            lemma_physical_plan_tables(*from, indexes, catalog);
        },
        QueryView::OrderBy { from, .. } => {
            lemma_physical_plan_tables(*from, indexes, catalog);
        },
    }
}

/// The view of a binding that is borrowed.
pub open spec fn binding_view(binding: Option<(&String, &Value)>) -> Option<(Seq<char>, ValueView)> {
    match binding {
        Some((name, value)) => Some((name@, value@)),
        None => None,
    }
}

/// The column and the value that the filter `expr` binds, if it is an
/// equality of a column and a literal.
pub fn columns_in_filter<'a>(expr: &'a Expr) -> (r: Option<(&'a String, &'a Value)>)
    ensures
        binding_view(r) == equality_binding(expr@),
{
    reveal_with_fuel(crate::types::expr_view, 2);
    match expr {
        Expr::BinaryOperation { left, op, right } => match op {
            Op::Equals => match &**left {
                Expr::Column { column } => match &**right {
                    Expr::Literal { literal } => Some((&column.name, literal)),
                    _ => None,
                },
                Expr::Literal { literal } => match &**right {
                    Expr::Column { column } => Some((&column.name, literal)),
                    _ => None,
                },
                _ => None,
            },
            _ => None,
        },
        _ => None,
    }
}

fn covers(index: &Index, binding: Option<(&String, &Value)>) -> (r: bool)
    ensures
        r == index_covered(index@, binding_view(binding)),
{
    let ghost bound_to = binding_view(binding);
    let ghost columns = index@.columns;
    assert(columns.len() == index.columns@.len());
    let mut j: usize = 0;
    while j < index.columns.len()
        invariant
            j <= index.columns.len(),
            bound_to == binding_view(binding),
            columns == index@.columns,
            columns.len() == index.columns@.len(),
            forall|k: int| 0 <= k < j ==> column_bound(#[trigger] columns[k], bound_to),
        decreases index.columns.len() - j,
    {
        assert(columns[j as int] == index.columns@[j as int]@);
        let bound = match binding {
            Some((name, _)) => index.columns[j] == *name,
            None => false,
        };
        if !bound {
            assert(!column_bound(columns[j as int], bound_to));
            return false;
        }
        j += 1;
    }
    true
}

fn probe_values(index: &Index, value: &Value) -> (r: Vec<Value>)
    ensures
        values_view(r@) == Seq::new(index@.columns.len(), |j: int| value@),
{
    let mut key: Vec<Value> = Vec::new();
    let mut j: usize = 0;
    while j < index.columns.len()
        invariant
            j <= index.columns.len(),
            key@.len() == j,
            forall|k: int| 0 <= k < j ==> (#[trigger] key@[k])@ == value@,
        decreases index.columns.len() - j,
    {
        key.push(value.clone());
        j += 1;
    }
    assert(values_view(key@) =~= Seq::new(index@.columns.len(), |j: int| value@));
    key
}

/// Whether `r` is the exec form of the found index `expected`.
pub open spec fn is_found_index(r: Option<(&Index, Vec<Vec<Value>>)>, expected: Option<(IndexView, Seq<ValueView>)>) -> bool {
    match r {
        Some((index, values)) => expected == Some((index@, crate::types::keys_view(values@)[0]))
            && crate::types::keys_view(values@).len() == 1,
        None => expected is None,
    }
}

/// The first index of the table `table_name` that the binding covers, with
/// the one probe key that the binding gives.
pub fn find_index<'a>(
    indexes: &'a ConstructedIndexes,
    table_name: &TableName,
    filter_columns: Option<(&String, &Value)>,
) -> (r: Option<(&'a Index, Vec<Vec<Value>>)>)
    ensures
        is_found_index(r, find_index_spec(indexes@, table_name@, binding_view(filter_columns))),
{
    let ghost binding = binding_view(filter_columns);
    let mut t: usize = 0;
    while t < indexes.indexes.len()
        invariant
            t <= indexes.indexes.len(),
            binding == binding_view(filter_columns),
            table_indexes_from(indexes@, table_name@, 0) == table_indexes_from(
                indexes@,
                table_name@,
                t as int,
            ),
        decreases indexes.indexes.len() - t,
    {
        assert(indexes@[t as int] == (
            indexes.indexes@[t as int].0@,
            crate::catalog::table_indexes_view(indexes.indexes@[t as int].1@),
        ));
        if indexes.indexes[t].0.0 == table_name.0 {
            let of_table = &indexes.indexes[t].1;
            let ghost views = crate::catalog::table_indexes_view(of_table@);
            let mut k: usize = 0;
            while k < of_table.len()
                invariant
                    k <= of_table.len(),
                    binding == binding_view(filter_columns),
                    views == crate::catalog::table_indexes_view(of_table@),
                    table_indexes_from(indexes@, table_name@, 0) == Some(views),
                    covered_index_from(views, binding, 0) == covered_index_from(
                        views,
                        binding,
                        k as int,
                    ),
                decreases of_table.len() - k,
            {
                let index = &of_table[k].0;
                assert(views[k as int].0 == index@);
                if covers(index, filter_columns) {
                    let value = match filter_columns {
                        Some((_, value)) => probe_values(index, value),
                        None => {
                            assert(index@.columns.len() == 0) by {
                                if index@.columns.len() > 0 {
                                    assert(column_bound(index@.columns[0], binding));
                                }
                            }
                            Vec::new()
                        },
                    };
                    assert(values_view(value@) =~= probe_key(index@, binding));
                    let mut values: Vec<Vec<Value>> = Vec::new();
                    values.push(value);
                    assert(crate::types::keys_view(values@) =~= seq![probe_key(index@, binding)]);
                    return Some((index, values));
                }
                k += 1;
            }
            return None;
        }
        t += 1;
    }
    None
}

fn filter_to_physical_plan(filter: Filter, indexes: &ConstructedIndexes) -> (r: PhysicalPlan)
    ensures
        r@ == to_physical_plan_spec(Query::Filter(filter)@, indexes@),
    decreases filter, 0nat,
{
    let Filter { from, filter } = filter;
    let inner = match *from {
        Query::From(From { table_name, table_alias }) => {
            let found = match find_index(indexes, &table_name, columns_in_filter(&filter)) {
                Some((index, values)) => Some((index.clone(), values)),
                None => None,
            };
            match found {
                Some((index, values)) => {
                    assert(crate::types::keys_view(values@) =~= seq![
                        crate::types::keys_view(values@)[0],
                    ]);
                    return PhysicalPlan::IndexScan(
                        IndexScan { index, table_name, table_alias, values },
                    );
                },
                None => PhysicalPlan::TableScan(TableScan { table_name, table_alias }),
            }
        },
        other => to_physical_plan(other, indexes),
    };
    PhysicalPlan::Filter { from: Box::new(inner), filter }
}

/// Turns a logical plan into a physical plan.
///
/// A filter directly over a table becomes the probe of an index where the
/// filter is an equality of a column and a literal and an index of the
/// table has no column but that one; the first such index is taken, and the
/// filter is dropped. Every other operator stays as it is, over the
/// physical plans of its children.
pub fn to_physical_plan(logical_plan: Query, indexes: &ConstructedIndexes) -> (r: PhysicalPlan)
    ensures
        r@ == to_physical_plan_spec(logical_plan@, indexes@),
    decreases logical_plan, 1nat,
{
    match logical_plan {
        Query::From(From { table_name, table_alias }) => PhysicalPlan::TableScan(
            TableScan { table_name, table_alias },
        ),
        Query::Filter(filter) => filter_to_physical_plan(filter, indexes),
        Query::Join(Join { join_type, left_from, right_from, on }) => PhysicalPlan::Join {
            join_type,
            on,
            left_from: Box::new(to_physical_plan(*left_from, indexes)),
            right_from: Box::new(to_physical_plan(*right_from, indexes)),
        },
        Query::Limit(Limit { from, limit }) => PhysicalPlan::Limit {
            from: Box::new(to_physical_plan(*from, indexes)),
            limit,
        },
        Query::Project(Project { from, fields }) => PhysicalPlan::Project {
            from: Box::new(to_physical_plan(*from, indexes)),
            fields,
        },
        Query::OrderBy(OrderBy { from, order_by_exprs }) => PhysicalPlan::OrderBy {
            from: Box::new(to_physical_plan(*from, indexes)),
            order_by_exprs,
        },
    }
}

} // verus!
