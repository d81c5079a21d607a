//! Names, expressions, logical and physical plans, rows, schemas and the
//! result of an operator, each with the mathematical model that the
//! contracts speak of.

use vstd::prelude::*;
use vstd::string::StringExecFns;
use crate::indexes::{Index, IndexView};
use crate::value::{Value, ValueView};

verus! {

/// The name of a table, case-sensitive.
#[derive(Debug, PartialEq, Eq, Hash)]
pub struct TableName(pub String);

impl View for TableName {
    type V = Seq<char>;

    open spec fn view(&self) -> Seq<char> {
        self.0@
    }
}

impl Clone for TableName {
    fn clone(&self) -> (r: Self)
        ensures
            r == *self,
    {
        TableName(self.0.clone())
    }
}

/// The alias that a `FROM` gives to a table.
#[derive(Debug, PartialEq, Eq, Hash)]
pub struct TableAlias(pub String);

impl View for TableAlias {
    type V = Seq<char>;

    open spec fn view(&self) -> Seq<char> {
        self.0@
    }
}

impl Clone for TableAlias {
    fn clone(&self) -> (r: Self)
        ensures
            r == *self,
    {
        TableAlias(self.0.clone())
    }
}

impl TableAlias {
    /// The alias as text.
    pub fn display(&self) -> (r: String)
        ensures
            r@ == self@,
    {
        self.0.clone()
    }
}

/// The view of an alias that may be missing.
pub open spec fn alias_view(alias: Option<TableAlias>) -> Option<Seq<char>> {
    match alias {
        Some(a) => Some(a@),
        None => None,
    }
}

/// Copies an optional alias.
pub fn clone_alias(alias: &Option<TableAlias>) -> (r: Option<TableAlias>)
    ensures
        r == *alias,
{
    match alias {
        Some(a) => Some(a.clone()),
        None => None,
    }
}

/// A reference to a column: its name and, where the query qualified it, the
/// alias of its table.
#[derive(Debug, PartialEq, Eq, Hash)]
pub struct Column {
    pub name: String,
    pub table_alias: Option<TableAlias>,
}

/// The mathematical value of a [`Column`].
pub ghost struct ColumnView {
    pub name: Seq<char>,
    pub table_alias: Option<Seq<char>>,
}

impl View for Column {
    type V = ColumnView;

    open spec fn view(&self) -> ColumnView {
        ColumnView { name: self.name@, table_alias: alias_view(self.table_alias) }
    }
}

impl Clone for Column {
    fn clone(&self) -> (r: Self)
        ensures
            r == *self,
    {
        Column { name: self.name.clone(), table_alias: clone_alias(&self.table_alias) }
    }
}

/// `alias.name` for a qualified column, `name` for a bare one.
pub open spec fn column_text(column: ColumnView) -> Seq<char> {
    match column.table_alias {
        Some(alias) => alias + seq!['.'] + column.name,
        None => column.name,
    }
}

impl Column {
    /// An unqualified reference to the column `name`.
    pub fn from(name: &str) -> (r: Column)
        ensures
            r@ == (ColumnView { name: name@, table_alias: None }),
    {
        Column { name: name.to_owned(), table_alias: None }
    }

    /// Two references are the same when both the name and the alias match.
    pub fn equals(&self, other: &Column) -> (r: bool)
        ensures
            r == (self@ == other@),
    {
        if self.name != other.name {
            return false;
        }
        match &self.table_alias {
            Some(a) => match &other.table_alias {
                Some(b) => a.0 == b.0,
                None => false,
            },
            None => other.table_alias.is_none(),
        }
    }

    /// The reference as text.
    pub fn display(&self) -> (r: String)
        ensures
            r@ == column_text(self@),
    {
        match &self.table_alias {
            Some(alias) => {
                let mut text = alias.0.clone();
                proof {
                    reveal_strlit(".");
                }
                text.append(".");
                text.append(self.name.as_str());
                assert(text@ =~= column_text(self@));
                text
            },
            None => self.name.clone(),
        }
    }
}

/// The aggregate functions.
#[derive(Debug, PartialEq, Eq, Clone, Copy, Structural)]
pub enum AggregateFunctionName {
    Sum,
}

/// The name of an aggregate function.
pub open spec fn aggregate_function_text(name: AggregateFunctionName) -> Seq<char> {
    match name {
        AggregateFunctionName::Sum => "sum"@,
    }
}

impl AggregateFunctionName {
    /// The function's name as text.
    pub fn display(&self) -> (r: String)
        ensures
            r@ == aggregate_function_text(*self),
    {
        match self {
            AggregateFunctionName::Sum => "sum".to_owned(),
        }
    }
}

/// The functions that an expression may call.
#[derive(Debug, PartialEq, Eq, Clone, Copy, Structural)]
pub enum FunctionName {
    Aggregate(AggregateFunctionName),
}

/// The name of a function.
pub open spec fn function_text(name: FunctionName) -> Seq<char> {
    match name {
        FunctionName::Aggregate(aggregate) => aggregate_function_text(aggregate),
    }
}

impl FunctionName {
    /// The function's name as text.
    pub fn display(&self) -> (r: String)
        ensures
            r@ == function_text(*self),
    {
        match self {
            FunctionName::Aggregate(aggregate) => aggregate.display(),
        }
    }
}

/// The binary operators.
#[derive(Debug, PartialEq, Eq, Clone, Copy, Structural)]
pub enum Op {
    Equals,
    GreaterThan,
    GreaterThanOrEqual,
    LessThan,
    LessThanOrEqual,
    Add,
    Subtract,
}

/// The name of an operator.
pub open spec fn op_text(op: Op) -> Seq<char> {
    match op {
        Op::Equals => "equals"@,
        Op::GreaterThan => "greater_than"@,
        Op::GreaterThanOrEqual => "greater_than_or_equal"@,
        Op::LessThan => "less_than"@,
        Op::LessThanOrEqual => "less_than_or_equal"@,
        Op::Add => "add"@,
        Op::Subtract => "subtract"@,
    }
}

impl Op {
    /// The operator's name as text.
    pub fn display(&self) -> (r: String)
        ensures
            r@ == op_text(*self),
    {
        match self {
            Op::Equals => "equals".to_owned(),
            Op::GreaterThan => "greater_than".to_owned(),
            Op::GreaterThanOrEqual => "greater_than_or_equal".to_owned(),
            Op::LessThan => "less_than".to_owned(),
            Op::LessThanOrEqual => "less_than_or_equal".to_owned(),
            Op::Add => "add".to_owned(),
            Op::Subtract => "subtract".to_owned(),
        }
    }
}

/// An expression of a `WHERE` clause or of a projection.
#[derive(Debug, PartialEq)]
pub enum Expr {
    Column { column: Column },
    Literal { literal: Value },
    BinaryOperation { left: Box<Expr>, op: Op, right: Box<Expr> },
    Nested { expr: Box<Expr> },
    FunctionCall { function_name: FunctionName, args: Vec<Expr> },
}

/// The mathematical value of a [`Expr`].
pub ghost enum ExprView {
    Column { column: ColumnView },
    Literal { literal: ValueView },
    BinaryOperation { left: Box<ExprView>, op: Op, right: Box<ExprView> },
    Nested { expr: Box<ExprView> },
    FunctionCall { function_name: FunctionName, args: Seq<ExprView> },
}

/// The mathematical value of an expression.
pub open spec fn expr_view(e: Expr) -> ExprView
    decreases e,
{
    match e {
        Expr::Column { column } => ExprView::Column { column: column@ },
        Expr::Literal { literal } => ExprView::Literal { literal: literal@ },
        Expr::BinaryOperation { left, op, right } => ExprView::BinaryOperation {
            left: Box::new(expr_view(*left)),
            op,
            right: Box::new(expr_view(*right)),
        },
        Expr::Nested { expr } => ExprView::Nested { expr: Box::new(expr_view(*expr)) },
        Expr::FunctionCall { function_name, args } => ExprView::FunctionCall {
            function_name,
            args: Seq::new(
                args@.len(),
                |i: int|
                    if 0 <= i < args@.len() {
                        expr_view(args@[i])
                    } else {
                        ExprView::Literal { literal: ValueView::Null }
                    },
            ),
        },
    }
}

impl View for Expr {
    type V = ExprView;

    open spec fn view(&self) -> ExprView {
        expr_view(*self)
    }
}

/// The views of a vector of expressions, in order.
pub open spec fn exprs_view(exprs: Seq<Expr>) -> Seq<ExprView> {
    Seq::new(exprs.len(), |i: int| exprs[i]@)
}

/// The two columns that a join compares.
#[derive(Debug, PartialEq)]
pub struct JoinOn {
    pub left: Column,
    pub right: Column,
}

/// The mathematical value of a [`JoinOn`].
pub ghost struct JoinOnView {
    pub left: ColumnView,
    pub right: ColumnView,
}

impl View for JoinOn {
    type V = JoinOnView;

    open spec fn view(&self) -> JoinOnView {
        JoinOnView { left: self.left@, right: self.right@ }
    }
}

/// The kinds of join.
#[derive(Debug, PartialEq, Eq, Clone, Copy, Structural)]
pub enum JoinType {
    Inner,
    LeftOuter,
}

/// The direction of a sort key.
#[derive(Debug, PartialEq, Eq, Clone, Copy, Structural)]
pub enum Order {
    Asc,
    Desc,
}

/// One key of an `ORDER BY`.
#[derive(Debug, PartialEq)]
pub struct OrderByExpr {
    pub column: Column,
    pub order: Order,
}

/// The mathematical value of a [`OrderByExpr`].
pub ghost struct OrderByExprView {
    pub column: ColumnView,
    pub order: Order,
}

impl View for OrderByExpr {
    type V = OrderByExprView;

    open spec fn view(&self) -> OrderByExprView {
        OrderByExprView { column: self.column@, order: self.order }
    }
}

/// The views of the keys of an `ORDER BY`, in order.
pub open spec fn order_by_view(keys: Seq<OrderByExpr>) -> Seq<OrderByExprView> {
    Seq::new(keys.len(), |i: int| keys[i]@)
}

/// A table named in a `FROM`.
#[derive(Debug, PartialEq)]
pub struct From {
    pub table_name: TableName,
    pub table_alias: Option<TableAlias>,
}

/// A table with its alias, as a `FROM` or a `JOIN` names it.
pub ghost struct FromView {
    pub table_name: Seq<char>,
    pub table_alias: Option<Seq<char>>,
}

impl View for From {
    type V = FromView;

    open spec fn view(&self) -> FromView {
        FromView { table_name: self.table_name@, table_alias: alias_view(self.table_alias) }
    }
}

/// Rows of `from` that satisfy `filter`.
#[derive(Debug, PartialEq)]
pub struct Filter {
    pub from: Box<Query>,
    pub filter: Expr,
}

/// The `fields` computed over the rows of `from`.
#[derive(Debug, PartialEq)]
pub struct Project {
    pub from: Box<Query>,
    pub fields: Vec<Expr>,
}

/// The rows of `left_from` joined with those of `right_from`.
#[derive(Debug, PartialEq)]
pub struct Join {
    pub join_type: JoinType,
    pub left_from: Box<Query>,
    pub right_from: Box<Query>,
    pub on: JoinOn,
}

/// The first `limit` rows of `from`.
#[derive(Debug, PartialEq)]
pub struct Limit {
    pub from: Box<Query>,
    pub limit: u64,
}

/// The rows of `from` in the order of the keys.
#[derive(Debug, PartialEq)]
pub struct OrderBy {
    pub from: Box<Query>,
    pub order_by_exprs: Vec<OrderByExpr>,
}

/// The logical plan: what a query means, whatever way it is run.
#[derive(Debug, PartialEq)]
pub enum Query {
    From(From),
    Filter(Filter),
    Join(Join),
    Project(Project),
    Limit(Limit),
    OrderBy(OrderBy),
}

/// The mathematical value of a [`Query`].
pub ghost enum QueryView {
    From { table_name: Seq<char>, table_alias: Option<Seq<char>> },
    Filter { from: Box<QueryView>, filter: ExprView },
    Join { join_type: JoinType, left_from: Box<QueryView>, right_from: Box<QueryView>, on: JoinOnView },
    Project { from: Box<QueryView>, fields: Seq<ExprView> },
    Limit { from: Box<QueryView>, limit: u64 },
    OrderBy { from: Box<QueryView>, order_by_exprs: Seq<OrderByExprView> },
}

/// The mathematical value of a logical plan.
pub open spec fn query_view(q: Query) -> QueryView
    decreases q,
{
    match q {
        Query::From(From { table_name, table_alias }) => QueryView::From {
            table_name: table_name@,
            table_alias: alias_view(table_alias),
        },
        Query::Filter(Filter { from, filter }) => QueryView::Filter {
            from: Box::new(query_view(*from)),
            filter: filter@,
        },
        Query::Join(Join { join_type, left_from, right_from, on }) => QueryView::Join {
            join_type,
            left_from: Box::new(query_view(*left_from)),
            right_from: Box::new(query_view(*right_from)),
            on: on@,
        },
        Query::Project(Project { from, fields }) => QueryView::Project {
            from: Box::new(query_view(*from)),
            fields: exprs_view(fields@),
        },
        Query::Limit(Limit { from, limit }) => QueryView::Limit {
            from: Box::new(query_view(*from)),
            limit,
        },
        Query::OrderBy(OrderBy { from, order_by_exprs }) => QueryView::OrderBy {
            from: Box::new(query_view(*from)),
            order_by_exprs: order_by_view(order_by_exprs@),
        },
    }
}

impl View for Query {
    type V = QueryView;

    open spec fn view(&self) -> QueryView {
        query_view(*self)
    }
}

/// A scan of every row of a table.
#[derive(Debug, PartialEq)]
pub struct TableScan {
    pub table_name: TableName,
    pub table_alias: Option<TableAlias>,
}

/// A probe of an index of a table, once for each key of `values`.
#[derive(Debug, PartialEq)]
pub struct IndexScan {
    pub table_name: TableName,
    pub table_alias: Option<TableAlias>,
    pub index: Index,
    pub values: Vec<Vec<Value>>,
}

/// The views of a list of probe keys.
pub open spec fn keys_view(keys: Seq<Vec<Value>>) -> Seq<Seq<ValueView>> {
    Seq::new(keys.len(), |i: int| crate::value::values_view(keys[i]@))
}

/// The physical plan: the operators as they are run.
#[derive(Debug, PartialEq)]
pub enum PhysicalPlan {
    TableScan(TableScan),
    IndexScan(IndexScan),
    Filter { from: Box<PhysicalPlan>, filter: Expr },
    Join { join_type: JoinType, left_from: Box<PhysicalPlan>, right_from: Box<PhysicalPlan>, on: JoinOn },
    Project { from: Box<PhysicalPlan>, fields: Vec<Expr> },
    Limit { from: Box<PhysicalPlan>, limit: u64 },
    OrderBy { from: Box<PhysicalPlan>, order_by_exprs: Vec<OrderByExpr> },
}

/// The mathematical value of a [`PhysicalPlan`].
pub ghost enum PhysicalPlanView {
    TableScan { table_name: Seq<char>, table_alias: Option<Seq<char>> },
    IndexScan {
        table_name: Seq<char>,
        table_alias: Option<Seq<char>>,
        index: IndexView,
        values: Seq<Seq<ValueView>>,
    },
    Filter { from: Box<PhysicalPlanView>, filter: ExprView },
    Join {
        join_type: JoinType,
        left_from: Box<PhysicalPlanView>,
        right_from: Box<PhysicalPlanView>,
        on: JoinOnView,
    },
    Project { from: Box<PhysicalPlanView>, fields: Seq<ExprView> },
    Limit { from: Box<PhysicalPlanView>, limit: u64 },
    OrderBy { from: Box<PhysicalPlanView>, order_by_exprs: Seq<OrderByExprView> },
}

/// The mathematical value of a physical plan.
pub open spec fn physical_plan_view(p: PhysicalPlan) -> PhysicalPlanView
    decreases p,
{
    match p {
        PhysicalPlan::TableScan(TableScan { table_name, table_alias }) => PhysicalPlanView::TableScan {
            table_name: table_name@,
            table_alias: alias_view(table_alias),
        },
        PhysicalPlan::IndexScan(IndexScan { table_name, table_alias, index, values }) => {
            PhysicalPlanView::IndexScan {
                table_name: table_name@,
                table_alias: alias_view(table_alias),
                index: index@,
                values: keys_view(values@),
            }
        },
        PhysicalPlan::Filter { from, filter } => PhysicalPlanView::Filter {
            from: Box::new(physical_plan_view(*from)),
            filter: filter@,
        },
        PhysicalPlan::Join { join_type, left_from, right_from, on } => PhysicalPlanView::Join {
            join_type,
            left_from: Box::new(physical_plan_view(*left_from)),
            right_from: Box::new(physical_plan_view(*right_from)),
            on: on@,
        },
        PhysicalPlan::Project { from, fields } => PhysicalPlanView::Project {
            from: Box::new(physical_plan_view(*from)),
            fields: exprs_view(fields@),
        },
        PhysicalPlan::Limit { from, limit } => PhysicalPlanView::Limit {
            from: Box::new(physical_plan_view(*from)),
            limit,
        },
        PhysicalPlan::OrderBy { from, order_by_exprs } => PhysicalPlanView::OrderBy {
            from: Box::new(physical_plan_view(*from)),
            order_by_exprs: order_by_view(order_by_exprs@),
        },
    }
}

impl View for PhysicalPlan {
    type V = PhysicalPlanView;

    open spec fn view(&self) -> PhysicalPlanView {
        physical_plan_view(*self)
    }
}

/// One column of a schema: a column of a table, or the label of a projected
/// expression that has no column behind it.
#[derive(Debug, PartialEq)]
pub enum SchemaColumn {
    Column(Column),
    Named(String),
}

/// The mathematical value of a [`SchemaColumn`].
pub ghost enum SchemaColumnView {
    Column(ColumnView),
    Named(Seq<char>),
}

impl View for SchemaColumn {
    type V = SchemaColumnView;

    open spec fn view(&self) -> SchemaColumnView {
        match self {
            SchemaColumn::Column(column) => SchemaColumnView::Column(column@),
            SchemaColumn::Named(name) => SchemaColumnView::Named(name@),
        }
    }
}

impl Clone for SchemaColumn {
    fn clone(&self) -> (r: Self)
        ensures
            r == *self,
    {
        match self {
            SchemaColumn::Column(column) => SchemaColumn::Column(column.clone()),
            SchemaColumn::Named(name) => SchemaColumn::Named(name.clone()),
        }
    }
}

/// The key under which a schema column appears in printed output.
pub open spec fn schema_column_text(column: SchemaColumnView) -> Seq<char> {
    match column {
        SchemaColumnView::Column(c) => column_text(c),
        SchemaColumnView::Named(name) => name,
    }
}

impl SchemaColumn {
    /// The column as text: `alias.name`, `name`, or the label.
    pub fn display(&self) -> (r: String)
        ensures
            r@ == schema_column_text(self@),
    {
        match self {
            SchemaColumn::Column(column) => column.display(),
            SchemaColumn::Named(name) => name.clone(),
        }
    }
}

/// The ordered columns of an operator's output.
#[derive(Debug, PartialEq)]
pub struct Schema {
    pub columns: Vec<SchemaColumn>,
}

impl View for Schema {
    type V = Seq<SchemaColumnView>;

    open spec fn view(&self) -> Seq<SchemaColumnView> {
        Seq::new(self.columns@.len(), |i: int| self.columns@[i]@)
    }
}

/// The first position at or after `from` at which `target` stands.
pub open spec fn find_from(columns: Seq<SchemaColumnView>, target: SchemaColumnView, from: int) -> Option<int>
    decreases columns.len() - from,
{
    if from < 0 || from >= columns.len() {
        None
    } else if columns[from] == target {
        Some(from)
    } else {
        find_from(columns, target, from + 1)
    }
}

/// The first position of a schema at which `target` stands.
pub open spec fn first_index_of(columns: Seq<SchemaColumnView>, target: SchemaColumnView) -> Option<int> {
    find_from(columns, target, 0)
}

/// What `find_from` finds is the first match at or after `from`.
pub proof fn lemma_find_from(columns: Seq<SchemaColumnView>, target: SchemaColumnView, from: int)
    requires
        0 <= from,
    ensures
        match find_from(columns, target, from) {
            Some(i) => from <= i < columns.len() && columns[i] == target && forall|j: int|
                from <= j < i ==> columns[j] != target,
            None => forall|j: int| from <= j < columns.len() ==> columns[j] != target,
        },
    decreases columns.len() - from,
{
    if from < columns.len() && columns[from] != target {
        lemma_find_from(columns, target, from + 1);
    }
}

impl Clone for Schema {
    fn clone(&self) -> (r: Self)
        ensures
            r@ == self@,
    {
        let mut columns: Vec<SchemaColumn> = Vec::new();
        let mut i: usize = 0;
        while i < self.columns.len()
            invariant
                i <= self.columns.len(),
                columns@ == self.columns@.take(i as int),
            decreases self.columns.len() - i,
        {
            columns.push(self.columns[i].clone());
            assert(columns@ =~= self.columns@.take(i + 1));
            i += 1;
        }
        assert(columns@ =~= self.columns@);
        Schema { columns }
    }
}

impl Schema {
    fn find(&self, target: Ghost<SchemaColumnView>, column: Option<&Column>, named: Option<&String>) -> (r: Option<usize>)
        requires
            match (column, named) {
                (Some(c), None) => target@ == SchemaColumnView::Column(c@),
                (None, Some(n)) => target@ == SchemaColumnView::Named(n@),
                _ => false,
            },
        ensures
            r is Some <==> first_index_of(self@, target@) is Some,
            r matches Some(i) ==> i < self@.len() && first_index_of(self@, target@) == Some(
                i as int,
            ),
    {
        proof {
            lemma_find_from(self@, target@, 0);
        }
        let mut i: usize = 0;
        while i < self.columns.len()
            invariant
                i <= self.columns.len(),
                first_index_of(self@, target@) == find_from(self@, target@, i as int),
                match (column, named) {
                    (Some(c), None) => target@ == SchemaColumnView::Column(c@),
                    (None, Some(n)) => target@ == SchemaColumnView::Named(n@),
                    _ => false,
                },
            decreases self.columns.len() - i,
        {
            let found = match &self.columns[i] {
                SchemaColumn::Column(c) => match column {
                    Some(wanted) => c.equals(wanted),
                    None => false,
                },
                SchemaColumn::Named(n) => match named {
                    Some(wanted) => *n == *wanted,
                    None => false,
                },
            };
            assert(found == (self@[i as int] == target@));
            if found {
                return Some(i);
            }
            i += 1;
        }
        None
    }

    /// The first position of the schema that holds the column `column`.
    pub fn get_index_for_column(&self, column: &Column) -> (r: Option<usize>)
        ensures
            r is Some <==> first_index_of(self@, SchemaColumnView::Column(column@)) is Some,
            r matches Some(i) ==> i < self@.len() && first_index_of(self@, SchemaColumnView::Column(column@)) == Some(
                i as int,
            ),
    {
        self.find(Ghost(SchemaColumnView::Column(column@)), Some(column), None)
    }

    /// The first position of the schema that holds the label `named`.
    pub fn get_index_for_named(&self, named: &String) -> (r: Option<usize>)
        ensures
            r is Some <==> first_index_of(self@, SchemaColumnView::Named(named@)) is Some,
            r matches Some(i) ==> i < self@.len() && first_index_of(self@, SchemaColumnView::Named(named@)) == Some(
                i as int,
            ),
    {
        self.find(Ghost(SchemaColumnView::Named(named@)), None, Some(named))
    }

    /// Appends the columns of `schema`.
    pub fn extend(&mut self, schema: Schema)
        ensures
            final(self)@ == old(self)@ + schema@,
    {
        let mut schema = schema;
        let ghost before = self@;
        let ghost added = schema@;
        self.columns.append(&mut schema.columns);
        assert(self@ =~= before + added);
    }
}

/// The values of one row, in the order of its schema.
#[derive(Debug, PartialEq)]
pub struct Row {
    pub items: Vec<Value>,
}

impl View for Row {
    type V = Seq<ValueView>;

    open spec fn view(&self) -> Seq<ValueView> {
        crate::value::values_view(self.items@)
    }
}

impl Clone for Row {
    fn clone(&self) -> (r: Self)
        ensures
            r@ == self@,
    {
        Row { items: clone_values(&self.items) }
    }
}

/// Copies a vector of values.
pub fn clone_values(items: &Vec<Value>) -> (r: Vec<Value>)
    ensures
        crate::value::values_view(r@) == crate::value::values_view(items@),
        r@ == items@,
{
    let mut copy: Vec<Value> = Vec::new();
    let mut i: usize = 0;
    while i < items.len()
        invariant
            i <= items.len(),
            copy@ == items@.take(i as int),
        decreases items.len() - i,
    {
        copy.push(items[i].clone());
        assert(copy@ =~= items@.take(i + 1));
        i += 1;
    }
    assert(copy@ =~= items@);
    copy
}

/// The value of a row under a schema column, where the schema has the column
/// and the row reaches that far.
pub open spec fn value_at(row: Seq<ValueView>, schema: Seq<SchemaColumnView>, target: SchemaColumnView) -> Option<ValueView> {
    match first_index_of(schema, target) {
        Some(i) => if i < row.len() {
            Some(row[i])
        } else {
            None
        },
        None => None,
    }
}

impl Row {
    /// The value under the column `column` of `schema`.
    pub fn get_column<'a>(&'a self, column: &Column, schema: &Schema) -> (r: Option<&'a Value>)
        ensures
            match value_at(self@, schema@, SchemaColumnView::Column(column@)) {
                Some(v) => r is Some && r->0@ == v,
                None => r is None,
            },
    {
        assert(self@.len() == self.items@.len());
        let ghost target = SchemaColumnView::Column(column@);
        match schema.get_index_for_column(column) {
            Some(index) => {
                assert(first_index_of(schema@, target) == Some(index as int));
                if index < self.items.len() {
                    assert(self@[index as int] == self.items@[index as int]@);
                    assert(value_at(self@, schema@, target) == Some(self@[index as int]));
                    Some(&self.items[index])
                } else {
                    assert(value_at(self@, schema@, target) is None);
                    None
                }
            },
            None => {
                assert(first_index_of(schema@, target) is None);
                None
            },
        }
    }

    /// The value under the label `named` of `schema`.
    pub fn get_named<'a>(&'a self, named: &String, schema: &Schema) -> (r: Option<&'a Value>)
        ensures
            match value_at(self@, schema@, SchemaColumnView::Named(named@)) {
                Some(v) => r is Some && r->0@ == v,
                None => r is None,
            },
    {
        assert(self@.len() == self.items@.len());
        match schema.get_index_for_named(named) {
            Some(index) => if index < self.items.len() {
                assert(self@[index as int] == self.items@[index as int]@);
                Some(&self.items[index])
            } else {
                None
            },
            None => None,
        }
    }

    /// Appends the values of `row`.
    pub fn extend(&mut self, row: Row)
        ensures
            final(self)@ == old(self)@ + row@,
    {
        let mut row = row;
        let ghost before = self@;
        let ghost added = row@;
        self.items.append(&mut row.items);
        assert(self@ =~= before + added);
    }
}

/// The views of a vector of rows, in order.
pub open spec fn rows_view(rows: Seq<Row>) -> Seq<Seq<ValueView>> {
    Seq::new(rows.len(), |i: int| rows[i]@)
}

/// The number of rows that the operators of a plan have touched. The count
/// stops at `u64::MAX`.
#[derive(Debug, PartialEq)]
pub struct Cost {
    pub rows_processed: u64,
}

/// `n`, held to what a `u64` can count.
pub open spec fn saturate(n: int) -> int {
    if n > u64::MAX {
        u64::MAX as int
    } else {
        n
    }
}

impl View for Cost {
    type V = int;

    open spec fn view(&self) -> int {
        self.rows_processed as int
    }
}

impl Default for Cost {
    fn default() -> (r: Self)
        ensures
            r@ == 0,
    {
        Cost::new()
    }
}

impl Cost {
    /// No row touched so far.
    pub fn new() -> (r: Self)
        ensures
            r@ == 0,
    {
        Cost { rows_processed: 0 }
    }

    /// Counts one more row.
    pub fn increment_rows_processed(&mut self)
        ensures
            final(self)@ == saturate(old(self)@ + 1),
    {
        self.rows_processed = self.rows_processed.saturating_add(1);
    }

    /// Counts `rows` more rows.
    pub fn add_rows(&mut self, rows: usize)
        ensures
            final(self)@ == saturate(old(self)@ + rows),
    {
        self.rows_processed = self.rows_processed.saturating_add(rows as u64);
    }

    /// Adds the count of `cost`.
    pub fn extend(&mut self, cost: &Cost)
        ensures
            final(self)@ == saturate(old(self)@ + cost@),
    {
        self.rows_processed = self.rows_processed.saturating_add(cost.rows_processed);
    }
}

/// What an operator hands to its parent: the schema, the rows and the cost
/// so far.
#[derive(Debug, PartialEq)]
pub struct QueryStep {
    pub schema: Schema,
    pub rows: Vec<Row>,
    pub cost: Cost,
}

/// The mathematical value of a [`QueryStep`].
pub ghost struct StepView {
    pub schema: Seq<SchemaColumnView>,
    pub rows: Seq<Seq<ValueView>>,
    pub cost: int,
}

impl View for QueryStep {
    type V = StepView;

    open spec fn view(&self) -> StepView {
        StepView { schema: self.schema@, rows: rows_view(self.rows@), cost: self.cost@ }
    }
}

impl StepView {
    /// Every row is as long as the schema.
    pub open spec fn well_formed(self) -> bool {
        forall|i: int| 0 <= i < self.rows.len() ==> (#[trigger] self.rows[i]).len() == self.schema.len()
    }

    /// The same step with its cost held to what a `u64` can count.
    pub open spec fn saturated(self) -> StepView {
        StepView { cost: saturate(self.cost), ..self }
    }
}

/// One rendered row: for each schema column its key and its value.
pub type OutputRow = Vec<(String, Value)>;

/// The entry of a rendered row for the schema column at `j`: the key of the
/// column, and the value at the first position of the schema that holds
/// the same column.
pub open spec fn output_entry(schema: Seq<SchemaColumnView>, row: Seq<ValueView>, j: int) -> (
    Seq<char>,
    ValueView,
) {
    (schema_column_text(schema[j]), row[first_index_of(schema, schema[j])->0])
}

/// The views of the entries of a rendered row.
pub open spec fn output_row_view(entries: Seq<(String, Value)>) -> Seq<(Seq<char>, ValueView)> {
    Seq::new(entries.len(), |j: int| (entries[j].0@, entries[j].1@))
}

/// A column of a schema is found in the schema, at its own position or
/// before it.
pub proof fn lemma_own_column_found(schema: Seq<SchemaColumnView>, j: int, from: int)
    requires
        0 <= from <= j < schema.len(),
    ensures
        find_from(schema, schema[j], from) is Some,
        from <= find_from(schema, schema[j], from)->0 <= j,
    decreases j - from,
{
    if schema[from] != schema[j] {
        lemma_own_column_found(schema, j, from + 1);
    }
}

impl QueryStep {
    /// Renders the rows: each row becomes the list of its entries, one for
    /// each schema column, in the order of the schema. The key of an entry
    /// is the text of the column; where two columns of the schema are the
    /// same, both entries carry the value of the first.
    pub fn to_json(&self) -> (r: Vec<OutputRow>)
        requires
            self@.well_formed(),
        ensures
            r@.len() == self@.rows.len(),
            forall|i: int|
                0 <= i < r@.len() ==> output_row_view((#[trigger] r@[i])@) == Seq::new(
                    self@.schema.len(),
                    |j: int| output_entry(self@.schema, self@.rows[i], j),
                ),
    {
        let mut output_rows: Vec<OutputRow> = Vec::new();
        let mut i: usize = 0;
        while i < self.rows.len()
            invariant
                i <= self.rows.len(),
                self@.well_formed(),
                output_rows@.len() == i,
                forall|k: int|
                    0 <= k < i ==> output_row_view((#[trigger] output_rows@[k])@) == Seq::new(
                        self@.schema.len(),
                        |j: int| output_entry(self@.schema, self@.rows[k], j),
                    ),
            decreases self.rows.len() - i,
        {
            let row = &self.rows[i];
            assert(self@.rows[i as int] == row@);
            assert(row@.len() == self@.schema.len());
            let mut output_row: OutputRow = Vec::new();
            let mut j: usize = 0;
            while j < self.schema.columns.len()
                invariant
                    j <= self.schema.columns.len(),
                    self.schema@.len() == self.schema.columns@.len(),
                    row@.len() == self.schema@.len(),
                    output_row@.len() == j,
                    forall|k: int|
                        0 <= k < j ==> ((#[trigger] output_row@[k]).0@, output_row@[k].1@)
                            == output_entry(self.schema@, row@, k),
                decreases self.schema.columns.len() - j,
            {
                let column = &self.schema.columns[j];
                assert(self.schema@[j as int] == column@);
                proof {
                    lemma_own_column_found(self.schema@, j as int, 0);
                }
                let found = match column {
                    SchemaColumn::Column(column_name) => row.get_column(column_name, &self.schema),
                    SchemaColumn::Named(name) => row.get_named(name, &self.schema),
                };
                let value = match found {
                    Some(value) => value.clone(),
                    None => {
                        assert(false);
                        Value::Null
                    },
                };
                output_row.push((column.display(), value));
                j += 1;
            }
            assert(output_row_view(output_row@) =~= Seq::new(
                self@.schema.len(),
                |j: int| output_entry(self@.schema, self@.rows[i as int], j),
            ));
            output_rows.push(output_row);
            i += 1;
        }
        output_rows
    }
}

} // verus!
