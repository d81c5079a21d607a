//! The adapter from a parsed SQL statement to the logical plan.
//!
//! The statement comes as a tree of plain values that holds what the
//! adapter reads of a parsed statement. The adapter accepts a `SELECT` over
//! one table, with joins, a filter, a projection, an order and a limit, and
//! refuses everything else with an error of its own.

use vstd::prelude::*;
use crate::types::{
    exprs_view, order_by_view, AggregateFunctionName, Column, ColumnView, Expr, ExprView, Filter,
    From, FromView, FunctionName, Join, JoinOn, JoinOnView, JoinType, Limit, Op, Order, OrderBy,
    OrderByExpr, OrderByExprView, Project, Query, QueryView, TableAlias, TableName,
};
use crate::value::{Value, ValueView};

verus! {

/// A literal of a parsed statement.
#[derive(Debug, PartialEq)]
pub enum SqlValue {
    /// A string in single quotes, without the quotes.
    SingleQuotedString(String),
    /// Any other literal, as the statement's text prints it.
    Other { text: String },
}

/// A binary operator of a parsed statement.
#[derive(Debug, PartialEq, Eq, Clone, Copy)]
pub enum SqlBinaryOperator {
    Eq,
    Gt,
    GtEq,
    Lt,
    LtEq,
    Plus,
    Minus,
    Other,
}

/// An argument of a function call.
#[derive(Debug, PartialEq)]
pub enum SqlFunctionArg {
    /// An unnamed argument that is an expression.
    Expr(SqlExpr),
    /// A named argument or a wildcard.
    Other,
}

/// An expression of a parsed statement.
#[derive(Debug, PartialEq)]
pub enum SqlExpr {
    BinaryOp { left: Box<SqlExpr>, op: SqlBinaryOperator, right: Box<SqlExpr> },
    Value(SqlValue),
    Identifier(String),
    /// An identifier of several parts, such as `alias.column`.
    CompoundIdentifier(Vec<String>),
    Nested(Box<SqlExpr>),
    /// A function call. `plain` says that the call is a name and a list of
    /// arguments and nothing more; `text` is the call as the statement's
    /// text prints it.
    Function { name: String, args: Vec<SqlFunctionArg>, plain: bool, text: String },
    /// Any other expression, as the statement's text prints it.
    Other { text: String },
}

/// A part of the name of a table.
#[derive(Debug, PartialEq)]
pub enum SqlNamePart {
    Identifier(String),
    Other,
}

/// The alias of a table, and how many column names it declares.
#[derive(Debug, PartialEq)]
pub struct SqlTableAlias {
    pub name: String,
    pub columns: usize,
}

/// What a `FROM` or a `JOIN` reads.
#[derive(Debug, PartialEq)]
pub enum SqlTableFactor {
    Table { name: Vec<SqlNamePart>, alias: Option<SqlTableAlias> },
    Other,
}

/// The condition of a join.
#[derive(Debug, PartialEq)]
pub enum SqlJoinConstraint {
    On(SqlExpr),
    Other,
}

/// The kind of a join, with its condition.
#[derive(Debug, PartialEq)]
pub enum SqlJoinOperator {
    Join(SqlJoinConstraint),
    Inner(SqlJoinConstraint),
    LeftOuter(SqlJoinConstraint),
    Other,
}

/// One `JOIN` clause.
#[derive(Debug, PartialEq)]
pub struct SqlJoin {
    pub relation: SqlTableFactor,
    pub join_operator: SqlJoinOperator,
}

/// A table of the `FROM` clause with the joins that follow it.
#[derive(Debug, PartialEq)]
pub struct SqlTableWithJoins {
    pub relation: SqlTableFactor,
    pub joins: Vec<SqlJoin>,
}

/// An item of the list behind `SELECT`.
#[derive(Debug, PartialEq)]
pub enum SqlSelectItem {
    UnnamedExpr(SqlExpr),
    Wildcard,
    Other,
}

/// A `GROUP BY`: how many expressions and modifiers it holds.
#[derive(Debug, PartialEq, Eq, Clone, Copy)]
pub enum SqlGroupBy {
    All { modifiers: usize },
    Expressions { expressions: usize, modifiers: usize },
}

/// A `SELECT`. A flag says that the clause of its name is there.
#[derive(Debug, PartialEq)]
pub struct SqlSelect {
    pub distinct: bool,
    pub projection: Vec<SqlSelectItem>,
    pub into: bool,
    pub from: Vec<SqlTableWithJoins>,
    pub lateral_views: bool,
    pub selection: Option<SqlExpr>,
    pub group_by: SqlGroupBy,
    pub sort_by: bool,
    pub having: bool,
    pub named_window: bool,
    pub qualify: bool,
}

/// The body of a query.
#[derive(Debug, PartialEq)]
pub enum SqlSetExpr {
    Select(SqlSelect),
    Other,
}

/// The direction of a key of an `ORDER BY`.
#[derive(Debug, PartialEq, Eq, Clone, Copy, Structural)]
pub enum SqlOrderBySort {
    Unspecified,
    Asc,
    Desc,
    Other,
}

/// One key of an `ORDER BY`.
#[derive(Debug, PartialEq)]
pub struct SqlOrderByExpr {
    pub expr: SqlExpr,
    pub sort: SqlOrderBySort,
    pub nulls_first: Option<bool>,
}

/// An `ORDER BY`.
#[derive(Debug, PartialEq)]
pub enum SqlOrderBy {
    Expressions(Vec<SqlOrderByExpr>),
    Other,
}

/// A `LIMIT` clause.
#[derive(Debug, PartialEq)]
pub enum SqlLimitClause {
    LimitOffset { limit: Option<SqlExpr>, offset: bool, limit_by: bool },
    OffsetCommaLimit,
}

/// A query. A flag says that the clause of its name is there.
#[derive(Debug, PartialEq)]
pub struct SqlQuery {
    pub with: bool,
    pub body: SqlSetExpr,
    pub order_by: Option<SqlOrderBy>,
    pub limit_clause: Option<SqlLimitClause>,
    pub fetch: bool,
    pub locks: bool,
    pub for_clause: bool,
    pub settings: bool,
    pub format_clause: bool,
    pub pipe_operators: bool,
}

/// A statement.
#[derive(Debug, PartialEq)]
pub enum SqlStatement {
    Query(SqlQuery),
    Other,
}

/// An `ORDER BY` that the adapter refuses.
#[derive(Debug, PartialEq, Eq, Clone, Copy, Structural)]
pub enum OrderByParseError {
    UnsupportedOrderBy,
    NullsFirstNotSupported,
}

/// A join that the adapter refuses.
#[derive(Debug, PartialEq, Eq, Clone, Copy, Structural)]
pub enum JoinParseError {
    UnsupportedJoinOperator,
    UnsupportedJoinConstraint,
}

/// serde_json's error type, of which nothing is known but that it is one.
#[verifier::external_type_specification]
#[verifier::external_body]
pub struct ExJsonError(serde_json::Error);

/// Why a statement is refused.
#[derive(Debug)]
pub enum ParseError {
    NoStatements,
    OnlyQueryIsSupported,
    WithNotSupported,
    OffsetNotSupported,
    OffsetCommaLimitNotSupported,
    LimitByNotSupported,
    LimitMustBeInt,
    FetchNotSupported,
    LocksNotSupported,
    ForClauseNotSupported,
    SettingsNotSupported,
    FormatNotSupported,
    PipeOperatorsNotSupported,
    OnlySelectIsSupported,
    IntoNotSupported,
    EmptyFromNotSupported,
    DistinctNotSupported,
    TableOnlyInFrom,
    EmptyObjectName,
    UnknownExprPart { expr: String },
    GroupByNotSupported,
    SortByNotSupported,
    HavingNotSupported,
    LateralViewsNotSupported,
    QualifyNotSupported,
    WindowNotSupported,
    ExpectedIdent,
    ExpectedTwoIdents,
    UnsupportedProjectionField,
    TableAliasColumnsNotSupported,
    Join(JoinParseError),
    OrderBy(OrderByParseError),
    ExpectedValue(String),
    SerdeJsonError(String, serde_json::Error),
    UnknownOperator,
}

/// The mathematical value of a [`ParseError`].
pub ghost enum ParseErrorView {
    NoStatements,
    OnlyQueryIsSupported,
    WithNotSupported,
    OffsetNotSupported,
    OffsetCommaLimitNotSupported,
    LimitByNotSupported,
    LimitMustBeInt,
    FetchNotSupported,
    LocksNotSupported,
    ForClauseNotSupported,
    SettingsNotSupported,
    FormatNotSupported,
    PipeOperatorsNotSupported,
    OnlySelectIsSupported,
    IntoNotSupported,
    EmptyFromNotSupported,
    DistinctNotSupported,
    TableOnlyInFrom,
    EmptyObjectName,
    UnknownExprPart { expr: Seq<char> },
    GroupByNotSupported,
    SortByNotSupported,
    HavingNotSupported,
    LateralViewsNotSupported,
    QualifyNotSupported,
    WindowNotSupported,
    ExpectedIdent,
    ExpectedTwoIdents,
    UnsupportedProjectionField,
    TableAliasColumnsNotSupported,
    Join(JoinParseError),
    OrderBy(OrderByParseError),
    ExpectedValue(Seq<char>),
    SerdeJsonError(Seq<char>),
    UnknownOperator,
}

impl View for ParseError {
    type V = ParseErrorView;

    open spec fn view(&self) -> ParseErrorView {
        match self {
            ParseError::NoStatements => ParseErrorView::NoStatements,
            ParseError::OnlyQueryIsSupported => ParseErrorView::OnlyQueryIsSupported,
            ParseError::WithNotSupported => ParseErrorView::WithNotSupported,
            ParseError::OffsetNotSupported => ParseErrorView::OffsetNotSupported,
            ParseError::OffsetCommaLimitNotSupported => ParseErrorView::OffsetCommaLimitNotSupported,
            ParseError::LimitByNotSupported => ParseErrorView::LimitByNotSupported,
            ParseError::LimitMustBeInt => ParseErrorView::LimitMustBeInt,
            ParseError::FetchNotSupported => ParseErrorView::FetchNotSupported,
            ParseError::LocksNotSupported => ParseErrorView::LocksNotSupported,
            ParseError::ForClauseNotSupported => ParseErrorView::ForClauseNotSupported,
            ParseError::SettingsNotSupported => ParseErrorView::SettingsNotSupported,
            ParseError::FormatNotSupported => ParseErrorView::FormatNotSupported,
            ParseError::PipeOperatorsNotSupported => ParseErrorView::PipeOperatorsNotSupported,
            ParseError::OnlySelectIsSupported => ParseErrorView::OnlySelectIsSupported,
            ParseError::IntoNotSupported => ParseErrorView::IntoNotSupported,
            ParseError::EmptyFromNotSupported => ParseErrorView::EmptyFromNotSupported,
            ParseError::DistinctNotSupported => ParseErrorView::DistinctNotSupported,
            ParseError::TableOnlyInFrom => ParseErrorView::TableOnlyInFrom,
            ParseError::EmptyObjectName => ParseErrorView::EmptyObjectName,
            ParseError::UnknownExprPart { expr } => ParseErrorView::UnknownExprPart { expr: expr@ },
            ParseError::GroupByNotSupported => ParseErrorView::GroupByNotSupported,
            ParseError::SortByNotSupported => ParseErrorView::SortByNotSupported,
            ParseError::HavingNotSupported => ParseErrorView::HavingNotSupported,
            ParseError::LateralViewsNotSupported => ParseErrorView::LateralViewsNotSupported,
            ParseError::QualifyNotSupported => ParseErrorView::QualifyNotSupported,
            ParseError::WindowNotSupported => ParseErrorView::WindowNotSupported,
            ParseError::ExpectedIdent => ParseErrorView::ExpectedIdent,
            ParseError::ExpectedTwoIdents => ParseErrorView::ExpectedTwoIdents,
            ParseError::UnsupportedProjectionField => ParseErrorView::UnsupportedProjectionField,
            ParseError::TableAliasColumnsNotSupported => ParseErrorView::TableAliasColumnsNotSupported,
            ParseError::Join(e) => ParseErrorView::Join(*e),
            ParseError::OrderBy(e) => ParseErrorView::OrderBy(*e),
            ParseError::ExpectedValue(text) => ParseErrorView::ExpectedValue(text@),
            ParseError::SerdeJsonError(text, _) => ParseErrorView::SerdeJsonError(text@),
            ParseError::UnknownOperator => ParseErrorView::UnknownOperator,
        }
    }
}

/// What serde_json reads from a text: `None` where the text is no JSON,
/// `Some(None)` where it is an array or an object, and else the scalar that
/// it is; a number that is no 64-bit integer is a float.
pub uninterp spec fn json_scalar(text: Seq<char>) -> Option<Option<ValueView>>;

/// The view of a scalar that may be missing.
pub open spec fn scalar_view(value: Option<Value>) -> Option<ValueView> {
    match value {
        Some(v) => Some(v@),
        None => None,
    }
}

/// serde_json's `from_str` at the type `serde_json::Value`. A scalar is
/// handed on as the value that it is: a number through `as_i64` where that
/// gives one, else through `as_f64` as the bits of the float. An array or
/// an object gives `Ok(None)`, and a text that is no JSON the error of
/// serde_json.
#[verifier::external_body]
fn read_json_scalar(text: &str) -> (r: Result<Option<Value>, serde_json::Error>)
    ensures
        match r {
            Ok(value) => json_scalar(text@) == Some(scalar_view(value)),
            Err(_) => json_scalar(text@) is None,
        },
{
    match serde_json::from_str::<serde_json::Value>(text)? {
        serde_json::Value::Null => Ok(Some(Value::Null)),
        serde_json::Value::Bool(b) => Ok(Some(Value::Bool(b))),
        serde_json::Value::Number(n) => Ok(
            n.as_i64().map(Value::Int).or(n.as_f64().map(|f| Value::Float(f.to_bits()))),
        ),
        serde_json::Value::String(s) => Ok(Some(Value::Str(s))),
        _ => Ok(None),
    }
}

/// The literal that a text stands for, given what serde_json read from it.
pub open spec fn literal_from_scalar(text: Seq<char>, read: Option<Option<ValueView>>) -> Result<
    ValueView,
    ParseErrorView,
> {
    match read {
        Some(Some(value)) => Ok(value),
        Some(None) => Err(ParseErrorView::ExpectedValue(text)),
        None => Err(ParseErrorView::SerdeJsonError(text)),
    }
}

/// The value of a literal: a string in single quotes is the string, any
/// other literal is what its text is as JSON.
pub open spec fn value_from_literal_spec(value: SqlValue) -> Result<ValueView, ParseErrorView> {
    match value {
        SqlValue::SingleQuotedString(s) => Ok(ValueView::Str(s@)),
        SqlValue::Other { text } => literal_from_scalar(text@, json_scalar(text@)),
    }
}

/// Whether `r` is the exec form of the outcome `expected`.
pub open spec fn is_value(r: Result<Value, ParseError>, expected: Result<ValueView, ParseErrorView>) -> bool {
    match r {
        Ok(v) => expected == Ok::<ValueView, ParseErrorView>(v@),
        Err(e) => expected == Err::<ValueView, ParseErrorView>(e@),
    }
}

/// The view of what was read from a text.
pub open spec fn read_view(read: Result<Option<Value>, serde_json::Error>) -> Option<Option<ValueView>> {
    match read {
        Ok(value) => Some(scalar_view(value)),
        Err(_) => None,
    }
}

/// The literal that the text `text` stands for, given what was read from
/// it: the scalar, or an error for a text that is no JSON or no scalar.
pub fn literal_from_read(text: &String, read: Result<Option<Value>, serde_json::Error>) -> (r: Result<
    Value,
    ParseError,
>)
    ensures
        is_value(r, literal_from_scalar(text@, read_view(read))),
{
    match read {
        Ok(Some(value)) => Ok(value),
        Ok(None) => Err(ParseError::ExpectedValue(text.clone())),
        Err(e) => Err(ParseError::SerdeJsonError(text.clone(), e)),
    }
}

/// The value of a literal.
pub fn value_from_literal(value: &SqlValue) -> (r: Result<Value, ParseError>)
    ensures
        is_value(r, value_from_literal_spec(*value)),
{
    match value {
        SqlValue::SingleQuotedString(s) => Ok(Value::Str(s.clone())),
        SqlValue::Other { text } => literal_from_read(text, read_json_scalar(text.as_str())),
    }
}

/// The value of an expression that must be a literal.
pub open spec fn value_from_selection_spec(expr: SqlExpr) -> Result<ValueView, ParseErrorView> {
    match expr {
        SqlExpr::Value(value) => value_from_literal_spec(value),
        other => Err(ParseErrorView::ExpectedValue(expr_text(other))),
    }
}

/// How an expression that is no literal is named in an error: by its text
/// where it carries one.
pub open spec fn expr_text(expr: SqlExpr) -> Seq<char> {
    match expr {
        SqlExpr::Identifier(name) => name@,
        SqlExpr::Function { text, .. } => text@,
        SqlExpr::Other { text } => text@,
        _ => Seq::empty(),
    }
}

/// The value of an expression that must be a literal.
pub fn value_from_selection(expr: &SqlExpr) -> (r: Result<Value, ParseError>)
    ensures
        is_value(r, value_from_selection_spec(*expr)),
{
    match expr {
        SqlExpr::Value(value) => value_from_literal(value),
        SqlExpr::Identifier(name) => Err(ParseError::ExpectedValue(name.clone())),
        SqlExpr::Function { text, .. } => Err(ParseError::ExpectedValue(text.clone())),
        SqlExpr::Other { text } => Err(ParseError::ExpectedValue(text.clone())),
        _ => Err(ParseError::ExpectedValue(String::new())),
    }
}

/// The column that an expression names: a bare identifier, or an
/// identifier of exactly two parts, the alias and the name.
pub open spec fn identifier_from_selection_spec(expr: SqlExpr) -> Result<ColumnView, ParseErrorView> {
    match expr {
        SqlExpr::Identifier(name) => Ok(ColumnView { name: name@, table_alias: None }),
        SqlExpr::CompoundIdentifier(parts) => if parts@.len() == 2 {
            Ok(ColumnView { name: parts@[1]@, table_alias: Some(parts@[0]@) })
        } else {
            Err(ParseErrorView::ExpectedTwoIdents)
        },
        _ => Err(ParseErrorView::ExpectedIdent),
    }
}

/// Whether `r` is the exec form of the outcome `expected`.
pub open spec fn is_column(r: Result<Column, ParseError>, expected: Result<ColumnView, ParseErrorView>) -> bool {
    match r {
        Ok(v) => expected == Ok::<ColumnView, ParseErrorView>(v@),
        Err(e) => expected == Err::<ColumnView, ParseErrorView>(e@),
    }
}

/// The column that an expression names.
pub fn identifier_from_selection(expr: &SqlExpr) -> (r: Result<Column, ParseError>)
    ensures
        is_column(r, identifier_from_selection_spec(*expr)),
{
    match expr {
        SqlExpr::Identifier(name) => Ok(Column { name: name.clone(), table_alias: None }),
        SqlExpr::CompoundIdentifier(parts) => {
            if parts.len() == 2 {
                Ok(
                    Column {
                        name: parts[1].clone(),
                        table_alias: Some(TableAlias(parts[0].clone())),
                    },
                )
            } else {
                Err(ParseError::ExpectedTwoIdents)
            }
        },
        _ => Err(ParseError::ExpectedIdent),
    }
}

/// The operator of the engine for an operator of the statement.
pub open spec fn from_binary_operator_spec(op: SqlBinaryOperator) -> Result<Op, ParseErrorView> {
    match op {
        SqlBinaryOperator::Eq => Ok(Op::Equals),
        SqlBinaryOperator::Gt => Ok(Op::GreaterThan),
        SqlBinaryOperator::GtEq => Ok(Op::GreaterThanOrEqual),
        SqlBinaryOperator::Lt => Ok(Op::LessThan),
        SqlBinaryOperator::LtEq => Ok(Op::LessThanOrEqual),
        SqlBinaryOperator::Plus => Ok(Op::Add),
        SqlBinaryOperator::Minus => Ok(Op::Subtract),
        SqlBinaryOperator::Other => Err(ParseErrorView::UnknownOperator),
    }
}

/// The operator of the engine for an operator of the statement.
pub fn from_binary_operator(op: &SqlBinaryOperator) -> (r: Result<Op, ParseError>)
    ensures
        match r {
            Ok(v) => from_binary_operator_spec(*op) == Ok::<Op, ParseErrorView>(v),
            Err(e) => from_binary_operator_spec(*op) == Err::<Op, ParseErrorView>(e@),
        },
{
    match op {
        SqlBinaryOperator::Eq => Ok(Op::Equals),
        SqlBinaryOperator::Gt => Ok(Op::GreaterThan),
        SqlBinaryOperator::GtEq => Ok(Op::GreaterThanOrEqual),
        SqlBinaryOperator::Lt => Ok(Op::LessThan),
        SqlBinaryOperator::LtEq => Ok(Op::LessThanOrEqual),
        SqlBinaryOperator::Plus => Ok(Op::Add),
        SqlBinaryOperator::Minus => Ok(Op::Subtract),
        SqlBinaryOperator::Other => Err(ParseError::UnknownOperator),
    }
}

/// Whether a function name is that of the sum.
pub open spec fn names_sum(name: Seq<char>) -> bool {
    name == "sum"@ || name == "SUM"@
}

/// The expression of the engine for an expression of the statement.
///
/// Operators, literals, identifiers and brackets carry over; a plain call
/// of `sum` becomes the aggregate; anything else is refused under its text.
/// In an operation the left side is read first, then the operator, then the
/// right side.
pub open spec fn from_selection_spec(expr: SqlExpr) -> Result<ExprView, ParseErrorView>
    decreases expr, 0nat,
{
    match expr {
        SqlExpr::BinaryOp { left, op, right } => match from_selection_spec(*left) {
            Err(e) => Err(e),
            Ok(l) => match from_binary_operator_spec(op) {
                Err(e) => Err(e),
                Ok(o) => match from_selection_spec(*right) {
                    Err(e) => Err(e),
                    Ok(r) => Ok(
                        ExprView::BinaryOperation { left: Box::new(l), op: o, right: Box::new(r) },
                    ),
                },
            },
        },
        SqlExpr::Value(value) => match value_from_literal_spec(value) {
            Err(e) => Err(e),
            Ok(literal) => Ok(ExprView::Literal { literal }),
        },
        SqlExpr::Identifier(_) => match identifier_from_selection_spec(expr) {
            Err(e) => Err(e),
            Ok(column) => Ok(ExprView::Column { column }),
        },
        SqlExpr::CompoundIdentifier(_) => match identifier_from_selection_spec(expr) {
            Err(e) => Err(e),
            Ok(column) => Ok(ExprView::Column { column }),
        },
        SqlExpr::Nested(inner) => match from_selection_spec(*inner) {
            Err(e) => Err(e),
            Ok(e) => Ok(ExprView::Nested { expr: Box::new(e) }),
        },
        SqlExpr::Function { name, args, plain, text } => if plain && names_sum(name@) {
            match from_arguments_spec(args@, text@, args@.len()) {
                Err(e) => Err(e),
                Ok(arguments) => Ok(
                    ExprView::FunctionCall {
                        function_name: FunctionName::Aggregate(AggregateFunctionName::Sum),
                        args: arguments,
                    },
                ),
            }
        } else {
            Err(ParseErrorView::UnknownExprPart { expr: text@ })
        },
        SqlExpr::Other { text } => Err(ParseErrorView::UnknownExprPart { expr: text@ }),
    }
}

/// The first `n` arguments of a call; the first that fails decides. An
/// argument that is no expression is refused under the text of the call.
pub open spec fn from_arguments_spec(args: Seq<SqlFunctionArg>, text: Seq<char>, n: nat) -> Result<
    Seq<ExprView>,
    ParseErrorView,
>
    decreases args, n,
{
    if n == 0 || n > args.len() {
        Ok(Seq::empty())
    } else {
        match from_arguments_spec(args, text, (n - 1) as nat) {
            Err(e) => Err(e),
            Ok(earlier) => match args[n - 1] {
                SqlFunctionArg::Expr(e) => match from_selection_spec(e) {
                    Err(e) => Err(e),
                    Ok(argument) => Ok(earlier.push(argument)),
                },
                SqlFunctionArg::Other => Err(ParseErrorView::UnknownExprPart { expr: text }),
            },
        }
    }
}

/// Once an argument has failed, more arguments fail in the same way.
pub proof fn lemma_arguments_error_stays(args: Seq<SqlFunctionArg>, text: Seq<char>, failed: nat, n: nat)
    requires
        from_arguments_spec(args, text, failed) is Err,
        failed <= n <= args.len(),
    ensures
        from_arguments_spec(args, text, n) == from_arguments_spec(args, text, failed),
    decreases n,
{
    if failed < n {
        lemma_arguments_error_stays(args, text, failed, (n - 1) as nat);
    }
}

/// Whether `r` is the exec form of the outcome `expected`.
pub open spec fn is_expr(r: Result<Expr, ParseError>, expected: Result<ExprView, ParseErrorView>) -> bool {
    match r {
        Ok(v) => expected == Ok::<ExprView, ParseErrorView>(v@),
        Err(e) => expected == Err::<ExprView, ParseErrorView>(e@),
    }
}

fn is_sum(name: &String) -> (r: bool)
    ensures
        r == names_sum(name@),
{
    let lower = "sum".to_owned();
    let upper = "SUM".to_owned();
    *name == lower || *name == upper
}

fn from_arguments(args: &Vec<SqlFunctionArg>, text: &String) -> (r: Result<Vec<Expr>, ParseError>)
    ensures
        match r {
            Ok(v) => from_arguments_spec(args@, text@, args@.len()) == Ok::<
                Seq<ExprView>,
                ParseErrorView,
            >(exprs_view(v@)),
            Err(e) => from_arguments_spec(args@, text@, args@.len()) == Err::<
                Seq<ExprView>,
                ParseErrorView,
            >(e@),
        },
    decreases args, 0nat,
{
    let mut arguments: Vec<Expr> = Vec::new();
    let mut i: usize = 0;
    while i < args.len()
        invariant
            i <= args.len(),
            arguments@.len() == i,
            from_arguments_spec(args@, text@, i as nat) is Ok,
            from_arguments_spec(args@, text@, i as nat)->Ok_0.len() == i,
            forall|k: int|
                0 <= k < i ==> (#[trigger] arguments@[k])@ == from_arguments_spec(
                    args@,
                    text@,
                    i as nat,
                )->Ok_0[k],
        decreases args.len() - i,
    {
        let argument = match &args[i] {
            SqlFunctionArg::Expr(e) => from_selection(e),
            SqlFunctionArg::Other => Err(ParseError::UnknownExprPart { expr: text.clone() }),
        };
        match argument {
            Ok(argument) => {
                arguments.push(argument);
            },
            Err(e) => {
                proof {
                    lemma_arguments_error_stays(args@, text@, (i + 1) as nat, args@.len());
                }
                return Err(e);
            },
        }
        i += 1;
    }
    assert(exprs_view(arguments@) =~= from_arguments_spec(args@, text@, args@.len())->Ok_0);
    Ok(arguments)
}

/// The expression of the engine for an expression of the statement.
pub fn from_selection(expr: &SqlExpr) -> (r: Result<Expr, ParseError>)
    ensures
        is_expr(r, from_selection_spec(*expr)),
    decreases expr, 1nat,
{
    match expr {
        SqlExpr::BinaryOp { left, op, right } => {
            let left = match from_selection(left) {
                Ok(left) => left,
                Err(e) => {
                    return Err(e);
                },
            };
            let op = match from_binary_operator(op) {
                Ok(op) => op,
                Err(e) => {
                    return Err(e);
                },
            };
            let right = match from_selection(right) {
                Ok(right) => right,
                Err(e) => {
                    return Err(e);
                },
            };
            Ok(Expr::BinaryOperation { left: Box::new(left), op, right: Box::new(right) })
        },
        SqlExpr::Value(value) => match value_from_literal(value) {
            Ok(literal) => Ok(Expr::Literal { literal }),
            Err(e) => Err(e),
        },
        SqlExpr::Identifier(_) => match identifier_from_selection(expr) {
            Ok(column) => Ok(Expr::Column { column }),
            Err(e) => Err(e),
        },
        SqlExpr::CompoundIdentifier(_) => match identifier_from_selection(expr) {
            Ok(column) => Ok(Expr::Column { column }),
            Err(e) => Err(e),
        },
        SqlExpr::Nested(inner) => match from_selection(inner) {
            Ok(e) => Ok(Expr::Nested { expr: Box::new(e) }),
            Err(e) => Err(e),
        },
        SqlExpr::Function { name, args, plain, text } => {
            if *plain && is_sum(name) {
                match from_arguments(args, text) {
                    Ok(arguments) => {
                        let call = Expr::FunctionCall {
                            function_name: FunctionName::Aggregate(AggregateFunctionName::Sum),
                            args: arguments,
                        };
                        assert(call@->FunctionCall_args =~= exprs_view(arguments@));
                        Ok(call)
                    },
                    Err(e) => Err(e),
                }
            } else {
                Err(ParseError::UnknownExprPart { expr: text.clone() })
            }
        },
        SqlExpr::Other { text } => Err(ParseError::UnknownExprPart { expr: text.clone() }),
    }
}

/// The name of a table: the first part of its name, which must be an
/// identifier.
pub open spec fn table_name_from_object_name_spec(name: Seq<SqlNamePart>) -> Result<Seq<char>, ParseErrorView> {
    if name.len() == 0 {
        Err(ParseErrorView::EmptyObjectName)
    } else {
        match name[0] {
            SqlNamePart::Identifier(part) => Ok(part@),
            SqlNamePart::Other => Err(ParseErrorView::ExpectedIdent),
        }
    }
}

/// The name of a table.
pub fn table_name_from_object_name(object_name: &Vec<SqlNamePart>) -> (r: Result<TableName, ParseError>)
    ensures
        match r {
            Ok(v) => table_name_from_object_name_spec(object_name@) == Ok::<Seq<char>, ParseErrorView>(
                v@,
            ),
            Err(e) => table_name_from_object_name_spec(object_name@) == Err::<
                Seq<char>,
                ParseErrorView,
            >(e@),
        },
{
    if object_name.len() == 0 {
        Err(ParseError::EmptyObjectName)
    } else {
        match &object_name[0] {
            SqlNamePart::Identifier(part) => Ok(TableName(part.clone())),
            SqlNamePart::Other => Err(ParseError::ExpectedIdent),
        }
    }
}

/// The alias of a table, which may declare no column names.
pub open spec fn from_table_alias_spec(alias: SqlTableAlias) -> Result<Seq<char>, ParseErrorView> {
    if alias.columns == 0 {
        Ok(alias.name@)
    } else {
        Err(ParseErrorView::TableAliasColumnsNotSupported)
    }
}

/// The alias of a table.
pub fn from_table_alias(table_alias: &SqlTableAlias) -> (r: Result<TableAlias, ParseError>)
    ensures
        match r {
            Ok(v) => from_table_alias_spec(*table_alias) == Ok::<Seq<char>, ParseErrorView>(v@),
            Err(e) => from_table_alias_spec(*table_alias) == Err::<Seq<char>, ParseErrorView>(e@),
        },
{
    if table_alias.columns == 0 {
        Ok(TableAlias(table_alias.name.clone()))
    } else {
        Err(ParseError::TableAliasColumnsNotSupported)
    }
}

/// The table that a `FROM` or a `JOIN` reads: the name is read first, then
/// the alias.
pub open spec fn from_relation_spec(table: SqlTableFactor) -> Result<FromView, ParseErrorView> {
    match table {
        SqlTableFactor::Table { name, alias } => match table_name_from_object_name_spec(name@) {
            Err(e) => Err(e),
            Ok(table_name) => match alias {
                None => Ok(FromView { table_name, table_alias: None }),
                Some(a) => match from_table_alias_spec(a) {
                    Err(e) => Err(e),
                    Ok(table_alias) => Ok(FromView { table_name, table_alias: Some(table_alias) }),
                },
            },
        },
        SqlTableFactor::Other => Err(ParseErrorView::TableOnlyInFrom),
    }
}

/// Whether `r` is the exec form of the outcome `expected`.
pub open spec fn is_from(r: Result<From, ParseError>, expected: Result<FromView, ParseErrorView>) -> bool {
    match r {
        Ok(v) => expected == Ok::<FromView, ParseErrorView>(v@),
        Err(e) => expected == Err::<FromView, ParseErrorView>(e@),
    }
}

/// The table that a `FROM` or a `JOIN` reads.
pub fn from_relation(table: &SqlTableFactor) -> (r: Result<From, ParseError>)
    ensures
        is_from(r, from_relation_spec(*table)),
{
    match table {
        SqlTableFactor::Table { name, alias } => {
            let table_name = match table_name_from_object_name(name) {
                Ok(table_name) => table_name,
                Err(e) => {
                    return Err(e);
                },
            };
            let table_alias = match alias {
                None => None,
                Some(a) => match from_table_alias(a) {
                    Ok(table_alias) => Some(table_alias),
                    Err(e) => {
                        return Err(e);
                    },
                },
            };
            Ok(From { table_name, table_alias })
        },
        SqlTableFactor::Other => Err(ParseError::TableOnlyInFrom),
    }
}

/// The kind of a join and the column that it joins on, which stands for
/// both sides.
pub open spec fn from_join_operator_spec(join_operator: SqlJoinOperator) -> Result<
    (JoinType, ColumnView),
    ParseErrorView,
> {
    match join_operator {
        SqlJoinOperator::Join(constraint) => from_join_constraint_spec(JoinType::Inner, constraint),
        SqlJoinOperator::Inner(constraint) => from_join_constraint_spec(JoinType::Inner, constraint),
        SqlJoinOperator::LeftOuter(constraint) => from_join_constraint_spec(
            JoinType::LeftOuter,
            constraint,
        ),
        SqlJoinOperator::Other => Err(
            ParseErrorView::Join(JoinParseError::UnsupportedJoinOperator),
        ),
    }
}

/// A join must be `ON` one identifier.
pub open spec fn from_join_constraint_spec(join_type: JoinType, constraint: SqlJoinConstraint) -> Result<
    (JoinType, ColumnView),
    ParseErrorView,
> {
    match constraint {
        SqlJoinConstraint::On(expr) => match identifier_from_selection_spec(expr) {
            Err(e) => Err(e),
            Ok(column) => Ok((join_type, column)),
        },
        SqlJoinConstraint::Other => Err(
            ParseErrorView::Join(JoinParseError::UnsupportedJoinConstraint),
        ),
    }
}

fn from_join_constraint(join_type: JoinType, constraint: &SqlJoinConstraint) -> (r: Result<
    (JoinType, Column, Column),
    ParseError,
>)
    ensures
        match r {
            Ok((kind, left, right)) => from_join_constraint_spec(join_type, *constraint) == Ok::<
                (JoinType, ColumnView),
                ParseErrorView,
            >((kind, left@)) && right@ == left@,
            Err(e) => from_join_constraint_spec(join_type, *constraint) == Err::<
                (JoinType, ColumnView),
                ParseErrorView,
            >(e@),
        },
{
    match constraint {
        SqlJoinConstraint::On(expr) => match identifier_from_selection(expr) {
            Ok(identifier) => Ok((join_type, identifier.clone(), identifier)),
            Err(e) => Err(e),
        },
        SqlJoinConstraint::Other => Err(ParseError::Join(JoinParseError::UnsupportedJoinConstraint)),
    }
}

/// The kind of a join and the column that it joins on, once for each side.
pub fn from_join_operator(join_operator: &SqlJoinOperator) -> (r: Result<
    (JoinType, Column, Column),
    ParseError,
>)
    ensures
        match r {
            Ok((kind, left, right)) => from_join_operator_spec(*join_operator) == Ok::<
                (JoinType, ColumnView),
                ParseErrorView,
            >((kind, left@)) && right@ == left@,
            Err(e) => from_join_operator_spec(*join_operator) == Err::<
                (JoinType, ColumnView),
                ParseErrorView,
            >(e@),
        },
{
    match join_operator {
        SqlJoinOperator::Join(constraint) => from_join_constraint(JoinType::Inner, constraint),
        SqlJoinOperator::Inner(constraint) => from_join_constraint(JoinType::Inner, constraint),
        SqlJoinOperator::LeftOuter(constraint) => from_join_constraint(JoinType::LeftOuter, constraint),
        SqlJoinOperator::Other => Err(ParseError::Join(JoinParseError::UnsupportedJoinOperator)),
    }
}

/// The plan so far, joined with the table of a `JOIN`. The table is read
/// first, then the kind and the column. The column stands for the left
/// side as it is written, and for the right side under the alias of the
/// joined table.
pub open spec fn from_join_spec(join: SqlJoin, query: QueryView) -> Result<QueryView, ParseErrorView> {
    match from_relation_spec(join.relation) {
        Err(e) => Err(e),
        Ok(from) => match from_join_operator_spec(join.join_operator) {
            Err(e) => Err(e),
            Ok((join_type, column)) => Ok(
                QueryView::Join {
                    join_type,
                    left_from: Box::new(query),
                    right_from: Box::new(
                        QueryView::From {
                            table_name: from.table_name,
                            table_alias: from.table_alias,
                        },
                    ),
                    on: JoinOnView {
                        left: column,
                        right: ColumnView { name: column.name, table_alias: from.table_alias },
                    },
                },
            ),
        },
    }
}

/// Whether `r` is the exec form of the outcome `expected`.
pub open spec fn is_query(r: Result<Query, ParseError>, expected: Result<QueryView, ParseErrorView>) -> bool {
    match r {
        Ok(v) => expected == Ok::<QueryView, ParseErrorView>(v@),
        Err(e) => expected == Err::<QueryView, ParseErrorView>(e@),
    }
}

/// The plan so far, joined with the table of a `JOIN`.
pub fn from_join(join: &SqlJoin, query: Query) -> (r: Result<Query, ParseError>)
    ensures
        is_query(r, from_join_spec(*join, query@)),
{
    let from = match from_relation(&join.relation) {
        Ok(from) => from,
        Err(e) => {
            return Err(e);
        },
    };
    let (join_type, left_column_on, right_column_on) = match from_join_operator(&join.join_operator) {
        Ok(parts) => parts,
        Err(e) => {
            return Err(e);
        },
    };
    let right_column_on = Column {
        table_alias: crate::types::clone_alias(&from.table_alias),
        name: right_column_on.name,
    };
    let join = Join {
        join_type,
        left_from: Box::new(query),
        right_from: Box::new(Query::From(from)),
        on: JoinOn { left: left_column_on, right: right_column_on },
    };
    proof {
        reveal_with_fuel(crate::types::query_view, 2);
    }
    Ok(Query::Join(join))
}

/// The plan of the first `n` joins over the plan `query`, join after join.
pub open spec fn fold_joins_spec(joins: Seq<SqlJoin>, query: QueryView, n: nat) -> Result<
    QueryView,
    ParseErrorView,
>
    decreases n,
{
    if n == 0 {
        Ok(query)
    } else {
        match fold_joins_spec(joins, query, (n - 1) as nat) {
            Err(e) => Err(e),
            Ok(so_far) => from_join_spec(joins[n - 1], so_far),
        }
    }
}

/// Once a join has failed, more joins fail in the same way.
pub proof fn lemma_fold_joins_error_stays(joins: Seq<SqlJoin>, query: QueryView, failed: nat, n: nat)
    requires
        fold_joins_spec(joins, query, failed) is Err,
        failed <= n,
    ensures
        fold_joins_spec(joins, query, n) == fold_joins_spec(joins, query, failed),
    decreases n,
{
    if failed < n {
        lemma_fold_joins_error_stays(joins, query, failed, (n - 1) as nat);
    }
}

/// The plan of a `FROM` clause: the first table, and its joins folded over
/// it from the left. A clause without a table is refused.
pub open spec fn from_from_spec(froms: Seq<SqlTableWithJoins>) -> Result<QueryView, ParseErrorView> {
    if froms.len() == 0 {
        Err(ParseErrorView::EmptyFromNotSupported)
    } else {
        match from_relation_spec(froms[0].relation) {
            Err(e) => Err(e),
            Ok(from) => fold_joins_spec(
                froms[0].joins@,
                QueryView::From { table_name: from.table_name, table_alias: from.table_alias },
                froms[0].joins@.len(),
            ),
        }
    }
}

/// The plan of a `FROM` clause.
pub fn from_from(froms: &Vec<SqlTableWithJoins>) -> (r: Result<Query, ParseError>)
    ensures
        is_query(r, from_from_spec(froms@)),
{
    if froms.len() == 0 {
        return Err(ParseError::EmptyFromNotSupported);
    }
    let table_with_joins = &froms[0];
    let from = match from_relation(&table_with_joins.relation) {
        Ok(from) => from,
        Err(e) => {
            return Err(e);
        },
    };
    let ghost start = QueryView::From {
        table_name: from@.table_name,
        table_alias: from@.table_alias,
    };
    let mut query = Query::From(from);
    let mut i: usize = 0;
    while i < table_with_joins.joins.len()
        invariant
            i <= table_with_joins.joins.len(),
            froms@.len() > 0,
            table_with_joins == &froms@[0],
            from_relation_spec(table_with_joins.relation) is Ok,
            start == (QueryView::From {
                table_name: from_relation_spec(table_with_joins.relation)->Ok_0.table_name,
                table_alias: from_relation_spec(table_with_joins.relation)->Ok_0.table_alias,
            }),
            fold_joins_spec(table_with_joins.joins@, start, i as nat) == Ok::<
                QueryView,
                ParseErrorView,
            >(query@),
        decreases table_with_joins.joins.len() - i,
    {
        match from_join(&table_with_joins.joins[i], query) {
            Ok(joined) => {
                query = joined;
            },
            Err(e) => {
                proof {
                    lemma_fold_joins_error_stays(
                        table_with_joins.joins@,
                        start,
                        (i + 1) as nat,
                        table_with_joins.joins@.len(),
                    );
                }
                return Err(e);
            },
        }
        i += 1;
    }
    Ok(query)
}

/// The fields of the first `n` items of a projection; the first that fails
/// decides.
pub open spec fn projection_fields_spec(items: Seq<SqlSelectItem>, n: nat) -> Result<
    Seq<ExprView>,
    ParseErrorView,
>
    decreases n,
{
    if n == 0 {
        Ok(Seq::empty())
    } else {
        match projection_fields_spec(items, (n - 1) as nat) {
            Err(e) => Err(e),
            Ok(fields) => match items[n - 1] {
                SqlSelectItem::UnnamedExpr(expr) => match from_selection_spec(expr) {
                    Err(e) => Err(e),
                    Ok(field) => Ok(fields.push(field)),
                },
                _ => Err(ParseErrorView::UnsupportedProjectionField),
            },
        }
    }
}

/// The fields of a projection: none for a lone `*`, else one for each
/// item, which must be an expression without an alias.
pub open spec fn from_projection_spec(items: Seq<SqlSelectItem>) -> Result<
    Option<Seq<ExprView>>,
    ParseErrorView,
> {
    if items.len() == 1 && items[0] is Wildcard {
        Ok(None)
    } else {
        match projection_fields_spec(items, items.len()) {
            Err(e) => Err(e),
            Ok(fields) => Ok(Some(fields)),
        }
    }
}

/// Once an item has failed, more items fail in the same way.
pub proof fn lemma_projection_error_stays(items: Seq<SqlSelectItem>, failed: nat, n: nat)
    requires
        projection_fields_spec(items, failed) is Err,
        failed <= n,
    ensures
        projection_fields_spec(items, n) == projection_fields_spec(items, failed),
    decreases n,
{
    if failed < n {
        lemma_projection_error_stays(items, failed, (n - 1) as nat);
    }
}

/// The view of the fields of a projection, if there are any.
pub open spec fn fields_view(fields: Option<Vec<Expr>>) -> Option<Seq<ExprView>> {
    match fields {
        Some(v) => Some(exprs_view(v@)),
        None => None,
    }
}

/// The fields of a projection.
pub fn from_projection(select_items: &Vec<SqlSelectItem>) -> (r: Result<Option<Vec<Expr>>, ParseError>)
    ensures
        match r {
            Ok(v) => from_projection_spec(select_items@) == Ok::<
                Option<Seq<ExprView>>,
                ParseErrorView,
            >(fields_view(v)),
            Err(e) => from_projection_spec(select_items@) == Err::<
                Option<Seq<ExprView>>,
                ParseErrorView,
            >(e@),
        },
{
    if select_items.len() == 1 {
        if let SqlSelectItem::Wildcard = &select_items[0] {
            return Ok(None);
        }
    }
    let mut fields: Vec<Expr> = Vec::new();
    let mut i: usize = 0;
    while i < select_items.len()
        invariant
            i <= select_items.len(),
            !(select_items@.len() == 1 && select_items@[0] is Wildcard),
            fields@.len() == i,
            projection_fields_spec(select_items@, i as nat) is Ok,
            projection_fields_spec(select_items@, i as nat)->Ok_0.len() == i,
            forall|k: int|
                0 <= k < i ==> (#[trigger] fields@[k])@ == projection_fields_spec(
                    select_items@,
                    i as nat,
                )->Ok_0[k],
        decreases select_items.len() - i,
    {
        let field = match &select_items[i] {
            SqlSelectItem::UnnamedExpr(expr) => from_selection(expr),
            _ => Err(ParseError::UnsupportedProjectionField),
        };
        match field {
            Ok(field) => {
                fields.push(field);
            },
            Err(e) => {
                proof {
                    lemma_projection_error_stays(select_items@, (i + 1) as nat, select_items@.len());
                }
                return Err(e);
            },
        }
        i += 1;
    }
    assert(exprs_view(fields@) =~= projection_fields_spec(select_items@, select_items@.len())->Ok_0);
    Ok(Some(fields))
}

/// What a `SELECT` is refused for, before its tables are read: the first of
/// `INTO`, `DISTINCT`, `GROUP BY`, `SORT BY`, `HAVING`, a lateral view,
/// `QUALIFY` and a named window that it has.
pub open spec fn select_refusal(select: SqlSelect) -> Option<ParseErrorView> {
    if select.into {
        Some(ParseErrorView::IntoNotSupported)
    } else if select.distinct {
        Some(ParseErrorView::DistinctNotSupported)
    } else if group_by_is_used(select.group_by) {
        Some(ParseErrorView::GroupByNotSupported)
    } else if select.sort_by {
        Some(ParseErrorView::SortByNotSupported)
    } else if select.having {
        Some(ParseErrorView::HavingNotSupported)
    } else if select.lateral_views {
        Some(ParseErrorView::LateralViewsNotSupported)
    } else if select.qualify {
        Some(ParseErrorView::QualifyNotSupported)
    } else if select.named_window {
        Some(ParseErrorView::WindowNotSupported)
    } else {
        None
    }
}

/// Whether a `GROUP BY` holds an expression or a modifier.
pub open spec fn group_by_is_used(group_by: SqlGroupBy) -> bool {
    match group_by {
        SqlGroupBy::All { modifiers } => modifiers != 0,
        SqlGroupBy::Expressions { expressions, modifiers } => expressions != 0 || modifiers != 0,
    }
}

/// The plan of a `SELECT`: the tables, under a filter where there is a
/// `WHERE`, under a projection where the fields are more than a lone `*`.
pub open spec fn from_select_spec(select: SqlSelect) -> Result<QueryView, ParseErrorView> {
    match select_refusal(select) {
        Some(e) => Err(e),
        None => match from_from_spec(select.from@) {
            Err(e) => Err(e),
            Ok(tables) => match filtered_spec(tables, select.selection) {
                Err(e) => Err(e),
                Ok(filtered) => match from_projection_spec(select.projection@) {
                    Err(e) => Err(e),
                    Ok(None) => Ok(filtered),
                    Ok(Some(fields)) => Ok(QueryView::Project { from: Box::new(filtered), fields }),
                },
            },
        },
    }
}

/// The plan under the filter of a `WHERE`, where there is one.
pub open spec fn filtered_spec(query: QueryView, selection: Option<SqlExpr>) -> Result<
    QueryView,
    ParseErrorView,
> {
    match selection {
        None => Ok(query),
        Some(expr) => match from_selection_spec(expr) {
            Err(e) => Err(e),
            Ok(filter) => Ok(QueryView::Filter { from: Box::new(query), filter }),
        },
    }
}

fn refusal_of_select(select: &SqlSelect) -> (r: Option<ParseError>)
    ensures
        match r {
            Some(e) => select_refusal(*select) == Some(e@),
            None => select_refusal(*select) is None,
        },
{
    let grouped = match select.group_by {
        SqlGroupBy::All { modifiers } => modifiers != 0,
        SqlGroupBy::Expressions { expressions, modifiers } => expressions != 0 || modifiers != 0,
    };
    if select.into {
        Some(ParseError::IntoNotSupported)
    } else if select.distinct {
        Some(ParseError::DistinctNotSupported)
    } else if grouped {
        Some(ParseError::GroupByNotSupported)
    } else if select.sort_by {
        Some(ParseError::SortByNotSupported)
    } else if select.having {
        Some(ParseError::HavingNotSupported)
    } else if select.lateral_views {
        Some(ParseError::LateralViewsNotSupported)
    } else if select.qualify {
        Some(ParseError::QualifyNotSupported)
    } else if select.named_window {
        Some(ParseError::WindowNotSupported)
    } else {
        None
    }
}

/// The plan of a `SELECT`.
pub fn from_select(select: &SqlSelect) -> (r: Result<Query, ParseError>)
    ensures
        is_query(r, from_select_spec(*select)),
{
    match refusal_of_select(select) {
        Some(e) => {
            return Err(e);
        },
        None => {},
    }
    let tables = match from_from(&select.from) {
        Ok(query) => query,
        Err(e) => {
            return Err(e);
        },
    };
    let filtered = match &select.selection {
        Some(expr) => {
            let filter = match from_selection(expr) {
                Ok(filter) => filter,
                Err(e) => {
                    return Err(e);
                },
            };
            let ghost inner = tables@;
            let query = Query::Filter(Filter { filter, from: Box::new(tables) });
            assert(query@ == QueryView::Filter { from: Box::new(inner), filter: filter@ });
            query
        },
        None => tables,
    };
    assert(filtered_spec(from_from_spec(select.from@)->Ok_0, select.selection) == Ok::<
        QueryView,
        ParseErrorView,
    >(filtered@));
    match from_projection(&select.projection) {
        Ok(Some(fields)) => {
            let ghost inner = filtered@;
            let query = Query::Project(Project { from: Box::new(filtered), fields });
            assert(query@ == QueryView::Project { from: Box::new(inner), fields: exprs_view(fields@) });
            Ok(query)
        },
        Ok(None) => Ok(filtered),
        Err(e) => Err(e),
    }
}

/// The plan of the body of a query, which must be a `SELECT`.
pub open spec fn from_body_spec(body: SqlSetExpr) -> Result<QueryView, ParseErrorView> {
    match body {
        SqlSetExpr::Select(select) => from_select_spec(select),
        SqlSetExpr::Other => Err(ParseErrorView::OnlySelectIsSupported),
    }
}

/// The plan of the body of a query.
pub fn from_body(body: &SqlSetExpr) -> (r: Result<Query, ParseError>)
    ensures
        is_query(r, from_body_spec(*body)),
{
    match body {
        SqlSetExpr::Select(select) => from_select(select),
        SqlSetExpr::Other => Err(ParseError::OnlySelectIsSupported),
    }
}

/// One key of an `ORDER BY`: the column is read first, then a direction
/// other than `ASC` and `DESC` is refused, then `NULLS FIRST` and
/// `NULLS LAST`. A key without a direction rises.
pub open spec fn order_by_key_spec(expr: SqlOrderByExpr) -> Result<OrderByExprView, ParseErrorView> {
    match identifier_from_selection_spec(expr.expr) {
        Err(e) => Err(e),
        Ok(column) => if expr.sort == SqlOrderBySort::Other {
            Err(ParseErrorView::OrderBy(OrderByParseError::UnsupportedOrderBy))
        } else if expr.nulls_first is Some {
            Err(ParseErrorView::OrderBy(OrderByParseError::NullsFirstNotSupported))
        } else {
            Ok(
                OrderByExprView {
                    column,
                    order: if expr.sort == SqlOrderBySort::Desc {
                        Order::Desc
                    } else {
                        Order::Asc
                    },
                },
            )
        },
    }
}

/// The first `n` keys of an `ORDER BY`; the first that fails decides.
pub open spec fn order_by_keys_spec(exprs: Seq<SqlOrderByExpr>, n: nat) -> Result<
    Seq<OrderByExprView>,
    ParseErrorView,
>
    decreases n,
{
    if n == 0 {
        Ok(Seq::empty())
    } else {
        match order_by_keys_spec(exprs, (n - 1) as nat) {
            Err(e) => Err(e),
            Ok(keys) => match order_by_key_spec(exprs[n - 1]) {
                Err(e) => Err(e),
                Ok(key) => Ok(keys.push(key)),
            },
        }
    }
}

/// The keys of an `ORDER BY`, which must be a list of expressions.
pub open spec fn from_order_by_spec(order_by: SqlOrderBy) -> Result<Seq<OrderByExprView>, ParseErrorView> {
    match order_by {
        SqlOrderBy::Expressions(exprs) => order_by_keys_spec(exprs@, exprs@.len()),
        SqlOrderBy::Other => Err(ParseErrorView::OrderBy(OrderByParseError::UnsupportedOrderBy)),
    }
}

/// Once a key has failed, more keys fail in the same way.
pub proof fn lemma_order_by_keys_error_stays(exprs: Seq<SqlOrderByExpr>, failed: nat, n: nat)
    requires
        order_by_keys_spec(exprs, failed) is Err,
        failed <= n,
    ensures
        order_by_keys_spec(exprs, n) == order_by_keys_spec(exprs, failed),
    decreases n,
{
    if failed < n {
        lemma_order_by_keys_error_stays(exprs, failed, (n - 1) as nat);
    }
}

fn order_by_key(expr: &SqlOrderByExpr) -> (r: Result<OrderByExpr, ParseError>)
    ensures
        match r {
            Ok(v) => order_by_key_spec(*expr) == Ok::<OrderByExprView, ParseErrorView>(v@),
            Err(e) => order_by_key_spec(*expr) == Err::<OrderByExprView, ParseErrorView>(e@),
        },
{
    let column = match identifier_from_selection(&expr.expr) {
        Ok(column) => column,
        Err(e) => {
            return Err(e);
        },
    };
    let order = match expr.sort {
        SqlOrderBySort::Desc => Order::Desc,
        SqlOrderBySort::Other => {
            return Err(ParseError::OrderBy(OrderByParseError::UnsupportedOrderBy));
        },
        _ => Order::Asc,
    };
    if expr.nulls_first.is_some() {
        return Err(ParseError::OrderBy(OrderByParseError::NullsFirstNotSupported));
    }
    Ok(OrderByExpr { column, order })
}

/// The keys of an `ORDER BY`.
pub fn from_order_by(order_by: &SqlOrderBy) -> (r: Result<Vec<OrderByExpr>, ParseError>)
    ensures
        match r {
            Ok(v) => from_order_by_spec(*order_by) == Ok::<Seq<OrderByExprView>, ParseErrorView>(
                order_by_view(v@),
            ),
            Err(e) => from_order_by_spec(*order_by) == Err::<Seq<OrderByExprView>, ParseErrorView>(
                e@,
            ),
        },
{
    let exprs = match order_by {
        SqlOrderBy::Expressions(exprs) => exprs,
        SqlOrderBy::Other => {
            return Err(ParseError::OrderBy(OrderByParseError::UnsupportedOrderBy));
        },
    };
    let mut keys: Vec<OrderByExpr> = Vec::new();
    let mut i: usize = 0;
    while i < exprs.len()
        invariant
            i <= exprs.len(),
            *order_by == SqlOrderBy::Expressions(*exprs),
            keys@.len() == i,
            order_by_keys_spec(exprs@, i as nat) is Ok,
            order_by_keys_spec(exprs@, i as nat)->Ok_0.len() == i,
            forall|k: int|
                0 <= k < i ==> (#[trigger] keys@[k])@ == order_by_keys_spec(exprs@, i as nat)->Ok_0[k],
        decreases exprs.len() - i,
    {
        match order_by_key(&exprs[i]) {
            Ok(key) => {
                keys.push(key);
            },
            Err(e) => {
                proof {
                    lemma_order_by_keys_error_stays(exprs@, (i + 1) as nat, exprs@.len());
                }
                return Err(e);
            },
        }
        i += 1;
    }
    assert(order_by_view(keys@) =~= order_by_keys_spec(exprs@, exprs@.len())->Ok_0);
    Ok(keys)
}

/// The number that a literal limit stands for: an integer that is not
/// negative.
pub open spec fn limit_of_value(value: ValueView) -> Result<u64, ParseErrorView> {
    match value {
        ValueView::Int(n) => if 0 <= n <= u64::MAX {
            Ok(n as u64)
        } else {
            Err(ParseErrorView::LimitMustBeInt)
        },
        _ => Err(ParseErrorView::LimitMustBeInt),
    }
}

/// The number of a `LIMIT`: the clause may hold no offset and no `BY`, and
/// its limit must be a literal integer that is not negative.
pub open spec fn from_limit_spec(limit: SqlLimitClause) -> Result<u64, ParseErrorView> {
    match limit {
        SqlLimitClause::OffsetCommaLimit => Err(ParseErrorView::OffsetCommaLimitNotSupported),
        SqlLimitClause::LimitOffset { limit, offset, limit_by } => if offset {
            Err(ParseErrorView::OffsetNotSupported)
        } else if limit_by {
            Err(ParseErrorView::LimitByNotSupported)
        } else {
            match limit {
                None => Err(ParseErrorView::LimitMustBeInt),
                Some(expr) => match value_from_selection_spec(expr) {
                    Err(e) => Err(e),
                    Ok(value) => limit_of_value(value),
                },
            }
        },
    }
}

/// The number of a `LIMIT`.
pub fn from_limit(limit: &SqlLimitClause) -> (r: Result<u64, ParseError>)
    ensures
        match r {
            Ok(v) => from_limit_spec(*limit) == Ok::<u64, ParseErrorView>(v),
            Err(e) => from_limit_spec(*limit) == Err::<u64, ParseErrorView>(e@),
        },
{
    match limit {
        SqlLimitClause::OffsetCommaLimit => Err(ParseError::OffsetCommaLimitNotSupported),
        SqlLimitClause::LimitOffset { limit, offset, limit_by } => {
            if *offset {
                return Err(ParseError::OffsetNotSupported);
            }
            if *limit_by {
                return Err(ParseError::LimitByNotSupported);
            }
            match limit {
                Some(limit) => {
                    let value = match value_from_selection(limit) {
                        Ok(value) => value,
                        Err(e) => {
                            return Err(e);
                        },
                    };
                    match value {
                        Value::Int(n) => if n >= 0 {
                            Ok(n as u64)
                        } else {
                            Err(ParseError::LimitMustBeInt)
                        },
                        _ => Err(ParseError::LimitMustBeInt),
                    }
                },
                None => Err(ParseError::LimitMustBeInt),
            }
        },
    }
}

/// What a query is refused for, before its body is read: the first of
/// `WITH`, `FETCH`, a lock, `FOR`, `SETTINGS`, `FORMAT` and a pipe
/// operator that it has.
pub open spec fn query_refusal(query: SqlQuery) -> Option<ParseErrorView> {
    if query.with {
        Some(ParseErrorView::WithNotSupported)
    } else if query.fetch {
        Some(ParseErrorView::FetchNotSupported)
    } else if query.locks {
        Some(ParseErrorView::LocksNotSupported)
    } else if query.for_clause {
        Some(ParseErrorView::ForClauseNotSupported)
    } else if query.settings {
        Some(ParseErrorView::SettingsNotSupported)
    } else if query.format_clause {
        Some(ParseErrorView::FormatNotSupported)
    } else if query.pipe_operators {
        Some(ParseErrorView::PipeOperatorsNotSupported)
    } else {
        None
    }
}

/// The plan under the `ORDER BY`, where there is one.
pub open spec fn ordered_spec(query: QueryView, order_by: Option<SqlOrderBy>) -> Result<
    QueryView,
    ParseErrorView,
> {
    match order_by {
        None => Ok(query),
        Some(order_by) => match from_order_by_spec(order_by) {
            Err(e) => Err(e),
            Ok(order_by_exprs) => Ok(QueryView::OrderBy { from: Box::new(query), order_by_exprs }),
        },
    }
}

/// The plan under the `LIMIT`, where there is one.
pub open spec fn limited_spec(query: QueryView, limit_clause: Option<SqlLimitClause>) -> Result<
    QueryView,
    ParseErrorView,
> {
    match limit_clause {
        None => Ok(query),
        Some(limit_clause) => match from_limit_spec(limit_clause) {
            Err(e) => Err(e),
            Ok(limit) => Ok(QueryView::Limit { from: Box::new(query), limit }),
        },
    }
}

/// The plan of a query: the body, under the order where there is an
/// `ORDER BY`, under the limit where there is a `LIMIT`.
pub open spec fn from_query_spec(query: SqlQuery) -> Result<QueryView, ParseErrorView> {
    match query_refusal(query) {
        Some(e) => Err(e),
        None => match from_body_spec(query.body) {
            Err(e) => Err(e),
            Ok(body) => match ordered_spec(body, query.order_by) {
                Err(e) => Err(e),
                Ok(ordered) => limited_spec(ordered, query.limit_clause),
            },
        },
    }
}

/// The plan of a query.
pub fn from_query(query: &SqlQuery) -> (r: Result<Query, ParseError>)
    ensures
        is_query(r, from_query_spec(*query)),
{
    if query.with {
        return Err(ParseError::WithNotSupported);
    }
    if query.fetch {
        return Err(ParseError::FetchNotSupported);
    }
    if query.locks {
        return Err(ParseError::LocksNotSupported);
    }
    if query.for_clause {
        return Err(ParseError::ForClauseNotSupported);
    }
    if query.settings {
        return Err(ParseError::SettingsNotSupported);
    }
    if query.format_clause {
        return Err(ParseError::FormatNotSupported);
    }
    if query.pipe_operators {
        return Err(ParseError::PipeOperatorsNotSupported);
    }
    let body = match from_body(&query.body) {
        Ok(plan) => plan,
        Err(e) => {
            return Err(e);
        },
    };
    let ordered = match &query.order_by {
        Some(order_by) => {
            let order_by_exprs = match from_order_by(order_by) {
                Ok(order_by_exprs) => order_by_exprs,
                Err(e) => {
                    return Err(e);
                },
            };
            let ghost inner = body@;
            let plan = Query::OrderBy(OrderBy { from: Box::new(body), order_by_exprs });
            assert(plan@ == QueryView::OrderBy {
                from: Box::new(inner),
                order_by_exprs: order_by_view(order_by_exprs@),
            });
            plan
        },
        None => body,
    };
    assert(ordered_spec(from_body_spec(query.body)->Ok_0, query.order_by) == Ok::<
        QueryView,
        ParseErrorView,
    >(ordered@));
    match &query.limit_clause {
        Some(limit) => {
            let limit = match from_limit(limit) {
                Ok(limit) => limit,
                Err(e) => {
                    return Err(e);
                },
            };
            let ghost inner = ordered@;
            let plan = Query::Limit(Limit { from: Box::new(ordered), limit });
            assert(plan@ == QueryView::Limit { from: Box::new(inner), limit });
            Ok(plan)
        },
        None => Ok(ordered),
    }
}

/// The plan of a statement, which must be a query.
pub open spec fn from_statement_spec(statement: SqlStatement) -> Result<QueryView, ParseErrorView> {
    match statement {
        SqlStatement::Query(query) => from_query_spec(query),
        SqlStatement::Other => Err(ParseErrorView::OnlyQueryIsSupported),
    }
}

/// The plan of a statement.
pub fn from_statement(statement: &SqlStatement) -> (r: Result<Query, ParseError>)
    ensures
        is_query(r, from_statement_spec(*statement)),
{
    match statement {
        SqlStatement::Query(query) => from_query(query),
        SqlStatement::Other => Err(ParseError::OnlyQueryIsSupported),
    }
}

/// The plan of the first of the statements of a text.
pub open spec fn parse_spec(statements: Seq<SqlStatement>) -> Result<QueryView, ParseErrorView> {
    if statements.len() == 0 {
        Err(ParseErrorView::NoStatements)
    } else {
        from_statement_spec(statements[0])
    }
}

/// The plan of the statements that a text was parsed into: that of the
/// first statement; a text without a statement is refused.
pub fn parse(statements: &Vec<SqlStatement>) -> (r: Result<Query, ParseError>)
    ensures
        is_query(r, parse_spec(statements@)),
{
    if statements.len() == 0 {
        Err(ParseError::NoStatements)
    } else {
        from_statement(&statements[0])
    }
}

} // verus!
