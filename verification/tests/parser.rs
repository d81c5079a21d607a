use sqlengine::parser::{
    from_binary_operator, from_from, from_join_operator, from_limit, from_order_by,
    from_projection, from_query, from_relation, from_select, from_selection, from_statement,
    parse, from_table_alias, identifier_from_selection, literal_from_read,
    table_name_from_object_name, value_from_literal, value_from_selection, JoinParseError,
    OrderByParseError, ParseError, SqlBinaryOperator, SqlExpr, SqlFunctionArg, SqlGroupBy, SqlJoin,
    SqlJoinConstraint, SqlJoinOperator, SqlLimitClause, SqlNamePart, SqlOrderBy, SqlOrderByExpr,
    SqlOrderBySort, SqlQuery, SqlSelect, SqlSelectItem, SqlSetExpr, SqlStatement, SqlTableAlias,
    SqlTableFactor, SqlTableWithJoins, SqlValue,
};
use sqlengine::types::{
    AggregateFunctionName, Column, Expr, Filter, From, FunctionName, Join, JoinOn, JoinType, Limit,
    Op, Order, OrderBy, OrderByExpr, Project, Query, TableAlias, TableName,
};
use sqlengine::value::Value;

fn ident(name: &str) -> SqlExpr {
    SqlExpr::Identifier(name.to_string())
}

fn number(text: &str) -> SqlExpr {
    SqlExpr::Value(SqlValue::Other {
        text: text.to_string(),
    })
}

fn quoted(text: &str) -> SqlExpr {
    SqlExpr::Value(SqlValue::SingleQuotedString(text.to_string()))
}

fn binary(left: SqlExpr, op: SqlBinaryOperator, right: SqlExpr) -> SqlExpr {
    SqlExpr::BinaryOp {
        left: Box::new(left),
        op,
        right: Box::new(right),
    }
}

fn table(name: &str, alias: Option<&str>) -> SqlTableFactor {
    SqlTableFactor::Table {
        name: vec![SqlNamePart::Identifier(name.to_string())],
        alias: alias.map(|a| SqlTableAlias {
            name: a.to_string(),
            columns: 0,
        }),
    }
}

fn select_from(name: &str) -> SqlSelect {
    SqlSelect {
        distinct: false,
        projection: vec![SqlSelectItem::Wildcard],
        into: false,
        from: vec![SqlTableWithJoins {
            relation: table(name, None),
            joins: vec![],
        }],
        lateral_views: false,
        selection: None,
        group_by: SqlGroupBy::Expressions {
            expressions: 0,
            modifiers: 0,
        },
        sort_by: false,
        having: false,
        named_window: false,
        qualify: false,
    }
}

fn query_of(select: SqlSelect) -> SqlQuery {
    SqlQuery {
        with: false,
        body: SqlSetExpr::Select(select),
        order_by: None,
        limit_clause: None,
        fetch: false,
        locks: false,
        for_clause: false,
        settings: false,
        format_clause: false,
        pipe_operators: false,
    }
}

fn from(name: &str) -> Query {
    Query::From(From {
        table_name: TableName(name.to_string()),
        table_alias: None,
    })
}

fn column(name: &str) -> Expr {
    Expr::Column {
        column: Column::from(name),
    }
}

fn refused<T: std::fmt::Debug>(result: Result<T, ParseError>) -> String {
    format!("{:?}", result.unwrap_err())
}

#[test]
fn a_select_of_everything_is_the_table() {
    let statements = vec![SqlStatement::Query(query_of(select_from("albums")))];
    assert_eq!(parse(&statements).unwrap(), from("albums"));
}

#[test]
fn a_text_without_a_statement_is_refused() {
    assert!(matches!(
        parse(&vec![]),
        Err(ParseError::NoStatements)
    ));
}

#[test]
fn only_the_first_statement_is_read() {
    let statements = vec![
        SqlStatement::Query(query_of(select_from("a"))),
        SqlStatement::Other,
    ];
    assert_eq!(parse(&statements).unwrap(), from("a"));
}

#[test]
fn a_statement_that_is_no_query_is_refused() {
    assert!(matches!(
        from_statement(&SqlStatement::Other),
        Err(ParseError::OnlyQueryIsSupported)
    ));
}

#[test]
fn a_body_that_is_no_select_is_refused() {
    let mut query = query_of(select_from("a"));
    query.body = SqlSetExpr::Other;
    assert!(matches!(
        from_query(&query),
        Err(ParseError::OnlySelectIsSupported)
    ));
}

#[test]
fn the_clauses_of_a_query_are_refused_in_order() {
    let mut query = query_of(select_from("a"));
    query.pipe_operators = true;
    assert!(matches!(
        from_query(&query),
        Err(ParseError::PipeOperatorsNotSupported)
    ));
    query.format_clause = true;
    assert!(matches!(
        from_query(&query),
        Err(ParseError::FormatNotSupported)
    ));
    query.settings = true;
    assert!(matches!(
        from_query(&query),
        Err(ParseError::SettingsNotSupported)
    ));
    query.for_clause = true;
    assert!(matches!(
        from_query(&query),
        Err(ParseError::ForClauseNotSupported)
    ));
    query.locks = true;
    assert!(matches!(
        from_query(&query),
        Err(ParseError::LocksNotSupported)
    ));
    query.fetch = true;
    assert!(matches!(
        from_query(&query),
        Err(ParseError::FetchNotSupported)
    ));
    query.with = true;
    assert!(matches!(
        from_query(&query),
        Err(ParseError::WithNotSupported)
    ));
}

#[test]
fn the_clauses_of_a_select_are_refused_in_order() {
    let mut select = select_from("a");
    select.named_window = true;
    assert!(matches!(
        from_select(&select),
        Err(ParseError::WindowNotSupported)
    ));
    select.qualify = true;
    assert!(matches!(
        from_select(&select),
        Err(ParseError::QualifyNotSupported)
    ));
    select.lateral_views = true;
    assert!(matches!(
        from_select(&select),
        Err(ParseError::LateralViewsNotSupported)
    ));
    select.having = true;
    assert!(matches!(
        from_select(&select),
        Err(ParseError::HavingNotSupported)
    ));
    select.sort_by = true;
    assert!(matches!(
        from_select(&select),
        Err(ParseError::SortByNotSupported)
    ));
    select.group_by = SqlGroupBy::Expressions {
        expressions: 1,
        modifiers: 0,
    };
    assert!(matches!(
        from_select(&select),
        Err(ParseError::GroupByNotSupported)
    ));
    select.distinct = true;
    assert!(matches!(
        from_select(&select),
        Err(ParseError::DistinctNotSupported)
    ));
    select.into = true;
    assert!(matches!(
        from_select(&select),
        Err(ParseError::IntoNotSupported)
    ));
}

#[test]
fn a_group_by_with_a_modifier_is_refused() {
    let mut select = select_from("a");
    select.group_by = SqlGroupBy::All { modifiers: 1 };
    assert!(matches!(
        from_select(&select),
        Err(ParseError::GroupByNotSupported)
    ));
    select.group_by = SqlGroupBy::Expressions {
        expressions: 0,
        modifiers: 2,
    };
    assert!(matches!(
        from_select(&select),
        Err(ParseError::GroupByNotSupported)
    ));
    select.group_by = SqlGroupBy::All { modifiers: 0 };
    assert_eq!(from_select(&select).unwrap(), from("a"));
}

#[test]
fn a_select_is_filtered_then_projected() {
    let mut select = select_from("albums");
    select.selection = Some(binary(ident("album_id"), SqlBinaryOperator::Eq, number("1")));
    select.projection = vec![
        SqlSelectItem::UnnamedExpr(ident("title")),
        SqlSelectItem::UnnamedExpr(binary(ident("a"), SqlBinaryOperator::Plus, number("2"))),
    ];
    let mut query = query_of(select);
    query.order_by = Some(SqlOrderBy::Expressions(vec![
        SqlOrderByExpr {
            expr: ident("title"),
            sort: SqlOrderBySort::Desc,
            nulls_first: None,
        },
        SqlOrderByExpr {
            expr: SqlExpr::CompoundIdentifier(vec!["t".to_string(), "id".to_string()]),
            sort: SqlOrderBySort::Unspecified,
            nulls_first: None,
        },
    ]));
    query.limit_clause = Some(SqlLimitClause::LimitOffset {
        limit: Some(number("4")),
        offset: false,
        limit_by: false,
    });
    let expected = Query::Limit(Limit {
        limit: 4,
        from: Box::new(Query::OrderBy(OrderBy {
            order_by_exprs: vec![
                OrderByExpr {
                    column: Column::from("title"),
                    order: Order::Desc,
                },
                OrderByExpr {
                    column: Column {
                        name: "id".to_string(),
                        table_alias: Some(TableAlias("t".to_string())),
                    },
                    order: Order::Asc,
                },
            ],
            from: Box::new(Query::Project(Project {
                fields: vec![
                    column("title"),
                    Expr::BinaryOperation {
                        left: Box::new(column("a")),
                        op: Op::Add,
                        right: Box::new(Expr::Literal {
                            literal: Value::Int(2),
                        }),
                    },
                ],
                from: Box::new(Query::Filter(Filter {
                    from: Box::new(from("albums")),
                    filter: Expr::BinaryOperation {
                        left: Box::new(column("album_id")),
                        op: Op::Equals,
                        right: Box::new(Expr::Literal {
                            literal: Value::Int(1),
                        }),
                    },
                })),
            })),
        })),
    });
    assert_eq!(from_query(&query).unwrap(), expected);
}

#[test]
fn joins_fold_from_the_left() {
    let froms = vec![SqlTableWithJoins {
        relation: table("Track", None),
        joins: vec![
            SqlJoin {
                relation: table("Album", None),
                join_operator: SqlJoinOperator::Join(SqlJoinConstraint::On(ident("AlbumId"))),
            },
            SqlJoin {
                relation: table("Artist", Some("artist")),
                join_operator: SqlJoinOperator::LeftOuter(SqlJoinConstraint::On(ident(
                    "ArtistId",
                ))),
            },
        ],
    }];
    let expected = Query::Join(Join {
        join_type: JoinType::LeftOuter,
        left_from: Box::new(Query::Join(Join {
            join_type: JoinType::Inner,
            left_from: Box::new(from("Track")),
            right_from: Box::new(from("Album")),
            on: JoinOn {
                left: Column::from("AlbumId"),
                right: Column::from("AlbumId"),
            },
        })),
        right_from: Box::new(Query::From(From {
            table_name: TableName("Artist".to_string()),
            table_alias: Some(TableAlias("artist".to_string())),
        })),
        on: JoinOn {
            left: Column::from("ArtistId"),
            right: Column {
                name: "ArtistId".to_string(),
                table_alias: Some(TableAlias("artist".to_string())),
            },
        },
    });
    assert_eq!(from_from(&froms).unwrap(), expected);
}

#[test]
fn an_empty_from_is_refused() {
    assert!(matches!(
        from_from(&vec![]),
        Err(ParseError::EmptyFromNotSupported)
    ));
}

#[test]
fn only_a_table_can_stand_in_a_from() {
    assert!(matches!(
        from_relation(&SqlTableFactor::Other),
        Err(ParseError::TableOnlyInFrom)
    ));
    assert_eq!(
        from_relation(&table("t", Some("x"))).unwrap(),
        From {
            table_name: TableName("t".to_string()),
            table_alias: Some(TableAlias("x".to_string())),
        }
    );
}

#[test]
fn the_name_of_a_table_is_its_first_part() {
    assert_eq!(
        table_name_from_object_name(&vec![
            SqlNamePart::Identifier("schema".to_string()),
            SqlNamePart::Identifier("t".to_string()),
        ])
        .unwrap(),
        TableName("schema".to_string())
    );
    assert!(matches!(
        table_name_from_object_name(&vec![]),
        Err(ParseError::EmptyObjectName)
    ));
    assert!(matches!(
        table_name_from_object_name(&vec![SqlNamePart::Other]),
        Err(ParseError::ExpectedIdent)
    ));
}

#[test]
fn an_alias_with_columns_is_refused() {
    assert_eq!(
        from_table_alias(&SqlTableAlias {
            name: "a".to_string(),
            columns: 0,
        })
        .unwrap(),
        TableAlias("a".to_string())
    );
    assert!(matches!(
        from_table_alias(&SqlTableAlias {
            name: "a".to_string(),
            columns: 2,
        }),
        Err(ParseError::TableAliasColumnsNotSupported)
    ));
}

#[test]
fn a_join_must_be_inner_or_left_outer_on_an_identifier() {
    let (kind, left, right) =
        from_join_operator(&SqlJoinOperator::Inner(SqlJoinConstraint::On(ident("id")))).unwrap();
    assert_eq!(kind, JoinType::Inner);
    assert_eq!(left, Column::from("id"));
    assert_eq!(right, Column::from("id"));
    assert!(matches!(
        from_join_operator(&SqlJoinOperator::Other),
        Err(ParseError::Join(JoinParseError::UnsupportedJoinOperator))
    ));
    assert!(matches!(
        from_join_operator(&SqlJoinOperator::Join(SqlJoinConstraint::Other)),
        Err(ParseError::Join(JoinParseError::UnsupportedJoinConstraint))
    ));
    assert!(matches!(
        from_join_operator(&SqlJoinOperator::LeftOuter(SqlJoinConstraint::On(number(
            "1"
        )))),
        Err(ParseError::ExpectedIdent)
    ));
}

#[test]
fn an_identifier_has_one_part_or_two() {
    assert_eq!(
        identifier_from_selection(&ident("name")).unwrap(),
        Column::from("name")
    );
    assert_eq!(
        identifier_from_selection(&SqlExpr::CompoundIdentifier(vec![
            "artist".to_string(),
            "Name".to_string()
        ]))
        .unwrap(),
        Column {
            name: "Name".to_string(),
            table_alias: Some(TableAlias("artist".to_string())),
        }
    );
    for parts in [
        vec![],
        vec!["a".to_string()],
        vec!["a".to_string(), "b".to_string(), "c".to_string()],
    ] {
        assert!(matches!(
            identifier_from_selection(&SqlExpr::CompoundIdentifier(parts)),
            Err(ParseError::ExpectedTwoIdents)
        ));
    }
    assert!(matches!(
        identifier_from_selection(&quoted("name")),
        Err(ParseError::ExpectedIdent)
    ));
}

#[test]
fn the_operators_carry_over() {
    let cases = [
        (SqlBinaryOperator::Eq, Op::Equals),
        (SqlBinaryOperator::Gt, Op::GreaterThan),
        (SqlBinaryOperator::GtEq, Op::GreaterThanOrEqual),
        (SqlBinaryOperator::Lt, Op::LessThan),
        (SqlBinaryOperator::LtEq, Op::LessThanOrEqual),
        (SqlBinaryOperator::Plus, Op::Add),
        (SqlBinaryOperator::Minus, Op::Subtract),
    ];
    for (op, expected) in cases {
        assert_eq!(from_binary_operator(&op).unwrap(), expected);
    }
    assert!(matches!(
        from_binary_operator(&SqlBinaryOperator::Other),
        Err(ParseError::UnknownOperator)
    ));
}

#[test]
fn a_literal_is_a_string_or_what_its_text_is_as_json() {
    assert_eq!(
        value_from_literal(&SqlValue::SingleQuotedString("1".to_string())).unwrap(),
        Value::Str("1".to_string())
    );
    let read = |text: &str| {
        value_from_literal(&SqlValue::Other {
            text: text.to_string(),
        })
    };
    assert_eq!(read("1").unwrap(), Value::Int(1));
    assert_eq!(read("-17").unwrap(), Value::Int(-17));
    assert_eq!(
        read("9223372036854775807").unwrap(),
        Value::Int(i64::MAX)
    );
    assert_eq!(read("1.5").unwrap(), Value::Float(1.5f64.to_bits()));
    assert_eq!(
        read("18446744073709551615").unwrap(),
        Value::Float((u64::MAX as f64).to_bits())
    );
    assert_eq!(read("true").unwrap(), Value::Bool(true));
    assert_eq!(read("null").unwrap(), Value::Null);
    assert_eq!(read("\"horse\"").unwrap(), Value::Str("horse".to_string()));
    assert_eq!(refused(read("NULL")).starts_with("SerdeJsonError(\"NULL\""), true);
    assert_eq!(refused(read("X'1F'")).starts_with("SerdeJsonError("), true);
    assert_eq!(refused(read("[1]")), "ExpectedValue(\"[1]\")");
    assert_eq!(refused(read("{}")), "ExpectedValue(\"{}\")");
}

#[test]
fn a_literal_follows_what_was_read() {
    let text = "7".to_string();
    assert_eq!(
        literal_from_read(&text, Ok(Some(Value::Int(7)))).unwrap(),
        Value::Int(7)
    );
    assert_eq!(
        refused(literal_from_read(&text, Ok(None))),
        "ExpectedValue(\"7\")"
    );
    let error = serde_json::from_str::<serde_json::Value>("nope").unwrap_err();
    assert!(matches!(
        literal_from_read(&"nope".to_string(), Err(error)),
        Err(ParseError::SerdeJsonError(text, _)) if text == "nope"
    ));
}

#[test]
fn a_value_must_be_a_literal() {
    assert_eq!(value_from_selection(&number("3")).unwrap(), Value::Int(3));
    assert_eq!(
        refused(value_from_selection(&ident("n"))),
        "ExpectedValue(\"n\")"
    );
    assert_eq!(
        refused(value_from_selection(&SqlExpr::Other {
            text: "CASE".to_string()
        })),
        "ExpectedValue(\"CASE\")"
    );
}

#[test]
fn expressions_carry_over() {
    let nested = SqlExpr::Nested(Box::new(binary(
        SqlExpr::CompoundIdentifier(vec!["a".to_string(), "x".to_string()]),
        SqlBinaryOperator::Minus,
        quoted("y"),
    )));
    assert_eq!(
        from_selection(&nested).unwrap(),
        Expr::Nested {
            expr: Box::new(Expr::BinaryOperation {
                left: Box::new(Expr::Column {
                    column: Column {
                        name: "x".to_string(),
                        table_alias: Some(TableAlias("a".to_string())),
                    },
                }),
                op: Op::Subtract,
                right: Box::new(Expr::Literal {
                    literal: Value::Str("y".to_string()),
                }),
            }),
        }
    );
}

fn call(name: &str, args: Vec<SqlFunctionArg>, plain: bool) -> SqlExpr {
    SqlExpr::Function {
        name: name.to_string(),
        args,
        plain,
        text: format!("{name}(..)"),
    }
}

#[test]
fn a_plain_call_of_sum_is_the_aggregate() {
    for name in ["sum", "SUM"] {
        assert_eq!(
            from_selection(&call(name, vec![SqlFunctionArg::Expr(ident("n"))], true)).unwrap(),
            Expr::FunctionCall {
                function_name: FunctionName::Aggregate(AggregateFunctionName::Sum),
                args: vec![column("n")],
            }
        );
    }
    assert_eq!(
        from_selection(&call("sum", vec![], true)).unwrap(),
        Expr::FunctionCall {
            function_name: FunctionName::Aggregate(AggregateFunctionName::Sum),
            args: vec![],
        }
    );
}

#[test]
fn any_other_call_is_refused_under_its_text() {
    assert_eq!(
        refused(from_selection(&call(
            "count",
            vec![SqlFunctionArg::Expr(ident("n"))],
            true
        ))),
        "UnknownExprPart { expr: \"count(..)\" }"
    );
    assert_eq!(
        refused(from_selection(&call(
            "sum",
            vec![SqlFunctionArg::Expr(ident("n"))],
            false
        ))),
        "UnknownExprPart { expr: \"sum(..)\" }"
    );
    assert_eq!(
        refused(from_selection(&call(
            "sum",
            vec![SqlFunctionArg::Expr(ident("n")), SqlFunctionArg::Other],
            true
        ))),
        "UnknownExprPart { expr: \"sum(..)\" }"
    );
    assert_eq!(
        refused(from_selection(&SqlExpr::Other {
            text: "a IS NULL".to_string()
        })),
        "UnknownExprPart { expr: \"a IS NULL\" }"
    );
}

#[test]
fn the_left_side_of_an_operation_is_read_first() {
    let both = binary(
        SqlExpr::Other {
            text: "left".to_string(),
        },
        SqlBinaryOperator::Other,
        SqlExpr::Other {
            text: "right".to_string(),
        },
    );
    assert_eq!(
        refused(from_selection(&both)),
        "UnknownExprPart { expr: \"left\" }"
    );
    let operator = binary(
        ident("a"),
        SqlBinaryOperator::Other,
        SqlExpr::Other {
            text: "right".to_string(),
        },
    );
    assert!(matches!(
        from_selection(&operator),
        Err(ParseError::UnknownOperator)
    ));
}

#[test]
fn a_lone_wildcard_is_no_projection() {
    assert_eq!(from_projection(&vec![SqlSelectItem::Wildcard]).unwrap(), None);
    assert_eq!(from_projection(&vec![]).unwrap(), Some(vec![]));
    assert_eq!(
        from_projection(&vec![
            SqlSelectItem::UnnamedExpr(ident("a")),
            SqlSelectItem::UnnamedExpr(number("1")),
        ])
        .unwrap(),
        Some(vec![
            column("a"),
            Expr::Literal {
                literal: Value::Int(1)
            }
        ])
    );
    assert!(matches!(
        from_projection(&vec![SqlSelectItem::Other]),
        Err(ParseError::UnsupportedProjectionField)
    ));
    assert!(matches!(
        from_projection(&vec![
            SqlSelectItem::UnnamedExpr(ident("a")),
            SqlSelectItem::Wildcard
        ]),
        Err(ParseError::UnsupportedProjectionField)
    ));
}

#[test]
fn the_keys_of_an_order_by_are_columns() {
    let key = |sort, nulls_first| SqlOrderByExpr {
        expr: ident("n"),
        sort,
        nulls_first,
    };
    assert_eq!(
        from_order_by(&SqlOrderBy::Expressions(vec![
            key(SqlOrderBySort::Unspecified, None),
            key(SqlOrderBySort::Asc, None),
            key(SqlOrderBySort::Desc, None),
        ]))
        .unwrap(),
        vec![
            OrderByExpr {
                column: Column::from("n"),
                order: Order::Asc
            },
            OrderByExpr {
                column: Column::from("n"),
                order: Order::Asc
            },
            OrderByExpr {
                column: Column::from("n"),
                order: Order::Desc
            },
        ]
    );
    assert!(matches!(
        from_order_by(&SqlOrderBy::Other),
        Err(ParseError::OrderBy(OrderByParseError::UnsupportedOrderBy))
    ));
    assert!(matches!(
        from_order_by(&SqlOrderBy::Expressions(vec![key(
            SqlOrderBySort::Other,
            None
        )])),
        Err(ParseError::OrderBy(OrderByParseError::UnsupportedOrderBy))
    ));
    assert!(matches!(
        from_order_by(&SqlOrderBy::Expressions(vec![key(
            SqlOrderBySort::Asc,
            Some(false)
        )])),
        Err(ParseError::OrderBy(
            OrderByParseError::NullsFirstNotSupported
        ))
    ));
    assert!(matches!(
        from_order_by(&SqlOrderBy::Expressions(vec![SqlOrderByExpr {
            expr: number("1"),
            sort: SqlOrderBySort::Asc,
            nulls_first: Some(true),
        }])),
        Err(ParseError::ExpectedIdent)
    ));
}

#[test]
fn a_limit_is_an_integer_that_is_not_negative() {
    let limit = |expr: Option<SqlExpr>| SqlLimitClause::LimitOffset {
        limit: expr,
        offset: false,
        limit_by: false,
    };
    assert_eq!(from_limit(&limit(Some(number("10")))).unwrap(), 10);
    assert_eq!(from_limit(&limit(Some(number("0")))).unwrap(), 0);
    assert_eq!(
        from_limit(&limit(Some(number("9223372036854775807")))).unwrap(),
        i64::MAX as u64
    );
    for refused in [
        Some(number("-1")),
        Some(number("1.5")),
        Some(quoted("5")),
        Some(number("true")),
        None,
    ] {
        assert!(matches!(
            from_limit(&limit(refused)),
            Err(ParseError::LimitMustBeInt)
        ));
    }
    assert_eq!(
        format!("{:?}", from_limit(&limit(Some(ident("n")))).unwrap_err()),
        "ExpectedValue(\"n\")"
    );
}

#[test]
fn an_offset_and_a_limit_by_are_refused() {
    assert!(matches!(
        from_limit(&SqlLimitClause::OffsetCommaLimit),
        Err(ParseError::OffsetCommaLimitNotSupported)
    ));
    assert!(matches!(
        from_limit(&SqlLimitClause::LimitOffset {
            limit: Some(number("1")),
            offset: true,
            limit_by: true,
        }),
        Err(ParseError::OffsetNotSupported)
    ));
    assert!(matches!(
        from_limit(&SqlLimitClause::LimitOffset {
            limit: Some(number("1")),
            offset: false,
            limit_by: true,
        }),
        Err(ParseError::LimitByNotSupported)
    ));
}
