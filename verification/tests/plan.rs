use sqlengine::catalog::{Catalog, ConstructedIndexes, Table};
use sqlengine::database::Database;
use sqlengine::indexes::{construct_index, Index};
use sqlengine::query::to_physical_plan::{columns_in_filter, find_index, to_physical_plan};
use sqlengine::query::{execute, plan_is_known, query_is_known, run_query};
use sqlengine::source::{RawRecord, RowSource, SourceTable};
use sqlengine::types::{
    Column, Expr, Filter, From, IndexScan, Join, JoinOn, JoinType, Limit, Op, Order, OrderBy,
    OrderByExpr, PhysicalPlan, Project, Query, Row, TableAlias, TableName, TableScan,
};
use sqlengine::value::Value;

fn artist(id: i64, name: &str) -> RawRecord {
    RawRecord {
        fields: vec![
            ("ArtistId".to_string(), Value::Int(id)),
            ("Name".to_string(), Value::Str(name.to_string())),
        ],
    }
}

fn artists() -> Vec<RawRecord> {
    vec![
        artist(1, "AC/DC"),
        artist(2, "Accept"),
        artist(3, "Aerosmith"),
        artist(2, "Accept again"),
    ]
}

fn artist_primary_index() -> Index {
    Index {
        table_name: TableName("Artist".into()),
        columns: vec!["ArtistId".into()],
    }
}

fn artist_indexes() -> ConstructedIndexes {
    let index = artist_primary_index();
    let constructed = construct_index(&index, &artists());
    ConstructedIndexes {
        indexes: vec![(TableName("Artist".into()), vec![(index, constructed)])],
    }
}

fn from_artist(alias: Option<&str>) -> Query {
    Query::From(From {
        table_name: TableName("Artist".into()),
        table_alias: alias.map(|a| TableAlias(a.to_string())),
    })
}

fn column(name: &str) -> Expr {
    Expr::Column {
        column: Column {
            name: name.to_string(),
            table_alias: None,
        },
    }
}

fn equals(left: Expr, right: Expr) -> Expr {
    Expr::BinaryOperation {
        left: Box::new(left),
        op: Op::Equals,
        right: Box::new(right),
    }
}

fn whole(i: i64) -> Expr {
    Expr::Literal {
        literal: Value::Int(i),
    }
}

#[test]
fn test_filter_to_index_scan() {
    let indexes = artist_indexes();

    let logical_plan = Query::Filter(Filter {
        from: Box::new(Query::From(From {
            table_name: TableName("Artist".into()),
            table_alias: None,
        })),
        filter: equals(column("ArtistId"), whole(1)),
    });

    let expected = PhysicalPlan::IndexScan(IndexScan {
        table_name: TableName("Artist".into()),
        table_alias: None,
        index: artist_primary_index(),
        values: vec![vec![Value::Int(1)]],
    });

    assert_eq!(to_physical_plan(logical_plan, &indexes), expected);
}

#[test]
fn the_mirror_of_an_equality_binds_too() {
    let plan = to_physical_plan(
        Query::Filter(Filter {
            from: Box::new(from_artist(Some("a"))),
            filter: equals(whole(3), column("ArtistId")),
        }),
        &artist_indexes(),
    );
    assert_eq!(
        plan,
        PhysicalPlan::IndexScan(IndexScan {
            table_name: TableName("Artist".into()),
            table_alias: Some(TableAlias("a".to_string())),
            index: artist_primary_index(),
            values: vec![vec![Value::Int(3)]],
        })
    );
}

#[test]
fn a_filter_that_binds_no_index_column_stays() {
    let filter = || equals(column("Name"), whole(1));
    let plan = to_physical_plan(
        Query::Filter(Filter {
            from: Box::new(from_artist(None)),
            filter: filter(),
        }),
        &artist_indexes(),
    );
    assert_eq!(
        plan,
        PhysicalPlan::Filter {
            from: Box::new(PhysicalPlan::TableScan(TableScan {
                table_name: TableName("Artist".into()),
                table_alias: None,
            })),
            filter: filter(),
        }
    );
}

#[test]
fn a_filter_that_is_no_equality_stays() {
    let filter = || Expr::BinaryOperation {
        left: Box::new(column("ArtistId")),
        op: Op::GreaterThan,
        right: Box::new(whole(1)),
    };
    let plan = to_physical_plan(
        Query::Filter(Filter {
            from: Box::new(from_artist(None)),
            filter: filter(),
        }),
        &artist_indexes(),
    );
    assert!(matches!(plan, PhysicalPlan::Filter { .. }));
    let nested = || Expr::Nested {
        expr: Box::new(equals(column("ArtistId"), whole(1))),
    };
    let plan = to_physical_plan(
        Query::Filter(Filter {
            from: Box::new(from_artist(None)),
            filter: nested(),
        }),
        &artist_indexes(),
    );
    assert!(matches!(plan, PhysicalPlan::Filter { .. }));
}

#[test]
fn a_filter_over_another_operator_stays() {
    let plan = to_physical_plan(
        Query::Filter(Filter {
            from: Box::new(Query::Limit(Limit {
                from: Box::new(from_artist(None)),
                limit: 2,
            })),
            filter: equals(column("ArtistId"), whole(1)),
        }),
        &artist_indexes(),
    );
    assert_eq!(
        plan,
        PhysicalPlan::Filter {
            from: Box::new(PhysicalPlan::Limit {
                from: Box::new(PhysicalPlan::TableScan(TableScan {
                    table_name: TableName("Artist".into()),
                    table_alias: None,
                })),
                limit: 2,
            }),
            filter: equals(column("ArtistId"), whole(1)),
        }
    );
}

#[test]
fn every_other_operator_keeps_its_shape() {
    let on = || JoinOn {
        left: Column::from("ArtistId"),
        right: Column::from("ArtistId"),
    };
    let keys = || {
        vec![OrderByExpr {
            column: Column::from("Name"),
            order: Order::Desc,
        }]
    };
    let logical = Query::Limit(Limit {
        limit: 4,
        from: Box::new(Query::OrderBy(OrderBy {
            order_by_exprs: keys(),
            from: Box::new(Query::Project(Project {
                fields: vec![column("Name")],
                from: Box::new(Query::Join(Join {
                    join_type: JoinType::LeftOuter,
                    left_from: Box::new(from_artist(None)),
                    right_from: Box::new(Query::Filter(Filter {
                        from: Box::new(from_artist(Some("b"))),
                        filter: equals(column("ArtistId"), whole(2)),
                    })),
                    on: on(),
                })),
            })),
        })),
    });
    let expected = PhysicalPlan::Limit {
        limit: 4,
        from: Box::new(PhysicalPlan::OrderBy {
            order_by_exprs: keys(),
            from: Box::new(PhysicalPlan::Project {
                fields: vec![column("Name")],
                from: Box::new(PhysicalPlan::Join {
                    join_type: JoinType::LeftOuter,
                    left_from: Box::new(PhysicalPlan::TableScan(TableScan {
                        table_name: TableName("Artist".into()),
                        table_alias: None,
                    })),
                    right_from: Box::new(PhysicalPlan::IndexScan(IndexScan {
                        table_name: TableName("Artist".into()),
                        table_alias: Some(TableAlias("b".to_string())),
                        index: artist_primary_index(),
                        values: vec![vec![Value::Int(2)]],
                    })),
                    on: on(),
                }),
            }),
        }),
    };
    assert_eq!(to_physical_plan(logical, &artist_indexes()), expected);
}

#[test]
fn the_first_covered_index_is_taken() {
    let by_name = Index {
        table_name: TableName("Artist".into()),
        columns: vec!["Name".into()],
    };
    let by_both = Index {
        table_name: TableName("Artist".into()),
        columns: vec!["ArtistId".into(), "Name".into()],
    };
    let twice = Index {
        table_name: TableName("Artist".into()),
        columns: vec!["ArtistId".into(), "ArtistId".into()],
    };
    let build = |index: &Index| (index.clone(), construct_index(index, &artists()));
    let indexes = ConstructedIndexes {
        indexes: vec![
            (TableName("Album".into()), vec![build(&artist_primary_index())]),
            (
                TableName("Artist".into()),
                vec![
                    build(&by_name),
                    build(&by_both),
                    build(&twice),
                    build(&artist_primary_index()),
                ],
            ),
        ],
    };
    let id = "ArtistId".to_string();
    let found = find_index(
        &indexes,
        &TableName("Artist".into()),
        Some((&id, &Value::Int(2))),
    );
    assert_eq!(found, Some((&twice, vec![vec![Value::Int(2), Value::Int(2)]])));
    assert_eq!(
        find_index(&indexes, &TableName("Artist".into()), None),
        None
    );
    assert_eq!(
        find_index(
            &indexes,
            &TableName("Track".into()),
            Some((&id, &Value::Int(2)))
        ),
        None
    );
}

#[test]
fn the_binding_of_a_filter_is_its_column_and_its_literal() {
    let filter = equals(column("ArtistId"), whole(5));
    assert_eq!(
        columns_in_filter(&filter),
        Some((&"ArtistId".to_string(), &Value::Int(5)))
    );
    assert_eq!(columns_in_filter(&equals(column("a"), column("b"))), None);
    assert_eq!(columns_in_filter(&equals(whole(1), whole(1))), None);
    assert_eq!(columns_in_filter(&column("a")), None);
}

fn artist_database() -> Database {
    let catalog = Catalog {
        tables: vec![(
            TableName("Artist".into()),
            Table {
                columns: vec!["ArtistId".into(), "Name".into()],
                indexes: vec![artist_primary_index()],
            },
        )],
    };
    let source = RowSource {
        tables: vec![SourceTable {
            table_name: TableName("Artist".into()),
            records: artists(),
        }],
    };
    match Database::new(catalog, source) {
        Ok(db) => db,
        Err(error) => panic!("{error:?}"),
    }
}

fn artist_row(id: i64, name: &str) -> Row {
    Row {
        items: vec![Value::Int(id), Value::Str(name.to_string())],
    }
}

#[test]
fn an_index_scan_gives_what_the_filter_over_the_scan_gives() {
    let db = artist_database();
    for id in [1, 2, 3, 4] {
        let probed = execute(
            &PhysicalPlan::IndexScan(IndexScan {
                table_name: TableName("Artist".into()),
                table_alias: None,
                index: artist_primary_index(),
                values: vec![vec![Value::Int(id)]],
            }),
            &db,
        )
        .unwrap();
        let filtered = execute(
            &PhysicalPlan::Filter {
                from: Box::new(PhysicalPlan::TableScan(TableScan {
                    table_name: TableName("Artist".into()),
                    table_alias: None,
                })),
                filter: equals(column("ArtistId"), whole(id)),
            },
            &db,
        )
        .unwrap();
        assert_eq!(probed.rows, filtered.rows);
        assert_eq!(probed.schema, filtered.schema);
        assert_eq!(probed.cost.rows_processed, probed.rows.len() as u64);
        assert_eq!(filtered.cost.rows_processed, 8);
    }
}

#[test]
fn an_index_scan_gives_the_rows_of_each_key_in_scan_order() {
    let db = artist_database();
    let step = execute(
        &PhysicalPlan::IndexScan(IndexScan {
            table_name: TableName("Artist".into()),
            table_alias: None,
            index: artist_primary_index(),
            values: vec![vec![Value::Int(2)], vec![Value::Int(9)], vec![Value::Int(1)]],
        }),
        &db,
    )
    .unwrap();
    assert_eq!(
        step.rows,
        vec![
            artist_row(2, "Accept"),
            artist_row(2, "Accept again"),
            artist_row(1, "AC/DC"),
        ]
    );
    assert_eq!(step.cost.rows_processed, 3);
}

#[test]
fn an_index_that_was_not_built_is_probed_by_reading_every_row() {
    let db = artist_database();
    let by_name = Index {
        table_name: TableName("Artist".into()),
        columns: vec!["Name".into()],
    };
    let step = execute(
        &PhysicalPlan::IndexScan(IndexScan {
            table_name: TableName("Artist".into()),
            table_alias: None,
            index: by_name,
            values: vec![vec![Value::Str("Aerosmith".to_string())]],
        }),
        &db,
    )
    .unwrap();
    assert_eq!(step.rows, vec![artist_row(3, "Aerosmith")]);
    let missing = Index {
        table_name: TableName("Artist".into()),
        columns: vec!["Born".into()],
    };
    let step = execute(
        &PhysicalPlan::IndexScan(IndexScan {
            table_name: TableName("Artist".into()),
            table_alias: None,
            index: missing,
            values: vec![vec![Value::Null]],
        }),
        &db,
    )
    .unwrap();
    assert_eq!(step.rows.len(), 4);
}

#[test]
fn a_plan_is_known_when_the_catalog_has_its_tables() {
    let db = artist_database();
    assert!(query_is_known(&from_artist(None), &db));
    let unknown = Query::From(From {
        table_name: TableName("Album".into()),
        table_alias: None,
    });
    assert!(!query_is_known(&unknown, &db));
    let join = Query::Join(Join {
        join_type: JoinType::Inner,
        left_from: Box::new(from_artist(None)),
        right_from: Box::new(unknown),
        on: JoinOn {
            left: Column::from("ArtistId"),
            right: Column::from("ArtistId"),
        },
    });
    assert!(!query_is_known(&join, &db));
    assert!(plan_is_known(
        &PhysicalPlan::Limit {
            from: Box::new(PhysicalPlan::TableScan(TableScan {
                table_name: TableName("Artist".into()),
                table_alias: None,
            })),
            limit: 1,
        },
        &db
    ));
    assert!(!plan_is_known(
        &PhysicalPlan::TableScan(TableScan {
            table_name: TableName("artist".into()),
            table_alias: None,
        }),
        &db
    ));
}

#[test]
fn the_planned_query_gives_the_rows_of_the_filter() {
    let db = artist_database();
    for id in [1, 2, 3, 4] {
        for filter in [
            equals(column("ArtistId"), whole(id)),
            equals(whole(id), column("ArtistId")),
        ] {
            let planned = run_query(
                Query::Filter(Filter {
                    from: Box::new(from_artist(None)),
                    filter,
                }),
                &db,
            )
            .unwrap();
            let filtered = execute(
                &PhysicalPlan::Filter {
                    from: Box::new(PhysicalPlan::TableScan(TableScan {
                        table_name: TableName("Artist".into()),
                        table_alias: None,
                    })),
                    filter: equals(column("ArtistId"), whole(id)),
                },
                &db,
            )
            .unwrap();
            assert_eq!(planned.rows, filtered.rows);
            assert_eq!(planned.schema, filtered.schema);
        }
    }
}
