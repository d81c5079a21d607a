//! The database that queries run over: a catalog, the rows of its tables
//! and the indexes built over them, checked to fit together.

use vstd::prelude::*;
use crate::catalog::{
    catalog_table, construct_indexes_spec, lemma_catalog_table_from, Catalog, CatalogView,
    ConfigError, ConfigErrorView, ConstructedIndexes, ConstructedIndexesView,
};
use crate::source::{
    record_get, record_has_columns, records_view, source_rows, strings_view, RawRecord, RecordView,
    RowSource, SourceView,
};
use crate::types::TableName;

verus! {

/// The first of the first `n` columns that a record lacks.
pub open spec fn missing_column(record: RecordView, columns: Seq<Seq<char>>, n: nat) -> Option<Seq<char>>
    decreases n,
{
    if n == 0 {
        None
    } else {
        match missing_column(record, columns, (n - 1) as nat) {
            Some(column) => Some(column),
            None => if record_get(record, columns[n - 1]) is None {
                Some(columns[n - 1])
            } else {
                None
            },
        }
    }
}

/// The column that the first faulty record among the first `n` lacks.
pub open spec fn records_fault(records: Seq<RecordView>, columns: Seq<Seq<char>>, n: nat) -> Option<Seq<char>>
    decreases n,
{
    if n == 0 {
        None
    } else {
        match records_fault(records, columns, (n - 1) as nat) {
            Some(column) => Some(column),
            None => missing_column(records[n - 1], columns, columns.len()),
        }
    }
}

/// The fault of one table: the source does not know it, or a record lacks
/// a declared column.
pub open spec fn table_fault(name: Seq<char>, columns: Seq<Seq<char>>, source: SourceView) -> Option<ConfigErrorView> {
    match source_rows(source, name) {
        None => Some(ConfigErrorView::UnknownTable { table_name: name }),
        Some(records) => match records_fault(records, columns, records.len()) {
            Some(column) => Some(ConfigErrorView::MissingColumn { table_name: name, column }),
            None => None,
        },
    }
}

/// The fault of the first faulty table among the first `n` of a catalog.
pub open spec fn catalog_fault(catalog: CatalogView, source: SourceView, n: nat) -> Option<ConfigErrorView>
    decreases n,
{
    if n == 0 {
        None
    } else {
        match catalog_fault(catalog, source, (n - 1) as nat) {
            Some(fault) => Some(fault),
            None => table_fault(catalog[n - 1].0, catalog[n - 1].1.columns, source),
        }
    }
}

/// The source holds every table of the catalog, and each record of a table
/// has a value under each declared column.
pub open spec fn source_fits(catalog: CatalogView, source: SourceView) -> bool {
    forall|t: int|
        0 <= t < catalog.len() ==> table_fault(
            (#[trigger] catalog[t]).0,
            catalog[t].1.columns,
            source,
        ) is None
}

/// A record without a missing column has every column.
pub proof fn lemma_missing_column(record: RecordView, columns: Seq<Seq<char>>, n: nat)
    requires
        n <= columns.len(),
        missing_column(record, columns, n) is None,
    ensures
        forall|j: int| 0 <= j < n ==> (#[trigger] record_get(record, columns[j])) is Some,
    decreases n,
{
    if n > 0 {
        lemma_missing_column(record, columns, (n - 1) as nat);
    }
}

/// Records without a fault have every column, each of them.
pub proof fn lemma_records_fault(records: Seq<RecordView>, columns: Seq<Seq<char>>, n: nat)
    requires
        n <= records.len(),
        records_fault(records, columns, n) is None,
    ensures
        forall|i: int| 0 <= i < n ==> record_has_columns(#[trigger] records[i], columns),
    decreases n,
{
    if n > 0 {
        lemma_records_fault(records, columns, (n - 1) as nat);
        lemma_missing_column(records[n - 1], columns, columns.len());
    }
}

/// Once a record has a fault, more records have the same fault.
pub proof fn lemma_records_fault_stays(
    records: Seq<RecordView>,
    columns: Seq<Seq<char>>,
    failed: nat,
    n: nat,
)
    requires
        records_fault(records, columns, failed) is Some,
        failed <= n,
    ensures
        records_fault(records, columns, n) == records_fault(records, columns, failed),
    decreases n,
{
    if failed < n {
        lemma_records_fault_stays(records, columns, failed, (n - 1) as nat);
    }
}

/// Once a column is missing, it stays the first missing one.
pub proof fn lemma_missing_column_stays(
    record: RecordView,
    columns: Seq<Seq<char>>,
    failed: nat,
    n: nat,
)
    requires
        missing_column(record, columns, failed) is Some,
        failed <= n,
    ensures
        missing_column(record, columns, n) == missing_column(record, columns, failed),
    decreases n,
{
    if failed < n {
        lemma_missing_column_stays(record, columns, failed, (n - 1) as nat);
    }
}

/// A catalog without a fault fits its source.
pub proof fn lemma_catalog_fault(catalog: CatalogView, source: SourceView, n: nat)
    requires
        n <= catalog.len(),
        catalog_fault(catalog, source, n) is None,
    ensures
        forall|t: int|
            0 <= t < n ==> table_fault((#[trigger] catalog[t]).0, catalog[t].1.columns, source)
                is None,
    decreases n,
{
    if n > 0 {
        lemma_catalog_fault(catalog, source, (n - 1) as nat);
    }
}

/// Once a table has a fault, more tables have the same fault.
pub proof fn lemma_catalog_fault_stays(catalog: CatalogView, source: SourceView, failed: nat, n: nat)
    requires
        catalog_fault(catalog, source, failed) is Some,
        failed <= n,
    ensures
        catalog_fault(catalog, source, n) == catalog_fault(catalog, source, failed),
    decreases n,
{
    if failed < n {
        lemma_catalog_fault_stays(catalog, source, failed, (n - 1) as nat);
    }
}

/// In a source that fits, a table of the catalog has its records, and each
/// record has each declared column.
pub proof fn lemma_known_table_has_rows(catalog: CatalogView, source: SourceView, name: Seq<char>)
    requires
        source_fits(catalog, source),
        catalog_table(catalog, name) is Some,
    ensures
        source_rows(source, name) is Some,
        forall|i: int|
            0 <= i < source_rows(source, name)->0.len() ==> record_has_columns(
                #[trigger] source_rows(source, name)->0[i],
                catalog_table(catalog, name)->0.columns,
            ),
{
    lemma_catalog_table_from(catalog, name, 0);
    let table = catalog_table(catalog, name)->0;
    let t = choose|t: int| 0 <= t < catalog.len() && #[trigger] catalog[t] == (name, table);
    assert(table_fault(catalog[t].0, catalog[t].1.columns, source) is None);
    let records = source_rows(source, name)->0;
    lemma_records_fault(records, table.columns, records.len());
}

fn first_missing_column(record: &RawRecord, columns: &Vec<String>) -> (r: Option<usize>)
    ensures
        match r {
            Some(j) => j < columns@.len() && missing_column(
                record@,
                strings_view(columns@),
                columns@.len(),
            ) == Some(columns@[j as int]@),
            None => missing_column(record@, strings_view(columns@), columns@.len()) is None,
        },
{
    let ghost names = strings_view(columns@);
    let mut j: usize = 0;
    while j < columns.len()
        invariant
            j <= columns.len(),
            names == strings_view(columns@),
            missing_column(record@, names, j as nat) is None,
        decreases columns.len() - j,
    {
        assert(names[j as int] == columns@[j as int]@);
        if record.get(&columns[j]).is_none() {
            proof {
                lemma_missing_column_stays(record@, names, (j + 1) as nat, columns@.len());
            }
            return Some(j);
        }
        j += 1;
    }
    None
}

fn first_records_fault(records: &Vec<RawRecord>, columns: &Vec<String>) -> (r: Option<usize>)
    ensures
        match r {
            Some(j) => j < columns@.len() && records_fault(
                records_view(records@),
                strings_view(columns@),
                records@.len(),
            ) == Some(columns@[j as int]@),
            None => records_fault(records_view(records@), strings_view(columns@), records@.len())
                is None,
        },
{
    let ghost names = strings_view(columns@);
    let ghost views = records_view(records@);
    let mut i: usize = 0;
    while i < records.len()
        invariant
            i <= records.len(),
            names == strings_view(columns@),
            views == records_view(records@),
            records_fault(views, names, i as nat) is None,
        decreases records.len() - i,
    {
        assert(views[i as int] == records@[i as int]@);
        match first_missing_column(&records[i], columns) {
            Some(j) => {
                proof {
                    lemma_records_fault_stays(views, names, (i + 1) as nat, records@.len());
                }
                return Some(j);
            },
            None => {},
        }
        i += 1;
    }
    None
}

fn check_source(catalog: &Catalog, source: &RowSource) -> (r: Option<ConfigError>)
    ensures
        match r {
            Some(e) => catalog_fault(catalog@, source@, catalog@.len()) == Some(e@),
            None => catalog_fault(catalog@, source@, catalog@.len()) is None,
        },
{
    let mut t: usize = 0;
    while t < catalog.tables.len()
        invariant
            t <= catalog.tables.len(),
            catalog_fault(catalog@, source@, t as nat) is None,
        decreases catalog.tables.len() - t,
    {
        let table_name = &catalog.tables[t].0;
        let table = &catalog.tables[t].1;
        assert(catalog@[t as int] == (table_name@, table@));
        let fault = match source.raw_rows_for_table(table_name) {
            None => Some(ConfigError::UnknownTable { table_name: table_name.clone() }),
            Some(records) => match first_records_fault(records, &table.columns) {
                Some(j) => Some(
                    ConfigError::MissingColumn {
                        table_name: table_name.clone(),
                        column: table.columns[j].clone(),
                    },
                ),
                None => None,
            },
        };
        match fault {
            Some(e) => {
                proof {
                    lemma_catalog_fault_stays(catalog@, source@, (t + 1) as nat, catalog@.len());
                }
                return Some(e);
            },
            None => {},
        }
        t += 1;
    }
    None
}

/// A catalog, the rows of its tables, and the indexes built over them.
///
/// A database is valid by construction: the source holds every table of the
/// catalog, every record has every declared column, and each index holds
/// what its declaration gives over the rows of its table.
pub struct Database {
    catalog: Catalog,
    source: RowSource,
    indexes: ConstructedIndexes,
}

impl Database {
    /// The source fits the catalog, and the indexes are those of the
    /// catalog over the source.
    #[verifier::type_invariant]
    pub closed spec fn valid(&self) -> bool {
        &&& source_fits(self.catalog@, self.source@)
        &&& construct_indexes_spec(self.catalog@, self.source@, self.catalog@.len()) == Ok::<
            ConstructedIndexesView,
            ConfigErrorView,
        >(self.indexes@)
    }

    /// The catalog, as a mathematical value.
    pub closed spec fn catalog_view(&self) -> CatalogView {
        self.catalog@
    }

    /// The rows of the tables, as a mathematical value.
    pub closed spec fn source_view(&self) -> SourceView {
        self.source@
    }

    /// The indexes, as a mathematical value.
    pub closed spec fn indexes_view(&self) -> ConstructedIndexesView {
        self.indexes@
    }

    /// What validity means.
    pub proof fn lemma_valid(&self)
        requires
            self.valid(),
        ensures
            source_fits(self.catalog_view(), self.source_view()),
            construct_indexes_spec(
                self.catalog_view(),
                self.source_view(),
                self.catalog_view().len(),
            ) == Ok::<ConstructedIndexesView, ConfigErrorView>(self.indexes_view()),
    {
    }

    /// Checks that `source` fits `catalog`, table by table and record by
    /// record, then builds the indexes. The first fault found is returned:
    /// a table that the source does not know, a record that lacks a
    /// declared column, or an index on a table that the source does not
    /// know.
    pub fn new(catalog: Catalog, source: RowSource) -> (r: Result<Database, ConfigError>)
        ensures
            match r {
                Ok(db) => {
                    &&& db.catalog_view() == catalog@
                    &&& db.source_view() == source@
                    &&& catalog_fault(catalog@, source@, catalog@.len()) is None
                    &&& construct_indexes_spec(catalog@, source@, catalog@.len()) == Ok::<
                        ConstructedIndexesView,
                        ConfigErrorView,
                    >(db.indexes_view())
                },
                Err(e) => match catalog_fault(catalog@, source@, catalog@.len()) {
                    Some(fault) => e@ == fault,
                    None => construct_indexes_spec(catalog@, source@, catalog@.len()) == Err::<
                        ConstructedIndexesView,
                        ConfigErrorView,
                    >(e@),
                },
            },
    {
        match check_source(&catalog, &source) {
            Some(e) => {
                return Err(e);
            },
            None => {},
        }
        proof {
            lemma_catalog_fault(catalog@, source@, catalog@.len());
        }
        match catalog.construct_indexes(&source) {
            Ok(indexes) => Ok(Database { catalog, source, indexes }),
            Err(e) => Err(e),
        }
    }

    /// The catalog.
    pub fn catalog(&self) -> (r: &Catalog)
        ensures
            r@ == self.catalog_view(),
    {
        &self.catalog
    }

    /// The row source.
    pub fn source(&self) -> (r: &RowSource)
        ensures
            r@ == self.source_view(),
    {
        &self.source
    }

    /// The constructed indexes.
    pub fn indexes(&self) -> (r: &ConstructedIndexes)
        ensures
            r@ == self.indexes_view(),
    {
        &self.indexes
    }

    /// Whether the catalog has a table named `table_name`.
    pub fn knows_table(&self, table_name: &TableName) -> (r: bool)
        ensures
            r == catalog_table(self.catalog_view(), table_name@) is Some,
    {
        self.catalog.table(table_name).is_some()
    }
}

} // verus!
