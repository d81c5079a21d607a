//! The catalog: for each table its declared columns and its index
//! declarations.

use vstd::prelude::*;
use crate::indexes::{built_index, construct_index, record_keys, ConstructedIndex, Index, IndexView};
use crate::source::{source_rows, strings_view, RowSource, SourceView};
use crate::types::TableName;

verus! {

/// A table: its columns, in declaration order, and its indexes.
#[derive(Debug, PartialEq)]
pub struct Table {
    pub columns: Vec<String>,
    pub indexes: Vec<Index>,
}

/// The mathematical value of a [`Table`].
pub ghost struct TableView {
    pub columns: Seq<Seq<char>>,
    pub indexes: Seq<IndexView>,
}

/// The views of a vector of index declarations, in order.
pub open spec fn indexes_view(indexes: Seq<Index>) -> Seq<IndexView> {
    Seq::new(indexes.len(), |i: int| indexes[i]@)
}

impl View for Table {
    type V = TableView;

    open spec fn view(&self) -> TableView {
        TableView { columns: strings_view(self.columns@), indexes: indexes_view(self.indexes@) }
    }
}

/// The tables of a database, by name. Where a name stands twice, the first
/// counts.
#[derive(Debug, PartialEq)]
pub struct Catalog {
    pub tables: Vec<(TableName, Table)>,
}

/// The mathematical value of a [`Catalog`]: the tables by name, in order.
pub type CatalogView = Seq<(Seq<char>, TableView)>;

impl View for Catalog {
    type V = CatalogView;

    open spec fn view(&self) -> CatalogView {
        Seq::new(self.tables@.len(), |i: int| (self.tables@[i].0@, self.tables@[i].1@))
    }
}

/// The first table named `name`, from position `from` on.
pub open spec fn catalog_table_from(catalog: CatalogView, name: Seq<char>, from: int) -> Option<TableView>
    decreases catalog.len() - from,
{
    if from < 0 || from >= catalog.len() {
        None
    } else if catalog[from].0 == name {
        Some(catalog[from].1)
    } else {
        catalog_table_from(catalog, name, from + 1)
    }
}

/// The table named `name`, if the catalog has one.
pub open spec fn catalog_table(catalog: CatalogView, name: Seq<char>) -> Option<TableView> {
    catalog_table_from(catalog, name, 0)
}

/// What `catalog_table_from` finds is an entry of the catalog.
pub proof fn lemma_catalog_table_from(catalog: CatalogView, name: Seq<char>, from: int)
    requires
        0 <= from,
    ensures
        match catalog_table_from(catalog, name, from) {
            Some(table) => exists|i: int|
                from <= i < catalog.len() && #[trigger] catalog[i] == (name, table),
            None => true,
        },
    decreases catalog.len() - from,
{
    if from < catalog.len() && catalog[from].0 != name {
        lemma_catalog_table_from(catalog, name, from + 1);
    }
}

/// A fault in how the catalog and the row source fit together.
#[derive(Debug, PartialEq)]
pub enum ConfigError {
    UnknownTable { table_name: TableName },
    MissingColumn { table_name: TableName, column: String },
}

/// The mathematical value of a [`ConfigError`].
pub ghost enum ConfigErrorView {
    UnknownTable { table_name: Seq<char> },
    MissingColumn { table_name: Seq<char>, column: Seq<char> },
}

impl View for ConfigError {
    type V = ConfigErrorView;

    open spec fn view(&self) -> ConfigErrorView {
        match self {
            ConfigError::UnknownTable { table_name } => ConfigErrorView::UnknownTable {
                table_name: table_name@,
            },
            ConfigError::MissingColumn { table_name, column } => ConfigErrorView::MissingColumn {
                table_name: table_name@,
                column: column@,
            },
        }
    }
}

/// The constructed indexes of every table, in the order of the catalog.
#[derive(Debug, PartialEq)]
pub struct ConstructedIndexes {
    pub indexes: Vec<(TableName, Vec<(Index, ConstructedIndex)>)>,
}

/// The mathematical value of the constructed indexes of one table.
pub type TableIndexesView = Seq<(IndexView, Map<u64, Seq<int>>)>;

/// The mathematical value of [`ConstructedIndexes`].
pub type ConstructedIndexesView = Seq<(Seq<char>, TableIndexesView)>;

/// The views of the constructed indexes of one table.
pub open spec fn table_indexes_view(indexes: Seq<(Index, ConstructedIndex)>) -> TableIndexesView {
    Seq::new(indexes.len(), |i: int| (indexes[i].0@, indexes[i].1@))
}

impl View for ConstructedIndexes {
    type V = ConstructedIndexesView;

    open spec fn view(&self) -> ConstructedIndexesView {
        Seq::new(
            self.indexes@.len(),
            |i: int| (self.indexes@[i].0@, table_indexes_view(self.indexes@[i].1@)),
        )
    }
}

/// The index that a declaration gives over the rows of its table, or the
/// error of a table that the source does not know.
pub open spec fn constructed_index_spec(index: IndexView, source: SourceView) -> Result<
    (IndexView, Map<u64, Seq<int>>),
    ConfigErrorView,
> {
    match source_rows(source, index.table_name) {
        None => Err(ConfigErrorView::UnknownTable { table_name: index.table_name }),
        Some(records) => Ok(
            (index, built_index(record_keys(records, index.columns), records.len() as int)),
        ),
    }
}

/// The constructed indexes of the first `n` declarations of a table; the
/// first that fails decides.
pub open spec fn table_indexes_spec(indexes: Seq<IndexView>, source: SourceView, n: nat) -> Result<
    TableIndexesView,
    ConfigErrorView,
>
    decreases n,
{
    if n == 0 {
        Ok(Seq::empty())
    } else {
        match table_indexes_spec(indexes, source, (n - 1) as nat) {
            Err(e) => Err(e),
            Ok(built) => match constructed_index_spec(indexes[n - 1], source) {
                Err(e) => Err(e),
                Ok(entry) => Ok(built.push(entry)),
            },
        }
    }
}

/// The constructed indexes of the first `n` tables of a catalog; the first
/// table that fails decides.
pub open spec fn construct_indexes_spec(catalog: CatalogView, source: SourceView, n: nat) -> Result<
    ConstructedIndexesView,
    ConfigErrorView,
>
    decreases n,
{
    if n == 0 {
        Ok(Seq::empty())
    } else {
        match construct_indexes_spec(catalog, source, (n - 1) as nat) {
            Err(e) => Err(e),
            Ok(built) => match table_indexes_spec(
                catalog[n - 1].1.indexes,
                source,
                catalog[n - 1].1.indexes.len(),
            ) {
                Err(e) => Err(e),
                Ok(entry) => Ok(built.push((catalog[n - 1].0, entry))),
            },
        }
    }
}

/// Once a declaration has failed, more declarations fail in the same way.
pub proof fn lemma_table_indexes_error_stays(
    indexes: Seq<IndexView>,
    source: SourceView,
    failed: nat,
    n: nat,
)
    requires
        table_indexes_spec(indexes, source, failed) is Err,
        failed <= n,
    ensures
        table_indexes_spec(indexes, source, n) == table_indexes_spec(indexes, source, failed),
    decreases n,
{
    if failed < n {
        lemma_table_indexes_error_stays(indexes, source, failed, (n - 1) as nat);
    }
}

/// Once a table has failed, more tables fail in the same way.
pub proof fn lemma_construct_indexes_error_stays(
    catalog: CatalogView,
    source: SourceView,
    failed: nat,
    n: nat,
)
    requires
        construct_indexes_spec(catalog, source, failed) is Err,
        failed <= n,
    ensures
        construct_indexes_spec(catalog, source, n) == construct_indexes_spec(catalog, source, failed),
    decreases n,
{
    if failed < n {
        lemma_construct_indexes_error_stays(catalog, source, failed, (n - 1) as nat);
    }
}

/// Each constructed index of a table belongs to the declaration at its
/// position.
pub proof fn lemma_table_indexes_entries(indexes: Seq<IndexView>, source: SourceView, n: nat)
    requires
        table_indexes_spec(indexes, source, n) is Ok,
    ensures
        table_indexes_spec(indexes, source, n)->Ok_0.len() == n,
        forall|k: int|
            0 <= k < n ==> constructed_index_spec(indexes[k], source) == Ok::<
                (IndexView, Map<u64, Seq<int>>),
                ConfigErrorView,
            >(#[trigger] table_indexes_spec(indexes, source, n)->Ok_0[k]),
    decreases n,
{
    if n > 0 {
        lemma_table_indexes_entries(indexes, source, (n - 1) as nat);
    }
}

/// The constructed indexes of each table stand at the table's position,
/// under the table's name.
pub proof fn lemma_construct_indexes_entries(catalog: CatalogView, source: SourceView, n: nat)
    requires
        construct_indexes_spec(catalog, source, n) is Ok,
    ensures
        construct_indexes_spec(catalog, source, n)->Ok_0.len() == n,
        forall|t: int|
            0 <= t < n ==> {
                let entry = #[trigger] construct_indexes_spec(catalog, source, n)->Ok_0[t];
                &&& entry.0 == catalog[t].0
                &&& table_indexes_spec(catalog[t].1.indexes, source, catalog[t].1.indexes.len())
                    == Ok::<TableIndexesView, ConfigErrorView>(entry.1)
            },
    decreases n,
{
    if n > 0 {
        lemma_construct_indexes_entries(catalog, source, (n - 1) as nat);
    }
}

fn construct_table_indexes(table: &Table, source: &RowSource) -> (r: Result<
    Vec<(Index, ConstructedIndex)>,
    ConfigError,
>)
    ensures
        match r {
            Ok(built) => table_indexes_spec(table@.indexes, source@, table@.indexes.len()) == Ok::<
                TableIndexesView,
                ConfigErrorView,
            >(table_indexes_view(built@)),
            Err(e) => table_indexes_spec(table@.indexes, source@, table@.indexes.len()) == Err::<
                TableIndexesView,
                ConfigErrorView,
            >(e@),
        },
{
    let ghost declared = table@.indexes;
    let mut indexes: Vec<(Index, ConstructedIndex)> = Vec::new();
    let mut k: usize = 0;
    while k < table.indexes.len()
        invariant
            k <= table.indexes.len(),
            declared == table@.indexes,
            indexes@.len() == k,
            table_indexes_spec(declared, source@, k as nat) is Ok,
            table_indexes_spec(declared, source@, k as nat)->Ok_0.len() == k,
            forall|j: int|
                0 <= j < k ==> ((#[trigger] indexes@[j]).0@, indexes@[j].1@) == table_indexes_spec(
                    declared,
                    source@,
                    k as nat,
                )->Ok_0[j],
        decreases table.indexes.len() - k,
    {
        let index = &table.indexes[k];
        assert(declared[k as int] == index@);
        match source.raw_rows_for_table(&index.table_name) {
            Some(rows) => {
                let constructed = construct_index(index, rows);
                indexes.push((index.clone(), constructed));
            },
            None => {
                proof {
                    lemma_table_indexes_error_stays(
                        declared,
                        source@,
                        (k + 1) as nat,
                        declared.len(),
                    );
                }
                return Err(ConfigError::UnknownTable { table_name: index.table_name.clone() });
            },
        }
        k += 1;
    }
    assert(table_indexes_view(indexes@) =~= table_indexes_spec(
        declared,
        source@,
        declared.len(),
    )->Ok_0);
    Ok(indexes)
}

impl Catalog {
    /// The first table named `table_name`.
    pub fn table<'a>(&'a self, table_name: &TableName) -> (r: Option<&'a Table>)
        ensures
            match catalog_table(self@, table_name@) {
                Some(table) => r is Some && r->0@ == table,
                None => r is None,
            },
    {
        let mut i: usize = 0;
        while i < self.tables.len()
            invariant
                i <= self.tables.len(),
                catalog_table(self@, table_name@) == catalog_table_from(self@, table_name@, i as int),
            decreases self.tables.len() - i,
        {
            if self.tables[i].0.0 == table_name.0 {
                return Some(&self.tables[i].1);
            }
            i += 1;
        }
        None
    }

    /// Builds every index of every table, each by one pass over the rows
    /// that `source` holds for the index's table. An index on a table that
    /// the source does not know is an error.
    pub fn construct_indexes(&self, source: &RowSource) -> (r: Result<ConstructedIndexes, ConfigError>)
        ensures
            match r {
                Ok(built) => construct_indexes_spec(self@, source@, self@.len()) == Ok::<
                    ConstructedIndexesView,
                    ConfigErrorView,
                >(built@),
                Err(e) => construct_indexes_spec(self@, source@, self@.len()) == Err::<
                    ConstructedIndexesView,
                    ConfigErrorView,
                >(e@),
            },
    {
        let mut constructed_indexes: Vec<(TableName, Vec<(Index, ConstructedIndex)>)> = Vec::new();
        let mut t: usize = 0;
        while t < self.tables.len()
            invariant
                t <= self.tables.len(),
                constructed_indexes@.len() == t,
                construct_indexes_spec(self@, source@, t as nat) is Ok,
                construct_indexes_spec(self@, source@, t as nat)->Ok_0.len() == t,
                forall|j: int|
                    0 <= j < t ==> ((#[trigger] constructed_indexes@[j]).0@, table_indexes_view(
                        constructed_indexes@[j].1@,
                    )) == construct_indexes_spec(self@, source@, t as nat)->Ok_0[j],
            decreases self.tables.len() - t,
        {
            let table_name = &self.tables[t].0;
            let table = &self.tables[t].1;
            assert(self@[t as int] == (table_name@, table@));
            match construct_table_indexes(table, source) {
                Ok(indexes) => {
                    constructed_indexes.push((table_name.clone(), indexes));
                },
                Err(e) => {
                    proof {
                        lemma_construct_indexes_error_stays(
                            self@,
                            source@,
                            (t + 1) as nat,
                            self@.len(),
                        );
                    }
                    return Err(e);
                },
            }
            t += 1;
        }
        let built = ConstructedIndexes { indexes: constructed_indexes };
        assert(built@ =~= construct_indexes_spec(self@, source@, self@.len())->Ok_0);
        Ok(built)
    }
}

/// A table named `name` with the columns `columns` and, for each column of
/// `indexed`, an index on that column alone.
pub open spec fn table_spec(name: Seq<char>, columns: Seq<Seq<char>>, indexed: Seq<Seq<char>>) -> (
    Seq<char>,
    TableView,
) {
    (
        name,
        TableView {
            columns,
            indexes: Seq::new(
                indexed.len(),
                |i: int| IndexView { table_name: name, columns: seq![indexed[i]] },
            ),
        },
    )
}

/// The built-in catalog: two small tables of animals and species, and the
/// albums, artists and tracks of a music shop.
pub open spec fn static_catalog_spec() -> CatalogView {
    seq![
        table_spec(
            "animal"@,
            seq!["animal_id"@, "animal_name"@, "species_id"@],
            seq!["animal_id"@, "species_id"@],
        ),
        table_spec("species"@, seq!["species_id"@, "species_name"@], seq!["species_id"@]),
        table_spec(
            "Album"@,
            seq!["AlbumId"@, "Title"@, "ArtistId"@],
            seq!["AlbumId"@, "ArtistId"@],
        ),
        table_spec("Artist"@, seq!["ArtistId"@, "Name"@], seq!["ArtistId"@]),
        table_spec(
            "Track"@,
            seq![
                "TrackId"@,
                "Name"@,
                "AlbumId"@,
                "MediaTypeId"@,
                "GenreId"@,
                "Composer"@,
                "Milliseconds"@,
                "Bytes"@,
                "UnitPrice"@,
            ],
            seq!["TrackId"@, "AlbumId"@, "MediaTypeId"@, "GenreId"@],
        ),
    ]
}

/// The views of a vector of string slices, in order.
pub open spec fn strs_view(names: Seq<&str>) -> Seq<Seq<char>> {
    Seq::new(names.len(), |i: int| names[i]@)
}

fn only<'a>(name: &'a str) -> (r: Vec<&'a str>)
    ensures
        r@ == seq![name],
{
    let mut names: Vec<&'a str> = Vec::new();
    names.push(name);
    assert(names@ =~= seq![name]);
    names
}

fn owned_names(names: &Vec<&str>) -> (r: Vec<String>)
    ensures
        strings_view(r@) == strs_view(names@),
{
    let mut owned: Vec<String> = Vec::new();
    let mut i: usize = 0;
    while i < names.len()
        invariant
            i <= names.len(),
            owned@.len() == i,
            forall|k: int| 0 <= k < i ==> (#[trigger] owned@[k])@ == names@[k]@,
        decreases names.len() - i,
    {
        owned.push(names[i].to_owned());
        i += 1;
    }
    assert(strings_view(owned@) =~= strs_view(names@));
    owned
}

fn table_entry(name: &str, columns: Vec<&str>, indexed: Vec<&str>) -> (r: (TableName, Table))
    ensures
        (r.0@, r.1@) == table_spec(name@, strs_view(columns@), strs_view(indexed@)),
{
    let mut indexes: Vec<Index> = Vec::new();
    let mut i: usize = 0;
    while i < indexed.len()
        invariant
            i <= indexed.len(),
            indexes@.len() == i,
            forall|k: int|
                0 <= k < i ==> (#[trigger] indexes@[k])@ == (IndexView {
                    table_name: name@,
                    columns: seq![indexed@[k]@],
                }),
        decreases indexed.len() - i,
    {
        let mut index_columns: Vec<String> = Vec::new();
        index_columns.push(indexed[i].to_owned());
        let index = Index { table_name: TableName(name.to_owned()), columns: index_columns };
        assert(index@.columns =~= seq![indexed@[i as int]@]);
        indexes.push(index);
        i += 1;
    }
    let table = Table { columns: owned_names(&columns), indexes };
    assert(table@.indexes =~= table_spec(name@, strs_view(columns@), strs_view(indexed@)).1.indexes);
    (TableName(name.to_owned()), table)
}

/// The built-in catalog: the columns and the indexes of each of its tables.
pub fn get_static_catalog() -> (r: Catalog)
    ensures
        r@ == static_catalog_spec(),
{
    let animal = table_entry(
        "animal",
        vec!["animal_id", "animal_name", "species_id"],
        vec!["animal_id", "species_id"],
    );
    let species = table_entry("species", vec!["species_id", "species_name"], only("species_id"));
    let album = table_entry(
        "Album",
        vec!["AlbumId", "Title", "ArtistId"],
        vec!["AlbumId", "ArtistId"],
    );
    let artist = table_entry("Artist", vec!["ArtistId", "Name"], only("ArtistId"));
    let track = table_entry(
        "Track",
        vec![
            "TrackId",
            "Name",
            "AlbumId",
            "MediaTypeId",
            "GenreId",
            "Composer",
            "Milliseconds",
            "Bytes",
            "UnitPrice",
        ],
        vec!["TrackId", "AlbumId", "MediaTypeId", "GenreId"],
    );
    let mut tables: Vec<(TableName, Table)> = Vec::new();
    tables.push(animal);
    tables.push(species);
    tables.push(album);
    tables.push(artist);
    tables.push(track);
    let catalog = Catalog { tables };
    proof {
        let expected = static_catalog_spec();
        assert(catalog@.len() == expected.len());
        assert(strs_view(seq!["animal_id", "animal_name", "species_id"]) =~= seq![
            "animal_id"@,
            "animal_name"@,
            "species_id"@,
        ]);
        assert(strs_view(seq!["animal_id", "species_id"]) =~= seq!["animal_id"@, "species_id"@]);
        assert(strs_view(seq!["species_id", "species_name"]) =~= seq![
            "species_id"@,
            "species_name"@,
        ]);
        assert(strs_view(seq!["species_id"]) =~= seq!["species_id"@]);
        assert(strs_view(seq!["AlbumId", "Title", "ArtistId"]) =~= seq![
            "AlbumId"@,
            "Title"@,
            "ArtistId"@,
        ]);
        assert(strs_view(seq!["AlbumId", "ArtistId"]) =~= seq!["AlbumId"@, "ArtistId"@]);
        assert(strs_view(seq!["ArtistId", "Name"]) =~= seq!["ArtistId"@, "Name"@]);
        assert(strs_view(seq!["ArtistId"]) =~= seq!["ArtistId"@]);
        assert(strs_view(
            seq![
                "TrackId",
                "Name",
                "AlbumId",
                "MediaTypeId",
                "GenreId",
                "Composer",
                "Milliseconds",
                "Bytes",
                "UnitPrice",
            ],
        ) =~= seq![
            "TrackId"@,
            "Name"@,
            "AlbumId"@,
            "MediaTypeId"@,
            "GenreId"@,
            "Composer"@,
            "Milliseconds"@,
            "Bytes"@,
            "UnitPrice"@,
        ]);
        assert(strs_view(seq!["TrackId", "AlbumId", "MediaTypeId", "GenreId"]) =~= seq![
            "TrackId"@,
            "AlbumId"@,
            "MediaTypeId"@,
            "GenreId"@,
        ]);
        assert(catalog@[0] == expected[0]);
        assert(catalog@[1] == expected[1]);
        assert(catalog@[2] == expected[2]);
        assert(catalog@[3] == expected[3]);
        assert(catalog@[4] == expected[4]);
        assert(catalog@ =~= expected);
    }
    catalog
}

} // verus!
