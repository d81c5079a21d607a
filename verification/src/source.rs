//! The row source: for each table the raw records that it holds, each a
//! list of named values in the order in which they were declared.

use vstd::prelude::*;
use crate::types::TableName;
use crate::value::{Value, ValueView};

verus! {

/// One raw record of a table: names and their values. Where a name stands
/// twice, the first counts.
#[derive(Debug, PartialEq)]
pub struct RawRecord {
    pub fields: Vec<(String, Value)>,
}

/// The mathematical value of a [`RawRecord`]: names and values, in order.
pub type RecordView = Seq<(Seq<char>, ValueView)>;

impl View for RawRecord {
    type V = RecordView;

    open spec fn view(&self) -> RecordView {
        Seq::new(self.fields@.len(), |i: int| (self.fields@[i].0@, self.fields@[i].1@))
    }
}

/// The value that a record holds under `name`, from position `from` on.
pub open spec fn record_get_from(record: RecordView, name: Seq<char>, from: int) -> Option<ValueView>
    decreases record.len() - from,
{
    if from < 0 || from >= record.len() {
        None
    } else if record[from].0 == name {
        Some(record[from].1)
    } else {
        record_get_from(record, name, from + 1)
    }
}

/// The value that a record holds under `name`.
pub open spec fn record_get(record: RecordView, name: Seq<char>) -> Option<ValueView> {
    record_get_from(record, name, 0)
}

/// Whether a record holds a value under each of `columns`.
pub open spec fn record_has_columns(record: RecordView, columns: Seq<Seq<char>>) -> bool {
    forall|j: int| 0 <= j < columns.len() ==> (#[trigger] record_get(record, columns[j])) is Some
}

/// The views of a vector of strings, in order.
pub open spec fn strings_view(names: Seq<String>) -> Seq<Seq<char>> {
    Seq::new(names.len(), |i: int| names[i]@)
}

/// The views of a vector of records, in order.
pub open spec fn records_view(records: Seq<RawRecord>) -> Seq<RecordView> {
    Seq::new(records.len(), |i: int| records[i]@)
}

impl RawRecord {
    /// The value under `name`, if the record has one.
    pub fn get<'a>(&'a self, name: &String) -> (r: Option<&'a Value>)
        ensures
            match record_get(self@, name@) {
                Some(v) => r is Some && r->0@ == v,
                None => r is None,
            },
    {
        let mut i: usize = 0;
        while i < self.fields.len()
            invariant
                i <= self.fields.len(),
                record_get(self@, name@) == record_get_from(self@, name@, i as int),
            decreases self.fields.len() - i,
        {
            if self.fields[i].0 == *name {
                return Some(&self.fields[i].1);
            }
            i += 1;
        }
        None
    }
}

/// The records of one table.
#[derive(Debug, PartialEq)]
pub struct SourceTable {
    pub table_name: TableName,
    pub records: Vec<RawRecord>,
}

/// The row source: the records of every table, held in memory.
#[derive(Debug, PartialEq)]
pub struct RowSource {
    pub tables: Vec<SourceTable>,
}

/// The mathematical value of a [`RowSource`]: the records by table.
pub type SourceView = Seq<(Seq<char>, Seq<RecordView>)>;

impl View for RowSource {
    type V = SourceView;

    open spec fn view(&self) -> SourceView {
        Seq::new(
            self.tables@.len(),
            |i: int| (self.tables@[i].table_name@, records_view(self.tables@[i].records@)),
        )
    }
}

/// The records of the first table of the source named `name`, from
/// position `from` on.
pub open spec fn source_rows_from(source: SourceView, name: Seq<char>, from: int) -> Option<Seq<RecordView>>
    decreases source.len() - from,
{
    if from < 0 || from >= source.len() {
        None
    } else if source[from].0 == name {
        Some(source[from].1)
    } else {
        source_rows_from(source, name, from + 1)
    }
}

/// The records of the table `name`, if the source knows it.
pub open spec fn source_rows(source: SourceView, name: Seq<char>) -> Option<Seq<RecordView>> {
    source_rows_from(source, name, 0)
}

impl RowSource {
    /// The records of the table `table_name`, in their order, or `None` for
    /// a table that the source does not know.
    pub fn raw_rows_for_table<'a>(&'a self, table_name: &TableName) -> (r: Option<&'a Vec<RawRecord>>)
        ensures
            match source_rows(self@, table_name@) {
                Some(records) => r is Some && records_view(r->0@) == records,
                None => r is None,
            },
    {
        let mut i: usize = 0;
        while i < self.tables.len()
            invariant
                i <= self.tables.len(),
                source_rows(self@, table_name@) == source_rows_from(self@, table_name@, i as int),
            decreases self.tables.len() - i,
        {
            if self.tables[i].table_name.0 == table_name.0 {
                return Some(&self.tables[i].records);
            }
            i += 1;
        }
        None
    }
}

/// A record of the built-in table of animals.
pub open spec fn animal_spec(id: int, name: Seq<char>, species: int) -> RecordView {
    seq![
        ("animal_id"@, ValueView::Int(id)),
        ("animal_name"@, ValueView::Str(name)),
        ("species_id"@, ValueView::Int(species)),
    ]
}

/// A record of the built-in table of species.
pub open spec fn species_spec(id: int, name: Seq<char>) -> RecordView {
    seq![("species_id"@, ValueView::Int(id)), ("species_name"@, ValueView::Str(name))]
}

/// The built-in rows: three animals and three species.
pub open spec fn static_rows_spec() -> SourceView {
    seq![
        (
            "animal"@,
            seq![
                animal_spec(1, "horse"@, 1),
                animal_spec(2, "dog"@, 1),
                animal_spec(3, "snake"@, 2),
            ],
        ),
        (
            "species"@,
            seq![species_spec(1, "mammal"@), species_spec(2, "reptile"@), species_spec(3, "bird"@)],
        ),
    ]
}

fn animal(id: i64, name: &str, species: i64) -> (r: RawRecord)
    ensures
        r@ == animal_spec(id as int, name@, species as int),
{
    let mut fields: Vec<(String, Value)> = Vec::new();
    fields.push(("animal_id".to_owned(), Value::Int(id)));
    fields.push(("animal_name".to_owned(), Value::Str(name.to_owned())));
    fields.push(("species_id".to_owned(), Value::Int(species)));
    let record = RawRecord { fields };
    assert(record@ =~= animal_spec(id as int, name@, species as int));
    record
}

fn species(id: i64, name: &str) -> (r: RawRecord)
    ensures
        r@ == species_spec(id as int, name@),
{
    let mut fields: Vec<(String, Value)> = Vec::new();
    fields.push(("species_id".to_owned(), Value::Int(id)));
    fields.push(("species_name".to_owned(), Value::Str(name.to_owned())));
    let record = RawRecord { fields };
    assert(record@ =~= species_spec(id as int, name@));
    record
}

/// The built-in rows of the tables `animal` and `species`.
pub fn get_static_rows() -> (r: RowSource)
    ensures
        r@ == static_rows_spec(),
{
    let mut animals: Vec<RawRecord> = Vec::new();
    animals.push(animal(1, "horse", 1));
    animals.push(animal(2, "dog", 1));
    animals.push(animal(3, "snake", 2));
    let mut kinds: Vec<RawRecord> = Vec::new();
    kinds.push(species(1, "mammal"));
    kinds.push(species(2, "reptile"));
    kinds.push(species(3, "bird"));
    assert(records_view(animals@) =~= static_rows_spec()[0].1);
    assert(records_view(kinds@) =~= static_rows_spec()[1].1);
    let mut tables: Vec<SourceTable> = Vec::new();
    tables.push(SourceTable { table_name: TableName("animal".to_owned()), records: animals });
    tables.push(SourceTable { table_name: TableName("species".to_owned()), records: kinds });
    let source = RowSource { tables };
    assert(source@ =~= static_rows_spec());
    source
}

} // verus!
