//! The two leaves of a physical plan: the scan of a table, and the probe of
//! an index.

use vstd::prelude::*;
use crate::catalog::{
    catalog_table, constructed_index_spec, lemma_construct_indexes_entries,
    lemma_table_indexes_entries, table_indexes_view, CatalogView, ConfigErrorView,
};
use crate::database::{lemma_known_table_has_rows, Database};
use crate::indexes::{
    built_index, calculate_hash, confirmed, key_of_record, lemma_confirmed_bucket,
    lemma_positions_in_range, line_numbers_view, positions_with_hash, positions_with_key,
    record_key, record_keys, ConstructedIndex, Index, IndexView, LineNumber,
};
use crate::source::{records_view, source_rows, strings_view, RawRecord, RecordView, SourceView};
use crate::types::{
    keys_view, rows_view, saturate, Column, ColumnView, Cost, QueryStep, Row, Schema, SchemaColumn,
    SchemaColumnView, StepView, TableAlias, TableName,
};
use crate::value::{values_view, Value, ValueView};

verus! {

/// The schema of a scan: the declared columns, each under the alias.
pub open spec fn scan_schema(columns: Seq<Seq<char>>, alias: Option<Seq<char>>) -> Seq<SchemaColumnView> {
    Seq::new(
        columns.len(),
        |i: int| SchemaColumnView::Column(ColumnView { name: columns[i], table_alias: alias }),
    )
}

/// The row of a record: the value under each declared column, in
/// declaration order.
pub open spec fn record_row(record: RecordView, columns: Seq<Seq<char>>) -> Seq<ValueView> {
    record_key(record, columns)
}

/// The rows of the records at `positions`, in that order.
pub open spec fn rows_at(records: Seq<RecordView>, columns: Seq<Seq<char>>, positions: Seq<int>) -> Seq<
    Seq<ValueView>,
> {
    Seq::new(positions.len(), |k: int| record_row(records[positions[k]], columns))
}

/// What the scan of a table gives: every record as a row, in scan order, at
/// the cost of one for each row.
pub open spec fn table_scan_spec(
    catalog: CatalogView,
    source: SourceView,
    table_name: Seq<char>,
    alias: Option<Seq<char>>,
) -> StepView
    recommends
        catalog_table(catalog, table_name) is Some,
        source_rows(source, table_name) is Some,
{
    let columns = catalog_table(catalog, table_name)->0.columns;
    let records = source_rows(source, table_name)->0;
    StepView {
        schema: scan_schema(columns, alias),
        rows: Seq::new(records.len(), |i: int| record_row(records[i], columns)),
        cost: records.len() as int,
    }
}

/// The rows that one probe key gives: the rows, in scan order, of the
/// records whose key under the index equals the probe key.
pub open spec fn probe_rows(
    records: Seq<RecordView>,
    columns: Seq<Seq<char>>,
    index_columns: Seq<Seq<char>>,
    probe: Seq<ValueView>,
) -> Seq<Seq<ValueView>> {
    rows_at(
        records,
        columns,
        positions_with_key(record_keys(records, index_columns), probe, records.len() as int),
    )
}

/// The rows that the first `n` probe keys give, key after key.
pub open spec fn index_scan_rows(
    records: Seq<RecordView>,
    columns: Seq<Seq<char>>,
    index_columns: Seq<Seq<char>>,
    probes: Seq<Seq<ValueView>>,
    n: nat,
) -> Seq<Seq<ValueView>>
    decreases n,
{
    if n == 0 {
        Seq::empty()
    } else {
        index_scan_rows(records, columns, index_columns, probes, (n - 1) as nat) + probe_rows(
            records,
            columns,
            index_columns,
            probes[n - 1],
        )
    }
}

/// What the probe of an index gives, at the cost of one for each row.
pub open spec fn index_scan_spec(
    catalog: CatalogView,
    source: SourceView,
    table_name: Seq<char>,
    alias: Option<Seq<char>>,
    index: IndexView,
    probes: Seq<Seq<ValueView>>,
) -> StepView
    recommends
        catalog_table(catalog, table_name) is Some,
        source_rows(source, table_name) is Some,
{
    let columns = catalog_table(catalog, table_name)->0.columns;
    let records = source_rows(source, table_name)->0;
    let rows = index_scan_rows(records, columns, index.columns, probes, probes.len());
    StepView { schema: scan_schema(columns, alias), rows, cost: rows.len() as int }
}

/// The positions that a vector holds.
pub open spec fn positions_view(positions: Seq<usize>) -> Seq<int> {
    Seq::new(positions.len(), |k: int| positions[k] as int)
}

/// Every position that has the probe's key lies below the number of keys.
pub proof fn lemma_key_positions_in_range(keys: Seq<Seq<ValueView>>, probe: Seq<ValueView>, n: int)
    ensures
        forall|k: int|
            0 <= k < positions_with_key(keys, probe, n).len() ==> 0 <= #[trigger] positions_with_key(
                keys,
                probe,
                n,
            )[k] < n,
    decreases n,
{
    if n > 0 {
        lemma_key_positions_in_range(keys, probe, n - 1);
        let rest = positions_with_key(keys, probe, n - 1);
        assert forall|k: int| 0 <= k < positions_with_key(keys, probe, n).len() implies 0
            <= #[trigger] positions_with_key(keys, probe, n)[k] < n by {
            if k < rest.len() {
                assert(0 <= rest[k] < n - 1);
            }
        }
    }
}

/// Whether two keys hold the same values.
pub fn values_equal(a: &Vec<Value>, b: &Vec<Value>) -> (r: bool)
    ensures
        r == (values_view(a@) == values_view(b@)),
{
    if a.len() != b.len() {
        assert(values_view(a@).len() != values_view(b@).len());
        return false;
    }
    let mut i: usize = 0;
    while i < a.len()
        invariant
            i <= a.len(),
            a.len() == b.len(),
            forall|j: int| 0 <= j < i ==> a@[j]@ == b@[j]@,
        decreases a.len() - i,
    {
        if !a[i].equals(&b[i]) {
            assert(values_view(a@)[i as int] != values_view(b@)[i as int]);
            return false;
        }
        i += 1;
    }
    assert(values_view(a@) =~= values_view(b@));
    true
}

fn schema(columns: &Vec<String>, table_alias: Option<&TableAlias>) -> (r: Schema)
    ensures
        r@ == scan_schema(strings_view(columns@), alias_view_of(table_alias)),
{
    let ghost target = scan_schema(strings_view(columns@), alias_view_of(table_alias));
    let mut schema_columns: Vec<SchemaColumn> = Vec::new();
    let mut i: usize = 0;
    while i < columns.len()
        invariant
            i <= columns.len(),
            target == scan_schema(strings_view(columns@), alias_view_of(table_alias)),
            schema_columns@.len() == i,
            forall|k: int| 0 <= k < i ==> (#[trigger] schema_columns@[k])@ == target[k],
        decreases columns.len() - i,
    {
        let alias = match table_alias {
            Some(alias) => Some(alias.clone()),
            None => None,
        };
        let column = Column { name: columns[i].clone(), table_alias: alias };
        assert(strings_view(columns@)[i as int] == columns@[i as int]@);
        schema_columns.push(SchemaColumn::Column(column));
        i += 1;
    }
    let scanned = Schema { columns: schema_columns };
    assert(scanned@ =~= target);
    scanned
}

/// The view of an alias that is borrowed.
pub open spec fn alias_view_of(alias: Option<&TableAlias>) -> Option<Seq<char>> {
    match alias {
        Some(a) => Some(a@),
        None => None,
    }
}

/// The row of `record` under the declared `columns`.
pub fn into_row(record: &RawRecord, columns: &Vec<String>) -> (r: Row)
    ensures
        r@ == record_row(record@, strings_view(columns@)),
{
    Row { items: key_of_record(columns, record) }
}

/// Scans a table of the catalog: every record becomes a row, in scan order.
/// The schema holds the declared columns under the alias, and the cost is
/// one for each row.
pub fn table_scan(table_name: &TableName, table_alias: Option<&TableAlias>, db: &Database) -> (r: QueryStep)
    requires
        catalog_table(db.catalog_view(), table_name@) is Some,
    ensures
        r@ == table_scan_spec(
            db.catalog_view(),
            db.source_view(),
            table_name@,
            alias_view_of(table_alias),
        ).saturated(),
        r@.well_formed(),
{
    proof {
        use_type_invariant(db);
        db.lemma_valid();
        lemma_known_table_has_rows(db.catalog_view(), db.source_view(), table_name@);
    }
    let table = match db.catalog().table(table_name) {
        Some(table) => table,
        None => {
            assert(false);
            vstd::pervasive::unreached()
        },
    };
    let records = match db.source().raw_rows_for_table(table_name) {
        Some(records) => records,
        None => {
            assert(false);
            vstd::pervasive::unreached()
        },
    };
    let columns_schema = schema(&table.columns, table_alias);
    let ghost columns = strings_view(table.columns@);
    let ghost views = records_view(records@);
    let mut cost = Cost::new();
    let mut rows: Vec<Row> = Vec::new();
    let mut i: usize = 0;
    while i < records.len()
        invariant
            i <= records.len(),
            columns == strings_view(table.columns@),
            views == records_view(records@),
            rows@.len() == i,
            cost@ == saturate(i as int),
            forall|k: int| 0 <= k < i ==> (#[trigger] rows@[k])@ == record_row(views[k], columns),
        decreases records.len() - i,
    {
        cost.increment_rows_processed();
        assert(views[i as int] == records@[i as int]@);
        rows.push(into_row(&records[i], &table.columns));
        i += 1;
    }
    let step = QueryStep { schema: columns_schema, rows, cost };
    proof {
        let expected = table_scan_spec(
            db.catalog_view(),
            db.source_view(),
            table_name@,
            alias_view_of(table_alias),
        );
        assert(step@.rows =~= expected.rows);
    }
    step
}

fn find_index<'a>(db: &'a Database, table_name: &TableName, index: &Index) -> (r: Option<
    &'a ConstructedIndex,
>)
    ensures
        match held_index(db.indexes_view(), table_name@, index@) {
            Some(held) => r is Some && r->0@ == held,
            None => r is None,
        },
        match r {
            Some(constructed) => {
                &&& source_rows(db.source_view(), table_name@) is Some
                &&& constructed@ == built_index(
                    record_keys(source_rows(db.source_view(), table_name@)->0, index@.columns),
                    source_rows(db.source_view(), table_name@)->0.len() as int,
                )
            },
            None => true,
        },
{
    if index.table_name.0 != table_name.0 {
        return None;
    }
    let all = db.indexes();
    let mut t: usize = 0;
    while t < all.indexes.len()
        invariant
            t <= all.indexes.len(),
            all@ == db.indexes_view(),
            index.table_name@ == table_name@,
            crate::query::to_physical_plan::table_indexes_from(all@, table_name@, 0) == crate::query::to_physical_plan::table_indexes_from(
                all@,
                table_name@,
                t as int,
            ),
        decreases all.indexes.len() - t,
    {
        assert(all@[t as int] == (
            all.indexes@[t as int].0@,
            table_indexes_view(all.indexes@[t as int].1@),
        ));
        if all.indexes[t].0.0 == table_name.0 {
            let entries = &all.indexes[t].1;
            let ghost views = table_indexes_view(entries@);
            let mut k: usize = 0;
            while k < entries.len()
                invariant
                    k <= entries.len(),
                    t < all.indexes.len(),
                    all@ == db.indexes_view(),
                    entries == &all.indexes[t as int].1,
                    index.table_name@ == table_name@,
                    views == table_indexes_view(entries@),
                    crate::query::to_physical_plan::table_indexes_from(all@, table_name@, 0) == Some(views),
                    constructed_from(views, index@, 0) == constructed_from(views, index@, k as int),
                decreases entries.len() - k,
            {
                assert(views[k as int] == (entries@[k as int].0@, entries@[k as int].1@));
                if entries[k].0.equals(index) {
                    proof {
                        use_type_invariant(db);
                        db.lemma_valid();
                        let catalog = db.catalog_view();
                        let source = db.source_view();
                        lemma_construct_indexes_entries(catalog, source, catalog.len());
                        let built = db.indexes_view()[t as int];
                        assert(built == (all.indexes@[t as int].0@, table_indexes_view(entries@)));
                        let declared = catalog[t as int].1.indexes;
                        lemma_table_indexes_entries(declared, source, declared.len());
                        let entry = table_indexes_view(entries@)[k as int];
                        assert(entry == (entries@[k as int].0@, entries@[k as int].1@));
                        assert(constructed_index_spec(declared[k as int], source) == Ok::<
                            (IndexView, Map<u64, Seq<int>>),
                            ConfigErrorView,
                        >(entry));
                    }
                    return Some(&entries[k].1);
                }
                k += 1;
            }
            return None;
        }
        t += 1;
    }
    None
}

/// The constructed index, among those of one table from position `from`
/// on, that stands under the declaration `index`: the first such.
pub open spec fn constructed_from(of_table: crate::catalog::TableIndexesView, index: IndexView, from: int) -> Option<
    Map<u64, Seq<int>>,
>
    decreases of_table.len() - from,
{
    if from < 0 || from >= of_table.len() {
        None
    } else if of_table[from].0 == index {
        Some(of_table[from].1)
    } else {
        constructed_from(of_table, index, from + 1)
    }
}

/// The constructed index that is held for the declaration `index` on the
/// table `table_name`: none where the declaration names another table, or
/// the table has no indexes, or none of them stands under the declaration.
pub open spec fn held_index(indexes: crate::catalog::ConstructedIndexesView, table_name: Seq<char>, index: IndexView) -> Option<
    Map<u64, Seq<int>>,
> {
    if index.table_name != table_name {
        None
    } else {
        match crate::query::to_physical_plan::table_indexes_from(indexes, table_name, 0) {
            None => None,
            Some(of_table) => constructed_from(of_table, index, 0),
        }
    }
}

/// Confirms a bucket: of the positions of `bucket`, those of the records
/// whose key under the index equals the probe key, in the order of the
/// bucket.
pub fn confirm_bucket(
    bucket: &Vec<LineNumber>,
    records: &Vec<RawRecord>,
    index_columns: &Vec<String>,
    probe: &Vec<Value>,
) -> (r: Vec<usize>)
    requires
        forall|k: int| 0 <= k < bucket@.len() ==> (#[trigger] bucket@[k]).0 < records@.len(),
    ensures
        positions_view(r@) == confirmed(
            line_numbers_view(bucket@),
            record_keys(records_view(records@), strings_view(index_columns@)),
            values_view(probe@),
        ),
{
    let ghost keys = record_keys(records_view(records@), strings_view(index_columns@));
    let ghost positions = line_numbers_view(bucket@);
    let mut found: Vec<usize> = Vec::new();
    assert(positions_view(found@) =~= confirmed(positions.take(0), keys, values_view(probe@)));
    let mut k: usize = 0;
    while k < bucket.len()
        invariant
            k <= bucket.len(),
            keys == record_keys(records_view(records@), strings_view(index_columns@)),
            positions == line_numbers_view(bucket@),
            forall|j: int| 0 <= j < bucket@.len() ==> (#[trigger] bucket@[j]).0 < records@.len(),
            positions_view(found@) == confirmed(positions.take(k as int), keys, values_view(probe@)),
        decreases bucket.len() - k,
    {
        let LineNumber(position) = bucket[k];
        assert(positions[k as int] == position);
        assert(keys[position as int] == record_key(
            records@[position as int]@,
            strings_view(index_columns@),
        ));
        let key = key_of_record(index_columns, &records[position]);
        let ghost before = positions_view(found@);
        proof {
            assert(positions.take(k + 1).drop_last() =~= positions.take(k as int));
            assert(positions.take(k + 1).last() == position);
        }
        if values_equal(&key, probe) {
            found.push(position);
            assert(positions_view(found@) =~= before.push(position as int));
        }
        k += 1;
    }
    assert(positions.take(bucket@.len() as int) =~= positions);
    found
}

fn probe_with_index(
    constructed: &ConstructedIndex,
    records: &Vec<RawRecord>,
    index_columns: &Vec<String>,
    probe: &Vec<Value>,
) -> (r: Vec<usize>)
    requires
        constructed@ == built_index(
            record_keys(records_view(records@), strings_view(index_columns@)),
            records@.len() as int,
        ),
    ensures
        positions_view(r@) == positions_with_key(
            record_keys(records_view(records@), strings_view(index_columns@)),
            values_view(probe@),
            records@.len() as int,
        ),
{
    broadcast use vstd::std_specs::btree::group_btree_axioms;

    let ghost keys = record_keys(records_view(records@), strings_view(index_columns@));
    let ghost n = records@.len() as int;
    let hash = calculate_hash(probe);
    proof {
        lemma_confirmed_bucket(keys, values_view(probe@), n);
        lemma_positions_in_range(keys, hash.0, n);
    }
    match constructed.items.get(&hash.0) {
        None => {
            assert(!constructed@.contains_key(hash.0));
            assert(positions_with_hash(keys, hash.0, n) =~= Seq::<int>::empty());
            let found: Vec<usize> = Vec::new();
            assert(positions_view(found@) =~= confirmed(
                positions_with_hash(keys, hash.0, n),
                keys,
                values_view(probe@),
            ));
            found
        },
        Some(line_numbers) => {
            let ghost bucket = line_numbers_view(line_numbers@);
            assert(constructed@.contains_key(hash.0));
            assert(constructed@[hash.0] == bucket);
            assert(bucket == positions_with_hash(keys, hash.0, n));
            assert forall|k: int| 0 <= k < line_numbers@.len() implies (#[trigger] line_numbers@[k]).0
                < records@.len() by {
                assert(bucket[k] == line_numbers@[k].0);
            }
            confirm_bucket(line_numbers, records, index_columns, probe)
        },
    }
}

fn probe_with_scan(records: &Vec<RawRecord>, index_columns: &Vec<String>, probe: &Vec<Value>) -> (r: Vec<
    usize,
>)
    ensures
        positions_view(r@) == positions_with_key(
            record_keys(records_view(records@), strings_view(index_columns@)),
            values_view(probe@),
            records@.len() as int,
        ),
{
    let ghost keys = record_keys(records_view(records@), strings_view(index_columns@));
    let mut found: Vec<usize> = Vec::new();
    assert(positions_view(found@) =~= positions_with_key(keys, values_view(probe@), 0));
    let mut i: usize = 0;
    while i < records.len()
        invariant
            i <= records.len(),
            keys == record_keys(records_view(records@), strings_view(index_columns@)),
            positions_view(found@) == positions_with_key(keys, values_view(probe@), i as int),
        decreases records.len() - i,
    {
        assert(keys[i as int] == record_key(records@[i as int]@, strings_view(index_columns@)));
        let key = key_of_record(index_columns, &records[i]);
        let ghost before = positions_view(found@);
        if values_equal(&key, probe) {
            found.push(i);
            assert(positions_view(found@) =~= before.push(i as int));
        }
        i += 1;
    }
    found
}

/// Probes an index of a table of the catalog, once for each key of
/// `values`: the rows whose key under the index equals the probe key, in
/// scan order. Where the database has built the index, the probe reads the
/// bucket of the key's hash and confirms each record by its key; else it
/// reads every record. The cost is one for each row.
pub fn index_scan(
    table_name: &TableName,
    table_alias: Option<&TableAlias>,
    index: &Index,
    values: &Vec<Vec<Value>>,
    db: &Database,
) -> (r: QueryStep)
    requires
        catalog_table(db.catalog_view(), table_name@) is Some,
    ensures
        r@ == index_scan_spec(
            db.catalog_view(),
            db.source_view(),
            table_name@,
            alias_view_of(table_alias),
            index@,
            keys_view(values@),
        ).saturated(),
        r@.well_formed(),
{
    proof {
        use_type_invariant(db);
        db.lemma_valid();
        lemma_known_table_has_rows(db.catalog_view(), db.source_view(), table_name@);
    }
    let table = match db.catalog().table(table_name) {
        Some(table) => table,
        None => {
            assert(false);
            vstd::pervasive::unreached()
        },
    };
    let records = match db.source().raw_rows_for_table(table_name) {
        Some(records) => records,
        None => {
            assert(false);
            vstd::pervasive::unreached()
        },
    };
    let columns_schema = schema(&table.columns, table_alias);
    let constructed = find_index(db, table_name, index);
    let ghost columns = strings_view(table.columns@);
    let ghost views = records_view(records@);
    let ghost probes = keys_view(values@);
    let ghost index_columns = strings_view(index.columns@);
    let mut rows: Vec<Row> = Vec::new();
    assert(rows_view(rows@) =~= index_scan_rows(views, columns, index_columns, probes, 0));
    let mut p: usize = 0;
    while p < values.len()
        invariant
            p <= values.len(),
            columns == strings_view(table.columns@),
            views == records_view(records@),
            probes == keys_view(values@),
            index_columns == strings_view(index.columns@),
            index_columns == index@.columns,
            source_rows(db.source_view(), table_name@) == Some(views),
            match constructed {
                Some(c) => c@ == built_index(record_keys(views, index_columns), views.len() as int),
                None => true,
            },
            rows_view(rows@) == index_scan_rows(views, columns, index_columns, probes, p as nat),
            forall|k: int| 0 <= k < rows@.len() ==> (#[trigger] rows@[k])@.len() == columns.len(),
        decreases values.len() - p,
    {
        assert(probes[p as int] == values_view(values@[p as int]@));
        let positions = match constructed {
            Some(c) => probe_with_index(c, records, &index.columns, &values[p]),
            None => probe_with_scan(records, &index.columns, &values[p]),
        };
        let ghost found = positions_view(positions@);
        let ghost before = rows_view(rows@);
        proof {
            lemma_key_positions_in_range(
                record_keys(views, index_columns),
                probes[p as int],
                views.len() as int,
            );
        }
        let mut k: usize = 0;
        while k < positions.len()
            invariant
                k <= positions.len(),
                columns == strings_view(table.columns@),
                views == records_view(records@),
                found == positions_view(positions@),
                forall|j: int| 0 <= j < found.len() ==> 0 <= #[trigger] found[j] < views.len(),
                rows_view(rows@) == before + rows_at(views, columns, found.take(k as int)),
                forall|j: int| 0 <= j < rows@.len() ==> (#[trigger] rows@[j])@.len() == columns.len(),
                forall|j: int| 0 <= j < before.len() ==> (#[trigger] before[j]).len() == columns.len(),
            decreases positions.len() - k,
        {
            let position = positions[k];
            assert(found[k as int] == position);
            assert(views[position as int] == records@[position as int]@);
            let row = into_row(&records[position], &table.columns);
            let ghost earlier = rows_view(rows@);
            rows.push(row);
            proof {
                assert(rows_view(rows@) =~= earlier.push(row@));
                assert(rows_at(views, columns, found.take(k + 1)) =~= rows_at(
                    views,
                    columns,
                    found.take(k as int),
                ).push(row@));
                assert(rows_view(rows@) =~= before + rows_at(views, columns, found.take(k + 1)));
            }
            k += 1;
        }
        proof {
            assert(found.take(positions@.len() as int) =~= found);
        }
        p += 1;
    }
    let mut cost = Cost::new();
    cost.add_rows(rows.len());
    QueryStep { schema: columns_schema, rows, cost }
}

} // verus!
