//! Index declarations and the indexes built from them: for each hash of a
//! key, the positions of the records that have a key with that hash.

use std::collections::BTreeMap;
use std::hash::{DefaultHasher, Hasher};
use vstd::prelude::*;
use vstd::bytes::{spec_u64_to_le_bytes, u64_to_le_bytes};
use vstd::std_specs::hash::DefaultHasherAdditionalSpecFns;
use vstd::string::StringSliceAdditionalSpecFns;
use vstd::utf8::encode_utf8;
use crate::source::{record_get, records_view, strings_view, RawRecord, RecordView};
use crate::types::TableName;
use crate::value::{values_view, Value, ValueView};

verus! {

/// The position of a record in the scan order of its table.
#[derive(Debug, PartialEq, Eq, Clone, Copy)]
pub struct LineNumber(pub usize);

/// The hash of a key.
#[derive(Debug, PartialEq, Eq, PartialOrd, Ord, Clone, Copy)]
pub struct HashedValue(pub u64);

/// The declaration of an index: a table and the columns that make the key.
#[derive(Debug, PartialEq)]
pub struct Index {
    pub table_name: TableName,
    pub columns: Vec<String>,
}

/// The mathematical value of a [`Index`].
pub ghost struct IndexView {
    pub table_name: Seq<char>,
    pub columns: Seq<Seq<char>>,
}

impl View for Index {
    type V = IndexView;

    open spec fn view(&self) -> IndexView {
        IndexView { table_name: self.table_name@, columns: strings_view(self.columns@) }
    }
}

/// Copies a vector of strings.
pub fn clone_strings(names: &Vec<String>) -> (r: Vec<String>)
    ensures
        r@ == names@,
{
    let mut copy: Vec<String> = Vec::new();
    let mut i: usize = 0;
    while i < names.len()
        invariant
            i <= names.len(),
            copy@ == names@.take(i as int),
        decreases names.len() - i,
    {
        copy.push(names[i].clone());
        assert(copy@ =~= names@.take(i + 1));
        i += 1;
    }
    assert(copy@ =~= names@);
    copy
}

impl Clone for Index {
    fn clone(&self) -> (r: Self)
        ensures
            r@ == self@,
    {
        Index { table_name: self.table_name.clone(), columns: clone_strings(&self.columns) }
    }
}

impl Index {
    /// Two declarations are the same when they name the same table and the
    /// same columns in the same order.
    pub fn equals(&self, other: &Index) -> (r: bool)
        ensures
            r == (self@ == other@),
    {
        if self.table_name.0 != other.table_name.0 {
            return false;
        }
        if self.columns.len() != other.columns.len() {
            assert(self@.columns.len() != other@.columns.len());
            return false;
        }
        let mut i: usize = 0;
        while i < self.columns.len()
            invariant
                i <= self.columns.len(),
                self.columns.len() == other.columns.len(),
                self.table_name@ == other.table_name@,
                forall|j: int| 0 <= j < i ==> self.columns@[j]@ == other.columns@[j]@,
            decreases self.columns.len() - i,
        {
            if self.columns[i] != other.columns[i] {
                assert(self@.columns[i as int] != other@.columns[i as int]);
                return false;
            }
            i += 1;
        }
        assert(self@.columns =~= other@.columns);
        true
    }
}

/// The key of a record under an index: the value under each column of the
/// index, `Null` where the record has none.
pub open spec fn record_key(record: RecordView, columns: Seq<Seq<char>>) -> Seq<ValueView> {
    Seq::new(
        columns.len(),
        |j: int|
            match record_get(record, columns[j]) {
                Some(v) => v,
                None => ValueView::Null,
            },
    )
}

/// The keys of the records of a table, in scan order.
pub open spec fn record_keys(records: Seq<RecordView>, columns: Seq<Seq<char>>) -> Seq<Seq<ValueView>> {
    Seq::new(records.len(), |i: int| record_key(records[i], columns))
}

/// What is written to the hasher for one value: a byte that tells the kind,
/// then the value. A boolean is one byte, an integer its size in eight
/// bytes under one of two kinds, for the sign, a float its bit pattern in
/// eight bytes, a string its UTF-8 text.
pub open spec fn value_writes(value: ValueView) -> Seq<Seq<u8>> {
    match value {
        ValueView::Null => seq![seq![0u8]],
        ValueView::Bool(b) => seq![seq![1u8], seq![if b { 1u8 } else { 0u8 }]],
        ValueView::Int(i) => if i >= 0 {
            seq![seq![2u8], spec_u64_to_le_bytes(i as u64)]
        } else {
            seq![seq![3u8], spec_u64_to_le_bytes((-(i + 1)) as u64)]
        },
        ValueView::Float(bits) => seq![seq![4u8], spec_u64_to_le_bytes(bits)],
        ValueView::Str(s) => seq![seq![5u8], encode_utf8(s)],
    }
}

/// What is written to the hasher for the first `n` values of a key.
pub open spec fn key_writes(key: Seq<ValueView>, n: nat) -> Seq<Seq<u8>>
    decreases n,
{
    if n == 0 {
        Seq::empty()
    } else {
        key_writes(key, (n - 1) as nat) + value_writes(key[n - 1])
    }
}

/// The hash of a key: what a `DefaultHasher`, freshly made, gives once the
/// values of the key have been written to it.
pub open spec fn hash_of_key(key: Seq<ValueView>) -> u64 {
    DefaultHasher::spec_finish(key_writes(key, key.len()))
}

/// The positions below `n`, in rising order, of the keys with the hash `h`.
pub open spec fn positions_with_hash(keys: Seq<Seq<ValueView>>, h: u64, n: int) -> Seq<int>
    decreases n,
{
    if n <= 0 {
        Seq::empty()
    } else {
        let rest = positions_with_hash(keys, h, n - 1);
        if hash_of_key(keys[n - 1]) == h {
            rest.push(n - 1)
        } else {
            rest
        }
    }
}

/// The positions below `n`, in rising order, of the keys equal to `probe`.
pub open spec fn positions_with_key(keys: Seq<Seq<ValueView>>, probe: Seq<ValueView>, n: int) -> Seq<int>
    decreases n,
{
    if n <= 0 {
        Seq::empty()
    } else {
        let rest = positions_with_key(keys, probe, n - 1);
        if keys[n - 1] == probe {
            rest.push(n - 1)
        } else {
            rest
        }
    }
}

/// Those of `positions` whose key equals `probe`, in the same order.
pub open spec fn confirmed(positions: Seq<int>, keys: Seq<Seq<ValueView>>, probe: Seq<ValueView>) -> Seq<int>
    decreases positions.len(),
{
    if positions.len() == 0 {
        Seq::empty()
    } else {
        let rest = confirmed(positions.drop_last(), keys, probe);
        if keys[positions.last()] == probe {
            rest.push(positions.last())
        } else {
            rest
        }
    }
}

/// The index over the first `n` keys: each hash that occurs, with the
/// positions of its keys.
pub open spec fn built_index(keys: Seq<Seq<ValueView>>, n: int) -> Map<u64, Seq<int>> {
    Map::new(
        |h: u64| positions_with_hash(keys, h, n).len() > 0,
        |h: u64| positions_with_hash(keys, h, n),
    )
}

/// Every position of a bucket lies below the number of keys.
pub proof fn lemma_positions_in_range(keys: Seq<Seq<ValueView>>, h: u64, n: int)
    ensures
        forall|k: int|
            0 <= k < positions_with_hash(keys, h, n).len() ==> 0 <= #[trigger] positions_with_hash(
                keys,
                h,
                n,
            )[k] < n,
    decreases n,
{
    if n > 0 {
        lemma_positions_in_range(keys, h, n - 1);
        let rest = positions_with_hash(keys, h, n - 1);
        assert forall|k: int| 0 <= k < positions_with_hash(keys, h, n).len() implies 0
            <= #[trigger] positions_with_hash(keys, h, n)[k] < n by {
            if k < rest.len() {
                assert(0 <= rest[k] < n - 1);
            }
        }
    }
}

/// Confirming the keys of the bucket of a probe's hash leaves exactly the
/// positions whose key equals the probe: a key equal to the probe has the
/// probe's hash, so the bucket holds each of them.
pub proof fn lemma_confirmed_bucket(keys: Seq<Seq<ValueView>>, probe: Seq<ValueView>, n: int)
    ensures
        confirmed(positions_with_hash(keys, hash_of_key(probe), n), keys, probe) == positions_with_key(
            keys,
            probe,
            n,
        ),
    decreases n,
{
    if n > 0 {
        lemma_confirmed_bucket(keys, probe, n - 1);
        let rest = positions_with_hash(keys, hash_of_key(probe), n - 1);
        if hash_of_key(keys[n - 1]) == hash_of_key(probe) {
            assert(rest.push(n - 1).drop_last() =~= rest);
        }
    }
}

/// The positions below `n`, in rising order, at which the hash `h` stands.
pub open spec fn positions_of_hash(hashes: Seq<u64>, h: u64, n: int) -> Seq<int>
    decreases n,
{
    if n <= 0 {
        Seq::empty()
    } else {
        let rest = positions_of_hash(hashes, h, n - 1);
        if hashes[n - 1] == h {
            rest.push(n - 1)
        } else {
            rest
        }
    }
}

/// The index over the first `n` hashes: each hash that occurs, with the
/// positions at which it stands.
pub open spec fn index_of_hashes(hashes: Seq<u64>, n: int) -> Map<u64, Seq<int>> {
    Map::new(
        |h: u64| positions_of_hash(hashes, h, n).len() > 0,
        |h: u64| positions_of_hash(hashes, h, n),
    )
}

/// The positions of the keys with a hash are the positions of that hash
/// among the hashes of the keys.
pub proof fn lemma_positions_of_key_hashes(keys: Seq<Seq<ValueView>>, hashes: Seq<u64>, h: u64, n: int)
    requires
        n <= keys.len(),
        n <= hashes.len(),
        forall|i: int| 0 <= i < n ==> hashes[i] == hash_of_key(#[trigger] keys[i]),
    ensures
        positions_with_hash(keys, h, n) == positions_of_hash(hashes, h, n),
    decreases n,
{
    if n > 0 {
        lemma_positions_of_key_hashes(keys, hashes, h, n - 1);
    }
}

/// The positions that a vector of line numbers holds.
pub open spec fn line_numbers_view(lines: Seq<LineNumber>) -> Seq<int> {
    Seq::new(lines.len(), |i: int| lines[i].0 as int)
}

/// A constructed index: for each hash the positions, in scan order, of the
/// records whose key has that hash.
#[derive(Debug, PartialEq)]
pub struct ConstructedIndex {
    pub items: BTreeMap<u64, Vec<LineNumber>>,
}

impl View for ConstructedIndex {
    type V = Map<u64, Seq<int>>;

    open spec fn view(&self) -> Map<u64, Seq<int>> {
        Map::new(
            |h: u64| self.items@.contains_key(h),
            |h: u64| line_numbers_view(self.items@[h]@),
        )
    }
}

fn one_byte(byte: u8) -> (r: Vec<u8>)
    ensures
        r@ == seq![byte],
{
    let mut bytes: Vec<u8> = Vec::new();
    bytes.push(byte);
    assert(bytes@ =~= seq![byte]);
    bytes
}

fn write_value(hasher: &mut DefaultHasher, value: &Value)
    ensures
        final(hasher)@ == old(hasher)@ + value_writes(value@),
{
    let ghost before = hasher@;
    match value {
        Value::Null => {
            hasher.write(one_byte(0).as_slice());
        },
        Value::Bool(b) => {
            hasher.write(one_byte(1).as_slice());
            hasher.write(one_byte(if *b { 1 } else { 0 }).as_slice());
        },
        Value::Int(i) => {
            if *i >= 0 {
                hasher.write(one_byte(2).as_slice());
                hasher.write(u64_to_le_bytes(*i as u64).as_slice());
            } else {
                hasher.write(one_byte(3).as_slice());
                hasher.write(u64_to_le_bytes((-(*i + 1)) as u64).as_slice());
            }
        },
        Value::Float(bits) => {
            hasher.write(one_byte(4).as_slice());
            hasher.write(u64_to_le_bytes(*bits).as_slice());
        },
        Value::Str(s) => {
            hasher.write(one_byte(5).as_slice());
            hasher.write(s.as_str().as_bytes());
        },
    }
    assert(hasher@ =~= before + value_writes(value@));
}

/// Hashes a key: the values of the key are written, one after the other,
/// to a `DefaultHasher` made by `DefaultHasher::new`. Equal keys have equal
/// hashes.
pub fn calculate_hash(key: &Vec<Value>) -> (r: HashedValue)
    ensures
        r.0 == hash_of_key(values_view(key@)),
{
    let ghost views = values_view(key@);
    let mut hasher = DefaultHasher::new();
    assert(hasher@ =~= key_writes(views, 0));
    let mut i: usize = 0;
    while i < key.len()
        invariant
            i <= key.len(),
            views == values_view(key@),
            hasher@ == key_writes(views, i as nat),
        decreases key.len() - i,
    {
        assert(views[i as int] == key@[i as int]@);
        write_value(&mut hasher, &key[i]);
        i += 1;
    }
    HashedValue(hasher.finish())
}

/// The key of `record` under the columns of an index.
pub fn key_of_record(columns: &Vec<String>, record: &RawRecord) -> (r: Vec<Value>)
    ensures
        values_view(r@) == record_key(record@, strings_view(columns@)),
{
    let ghost target = record_key(record@, strings_view(columns@));
    let mut values: Vec<Value> = Vec::new();
    let mut j: usize = 0;
    while j < columns.len()
        invariant
            j <= columns.len(),
            target == record_key(record@, strings_view(columns@)),
            values@.len() == j,
            forall|k: int| 0 <= k < j ==> values@[k]@ == target[k],
        decreases columns.len() - j,
    {
        let value = match record.get(&columns[j]) {
            Some(value) => value.clone(),
            None => Value::Null,
        };
        assert(strings_view(columns@)[j as int] == columns@[j as int]@);
        assert(value@ == target[j as int]);
        values.push(value);
        j += 1;
    }
    assert(values_view(values@) =~= target);
    values
}

/// Builds the index of a list of hashes: one pass over the hashes, each
/// position appended to the bucket of its hash.
pub fn index_from_hashes(hashes: &Vec<u64>) -> (r: ConstructedIndex)
    ensures
        r@ == index_of_hashes(hashes@, hashes@.len() as int),
{
    broadcast use vstd::std_specs::btree::group_btree_axioms;

    let mut built = ConstructedIndex { items: BTreeMap::new() };
    assert(built@ =~= index_of_hashes(hashes@, 0));
    let mut i: usize = 0;
    while i < hashes.len()
        invariant
            i <= hashes.len(),
            built@ == index_of_hashes(hashes@, i as int),
        decreases hashes.len() - i,
    {
        let hash = hashes[i];
        let ghost before = built@;
        let ghost old_items = built.items@;
        let mut line_numbers = match built.items.remove(&hash) {
            Some(line_numbers) => line_numbers,
            None => Vec::new(),
        };
        proof {
            assert(before.contains_key(hash) == old_items.contains_key(hash));
            if old_items.contains_key(hash) {
                assert(before[hash] == line_numbers_view(old_items[hash]@));
            } else {
                assert(!index_of_hashes(hashes@, i as int).contains_key(hash));
            }
            assert(line_numbers_view(line_numbers@) =~= positions_of_hash(hashes@, hash, i as int));
        }
        line_numbers.push(LineNumber(i));
        assert(line_numbers_view(line_numbers@) =~= positions_of_hash(hashes@, hash, i + 1));
        built.items.insert(hash, line_numbers);
        proof {
            let after = index_of_hashes(hashes@, i + 1);
            assert forall|h: u64| #[trigger] built@.contains_key(h) == after.contains_key(h) by {
                if h != hash {
                    assert(before.contains_key(h) == old_items.contains_key(h));
                }
            }
            assert forall|h: u64| built@.contains_key(h) implies #[trigger] built@[h] == after[h] by {
                if h != hash {
                    assert(before.contains_key(h) == old_items.contains_key(h));
                    assert(before[h] == line_numbers_view(old_items[h]@));
                }
            }
            assert(built@ =~= after);
        }
        i += 1;
    }
    built
}

/// Builds the index that `index` declares over `rows`: the key of each row
/// is hashed, and the index is that of the hashes.
pub fn construct_index(index: &Index, rows: &Vec<RawRecord>) -> (r: ConstructedIndex)
    ensures
        r@ == built_index(record_keys(records_view(rows@), index@.columns), rows@.len() as int),
{
    let ghost keys = record_keys(records_view(rows@), index@.columns);
    let mut hashes: Vec<u64> = Vec::new();
    let mut i: usize = 0;
    while i < rows.len()
        invariant
            i <= rows.len(),
            keys == record_keys(records_view(rows@), index@.columns),
            hashes@.len() == i,
            forall|k: int| 0 <= k < i ==> hashes@[k] == hash_of_key(#[trigger] keys[k]),
        decreases rows.len() - i,
    {
        let key = key_of_record(&index.columns, &rows[i]);
        let HashedValue(hash) = calculate_hash(&key);
        assert(hash == hash_of_key(keys[i as int]));
        hashes.push(hash);
        i += 1;
    }
    let built = index_from_hashes(&hashes);
    proof {
        let n = rows@.len() as int;
        assert forall|h: u64| positions_with_hash(keys, h, n) == positions_of_hash(hashes@, h, n) by {
            lemma_positions_of_key_hashes(keys, hashes@, h, n);
        }
        assert(built@ =~= built_index(keys, n));
    }
    built
}

} // verus!
