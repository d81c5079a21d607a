//! The hash join, inner and left outer, on one column of each side.

use std::collections::HashMap;
use vstd::prelude::*;
use crate::indexes::{
    calculate_hash, confirmed, hash_of_key, lemma_confirmed_bucket, lemma_positions_in_range,
    lemma_positions_of_key_hashes, positions_of_hash, positions_with_hash, positions_with_key,
};
use crate::query::from::{lemma_key_positions_in_range, positions_view};
use crate::query::{is_step_result, QueryError, QueryErrorView};
use crate::types::{
    rows_view, saturate, value_at, Column, ColumnView, Cost, JoinOn, JoinOnView, JoinType,
    QueryStep, Row, Schema, SchemaColumnView, StepView,
};
use crate::value::{values_view, Value, ValueView};

verus! {

/// The join keys of the first `n` rows: for each row the value under
/// `column`. The first row that has none decides.
pub open spec fn join_keys_spec(
    rows: Seq<Seq<ValueView>>,
    schema: Seq<SchemaColumnView>,
    column: ColumnView,
    n: nat,
) -> Result<Seq<ValueView>, QueryErrorView>
    decreases n,
{
    if n == 0 {
        Ok(Seq::empty())
    } else {
        match join_keys_spec(rows, schema, column, (n - 1) as nat) {
            Err(e) => Err(e),
            Ok(keys) => match value_at(rows[n - 1], schema, SchemaColumnView::Column(column)) {
                Some(v) => Ok(keys.push(v)),
                None => Err(QueryErrorView::ColumnNotFoundInSchema { column_name: column }),
            },
        }
    }
}

/// Each key as a key of one value.
pub open spec fn key_seqs(keys: Seq<ValueView>) -> Seq<Seq<ValueView>> {
    Seq::new(keys.len(), |i: int| seq![keys[i]])
}

/// `n` nulls.
pub open spec fn nulls(n: nat) -> Seq<ValueView> {
    Seq::new(n, |i: int| ValueView::Null)
}

/// The left row followed by each of the right rows at `positions`.
pub open spec fn joined_at(
    left_row: Seq<ValueView>,
    right_rows: Seq<Seq<ValueView>>,
    positions: Seq<int>,
) -> Seq<Seq<ValueView>> {
    Seq::new(positions.len(), |k: int| left_row + right_rows[positions[k]])
}

/// The positions, in rising order, of the right rows whose key equals
/// `left_key`.
pub open spec fn matching_positions(left_key: ValueView, right_keys: Seq<ValueView>) -> Seq<int> {
    positions_with_key(key_seqs(right_keys), seq![left_key], right_keys.len() as int)
}

/// The rows that one left row gives: the row joined with each right row of
/// the same key, in the order of the right rows; where there is none, for a
/// left outer join the row followed by a null for each right column, for an
/// inner join nothing.
pub open spec fn join_rows_for(
    left_row: Seq<ValueView>,
    left_key: ValueView,
    right_rows: Seq<Seq<ValueView>>,
    right_keys: Seq<ValueView>,
    join_type: JoinType,
    right_width: nat,
) -> Seq<Seq<ValueView>> {
    let positions = matching_positions(left_key, right_keys);
    if positions.len() > 0 {
        joined_at(left_row, right_rows, positions)
    } else if join_type == JoinType::LeftOuter {
        seq![left_row + nulls(right_width)]
    } else {
        Seq::empty()
    }
}

/// The rows that the first `n` left rows give, left row after left row.
pub open spec fn join_rows(
    left_rows: Seq<Seq<ValueView>>,
    left_keys: Seq<ValueView>,
    right_rows: Seq<Seq<ValueView>>,
    right_keys: Seq<ValueView>,
    join_type: JoinType,
    right_width: nat,
    n: nat,
) -> Seq<Seq<ValueView>>
    decreases n,
{
    if n == 0 {
        Seq::empty()
    } else {
        join_rows(
            left_rows,
            left_keys,
            right_rows,
            right_keys,
            join_type,
            right_width,
            (n - 1) as nat,
        ) + join_rows_for(
            left_rows[n - 1],
            left_keys[n - 1],
            right_rows,
            right_keys,
            join_type,
            right_width,
        )
    }
}

/// What a join gives. The keys of the left rows are read first, then those
/// of the right rows. The schema is the left schema followed by the right
/// one, and the cost grows by two for each left row and one for each right
/// row.
pub open spec fn hash_join_spec(
    left_rows: Seq<Seq<ValueView>>,
    left_schema: Seq<SchemaColumnView>,
    right_rows: Seq<Seq<ValueView>>,
    right_schema: Seq<SchemaColumnView>,
    on: JoinOnView,
    join_type: JoinType,
    cost: int,
) -> Result<StepView, QueryErrorView> {
    match join_keys_spec(left_rows, left_schema, on.left, left_rows.len()) {
        Err(e) => Err(e),
        Ok(left_keys) => match join_keys_spec(right_rows, right_schema, on.right, right_rows.len()) {
            Err(e) => Err(e),
            Ok(right_keys) => Ok(
                StepView {
                    schema: left_schema + right_schema,
                    rows: join_rows(
                        left_rows,
                        left_keys,
                        right_rows,
                        right_keys,
                        join_type,
                        right_schema.len(),
                        left_rows.len(),
                    ),
                    cost: cost + 2 * left_rows.len() + right_rows.len(),
                },
            ),
        },
    }
}

/// The keys of `n` rows are `n` many.
pub proof fn lemma_join_keys_len(
    rows: Seq<Seq<ValueView>>,
    schema: Seq<SchemaColumnView>,
    column: ColumnView,
    n: nat,
)
    requires
        join_keys_spec(rows, schema, column, n) is Ok,
    ensures
        join_keys_spec(rows, schema, column, n)->Ok_0.len() == n,
    decreases n,
{
    if n > 0 {
        lemma_join_keys_len(rows, schema, column, (n - 1) as nat);
    }
}

/// Once a row has no key, more rows fail in the same way.
pub proof fn lemma_join_keys_error_stays(
    rows: Seq<Seq<ValueView>>,
    schema: Seq<SchemaColumnView>,
    column: ColumnView,
    failed: nat,
    n: nat,
)
    requires
        join_keys_spec(rows, schema, column, failed) is Err,
        failed <= n,
    ensures
        join_keys_spec(rows, schema, column, n) == join_keys_spec(rows, schema, column, failed),
    decreases n,
{
    if failed < n {
        lemma_join_keys_error_stays(rows, schema, column, failed, (n - 1) as nat);
    }
}

/// Whether `row` is one of the first `n` left rows followed by a right row
/// that has the same join key.
pub open spec fn joins_equal_keys(
    row: Seq<ValueView>,
    left_rows: Seq<Seq<ValueView>>,
    left_keys: Seq<ValueView>,
    right_rows: Seq<Seq<ValueView>>,
    right_keys: Seq<ValueView>,
    n: nat,
) -> bool {
    exists|i: int, j: int|
        0 <= i < n && 0 <= j < right_rows.len() && left_keys[i] == right_keys[j] && row
            == #[trigger] left_rows[i] + #[trigger] right_rows[j]
}

/// Every row of an inner join is a left row followed by a right row, and
/// the two have the same join key.
pub proof fn lemma_inner_join_keys_equal(
    left_rows: Seq<Seq<ValueView>>,
    left_keys: Seq<ValueView>,
    right_rows: Seq<Seq<ValueView>>,
    right_keys: Seq<ValueView>,
    right_width: nat,
    n: nat,
)
    requires
        n <= left_rows.len(),
        left_keys.len() == left_rows.len(),
        right_keys.len() == right_rows.len(),
    ensures
        forall|r: int|
            0 <= r < join_rows(
                left_rows,
                left_keys,
                right_rows,
                right_keys,
                JoinType::Inner,
                right_width,
                n,
            ).len() ==> joins_equal_keys(
                #[trigger] join_rows(
                    left_rows,
                    left_keys,
                    right_rows,
                    right_keys,
                    JoinType::Inner,
                    right_width,
                    n,
                )[r],
                left_rows,
                left_keys,
                right_rows,
                right_keys,
                n,
            ),
    decreases n,
{
    if n > 0 {
        let earlier = join_rows(
            left_rows,
            left_keys,
            right_rows,
            right_keys,
            JoinType::Inner,
            right_width,
            (n - 1) as nat,
        );
        let all = join_rows(
            left_rows,
            left_keys,
            right_rows,
            right_keys,
            JoinType::Inner,
            right_width,
            n,
        );
        lemma_inner_join_keys_equal(
            left_rows,
            left_keys,
            right_rows,
            right_keys,
            right_width,
            (n - 1) as nat,
        );
        let positions = matching_positions(left_keys[n - 1], right_keys);
        lemma_key_positions_in_range(
            key_seqs(right_keys),
            seq![left_keys[n - 1]],
            right_keys.len() as int,
        );
        lemma_positions_have_key(key_seqs(right_keys), seq![left_keys[n - 1]], right_keys.len() as int);
        assert forall|r: int| 0 <= r < all.len() implies joins_equal_keys(
            #[trigger] all[r],
            left_rows,
            left_keys,
            right_rows,
            right_keys,
            n,
        ) by {
            if r < earlier.len() {
                assert(all[r] == earlier[r]);
                assert(joins_equal_keys(
                    earlier[r],
                    left_rows,
                    left_keys,
                    right_rows,
                    right_keys,
                    (n - 1) as nat,
                ));
                let (i, j) = choose|i: int, j: int|
                    0 <= i < n - 1 && 0 <= j < right_rows.len() && left_keys[i] == right_keys[j]
                        && earlier[r] == #[trigger] left_rows[i] + #[trigger] right_rows[j];
                assert(0 <= i < n && all[r] == left_rows[i] + right_rows[j]);
            } else {
                let k = r - earlier.len();
                let j = positions[k];
                assert(key_seqs(right_keys)[j] == seq![left_keys[n - 1]]);
                assert(key_seqs(right_keys)[j][0] == right_keys[j]);
                assert(all[r] == left_rows[n - 1] + right_rows[j]);
            }
        }
    }
}

/// Each position that `positions_with_key` gives holds the probe's key.
pub proof fn lemma_positions_have_key(keys: Seq<Seq<ValueView>>, probe: Seq<ValueView>, n: int)
    requires
        n <= keys.len(),
    ensures
        forall|k: int|
            0 <= k < positions_with_key(keys, probe, n).len() ==> keys[#[trigger] positions_with_key(
                keys,
                probe,
                n,
            )[k]] == probe,
    decreases n,
{
    if n > 0 {
        lemma_positions_have_key(keys, probe, n - 1);
        let rest = positions_with_key(keys, probe, n - 1);
        assert forall|k: int| 0 <= k < positions_with_key(keys, probe, n).len() implies keys[#[trigger] positions_with_key(
            keys,
            probe,
            n,
        )[k]] == probe by {
            if k < rest.len() {
                assert(keys[rest[k]] == probe);
            }
        }
    }
}

/// Where no key below `n` equals the probe, no position is given.
pub proof fn lemma_no_key_no_position(keys: Seq<Seq<ValueView>>, probe: Seq<ValueView>, n: int)
    requires
        forall|j: int| 0 <= j < n ==> keys[j] != probe,
    ensures
        positions_with_key(keys, probe, n).len() == 0,
    decreases n,
{
    if n > 0 {
        lemma_no_key_no_position(keys, probe, n - 1);
    }
}

/// In a left outer join, a left row whose key no right row has gives
/// exactly one row: the left row followed by a null for each right column.
pub proof fn lemma_left_outer_unmatched(
    left_row: Seq<ValueView>,
    left_key: ValueView,
    right_rows: Seq<Seq<ValueView>>,
    right_keys: Seq<ValueView>,
    right_width: nat,
)
    requires
        forall|j: int| 0 <= j < right_keys.len() ==> right_keys[j] != left_key,
    ensures
        join_rows_for(left_row, left_key, right_rows, right_keys, JoinType::LeftOuter, right_width)
            == seq![left_row + nulls(right_width)],
        forall|c: int|
            left_row.len() <= c < left_row.len() + right_width ==> #[trigger] (left_row + nulls(
                right_width,
            ))[c] == ValueView::Null,
{
    assert forall|j: int| 0 <= j < right_keys.len() implies key_seqs(right_keys)[j] != seq![
        left_key,
    ] by {
        assert(key_seqs(right_keys)[j][0] == right_keys[j]);
        assert(seq![left_key][0] == left_key);
    }
    lemma_no_key_no_position(key_seqs(right_keys), seq![left_key], right_keys.len() as int);
}

/// The join keys of `rows`: for each row the value under `column`.
pub fn join_keys(rows: &Vec<Row>, schema: &Schema, column: &Column) -> (r: Result<Vec<Value>, QueryError>)
    ensures
        match r {
            Ok(keys) => join_keys_spec(rows_view(rows@), schema@, column@, rows@.len()) == Ok::<
                Seq<ValueView>,
                QueryErrorView,
            >(values_view(keys@)) && keys@.len() == rows@.len(),
            Err(e) => join_keys_spec(rows_view(rows@), schema@, column@, rows@.len()) == Err::<
                Seq<ValueView>,
                QueryErrorView,
            >(e@),
        },
{
    let ghost views = rows_view(rows@);
    let mut keys: Vec<Value> = Vec::new();
    let mut i: usize = 0;
    while i < rows.len()
        invariant
            i <= rows.len(),
            views == rows_view(rows@),
            keys@.len() == i,
            join_keys_spec(views, schema@, column@, i as nat) is Ok,
            join_keys_spec(views, schema@, column@, i as nat)->Ok_0.len() == i,
            forall|k: int|
                0 <= k < i ==> (#[trigger] keys@[k])@ == join_keys_spec(
                    views,
                    schema@,
                    column@,
                    i as nat,
                )->Ok_0[k],
        decreases rows.len() - i,
    {
        assert(views[i as int] == rows@[i as int]@);
        match rows[i].get_column(column, schema) {
            Some(value) => {
                keys.push(value.clone());
            },
            None => {
                proof {
                    lemma_join_keys_error_stays(views, schema@, column@, (i + 1) as nat, rows@.len());
                }
                return Err(QueryError::ColumnNotFoundInSchema { column_name: column.clone() });
            },
        }
        i += 1;
    }
    assert(values_view(keys@) =~= join_keys_spec(views, schema@, column@, rows@.len())->Ok_0);
    Ok(keys)
}

fn key_hash(key: &Value) -> (r: u64)
    ensures
        r == hash_of_key(seq![key@]),
{
    let mut single: Vec<Value> = Vec::new();
    single.push(key.clone());
    assert(values_view(single@) =~= seq![key@]);
    calculate_hash(&single).0
}

/// Builds the buckets of a join from the hashes of the keys: a bucket for
/// each hash of a left key, holding the positions, in rising order, of the
/// right keys with that hash.
pub fn build_buckets(left_hashes: &Vec<u64>, right_hashes: &Vec<u64>) -> (r: HashMap<u64, Vec<usize>>)
    ensures
        forall|h: u64| r@.contains_key(h) <==> left_hashes@.contains(h),
        forall|h: u64|
            r@.contains_key(h) ==> positions_view((#[trigger] r@[h])@) == positions_of_hash(
                right_hashes@,
                h,
                right_hashes@.len() as int,
            ),
{
    broadcast use vstd::std_specs::hash::group_hash_axioms;

    let mut buckets: HashMap<u64, Vec<usize>> = HashMap::new();
    let mut i: usize = 0;
    while i < left_hashes.len()
        invariant
            i <= left_hashes.len(),
            forall|h: u64| buckets@.contains_key(h) <==> left_hashes@.take(i as int).contains(h),
            forall|h: u64| buckets@.contains_key(h) ==> (#[trigger] buckets@[h])@.len() == 0,
        decreases left_hashes.len() - i,
    {
        let hash = left_hashes[i];
        let ghost before = buckets@;
        buckets.insert(hash, Vec::new());
        proof {
            let earlier = left_hashes@.take(i as int);
            let now = left_hashes@.take(i + 1);
            assert(now =~= earlier.push(hash));
            assert forall|h: u64| buckets@.contains_key(h) <==> now.contains(h) by {
                if now.contains(h) {
                    let k = choose|k: int| 0 <= k < now.len() && now[k] == h;
                    if k < i {
                        assert(earlier[k] == h);
                    }
                }
                if earlier.contains(h) {
                    let k = choose|k: int| 0 <= k < earlier.len() && earlier[k] == h;
                    assert(now[k] == h);
                }
                assert(now[i as int] == hash);
            }
        }
        i += 1;
    }
    assert(left_hashes@.take(left_hashes@.len() as int) =~= left_hashes@);
    assert forall|h: u64| buckets@.contains_key(h) implies positions_view((#[trigger] buckets@[h])@)
        == positions_of_hash(right_hashes@, h, 0) by {
        assert(positions_view(buckets@[h]@) =~= Seq::<int>::empty());
    }
    let mut j: usize = 0;
    while j < right_hashes.len()
        invariant
            j <= right_hashes.len(),
            forall|h: u64| buckets@.contains_key(h) <==> left_hashes@.contains(h),
            forall|h: u64|
                buckets@.contains_key(h) ==> positions_view((#[trigger] buckets@[h])@)
                    == positions_of_hash(right_hashes@, h, j as int),
        decreases right_hashes.len() - j,
    {
        let hash = right_hashes[j];
        let ghost before = buckets@;
        match buckets.remove(&hash) {
            Some(bucket) => {
                let mut bucket = bucket;
                let ghost earlier = positions_view(bucket@);
                bucket.push(j);
                assert(positions_view(bucket@) =~= earlier.push(j as int));
                buckets.insert(hash, bucket);
                assert(buckets@.dom() =~= before.dom());
            },
            None => {
                assert(buckets@ =~= before);
            },
        }
        assert forall|h: u64| buckets@.contains_key(h) implies positions_view(
            (#[trigger] buckets@[h])@,
        ) == positions_of_hash(right_hashes@, h, j + 1) by {
            if h != hash {
                assert(buckets@[h] == before[h]);
            }
        }
        j += 1;
    }
    buckets
}

fn key_hashes_of(keys: &Vec<Value>) -> (r: Vec<u64>)
    ensures
        r@.len() == keys@.len(),
        forall|i: int| 0 <= i < r@.len() ==> #[trigger] r@[i] == hash_of_key(seq![keys@[i]@]),
{
    let mut hashes: Vec<u64> = Vec::new();
    let mut i: usize = 0;
    while i < keys.len()
        invariant
            i <= keys.len(),
            hashes@.len() == i,
            forall|k: int| 0 <= k < i ==> #[trigger] hashes@[k] == hash_of_key(seq![keys@[k]@]),
        decreases keys.len() - i,
    {
        hashes.push(key_hash(&keys[i]));
        i += 1;
    }
    hashes
}

/// Confirms a bucket: of the positions of `bucket`, those of the right keys
/// that equal the left key, in the order of the bucket.
pub fn confirm_matches(bucket: &Vec<usize>, right_keys: &Vec<Value>, left_key: &Value) -> (r: Vec<usize>)
    requires
        forall|k: int| 0 <= k < bucket@.len() ==> (#[trigger] bucket@[k]) < right_keys@.len(),
    ensures
        positions_view(r@) == confirmed(
            positions_view(bucket@),
            key_seqs(values_view(right_keys@)),
            seq![left_key@],
        ),
{
    let ghost keys = key_seqs(values_view(right_keys@));
    let ghost positions = positions_view(bucket@);
    let mut matches: Vec<usize> = Vec::new();
    assert(positions_view(matches@) =~= confirmed(positions.take(0), keys, seq![left_key@]));
    let mut k: usize = 0;
    while k < bucket.len()
        invariant
            k <= bucket.len(),
            keys == key_seqs(values_view(right_keys@)),
            positions == positions_view(bucket@),
            forall|j: int| 0 <= j < bucket@.len() ==> (#[trigger] bucket@[j]) < right_keys@.len(),
            positions_view(matches@) == confirmed(positions.take(k as int), keys, seq![left_key@]),
        decreases bucket.len() - k,
    {
        let position = bucket[k];
        let ghost before = positions_view(matches@);
        proof {
            assert(positions.take(k + 1).drop_last() =~= positions.take(k as int));
            assert(positions.take(k + 1).last() == position);
            assert(keys[position as int][0] == right_keys@[position as int]@);
            assert(seq![left_key@][0] == left_key@);
            assert((keys[position as int] == seq![left_key@]) == (right_keys@[position as int]@
                == left_key@)) by {
                if right_keys@[position as int]@ == left_key@ {
                    assert(keys[position as int] =~= seq![left_key@]);
                }
            }
        }
        if right_keys[position].equals(left_key) {
            matches.push(position);
            assert(positions_view(matches@) =~= before.push(position as int));
        }
        k += 1;
    }
    assert(positions.take(bucket@.len() as int) =~= positions);
    matches
}

fn join_row(left_row: &Row, right_row: &Row) -> (r: Row)
    ensures
        r@ == left_row@ + right_row@,
{
    let mut whole_row = left_row.clone();
    whole_row.extend(right_row.clone());
    whole_row
}

fn padded_row(left_row: &Row, width: usize) -> (r: Row)
    ensures
        r@ == left_row@ + nulls(width as nat),
{
    let mut whole_row = left_row.clone();
    let ghost start = whole_row@;
    let mut i: usize = 0;
    while i < width
        invariant
            i <= width,
            whole_row@.len() == start.len() + i,
            forall|k: int| 0 <= k < start.len() ==> whole_row@[k] == start[k],
            forall|k: int| start.len() <= k < start.len() + i ==> whole_row@[k] == ValueView::Null,
        decreases width - i,
    {
        let ghost before = whole_row@;
        whole_row.items.push(Value::Null);
        assert(whole_row@ =~= before.push(ValueView::Null));
        i += 1;
    }
    assert(whole_row@ =~= left_row@ + nulls(width as nat));
    whole_row
}

/// Joins the left rows with the right rows on the two columns of `on`.
///
/// The rows come out left row by left row, in the order of the left rows;
/// each left row is joined with the right rows of the same key, in the
/// order of the right rows. A left row that no right row matches gives, in
/// a left outer join, one row padded with nulls. A right row enters the
/// bucket of its key's hash, and a bucket is confirmed by the keys
/// themselves before a row comes out.
pub fn hash_join(
    left_rows: Vec<Row>,
    left_schema: &Schema,
    right_rows: Vec<Row>,
    right_schema: &Schema,
    on: &JoinOn,
    join_type: &JoinType,
    cost: Cost,
) -> (r: Result<QueryStep, QueryError>)
    ensures
        is_step_result(
            r,
            hash_join_spec(
                rows_view(left_rows@),
                left_schema@,
                rows_view(right_rows@),
                right_schema@,
                on@,
                *join_type,
                cost@,
            ),
        ),
{
    broadcast use vstd::std_specs::hash::group_hash_axioms;

    let mut cost = cost;
    let ghost start_cost = cost@;
    let ghost lefts = rows_view(left_rows@);
    let ghost rights = rows_view(right_rows@);
    let left_keys = match join_keys(&left_rows, left_schema, &on.left) {
        Ok(keys) => keys,
        Err(e) => {
            return Err(e);
        },
    };
    let right_keys = match join_keys(&right_rows, right_schema, &on.right) {
        Ok(keys) => keys,
        Err(e) => {
            return Err(e);
        },
    };
    let ghost lkeys = values_view(left_keys@);
    let ghost rkeys = values_view(right_keys@);
    let ghost width = right_schema@.len();
    cost.add_rows(left_rows.len());
    cost.add_rows(right_rows.len());
    cost.add_rows(left_rows.len());
    let left_hashes = key_hashes_of(&left_keys);
    let right_hashes = key_hashes_of(&right_keys);
    let buckets = build_buckets(&left_hashes, &right_hashes);
    proof {
        assert forall|h: u64| positions_with_hash(key_seqs(rkeys), h, right_keys@.len() as int)
            == positions_of_hash(right_hashes@, h, right_keys@.len() as int) by {
            assert forall|i: int| 0 <= i < right_keys@.len() implies right_hashes@[i] == hash_of_key(
                #[trigger] key_seqs(rkeys)[i],
            ) by {
                assert(key_seqs(rkeys)[i] =~= seq![right_keys@[i]@]);
            }
            lemma_positions_of_key_hashes(key_seqs(rkeys), right_hashes@, h, right_keys@.len() as int);
        }
    }
    let mut output_rows: Vec<Row> = Vec::new();
    assert(rows_view(output_rows@) =~= join_rows(lefts, lkeys, rights, rkeys, *join_type, width, 0));
    let mut i: usize = 0;
    while i < left_rows.len()
        invariant
            i <= left_rows.len(),
            lefts == rows_view(left_rows@),
            rights == rows_view(right_rows@),
            lkeys == values_view(left_keys@),
            rkeys == values_view(right_keys@),
            left_keys@.len() == left_rows@.len(),
            right_keys@.len() == right_rows@.len(),
            width == right_schema@.len(),
            left_hashes@.len() == left_keys@.len(),
            forall|k: int|
                0 <= k < left_hashes@.len() ==> #[trigger] left_hashes@[k] == hash_of_key(
                    seq![left_keys@[k]@],
                ),
            forall|h: u64| buckets@.contains_key(h) <==> left_hashes@.contains(h),
            forall|h: u64|
                buckets@.contains_key(h) ==> positions_view((#[trigger] buckets@[h])@)
                    == positions_with_hash(key_seqs(rkeys), h, right_keys@.len() as int),
            rows_view(output_rows@) == join_rows(
                lefts,
                lkeys,
                rights,
                rkeys,
                *join_type,
                width,
                i as nat,
            ),
        decreases left_rows.len() - i,
    {
        let left_row = &left_rows[i];
        let left_key = &left_keys[i];
        assert(lefts[i as int] == left_row@);
        assert(lkeys[i as int] == left_key@);
        let hash = left_hashes[i];
        assert(hash == hash_of_key(seq![left_key@]));
        assert(left_hashes@.contains(hash));
        let ghost before = rows_view(output_rows@);
        let ghost expected = matching_positions(left_key@, rkeys);
        proof {
            lemma_confirmed_bucket(key_seqs(rkeys), seq![left_key@], right_keys@.len() as int);
            lemma_positions_in_range(key_seqs(rkeys), hash, right_keys@.len() as int);
            lemma_key_positions_in_range(key_seqs(rkeys), seq![left_key@], right_keys@.len() as int);
        }
        let matches = match buckets.get(&hash) {
            Some(bucket) => {
                assert(buckets@[hash] == *bucket);
                assert forall|k: int| 0 <= k < bucket@.len() implies (#[trigger] bucket@[k])
                    < right_keys@.len() by {
                    assert(positions_view(bucket@)[k] == bucket@[k] as int);
                }
                confirm_matches(bucket, &right_keys, left_key)
            },
            None => {
                assert(false);
                Vec::new()
            },
        };
        assert(positions_view(matches@) == expected);
        if matches.len() == 0 {
            match join_type {
                JoinType::LeftOuter => {
                    let whole_row = padded_row(left_row, right_schema.columns.len());
                    output_rows.push(whole_row);
                    assert(rows_view(output_rows@) =~= before + seq![left_row@ + nulls(width)]);
                },
                JoinType::Inner => {
                    assert(rows_view(output_rows@) =~= before + Seq::<Seq<ValueView>>::empty());
                },
            }
        } else {
            let mut k: usize = 0;
            assert(rows_view(output_rows@) =~= before + joined_at(left_row@, rights, expected.take(0)));
            while k < matches.len()
                invariant
                    k <= matches.len(),
                    rights == rows_view(right_rows@),
                    expected == positions_view(matches@),
                    i < left_rows@.len(),
                    left_row == &left_rows@[i as int],
                    forall|j: int| 0 <= j < expected.len() ==> 0 <= #[trigger] expected[j] < rights.len(),
                    rows_view(output_rows@) == before + joined_at(
                        left_row@,
                        rights,
                        expected.take(k as int),
                    ),
                decreases matches.len() - k,
            {
                let position = matches[k];
                assert(expected[k as int] == position);
                assert(rights[position as int] == right_rows@[position as int]@);
                let whole_row = join_row(left_row, &right_rows[position]);
                let ghost earlier = rows_view(output_rows@);
                output_rows.push(whole_row);
                proof {
                    assert(rows_view(output_rows@) =~= earlier.push(whole_row@));
                    assert(joined_at(left_row@, rights, expected.take(k + 1)) =~= joined_at(
                        left_row@,
                        rights,
                        expected.take(k as int),
                    ).push(whole_row@));
                    assert(rows_view(output_rows@) =~= before + joined_at(
                        left_row@,
                        rights,
                        expected.take(k + 1),
                    ));
                }
                k += 1;
            }
            assert(expected.take(matches@.len() as int) =~= expected);
        }
        i += 1;
    }
    let mut schema = left_schema.clone();
    schema.extend(right_schema.clone());
    let step = QueryStep { rows: output_rows, schema, cost };
    proof {
        let expected = hash_join_spec(lefts, left_schema@, rights, right_schema@, on@, *join_type, start_cost);
        assert(join_keys_spec(lefts, left_schema@, on@.left, lefts.len()) == Ok::<
            Seq<ValueView>,
            QueryErrorView,
        >(lkeys));
        assert(join_keys_spec(rights, right_schema@, on@.right, rights.len()) == Ok::<
            Seq<ValueView>,
            QueryErrorView,
        >(rkeys));
        assert(expected is Ok);
        assert(step@.schema == expected->Ok_0.schema);
        assert(step@.rows == expected->Ok_0.rows);
        assert(step@.cost == saturate(start_cost + 2 * lefts.len() + rights.len()));
    }
    Ok(step)
}

} // verus!
