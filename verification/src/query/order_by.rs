//! The stable sort of rows by a list of keys.

use vstd::prelude::*;
use crate::query::{QueryError, QueryErrorView};
use crate::types::{
    first_index_of, order_by_view, rows_view, saturate, Cost, Order, OrderByExpr, OrderByExprView,
    Row, Schema, SchemaColumnView,
};
use crate::value::{
    compare_values, compare_values_spec, flip, flip_spec, lemma_compare_values_equal,
    lemma_compare_values_flip, lemma_compare_values_transitive, Comparison, ValueView,
};

verus! {

/// A sort key with its column resolved: the position in the row, and the
/// direction.
#[derive(Debug, PartialEq, Eq, Clone, Copy)]
pub struct SortKey {
    pub index: usize,
    pub order: Order,
}

/// The error of two values of different kinds where an order is needed.
pub open spec fn not_comparable() -> QueryErrorView {
    QueryErrorView::TypeMismatch { expected: "values of one kind"@ }
}

/// The first `n` keys of an `ORDER BY`, each with its column resolved in
/// the schema; the first column that the schema lacks decides.
pub open spec fn resolve_keys_spec(schema: Seq<SchemaColumnView>, exprs: Seq<OrderByExprView>, n: nat) -> Result<
    Seq<SortKey>,
    QueryErrorView,
>
    decreases n,
{
    if n == 0 {
        Ok(Seq::empty())
    } else {
        match resolve_keys_spec(schema, exprs, (n - 1) as nat) {
            Err(e) => Err(e),
            Ok(keys) => match first_index_of(schema, SchemaColumnView::Column(exprs[n - 1].column)) {
                Some(i) => Ok(keys.push(SortKey { index: i as usize, order: exprs[n - 1].order })),
                None => Err(
                    QueryErrorView::ColumnNotFoundInSchema { column_name: exprs[n - 1].column },
                ),
            },
        }
    }
}

/// The order of two rows under one key: that of the two values, flipped for
/// a descending key.
pub open spec fn key_comparison(a: Seq<ValueView>, b: Seq<ValueView>, key: SortKey) -> Option<Comparison> {
    match compare_values_spec(a[key.index as int], b[key.index as int]) {
        None => None,
        Some(c) => Some(
            if key.order == Order::Desc {
                flip_spec(c)
            } else {
                c
            },
        ),
    }
}

/// The order of two rows under the keys from position `k` on: the first key
/// under which they differ decides.
pub open spec fn compare_rows_from(a: Seq<ValueView>, b: Seq<ValueView>, keys: Seq<SortKey>, k: int) -> Option<
    Comparison,
>
    decreases keys.len() - k,
{
    if k < 0 || k >= keys.len() {
        Some(Comparison::Equal)
    } else {
        match key_comparison(a, b, keys[k]) {
            None => None,
            Some(Comparison::Equal) => compare_rows_from(a, b, keys, k + 1),
            Some(c) => Some(c),
        }
    }
}

/// The order of two rows under the keys; `None` where two values of
/// different kinds meet.
pub open spec fn compare_rows_spec(a: Seq<ValueView>, b: Seq<ValueView>, keys: Seq<SortKey>) -> Option<
    Comparison,
> {
    compare_rows_from(a, b, keys, 0)
}

/// Whether any two rows can be compared.
pub open spec fn all_comparable(rows: Seq<Seq<ValueView>>, keys: Seq<SortKey>) -> bool {
    forall|i: int, j: int|
        0 <= i < rows.len() && 0 <= j < rows.len() ==> (#[trigger] compare_rows_spec(
            rows[i],
            rows[j],
            keys,
        )) is Some
}

/// Whether the row at `x` may stand before the row at `y`: it is less, or
/// the two are equal under every key and `x` came first.
pub open spec fn in_order(rows: Seq<Seq<ValueView>>, keys: Seq<SortKey>, x: int, y: int) -> bool {
    let c = compare_rows_spec(rows[x], rows[y], keys);
    c == Some(Comparison::Less) || (c == Some(Comparison::Equal) && x < y)
}

/// Two sorted runs merged into one: the head of the right run goes first
/// where it is less than the head of the left run, else the head of the
/// left run.
pub open spec fn merge_order(rows: Seq<Seq<ValueView>>, keys: Seq<SortKey>, left: Seq<int>, right: Seq<int>) -> Seq<
    int,
>
    decreases left.len() + right.len(),
{
    if left.len() == 0 {
        right
    } else if right.len() == 0 {
        left
    } else if compare_rows_spec(rows[right[0]], rows[left[0]], keys) == Some(Comparison::Less) {
        seq![right[0]] + merge_order(rows, keys, left, right.drop_first())
    } else {
        seq![left[0]] + merge_order(rows, keys, left.drop_first(), right)
    }
}

/// The comparisons that merging two runs takes: one for each row that goes
/// out while both runs still hold a row.
pub open spec fn merge_comparisons(
    rows: Seq<Seq<ValueView>>,
    keys: Seq<SortKey>,
    left: Seq<int>,
    right: Seq<int>,
) -> nat
    decreases left.len() + right.len(),
{
    if left.len() == 0 || right.len() == 0 {
        0
    } else if compare_rows_spec(rows[right[0]], rows[left[0]], keys) == Some(Comparison::Less) {
        1 + merge_comparisons(rows, keys, left, right.drop_first())
    } else {
        1 + merge_comparisons(rows, keys, left.drop_first(), right)
    }
}

/// Whether every comparison that merging two runs makes has an answer.
pub open spec fn merge_defined(
    rows: Seq<Seq<ValueView>>,
    keys: Seq<SortKey>,
    left: Seq<int>,
    right: Seq<int>,
) -> bool
    decreases left.len() + right.len(),
{
    if left.len() == 0 || right.len() == 0 {
        true
    } else if compare_rows_spec(rows[right[0]], rows[left[0]], keys) == Some(Comparison::Less) {
        merge_defined(rows, keys, left, right.drop_first())
    } else {
        compare_rows_spec(rows[right[0]], rows[left[0]], keys) is Some && merge_defined(
            rows,
            keys,
            left.drop_first(),
            right,
        )
    }
}

/// The middle of a range.
pub open spec fn middle(lo: int, hi: int) -> int {
    lo + (hi - lo) / 2
}

/// The positions from `lo` up to `hi` in sorted order: a merge sort, which
/// sorts each half of the range and merges the two.
pub open spec fn sorted_range(rows: Seq<Seq<ValueView>>, keys: Seq<SortKey>, lo: int, hi: int) -> Seq<int>
    decreases hi - lo,
{
    if hi - lo <= 0 {
        Seq::empty()
    } else if hi - lo == 1 {
        seq![lo]
    } else {
        merge_order(
            rows,
            keys,
            sorted_range(rows, keys, lo, middle(lo, hi)),
            sorted_range(rows, keys, middle(lo, hi), hi),
        )
    }
}

/// The comparisons that sorting the positions from `lo` up to `hi` takes.
pub open spec fn range_comparisons(rows: Seq<Seq<ValueView>>, keys: Seq<SortKey>, lo: int, hi: int) -> nat
    decreases hi - lo,
{
    if hi - lo <= 1 {
        0
    } else {
        range_comparisons(rows, keys, lo, middle(lo, hi)) + range_comparisons(
            rows,
            keys,
            middle(lo, hi),
            hi,
        ) + merge_comparisons(
            rows,
            keys,
            sorted_range(rows, keys, lo, middle(lo, hi)),
            sorted_range(rows, keys, middle(lo, hi), hi),
        )
    }
}

/// Whether every comparison that sorting the positions from `lo` up to
/// `hi` makes has an answer.
pub open spec fn range_defined(rows: Seq<Seq<ValueView>>, keys: Seq<SortKey>, lo: int, hi: int) -> bool
    decreases hi - lo,
{
    if hi - lo <= 1 {
        true
    } else {
        &&& range_defined(rows, keys, lo, middle(lo, hi))
        &&& range_defined(rows, keys, middle(lo, hi), hi)
        &&& merge_defined(
            rows,
            keys,
            sorted_range(rows, keys, lo, middle(lo, hi)),
            sorted_range(rows, keys, middle(lo, hi), hi),
        )
    }
}

/// The positions of the first `n` rows in sorted order.
pub open spec fn sorted_order(rows: Seq<Seq<ValueView>>, keys: Seq<SortKey>, n: nat) -> Seq<int> {
    sorted_range(rows, keys, 0, n as int)
}

/// The comparisons that sorting the first `n` rows takes.
pub open spec fn sort_comparisons(rows: Seq<Seq<ValueView>>, keys: Seq<SortKey>, n: nat) -> int {
    range_comparisons(rows, keys, 0, n as int) as int
}

/// The rows in sorted order.
pub open spec fn sorted_rows(rows: Seq<Seq<ValueView>>, keys: Seq<SortKey>) -> Seq<Seq<ValueView>> {
    Seq::new(rows.len(), |k: int| rows[sorted_order(rows, keys, rows.len())[k]])
}

/// Whether `order` lists each of the positions from `lo` up to `hi` once.
pub open spec fn is_permutation_of(order: Seq<int>, lo: int, hi: int) -> bool {
    &&& order.len() == hi - lo
    &&& forall|k: int| 0 <= k < order.len() ==> lo <= #[trigger] order[k] < hi
    &&& forall|k: int, l: int| 0 <= k < l < order.len() ==> order[k] != order[l]
    &&& forall|j: int| lo <= j < hi ==> #[trigger] order.contains(j)
}

/// Whether `order` lists each of the positions below `n` once.
pub open spec fn is_permutation(order: Seq<int>, n: nat) -> bool {
    is_permutation_of(order, 0, n as int)
}

/// Whether the rows, taken in the order `order`, rise under the keys, and
/// rows that are equal under every key keep the order that they came in.
pub open spec fn is_stably_sorted(rows: Seq<Seq<ValueView>>, keys: Seq<SortKey>, order: Seq<int>) -> bool {
    forall|k: int, l: int|
        0 <= k < l < order.len() ==> #[trigger] in_order(rows, keys, order[k], order[l])
}

/// Comparing two rows in the other direction gives the flipped answer.
pub proof fn lemma_compare_rows_flip(a: Seq<ValueView>, b: Seq<ValueView>, keys: Seq<SortKey>, k: int)
    requires
        0 <= k,
    ensures
        compare_rows_from(b, a, keys, k) == match compare_rows_from(a, b, keys, k) {
            Some(c) => Some(flip_spec(c)),
            None => None,
        },
    decreases keys.len() - k,
{
    if k < keys.len() {
        lemma_compare_values_flip(a[keys[k].index as int], b[keys[k].index as int]);
        lemma_compare_rows_flip(a, b, keys, k + 1);
    }
}

/// A row equals itself under every key.
pub proof fn lemma_compare_rows_reflexive(a: Seq<ValueView>, keys: Seq<SortKey>, k: int)
    requires
        0 <= k,
    ensures
        compare_rows_from(a, a, keys, k) == Some(Comparison::Equal),
    decreases keys.len() - k,
{
    if k < keys.len() {
        lemma_compare_values_equal(a[keys[k].index as int], a[keys[k].index as int]);
        lemma_compare_rows_reflexive(a, keys, k + 1);
    }
}

/// The order of rows is transitive, and rows stay comparable along a
/// chain.
pub proof fn lemma_compare_rows_transitive(
    a: Seq<ValueView>,
    b: Seq<ValueView>,
    c: Seq<ValueView>,
    keys: Seq<SortKey>,
    k: int,
)
    requires
        0 <= k,
        compare_rows_from(a, b, keys, k) is Some,
        compare_rows_from(b, c, keys, k) is Some,
        compare_rows_from(a, b, keys, k) != Some(Comparison::Greater),
        compare_rows_from(b, c, keys, k) != Some(Comparison::Greater),
    ensures
        compare_rows_from(a, c, keys, k) is Some,
        compare_rows_from(a, c, keys, k) != Some(Comparison::Greater),
        compare_rows_from(a, c, keys, k) == Some(Comparison::Equal) ==> compare_rows_from(
            a,
            b,
            keys,
            k,
        ) == Some(Comparison::Equal) && compare_rows_from(b, c, keys, k) == Some(Comparison::Equal),
    decreases keys.len() - k,
{
    if k < keys.len() {
        let va = a[keys[k].index as int];
        let vb = b[keys[k].index as int];
        let vc = c[keys[k].index as int];
        lemma_compare_values_flip(va, vb);
        lemma_compare_values_flip(vb, vc);
        lemma_compare_values_flip(va, vc);
        lemma_compare_values_equal(va, vb);
        lemma_compare_values_equal(vb, vc);
        lemma_compare_values_equal(va, vc);
        if keys[k].order == Order::Desc {
            lemma_compare_values_transitive(vc, vb, va);
        } else {
            lemma_compare_values_transitive(va, vb, vc);
        }
        if key_comparison(a, c, keys[k]) == Some(Comparison::Equal) {
            lemma_compare_rows_transitive(a, b, c, keys, k + 1);
        }
    }
}

/// Where `x` may stand before `y` and `y` before `z`, `x` may stand before
/// `z`.
pub proof fn lemma_in_order_transitive(
    rows: Seq<Seq<ValueView>>,
    keys: Seq<SortKey>,
    x: int,
    y: int,
    z: int,
)
    requires
        in_order(rows, keys, x, y),
        in_order(rows, keys, y, z),
    ensures
        in_order(rows, keys, x, z),
{
    lemma_compare_rows_transitive(rows[x], rows[y], rows[z], keys, 0);
    let c = compare_rows_spec(rows[x], rows[z], keys);
    assert(c is Some);
    assert(c != Some(Comparison::Greater));
    if c == Some(Comparison::Equal) {
        assert(compare_rows_spec(rows[x], rows[y], keys) == Some(Comparison::Equal));
        assert(x < y);
        assert(y < z);
    } else {
        assert(c == Some(Comparison::Less));
    }
}

/// Where `x` is less than `y` and `y` may stand before `z`, `x` is less
/// than `z`.
pub proof fn lemma_less_in_order(rows: Seq<Seq<ValueView>>, keys: Seq<SortKey>, x: int, y: int, z: int)
    requires
        compare_rows_spec(rows[x], rows[y], keys) == Some(Comparison::Less),
        in_order(rows, keys, y, z),
    ensures
        compare_rows_spec(rows[x], rows[z], keys) == Some(Comparison::Less),
{
    lemma_compare_rows_transitive(rows[x], rows[y], rows[z], keys, 0);
}

/// A run without its head is sorted as the run is.
pub proof fn lemma_tail_sorted(rows: Seq<Seq<ValueView>>, keys: Seq<SortKey>, run: Seq<int>)
    requires
        run.len() > 0,
        is_stably_sorted(rows, keys, run),
    ensures
        is_stably_sorted(rows, keys, run.drop_first()),
{
    let tail = run.drop_first();
    assert forall|k: int, l: int| 0 <= k < l < tail.len() implies #[trigger] in_order(
        rows,
        keys,
        tail[k],
        tail[l],
    ) by {
        assert(in_order(rows, keys, run[k + 1], run[l + 1]));
    }
}

/// Merging two sorted runs, of which the left holds the earlier positions,
/// gives a sorted run of the same positions, where every comparison that
/// the merge makes has an answer; and then every row of the left run can be
/// compared with every row of the right run.
pub proof fn lemma_merge(rows: Seq<Seq<ValueView>>, keys: Seq<SortKey>, left: Seq<int>, right: Seq<int>)
    requires
        is_stably_sorted(rows, keys, left),
        is_stably_sorted(rows, keys, right),
        forall|i: int, j: int|
            0 <= i < left.len() && 0 <= j < right.len() ==> #[trigger] left[i] < #[trigger] right[j],
        merge_defined(rows, keys, left, right),
    ensures
        merge_order(rows, keys, left, right).len() == left.len() + right.len(),
        forall|k: int|
            0 <= k < merge_order(rows, keys, left, right).len() ==> left.contains(
                #[trigger] merge_order(rows, keys, left, right)[k],
            ) || right.contains(merge_order(rows, keys, left, right)[k]),
        forall|i: int|
            0 <= i < left.len() ==> merge_order(rows, keys, left, right).contains(#[trigger] left[i]),
        forall|j: int|
            0 <= j < right.len() ==> merge_order(rows, keys, left, right).contains(#[trigger] right[j]),
        is_stably_sorted(rows, keys, merge_order(rows, keys, left, right)),
        forall|i: int, j: int|
            0 <= i < left.len() && 0 <= j < right.len() ==> (#[trigger] compare_rows_spec(
                rows[left[i]],
                rows[right[j]],
                keys,
            )) is Some,
    decreases left.len() + right.len(),
{
    let merged = merge_order(rows, keys, left, right);
    if left.len() == 0 || right.len() == 0 {
        assert forall|k: int| 0 <= k < merged.len() implies left.contains(#[trigger] merged[k])
            || right.contains(merged[k]) by {
            if left.len() == 0 {
                assert(right[k] == merged[k]);
            } else {
                assert(left[k] == merged[k]);
            }
        }
        assert forall|i: int| 0 <= i < left.len() implies merged.contains(#[trigger] left[i]) by {
            assert(merged[i] == left[i]);
        }
        assert forall|j: int| 0 <= j < right.len() implies merged.contains(#[trigger] right[j]) by {
            assert(merged[j] == right[j]);
        }
    } else {
        let l0 = left[0];
        let r0 = right[0];
        let c = compare_rows_spec(rows[r0], rows[l0], keys);
        lemma_compare_rows_flip(rows[r0], rows[l0], keys, 0);
        if c == Some(Comparison::Less) {
            let tail = right.drop_first();
            let rest = merge_order(rows, keys, left, tail);
            lemma_tail_sorted(rows, keys, right);
            assert forall|i: int, j: int| 0 <= i < left.len() && 0 <= j < tail.len() implies
                #[trigger] left[i] < #[trigger] tail[j] by {
                assert(tail[j] == right[j + 1]);
            }
            lemma_merge(rows, keys, left, tail);
            assert(merged =~= seq![r0] + rest);
            // The head of the right run is less than every row of the left run.
            assert forall|i: int| 0 <= i < left.len() implies compare_rows_spec(
                rows[r0],
                rows[#[trigger] left[i]],
                keys,
            ) == Some(Comparison::Less) by {
                if i > 0 {
                    assert(in_order(rows, keys, left[0], left[i]));
                    lemma_less_in_order(rows, keys, r0, l0, left[i]);
                }
            }
            assert forall|k: int| 0 <= k < merged.len() implies left.contains(#[trigger] merged[k])
                || right.contains(merged[k]) by {
                if k == 0 {
                    assert(right[0] == merged[0]);
                } else {
                    assert(merged[k] == rest[k - 1]);
                    if tail.contains(rest[k - 1]) {
                        let t = choose|t: int| 0 <= t < tail.len() && tail[t] == rest[k - 1];
                        assert(right[t + 1] == merged[k]);
                    }
                }
            }
            assert forall|i: int| 0 <= i < left.len() implies merged.contains(#[trigger] left[i]) by {
                assert(rest.contains(left[i]));
                let t = choose|t: int| 0 <= t < rest.len() && rest[t] == left[i];
                assert(merged[t + 1] == left[i]);
            }
            assert forall|j: int| 0 <= j < right.len() implies merged.contains(#[trigger] right[j]) by {
                if j == 0 {
                    assert(merged[0] == right[0]);
                } else {
                    assert(tail[j - 1] == right[j]);
                    assert(rest.contains(tail[j - 1]));
                    let t = choose|t: int| 0 <= t < rest.len() && rest[t] == right[j];
                    assert(merged[t + 1] == right[j]);
                }
            }
            assert forall|k: int, l: int| 0 <= k < l < merged.len() implies #[trigger] in_order(
                rows,
                keys,
                merged[k],
                merged[l],
            ) by {
                if k > 0 {
                    assert(in_order(rows, keys, rest[k - 1], rest[l - 1]));
                } else {
                    let u = rest[l - 1];
                    assert(merged[l] == u);
                    if left.contains(u) {
                        let i = choose|i: int| 0 <= i < left.len() && left[i] == u;
                        assert(compare_rows_spec(rows[r0], rows[left[i]], keys) == Some(
                            Comparison::Less,
                        ));
                    } else {
                        let t = choose|t: int| 0 <= t < tail.len() && tail[t] == u;
                        assert(in_order(rows, keys, right[0], right[t + 1]));
                    }
                }
            }
            assert forall|i: int, j: int| 0 <= i < left.len() && 0 <= j < right.len() implies (
            #[trigger] compare_rows_spec(rows[left[i]], rows[right[j]], keys)) is Some by {
                if j == 0 {
                    assert(compare_rows_spec(rows[r0], rows[left[i]], keys) == Some(
                        Comparison::Less,
                    ));
                    lemma_compare_rows_flip(rows[r0], rows[left[i]], keys, 0);
                } else {
                    assert(tail[j - 1] == right[j]);
                    assert(compare_rows_spec(rows[left[i]], rows[tail[j - 1]], keys) is Some);
                }
            }
        } else {
            let tail = left.drop_first();
            let rest = merge_order(rows, keys, tail, right);
            lemma_tail_sorted(rows, keys, left);
            assert forall|i: int, j: int| 0 <= i < tail.len() && 0 <= j < right.len() implies
                #[trigger] tail[i] < #[trigger] right[j] by {
                assert(tail[i] == left[i + 1]);
            }
            lemma_merge(rows, keys, tail, right);
            assert(merged =~= seq![l0] + rest);
            assert(left[0] < right[0]);
            assert(in_order(rows, keys, l0, r0));
            // The head of the left run may stand before every row of the right run.
            assert forall|j: int| 0 <= j < right.len() implies in_order(
                rows,
                keys,
                l0,
                #[trigger] right[j],
            ) by {
                if j > 0 {
                    assert(in_order(rows, keys, right[0], right[j]));
                    lemma_in_order_transitive(rows, keys, l0, r0, right[j]);
                }
            }
            assert forall|k: int| 0 <= k < merged.len() implies left.contains(#[trigger] merged[k])
                || right.contains(merged[k]) by {
                if k == 0 {
                    assert(left[0] == merged[0]);
                } else {
                    assert(merged[k] == rest[k - 1]);
                    if tail.contains(rest[k - 1]) {
                        let t = choose|t: int| 0 <= t < tail.len() && tail[t] == rest[k - 1];
                        assert(left[t + 1] == merged[k]);
                    }
                }
            }
            assert forall|j: int| 0 <= j < right.len() implies merged.contains(#[trigger] right[j]) by {
                assert(rest.contains(right[j]));
                let t = choose|t: int| 0 <= t < rest.len() && rest[t] == right[j];
                assert(merged[t + 1] == right[j]);
            }
            assert forall|i: int| 0 <= i < left.len() implies merged.contains(#[trigger] left[i]) by {
                if i == 0 {
                    assert(merged[0] == left[0]);
                } else {
                    assert(tail[i - 1] == left[i]);
                    assert(rest.contains(tail[i - 1]));
                    let t = choose|t: int| 0 <= t < rest.len() && rest[t] == left[i];
                    assert(merged[t + 1] == left[i]);
                }
            }
            assert forall|k: int, l: int| 0 <= k < l < merged.len() implies #[trigger] in_order(
                rows,
                keys,
                merged[k],
                merged[l],
            ) by {
                if k > 0 {
                    assert(in_order(rows, keys, rest[k - 1], rest[l - 1]));
                } else {
                    let u = rest[l - 1];
                    assert(merged[l] == u);
                    if right.contains(u) {
                        let j = choose|j: int| 0 <= j < right.len() && right[j] == u;
                        assert(in_order(rows, keys, l0, right[j]));
                    } else {
                        let t = choose|t: int| 0 <= t < tail.len() && tail[t] == u;
                        assert(in_order(rows, keys, left[0], left[t + 1]));
                    }
                }
            }
            assert forall|i: int, j: int| 0 <= i < left.len() && 0 <= j < right.len() implies (
            #[trigger] compare_rows_spec(rows[left[i]], rows[right[j]], keys)) is Some by {
                if i == 0 {
                    assert(in_order(rows, keys, l0, right[j]));
                } else {
                    assert(tail[i - 1] == left[i]);
                    assert(compare_rows_spec(rows[tail[i - 1]], rows[right[j]], keys) is Some);
                }
            }
        }
    }
}

/// Where every comparison that the sort of a range makes has an answer,
/// the sorted range lists each position of the range once, it is sorted and
/// stable, and any two rows of the range can be compared.
pub proof fn lemma_sorted_range(rows: Seq<Seq<ValueView>>, keys: Seq<SortKey>, lo: int, hi: int)
    requires
        0 <= lo <= hi,
        range_defined(rows, keys, lo, hi),
    ensures
        is_permutation_of(sorted_range(rows, keys, lo, hi), lo, hi),
        is_stably_sorted(rows, keys, sorted_range(rows, keys, lo, hi)),
        forall|a: int, b: int|
            lo <= a < hi && lo <= b < hi ==> (#[trigger] compare_rows_spec(rows[a], rows[b], keys))
                is Some,
    decreases hi - lo,
{
    let sorted = sorted_range(rows, keys, lo, hi);
    if hi - lo <= 0 {
    } else if hi - lo == 1 {
        assert(sorted[0] == lo);
        lemma_compare_rows_reflexive(rows[lo], keys, 0);
    } else {
        let mid = middle(lo, hi);
        let left = sorted_range(rows, keys, lo, mid);
        let right = sorted_range(rows, keys, mid, hi);
        lemma_sorted_range(rows, keys, lo, mid);
        lemma_sorted_range(rows, keys, mid, hi);
        lemma_merge(rows, keys, left, right);
        assert forall|j: int| lo <= j < hi implies #[trigger] sorted.contains(j) by {
            if j < mid {
                assert(left.contains(j));
                let i = choose|i: int| 0 <= i < left.len() && left[i] == j;
                assert(sorted.contains(left[i]));
            } else {
                assert(right.contains(j));
                let i = choose|i: int| 0 <= i < right.len() && right[i] == j;
                assert(sorted.contains(right[i]));
            }
        }
        assert forall|k: int| 0 <= k < sorted.len() implies lo <= #[trigger] sorted[k] < hi by {
            if left.contains(sorted[k]) {
                let i = choose|i: int| 0 <= i < left.len() && left[i] == sorted[k];
            } else {
                let i = choose|i: int| 0 <= i < right.len() && right[i] == sorted[k];
            }
        }
        assert forall|k: int, l: int| 0 <= k < l < sorted.len() implies sorted[k] != sorted[l] by {
            assert(in_order(rows, keys, sorted[k], sorted[l]));
            lemma_compare_rows_reflexive(rows[sorted[k]], keys, 0);
        }
        assert forall|a: int, b: int| lo <= a < hi && lo <= b < hi implies (
        #[trigger] compare_rows_spec(rows[a], rows[b], keys)) is Some by {
            if (a < mid) == (b < mid) {
            } else {
                let (x, y) = if a < mid {
                    (a, b)
                } else {
                    (b, a)
                };
                assert(left.contains(x));
                assert(right.contains(y));
                let i = choose|i: int| 0 <= i < left.len() && left[i] == x;
                let j = choose|j: int| 0 <= j < right.len() && right[j] == y;
                assert(compare_rows_spec(rows[left[i]], rows[right[j]], keys) is Some);
                lemma_compare_rows_flip(rows[x], rows[y], keys, 0);
            }
        }
    }
}

/// Where any two rows can be compared, every comparison that merging two
/// runs makes has an answer.
pub proof fn lemma_comparable_merge_defined(
    rows: Seq<Seq<ValueView>>,
    keys: Seq<SortKey>,
    left: Seq<int>,
    right: Seq<int>,
)
    requires
        all_comparable(rows, keys),
        forall|i: int| 0 <= i < left.len() ==> 0 <= #[trigger] left[i] < rows.len(),
        forall|j: int| 0 <= j < right.len() ==> 0 <= #[trigger] right[j] < rows.len(),
    ensures
        merge_defined(rows, keys, left, right),
    decreases left.len() + right.len(),
{
    if left.len() > 0 && right.len() > 0 {
        assert(0 <= left[0] < rows.len());
        assert(0 <= right[0] < rows.len());
        assert(compare_rows_spec(rows[right[0]], rows[left[0]], keys) is Some);
        if compare_rows_spec(rows[right[0]], rows[left[0]], keys) == Some(Comparison::Less) {
            let tail = right.drop_first();
            assert forall|j: int| 0 <= j < tail.len() implies 0 <= #[trigger] tail[j] < rows.len() by {
                assert(tail[j] == right[j + 1]);
            }
            lemma_comparable_merge_defined(rows, keys, left, tail);
        } else {
            let tail = left.drop_first();
            assert forall|i: int| 0 <= i < tail.len() implies 0 <= #[trigger] tail[i] < rows.len() by {
                assert(tail[i] == left[i + 1]);
            }
            lemma_comparable_merge_defined(rows, keys, tail, right);
        }
    }
}

/// Where any two rows can be compared, every comparison that the sort of a
/// range makes has an answer.
pub proof fn lemma_comparable_range_defined(
    rows: Seq<Seq<ValueView>>,
    keys: Seq<SortKey>,
    lo: int,
    hi: int,
)
    requires
        0 <= lo <= hi <= rows.len(),
        all_comparable(rows, keys),
    ensures
        range_defined(rows, keys, lo, hi),
    decreases hi - lo,
{
    if hi - lo > 1 {
        let mid = middle(lo, hi);
        lemma_comparable_range_defined(rows, keys, lo, mid);
        lemma_comparable_range_defined(rows, keys, mid, hi);
        lemma_sorted_range(rows, keys, lo, mid);
        lemma_sorted_range(rows, keys, mid, hi);
        lemma_comparable_merge_defined(
            rows,
            keys,
            sorted_range(rows, keys, lo, mid),
            sorted_range(rows, keys, mid, hi),
        );
    }
}

/// Where any two rows can be compared, the sorted order lists each
/// position once, it is sorted, and it is stable: rows that are equal under
/// every key keep the order that they came in.
pub proof fn lemma_sorted_order_stable(rows: Seq<Seq<ValueView>>, keys: Seq<SortKey>, n: nat)
    requires
        n <= rows.len(),
        all_comparable(rows, keys),
    ensures
        is_permutation(sorted_order(rows, keys, n), n),
        is_stably_sorted(rows, keys, sorted_order(rows, keys, n)),
{
    lemma_comparable_range_defined(rows, keys, 0, n as int);
    lemma_sorted_range(rows, keys, 0, n as int);
}

/// Compares two rows under the keys: for each key in turn the two values
/// are compared, the answer flipped for a descending key, and the first
/// answer that is not `Equal` decides. `None` where two values of different
/// kinds meet.
pub fn compare_rows(a: &Row, b: &Row, keys: &Vec<SortKey>) -> (r: Option<Comparison>)
    requires
        forall|k: int| 0 <= k < keys@.len() ==> (#[trigger] keys@[k]).index < a@.len(),
        forall|k: int| 0 <= k < keys@.len() ==> (#[trigger] keys@[k]).index < b@.len(),
    ensures
        r == compare_rows_spec(a@, b@, keys@),
{
    let mut k: usize = 0;
    while k < keys.len()
        invariant
            k <= keys.len(),
            forall|j: int| 0 <= j < keys@.len() ==> (#[trigger] keys@[j]).index < a@.len(),
            forall|j: int| 0 <= j < keys@.len() ==> (#[trigger] keys@[j]).index < b@.len(),
            compare_rows_spec(a@, b@, keys@) == compare_rows_from(a@, b@, keys@, k as int),
        decreases keys.len() - k,
    {
        let key = keys[k];
        assert(a@[key.index as int] == a.items@[key.index as int]@);
        assert(b@[key.index as int] == b.items@[key.index as int]@);
        match compare_values(&a.items[key.index], &b.items[key.index]) {
            None => {
                return None;
            },
            Some(Comparison::Equal) => {},
            Some(c) => {
                return Some(
                    match key.order {
                        Order::Asc => c,
                        Order::Desc => flip(c),
                    },
                );
            },
        }
        k += 1;
    }
    Some(Comparison::Equal)
}

/// Once a key has failed, more keys fail in the same way.
pub proof fn lemma_resolve_keys_error_stays(
    schema: Seq<SchemaColumnView>,
    exprs: Seq<OrderByExprView>,
    failed: nat,
    n: nat,
)
    requires
        resolve_keys_spec(schema, exprs, failed) is Err,
        failed <= n,
    ensures
        resolve_keys_spec(schema, exprs, n) == resolve_keys_spec(schema, exprs, failed),
    decreases n,
{
    if failed < n {
        lemma_resolve_keys_error_stays(schema, exprs, failed, (n - 1) as nat);
    }
}

/// Resolves the column of each key in the schema.
pub fn resolve_keys(schema: &Schema, order_by_exprs: &Vec<OrderByExpr>) -> (r: Result<
    Vec<SortKey>,
    QueryError,
>)
    ensures
        match r {
            Ok(keys) => resolve_keys_spec(schema@, order_by_view(order_by_exprs@), order_by_exprs@.len())
                == Ok::<Seq<SortKey>, QueryErrorView>(keys@) && forall|k: int|
                0 <= k < keys@.len() ==> (#[trigger] keys@[k]).index < schema@.len(),
            Err(e) => resolve_keys_spec(schema@, order_by_view(order_by_exprs@), order_by_exprs@.len())
                == Err::<Seq<SortKey>, QueryErrorView>(e@),
        },
{
    let ghost exprs = order_by_view(order_by_exprs@);
    let mut keys: Vec<SortKey> = Vec::new();
    let mut i: usize = 0;
    while i < order_by_exprs.len()
        invariant
            i <= order_by_exprs.len(),
            exprs == order_by_view(order_by_exprs@),
            keys@.len() == i,
            resolve_keys_spec(schema@, exprs, i as nat) is Ok,
            resolve_keys_spec(schema@, exprs, i as nat)->Ok_0.len() == i,
            forall|k: int|
                0 <= k < i ==> #[trigger] keys@[k] == resolve_keys_spec(schema@, exprs, i as nat)->Ok_0[k],
            forall|k: int| 0 <= k < i ==> (#[trigger] keys@[k]).index < schema@.len(),
        decreases order_by_exprs.len() - i,
    {
        assert(exprs[i as int] == order_by_exprs@[i as int]@);
        match schema.get_index_for_column(&order_by_exprs[i].column) {
            Some(index) => {
                keys.push(SortKey { index, order: order_by_exprs[i].order });
            },
            None => {
                proof {
                    lemma_resolve_keys_error_stays(
                        schema@,
                        exprs,
                        (i + 1) as nat,
                        order_by_exprs@.len(),
                    );
                }
                return Err(
                    QueryError::ColumnNotFoundInSchema {
                        column_name: order_by_exprs[i].column.clone(),
                    },
                );
            },
        }
        i += 1;
    }
    assert(keys@ =~= resolve_keys_spec(schema@, exprs, order_by_exprs@.len())->Ok_0);
    Ok(keys)
}

/// The positions that a vector holds.
pub open spec fn order_view(order: Seq<usize>) -> Seq<int> {
    Seq::new(order.len(), |k: int| order[k] as int)
}

/// Whether the keys point into every row.
pub open spec fn keys_fit(rows: Seq<Row>, keys: Seq<SortKey>) -> bool {
    forall|r: int, k: int|
        0 <= r < rows.len() && 0 <= k < keys.len() ==> (#[trigger] keys[k]).index < (
        #[trigger] rows[r])@.len()
}

fn merge_runs(rows: &Vec<Row>, keys: &Vec<SortKey>, left: &Vec<usize>, right: &Vec<usize>, cost: &mut Cost) -> (r:
    Option<Vec<usize>>)
    requires
        keys_fit(rows@, keys@),
        forall|i: int| 0 <= i < left@.len() ==> (#[trigger] left@[i]) < rows@.len(),
        forall|j: int| 0 <= j < right@.len() ==> (#[trigger] right@[j]) < rows@.len(),
    ensures
        old(cost)@ <= final(cost)@,
        match r {
            Some(merged) => {
                &&& order_view(merged@) == merge_order(
                    rows_view(rows@),
                    keys@,
                    order_view(left@),
                    order_view(right@),
                )
                &&& merge_defined(rows_view(rows@), keys@, order_view(left@), order_view(right@))
                &&& final(cost)@ == saturate(
                    old(cost)@ + merge_comparisons(
                        rows_view(rows@),
                        keys@,
                        order_view(left@),
                        order_view(right@),
                    ),
                )
            },
            None => !all_comparable(rows_view(rows@), keys@),
        },
{
    let ghost views = rows_view(rows@);
    let ghost lefts = order_view(left@);
    let ghost rights = order_view(right@);
    let ghost start_cost = cost@;
    let mut merged: Vec<usize> = Vec::new();
    let mut i: usize = 0;
    let mut j: usize = 0;
    assert(lefts.skip(0) =~= lefts);
    assert(rights.skip(0) =~= rights);
    assert(order_view(merged@) + merge_order(views, keys@, lefts, rights) =~= merge_order(
        views,
        keys@,
        lefts,
        rights,
    ));
    while i < left.len() || j < right.len()
        invariant
            i <= left.len(),
            j <= right.len(),
            views == rows_view(rows@),
            lefts == order_view(left@),
            rights == order_view(right@),
            keys_fit(rows@, keys@),
            forall|k: int| 0 <= k < left@.len() ==> (#[trigger] left@[k]) < rows@.len(),
            forall|k: int| 0 <= k < right@.len() ==> (#[trigger] right@[k]) < rows@.len(),
            0 <= start_cost <= u64::MAX,
            start_cost == old(cost)@,
            order_view(merged@) + merge_order(
                views,
                keys@,
                lefts.skip(i as int),
                rights.skip(j as int),
            ) == merge_order(views, keys@, lefts, rights),
            merge_defined(views, keys@, lefts, rights) == merge_defined(
                views,
                keys@,
                lefts.skip(i as int),
                rights.skip(j as int),
            ),
            merge_comparisons(views, keys@, lefts, rights) >= merge_comparisons(
                views,
                keys@,
                lefts.skip(i as int),
                rights.skip(j as int),
            ),
            cost@ == saturate(
                start_cost + merge_comparisons(views, keys@, lefts, rights) - merge_comparisons(
                    views,
                    keys@,
                    lefts.skip(i as int),
                    rights.skip(j as int),
                ),
            ),
        decreases (left.len() - i) + (right.len() - j),
    {
        let ghost ls = lefts.skip(i as int);
        let ghost rs = rights.skip(j as int);
        let ghost before = order_view(merged@);
        let take_right = if i == left.len() {
            true
        } else if j == right.len() {
            false
        } else {
            let x = left[i];
            let y = right[j];
            assert(ls[0] == x && rs[0] == y);
            assert(views[x as int] == rows@[x as int]@);
            assert(views[y as int] == rows@[y as int]@);
            assert(forall|k: int| 0 <= k < keys@.len() ==> (#[trigger] keys@[k]).index < rows@[x as int]@.len());
            assert(forall|k: int| 0 <= k < keys@.len() ==> (#[trigger] keys@[k]).index < rows@[y as int]@.len());
            cost.increment_rows_processed();
            match compare_rows(&rows[y], &rows[x], keys) {
                None => {
                    assert(compare_rows_spec(views[y as int], views[x as int], keys@) is None);
                    return None;
                },
                Some(Comparison::Less) => true,
                Some(_) => false,
            }
        };
        if take_right {
            let y = right[j];
            assert(rs[0] == y);
            assert(rs.drop_first() =~= rights.skip(j + 1));
            merged.push(y);
            assert(order_view(merged@) =~= before.push(y as int));
            proof {
                let next = merge_order(views, keys@, ls, rights.skip(j + 1));
                if ls.len() == 0 {
                    assert(merge_order(views, keys@, ls, rs) == rs);
                    assert(next == rights.skip(j + 1));
                    assert(rs =~= seq![y as int] + rights.skip(j + 1));
                }
                assert(before + merge_order(views, keys@, ls, rs) =~= before.push(y as int) + next);
            }
            j += 1;
        } else {
            let x = left[i];
            assert(ls[0] == x);
            assert(ls.drop_first() =~= lefts.skip(i + 1));
            merged.push(x);
            assert(order_view(merged@) =~= before.push(x as int));
            proof {
                let next = merge_order(views, keys@, lefts.skip(i + 1), rs);
                if rs.len() == 0 {
                    assert(merge_order(views, keys@, ls, rs) == ls);
                    assert(next == lefts.skip(i + 1));
                    assert(ls =~= seq![x as int] + lefts.skip(i + 1));
                }
                assert(before + merge_order(views, keys@, ls, rs) =~= before.push(x as int) + next);
            }
            i += 1;
        }
    }
    proof {
        assert(lefts.skip(left@.len() as int) =~= Seq::<int>::empty());
        assert(rights.skip(right@.len() as int) =~= Seq::<int>::empty());
        assert(order_view(merged@) =~= merge_order(views, keys@, lefts, rights));
    }
    Some(merged)
}

fn sort_range(rows: &Vec<Row>, keys: &Vec<SortKey>, lo: usize, hi: usize, cost: &mut Cost) -> (r: Option<
    Vec<usize>,
>)
    requires
        lo <= hi <= rows@.len(),
        keys_fit(rows@, keys@),
    ensures
        old(cost)@ <= final(cost)@,
        match r {
            Some(sorted) => {
                &&& order_view(sorted@) == sorted_range(rows_view(rows@), keys@, lo as int, hi as int)
                &&& range_defined(rows_view(rows@), keys@, lo as int, hi as int)
                &&& final(cost)@ == saturate(
                    old(cost)@ + range_comparisons(rows_view(rows@), keys@, lo as int, hi as int),
                )
            },
            None => !all_comparable(rows_view(rows@), keys@),
        },
    decreases hi - lo,
{
    let ghost views = rows_view(rows@);
    let mut sorted: Vec<usize> = Vec::new();
    if hi - lo == 0 {
        assert(order_view(sorted@) =~= sorted_range(views, keys@, lo as int, hi as int));
        Some(sorted)
    } else if hi - lo == 1 {
        sorted.push(lo);
        assert(order_view(sorted@) =~= sorted_range(views, keys@, lo as int, hi as int));
        Some(sorted)
    } else {
        let mid = lo + (hi - lo) / 2;
        assert(mid == middle(lo as int, hi as int));
        let ghost start_cost = cost@;
        let left = match sort_range(rows, keys, lo, mid, cost) {
            Some(left) => left,
            None => {
                return None;
            },
        };
        let right = match sort_range(rows, keys, mid, hi, cost) {
            Some(right) => right,
            None => {
                return None;
            },
        };
        proof {
            lemma_sorted_range(views, keys@, lo as int, mid as int);
            lemma_sorted_range(views, keys@, mid as int, hi as int);
            assert forall|i: int| 0 <= i < left@.len() implies (#[trigger] left@[i]) < rows@.len() by {
                assert(order_view(left@)[i] == left@[i]);
            }
            assert forall|j: int| 0 <= j < right@.len() implies (#[trigger] right@[j])
                < rows@.len() by {
                assert(order_view(right@)[j] == right@[j]);
            }
        }
        merge_runs(rows, keys, &left, &right, cost)
    }
}

/// Sorts `rows` by the keys, with a stable merge sort, and counts one for
/// each comparison of two rows.
///
/// The columns of the keys are resolved first; a column that the schema
/// lacks is an error. Two rows are compared key by key. Where two values of
/// different kinds meet, the sort fails. The result holds the rows in
/// rising order, and rows that are equal under every key in the order in
/// which they came.
pub fn order_by(rows: Vec<Row>, schema: &Schema, order_by_exprs: &Vec<OrderByExpr>, cost: &mut Cost) -> (r:
    Result<Vec<Row>, QueryError>)
    requires
        forall|k: int| 0 <= k < rows@.len() ==> (#[trigger] rows@[k])@.len() == schema@.len(),
    ensures
        match r {
            Ok(sorted) => {
                let keys = resolve_keys_spec(
                    schema@,
                    order_by_view(order_by_exprs@),
                    order_by_exprs@.len(),
                );
                &&& keys is Ok
                &&& all_comparable(rows_view(rows@), keys->Ok_0)
                &&& rows_view(sorted@) == sorted_rows(rows_view(rows@), keys->Ok_0)
                &&& is_permutation(
                    sorted_order(rows_view(rows@), keys->Ok_0, rows@.len()),
                    rows@.len(),
                )
                &&& is_stably_sorted(
                    rows_view(rows@),
                    keys->Ok_0,
                    sorted_order(rows_view(rows@), keys->Ok_0, rows@.len()),
                )
                &&& final(cost)@ == saturate(
                    old(cost)@ + sort_comparisons(rows_view(rows@), keys->Ok_0, rows@.len()),
                )
            },
            Err(e) => match resolve_keys_spec(
                schema@,
                order_by_view(order_by_exprs@),
                order_by_exprs@.len(),
            ) {
                Err(missing) => {
                    &&& e@ == missing
                    &&& final(cost)@ == old(cost)@
                },
                Ok(keys) => {
                    &&& !all_comparable(rows_view(rows@), keys)
                    &&& e@ == not_comparable()
                    &&& old(cost)@ <= final(cost)@
                },
            },
        },
{
    let keys = match resolve_keys(schema, order_by_exprs) {
        Ok(keys) => keys,
        Err(e) => {
            return Err(e);
        },
    };
    let ghost views = rows_view(rows@);
    let order = match sort_range(&rows, &keys, 0, rows.len(), cost) {
        Some(order) => order,
        None => {
            return Err(QueryError::TypeMismatch { expected: "values of one kind".to_owned() });
        },
    };
    proof {
        lemma_sorted_range(views, keys@, 0, rows@.len() as int);
        assert(all_comparable(views, keys@));
    }
    let mut sorted: Vec<Row> = Vec::new();
    let mut k: usize = 0;
    while k < order.len()
        invariant
            k <= order.len(),
            order@.len() == rows@.len(),
            views == rows_view(rows@),
            order_view(order@) == sorted_order(views, keys@, rows@.len()),
            is_permutation(sorted_order(views, keys@, rows@.len()), rows@.len()),
            sorted@.len() == k,
            forall|j: int|
                0 <= j < k ==> (#[trigger] sorted@[j])@ == views[order_view(order@)[j]],
        decreases order.len() - k,
    {
        let position = order[k];
        assert(order_view(order@)[k as int] == position);
        assert(views[position as int] == rows@[position as int]@);
        sorted.push(rows[position].clone());
        k += 1;
    }
    assert(rows_view(sorted@) =~= sorted_rows(views, keys@)) by {
        assert forall|j: int| 0 <= j < rows@.len() implies rows_view(sorted@)[j] == sorted_rows(
            views,
            keys@,
        )[j] by {
            assert(order_view(order@)[j] == order@[j] as int);
        }
    }
    Ok(sorted)
}

} // verus!
