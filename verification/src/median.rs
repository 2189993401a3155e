use vstd::prelude::*;
use crate::binary64::Binary64;
use crate::matrix::Matrix;

verus! {

/// Whether entry `i` of a row comes before entry `j` once the row is sorted
/// in ascending order, entries of equal value keeping their places.
pub open spec fn precedes(row: Seq<Binary64>, i: int, j: int) -> bool {
    row[i].key() < row[j].key() || (row[i].key() == row[j].key() && i < j)
}

/// The entries of a row that come before entry `j` once the row is sorted.
pub open spec fn predecessors(row: Seq<Binary64>, j: int) -> Set<int> {
    Set::new(|i: int| 0 <= i < row.len() && precedes(row, i, j))
}

/// The place of entry `j` in the sorted row, counted from zero.
pub open spec fn rank(row: Seq<Binary64>, j: int) -> nat {
    predecessors(row, j).len()
}

/// Whether a row holds a NaN.
pub open spec fn has_nan(row: Seq<Binary64>) -> bool {
    exists|i: int| 0 <= i < row.len() && row[i].nan()
}

/// Whether a row has a median: it is not empty and holds no NaN.
pub open spec fn has_median(row: Seq<Binary64>) -> bool {
    row.len() > 0 && !has_nan(row)
}

/// Whether the entries `lower` and `upper` are those that the median of a
/// row is made of: the entries of rank `(n - 1) / 2` and `n / 2`, where `n`
/// is the length of the row.
pub open spec fn central(row: Seq<Binary64>, lower: int, upper: int) -> bool {
    &&& 0 <= lower < row.len()
    &&& 0 <= upper < row.len()
    &&& rank(row, lower) == (row.len() - 1) / 2
    &&& rank(row, upper) == row.len() / 2
}

/// Whether `order` lists the entries `0 .. order.len()` of `row` in sorted order.
pub open spec fn sorts(order: Seq<usize>, row: Seq<Binary64>) -> bool {
    &&& order.len() <= row.len()
    &&& forall|a: int| 0 <= a < order.len() ==> 0 <= #[trigger] order[a] < order.len()
    &&& forall|a: int, b: int|
        0 <= a < b < order.len() ==> precedes(row, #[trigger] order[a] as int, #[trigger] order[b] as int)
    &&& forall|k: int| 0 <= k < order.len() ==> #[trigger] lists(order, k)
}

/// Whether `order` lists entry `k`.
pub open spec fn lists(order: Seq<usize>, k: int) -> bool {
    exists|a: int| 0 <= a < order.len() && #[trigger] order[a] == k
}

/// In a row sorted as a whole, the entry listed at place `r` has rank `r`.
pub proof fn lemma_place_is_rank(order: Seq<usize>, row: Seq<Binary64>, r: int)
    requires
        sorts(order, row),
        order.len() == row.len(),
        0 <= r < order.len(),
    ensures
        rank(row, order[r] as int) == r,
{
    let listed = order.map_values(|position: usize| position as int);
    let before = listed.subrange(0, r);
    assert forall|a: int, b: int|
        0 <= a < before.len() && 0 <= b < before.len() && a != b implies before[a] != before[b] by {
        if a < b {
            assert(precedes(row, order[a] as int, order[b] as int));
        } else {
            assert(precedes(row, order[b] as int, order[a] as int));
        }
    }
    before.unique_seq_to_set();
    assert(predecessors(row, order[r] as int) =~= before.to_set()) by {
        assert forall|x: int| predecessors(row, order[r] as int).contains(x) implies before.to_set().contains(
            x,
        ) by {
            assert(lists(order, x));
            let a = choose|a: int| 0 <= a < order.len() && order[a] == x;
            if a > r {
                assert(precedes(row, order[r] as int, order[a] as int));
            }
            assert(before[a] == x);
        }
        assert forall|x: int| before.to_set().contains(x) implies predecessors(
            row,
            order[r] as int,
        ).contains(x) by {
            let a = choose|a: int| 0 <= a < before.len() && before[a] == x;
            assert(precedes(row, order[a] as int, order[r] as int));
        }
    }
}

/// Two entries of the same rank are the same entry: a rank names one place.
pub proof fn lemma_rank_names_one_entry(row: Seq<Binary64>, i: int, j: int)
    requires
        0 <= i < row.len(),
        0 <= j < row.len(),
        rank(row, i) == rank(row, j),
    ensures
        i == j,
{
    if i != j {
        let (low, high) = if precedes(row, i, j) {
            (i, j)
        } else {
            (j, i)
        };
        // the predecessors of the earlier entry, and that entry itself, are
        // predecessors of the later one
        let all = Set::new(|k: int| 0 <= k < row.len());
        assert(all =~= vstd::set_lib::set_int_range(0, row.len() as int));
        vstd::set_lib::lemma_int_range(0, row.len() as int);
        let smaller = predecessors(row, low);
        let larger = predecessors(row, high);
        vstd::set_lib::lemma_len_subset(larger, all);
        assert(smaller.insert(low).subset_of(larger));
        vstd::set_lib::lemma_len_subset(smaller.insert(low), larger);
        vstd::set_lib::lemma_len_subset(smaller, larger);
    }
}

/// A row has one median only: whatever is central in it is the same pair of
/// entries, so that equal rows always give equal medians.
pub proof fn lemma_median_is_determined(
    row: Seq<Binary64>,
    lower: int,
    upper: int,
    other_lower: int,
    other_upper: int,
)
    requires
        central(row, lower, upper),
        central(row, other_lower, other_upper),
    ensures
        lower == other_lower,
        upper == other_upper,
{
    lemma_rank_names_one_entry(row, lower, other_lower);
    lemma_rank_names_one_entry(row, upper, other_upper);
}

/// Finds the entries of a row that its median is made of: `lower` is the
/// entry of rank `(n - 1) / 2` and `upper` the entry of rank `n / 2`, where
/// `n` is the length of the row. For an odd length both are the middle entry,
/// whose value is the median; for an even length they are the two central
/// entries, whose mean is the median. An empty row and a row with a NaN have
/// no median.
pub fn median_positions(row: &Vec<Binary64>) -> (found: Option<(usize, usize)>)
    ensures
        found is Some <==> has_median(row@),
        match found {
            Some((lower, upper)) => central(row@, lower as int, upper as int),
            None => true,
        },
{
    let n: usize = row.len();
    if n == 0 {
        return None;
    }
    let mut order: Vec<usize> = Vec::with_capacity(n);
    let mut next: usize = 0;
    while next < n
        invariant
            next <= n,
            n == row@.len(),
            order@.len() == next,
            sorts(order@, row@),
            forall|k: int| 0 <= k < next ==> !row@[k].nan(),
        decreases n - next,
    {
        if row[next].is_nan() {
            return None;
        }
        let key: i64 = row[next].order_key();
        let mut place: usize = next;
        while place > 0 && row[order[place - 1]].order_key() > key
            invariant
                place <= next,
                next < n,
                n == row@.len(),
                order@.len() == next,
                sorts(order@, row@),
                key == row@[next as int].key(),
                forall|a: int| place <= a < next ==> row@[order@[a] as int].key() > key,
            decreases place,
        {
            place -= 1;
        }
        let ghost before = order@;
        order.insert(place, next);
        proof {
            let after = order@;
            // what stands before the new entry is no greater, by the order
            // of the entries listed so far
            assert forall|a: int| 0 <= a < place implies row@[before[a] as int].key() <= key by {
                if a < place - 1 {
                    assert(precedes(row@, before[a] as int, before[place - 1] as int));
                }
            }
            // the entries behind the new one have moved up by one place
            assert forall|a: int| 0 <= a < after.len() implies 0 <= #[trigger] after[a]
                < after.len() by {
                if a > place {
                    assert(after[a] == before[a - 1]);
                }
            }
            assert forall|a: int, b: int| 0 <= a < b < after.len() implies precedes(
                row@,
                #[trigger] after[a] as int,
                #[trigger] after[b] as int,
            ) by {
                if a > place {
                    assert(after[a] == before[a - 1] && after[b] == before[b - 1]);
                } else if b > place {
                    assert(after[b] == before[b - 1]);
                }
            }
            assert forall|k: int| 0 <= k < after.len() implies #[trigger] lists(after, k) by {
                if k == next {
                    assert(after[place as int] == k);
                } else {
                    assert(lists(before, k));
                    let a = choose|a: int| 0 <= a < before.len() && before[a] == k;
                    if a < place {
                        assert(after[a] == k);
                    } else {
                        assert(after[a + 1] == k);
                    }
                }
            }
        }
        next += 1;
    }
    let lower: usize = order[(n - 1) / 2];
    let upper: usize = order[n / 2];
    proof {
        lemma_place_is_rank(order@, row@, (n - 1) as int / 2);
        lemma_place_is_rank(order@, row@, n as int / 2);
    }
    Some((lower, upper))
}

/// Finds the median of every row of a matrix that holds one prediction per
/// sample and round: for each row, the two columns that [`median_positions`]
/// finds in it. There is a result exactly when every row has a median.
pub fn row_medians(predictions: &Matrix) -> (found: Option<Vec<(usize, usize)>>)
    ensures
        found is Some <==> forall|r: int|
            0 <= r < predictions@.rows ==> has_median(#[trigger] predictions@.row(r)),
        match found {
            Some(medians) => {
                &&& medians@.len() == predictions@.rows
                &&& forall|r: int|
                    0 <= r < medians@.len() ==> central(
                        predictions@.row(r),
                        (#[trigger] medians@[r]).0 as int,
                        medians@[r].1 as int,
                    )
            },
            None => true,
        },
{
    let rows: usize = predictions.rows();
    let mut medians: Vec<(usize, usize)> = Vec::with_capacity(rows);
    let mut r: usize = 0;
    while r < rows
        invariant
            r <= rows,
            rows == predictions@.rows,
            medians@.len() == r,
            forall|i: int| 0 <= i < r ==> has_median(#[trigger] predictions@.row(i)),
            forall|i: int|
                0 <= i < r ==> central(
                    predictions@.row(i),
                    (#[trigger] medians@[i]).0 as int,
                    medians@[i].1 as int,
                ),
        decreases rows - r,
    {
        let entries = match predictions.row(r) {
            Some(entries) => entries,
            None => vstd::pervasive::unreached(),
        };
        match median_positions(&entries) {
            Some(pair) => {
                medians.push(pair);
            },
            None => {
                return None;
            },
        }
        r += 1;
    }
    Some(medians)
}

} // verus!
