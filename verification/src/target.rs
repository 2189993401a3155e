use vstd::prelude::*;
use crate::binary64::Binary64;

verus! {

/// The encoding of `1e-10`, the least weighted error that a round is credited with.
pub const ERROR_FLOOR_BITS: u64 = 0x3DDB_7CDF_D9D7_BDBB;

/// The encoding of `1 - 1e-10`, the greatest weighted error that a round is
/// credited with.
pub const ERROR_CEILING_BITS: u64 = 0x3FEF_FFFF_FFF2_4190;

/// The least weighted error that a round is credited with.
pub open spec fn error_floor() -> Binary64 {
    Binary64 { bits: ERROR_FLOOR_BITS }
}

/// The greatest weighted error that a round is credited with.
pub open spec fn error_ceiling() -> Binary64 {
    Binary64 { bits: ERROR_CEILING_BITS }
}

/// Whether no two samples of a target differ, NaN samples set aside. The
/// range of such a target is zero or undefined, and no loss can be scaled
/// by it.
pub open spec fn constant_target(target: Seq<Binary64>) -> bool {
    forall|i: int, j: int|
        0 <= i < target.len() && 0 <= j < target.len() && !target[i].nan() && !target[j].nan()
            ==> target[i].key() == target[j].key()
}

/// A weighted error brought into `[1e-10, 1 - 1e-10]`. An error that is no
/// number, as after a round without any loss, counts as the least.
pub open spec fn clamped_error(error: Binary64) -> Binary64 {
    if error.nan() || error.less(error_floor()) {
        error_floor()
    } else if error_ceiling().less(error) {
        error_ceiling()
    } else {
        error
    }
}

/// Whether entry `at` is the first among the greatest numbers of `values`.
pub open spec fn first_greatest(values: Seq<Binary64>, at: int) -> bool {
    &&& 0 <= at < values.len()
    &&& !values[at].nan()
    &&& forall|i: int|
        0 <= i < values.len() && !values[i].nan() ==> values[i].key() <= values[at].key()
    &&& forall|i: int| 0 <= i < at && !values[i].nan() ==> values[i].key() < values[at].key()
}

/// Whether entry `at` is the first among the least numbers of `values`.
pub open spec fn first_least(values: Seq<Binary64>, at: int) -> bool {
    &&& 0 <= at < values.len()
    &&& !values[at].nan()
    &&& forall|i: int|
        0 <= i < values.len() && !values[i].nan() ==> values[at].key() <= values[i].key()
    &&& forall|i: int| 0 <= i < at && !values[i].nan() ==> values[at].key() < values[i].key()
}

/// Whether `values` holds no number at all.
pub open spec fn without_numbers(values: Seq<Binary64>) -> bool {
    forall|i: int| 0 <= i < values.len() ==> values[i].nan()
}

/// Whether no entry of `values` is greater than zero.
pub open spec fn without_loss(values: Seq<Binary64>) -> bool {
    forall|i: int| 0 <= i < values.len() ==> !Binary64::zero_spec().less(values[i])
}

/// The first among the greatest numbers is one entry only, and so is the
/// first among the least: equal values always give equal extremes.
pub proof fn lemma_extremes_are_determined(values: Seq<Binary64>, at: int, other: int)
    ensures
        first_greatest(values, at) && first_greatest(values, other) ==> at == other,
        first_least(values, at) && first_least(values, other) ==> at == other,
{
}

/// A target is constant exactly when its least and its greatest number are
/// the same number, so that its range is zero.
pub proof fn lemma_constant_iff_extremes_meet(target: Seq<Binary64>, low: int, high: int)
    requires
        first_least(target, low),
        first_greatest(target, high),
    ensures
        constant_target(target) <==> target[low].key() == target[high].key(),
{
}

/// Finds the greatest number of `values`, NaN entries set aside: the first
/// entry that no number exceeds. There is none exactly when `values` holds
/// no number.
pub fn greatest(values: &Vec<Binary64>) -> (found: Option<usize>)
    ensures
        match found {
            Some(at) => first_greatest(values@, at as int),
            None => without_numbers(values@),
        },
{
    let mut best: Option<usize> = None;
    let mut k: usize = 0;
    while k < values.len()
        invariant
            k <= values@.len(),
            match best {
                Some(at) => first_greatest(values@.take(k as int), at as int),
                None => without_numbers(values@.take(k as int)),
            },
        decreases values@.len() - k,
    {
        let sample = values[k];
        if !sample.is_nan() {
            match best {
                None => {
                    best = Some(k);
                },
                Some(at) => {
                    if values[at].order_key() < sample.order_key() {
                        best = Some(k);
                    }
                },
            }
        }
        k += 1;
    }
    assert(values@.take(k as int) == values@);
    best
}

/// Finds the least number of `values`, NaN entries set aside: the first entry
/// that no number falls below. There is none exactly when `values` holds no
/// number.
pub fn least(values: &Vec<Binary64>) -> (found: Option<usize>)
    ensures
        match found {
            Some(at) => first_least(values@, at as int),
            None => without_numbers(values@),
        },
{
    let mut best: Option<usize> = None;
    let mut k: usize = 0;
    while k < values.len()
        invariant
            k <= values@.len(),
            match best {
                Some(at) => first_least(values@.take(k as int), at as int),
                None => without_numbers(values@.take(k as int)),
            },
        decreases values@.len() - k,
    {
        let sample = values[k];
        if !sample.is_nan() {
            match best {
                None => {
                    best = Some(k);
                },
                Some(at) => {
                    if sample.order_key() < values[at].order_key() {
                        best = Some(k);
                    }
                },
            }
        }
        k += 1;
    }
    assert(values@.take(k as int) == values@);
    best
}

/// Finds the loss that the losses of a round are scaled by: the greatest of
/// them, if it is greater than zero. Where no loss is, the round has no loss
/// at all and its greatest loss counts as zero.
pub fn largest_loss(losses: &Vec<Binary64>) -> (found: Option<usize>)
    ensures
        match found {
            Some(at) => first_greatest(losses@, at as int) && Binary64::zero_spec().less(
                losses@[at as int],
            ),
            None => without_loss(losses@),
        },
{
    match greatest(losses) {
        Some(at) => {
            if Binary64::zero().lt(&losses[at]) {
                Some(at)
            } else {
                None
            }
        },
        None => None,
    }
}

/// Decides whether a target is constant.
pub fn is_constant(target: &Vec<Binary64>) -> (constant: bool)
    ensures
        constant == constant_target(target@),
{
    let mut seen: Option<i64> = None;
    let mut k: usize = 0;
    while k < target.len()
        invariant
            k <= target@.len(),
            match seen {
                None => forall|i: int| 0 <= i < k ==> target@[i].nan(),
                Some(key) => {
                    &&& exists|w: int| 0 <= w < k && !target@[w].nan() && target@[w].key() == key
                    &&& forall|i: int| 0 <= i < k && !target@[i].nan() ==> target@[i].key() == key
                },
            },
        decreases target@.len() - k,
    {
        let sample = target[k];
        if !sample.is_nan() {
            let key: i64 = sample.order_key();
            match seen {
                None => {
                    seen = Some(key);
                },
                Some(first) => {
                    if key != first {
                        return false;
                    }
                },
            }
        }
        k += 1;
    }
    true
}

/// Brings a weighted error into `[1e-10, 1 - 1e-10]`.
pub fn clamp_error(error: Binary64) -> (clamped: Binary64)
    ensures
        clamped == clamped_error(error),
{
    let floor = Binary64 { bits: ERROR_FLOOR_BITS };
    let ceiling = Binary64 { bits: ERROR_CEILING_BITS };
    if error.is_nan() || error.lt(&floor) {
        floor
    } else if ceiling.lt(&error) {
        ceiling
    } else {
        error
    }
}

} // verus!
