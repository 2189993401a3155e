use vstd::prelude::*;
use vstd::arithmetic::power2::{
    lemma2_to64_rest,
    lemma_pow2_pos,
    lemma_pow2_unfold,
    pow2,
};
use rand::RngCore;
use rand::SeedableRng;
use rand_chacha::ChaCha20Rng;
use crate::binary64::{lemma_key_orders_numbers, Binary64, FRACTION_SPAN, ONE_BITS};
use crate::matrix::{Matrix, MatrixView};

verus! {

#[verifier::external_type_specification]
#[verifier::external_body]
pub struct ExChaCha20Rng(ChaCha20Rng);

/// The 32-bit word that a generator returns `ahead` words from now.
pub uninterp spec fn upcoming(rng: ChaCha20Rng, ahead: nat) -> u32;

/// The 32-bit word at place `at` of the stream that
/// `SeedableRng::seed_from_u64` makes of a 64-bit seed.
pub uninterp spec fn seeded_word(seed: u64, at: nat) -> u32;

/// The 64-bit value that a generator returns `ahead` words from now: two
/// words of its stream, the earlier one in the lower half.
pub open spec fn word_ahead(rng: ChaCha20Rng, ahead: nat) -> u64 {
    (upcoming(rng, ahead) + upcoming(rng, ahead + 1) * 0x1_0000_0000) as u64
}

/// The 64-bit value at place `at` of the stream of a seed, made of two words
/// as [`word_ahead`] is.
pub open spec fn seeded_value(seed: u64, at: nat) -> u64 {
    (seeded_word(seed, at) + seeded_word(seed, at + 1) * 0x1_0000_0000) as u64
}

/// Whether `later` is the generator `earlier` after `words` words were drawn.
pub open spec fn advanced(earlier: ChaCha20Rng, later: ChaCha20Rng, words: nat) -> bool {
    forall|ahead: nat| #[trigger] upcoming(later, ahead) == upcoming(earlier, ahead + words)
}

/// The deterministic source of every random draw: a ChaCha20 generator made
/// from a 64-bit seed.
///
/// Calls `ChaCha20Rng::seed_from_u64`. Trusted of it: the words that the
/// generator returns depend on the seed alone, so that equal seeds give equal
/// streams in every process.
#[verifier::external_body]
pub fn create_rng(seed: u64) -> (rng: ChaCha20Rng)
    ensures
        forall|at: nat| #[trigger] upcoming(rng, at) == seeded_word(seed, at),
{
    ChaCha20Rng::seed_from_u64(seed)
}

/// Draws 64 bits.
///
/// Calls `RngCore::next_u64` of `ChaCha20Rng`. Trusted of it: the value is
/// made of the next two 32-bit words of the stream, the earlier one in the
/// lower half, and the generator is two words further on afterwards.
#[verifier::external_body]
fn next_word(rng: &mut ChaCha20Rng) -> (word: u64)
    ensures
        word == word_ahead(*old(rng), 0),
        advanced(*old(rng), *final(rng), 2),
{
    rng.next_u64()
}

/// The number `k / 2^53`, where `k` is made of the upper 53 bits of `word`,
/// in units of two to the power -1074: the uniform draw on the unit interval
/// that 64 random bits stand for.
pub open spec fn unit_number(word: u64) -> int {
    (word / 0x800) * pow2(1021)
}

/// Whether `unit` is the encoding of the uniform draw that `word` stands for.
pub open spec fn is_unit_of(unit: Binary64, word: u64) -> bool {
    !unit.negative() && !unit.nan() && unit.number() == unit_number(word)
}

/// The uniform draw that `word` stands for.
pub open spec fn unit_of(word: u64) -> Binary64 {
    choose|unit: Binary64| is_unit_of(unit, word)
}

/// Only one encoding is the uniform draw of a word.
pub proof fn lemma_unit_is_determined(unit: Binary64, other: Binary64, word: u64)
    requires
        is_unit_of(unit, word),
        is_unit_of(other, word),
    ensures
        unit == other,
{
    lemma_key_orders_numbers(unit, other);
}

/// A uniform draw is at least zero and less than one.
pub proof fn lemma_unit_in_unit_interval(unit: Binary64, word: u64)
    requires
        is_unit_of(unit, word),
    ensures
        Binary64::zero_spec().less_eq(unit),
        unit.less(Binary64 { bits: ONE_BITS }),
{
    let zero = Binary64 { bits: 0 };
    let one = Binary64 { bits: ONE_BITS };
    lemma_key_orders_numbers(zero, unit);
    lemma_key_orders_numbers(unit, one);
    assert(one.exponent() == 1023 && one.fraction() == 0) by {
        vstd::arithmetic::div_mod::lemma_fundamental_div_mod_converse(
            ONE_BITS as int,
            FRACTION_SPAN as int,
            1023,
            0,
        );
    }
    lemma_pow2_unfold(1022);
    lemma_pow2_pos(1021);
    let p = pow2(1021);
    let k = (word / 0x800) as int;
    assert(0 <= k * p < FRACTION_SPAN * (2 * p)) by (nonlinear_arith)
        requires
            0 <= k < 0x20_0000_0000_0000,
            FRACTION_SPAN == 0x10_0000_0000_0000,
            0 < p,
    ;
}

/// Turns 64 random bits into a uniform draw on the unit interval, one
/// excluded: the upper 53 bits, divided by two to the power 53.
pub fn unit_from_word(word: u64) -> (unit: Binary64)
    ensures
        is_unit_of(unit, word),
        unit == unit_of(word),
{
    let k: u64 = word / 0x800;
    if k == 0 {
        let zero = Binary64 { bits: 0 };
        proof {
            assert(zero.number() == 0);
            assert(unit_number(word) == 0) by (nonlinear_arith)
                requires
                    unit_number(word) == (word / 0x800) * pow2(1021),
                    word / 0x800 == 0,
            ;
            assert(is_unit_of(zero, word));
            lemma_unit_is_determined(zero, unit_of(word), word);
        }
        return zero;
    }
    let mut mantissa: u64 = k;
    let mut exponent: u64 = 1022;
    proof {
        lemma2_to64_rest();
        assert(pow2(0) == 1) by {
            vstd::arithmetic::power2::lemma2_to64();
        }
    }
    while mantissa < FRACTION_SPAN
        invariant
            0 < mantissa < 2 * FRACTION_SPAN,
            exponent <= 1022,
            pow2((1022 - exponent) as nat) <= mantissa,
            mantissa * pow2((exponent - 1) as nat) == k * pow2(1021),
            pow2(52) == FRACTION_SPAN,
            exponent >= 970,
        decreases exponent,
    {
        proof {
            // doubling the mantissa and lowering the exponent by one leaves
            // the number as it is
            lemma_pow2_unfold((exponent - 1) as nat);
            lemma_pow2_unfold((1022 - exponent + 1) as nat);
            let p = pow2((exponent - 2) as nat);
            assert((mantissa * 2) * p == mantissa * (2 * p)) by (nonlinear_arith);
        }
        mantissa = mantissa * 2;
        exponent = exponent - 1;
    }
    let unit = Binary64 { bits: exponent * FRACTION_SPAN + (mantissa - FRACTION_SPAN) };
    proof {
        assert(exponent * FRACTION_SPAN + (mantissa - FRACTION_SPAN) < 1023 * FRACTION_SPAN)
            by (nonlinear_arith)
            requires
                exponent <= 1022,
                mantissa - FRACTION_SPAN < FRACTION_SPAN,
        ;
        assert(unit.magnitude() == unit.bits);
        vstd::arithmetic::div_mod::lemma_fundamental_div_mod_converse(
            unit.bits as int,
            FRACTION_SPAN as int,
            exponent as int,
            (mantissa - FRACTION_SPAN) as int,
        );
        assert(unit.exponent() == exponent && unit.fraction() == mantissa - FRACTION_SPAN);
        assert(is_unit_of(unit, word));
        lemma_unit_is_determined(unit, unit_of(word), word);
    }
    unit
}

/// Draws a number uniformly from the unit interval, one excluded.
pub fn draw_unit(rng: &mut ChaCha20Rng) -> (unit: Binary64)
    ensures
        unit == unit_of(word_ahead(*old(rng), 0)),
        advanced(*old(rng), *final(rng), 2),
{
    let word = next_word(rng);
    unit_from_word(word)
}

/// The next `count` uniform draws of a generator: draw `k` is made of the
/// words `2 k` and `2 k + 1` ahead.
pub open spec fn units_ahead(rng: ChaCha20Rng, count: nat) -> Seq<Binary64> {
    Seq::new(count, |k: int| unit_of(word_ahead(rng, (2 * k) as nat)))
}

/// The first `count` uniform draws of the stream of a seed.
pub open spec fn seeded_units(seed: u64, count: nat) -> Seq<Binary64> {
    Seq::new(count, |k: int| unit_of(seeded_value(seed, (2 * k) as nat)))
}

/// Draws `count` numbers uniformly from the unit interval, one after the
/// other: draw `k` is made of the words `2 k` and `2 k + 1` ahead, and the
/// generator is `2 count` words further on afterwards.
pub fn draw_units(rng: &mut ChaCha20Rng, count: usize) -> (draws: Vec<Binary64>)
    ensures
        draws@ == units_ahead(*old(rng), count as nat),
        advanced(*old(rng), *final(rng), (2 * count) as nat),
{
    let mut draws: Vec<Binary64> = Vec::with_capacity(count);
    let mut drawn: usize = 0;
    while drawn < count
        invariant
            drawn <= count,
            draws@ == units_ahead(*old(rng), drawn as nat),
            advanced(*old(rng), *rng, (2 * drawn) as nat),
        decreases count - drawn,
    {
        let unit = draw_unit(rng);
        draws.push(unit);
        drawn += 1;
    }
    draws
}

/// Draws projection weights from the uniform distribution, row by row, from
/// the beginning of the stream of a seed. There are such weights exactly when
/// the matrix has no more entries than a machine can count.
pub fn seeded_uniform_weights(seed: u64, rows: usize, cols: usize) -> (weights: Option<Matrix>)
    ensures
        weights is Some <==> rows * cols <= usize::MAX,
        weights is Some ==> weights->Some_0@ == (MatrixView {
            rows: rows as nat,
            cols: cols as nat,
            data: seeded_units(seed, (rows * cols) as nat),
        }),
{
    match rows.checked_mul(cols) {
        Some(count) => {
            let draws = draw_seeded_units(seed, count);
            match Matrix::from_parts(rows, cols, draws) {
                Some(drawn) => Some(drawn),
                None => vstd::pervasive::unreached(),
            }
        },
        None => None,
    }
}

/// Draws the first `count` uniform numbers of the stream of a seed.
pub fn draw_seeded_units(seed: u64, count: usize) -> (draws: Vec<Binary64>)
    ensures
        draws@ == seeded_units(seed, count as nat),
{
    let mut rng = create_rng(seed);
    let ghost fresh = rng;
    let draws = draw_units(&mut rng, count);
    assert(forall|at: nat| #[trigger] word_ahead(fresh, at) == seeded_value(seed, at));
    draws
}

} // verus!
