//! A random number generator for games: ranges, dice rolls, shuffles and weighted
//! picks, either seeded (reproducible) or seeded from the operating system.
use vstd::prelude::*;
use vstd::string::StringSliceAdditionalSpecFns;
use rand::rngs::StdRng;
use rand::seq::{IndexedRandom, SliceRandom};
use rand::{Rng as RandomSource, SeedableRng};
use crate::dice::{dice_spec, parse_dice};

verus! {

#[verifier::external_type_specification]
#[verifier::external_body]
pub struct ExStdRng(StdRng);

/// Relies on rand's `SeedableRng::seed_from_u64` for `StdRng`: a generator whose
/// stream is fixed by the seed.
#[verifier::external_body]
fn seeded_source(seed: u64) -> StdRng {
    StdRng::seed_from_u64(seed)
}

/// Relies on rand's `SeedableRng::try_from_os_rng` for `StdRng`: a generator seeded
/// from the operating system's entropy, or `None` when the system cannot supply it.
#[verifier::external_body]
fn os_source() -> Option<StdRng> {
    StdRng::try_from_os_rng().ok()
}

/// Relies on rand's `Rng::random_range` on the inclusive range `lo..=hi`: a value
/// within it; the range is not empty.
#[verifier::external_body]
fn draw_between(source: &mut StdRng, lo: i64, hi: i64) -> (v: i64)
    requires
        lo <= hi,
    ensures
        lo <= v <= hi,
{
    source.random_range(lo..=hi)
}

/// Relies on rand's `SliceRandom::shuffle`: the items are permuted in place.
#[verifier::external_body]
fn shuffle_items<T>(source: &mut StdRng, items: &mut Vec<T>)
    ensures
        final(items)@.to_multiset() == old(items)@.to_multiset(),
        final(items)@.len() == old(items)@.len(),
{
    items.as_mut_slice().shuffle(source)
}

/// Relies on rand's `IndexedRandom::choose`: `None` exactly for no items, else a
/// reference to one of them.
#[verifier::external_body]
fn pick_item<'a, T>(source: &mut StdRng, items: &'a [T]) -> (r: Option<&'a T>)
    ensures
        r is None <==> items@.len() == 0,
        r matches Some(x) ==> exists|i: int| 0 <= i < items@.len() && items@[i] == *x,
{
    items.choose(source)
}

/// The sum of the weights.
pub open spec fn weight_sum(w: Seq<u32>) -> int
    decreases w.len(),
{
    if w.len() == 0 {
        0
    } else {
        weight_sum(w.drop_last()) + w.last()
    }
}

/// A roll of `n` dice of `s` sides plus `m` stays within `i32` whatever the dice show.
pub open spec fn roll_fits(n: u32, s: i32, m: i32) -> bool {
    n * s <= i32::MAX && i32::MIN <= n + m && n * s + m <= i32::MAX
}

/// A source of random numbers.
pub struct Rng {
    source: StdRng,
}

impl Rng {
    /// A generator seeded from the operating system; `None` when the system cannot
    /// supply entropy.
    pub fn new() -> (r: Option<Rng>) {
        match os_source() {
            Some(source) => Some(Rng { source }),
            None => None,
        }
    }

    /// A generator whose results are fixed by `seed`.
    pub fn with_seed(seed: u64) -> (r: Rng) {
        Rng { source: seeded_source(seed) }
    }

    /// A value in `min..=max`.
    pub fn range(&mut self, min: i32, max: i32) -> (v: i32)
        requires
            min <= max,
        ensures
            min <= v <= max,
    {
        draw_between(&mut self.source, min as i64, max as i64) as i32
    }

    /// The total of `num_dice` dice of `sides` sides, each showing `1..=sides`.
    pub fn roll_dice(&mut self, num_dice: u32, sides: i32) -> (total: i32)
        requires
            num_dice == 0 || (sides >= 1 && num_dice * sides <= i32::MAX),
        ensures
            num_dice <= total <= num_dice * sides,
    {
        let mut total: i32 = 0;
        let mut i: u32 = 0;
        while i < num_dice
            invariant
                i <= num_dice,
                num_dice == 0 || (sides >= 1 && num_dice * sides <= i32::MAX),
                i <= total <= i * sides,
            decreases num_dice - i,
        {
            proof {
                assert((i + 1) * sides <= num_dice * sides) by (nonlinear_arith)
                    requires
                        i + 1 <= num_dice,
                        sides >= 1,
                ;
                assert((i + 1) * sides == i * sides + sides) by (nonlinear_arith);
            }
            let r = self.range(1, sides);
            total = total + r;
            i = i + 1;
        }
        total
    }

    /// Rolls dice notation such as `3d6+2`: `Ok` with a total between the lowest and
    /// the highest roll exactly when the notation is well formed and every roll fits
    /// `i32`.
    pub fn roll(&mut self, notation: &str) -> (r: Result<i32, String>)
        ensures
            r is Ok <==> (dice_spec(notation.spec_bytes()) matches Some((n, s, m)) && roll_fits(
                n,
                s,
                m,
            )),
            r matches Ok(v) ==> (dice_spec(notation.spec_bytes()) matches Some((n, s, m)) && n + m
                <= v <= n * s + m),
    {
        let (n, s, m) = parse_dice(notation)?;
        roll_parsed(self, n, s, m)
    }

    /// Puts the items in a random order.
    pub fn shuffle<T>(&mut self, items: &mut Vec<T>)
        ensures
            final(items)@.to_multiset() == old(items)@.to_multiset(),
            final(items)@.len() == old(items)@.len(),
    {
        shuffle_items(&mut self.source, items)
    }

    /// One of the items at random; `None` for no items.
    pub fn choose_item<'a, T>(&mut self, items: &'a [T]) -> (r: Option<&'a T>)
        ensures
            r is None <==> items@.len() == 0,
            r matches Some(x) ==> exists|i: int| 0 <= i < items@.len() && items@[i] == *x,
    {
        pick_item(&mut self.source, items)
    }

    /// An item drawn with probability proportional to its weight: `None` when there
    /// are no items, the counts of items and weights differ, or all weights are zero;
    /// otherwise an item of positive weight.
    pub fn weighted_choose<'a, T>(&mut self, items: &'a [T], weights: &[u32]) -> (r: Option<&'a T>)
        requires
            weight_sum(weights@) <= u32::MAX,
        ensures
            r is None <==> (items@.len() == 0 || items@.len() != weights@.len() || weight_sum(weights@)
                == 0),
            r matches Some(x) ==> exists|i: int|
                0 <= i < items@.len() && items@[i] == *x && weights@[i] > 0,
    {
        if items.len() == 0 || items.len() != weights.len() {
            return None;
        }
        let n = weights.len();
        let mut total: u32 = 0;
        let mut k: usize = 0;
        while k < n
            invariant
                n == weights@.len(),
                k <= n,
                total == weight_sum(weights@.subrange(0, k as int)),
                weight_sum(weights@) <= u32::MAX,
            decreases n - k,
        {
            assert(weights@.subrange(0, k + 1).drop_last() == weights@.subrange(0, k as int));
            proof {
                lemma_weight_prefix(weights@, k + 1);
            }
            total = total + weights[k];
            k = k + 1;
        }
        assert(weights@.subrange(0, n as int) == weights@);
        if total == 0 {
            return None;
        }
        let mut roll: i64 = draw_between(&mut self.source, 0, total as i64 - 1);
        let mut i: usize = 0;
        while i < n
            invariant
                n == weights@.len(),
                n == items@.len(),
                i <= n,
                total == weight_sum(weights@),
                total > 0,
                0 <= roll,
                roll + weight_sum(weights@.subrange(0, i as int)) < total,
            decreases n - i,
        {
            assert(weights@.subrange(0, i + 1).drop_last() == weights@.subrange(0, i as int));
            if roll < weights[i] as i64 {
                assert(items@[i as int] == items@[i as int] && weights@[i as int] > 0);
                return Some(&items[i]);
            }
            roll = roll - weights[i] as i64;
            i = i + 1;
        }
        assert(weights@.subrange(0, n as int) == weights@);
        proof {
            lemma_weight_nonneg(weights@);
        }
        None
    }
}

proof fn lemma_weight_nonneg(w: Seq<u32>)
    ensures
        weight_sum(w) >= 0,
    decreases w.len(),
{
    if w.len() > 0 {
        lemma_weight_nonneg(w.drop_last());
    }
}

proof fn lemma_weight_prefix(w: Seq<u32>, k: int)
    requires
        0 <= k <= w.len(),
    ensures
        0 <= weight_sum(w.subrange(0, k)) <= weight_sum(w),
    decreases w.len(),
{
    if k == w.len() {
        assert(w.subrange(0, k) == w);
        lemma_weight_nonneg(w);
    } else {
        lemma_weight_prefix(w.drop_last(), k);
        assert(w.drop_last().subrange(0, k) == w.subrange(0, k));
    }
}

/// Rolls `n` dice of `s` sides plus `m`, or fails when a roll could leave `i32`.
fn roll_parsed(rng: &mut Rng, n: u32, s: i32, m: i32) -> (r: Result<i32, String>)
    requires
        s >= 1,
    ensures
        r is Ok <==> roll_fits(n, s, m),
        r matches Ok(v) ==> n + m <= v <= n * s + m,
{
    assert(n as int * s as int <= 0xFFFF_FFFF * 0x7FFF_FFFF) by (nonlinear_arith)
        requires
            n <= 0xFFFF_FFFF,
            1 <= s <= 0x7FFF_FFFF,
    ;
    assert(n as int * s as int >= 0) by (nonlinear_arith)
        requires
            n >= 0,
            s >= 1,
    ;
    let hi: i64 = n as i64 * s as i64;
    if hi > i32::MAX as i64 || (n as i64 + m as i64) < i32::MIN as i64 || hi + m as i64
        > i32::MAX as i64 {
        return Err(String::from_str("dice total out of range"));
    }
    let t = rng.roll_dice(n, s);
    Ok(t + m)
}

/// Rolls dice notation with a generator seeded from the operating system; fails as
/// well when the system cannot supply entropy.
pub fn roll_dice_notation(notation: &str) -> (r: Result<i32, String>)
    ensures
        r is Ok ==> (dice_spec(notation.spec_bytes()) matches Some((n, s, m)) && roll_fits(
            n,
            s,
            m,
        )),
        !(dice_spec(notation.spec_bytes()) matches Some((n, s, m)) && roll_fits(n, s, m)) ==> r is Err,
        r matches Ok(v) ==> (dice_spec(notation.spec_bytes()) matches Some((n, s, m)) && n + m <= v
            <= n * s + m),
{
    let (n, s, m) = parse_dice(notation)?;
    match Rng::new() {
        Some(mut rng) => roll_parsed(&mut rng, n, s, m),
        None => Err(String::from_str("no entropy from the operating system")),
    }
}

/// Rolls dice notation with a generator seeded by `seed`: the same notation and seed
/// give the same total.
pub fn roll_dice_notation_seeded(notation: &str, seed: u64) -> (r: Result<i32, String>)
    ensures
        r is Ok <==> (dice_spec(notation.spec_bytes()) matches Some((n, s, m)) && roll_fits(
            n,
            s,
            m,
        )),
        r matches Ok(v) ==> (dice_spec(notation.spec_bytes()) matches Some((n, s, m)) && n + m <= v
            <= n * s + m),
{
    let (n, s, m) = parse_dice(notation)?;
    let mut rng = Rng::with_seed(seed);
    roll_parsed(&mut rng, n, s, m)
}

} // verus!
