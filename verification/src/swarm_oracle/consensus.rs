//! The weighted-median consensus price of an asset pair.
//!
//! 1. The feeds submitted after `now - max_age_seconds` are the recent votes.
//! 2. Votes whose price deviates from the simple median of the recent prices
//!    by more than `acceptable_deviation_bps` of that median are dropped.
//! 3. If enough votes remain, the consensus price is their weighted median:
//!    sorted by price, the first price at which the running sum of weights
//!    reaches half of the total weight.

use crate::common::{checked_multiply_ratio, minus_seconds, multiply_ratio, ratio, StdFailure};
use crate::swarm_oracle::error::ContractError;
use crate::swarm_oracle::state::{Config, ConsensusPrice, PriceFeed};
use vstd::prelude::*;
use vstd::relations::{sorted_by, total_ordering};
use vstd::seq_lib::{group_to_multiset_ensures, lemma_sorted_unique};

verus! {

broadcast use group_to_multiset_ensures;

/// A vote is a price, its weight and its confidence.
pub type Vote = (u128, u128, u8);

/// The votes of the first `n` feeds that were submitted after `cutoff`, in order.
pub open spec fn recent_votes(feeds: Seq<PriceFeed>, n: int, cutoff: u64) -> Seq<Vote>
    decreases n,
{
    if n <= 0 {
        Seq::empty()
    } else {
        let before = recent_votes(feeds, n - 1, cutoff);
        if feeds[n - 1].submitted_at > cutoff {
            before.push((feeds[n - 1].price, feeds[n - 1].consensus_weight, feeds[n - 1].confidence))
        } else {
            before
        }
    }
}

pub open spec fn price_leq() -> spec_fn(u128, u128) -> bool {
    |a: u128, b: u128| a <= b
}

pub open spec fn prices_of(votes: Seq<Vote>) -> Seq<u128> {
    votes.map_values(|v: Vote| v.0)
}

/// The simple median: the middle price (upper middle for an even count)
/// of the prices in ascending order.
pub open spec fn median_price(votes: Seq<Vote>) -> u128 {
    prices_of(votes).sort_by(price_leq())[votes.len() as int / 2]
}

/// Prices more than this far from the median are outliers.
pub open spec fn deviation_threshold(median: u128, deviation_bps: u64) -> int {
    ratio(median as int, deviation_bps as int, 10_000)
}

pub open spec fn within(price: u128, median: u128, threshold: int) -> bool {
    if price > median {
        price - median <= threshold
    } else {
        median - price <= threshold
    }
}

/// The votes among the first `n` whose price is within `threshold` of `median`, in order.
pub open spec fn in_range_votes(votes: Seq<Vote>, n: int, median: u128, threshold: int) -> Seq<Vote>
    decreases n,
{
    if n <= 0 {
        Seq::empty()
    } else {
        let before = in_range_votes(votes, n - 1, median, threshold);
        if within(votes[n - 1].0, median, threshold) {
            before.push(votes[n - 1])
        } else {
            before
        }
    }
}

pub open spec fn priced_weights(votes: Seq<Vote>) -> Seq<(u128, u128)> {
    votes.map_values(|v: Vote| (v.0, v.1))
}

pub open spec fn total_weight(s: Seq<(u128, u128)>) -> int
    decreases s.len(),
{
    if s.len() == 0 {
        0
    } else {
        total_weight(s.drop_last()) + s.last().1
    }
}

pub open spec fn total_confidence(votes: Seq<Vote>) -> int
    decreases votes.len(),
{
    if votes.len() == 0 {
        0
    } else {
        total_confidence(votes.drop_last()) + votes.last().2
    }
}

/// The total weight of the votes of `s` priced at most `price`.
pub open spec fn weight_at_most(s: Seq<(u128, u128)>, price: u128) -> int
    decreases s.len(),
{
    if s.len() == 0 {
        0
    } else {
        weight_at_most(s.drop_last(), price) + if s.last().0 <= price {
            s.last().1 as int
        } else {
            0
        }
    }
}

/// The total weight of the votes of `s` priced below `price`.
pub open spec fn weight_below(s: Seq<(u128, u128)>, price: u128) -> int
    decreases s.len(),
{
    if s.len() == 0 {
        0
    } else {
        weight_below(s.drop_last(), price) + if s.last().0 < price {
            s.last().1 as int
        } else {
            0
        }
    }
}

pub open spec fn sorted_by_price(s: Seq<(u128, u128)>) -> bool {
    forall|i: int, j: int| 0 <= i < j < s.len() ==> #[trigger] s[i].0 <= #[trigger] s[j].0
}

/// Scanning `s` in order with `acc` already summed: the first price at which
/// the running sum of weights reaches `half`, and 0 if none does.
pub open spec fn first_reaching(s: Seq<(u128, u128)>, half: int, acc: int) -> u128
    decreases s.len(),
{
    if s.len() == 0 {
        0
    } else if acc + s[0].1 >= half {
        s[0].0
    } else {
        first_reaching(s.drop_first(), half, acc + s[0].1)
    }
}

/// The weighted median of `band`. It does not depend on which order among
/// equal prices the sort picks.
pub open spec fn is_weighted_median(price: u128, band: Seq<Vote>) -> bool {
    exists|s: Seq<(u128, u128)>|
        #![trigger s.to_multiset()]
        sorted_by_price(s) && s.to_multiset() == priced_weights(band).to_multiset() && price
            == first_reaching(s, total_weight(priced_weights(band)) / 2, 0)
}

/// The block time `max_age` seconds before `now`, in nanoseconds.
pub open spec fn cutoff_of(now: u64, max_age: u64) -> u64 {
    (now - max_age * 1_000_000_000) as u64
}

pub open spec fn recent_of(c: Config, feeds: Seq<PriceFeed>, now: u64) -> Seq<Vote> {
    recent_votes(feeds, feeds.len() as int, cutoff_of(now, c.max_age_seconds))
}

pub open spec fn band_of(c: Config, feeds: Seq<PriceFeed>, now: u64) -> Seq<Vote> {
    let recent = recent_of(c, feeds, now);
    let median = median_price(recent);
    in_range_votes(recent, recent.len() as int, median, deviation_threshold(median, c.acceptable_deviation_bps))
}

/// `result` is the consensus of `feeds` (the feeds stored for the pair
/// `pair`) under configuration `c` at time `now`.
pub open spec fn is_consensus(
    c: Config,
    feeds: Seq<PriceFeed>,
    now: u64,
    pair: Seq<char>,
    result: Option<ConsensusPrice>,
) -> bool {
    let recent = recent_of(c, feeds, now);
    let band = band_of(c, feeds, now);
    if recent.len() < c.min_agents_for_consensus || band.len() < c.min_agents_for_consensus {
        result is None
    } else {
        result matches Some(cp) && {
            &&& cp.asset_pair@ == pair
            &&& cp.agent_count == band.len()
            &&& cp.computed_at == now
            &&& cp.confidence == total_confidence(band) / band.len() as int
            &&& is_weighted_median(cp.price, band)
        }
    }
}

/// The inputs on which the computation does not panic: the cutoff is not
/// before the epoch, there are fewer recent votes than `u32` counts, there is
/// a median where one is needed, and the outlier threshold, the total weight
/// and the total confidence fit their integer types.
pub open spec fn consensus_defined(c: Config, feeds: Seq<PriceFeed>, now: u64) -> bool {
    let recent = recent_of(c, feeds, now);
    let median = median_price(recent);
    let band = band_of(c, feeds, now);
    &&& c.max_age_seconds * 1_000_000_000 <= now
    &&& recent.len() <= u32::MAX
    &&& recent.len() >= c.min_agents_for_consensus ==> {
        &&& recent.len() > 0
        &&& deviation_threshold(median, c.acceptable_deviation_bps) <= u128::MAX
        &&& band.len() >= c.min_agents_for_consensus ==> {
            &&& total_weight(priced_weights(band)) <= u128::MAX
            &&& total_confidence(band) <= u32::MAX
        }
    }
}

// ── Lemmas ────────────────────────────────────────────────────────

proof fn lemma_price_leq_total()
    ensures
        total_ordering(price_leq()),
{
}

proof fn lemma_total_weight_add(a: Seq<(u128, u128)>, b: Seq<(u128, u128)>)
    ensures
        total_weight(a + b) == total_weight(a) + total_weight(b),
    decreases b.len(),
{
    if b.len() == 0 {
        assert(a + b =~= a);
    } else {
        lemma_total_weight_add(a, b.drop_last());
        assert((a + b).drop_last() =~= a + b.drop_last());
    }
}

proof fn lemma_total_weight_nonneg(s: Seq<(u128, u128)>)
    ensures
        total_weight(s) >= 0,
    decreases s.len(),
{
    if s.len() > 0 {
        lemma_total_weight_nonneg(s.drop_last());
    }
}

/// Reordering does not change the total weight.
proof fn lemma_total_weight_permutation(s: Seq<(u128, u128)>, t: Seq<(u128, u128)>)
    requires
        s.to_multiset() == t.to_multiset(),
    ensures
        total_weight(s) == total_weight(t),
    decreases s.len(),
{
    broadcast use vstd::multiset::group_multiset_axioms;

    if s.len() == 0 {
        assert(s.to_multiset().len() == 0);
        assert(t.to_multiset().len() == t.len());
    } else {
        let x = s.last();
        assert(s.to_multiset().count(x) > 0) by {
            assert(s.contains(x)) by {
                assert(s[s.len() - 1] == x);
            }
        }
        assert(t.contains(x));
        let j = choose|j: int| 0 <= j < t.len() && t[j] == x;
        assert(s.remove(s.len() - 1) =~= s.drop_last());
        assert(s.drop_last().to_multiset() =~= s.to_multiset().remove(x));
        assert(t.remove(j).to_multiset() =~= t.to_multiset().remove(x));
        lemma_total_weight_permutation(s.drop_last(), t.remove(j));
        let left = t.subrange(0, j);
        let right = t.subrange(j + 1, t.len() as int);
        assert(t.remove(j) =~= left + right);
        assert(t =~= left + (seq![x] + right));
        lemma_total_weight_add(left, right);
        lemma_total_weight_add(left, seq![x] + right);
        lemma_total_weight_add(seq![x], right);
        assert(total_weight(seq![x]) == x.1) by {
            assert(seq![x].drop_last() =~= Seq::<(u128, u128)>::empty());
            assert(total_weight(Seq::<(u128, u128)>::empty()) == 0);
        }
    }
}

proof fn lemma_multiset_insert<A>(s: Seq<A>, j: int, x: A)
    requires
        0 <= j <= s.len(),
    ensures
        s.insert(j, x).to_multiset() =~= s.to_multiset().insert(x),
{
    broadcast use vstd::multiset::group_multiset_axioms;

    let t = s.insert(j, x);
    assert(t.remove(j) =~= s);
    assert(t[j] == x);
    assert(t.remove(j).to_multiset() =~= t.to_multiset().remove(x));
    assert(t.contains(x));
    assert(t.to_multiset().count(x) > 0);
}

proof fn lemma_confidence_bound(votes: Seq<Vote>)
    ensures
        0 <= total_confidence(votes) <= 255 * votes.len(),
    decreases votes.len(),
{
    if votes.len() > 0 {
        lemma_confidence_bound(votes.drop_last());
    }
}

// ── Sorting ───────────────────────────────────────────────────────

/// The prices in ascending order.
fn sort_prices(v: &Vec<u128>) -> (r: Vec<u128>)
    ensures
        sorted_by(r@, price_leq()),
        r@.to_multiset() == v@.to_multiset(),
{
    let mut r: Vec<u128> = Vec::new();
    let mut i: usize = 0;
    while i < v.len()
        invariant
            i <= v.len(),
            sorted_by(r@, price_leq()),
            r@.to_multiset() == v@.take(i as int).to_multiset(),
        decreases v.len() - i,
    {
        let x = v[i];
        let mut j: usize = 0;
        while j < r.len() && r[j] <= x
            invariant
                j <= r.len(),
                forall|k: int| 0 <= k < j ==> r@[k] <= x,
            decreases r.len() - j,
        {
            j = j + 1;
        }
        let ghost before = r@;
        proof {
            lemma_multiset_insert(before, j as int, x);
            assert(v@.take(i + 1) =~= v@.take(i as int).push(x));
        }
        r.insert(j, x);
        proof {
            assert forall|a: int, b: int| 0 <= a < b < r@.len() implies #[trigger] (price_leq())(
                r@[a],
                r@[b],
            ) by {
                if b < j {
                    assert((price_leq())(before[a], before[b]));
                } else if b == j {
                    assert(before[a] <= x);
                } else {
                    assert(before[j as int] > x);
                    if b - 1 > j {
                        assert((price_leq())(before[j as int], before[b - 1]));
                    }
                    if a < j {
                        assert(before[a] <= x);
                    } else if a > j {
                        assert((price_leq())(before[a - 1], before[b - 1]));
                    }
                }
            }
        }
        i = i + 1;
    }
    assert(v@.take(v@.len() as int) =~= v@);
    r
}

/// The pairs in ascending order of their first component; pairs with equal
/// first components keep their order.
fn sort_by_price(v: &Vec<(u128, u128)>) -> (r: Vec<(u128, u128)>)
    ensures
        sorted_by_price(r@),
        r@.to_multiset() == v@.to_multiset(),
{
    let mut r: Vec<(u128, u128)> = Vec::new();
    let mut i: usize = 0;
    while i < v.len()
        invariant
            i <= v.len(),
            sorted_by_price(r@),
            r@.to_multiset() == v@.take(i as int).to_multiset(),
        decreases v.len() - i,
    {
        let x = v[i];
        let mut j: usize = 0;
        while j < r.len() && r[j].0 <= x.0
            invariant
                j <= r.len(),
                forall|k: int| 0 <= k < j ==> r@[k].0 <= x.0,
            decreases r.len() - j,
        {
            j = j + 1;
        }
        let ghost before = r@;
        proof {
            lemma_multiset_insert(before, j as int, x);
            assert(v@.take(i + 1) =~= v@.take(i as int).push(x));
        }
        r.insert(j, x);
        proof {
            assert forall|a: int, b: int| 0 <= a < b < r@.len() implies #[trigger] r@[a].0
                <= #[trigger] r@[b].0 by {
                if b < j {
                    assert(before[a].0 <= before[b].0);
                } else if b == j {
                    assert(before[a].0 <= x.0);
                } else {
                    assert(before[j as int].0 > x.0);
                    if b - 1 > j {
                        assert(before[j as int].0 <= before[b - 1].0);
                    }
                    if a < j {
                        assert(before[a].0 <= x.0);
                    } else if a > j {
                        assert(before[a - 1].0 <= before[b - 1].0);
                    }
                }
            }
        }
        i = i + 1;
    }
    assert(v@.take(v@.len() as int) =~= v@);
    r
}

// ── Stages ────────────────────────────────────────────────────────

/// The recent votes of `feeds`: those submitted after `cutoff`, in order.
fn collect_recent(feeds: &Vec<PriceFeed>, cutoff: u64) -> (recent: Vec<Vote>)
    ensures
        recent@ == recent_votes(feeds@, feeds@.len() as int, cutoff),
{
    let mut recent: Vec<Vote> = Vec::new();
    let mut i: usize = 0;
    while i < feeds.len()
        invariant
            i <= feeds.len(),
            recent@ == recent_votes(feeds@, i as int, cutoff),
        decreases feeds.len() - i,
    {
        let f = &feeds[i];
        if f.submitted_at > cutoff {
            recent.push((f.price, f.consensus_weight, f.confidence));
        }
        i = i + 1;
    }
    recent
}

/// The simple median of the prices of `recent`, which is one of them.
fn simple_median(recent: &Vec<Vote>) -> (median: u128)
    requires
        recent.len() > 0,
    ensures
        median == median_price(recent@),
        exists|k: int| 0 <= k < recent@.len() && recent@[k].0 == median,
{
    let mut prices: Vec<u128> = Vec::new();
    let mut i: usize = 0;
    while i < recent.len()
        invariant
            i <= recent.len(),
            prices@ == prices_of(recent@).take(i as int),
        decreases recent.len() - i,
    {
        prices.push(recent[i].0);
        assert(prices@ =~= prices_of(recent@).take(i + 1));
        i = i + 1;
    }
    assert(prices@ =~= prices_of(recent@));
    let sorted = sort_prices(&prices);
    proof {
        lemma_price_leq_total();
        prices@.lemma_sort_by_ensures(price_leq());
        lemma_sorted_unique(sorted@, prices@.sort_by(price_leq()), price_leq());
        assert(sorted@.to_multiset().len() == prices@.to_multiset().len());
        assert(prices@.len() == recent@.len());
    }
    let median = sorted[sorted.len() / 2];
    proof {
        assert(sorted@[(sorted@.len() / 2) as int] == median);
        assert(sorted@.contains(median));
        assert(prices@.to_multiset().count(median) > 0);
        assert(prices@.contains(median));
        let k = choose|k: int| 0 <= k < prices@.len() && prices@[k] == median;
        assert(prices@[k] == recent@[k].0);
    }
    median
}

/// The votes of `recent` whose price is within `threshold` of `median`, in order.
fn votes_in_range(recent: &Vec<Vote>, median: u128, threshold: u128) -> (band: Vec<Vote>)
    ensures
        band@ == in_range_votes(recent@, recent@.len() as int, median, threshold as int),
{
    let mut band: Vec<Vote> = Vec::new();
    let mut i: usize = 0;
    while i < recent.len()
        invariant
            i <= recent.len(),
            band@ == in_range_votes(recent@, i as int, median, threshold as int),
        decreases recent.len() - i,
    {
        let p = recent[i].0;
        let keep = if p > median { p - median <= threshold } else { median - p <= threshold };
        if keep {
            band.push(recent[i]);
        }
        i = i + 1;
    }
    band
}

// ── The consensus ─────────────────────────────────────────────────

/// Attempt to compute the consensus price of `asset_pair` from `feeds`, the
/// feeds stored for that pair (those that could be read). `None` where too
/// few recent, in-range votes remain. Reads the configuration first.
pub fn try_compute_consensus(
    config: Result<Config, StdFailure>,
    feeds: &Vec<PriceFeed>,
    now: u64,
    asset_pair: &str,
) -> (res: Result<Option<ConsensusPrice>, ContractError>)
    requires
        config matches Ok(c) ==> consensus_defined(c, feeds@, now),
    ensures
        match config {
            Err(e) => res == Err::<Option<ConsensusPrice>, ContractError>(ContractError::Std(e)),
            Ok(c) => res matches Ok(r) && is_consensus(c, feeds@, now, asset_pair@, r),
        },
{
    let config = match config {
        Err(e) => return Err(ContractError::Std(e)),
        Ok(c) => c,
    };
    let cutoff = minus_seconds(now, config.max_age_seconds);
    let ghost c = config;

    // 1. Recent votes.
    let recent = collect_recent(feeds, cutoff);
    assert(recent@ == recent_of(c, feeds@, now));
    let agent_count = recent.len() as u32;
    if agent_count < config.min_agents_for_consensus {
        return Ok(None);
    }

    // 2. Simple median and outliers.
    let median = simple_median(&recent);
    let threshold = multiply_ratio(median, config.acceptable_deviation_bps as u128, 10_000);
    let band = votes_in_range(&recent, median, threshold);
    assert(band@ == band_of(c, feeds@, now));
    proof {
        lemma_in_range_len(recent@, recent@.len() as int, median, threshold as int);
        let k = choose|k: int| 0 <= k < recent@.len() && recent@[k].0 == median;
        lemma_in_range_nonempty(recent@, recent@.len() as int, median, threshold as int, k);
    }
    if band.len() < config.min_agents_for_consensus as usize {
        return Ok(None);
    }

    // 3. Weighted median.
    let mut pairs: Vec<(u128, u128)> = Vec::new();
    let mut confidence_sum: u32 = 0;
    let mut i: usize = 0;
    while i < band.len()
        invariant
            i <= band.len(),
            pairs@ == priced_weights(band@).take(i as int),
            confidence_sum == total_confidence(band@.take(i as int)),
            total_confidence(band@) <= u32::MAX,
        decreases band.len() - i,
    {
        proof {
            assert(band@.take(i + 1).drop_last() =~= band@.take(i as int));
            lemma_confidence_bound(band@.take(i + 1));
            let rest = band@.skip(i + 1);
            assert(band@ =~= band@.take(i + 1) + rest);
            lemma_confidence_split(band@.take(i + 1), rest);
        }
        pairs.push((band[i].0, band[i].1));
        confidence_sum = confidence_sum + band[i].2 as u32;
        assert(pairs@ =~= priced_weights(band@).take(i + 1));
        i = i + 1;
    }
    assert(pairs@ =~= priced_weights(band@));
    assert(band@.take(band@.len() as int) =~= band@);
    let sorted_pairs = sort_by_price(&pairs);
    proof {
        lemma_total_weight_permutation(sorted_pairs@, pairs@);
    }

    let mut total: u128 = 0;
    let mut i: usize = 0;
    while i < sorted_pairs.len()
        invariant
            i <= sorted_pairs.len(),
            total == total_weight(sorted_pairs@.take(i as int)),
            total_weight(sorted_pairs@) <= u128::MAX,
        decreases sorted_pairs.len() - i,
    {
        proof {
            assert(sorted_pairs@.take(i + 1).drop_last() =~= sorted_pairs@.take(i as int));
            let rest = sorted_pairs@.skip(i + 1);
            assert(sorted_pairs@ =~= sorted_pairs@.take(i + 1) + rest);
            lemma_total_weight_add(sorted_pairs@.take(i + 1), rest);
            lemma_total_weight_nonneg(rest);
        }
        total = total + sorted_pairs[i].1;
        i = i + 1;
    }
    assert(sorted_pairs@.take(sorted_pairs@.len() as int) =~= sorted_pairs@);
    let half = total / 2;

    let mut cumulative: u128 = 0;
    let mut weighted_median: u128 = 0;
    let mut i: usize = 0;
    while i < sorted_pairs.len()
        invariant_except_break
            i <= sorted_pairs.len(),
            cumulative == total_weight(sorted_pairs@.take(i as int)),
            total_weight(sorted_pairs@) == total,
            first_reaching(sorted_pairs@, half as int, 0) == first_reaching(
                sorted_pairs@.skip(i as int),
                half as int,
                cumulative as int,
            ),
            weighted_median == 0,
        ensures
            weighted_median == first_reaching(sorted_pairs@, half as int, 0),
        decreases sorted_pairs.len() - i,
    {
        proof {
            assert(sorted_pairs@.take(i + 1).drop_last() =~= sorted_pairs@.take(i as int));
            let rest = sorted_pairs@.skip(i + 1);
            assert(sorted_pairs@ =~= sorted_pairs@.take(i + 1) + rest);
            lemma_total_weight_add(sorted_pairs@.take(i + 1), rest);
            lemma_total_weight_nonneg(rest);
            assert(sorted_pairs@.skip(i as int).drop_first() =~= rest);
        }
        cumulative = cumulative + sorted_pairs[i].1;
        if cumulative >= half {
            weighted_median = sorted_pairs[i].0;
            break;
        }
        i = i + 1;
    }
    assert(is_weighted_median(weighted_median, band@));

    proof {
        lemma_confidence_bound(band@);
        let n = band@.len() as int;
        let t = total_confidence(band@);
        assert(t / n <= 255) by (nonlinear_arith)
            requires
                0 <= t <= 255 * n,
                n > 0,
        ;
    }
    let average_confidence = (confidence_sum / band.len() as u32) as u8;
    Ok(
        Some(
            ConsensusPrice {
                asset_pair: asset_pair.to_owned(),
                price: weighted_median,
                agent_count: band.len() as u32,
                computed_at: now,
                confidence: average_confidence,
            },
        ),
    )
}

/// Whether `try_compute_consensus` can compute the consensus of `feeds`
/// under `config` at `now`: the cutoff is not before the epoch, the recent
/// votes can be counted in a `u32`, and the median, the outlier threshold
/// and the totals of the votes in band exist and fit their integer types.
#[verifier::loop_isolation(false)]
pub fn consensus_computable(config: &Config, feeds: &Vec<PriceFeed>, now: u64) -> (r: bool)
    ensures
        r == consensus_defined(*config, feeds@, now),
{
    let window = match config.max_age_seconds.checked_mul(1_000_000_000) {
        None => return false,
        Some(w) => w,
    };
    if window > now {
        return false;
    }
    let cutoff = minus_seconds(now, config.max_age_seconds);
    let ghost c = *config;
    let recent = collect_recent(feeds, cutoff);
    assert(recent@ == recent_of(c, feeds@, now));
    if recent.len() > u32::MAX as usize {
        return false;
    }
    if (recent.len() as u32) < config.min_agents_for_consensus {
        return true;
    }
    if recent.len() == 0 {
        return false;
    }
    let median = simple_median(&recent);
    let threshold = match checked_multiply_ratio(median, config.acceptable_deviation_bps as u128, 10_000) {
        None => return false,
        Some(t) => t,
    };
    let band = votes_in_range(&recent, median, threshold);
    assert(band@ == band_of(c, feeds@, now));
    if band.len() < config.min_agents_for_consensus as usize {
        return true;
    }
    proof {
        lemma_in_range_len(recent@, recent@.len() as int, median, threshold as int);
    }
    let ghost weights = priced_weights(band@);
    let mut total: u128 = 0;
    let mut i: usize = 0;
    while i < band.len()
        invariant
            i <= band.len(),
            weights == priced_weights(band@),
            total == total_weight(weights.take(i as int)),
        decreases band.len() - i,
    {
        proof {
            assert(weights.take(i + 1).drop_last() =~= weights.take(i as int));
            let rest = weights.skip(i + 1);
            assert(weights =~= weights.take(i + 1) + rest);
            lemma_total_weight_add(weights.take(i + 1), rest);
            lemma_total_weight_nonneg(rest);
        }
        proof {
            assert(weights.take(i + 1).last() == weights[i as int]);
            assert(weights[i as int].1 == band@[i as int].1);
        }
        match total.checked_add(band[i].1) {
            None => return false,
            Some(t) => total = t,
        }
        i = i + 1;
    }
    assert(weights.take(weights.len() as int) =~= weights);
    let mut confidence: u64 = 0;
    let mut i: usize = 0;
    while i < band.len()
        invariant
            i <= band.len(),
            band.len() <= u32::MAX,
            confidence == total_confidence(band@.take(i as int)),
            confidence <= 255 * i,
        decreases band.len() - i,
    {
        proof {
            assert(band@.take(i + 1).drop_last() =~= band@.take(i as int));
        }
        confidence = confidence + band[i].2 as u64;
        i = i + 1;
    }
    assert(band@.take(band@.len() as int) =~= band@);
    confidence <= u32::MAX as u64
}

proof fn lemma_in_range_len(votes: Seq<Vote>, n: int, median: u128, threshold: int)
    requires
        0 <= n,
    ensures
        in_range_votes(votes, n, median, threshold).len() <= n,
    decreases n,
{
    if n > 0 {
        lemma_in_range_len(votes, n - 1, median, threshold);
    }
}

proof fn lemma_in_range_nonempty(votes: Seq<Vote>, n: int, median: u128, threshold: int, k: int)
    requires
        0 <= k < n,
        within(votes[k].0, median, threshold),
    ensures
        in_range_votes(votes, n, median, threshold).len() > 0,
    decreases n,
{
    if k < n - 1 {
        lemma_in_range_nonempty(votes, n - 1, median, threshold, k);
    }
}

proof fn lemma_confidence_split(a: Seq<Vote>, b: Seq<Vote>)
    ensures
        total_confidence(a + b) == total_confidence(a) + total_confidence(b),
        total_confidence(b) >= 0,
    decreases b.len(),
{
    if b.len() == 0 {
        assert(a + b =~= a);
    } else {
        lemma_confidence_split(a, b.drop_last());
        assert((a + b).drop_last() =~= a + b.drop_last());
    }
}

// ── Laws ──────────────────────────────────────────────────────────

proof fn lemma_in_range_members(votes: Seq<Vote>, n: int, median: u128, threshold: int)
    ensures
        forall|i: int|
            0 <= i < in_range_votes(votes, n, median, threshold).len() ==> within(
                #[trigger] in_range_votes(votes, n, median, threshold)[i].0,
                median,
                threshold,
            ),
    decreases n,
{
    if n > 0 {
        lemma_in_range_members(votes, n - 1, median, threshold);
        let before = in_range_votes(votes, n - 1, median, threshold);
        let all = in_range_votes(votes, n, median, threshold);
        assert forall|i: int| 0 <= i < all.len() implies within(#[trigger] all[i].0, median, threshold) by {
            if i < before.len() {
                assert(all[i] == before[i]);
            }
        }
    }
}

proof fn lemma_total_weight_first(s: Seq<(u128, u128)>)
    requires
        s.len() > 0,
    ensures
        total_weight(s) == s[0].1 + total_weight(s.drop_first()),
{
    assert(s =~= seq![s[0]] + s.drop_first());
    lemma_total_weight_add(seq![s[0]], s.drop_first());
    assert(seq![s[0]].drop_last() =~= Seq::<(u128, u128)>::empty());
    assert(total_weight(Seq::<(u128, u128)>::empty()) == 0);
}

/// Where the weights still to come reach `half`, the scan stops at a price of `s`.
proof fn lemma_first_reaching_member(s: Seq<(u128, u128)>, half: int, acc: int)
    requires
        s.len() > 0,
        acc + total_weight(s) >= half,
    ensures
        exists|k: int| 0 <= k < s.len() && s[k].0 == first_reaching(s, half, acc),
    decreases s.len(),
{
    lemma_total_weight_first(s);
    if acc + s[0].1 >= half {
        assert(s[0].0 == first_reaching(s, half, acc));
    } else {
        let rest = s.drop_first();
        if rest.len() == 0 {
            assert(total_weight(rest) == 0);
        } else {
            lemma_first_reaching_member(rest, half, acc + s[0].1);
            let k = choose|k: int| 0 <= k < rest.len() && rest[k].0 == first_reaching(rest, half, acc + s[0].1);
            assert(s[k + 1] == rest[k]);
        }
    }
}

/// The consensus price is the price of one of the in-range votes; so it
/// lies within the outlier threshold of the simple median of the recent prices.
#[verifier::spinoff_prover]
#[verifier::rlimit(40)]
pub proof fn lemma_consensus_price_in_band(c: Config, feeds: Seq<PriceFeed>, now: u64, price: u128)
    requires
        band_of(c, feeds, now).len() > 0,
        is_weighted_median(price, band_of(c, feeds, now)),
    ensures
        exists|i: int| 0 <= i < band_of(c, feeds, now).len() && (#[trigger] band_of(c, feeds, now)[i]).0 == price,
        within(
            price,
            median_price(recent_of(c, feeds, now)),
            deviation_threshold(median_price(recent_of(c, feeds, now)), c.acceptable_deviation_bps),
        ),
{
    broadcast use vstd::multiset::group_multiset_axioms;

    let band = band_of(c, feeds, now);
    let recent = recent_of(c, feeds, now);
    let median = median_price(recent);
    let threshold = deviation_threshold(median, c.acceptable_deviation_bps);
    let pw = priced_weights(band);
    let s = choose|s: Seq<(u128, u128)>|
        #![trigger s.to_multiset()]
        sorted_by_price(s) && s.to_multiset() == pw.to_multiset() && price == first_reaching(
            s,
            total_weight(pw) / 2,
            0,
        );
    lemma_total_weight_permutation(s, pw);
    assert(s.to_multiset().len() == pw.to_multiset().len());
    assert(s.len() > 0);
    lemma_total_weight_nonneg(pw);
    lemma_first_reaching_member(s, total_weight(pw) / 2, 0);
    let k = choose|k: int| 0 <= k < s.len() && s[k].0 == first_reaching(s, total_weight(pw) / 2, 0);
    assert(s.contains(s[k]));
    assert(pw.to_multiset().count(s[k]) > 0);
    assert(pw.contains(s[k]));
    let i = choose|i: int| 0 <= i < pw.len() && pw[i] == s[k];
    assert(band[i].0 == price);
    lemma_in_range_members(recent, recent.len() as int, median, threshold);
    assert(within(band[i].0, median, threshold));
}

proof fn lemma_weights_add(a: Seq<(u128, u128)>, b: Seq<(u128, u128)>, price: u128)
    ensures
        weight_at_most(a + b, price) == weight_at_most(a, price) + weight_at_most(b, price),
        weight_below(a + b, price) == weight_below(a, price) + weight_below(b, price),
    decreases b.len(),
{
    if b.len() == 0 {
        assert(a + b =~= a);
    } else {
        lemma_weights_add(a, b.drop_last(), price);
        assert((a + b).drop_last() =~= a + b.drop_last());
    }
}

/// Part of the weight of `s`, never more than all of it.
proof fn lemma_weights_bounded(s: Seq<(u128, u128)>, price: u128)
    ensures
        0 <= weight_below(s, price) <= weight_at_most(s, price) <= total_weight(s),
    decreases s.len(),
{
    if s.len() > 0 {
        lemma_weights_bounded(s.drop_last(), price);
    }
}

/// Where every vote of `s` is priced at most `price`, all its weight is.
proof fn lemma_weight_all_at_most(s: Seq<(u128, u128)>, price: u128)
    requires
        forall|j: int| 0 <= j < s.len() ==> #[trigger] s[j].0 <= price,
    ensures
        weight_at_most(s, price) == total_weight(s),
    decreases s.len(),
{
    if s.len() > 0 {
        assert(s.last() == s[s.len() - 1]);
        lemma_weight_all_at_most(s.drop_last(), price);
    }
}

/// Where no vote of `s` is priced below `price`, none of its weight is.
proof fn lemma_weight_none_below(s: Seq<(u128, u128)>, price: u128)
    requires
        forall|j: int| 0 <= j < s.len() ==> #[trigger] s[j].0 >= price,
    ensures
        weight_below(s, price) == 0,
    decreases s.len(),
{
    if s.len() > 0 {
        assert(s.last() == s[s.len() - 1]);
        lemma_weight_none_below(s.drop_last(), price);
    }
}

/// Reordering does not change the weight at or below a price.
proof fn lemma_weights_permutation(s: Seq<(u128, u128)>, t: Seq<(u128, u128)>, price: u128)
    requires
        s.to_multiset() == t.to_multiset(),
    ensures
        weight_at_most(s, price) == weight_at_most(t, price),
        weight_below(s, price) == weight_below(t, price),
    decreases s.len(),
{
    broadcast use vstd::multiset::group_multiset_axioms;

    if s.len() == 0 {
        assert(s.to_multiset().len() == 0);
        assert(t.to_multiset().len() == t.len());
        assert(t =~= Seq::<(u128, u128)>::empty());
    } else {
        let x = s.last();
        assert(s.to_multiset().count(x) > 0) by {
            assert(s.contains(x)) by {
                assert(s[s.len() - 1] == x);
            }
        }
        assert(t.contains(x));
        let j = choose|j: int| 0 <= j < t.len() && t[j] == x;
        assert(s.remove(s.len() - 1) =~= s.drop_last());
        assert(s.drop_last().to_multiset() =~= s.to_multiset().remove(x));
        assert(t.remove(j).to_multiset() =~= t.to_multiset().remove(x));
        lemma_weights_permutation(s.drop_last(), t.remove(j), price);
        let left = t.subrange(0, j);
        let right = t.subrange(j + 1, t.len() as int);
        assert(t.remove(j) =~= left + right);
        assert(t =~= left + (seq![x] + right));
        lemma_weights_add(left, right, price);
        lemma_weights_add(left, seq![x] + right, price);
        lemma_weights_add(seq![x], right, price);
        assert(seq![x].drop_last() =~= Seq::<(u128, u128)>::empty());
        assert(seq![x].last() == x);
        assert(weight_at_most(Seq::<(u128, u128)>::empty(), price) == 0);
        assert(weight_below(Seq::<(u128, u128)>::empty(), price) == 0);
    }
}

/// The scan stops at a position `k` of `s`: the weights up to and including
/// `k` reach `half`, the weights before it do not exceed it.
proof fn lemma_first_reaching_position(s: Seq<(u128, u128)>, half: int, acc: int)
    requires
        s.len() > 0,
        acc <= half,
        acc + total_weight(s) >= half,
    ensures
        exists|k: int|
            #![trigger s[k]]
            0 <= k < s.len() && s[k].0 == first_reaching(s, half, acc) && acc + total_weight(s.take(k + 1))
                >= half && acc + total_weight(s.take(k)) <= half && (k > 0 ==> acc + total_weight(s.take(k))
                < half),
    decreases s.len(),
{
    lemma_total_weight_first(s);
    assert(s.take(0) =~= Seq::<(u128, u128)>::empty());
    assert(s.take(1).drop_last() =~= s.take(0));
    assert(total_weight(Seq::<(u128, u128)>::empty()) == 0);
    assert(s.take(1).last() == s[0]);
    if acc + s[0].1 >= half {
        assert(s[0].0 == first_reaching(s, half, acc));
        assert(acc + total_weight(s.take(1)) >= half);
    } else {
        let rest = s.drop_first();
        lemma_total_weight_nonneg(rest);
        if rest.len() == 0 {
            assert(total_weight(rest) == 0);
        } else {
            lemma_first_reaching_position(rest, half, acc + s[0].1);
            let k = choose|k: int|
                #![trigger rest[k]]
                0 <= k < rest.len() && rest[k].0 == first_reaching(rest, half, acc + s[0].1) && acc + s[0].1
                    + total_weight(rest.take(k + 1)) >= half && acc + s[0].1 + total_weight(rest.take(k)) <= half
                    && (k > 0 ==> acc + s[0].1 + total_weight(rest.take(k)) < half);
            assert(s[k + 1] == rest[k]);
            assert(s.take(k + 2) =~= seq![s[0]] + rest.take(k + 1));
            assert(s.take(k + 1) =~= seq![s[0]] + rest.take(k));
            lemma_total_weight_add(seq![s[0]], rest.take(k + 1));
            lemma_total_weight_add(seq![s[0]], rest.take(k));
            assert(seq![s[0]].drop_last() =~= Seq::<(u128, u128)>::empty());
            assert(seq![s[0]].last() == s[0]);
            assert(total_weight(seq![s[0]]) == s[0].1);
        }
    }
}

/// The consensus price splits the weight of the votes in band: the votes
/// priced below it weigh at most half of the total, the votes priced at or
/// below it at least half.
#[verifier::spinoff_prover]
#[verifier::rlimit(40)]
pub proof fn lemma_consensus_splits_weight(band: Seq<Vote>, price: u128)
    requires
        band.len() > 0,
        is_weighted_median(price, band),
    ensures
        weight_below(priced_weights(band), price) <= total_weight(priced_weights(band)) / 2,
        weight_at_most(priced_weights(band), price) >= total_weight(priced_weights(band)) / 2,
{
    broadcast use vstd::multiset::group_multiset_axioms;

    let pw = priced_weights(band);
    let half = total_weight(pw) / 2;
    let s = choose|s: Seq<(u128, u128)>|
        #![trigger s.to_multiset()]
        sorted_by_price(s) && s.to_multiset() == pw.to_multiset() && price == first_reaching(s, half, 0);
    lemma_total_weight_permutation(s, pw);
    lemma_weights_permutation(s, pw, price);
    assert(s.to_multiset().len() == pw.to_multiset().len());
    assert(s.len() > 0);
    lemma_total_weight_nonneg(pw);
    lemma_first_reaching_position(s, half, 0);
    let k = choose|k: int|
        #![trigger s[k]]
        0 <= k < s.len() && s[k].0 == first_reaching(s, half, 0) && total_weight(s.take(k + 1)) >= half
            && total_weight(s.take(k)) <= half && (k > 0 ==> total_weight(s.take(k)) < half);
    // At or below: every vote up to `k` is priced at most `price`.
    let upto = s.take(k + 1);
    let after = s.skip(k + 1);
    assert(s =~= upto + after);
    assert forall|j: int| 0 <= j < upto.len() implies #[trigger] upto[j].0 <= price by {
        assert(upto[j] == s[j]);
        if j < k {
            assert(s[j].0 <= s[k].0);
        }
    }
    lemma_weight_all_at_most(upto, price);
    lemma_weights_add(upto, after, price);
    lemma_weights_bounded(after, price);
    // Below: no vote from `k` on is priced below `price`.
    let before = s.take(k);
    let from = s.skip(k);
    assert(s =~= before + from);
    assert forall|j: int| 0 <= j < from.len() implies #[trigger] from[j].0 >= price by {
        assert(from[j] == s[k + j]);
        if j > 0 {
            assert(s[k].0 <= s[k + j].0);
        }
    }
    lemma_weight_none_below(from, price);
    lemma_weights_add(before, from, price);
    lemma_weights_bounded(before, price);
}

/// Where every vote of `s` is priced above `price`, none of its weight is at
/// or below it.
proof fn lemma_weight_none_at_most(s: Seq<(u128, u128)>, price: u128)
    requires
        forall|j: int| 0 <= j < s.len() ==> #[trigger] s[j].0 > price,
    ensures
        weight_at_most(s, price) == 0,
    decreases s.len(),
{
    if s.len() > 0 {
        assert(s.last() == s[s.len() - 1]);
        lemma_weight_none_at_most(s.drop_last(), price);
    }
}

/// A weighted median `p1` is not below another one `p2`.
#[verifier::spinoff_prover]
#[verifier::rlimit(40)]
proof fn lemma_weighted_median_not_below(band: Seq<Vote>, p1: u128, p2: u128)
    requires
        band.len() > 0,
        is_weighted_median(p1, band),
        is_weighted_median(p2, band),
    ensures
        !(p1 < p2),
{
    broadcast use vstd::multiset::group_multiset_axioms;

    let pw = priced_weights(band);
    let half = total_weight(pw) / 2;
    lemma_total_weight_nonneg(pw);
    let s1 = choose|s: Seq<(u128, u128)>|
        #![trigger s.to_multiset()]
        sorted_by_price(s) && s.to_multiset() == pw.to_multiset() && p1 == first_reaching(s, half, 0);
    let s2 = choose|s: Seq<(u128, u128)>|
        #![trigger s.to_multiset()]
        sorted_by_price(s) && s.to_multiset() == pw.to_multiset() && p2 == first_reaching(s, half, 0);
    lemma_total_weight_permutation(s1, pw);
    lemma_total_weight_permutation(s2, pw);
    lemma_weights_permutation(s1, s2, p1);
    assert(s1.to_multiset().len() == pw.to_multiset().len());
    assert(s2.to_multiset().len() == pw.to_multiset().len());
    lemma_first_reaching_position(s1, half, 0);
    lemma_first_reaching_position(s2, half, 0);
    let k1 = choose|k: int|
        #![trigger s1[k]]
        0 <= k < s1.len() && s1[k].0 == first_reaching(s1, half, 0) && total_weight(s1.take(k + 1)) >= half
            && total_weight(s1.take(k)) <= half && (k > 0 ==> total_weight(s1.take(k)) < half);
    let k2 = choose|k: int|
        #![trigger s2[k]]
        0 <= k < s2.len() && s2[k].0 == first_reaching(s2, half, 0) && total_weight(s2.take(k + 1)) >= half
            && total_weight(s2.take(k)) <= half && (k > 0 ==> total_weight(s2.take(k)) < half);
    if p1 < p2 {
        // In the first order, the votes up to `k1` (priced at most `p1`) reach half.
        let upto = s1.take(k1 + 1);
        assert(s1 =~= upto + s1.skip(k1 + 1));
        assert forall|j: int| 0 <= j < upto.len() implies #[trigger] upto[j].0 <= p1 by {
            assert(upto[j] == s1[j]);
            if j < k1 {
                assert(s1[j].0 <= s1[k1].0);
            }
        }
        lemma_weight_all_at_most(upto, p1);
        lemma_weights_add(upto, s1.skip(k1 + 1), p1);
        lemma_weights_bounded(s1.skip(k1 + 1), p1);
        assert(weight_at_most(s1, p1) >= half);
        // In the second order, every vote priced at most `p1` comes before `k2`.
        let before = s2.take(k2);
        let from = s2.skip(k2);
        assert(s2 =~= before + from);
        assert forall|j: int| 0 <= j < from.len() implies #[trigger] from[j].0 > p1 by {
            assert(from[j] == s2[k2 + j]);
            if j > 0 {
                assert(s2[k2].0 <= s2[k2 + j].0);
            }
        }
        lemma_weight_none_at_most(from, p1);
        lemma_weights_add(before, from, p1);
        lemma_weights_bounded(before, p1);
        if k2 == 0 {
            // No vote is priced at most `p1`, yet the vote at `k1` is.
            assert(s1.contains(s1[k1]));
            assert(s2.to_multiset().count(s1[k1]) > 0);
            assert(s2.contains(s1[k1]));
            let j = choose|j: int| 0 <= j < s2.len() && s2[j] == s1[k1];
            assert(from[j] == s2[j]);
            assert(false);
        } else {
            assert(weight_at_most(s2, p1) < half);
        }
    }
}

/// The weighted median of the votes in band is unique: it does not depend
/// on the order in which votes of equal price are taken, so the consensus
/// price is determined by the votes.
pub proof fn lemma_weighted_median_unique(band: Seq<Vote>, p1: u128, p2: u128)
    requires
        band.len() > 0,
        is_weighted_median(p1, band),
        is_weighted_median(p2, band),
    ensures
        p1 == p2,
{
    lemma_weighted_median_not_below(band, p1, p2);
    lemma_weighted_median_not_below(band, p2, p1);
}

/// The votes priced from `median - threshold` to `median + threshold`.
pub open spec fn near(median: u128, threshold: int) -> spec_fn(Vote) -> bool {
    |v: Vote| median - threshold <= v.0 <= median + threshold
}

proof fn lemma_in_range_is_filter(votes: Seq<Vote>, n: int, median: u128, threshold: int)
    requires
        0 <= n <= votes.len(),
        threshold >= 0,
    ensures
        in_range_votes(votes, n, median, threshold) == votes.take(n).filter(near(median, threshold)),
    decreases n,
{
    reveal(Seq::filter);
    if n == 0 {
        assert(votes.take(0) =~= Seq::<Vote>::empty());
    } else {
        lemma_in_range_is_filter(votes, n - 1, median, threshold);
        assert(votes.take(n).drop_last() =~= votes.take(n - 1));
        assert(votes.take(n).last() == votes[n - 1]);
    }
}

/// The outlier band is exactly the recent votes, in order, whose price lies
/// within `median * acceptable_deviation_bps / 10_000` (rounded down) of the
/// simple median of the recent prices: every vote in the band does, and
/// every recent vote that does is in the band.
pub proof fn lemma_band_is_votes_near_median(c: Config, feeds: Seq<PriceFeed>, now: u64)
    ensures
        ({
            let recent = recent_of(c, feeds, now);
            let median = median_price(recent);
            let t = median * c.acceptable_deviation_bps / 10_000;
            let band = band_of(c, feeds, now);
            &&& band == recent.filter(|v: Vote| median - t <= v.0 <= median + t)
            &&& forall|i: int| 0 <= i < band.len() ==> median - t <= #[trigger] band[i].0 <= median + t
            &&& forall|k: int|
                0 <= k < recent.len() && median - t <= #[trigger] recent[k].0 <= median + t ==> band.contains(recent[k])
        }),
{
    let recent = recent_of(c, feeds, now);
    let median = median_price(recent);
    let t = median * c.acceptable_deviation_bps / 10_000;
    assert(t >= 0) by (nonlinear_arith)
        requires
            t == median * c.acceptable_deviation_bps / 10_000,
            median >= 0,
            c.acceptable_deviation_bps >= 0,
    ;
    assert(deviation_threshold(median, c.acceptable_deviation_bps) == t);
    lemma_in_range_is_filter(recent, recent.len() as int, median, t);
    assert(recent.take(recent.len() as int) =~= recent);
    let pred = near(median, t);
    assert(pred =~= |v: Vote| median - t <= v.0 <= median + t);
    let band = band_of(c, feeds, now);
    assert forall|i: int| 0 <= i < band.len() implies median - t <= #[trigger] band[i].0 <= median + t by {
        recent.lemma_filter_pred(pred, i);
    }
    assert forall|k: int|
        0 <= k < recent.len() && median - t <= #[trigger] recent[k].0 <= median + t implies band.contains(recent[k]) by {
        recent.lemma_filter_contains(pred, k);
    }
}

} // verus!
