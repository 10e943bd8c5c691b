//! Indicator arithmetic over a rolling price window.
//!
//! RSI is computed in Cutler's form over the whole window: one hundred times
//! the summed gains divided by the summed absolute moves, carried in
//! hundredths of an RSI point. A window with no movement at all reads as the
//! top of the range (no losses). The percent drop from the recent high is
//! compared against its threshold by cross-multiplication, so no precision
//! is lost to division.

use vstd::prelude::*;

use crate::types::{BPS_DENOM, MAX_WINDOW, RSI_DENOM};

verus! {

/// Summed upward price moves over consecutive pairs of the window.
pub open spec fn gains(s: Seq<u64>) -> int
    decreases s.len(),
{
    if s.len() <= 1 {
        0
    } else {
        gains(s.drop_last()) + if s.last() > s[s.len() - 2] {
            s.last() - s[s.len() - 2]
        } else {
            0
        }
    }
}

/// Summed downward price moves over consecutive pairs of the window.
pub open spec fn losses(s: Seq<u64>) -> int
    decreases s.len(),
{
    if s.len() <= 1 {
        0
    } else {
        losses(s.drop_last()) + if s.last() < s[s.len() - 2] {
            s[s.len() - 2] - s.last()
        } else {
            0
        }
    }
}

/// RSI of a window, in hundredths of an RSI point: 10000 * gains over total
/// movement, and the top of the range when the window never moved.
pub open spec fn rsi_spec(s: Seq<u64>) -> int {
    if gains(s) + losses(s) == 0 {
        RSI_DENOM as int
    } else {
        (RSI_DENOM as int) * gains(s) / (gains(s) + losses(s))
    }
}

/// Largest price in the window (zero only for an empty window).
pub open spec fn seq_max(s: Seq<u64>) -> u64
    decreases s.len(),
{
    if s.len() == 0 {
        0
    } else if s.len() == 1 {
        s[0]
    } else {
        let m = seq_max(s.drop_last());
        if s.last() > m {
            s.last()
        } else {
            m
        }
    }
}

/// The drop from `high` down to `price` is at least `threshold_bps` of `high`.
pub open spec fn drop_cond(high: u64, price: u64, threshold_bps: u32) -> bool {
    (high - price) * (BPS_DENOM as int) >= (threshold_bps as int) * (high as int)
}

proof fn lemma_gains_bounds(s: Seq<u64>)
    ensures
        0 <= gains(s) <= if s.len() <= 1 {
            0int
        } else {
            (s.len() - 1) * (u64::MAX as int)
        },
        0 <= losses(s) <= if s.len() <= 1 {
            0int
        } else {
            (s.len() - 1) * (u64::MAX as int)
        },
    decreases s.len(),
{
    if s.len() > 1 {
        lemma_gains_bounds(s.drop_last());
        assert((s.len() - 2) * (u64::MAX as int) + (u64::MAX as int) == (s.len() - 1) * (
        u64::MAX as int)) by (nonlinear_arith);
    }
}

/// RSI over the given window, in hundredths of an RSI point.
pub fn compute_rsi(prices: &Vec<u64>) -> (r: u32)
    requires
        prices@.len() <= MAX_WINDOW,
    ensures
        r as int == rsi_spec(prices@),
        r <= RSI_DENOM,
{
    let n = prices.len();
    let mut g: u128 = 0;
    let mut l: u128 = 0;
    if n >= 2 {
        let mut i: usize = 1;
        while i < n
            invariant
                1 <= i <= n,
                n == prices@.len() <= MAX_WINDOW,
                g == gains(prices@.take(i as int)),
                l == losses(prices@.take(i as int)),
            decreases n - i,
        {
            let prev = prices[i - 1];
            let cur = prices[i];
            proof {
                lemma_gains_bounds(prices@.take(i as int));
                lemma_gains_bounds(prices@.take(i as int + 1));
                assert(prices@.take(i as int + 1).drop_last() =~= prices@.take(i as int));
            }
            if cur > prev {
                g = g + (cur - prev) as u128;
            } else {
                l = l + (prev - cur) as u128;
            }
            i = i + 1;
        }
    }
    proof {
        if n >= 2 {
            assert(prices@.take(n as int) =~= prices@);
        } else {
            assert(gains(prices@) == 0 && losses(prices@) == 0);
        }
        lemma_gains_bounds(prices@);
    }
    let total = g + l;
    if total == 0 {
        RSI_DENOM
    } else {
        let scaled = (RSI_DENOM as u128) * g;
        let q = scaled / total;
        proof {
            vstd::arithmetic::div_mod::lemma_div_is_ordered(
                (RSI_DENOM as int) * (g as int),
                (RSI_DENOM as int) * (total as int),
                total as int,
            );
            vstd::arithmetic::div_mod::lemma_div_multiples_vanish(
                RSI_DENOM as int,
                total as int,
            );
            assert((RSI_DENOM as int) * (g as int) <= (RSI_DENOM as int) * (total as int));
        }
        q as u32
    }
}

/// Largest price in the window.
pub fn window_high(prices: &Vec<u64>) -> (r: u64)
    requires
        prices@.len() > 0,
    ensures
        r == seq_max(prices@),
{
    let mut m = prices[0];
    let mut i: usize = 1;
    while i < prices.len()
        invariant
            1 <= i <= prices@.len(),
            m == seq_max(prices@.take(i as int)),
        decreases prices@.len() - i,
    {
        proof {
            assert(prices@.take(i as int + 1).drop_last() =~= prices@.take(i as int));
        }
        if prices[i] > m {
            m = prices[i];
        }
        i = i + 1;
    }
    proof {
        assert(prices@.take(prices@.len() as int) =~= prices@);
    }
    m
}

/// Every element of the window is at most its maximum.
pub proof fn lemma_seq_max_ge(s: Seq<u64>, i: int)
    requires
        0 <= i < s.len(),
    ensures
        s[i] <= seq_max(s),
    decreases s.len(),
{
    if s.len() > 1 && i < s.len() - 1 {
        lemma_seq_max_ge(s.drop_last(), i);
    }
}

/// Cross-multiplied comparison of the drop from `high` to `price` against a
/// basis-point threshold.
pub fn drop_exceeds(high: u64, price: u64, threshold_bps: u32) -> (r: bool)
    requires
        price <= high,
    ensures
        r == drop_cond(high, price, threshold_bps),
{
    proof {
        vstd::arithmetic::mul::lemma_mul_upper_bound(
            (high - price) as int,
            u64::MAX as int,
            BPS_DENOM as int,
            u64::MAX as int,
        );
        vstd::arithmetic::mul::lemma_mul_upper_bound(
            threshold_bps as int,
            u32::MAX as int,
            high as int,
            u64::MAX as int,
        );
    }
    let lhs = ((high - price) as u128) * (BPS_DENOM as u128);
    let rhs = (threshold_bps as u128) * (high as u128);
    lhs >= rhs
}

} // verus!
