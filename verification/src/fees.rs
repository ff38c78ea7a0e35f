//! Fee model: transaction size estimation at a given fee rate.
//!
//! A legacy transaction costs a fixed overhead plus a per-input and a
//! per-output cost, in virtual bytes; the fee is that size times the fee
//! rate in satoshi per virtual byte.

use vstd::prelude::*;

verus! {

/// Fixed size of a transaction outside its inputs and outputs, in vbytes.
pub const TX_OVERHEAD_VBYTES: u64 = 10;

/// Size of one signed input, in vbytes.
pub const INPUT_VBYTES: u64 = 148;

/// Size of one output, in vbytes.
pub const OUTPUT_VBYTES: u64 = 34;

/// Outputs below this value are uneconomical and are folded into the fee.
pub const DUST_THRESHOLD: u64 = 546;

/// Fee rate assumed when the oracle reports no percentiles, in
/// millisatoshi per vbyte.
pub const DEFAULT_FEE_RATE_MILLISAT: u64 = 2000;

/// Estimated fee for a transaction shape, in satoshi.
pub open spec fn spec_fee(n_in: int, n_out: int, rate: int) -> int {
    (TX_OVERHEAD_VBYTES + INPUT_VBYTES * n_in + OUTPUT_VBYTES * n_out) * rate
}

/// Computes the estimated fee, reporting `None` exactly when it does not
/// fit in 64 bits.
pub fn estimated_fee(n_in: u64, n_out: u64, rate: u64) -> (r: Option<u64>)
    ensures
        match r {
            Some(f) => f == spec_fee(n_in as int, n_out as int, rate as int),
            None => spec_fee(n_in as int, n_out as int, rate as int) > u64::MAX,
        },
{
    if rate == 0 {
        return Some(0);
    }
    let in_cost = match INPUT_VBYTES.checked_mul(n_in) {
        Some(v) => v,
        None => {
            proof {
                lemma_fee_overflow(n_in as int, n_out as int, rate as int);
            }
            return None;
        },
    };
    let out_cost = match OUTPUT_VBYTES.checked_mul(n_out) {
        Some(v) => v,
        None => {
            proof {
                lemma_fee_overflow(n_in as int, n_out as int, rate as int);
            }
            return None;
        },
    };
    let size = match TX_OVERHEAD_VBYTES.checked_add(in_cost) {
        Some(v) => match v.checked_add(out_cost) {
            Some(w) => w,
            None => {
                proof {
                    lemma_fee_overflow(n_in as int, n_out as int, rate as int);
                }
                return None;
            },
        },
        None => {
            proof {
                lemma_fee_overflow(n_in as int, n_out as int, rate as int);
            }
            return None;
        },
    };
    size.checked_mul(rate)
}

/// If the size term alone exceeds 64 bits, so does the fee at any
/// positive rate.
proof fn lemma_fee_overflow(n_in: int, n_out: int, rate: int)
    requires
        n_in >= 0,
        n_out >= 0,
        rate >= 1,
        TX_OVERHEAD_VBYTES + INPUT_VBYTES * n_in + OUTPUT_VBYTES * n_out > u64::MAX,
    ensures
        spec_fee(n_in, n_out, rate) > u64::MAX,
{
    let size = TX_OVERHEAD_VBYTES + INPUT_VBYTES * n_in + OUTPUT_VBYTES * n_out;
    assert(size * rate >= size * 1) by (nonlinear_arith)
        requires
            size >= 0,
            rate >= 1,
    ;
}

/// The fee rate to use, from the oracle's ascending percentiles in
/// millisatoshi per vbyte: the median, or a default when none are known.
pub open spec fn spec_fee_rate_millisat(percentiles: Seq<u64>) -> u64 {
    if percentiles.len() == 0 {
        DEFAULT_FEE_RATE_MILLISAT
    } else {
        percentiles[percentiles.len() as int / 2]
    }
}

/// Picks the fee rate from the oracle's percentiles, in millisatoshi per
/// vbyte.
pub fn choose_fee_rate_millisat(percentiles: &Vec<u64>) -> (r: u64)
    ensures
        r == spec_fee_rate_millisat(percentiles@),
{
    if percentiles.len() == 0 {
        DEFAULT_FEE_RATE_MILLISAT
    } else {
        percentiles[percentiles.len() / 2]
    }
}

/// A millisatoshi-per-vbyte rate in whole satoshi per vbyte, rounded
/// down but never below one satoshi per vbyte.
pub open spec fn spec_rate_sat_per_vbyte(millisat: u64) -> u64 {
    if millisat / 1000 < 1 {
        1u64
    } else {
        millisat / 1000
    }
}

/// The satoshi-per-vbyte fee rate chosen from the oracle's percentiles.
pub open spec fn spec_chosen_rate(percentiles: Seq<u64>) -> u64 {
    spec_rate_sat_per_vbyte(spec_fee_rate_millisat(percentiles))
}

/// Converts a millisatoshi-per-vbyte rate to whole satoshi per vbyte,
/// rounding down but never below one satoshi per vbyte.
pub fn fee_rate_sat_per_vbyte(millisat: u64) -> (r: u64)
    ensures
        r == spec_rate_sat_per_vbyte(millisat),
{
    let r = millisat / 1000;
    if r == 0 {
        1
    } else {
        r
    }
}

} // verus!
