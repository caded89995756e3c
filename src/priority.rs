//! Priority of an admitted call: the tip scaled by how many such calls fit in
//! an empty block.

use vstd::prelude::*;

verus! {

/// A two-dimensional resource weight: computation time and proof size.
#[derive(Debug, Clone, Copy, PartialEq, Eq)]
pub struct Weight {
    pub ref_time: u64,
    pub proof_size: u64,
}

/// What a block can hold.
#[derive(Debug, Clone, Copy, PartialEq, Eq)]
pub struct BlockLimits {
    pub max_weight: Weight,
    /// The largest total length in bytes, at least 1.
    pub max_length: u64,
}

impl BlockLimits {
    pub open spec fn well_formed(&self) -> bool {
        self.max_length >= 1
    }
}

/// One weight component raised to at least 1, then capped at the block's.
pub open spec fn bounded_component(w: u64, max: u64) -> u64 {
    let raised: u64 = if w < 1 { 1 } else { w };
    if raised > max { max } else { raised }
}

/// How many calls of weight `w` fit in `max` by the scarcer component; a
/// component that the block sets at zero is left out, and 1 where both are.
pub open spec fn weight_bound(max: Weight, w: Weight) -> u64 {
    let br = bounded_component(w.ref_time, max.ref_time);
    let bp = bounded_component(w.proof_size, max.proof_size);
    if br == 0 && bp == 0 {
        1
    } else if br == 0 {
        (max.proof_size / bp) as u64
    } else if bp == 0 {
        (max.ref_time / br) as u64
    } else {
        let r = (max.ref_time / br) as u64;
        let p = (max.proof_size / bp) as u64;
        if r < p { r } else { p }
    }
}

/// How many calls of `len` bytes (taken as at least 1, at most the maximum) fit.
pub open spec fn length_bound(max_length: u64, len: u64) -> u64 {
    let clamped: u64 = if len < 1 { 1 } else if len > max_length { max_length } else { len };
    (max_length / clamped) as u64
}

/// How many such calls fit in an empty block, by the scarcer resource.
pub open spec fn calls_per_block(limits: BlockLimits, w: Weight, len: u64) -> u64 {
    let l = length_bound(limits.max_length, len);
    let b = weight_bound(limits.max_weight, w);
    if l < b { l } else { b }
}

/// The priority: `(tip + 1) * calls_per_block`, saturating at each step and
/// clamped to `u64::MAX`.
pub open spec fn priority_of(limits: BlockLimits, w: Weight, len: u64, tip: u128) -> u64 {
    let raised: int = if tip == u128::MAX { tip as int } else { tip + 1 };
    let product: int = raised * calls_per_block(limits, w, len);
    if product > u64::MAX { u64::MAX } else { product as u64 }
}

proof fn lemma_calls_per_block_positive(limits: BlockLimits, w: Weight, len: u64)
    requires
        limits.well_formed(),
    ensures
        calls_per_block(limits, w, len) >= 1,
{
    let m = limits.max_weight;
    let br = bounded_component(w.ref_time, m.ref_time);
    let bp = bounded_component(w.proof_size, m.proof_size);
    let clamped: u64 = if len < 1 { 1 } else if len > limits.max_length { limits.max_length } else { len };
    assert(limits.max_length / clamped >= 1) by (nonlinear_arith)
        requires 1 <= clamped <= limits.max_length;
    if br != 0 {
        assert(m.ref_time / br >= 1) by (nonlinear_arith)
            requires 1 <= br <= m.ref_time;
    }
    if bp != 0 {
        assert(m.proof_size / bp >= 1) by (nonlinear_arith)
            requires 1 <= bp <= m.proof_size;
    }
}

fn bounded_component_of(w: u64, max: u64) -> (r: u64)
    ensures
        r == bounded_component(w, max),
{
    let raised: u64 = if w < 1 { 1 } else { w };
    if raised > max { max } else { raised }
}

/// How many calls of `len` bytes and weight `w` fit in an empty block.
pub fn calls_per_block_of(limits: &BlockLimits, w: &Weight, len: u64) -> (r: u64)
    requires
        limits.well_formed(),
    ensures
        r == calls_per_block(*limits, *w, len),
        r >= 1,
{
    proof {
        lemma_calls_per_block_positive(*limits, *w, len);
    }
    let m = limits.max_weight;
    let br = bounded_component_of(w.ref_time, m.ref_time);
    let bp = bounded_component_of(w.proof_size, m.proof_size);
    let by_weight: u64 = if br == 0 && bp == 0 {
        1
    } else if br == 0 {
        m.proof_size / bp
    } else if bp == 0 {
        m.ref_time / br
    } else {
        let r = m.ref_time / br;
        let p = m.proof_size / bp;
        if r < p { r } else { p }
    };
    let clamped: u64 = if len < 1 {
        1
    } else if len > limits.max_length {
        limits.max_length
    } else {
        len
    };
    let by_length = limits.max_length / clamped;
    if by_length < by_weight { by_length } else { by_weight }
}

/// The priority of a call of `len` bytes and weight `w` that offers `tip`.
pub fn priority(limits: &BlockLimits, w: &Weight, len: u64, tip: u128) -> (r: u64)
    requires
        limits.well_formed(),
    ensures
        r == priority_of(*limits, *w, len, tip),
{
    let per_block = calls_per_block_of(limits, w, len);
    let raised: u128 = tip.saturating_add(1);
    let cap: u128 = (u64::MAX as u128) / (per_block as u128);
    if raised > cap {
        proof {
            let b = per_block as int;
            let c = cap as int;
            let a = raised as int;
            assert(a * b > u64::MAX) by (nonlinear_arith)
                requires a > c, c == u64::MAX as int / b, b >= 1;
        }
        u64::MAX
    } else {
        proof {
            let b = per_block as int;
            let c = cap as int;
            let a = raised as int;
            assert(a * b <= u64::MAX) by (nonlinear_arith)
                requires a <= c, c == u64::MAX as int / b, b >= 1;
        }
        (raised * (per_block as u128)) as u64
    }
}

/// Of two calls with the same weight and length, the one with the larger tip
/// has the strictly larger priority, as long as that priority is not clamped.
pub proof fn lemma_priority_tip_order(limits: BlockLimits, w: Weight, len: u64, t1: u128, t2: u128)
    requires
        limits.well_formed(),
        t1 < t2,
        (t2 + 1) * calls_per_block(limits, w, len) <= u64::MAX,
    ensures
        priority_of(limits, w, len, t1) < priority_of(limits, w, len, t2),
{
    lemma_calls_per_block_positive(limits, w, len);
    let b = calls_per_block(limits, w, len) as int;
    assert((t1 + 1) * b < (t2 + 1) * b) by (nonlinear_arith)
        requires t1 < t2, b >= 1;
    assert((t2 + 1) * b >= t2 + 1) by (nonlinear_arith)
        requires t2 >= 0, b >= 1;
    assert(t2 < u128::MAX);
}

} // verus!
