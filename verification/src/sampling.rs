//! Bounded sampling of video frames.
//!
//! A video of arbitrary length is subsampled before classification: the
//! source computes a stride from the total frame count and a fixed sample
//! target, and forwards only the frames whose index is a multiple of that
//! stride.  This bounds the classifier work on long videos.

use vstd::arithmetic::div_mod::lemma_div_is_ordered;
use vstd::arithmetic::div_mod::lemma_div_is_ordered_by_denominator;
use vstd::arithmetic::div_mod::lemma_fundamental_div_mod;
use vstd::arithmetic::div_mod::lemma_fundamental_div_mod_converse;
use vstd::arithmetic::div_mod::lemma_hoist_over_denominator;
use vstd::arithmetic::div_mod::lemma_mod_division_less_than_divisor;
use vstd::prelude::*;

verus! {

/// How many frames a video is sampled down to, roughly.
pub const SAMPLE_TARGET: u64 = 500;

/// The stride used to subsample a video with `total_frames` frames:
/// every `stride`-th frame is forwarded to classification.
pub open spec fn spec_stride(total_frames: u64) -> u64 {
    if total_frames / SAMPLE_TARGET >= 1 {
        total_frames / SAMPLE_TARGET
    } else {
        1
    }
}

/// Computes the subsampling stride, `max(1, total_frames / 500)`.
pub fn sample_stride(total_frames: u64) -> (stride: u64)
    ensures
        stride == spec_stride(total_frames),
        stride >= 1,
{
    let s = total_frames / SAMPLE_TARGET;
    if s >= 1 {
        s
    } else {
        1
    }
}

/// Whether the frame at `index` is forwarded to classification.
pub fn should_forward(index: u64, stride: u64) -> (b: bool)
    requires
        stride >= 1,
    ensures
        b == (index % stride == 0),
{
    index % stride == 0
}

/// How many of the frame indices `0 .. n` are forwarded with stride `k`:
/// the multiples of `k` below `n`.
pub open spec fn spec_forwarded_count(n: nat, k: nat) -> nat
    decreases n,
{
    if n == 0 || k == 0 {
        0
    } else {
        spec_forwarded_count((n - 1) as nat, k) + (if (n - 1) as nat % k == 0 {
            1nat
        } else {
            0nat
        })
    }
}

/// Rounds a dimension up to the nearest multiple of 8, as the frame
/// scaler requires.
pub fn nearest_bigger_div_by_8(n: u32) -> (r: u32)
    requires
        n <= u32::MAX - 7,
    ensures
        r % 8 == 0,
        n <= r < n + 8,
{
    let m = n + 7;
    let r = m & !7;
    assert((m & !7u32) % 8 == 0 && (m & !7u32) <= m && m - (m & !7u32) < 8) by (bit_vector);
    r
}

/// Crossing from `m - 1` to `m` adds one more multiple of `k` exactly
/// when `m` itself is a multiple.
proof fn lemma_div_step(m: int, k: int)
    requires
        m >= 1,
        k >= 1,
    ensures
        m / k == (m - 1) / k + (if m % k == 0 {
            1int
        } else {
            0int
        }),
{
    lemma_fundamental_div_mod(m, k);
    lemma_mod_division_less_than_divisor(m, k);
    let q = m / k;
    let r = m % k;
    if r == 0 {
        assert(q >= 1) by (nonlinear_arith)
            requires
                m >= 1 && k >= 1 && m == k * q,
        ;
        assert(m - 1 == (q - 1) * k + (k - 1)) by (nonlinear_arith)
            requires
                m == k * q,
        ;
        lemma_fundamental_div_mod_converse(m - 1, k, q - 1, k - 1);
    } else {
        assert(m - 1 == q * k + (r - 1)) by (nonlinear_arith)
            requires
                m == k * q + r,
        ;
        lemma_fundamental_div_mod_converse(m - 1, k, q, r - 1);
    }
}

/// With stride `k`, the frames forwarded out of `0 .. n` number
/// `(n - 1) / k + 1` for a nonempty video: the ceiling of `n / k`.
pub proof fn lemma_forwarded_count_closed(n: nat, k: nat)
    requires
        k >= 1,
    ensures
        spec_forwarded_count(n, k) == if n == 0 {
            0int
        } else {
            (n - 1) as int / k as int + 1
        },
    decreases n,
{
    if n == 0 {
    } else if n == 1 {
        assert(0int % k as int == 0) by (nonlinear_arith)
            requires
                k >= 1,
        ;
        assert(0int / k as int == 0) by (nonlinear_arith)
            requires
                k >= 1,
        ;
        assert(spec_forwarded_count(0, k) == 0);
        assert(0 as nat % k == 0);
        assert(spec_forwarded_count(1, k) == 1);
    } else {
        lemma_forwarded_count_closed((n - 1) as nat, k);
        lemma_div_step((n - 1) as int, k as int);
        assert(spec_forwarded_count(n, k) == spec_forwarded_count((n - 1) as nat, k) + (if (n
            - 1) as nat % k == 0 {
            1nat
        } else {
            0nat
        }));
        assert(((n - 1) as nat % k == 0) <==> ((n - 1) as int % k as int == 0));
        assert((n - 2) as int / k as int == ((n - 1) - 1) as int / k as int);
    }
}

/// However long the video, the sampling forwards fewer than twice the
/// sample target: at most 999 frames.  (The worst case stands just
/// under a stride boundary: a 999-frame video keeps stride 1.)
pub proof fn lemma_sample_bound(total_frames: u64)
    ensures
        spec_forwarded_count(total_frames as nat, spec_stride(total_frames) as nat) <= 2
            * SAMPLE_TARGET - 1,
{
    let n = total_frames as int;
    let k = spec_stride(total_frames) as int;
    lemma_forwarded_count_closed(total_frames as nat, spec_stride(total_frames) as nat);
    if n == 0 {
    } else if n <= 999 {
        assert(k == 1);
        assert((n - 1) / 1int == n - 1) by (nonlinear_arith);
    } else {
        let q = n / 500;
        lemma_fundamental_div_mod(n, 500);
        lemma_mod_division_less_than_divisor(n, 500);
        assert(q >= 2) by (nonlinear_arith)
            requires
                n >= 1000 && n == 500 * q + n % 500 && n % 500 < 500,
        ;
        assert(k == q);
        lemma_div_is_ordered(n - 1, 500 * q + 498, q);
        lemma_hoist_over_denominator(498, 500, q as nat);
        lemma_div_is_ordered_by_denominator(498, 1, q);
        assert(498int / 1int == 498) by (nonlinear_arith);
    }
}

/// When the frame count's remainder by the sample target does not
/// exceed its quotient, the sampling forwards at most one frame more
/// than the target: at most 501.  (Frame counts just under a stride
/// boundary, such as 999, break this tighter bound and only meet the
/// general one.)
pub proof fn lemma_sample_bound_tight(total_frames: u64)
    requires
        total_frames as int % 500 <= total_frames as int / 500,
    ensures
        spec_forwarded_count(total_frames as nat, spec_stride(total_frames) as nat)
            <= SAMPLE_TARGET + 1,
{
    let n = total_frames as int;
    let k = spec_stride(total_frames) as int;
    lemma_forwarded_count_closed(total_frames as nat, spec_stride(total_frames) as nat);
    if n == 0 {
    } else {
        let q = n / 500;
        let r = n % 500;
        lemma_fundamental_div_mod(n, 500);
        lemma_mod_division_less_than_divisor(n, 500);
        assert(q >= 1) by (nonlinear_arith)
            requires
                n >= 1 && n == 500 * q + r && 0 <= r <= q,
        ;
        assert(k == q);
        assert(n - 1 <= 501 * q - 1) by (nonlinear_arith)
            requires
                n == 500 * q + r && r <= q,
        ;
        lemma_div_is_ordered(n - 1, 501 * q - 1, q);
        assert(501 * q - 1 == 500 * q + (q - 1)) by (nonlinear_arith);
        lemma_fundamental_div_mod_converse(501 * q - 1, q, 500, q - 1);
    }
}

} // verus!
