//! Ride-on-load verification: the deterministic pattern oracle, the IntAlu
//! host reference, the compact per-check error report, detector counters and
//! the verdict classification.
//!
//! Expected values are recomputed from the element index (splitmix
//! finalizer), so no golden buffer is ever stored.
use vstd::prelude::*;

use crate::text::{
    chars_of, concat, decimal, decimal_chars, hex_upper_padded, hex_upper_padded_chars, join,
    join_chars, message, pieces_view, string_from_chars, string_of,
};

verus! {

// ---------------------------------------------------------------------------
// Pattern oracle
// ---------------------------------------------------------------------------

/// Multiplier of the first splitmix64 finalizer round.
pub const MIX1: u64 = 0xBF58_476D_1CE4_E5B9;

/// Multiplier of the second splitmix64 finalizer round.
pub const MIX2: u64 = 0x94D0_49BB_1331_11EB;

/// Golden-ratio increment used to spread element indices.
pub const GOLDEN: u64 = 0x9E37_79B9_7F4A_7C15;

/// `a * b` modulo 2^64.
pub open spec fn wmul64(a: u64, b: u64) -> u64 {
    ((a as nat * b as nat) % 0x1_0000_0000_0000_0000) as u64
}

/// The splitmix64 finalizer.
pub open spec fn splitmix_final(x: u64) -> u64 {
    let x1 = x ^ (x >> 30u64);
    let x2 = wmul64(x1, MIX1);
    let x3 = x2 ^ (x2 >> 27u64);
    let x4 = wmul64(x3, MIX2);
    x4 ^ (x4 >> 31u64)
}

/// High word of the splitmix64 finalizer.
pub open spec fn vhash32_spec(x: u64) -> u32 {
    (splitmix_final(x) >> 32u64) as u32
}

/// `i + 1`, wrapping to 0 after the largest index as the device does.
pub open spec fn next_index(i: u64) -> u64 {
    if i == u64::MAX {
        0
    } else {
        (i + 1) as u64
    }
}

/// Expected pattern word of element `i` under `seed`.
pub open spec fn vexpected_spec(i: u64, seed: u64) -> u32 {
    vhash32_spec(seed ^ wmul64(GOLDEN, next_index(i)))
}

/// Deterministic 32-bit oracle: splitmix64 finalizer, high word.
pub fn vhash32(x: u64) -> (r: u32)
    ensures
        r == vhash32_spec(x),
{
    let mut x = x;
    x = x ^ (x >> 30u64);
    x = x.wrapping_mul(MIX1);
    x = x ^ (x >> 27u64);
    x = x.wrapping_mul(MIX2);
    x = x ^ (x >> 31u64);
    (x >> 32u64) as u32
}

/// Expected value for element `i` under `seed`. The `(i + 1)` fold keeps
/// seed 0 distinct from the all-zero pattern; like the device-side value it
/// mirrors, `i + 1` wraps.
pub fn vexpected_host(i: u64, seed: u64) -> (r: u32)
    ensures
        r == vexpected_spec(i, seed),
{
    let k = if i == u64::MAX {
        0u64
    } else {
        i + 1
    };
    vhash32(seed ^ GOLDEN.wrapping_mul(k))
}

/// The expected word folds the seed and the index by XOR: for an index
/// below the last, it is the oracle hash of the seed XOR the golden-ratio
/// multiple of `i + 1`.
pub proof fn lemma_vexpected_xor_fold(i: u64, seed: u64)
    requires
        i < u64::MAX,
    ensures
        vexpected_spec(i, seed) == vhash32_spec(seed ^ wmul64(GOLDEN, (i + 1) as u64)),
{
}

/// Moving to another index is the same as XOR-ing the seed with both
/// indices' golden-ratio multiples: every index sees the same hash stream,
/// shifted by an XOR of the seed.
pub proof fn lemma_vexpected_index_is_seed_xor(i: u64, j: u64, seed: u64)
    ensures
        vexpected_spec(i, seed) == vexpected_spec(
            j,
            seed ^ wmul64(GOLDEN, next_index(i)) ^ wmul64(GOLDEN, next_index(j)),
        ),
{
    let x = wmul64(GOLDEN, next_index(i));
    let y = wmul64(GOLDEN, next_index(j));
    assert((seed ^ x ^ y) ^ y == seed ^ x) by (bit_vector);
}

/// The index part of the fold is never zero below the last index (the
/// golden-ratio multiplier is odd), so the hash input of every such element
/// differs from the seed: under seed 0 no element hashes the all-zero word.
pub proof fn lemma_vexpected_index_part_nonzero(i: u64, seed: u64)
    requires
        i < u64::MAX,
    ensures
        wmul64(GOLDEN, (i + 1) as u64) != 0,
        seed ^ wmul64(GOLDEN, (i + 1) as u64) != seed,
{
    let k = (i + 1) as u64;
    let w = wmul64(GOLDEN, k);
    assert(k != 0u64 ==> (0x9E37_79B9_7F4A_7C15u64 as nat * k as nat) % 0x1_0000_0000_0000_0000
        != 0) by (bit_vector);
    assert(w != 0u64 ==> seed ^ w != seed) by (bit_vector);
}

/// The last index wraps to the first multiple: it sees the plain seed.
pub proof fn lemma_vexpected_last_index(seed: u64)
    ensures
        vexpected_spec(u64::MAX, seed) == vhash32_spec(seed),
{
    assert(seed ^ 0u64 == seed) by (bit_vector);
}

/// Per-lane seed derivation for the multi-stream verify paths.
pub fn lane_seed(seed: u64, lane: usize) -> (r: u64)
    requires
        lane < u64::MAX,
    ensures
        r == seed ^ wmul64((lane + 1) as u64, GOLDEN),
{
    seed ^ ((lane as u64) + 1).wrapping_mul(GOLDEN)
}

// ---------------------------------------------------------------------------
// Compact error report
// ---------------------------------------------------------------------------

/// Per-lane compact error report shared with the verify kernels. Field order
/// and the explicit `pad0` word follow the device-side C layout (7 words,
/// the 32-entry histogram, an alignment word, the 64-bit `checked` counter
/// and the completion counter), 176 bytes in all.
#[derive(Debug, Clone, Copy, PartialEq)]
pub struct VerifyReport {
    pub magic: u32,
    pub total_errors: u32,
    /// Lowest faulting element index (init 0xFFFFFFFF).
    pub idx_min: u32,
    /// Highest faulting element index (init 0).
    pub idx_max: u32,
    pub first_exp: u32,
    pub first_act: u32,
    /// Lock for the first-error capture (init 0xFFFFFFFF).
    pub first_lock: u32,
    /// Count of faults whose (act ^ exp) lowest set bit is position N.
    pub bit_hist: [u32; 32],
    /// Alignment word in front of `checked`; always zero.
    pub pad0: u32,
    pub checked: u64,
    /// Per-block completion counter.
    pub done: u32,
}

impl VerifyReport {
    /// Value of `magic` in a freshly initialised report.
    pub const MAGIC: u32 = 0xADBA_0000;

    /// Element index at which the injection self-test places its error.
    pub const SELF_TEST_IDX: u32 = 0xADBA;

    /// Bit flipped by the injection self-test.
    pub const SELF_TEST_BIT: u32 = 22;

    /// A report in its armed state: no errors, `idx_min` and the
    /// first-error lock at their maxima, an empty histogram.
    pub fn init() -> (r: Self)
        ensures
            r.magic == Self::MAGIC,
            r.total_errors == 0,
            r.idx_min == u32::MAX,
            r.idx_max == 0,
            r.first_exp == 0,
            r.first_act == 0,
            r.first_lock == u32::MAX,
            forall|k: int| 0 <= k < 32 ==> r.bit_hist@[k] == 0,
            r.pad0 == 0,
            r.checked == 0,
            r.done == 0,
    {
        let hist: [u32; 32] = [0u32; 32];
        VerifyReport {
            magic: Self::MAGIC,
            total_errors: 0,
            idx_min: u32::MAX,
            idx_max: 0,
            first_exp: 0,
            first_act: 0,
            first_lock: u32::MAX,
            bit_hist: hist,
            pad0: 0,
            checked: 0,
            done: 0,
        }
    }
}

/// Counters for one sampled dot-product cross-check.
#[derive(Debug, Clone, Copy, PartialEq)]
pub struct SampleStats {
    pub checked: u32,
    pub mismatch: u32,
    pub nonfinite: u32,
    /// Bit pattern of the largest |recomputed - stored| seen.
    pub max_abs_diff_bits: u32,
    pub first_bad: u32,
    pub done: u32,
}

impl SampleStats {
    /// Zero counters, `first_bad` at its "none yet" value.
    pub fn init() -> (r: Self)
        ensures
            r == (SampleStats {
                checked: 0,
                mismatch: 0,
                nonfinite: 0,
                max_abs_diff_bits: 0,
                first_bad: u32::MAX,
                done: 0,
            }),
    {
        SampleStats {
            checked: 0,
            mismatch: 0,
            nonfinite: 0,
            max_abs_diff_bits: 0,
            first_bad: u32::MAX,
            done: 0,
        }
    }
}

// ---------------------------------------------------------------------------
// Cadence
// ---------------------------------------------------------------------------

/// Tunables for the ride-on-load detectors.
#[derive(Debug, Clone, Copy, PartialEq, Eq)]
pub struct VerifyConfig {
    pub enabled: bool,
    pub self_test: bool,
    /// Verify the memcpy destination every Nth burst-op.
    pub memcpy_every: u32,
    /// Replace every Nth memset burst iteration with pattern fill + verify.
    pub memset_every: u32,
    /// GEMM stats + sampled cross-check every Nth burst-op.
    pub gemm_every: u32,
    /// Sampled dot-product cross-checks per GEMM burst.
    pub gemm_samples: u32,
    /// Output sizes up to this edge length use the full-coverage recompute;
    /// 0 disables the full-coverage path.
    pub full_check_max_size: usize,
    /// Gathered IntAlu outputs per burst-op for the host reference compare.
    pub intalu_samples: u32,
    /// Matrix side for the exact INT8 GEMM validation.
    pub int8_validate_size: usize,
}

/// The built-in detector tunables.
pub open spec fn default_verify_config() -> VerifyConfig {
    VerifyConfig {
        enabled: true,
        self_test: true,
        memcpy_every: 1,
        memset_every: 8,
        gemm_every: 4,
        gemm_samples: 512,
        full_check_max_size: 1024,
        intalu_samples: 1024,
        int8_validate_size: 512,
    }
}

impl Default for VerifyConfig {
    fn default() -> (r: Self)
        ensures
            r == default_verify_config(),
    {
        VerifyConfig {
            enabled: true,
            self_test: true,
            memcpy_every: 1,
            memset_every: 8,
            gemm_every: 4,
            gemm_samples: 512,
            full_check_max_size: 1024,
            intalu_samples: 1024,
            int8_validate_size: 512,
        }
    }
}

impl VerifyConfig {
    /// Deterministic, stateless cadence: a check runs on the ops whose seed
    /// is a multiple of `every`; `every == 0` or a disabled config never runs.
    pub fn due(&self, every: u32, seed: u64) -> (r: bool)
        ensures
            r == (self.enabled && every > 0 && seed % (every as u64) == 0),
    {
        self.enabled && every > 0 && seed % (every as u64) == 0
    }
}

// ---------------------------------------------------------------------------
// IntAlu host reference
// ---------------------------------------------------------------------------

/// `a * b` in wrapping 32-bit signed arithmetic.
pub open spec fn wmul_i32(a: i32, b: i32) -> i32 {
    vstd::wrapping::i32_specs::wrapping_mul(a, b)
}

/// `a + b` in wrapping 32-bit signed arithmetic.
pub open spec fn wadd_i32(a: i32, b: i32) -> i32 {
    vstd::wrapping::i32_specs::wrapping_add(a, b)
}

/// The multiplier sequence of the kernel: `b' = b * 1664525 + 1013904223`.
pub open spec fn lcg_step(b: i32) -> i32 {
    wadd_i32(wmul_i32(b, 1664525), 1013904223)
}

/// State `(acc, b)` after `n` rounds of `acc = acc * b + a; b = lcg(b)`.
pub open spec fn mad_chain(acc: i32, a: i32, b: i32, n: nat) -> (i32, i32)
    decreases n,
{
    if n == 0 {
        (acc, b)
    } else {
        let (acc1, b1) = mad_chain(acc, a, b, (n - 1) as nat);
        (wadd_i32(wmul_i32(acc1, b1), a), lcg_step(b1))
    }
}

/// Byte `k` (little-endian) of `x`, sign-extended.
pub open spec fn sbyte(x: i32, k: int) -> int {
    ((x >> ((8 * k) as i32)) as i8) as int
}

/// `__dp4a(a, b, 0)`: the sum of the four signed byte products.
pub open spec fn dp4a_spec(a: i32, b: i32) -> int {
    sbyte(a, 0) * sbyte(b, 0) + sbyte(a, 1) * sbyte(b, 1) + sbyte(a, 2) * sbyte(b, 2) + sbyte(
        a,
        3,
    ) * sbyte(b, 3)
}

/// Mode narrowing at the end of the kernel chain.
pub open spec fn narrow(acc: i32, mode: u32) -> i32 {
    if mode == 16 {
        ((acc as i16) as i32) ^ (((acc >> 16i32) as i16) as i32)
    } else if mode == 8 {
        ((acc as i8) as i32) ^ (((acc >> 8i32) as i8) as i32) ^ (((acc >> 16i32) as i8) as i32)
            ^ (((acc >> 24i32) as i8) as i32)
    } else {
        acc
    }
}

/// Host result of the IntAlu kernel for one element.
pub open spec fn intalu_spec(a: i32, b: i32, mode: u32, dp4a: bool) -> i32 {
    let (acc, b32) = mad_chain(a, a, b, 32);
    let folded = if dp4a {
        acc ^ (dp4a_spec(a, b32) as i32)
    } else {
        acc
    };
    narrow(folded, mode)
}

/// The accumulator the kernel narrows: the 32-round MAD chain, XOR-folded
/// with the DP4A product when the device has DP4A.
pub open spec fn intalu_folded(a: i32, b: i32, dp4a: bool) -> i32 {
    let (acc, b32) = mad_chain(a, a, b, 32);
    if dp4a {
        acc ^ (dp4a_spec(a, b32) as i32)
    } else {
        acc
    }
}

/// The 16-bit and 8-bit modes fold every half-word or byte of the
/// accumulator: the result is a sign-extended 16-bit (8-bit) value whose
/// bits are the XOR of the accumulator's two 16-bit halves (four bytes);
/// the 32-bit mode keeps the accumulator.
pub proof fn lemma_intalu_narrowing(a: i32, b: i32, dp4a: bool)
    ensures
        ({
            let acc = intalu_folded(a, b, dp4a);
            let u = acc as u32;
            let r16 = intalu_spec(a, b, 16, dp4a);
            let r8 = intalu_spec(a, b, 8, dp4a);
            &&& -32768 <= r16 <= 32767
            &&& r16 as u16 == (u as u16) ^ ((u >> 16u32) as u16)
            &&& -128 <= r8 <= 127
            &&& r8 as u8 == (u as u8) ^ ((u >> 8u32) as u8) ^ ((u >> 16u32) as u8) ^ ((u
                >> 24u32) as u8)
            &&& intalu_spec(a, b, 32, dp4a) == acc
        }),
{
    let acc = intalu_folded(a, b, dp4a);
    let u = acc as u32;
    let r16 = ((acc as i16) as i32) ^ (((acc >> 16i32) as i16) as i32);
    assert(-32768 <= r16 <= 32767 && r16 as u16 == (u as u16) ^ ((u >> 16u32) as u16))
        by (bit_vector)
        requires
            u == acc as u32,
            r16 == ((acc as i16) as i32) ^ (((acc >> 16i32) as i16) as i32),
    ;
    let r8 = ((acc as i8) as i32) ^ (((acc >> 8i32) as i8) as i32) ^ (((acc >> 16i32) as i8) as i32)
        ^ (((acc >> 24i32) as i8) as i32);
    assert(-128 <= r8 <= 127 && r8 as u8 == (u as u8) ^ ((u >> 8u32) as u8) ^ ((u >> 16u32) as u8)
        ^ ((u >> 24u32) as u8)) by (bit_vector)
        requires
            u == acc as u32,
            r8 == ((acc as i8) as i32) ^ (((acc >> 8i32) as i8) as i32) ^ (((acc >> 16i32) as i8)
                as i32) ^ (((acc >> 24i32) as i8) as i32),
    ;
}

/// Scalar mirror of the INT8 4-way dot product `__dp4a(a, b, 0)`.
pub fn dp4a_ref(a: i32, b: i32) -> (r: i32)
    ensures
        r as int == dp4a_spec(a, b),
{
    let a0 = a as i8 as i32;
    let a1 = (a >> 8i32) as i8 as i32;
    let a2 = (a >> 16i32) as i8 as i32;
    let a3 = (a >> 24i32) as i8 as i32;
    let b0 = b as i8 as i32;
    let b1 = (b >> 8i32) as i8 as i32;
    let b2 = (b >> 16i32) as i8 as i32;
    let b3 = (b >> 24i32) as i8 as i32;
    assert(a >> 0i32 == a) by (bit_vector);
    assert(b >> 0i32 == b) by (bit_vector);
    assert(-128 * 128 <= a0 * b0 <= 128 * 128) by (nonlinear_arith)
        requires
            -128 <= a0 <= 127,
            -128 <= b0 <= 127,
    ;
    assert(-128 * 128 <= a1 * b1 <= 128 * 128) by (nonlinear_arith)
        requires
            -128 <= a1 <= 127,
            -128 <= b1 <= 127,
    ;
    assert(-128 * 128 <= a2 * b2 <= 128 * 128) by (nonlinear_arith)
        requires
            -128 <= a2 <= 127,
            -128 <= b2 <= 127,
    ;
    assert(-128 * 128 <= a3 * b3 <= 128 * 128) by (nonlinear_arith)
        requires
            -128 <= a3 <= 127,
            -128 <= b3 <= 127,
    ;
    let mut sum: i32 = 0;
    sum = sum + a0 * b0;
    sum = sum + a1 * b1;
    sum = sum + a2 * b2;
    sum = sum + a3 * b3;
    sum
}

/// The DP4A product is symmetric in its operands, is zero against zero,
/// and against a word of four ones it sums the signed bytes of the other.
pub proof fn lemma_dp4a_laws(a: i32, b: i32)
    ensures
        dp4a_spec(a, b) == dp4a_spec(b, a),
        dp4a_spec(a, 0) == 0,
        dp4a_spec(a, 0x01010101i32) == sbyte(a, 0) + sbyte(a, 1) + sbyte(a, 2) + sbyte(a, 3),
        -65536 <= dp4a_spec(a, b) <= 65536,
{
    let z = 0i32;
    let o = 0x01010101i32;
    assert((z >> 0i32) as i8 == 0 && (z >> 8i32) as i8 == 0 && (z >> 16i32) as i8 == 0 && (z >> 24i32) as i8 == 0) by (bit_vector)
        requires z == 0i32;
    assert((o >> 0i32) as i8 == 1 && (o >> 8i32) as i8 == 1 && (o >> 16i32) as i8 == 1 && (o >> 24i32) as i8 == 1) by (bit_vector)
        requires o == 0x01010101i32;
    assert(((8 * 0int) as i32) == 0i32 && ((8 * 1int) as i32) == 8i32 && ((8 * 2int) as i32) == 16i32
        && ((8 * 3int) as i32) == 24i32);
    assert(sbyte(0i32, 0) == 0 && sbyte(0i32, 1) == 0 && sbyte(0i32, 2) == 0 && sbyte(0i32, 3) == 0);
    assert(sbyte(o, 0) == 1 && sbyte(o, 1) == 1 && sbyte(o, 2) == 1 && sbyte(o, 3) == 1);
    assert(sbyte(a, 0) * sbyte(b, 0) == sbyte(b, 0) * sbyte(a, 0)) by (nonlinear_arith);
    assert(sbyte(a, 1) * sbyte(b, 1) == sbyte(b, 1) * sbyte(a, 1)) by (nonlinear_arith);
    assert(sbyte(a, 2) * sbyte(b, 2) == sbyte(b, 2) * sbyte(a, 2)) by (nonlinear_arith);
    assert(sbyte(a, 3) * sbyte(b, 3) == sbyte(b, 3) * sbyte(a, 3)) by (nonlinear_arith);
    assert forall|k: int| 0 <= k < 4 implies -16384 <= #[trigger] (sbyte(a, k) * sbyte(b, k)) <= 16384 by {
        let x = sbyte(a, k);
        let y = sbyte(b, k);
        assert(-128 <= x <= 127 && -128 <= y <= 127);
        assert(-16384 <= x * y <= 16384) by (nonlinear_arith)
            requires
                -128 <= x <= 127,
                -128 <= y <= 127,
        ;
    }
    assert(-16384 <= sbyte(a, 0) * sbyte(b, 0) <= 16384);
    assert(-16384 <= sbyte(a, 1) * sbyte(b, 1) <= 16384);
    assert(-16384 <= sbyte(a, 2) * sbyte(b, 2) <= 16384);
    assert(-16384 <= sbyte(a, 3) * sbyte(b, 3) <= 16384);
}

proof fn lemma_mad_chain_from_zero(b: i32, n: nat)
    ensures
        mad_chain(0, 0, b, n).0 == 0,
    decreases n,
{
    if n > 0 {
        lemma_mad_chain_from_zero(b, (n - 1) as nat);
        let b1 = mad_chain(0, 0, b, (n - 1) as nat).1;
        assert(wmul_i32(0, b1) == 0) by {
            assert(0 * b1 == 0);
        }
        assert(wadd_i32(0, 0) == 0);
    }
}

/// A zero element stays zero: with `a == 0` the multiply-add chain never
/// leaves zero, the DP4A product against zero is zero, and every narrowing
/// mode maps zero to zero, whatever the multiplier and the device.
pub proof fn lemma_intalu_zero_element(b: i32, mode: u32, dp4a: bool)
    ensures
        intalu_spec(0, b, mode, dp4a) == 0,
{
    lemma_mad_chain_from_zero(b, 32);
    let b32 = mad_chain(0, 0, b, 32).1;
    lemma_dp4a_laws(b32, 0);
    let z = 0i32;
    assert(z ^ z == 0i32) by (bit_vector)
        requires
            z == 0i32,
    ;
    assert(((z as i16) as i32) ^ (((z >> 16i32) as i16) as i32) == 0i32 && ((z as i8) as i32) ^ ((
    (z >> 8i32) as i8) as i32) ^ (((z >> 16i32) as i8) as i32) ^ (((z >> 24i32) as i8) as i32)
        == 0i32) by (bit_vector)
        requires
            z == 0i32,
    ;
}

/// Host-side IntAlu reference: bit-exact mirror of the integer ALU kernel
/// chain (`acc = acc * b + a`, LCG `b`, optional DP4A fold, mode
/// narrowing). `dp4a` must match the device's DP4A capability
/// (SM 6.1 and later).
pub fn intalu_ref_element(a: i32, b: i32, mode: u32, dp4a: bool) -> (r: i32)
    ensures
        r == intalu_spec(a, b, mode, dp4a),
{
    let mut acc = a;
    let mut bb = b;
    let mut n: u32 = 0;
    while n < 32
        invariant
            n <= 32,
            (acc, bb) == mad_chain(a, a, b, n as nat),
        decreases 32 - n,
    {
        acc = acc.wrapping_mul(bb).wrapping_add(a);
        bb = bb.wrapping_mul(1664525).wrapping_add(1013904223);
        n = n + 1;
    }
    if dp4a {
        acc = acc ^ dp4a_ref(a, bb);
    }
    if mode == 16 {
        (acc as i16 as i32) ^ ((acc >> 16i32) as i16 as i32)
    } else if mode == 8 {
        let b0 = (acc as i8) as i32;
        let b1 = ((acc >> 8i32) as i8) as i32;
        let b2 = ((acc >> 16i32) as i8) as i32;
        let b3 = ((acc >> 24i32) as i8) as i32;
        b0 ^ b1 ^ b2 ^ b3
    } else {
        acc
    }
}

// ---------------------------------------------------------------------------
// Detector counters
// ---------------------------------------------------------------------------

/// Cumulative per-domain detector counters drained from the backend.
#[derive(Debug, Clone)]
pub struct DetectorStats {
    pub ops_checked: u64,
    /// Pattern-compare words + sampled dot products + gathered IntAlu outputs.
    pub elements_checked: u64,
    pub total_errors: u64,
    pub mismatches: u64,
    pub nonfinite: u64,
    pub first_error: Option<String>,
    /// Faults by lowest differing bit position.
    pub bit_hist: [u32; 32],
    /// Checks that reported at least one fault.
    pub fault_events: u64,
}

/// Mathematical content of a [`DetectorStats`].
pub struct DetectorView {
    pub ops_checked: int,
    pub elements_checked: int,
    pub total_errors: int,
    pub mismatches: int,
    pub nonfinite: int,
    pub first_error: Option<Seq<char>>,
    pub bit_hist: Seq<int>,
    pub fault_events: int,
}

pub open spec fn opt_string_view(o: Option<String>) -> Option<Seq<char>> {
    match o {
        Some(s) => Some(s@),
        None => None,
    }
}

impl View for DetectorStats {
    type V = DetectorView;

    open spec fn view(&self) -> DetectorView {
        DetectorView {
            ops_checked: self.ops_checked as int,
            elements_checked: self.elements_checked as int,
            total_errors: self.total_errors as int,
            mismatches: self.mismatches as int,
            nonfinite: self.nonfinite as int,
            first_error: opt_string_view(self.first_error),
            bit_hist: self.bit_hist@.map_values(|x: u32| x as int),
            fault_events: self.fault_events as int,
        }
    }
}

/// Counters of `a` and `b` added; the first error of `a` when it has one,
/// otherwise that of `b`.
pub open spec fn merge_view(a: DetectorView, b: DetectorView) -> DetectorView {
    DetectorView {
        ops_checked: a.ops_checked + b.ops_checked,
        elements_checked: a.elements_checked + b.elements_checked,
        total_errors: a.total_errors + b.total_errors,
        mismatches: a.mismatches + b.mismatches,
        nonfinite: a.nonfinite + b.nonfinite,
        first_error: if a.first_error is Some {
            a.first_error
        } else {
            b.first_error
        },
        bit_hist: Seq::new(32, |k: int| a.bit_hist[k] + b.bit_hist[k]),
        fault_events: a.fault_events + b.fault_events,
    }
}

/// The view of empty counters.
pub open spec fn zero_view() -> DetectorView {
    DetectorView {
        ops_checked: 0,
        elements_checked: 0,
        total_errors: 0,
        mismatches: 0,
        nonfinite: 0,
        first_error: None,
        bit_hist: Seq::new(32, |k: int| 0),
        fault_events: 0,
    }
}

/// Whether adding `b` to `a` keeps every counter within its width.
pub open spec fn merge_fits(a: DetectorStats, b: DetectorStats) -> bool {
    &&& a.ops_checked + b.ops_checked <= u64::MAX
    &&& a.elements_checked + b.elements_checked <= u64::MAX
    &&& a.total_errors + b.total_errors <= u64::MAX
    &&& a.mismatches + b.mismatches <= u64::MAX
    &&& a.nonfinite + b.nonfinite <= u64::MAX
    &&& a.fault_events + b.fault_events <= u64::MAX
    &&& forall|k: int| 0 <= k < 32 ==> a.bit_hist@[k] + b.bit_hist@[k] <= u32::MAX
}

impl Default for DetectorStats {
    fn default() -> (r: Self)
        ensures
            r@ == zero_view(),
    {
        let r = DetectorStats {
            ops_checked: 0,
            elements_checked: 0,
            total_errors: 0,
            mismatches: 0,
            nonfinite: 0,
            first_error: None,
            bit_hist: [0u32; 32],
            fault_events: 0,
        };
        assert(r@.bit_hist =~= zero_view().bit_hist);
        r
    }
}

impl DetectorStats {
    /// Adds `other`'s counters into `self`. The first error recorded sticks:
    /// `other`'s is taken only when `self` has none.
    pub fn merge(&mut self, other: &DetectorStats)
        requires
            merge_fits(*old(self), *other),
        ensures
            final(self)@ == merge_view(old(self)@, other@),
    {
        self.ops_checked = self.ops_checked + other.ops_checked;
        self.elements_checked = self.elements_checked + other.elements_checked;
        self.total_errors = self.total_errors + other.total_errors;
        self.mismatches = self.mismatches + other.mismatches;
        self.nonfinite = self.nonfinite + other.nonfinite;
        self.fault_events = self.fault_events + other.fault_events;
        if self.first_error.is_none() {
            self.first_error = match &other.first_error {
                Some(e) => Some(e.clone()),
                None => None,
            };
        }
        let mut hist: [u32; 32] = self.bit_hist;
        let ghost h0 = hist@;
        let mut k: usize = 0;
        while k < 32
            invariant
                k <= 32,
                hist@.len() == 32,
                h0.len() == 32,
                other.bit_hist@.len() == 32,
                forall|j: int| 0 <= j < 32 ==> h0[j] + other.bit_hist@[j] <= u32::MAX,
                forall|j: int| 0 <= j < k ==> hist@[j] == h0[j] + other.bit_hist@[j],
                forall|j: int| k <= j < 32 ==> hist@[j] == h0[j],
            decreases 32 - k,
        {
            assert(hist@[k as int] == h0[k as int]);
            assert(h0[k as int] + other.bit_hist@[k as int] <= u32::MAX);
            let v = hist[k] + other.bit_hist[k];
            hist[k] = v;
            k = k + 1;
        }
        self.bit_hist = hist;
        assert(self@.bit_hist =~= merge_view(old(self)@, other@).bit_hist);
    }
}

/// Merging is associative: folding the detector drains in any grouping
/// gives the same totals and the same first error.
pub proof fn lemma_merge_associative(a: DetectorView, b: DetectorView, c: DetectorView)
    requires
        a.bit_hist.len() == 32,
        b.bit_hist.len() == 32,
        c.bit_hist.len() == 32,
    ensures
        merge_view(merge_view(a, b), c) == merge_view(a, merge_view(b, c)),
{
    assert(merge_view(merge_view(a, b), c).bit_hist =~= merge_view(a, merge_view(b, c)).bit_hist);
}

/// Empty counters are the identity of merging, on either side.
pub proof fn lemma_merge_identity(a: DetectorView)
    requires
        a.bit_hist.len() == 32,
    ensures
        merge_view(zero_view(), a) == a,
        merge_view(a, zero_view()) == a,
{
    assert(merge_view(zero_view(), a).bit_hist =~= a.bit_hist);
    assert(merge_view(a, zero_view()).bit_hist =~= a.bit_hist);
}

/// Merging adds every counter and every histogram bucket, and keeps the
/// first error: `self`'s when it has one, else `other`'s; this is what
/// [`DetectorStats::merge`] leaves in `self` whenever the sums fit their
/// widths.
pub proof fn lemma_merge_adds_counters(a: DetectorStats, b: DetectorStats)
    requires
        merge_fits(a, b),
    ensures
        merge_view(a@, b@).ops_checked == a.ops_checked + b.ops_checked,
        merge_view(a@, b@).elements_checked == a.elements_checked + b.elements_checked,
        merge_view(a@, b@).total_errors == a.total_errors + b.total_errors,
        merge_view(a@, b@).mismatches == a.mismatches + b.mismatches,
        merge_view(a@, b@).nonfinite == a.nonfinite + b.nonfinite,
        merge_view(a@, b@).fault_events == a.fault_events + b.fault_events,
        forall|k: int|
            0 <= k < 32 ==> #[trigger] merge_view(a@, b@).bit_hist[k] == a.bit_hist@[k]
                + b.bit_hist@[k],
        merge_view(a@, b@).first_error == (if a.first_error is Some {
            opt_string_view(a.first_error)
        } else {
            opt_string_view(b.first_error)
        }),
{
}

/// Merging in empty counters always fits and changes nothing.
pub proof fn lemma_merge_empty_is_noop(a: DetectorStats, z: DetectorStats)
    requires
        z@ == zero_view(),
    ensures
        merge_fits(a, z),
        merge_view(a@, z@) == a@,
{
    assert forall|k: int| 0 <= k < 32 implies a.bit_hist@[k] + z.bit_hist@[k] <= u32::MAX by {
        assert(z@.bit_hist[k] == 0);
    }
    lemma_merge_identity(a@);
}

/// Once a first error is recorded, no later merge replaces it.
pub proof fn lemma_first_error_sticks(a: DetectorView, b: DetectorView)
    requires
        a.first_error is Some,
    ensures
        merge_view(a, b).first_error == a.first_error,
{
}

// ---------------------------------------------------------------------------
// Self-test and verdict
// ---------------------------------------------------------------------------

/// One injection self-test gate outcome.
#[derive(Debug, Clone)]
pub struct SelfTestCheck {
    pub name: String,
    pub passed: bool,
    pub detail: String,
}

/// Outcome of the injection self-test gates.
#[derive(Debug, Clone)]
pub struct SelfTestReport {
    pub passed: bool,
    pub checks: Vec<SelfTestCheck>,
}

/// Failure classes for the verdict.
#[derive(Debug, Clone, Copy, PartialEq, Eq, Structural)]
pub enum VerdictClass {
    NoError,
    DataError,
    MemoryError,
    ApiError,
    SelfTestFailed,
}

impl VerdictClass {
    /// The snake-case label of the class, as it appears in the verdict.
    pub open spec fn label(self) -> Seq<char> {
        match self {
            VerdictClass::NoError => seq!['n', 'o', 'n', 'e'],
            VerdictClass::DataError => seq!['d', 'a', 't', 'a', '_', 'e', 'r', 'r', 'o', 'r'],
            VerdictClass::MemoryError => seq![
                'm',
                'e',
                'm',
                'o',
                'r',
                'y',
                '_',
                'e',
                'r',
                'r',
                'o',
                'r',
            ],
            VerdictClass::ApiError => seq!['a', 'p', 'i', '_', 'e', 'r', 'r', 'o', 'r'],
            VerdictClass::SelfTestFailed => seq![
                's',
                'e',
                'l',
                'f',
                '_',
                't',
                'e',
                's',
                't',
                '_',
                'f',
                'a',
                'i',
                'l',
                'e',
                'd',
            ],
        }
    }

    /// The snake-case label of the class.
    pub fn as_str(&self) -> (s: &'static str)
        ensures
            s@ == self.label(),
    {
        match self {
            VerdictClass::NoError => {
                let s = "none";
                proof {
                    reveal_strlit("none");
                }
                assert(s@ =~= self.label());
                s
            },
            VerdictClass::DataError => {
                let s = "data_error";
                proof {
                    reveal_strlit("data_error");
                }
                assert(s@ =~= self.label());
                s
            },
            VerdictClass::MemoryError => {
                let s = "memory_error";
                proof {
                    reveal_strlit("memory_error");
                }
                assert(s@ =~= self.label());
                s
            },
            VerdictClass::ApiError => {
                let s = "api_error";
                proof {
                    reveal_strlit("api_error");
                }
                assert(s@ =~= self.label());
                s
            },
            VerdictClass::SelfTestFailed => {
                let s = "self_test_failed";
                proof {
                    reveal_strlit("self_test_failed");
                }
                assert(s@ =~= self.label());
                s
            },
        }
    }
}

/// Verdict class of a run: a failed self-test dominates, then runtime (API)
/// errors, then detector (memory) errors, then validation (data) errors.
pub open spec fn classify_spec(
    self_test_passed: bool,
    validation_failures: u64,
    detector_errors: u64,
    runtime_errors: u64,
) -> VerdictClass {
    if !self_test_passed {
        VerdictClass::SelfTestFailed
    } else if runtime_errors > 0 {
        VerdictClass::ApiError
    } else if detector_errors > 0 {
        VerdictClass::MemoryError
    } else if validation_failures > 0 {
        VerdictClass::DataError
    } else {
        VerdictClass::NoError
    }
}

/// Classify a stress run for the verdict from its failure signals.
pub fn classify(
    self_test_passed: bool,
    validation_failures: u64,
    detector_errors: u64,
    runtime_errors: u64,
) -> (r: VerdictClass)
    ensures
        r == classify_spec(self_test_passed, validation_failures, detector_errors, runtime_errors),
{
    if !self_test_passed {
        return VerdictClass::SelfTestFailed;
    }
    if runtime_errors > 0 {
        return VerdictClass::ApiError;
    }
    if detector_errors > 0 {
        return VerdictClass::MemoryError;
    }
    if validation_failures > 0 {
        return VerdictClass::DataError;
    }
    VerdictClass::NoError
}

/// The verdict is `None` exactly when the self-test passed and no failure
/// signal of any kind was raised.
pub proof fn lemma_clean_run_iff_none(st: bool, v: u64, d: u64, r: u64)
    ensures
        (classify_spec(st, v, d, r) == VerdictClass::NoError) <==> (st && v == 0 && d == 0 && r
            == 0),
{
}

/// The verdict names the most serious failure signal and ignores the less
/// serious ones: a failed self-test outranks runtime (API) errors, which
/// outrank detector (memory) errors, which outrank validation (data)
/// failures; each class is given exactly when its signal is raised and no
/// more serious one is.
pub proof fn lemma_verdict_precedence(st: bool, v: u64, d: u64, r: u64, v2: u64, d2: u64, r2: u64)
    ensures
        !st ==> classify_spec(st, v, d, r) == classify_spec(st, v2, d2, r2),
        st && r > 0 && r2 > 0 ==> classify_spec(st, v, d, r) == classify_spec(st, v2, d2, r2),
        st && r == 0 && d > 0 && d2 > 0 ==> classify_spec(st, v, d, r) == classify_spec(st, v2, d2, 0),
        (classify_spec(st, v, d, r) == VerdictClass::SelfTestFailed) == !st,
        (classify_spec(st, v, d, r) == VerdictClass::ApiError) == (st && r > 0),
        (classify_spec(st, v, d, r) == VerdictClass::MemoryError) == (st && r == 0 && d > 0),
        (classify_spec(st, v, d, r) == VerdictClass::DataError) == (st && r == 0 && d == 0 && v > 0),
{
}

// ---------------------------------------------------------------------------
// GEMM output statistics
// ---------------------------------------------------------------------------

/// Reduction counters for one GEMM output scan; the absolute sum is kept as
/// the bit pattern of its single-precision value.
#[derive(Debug, Clone, Copy, PartialEq, Eq, Structural)]
pub struct GemmStats {
    pub nonfinite: u32,
    pub zero: u32,
    pub abs_sum_bits: u32,
    pub done: u32,
}

impl GemmStats {
    /// Zero counters and a zero sum.
    pub fn init() -> (r: Self)
        ensures
            r == (GemmStats { nonfinite: 0, zero: 0, abs_sum_bits: 0, done: 0 }),
    {
        GemmStats { nonfinite: 0, zero: 0, abs_sum_bits: 0, done: 0 }
    }
}

// ---------------------------------------------------------------------------
// Detector bookkeeping
// ---------------------------------------------------------------------------

/// `bitN=count` for the histogram entries below `n` that are not zero.
pub open spec fn hist_parts(h: Seq<u32>, n: nat) -> Seq<Seq<char>>
    decreases n,
{
    if n == 0 {
        Seq::empty()
    } else {
        hist_parts(h, (n - 1) as nat) + if h[n - 1] > 0 {
            seq!["bit"@ + decimal((n - 1) as nat) + "="@ + decimal(h[n - 1] as nat)]
        } else {
            Seq::empty()
        }
    }
}

/// The faulting bit positions of a report: `bitN=count,...`, or `none`.
pub open spec fn bits_text(h: Seq<u32>) -> Seq<char> {
    let p = hist_parts(h, 32);
    if p.len() == 0 {
        "none"@
    } else {
        join(p, ","@)
    }
}

/// The failure a pattern-compare report shows, if any: a completion counter
/// that is not the expected one, or wrong words.
pub open spec fn pattern_failure_spec(r: VerifyReport, expected_done: u32, label: Seq<char>) -> Option<
    Seq<char>,
> {
    if r.done != expected_done {
        Some(
            label + ": report completion counter mismatch (done="@ + decimal(r.done as nat)
                + ", expected="@ + decimal(expected_done as nat) + ")"@,
        )
    } else if r.total_errors > 0 {
        Some(
            label + ": "@ + decimal(r.total_errors as nat) + " wrong words (idx "@ + decimal(
                r.idx_min as nat,
            ) + ".."@ + decimal(r.idx_max as nat) + ", exp=0x"@ + hex_upper_padded(
                r.first_exp as nat,
                8,
            ) + " act=0x"@ + hex_upper_padded(r.first_act as nat, 8) + ", bits: "@ + bits_text(
                r.bit_hist@,
            ) + ")"@,
        )
    } else {
        None
    }
}

fn bits_chars(h: &[u32; 32]) -> (out: Vec<char>)
    ensures
        out@ == bits_text(h@),
{
    let mut parts: Vec<Vec<char>> = Vec::new();
    let mut i: usize = 0;
    while i < 32
        invariant
            i <= 32,
            h@.len() == 32,
            pieces_view(parts@) == hist_parts(h@, i as nat),
        decreases 32 - i,
    {
        let ghost before = pieces_view(parts@);
        if h[i] > 0 {
            let a = chars_of("bit");
            let b = decimal_chars(i as u64);
            let c = chars_of("=");
            let d = decimal_chars(h[i] as u64);
            let ab = concat(a.as_slice(), b.as_slice());
            let abc = concat(ab.as_slice(), c.as_slice());
            let part = concat(abc.as_slice(), d.as_slice());
            parts.push(part);
            assert(pieces_view(parts@) =~= before + seq![
                "bit"@ + decimal(i as nat) + "="@ + decimal(h@[i as int] as nat),
            ]);
        } else {
            assert(pieces_view(parts@) =~= before + Seq::<Seq<char>>::empty());
        }
        i = i + 1;
    }
    if parts.len() == 0 {
        chars_of("none")
    } else {
        join_chars(&parts, ",")
    }
}

fn cat(a: Vec<char>, lit: &str, b: Vec<char>) -> (out: Vec<char>)
    ensures
        out@ == a@ + lit@ + b@,
{
    let l = chars_of(lit);
    let al = concat(a.as_slice(), l.as_slice());
    concat(al.as_slice(), b.as_slice())
}

fn pattern_failure(r: &VerifyReport, expected_done: u32, label: &str) -> (m: Option<String>)
    ensures
        match m {
            Some(s) => pattern_failure_spec(*r, expected_done, label@) == Some(s@),
            None => pattern_failure_spec(*r, expected_done, label@) is None,
        },
{
    let l = chars_of(label);
    if r.done != expected_done {
        let a = cat(l, ": report completion counter mismatch (done=", decimal_chars(r.done as u64));
        let b = cat(a, ", expected=", decimal_chars(expected_done as u64));
        let c = cat(b, ")", Vec::new());
        assert(c@ =~= pattern_failure_spec(*r, expected_done, label@).unwrap());
        return Some(string_from_chars(c.as_slice()));
    }
    if r.total_errors > 0 {
        let a = cat(l, ": ", decimal_chars(r.total_errors as u64));
        let b = cat(a, " wrong words (idx ", decimal_chars(r.idx_min as u64));
        let c = cat(b, "..", decimal_chars(r.idx_max as u64));
        let d = cat(c, ", exp=0x", hex_upper_padded_chars(r.first_exp as u64, 8));
        let e = cat(d, " act=0x", hex_upper_padded_chars(r.first_act as u64, 8));
        let f = cat(e, ", bits: ", bits_chars(&r.bit_hist));
        let g = cat(f, ")", Vec::new());
        assert(g@ =~= pattern_failure_spec(*r, expected_done, label@).unwrap());
        return Some(string_from_chars(g.as_slice()));
    }
    None
}

/// The host side of the detectors: counters drained from the verify
/// kernels and the first failure seen since the last drain.
#[derive(Debug, Clone)]
pub struct DetectorState {
    pub drained: DetectorStats,
    pub failure: Option<String>,
}

/// The first failure of a state, by its text.
pub open spec fn failure_view(s: DetectorState) -> Option<Seq<char>> {
    opt_string_view(s.failure)
}

impl DetectorState {
    /// A state with empty counters and no failure.
    pub fn new() -> (s: Self)
        ensures
            s.drained@ == zero_view(),
            s.failure is None,
    {
        DetectorState { drained: DetectorStats::default(), failure: None }
    }

    /// Records a failure; only the first one since the last drain sticks,
    /// and it also becomes the counters' first error.
    pub fn set_failure(&mut self, msg: String)
        ensures
            old(self).failure is None ==> failure_view(*final(self)) == Some(msg@)
                && final(self).drained@ == (DetectorView {
                first_error: Some(msg@),
                ..old(self).drained@
            }),
            old(self).failure is Some ==> *final(self) == *old(self),
    {
        if self.failure.is_none() {
            let copy = string_from_chars(chars_of(msg.as_str()).as_slice());
            self.drained.first_error = Some(copy);
            self.failure = Some(msg);
        }
    }

    /// Takes in one pattern-compare report over `n_words` words: counts the
    /// check and its words, and records the failure the report shows.
    pub fn absorb_pattern(&mut self, report: &VerifyReport, n_words: u64, expected_done: u32, label: &str)
        requires
            old(self).drained.ops_checked < u64::MAX,
            old(self).drained.elements_checked + n_words <= u64::MAX,
        ensures
            final(self).drained.ops_checked == old(self).drained.ops_checked + 1,
            final(self).drained.elements_checked == old(self).drained.elements_checked + n_words,
            final(self).drained@.total_errors == old(self).drained@.total_errors,
            final(self).drained@.mismatches == old(self).drained@.mismatches,
            final(self).drained@.nonfinite == old(self).drained@.nonfinite,
            final(self).drained@.bit_hist == old(self).drained@.bit_hist,
            final(self).drained@.fault_events == old(self).drained@.fault_events,
            ({
                let f = pattern_failure_spec(*report, expected_done, label@);
                if old(self).failure is None && f is Some {
                    failure_view(*final(self)) == f && final(self).drained@.first_error == f
                } else {
                    failure_view(*final(self)) == failure_view(*old(self))
                        && final(self).drained@.first_error == old(self).drained@.first_error
                }
            }),
    {
        self.drained.ops_checked = self.drained.ops_checked + 1;
        self.drained.elements_checked = self.drained.elements_checked + n_words;
        match pattern_failure(report, expected_done, label) {
            Some(m) => self.set_failure(m),
            None => {},
        }
    }

    /// Takes in one IntAlu sampled compare: counts the check, its samples
    /// and mismatches, and records `detail` as a failure when given.
    pub fn absorb_intalu(&mut self, checked: u64, mismatches: u64, detail: Option<String>)
        requires
            old(self).drained.ops_checked < u64::MAX,
            old(self).drained.elements_checked + checked <= u64::MAX,
            old(self).drained.mismatches + mismatches <= u64::MAX,
        ensures
            final(self).drained.ops_checked == old(self).drained.ops_checked + 1,
            final(self).drained.elements_checked == old(self).drained.elements_checked + checked,
            final(self).drained.mismatches == old(self).drained.mismatches + mismatches,
            final(self).drained@.total_errors == old(self).drained@.total_errors,
            final(self).drained@.nonfinite == old(self).drained@.nonfinite,
            final(self).drained@.bit_hist == old(self).drained@.bit_hist,
            final(self).drained@.fault_events == old(self).drained@.fault_events,
            ({
                let f = opt_string_view(detail);
                if old(self).failure is None && f is Some {
                    failure_view(*final(self)) == f && final(self).drained@.first_error == f
                } else {
                    failure_view(*final(self)) == failure_view(*old(self))
                        && final(self).drained@.first_error == old(self).drained@.first_error
                }
            }),
    {
        self.drained.ops_checked = self.drained.ops_checked + 1;
        self.drained.elements_checked = self.drained.elements_checked + checked;
        self.drained.mismatches = self.drained.mismatches + mismatches;
        match detail {
            Some(m) => self.set_failure(m),
            None => {},
        }
    }

    /// Hands out the counters gathered since the last drain and starts
    /// afresh: empty counters, no failure.
    pub fn drain(&mut self) -> (taken: DetectorStats)
        ensures
            taken == old(self).drained,
            final(self).drained@ == zero_view(),
            final(self).failure is None,
    {
        self.failure = None;
        let mut taken = DetectorStats::default();
        std::mem::swap(&mut self.drained, &mut taken);
        taken
    }
}

// ---------------------------------------------------------------------------
// Self-test gates
// ---------------------------------------------------------------------------

/// The clean-pattern gate: no error and the expected completion count.
pub fn pattern_clean_check(report: &VerifyReport, compare_done: u32) -> (c: SelfTestCheck)
    ensures
        c.name@ == "pattern_clean"@,
        c.passed == (report.total_errors == 0 && report.done == compare_done),
        c.detail@ == "total_errors="@ + decimal(report.total_errors as nat) + ", done="@ + decimal(
            report.done as nat,
        ) + " (expected "@ + decimal(compare_done as nat) + ")"@,
{
    let a = cat(chars_of("total_errors="), "", decimal_chars(report.total_errors as u64));
    let b = cat(a, ", done=", decimal_chars(report.done as u64));
    let d = cat(b, " (expected ", decimal_chars(compare_done as u64));
    let e = cat(d, ")", Vec::new());
    proof {
        reveal_strlit("");
    }
    assert(e@ =~= "total_errors="@ + decimal(report.total_errors as nat) + ", done="@ + decimal(
        report.done as nat,
    ) + " (expected "@ + decimal(compare_done as nat) + ")"@);
    SelfTestCheck {
        name: string_of("pattern_clean"),
        passed: report.total_errors == 0 && report.done == compare_done,
        detail: string_from_chars(e.as_slice()),
    }
}

/// Whether the histogram counts exactly one fault, at bit `b`.
pub open spec fn hist_only(h: Seq<u32>, b: int) -> bool {
    forall|k: int| 0 <= k < 32 ==> h[k] == if k == b {
        1u32
    } else {
        0u32
    }
}

/// The injection gate: exactly the one injected error, at the injection
/// index and bit.
pub open spec fn injection_passed(r: VerifyReport) -> bool {
    &&& r.total_errors == 1
    &&& r.idx_min == VerifyReport::SELF_TEST_IDX
    &&& r.idx_max == VerifyReport::SELF_TEST_IDX
    &&& r.first_exp ^ r.first_act == 0x0040_0000u32
    &&& hist_only(r.bit_hist@, 22)
}

/// The injection gate's verdict and account.
pub fn injection_check(report: &VerifyReport) -> (c: SelfTestCheck)
    ensures
        c.name@ == "injection_capture"@,
        c.passed == injection_passed(*report),
        c.detail@ == "total_errors="@ + decimal(report.total_errors as nat) + ", idx="@ + decimal(
            report.idx_min as nat,
        ) + ".."@ + decimal(report.idx_max as nat) + " (want 44474..44474), xor=0x"@
            + hex_upper_padded((report.first_exp ^ report.first_act) as nat, 8)
            + " (want 0x00400000), bit_hist[22]="@ + decimal(report.bit_hist@[22] as nat),
{
    let want_idx = VerifyReport::SELF_TEST_IDX;
    let mut clean = true;
    let mut k: usize = 0;
    while k < 32
        invariant
            k <= 32,
            report.bit_hist@.len() == 32,
            clean == forall|j: int| 0 <= j < k ==> report.bit_hist@[j] == if j == 22 {
                1u32
            } else {
                0u32
            },
        decreases 32 - k,
    {
        let want: u32 = if k == 22 {
            1
        } else {
            0
        };
        if report.bit_hist[k] != want {
            clean = false;
        }
        k = k + 1;
    }
    let xor = report.first_exp ^ report.first_act;
    let passed = report.total_errors == 1 && report.idx_min == want_idx && report.idx_max
        == want_idx && xor == 0x0040_0000u32 && clean;
    let a = cat(chars_of("total_errors="), "", decimal_chars(report.total_errors as u64));
    let b = cat(a, ", idx=", decimal_chars(report.idx_min as u64));
    let c = cat(b, "..", decimal_chars(report.idx_max as u64));
    let d = cat(c, " (want 44474..44474), xor=0x", hex_upper_padded_chars(xor as u64, 8));
    let e = cat(d, " (want 0x00400000), bit_hist[22]=", decimal_chars(report.bit_hist[22] as u64));
    proof {
        reveal_strlit("");
    }
    assert(e@ =~= "total_errors="@ + decimal(report.total_errors as nat) + ", idx="@ + decimal(
        report.idx_min as nat,
    ) + ".."@ + decimal(report.idx_max as nat) + " (want 44474..44474), xor=0x"@
        + hex_upper_padded((report.first_exp ^ report.first_act) as nat, 8)
        + " (want 0x00400000), bit_hist[22]="@ + decimal(report.bit_hist@[22] as nat));
    SelfTestCheck {
        name: string_of("injection_capture"),
        passed,
        detail: string_from_chars(e.as_slice()),
    }
}

/// A gate whose kernels failed to run.
pub fn kernel_error_check(name: &str, error: &str) -> (c: SelfTestCheck)
    ensures
        c.name@ == name@,
        !c.passed,
        c.detail@ == "kernel error: "@ + error@,
{
    let e = chars_of(error);
    SelfTestCheck {
        name: string_of(name),
        passed: false,
        detail: message("kernel error: ", e.as_slice()),
    }
}

/// The self-test outcome: passed when every gate passed.
pub fn self_test_report(checks: Vec<SelfTestCheck>) -> (r: SelfTestReport)
    ensures
        r.passed == forall|i: int| 0 <= i < checks@.len() ==> (#[trigger] checks@[i]).passed,
        r.checks@ == checks@,
{
    let mut passed = true;
    let mut i: usize = 0;
    while i < checks.len()
        invariant
            i <= checks@.len(),
            passed == forall|j: int| 0 <= j < i ==> (#[trigger] checks@[j]).passed,
        decreases checks@.len() - i,
    {
        if !checks[i].passed {
            passed = false;
        }
        i = i + 1;
    }
    SelfTestReport { passed, checks }
}

} // verus!
