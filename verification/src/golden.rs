//! Golden result files: the raw little-endian words of a result matrix, and
//! the bit-level comparison of a run's output against them.
use vstd::prelude::*;

use crate::text::{chars_of, concat, decimal, decimal_chars, string_from_chars};

verus! {

/// Outcome of comparing a result with its golden copy.
#[derive(Debug, Clone, Copy, PartialEq, Eq, Structural)]
pub enum ResultType {
    Pass,
    Sdc,
    RuntimeError,
}

/// Byte `k` (0 = least significant) of a 32-bit word.
pub open spec fn word_byte(w: u32, k: int) -> u8 {
    ((w as int / pow256(k)) % 256) as u8
}

pub open spec fn pow256(k: int) -> int {
    if k <= 0 {
        1
    } else if k == 1 {
        256
    } else if k == 2 {
        65536
    } else {
        16777216
    }
}

/// The bytes of a golden file for `words`: each word little-endian, in order.
pub open spec fn golden_bytes_spec(words: Seq<u32>) -> Seq<u8> {
    Seq::new(4 * words.len(), |j: int| word_byte(words[j / 4], j % 4))
}

/// The word stored little-endian at bytes `4 * i .. 4 * i + 4`.
pub open spec fn le_word(raw: Seq<u8>, i: int) -> u32 {
    (raw[4 * i] + 256 * raw[4 * i + 1] + 65536 * raw[4 * i + 2] + 16777216 * raw[4 * i + 3]) as u32
}

/// The message for a golden file of the wrong size.
pub open spec fn golden_size_message(path: Seq<char>, got: nat, n: nat) -> Seq<char> {
    "golden file "@ + path + " has "@ + decimal(got) + " bytes, expected "@ + decimal(n * n * 4)
        + " (N="@ + decimal(n) + ")"@
}

/// What reading a golden file of `raw` bytes for an `n`×`n` matrix gives.
pub open spec fn parse_golden_spec(raw: Seq<u8>, n: nat, path: Seq<char>) -> Result<
    Seq<u32>,
    Seq<char>,
> {
    if raw.len() != n * n * 4 {
        Err(golden_size_message(path, raw.len(), n))
    } else {
        Ok(Seq::new(raw.len() / 4, |i: int| le_word(raw, i)))
    }
}

proof fn lemma_word_bytes(w: u32)
    ensures
        (w & 0xff) as u8 == word_byte(w, 0),
        ((w >> 8u32) & 0xff) as u8 == word_byte(w, 1),
        ((w >> 16u32) & 0xff) as u8 == word_byte(w, 2),
        ((w >> 24u32) & 0xff) as u8 == word_byte(w, 3),
        word_byte(w, 0) + 256 * word_byte(w, 1) + 65536 * word_byte(w, 2) + 16777216 * word_byte(
            w,
            3,
        ) == w,
{
    assert((w & 0xff) == w % 256) by (bit_vector);
    assert(((w >> 8u32) & 0xff) == (w / 256) % 256) by (bit_vector);
    assert(((w >> 16u32) & 0xff) == (w / 65536) % 256) by (bit_vector);
    assert(((w >> 24u32) & 0xff) == (w / 16777216) % 256) by (bit_vector);
    assert(w % 256 + 256 * ((w / 256) % 256) + 65536 * ((w / 65536) % 256) + 16777216 * ((w
        / 16777216) % 256) == w) by (bit_vector);
}

proof fn lemma_le_word_bits(b0: u8, b1: u8, b2: u8, b3: u8)
    ensures
        (b0 as u32) | ((b1 as u32) << 8u32) | ((b2 as u32) << 16u32) | ((b3 as u32) << 24u32) == (b0
            + 256 * b1 + 65536 * b2 + 16777216 * b3) as u32,
{
    assert((b0 as u32) | ((b1 as u32) << 8u32) | ((b2 as u32) << 16u32) | ((b3 as u32) << 24u32)
        == (b0 + 256 * b1 + 65536 * b2 + 16777216 * b3) as u32) by (bit_vector);
}

/// The bytes to write to a golden file for `words`.
pub fn golden_bytes(words: &[u32]) -> (out: Vec<u8>)
    requires
        4 * words@.len() <= usize::MAX,
    ensures
        out@ == golden_bytes_spec(words@),
{
    let mut out: Vec<u8> = Vec::new();
    let mut i: usize = 0;
    while i < words.len()
        invariant
            i <= words@.len(),
            out@.len() == 4 * i,
            forall|j: int| 0 <= j < 4 * i ==> #[trigger] out@[j] == word_byte(words@[j / 4], j % 4),
        decreases words@.len() - i,
    {
        let w = words[i];
        proof {
            lemma_word_bytes(w);
        }
        out.push((w & 0xff) as u8);
        out.push(((w >> 8u32) & 0xff) as u8);
        out.push(((w >> 16u32) & 0xff) as u8);
        out.push(((w >> 24u32) & 0xff) as u8);
        assert forall|j: int| 0 <= j < 4 * (i + 1) implies #[trigger] out@[j] == word_byte(
            words@[j / 4],
            j % 4,
        ) by {
            if j >= 4 * i {
                assert(j / 4 == i as int);
            }
        }
        i = i + 1;
    }
    assert(out@ =~= golden_bytes_spec(words@));
    out
}

/// Reads the words of a golden file for an `n`×`n` result; `path` names the
/// file in the error.
pub fn parse_golden(raw: &[u8], n: usize, path: &str) -> (r: Result<Vec<u32>, String>)
    requires
        n * n * 4 <= usize::MAX,
    ensures
        match r {
            Ok(v) => parse_golden_spec(raw@, n as nat, path@) == Ok::<Seq<u32>, Seq<char>>(v@),
            Err(e) => parse_golden_spec(raw@, n as nat, path@) == Err::<Seq<u32>, Seq<char>>(e@),
        },
{
    assert(n * n <= n * n * 4) by (nonlinear_arith);
    let expected = n * n * 4;
    if raw.len() != expected {
        let mut m = chars_of("golden file ");
        m = concat(m.as_slice(), chars_of(path).as_slice());
        m = concat(m.as_slice(), chars_of(" has ").as_slice());
        m = concat(m.as_slice(), decimal_chars(raw.len() as u64).as_slice());
        m = concat(m.as_slice(), chars_of(" bytes, expected ").as_slice());
        m = concat(m.as_slice(), decimal_chars(expected as u64).as_slice());
        m = concat(m.as_slice(), chars_of(" (N=").as_slice());
        m = concat(m.as_slice(), decimal_chars(n as u64).as_slice());
        m = concat(m.as_slice(), chars_of(")").as_slice());
        return Err(string_from_chars(m.as_slice()));
    }
    let count = raw.len() / 4;
    let mut out: Vec<u32> = Vec::new();
    let mut i: usize = 0;
    while i < count
        invariant
            count == raw@.len() / 4,
            i <= count,
            out@.len() == i,
            forall|j: int| 0 <= j < i ==> #[trigger] out@[j] == le_word(raw@, j),
        decreases count - i,
    {
        assert(4 * i + 3 < raw@.len()) by (nonlinear_arith)
            requires
                i < count,
                count == raw@.len() / 4,
        ;
        assert(raw@.len() == raw.len());
        let b0 = raw[4 * i];
        let b1 = raw[4 * i + 1];
        let b2 = raw[4 * i + 2];
        let b3 = raw[4 * i + 3];
        proof {
            lemma_le_word_bits(b0, b1, b2, b3);
        }
        out.push((b0 as u32) | ((b1 as u32) << 8u32) | ((b2 as u32) << 16u32) | ((b3 as u32)
            << 24u32));
        i = i + 1;
    }
    assert(out@ =~= Seq::new(raw@.len() / 4, |j: int| le_word(raw@, j)));
    Ok(out)
}

/// Writing words to a golden file and reading the file back gives the same
/// words, for a matrix of matching size.
pub proof fn lemma_golden_round_trip(words: Seq<u32>, n: nat, path: Seq<char>)
    requires
        words.len() == n * n,
    ensures
        parse_golden_spec(golden_bytes_spec(words), n, path) == Ok::<Seq<u32>, Seq<char>>(words),
{
    let raw = golden_bytes_spec(words);
    assert forall|i: int| 0 <= i < words.len() implies #[trigger] le_word(raw, i) == words[i] by {
        lemma_word_bytes(words[i]);
        assert((4 * i) / 4 == i && (4 * i + 1) / 4 == i && (4 * i + 2) / 4 == i && (4 * i + 3) / 4
            == i);
        assert((4 * i) % 4 == 0 && (4 * i + 1) % 4 == 1 && (4 * i + 2) % 4 == 2 && (4 * i + 3) % 4
            == 3);
    }
    assert(Seq::new(raw.len() / 4, |i: int| le_word(raw, i)) =~= words);
}

/// Number of positions at which two results differ bit for bit.
pub open spec fn bit_mismatches(c: Seq<u32>, golden: Seq<u32>) -> nat
    decreases c.len(),
{
    if c.len() == 0 {
        0
    } else {
        bit_mismatches(c.drop_last(), golden.take(c.len() - 1)) + if c.last() != golden[c.len()
            - 1] {
            1nat
        } else {
            0nat
        }
    }
}

/// A result compared with itself has no mismatch; mismatches are counted
/// the same whichever side is the golden copy; and there are never more
/// mismatches than elements.
pub proof fn lemma_bit_mismatch_laws(c: Seq<u32>, g: Seq<u32>)
    requires
        c.len() == g.len(),
    ensures
        bit_mismatches(c, c) == 0,
        bit_mismatches(c, g) == bit_mismatches(g, c),
        bit_mismatches(c, g) <= c.len(),
        bit_mismatches(c, g) == 0 <==> c == g,
    decreases c.len(),
{
    if c.len() > 0 {
        let n = c.len() - 1;
        assert(c.take(n) =~= c.drop_last());
        assert(g.take(n) =~= g.drop_last());
        assert(c.drop_last().take(n) =~= c.drop_last());
        assert(g.drop_last().take(n) =~= g.drop_last());
        lemma_bit_mismatch_laws(c.drop_last(), g.drop_last());
        lemma_bit_mismatch_laws(c.drop_last(), c.drop_last());
        if bit_mismatches(c, g) == 0 {
            assert(c.drop_last() == g.drop_last());
            assert(c =~= g) by {
                assert forall|k: int| 0 <= k < c.len() implies c[k] == g[k] by {
                    if k < n {
                        assert(c[k] == c.drop_last()[k]);
                        assert(g[k] == g.drop_last()[k]);
                    }
                }
            }
        }
        if c == g {
            assert(c.drop_last() == g.drop_last());
        }
    } else {
        assert(c =~= g);
    }
}

/// Whether a result equals its golden copy bit for bit.
pub fn bits_identical(c: &[u32], golden: &[u32]) -> (b: bool)
    requires
        c@.len() == golden@.len(),
    ensures
        b == (c@ == golden@),
{
    let mut i: usize = 0;
    while i < c.len()
        invariant
            c@.len() == golden@.len(),
            i <= c@.len(),
            forall|j: int| 0 <= j < i ==> c@[j] == golden@[j],
        decreases c@.len() - i,
    {
        if c[i] != golden[i] {
            return false;
        }
        i = i + 1;
    }
    assert(c@ =~= golden@);
    true
}

/// The bit-level part of comparing a result with its golden copy: how many
/// elements differ, and whether that makes the run silently corrupted.
pub fn compare_bits(c: &[u32], golden: &[u32]) -> (r: (ResultType, usize))
    requires
        c@.len() == golden@.len(),
    ensures
        r.1 == bit_mismatches(c@, golden@),
        r.0 == (if r.1 > 0 {
            ResultType::Sdc
        } else {
            ResultType::Pass
        }),
{
    let mut hamming: usize = 0;
    let mut i: usize = 0;
    while i < c.len()
        invariant
            c@.len() == golden@.len(),
            i <= c@.len(),
            hamming == bit_mismatches(c@.take(i as int), golden@.take(i as int)),
            hamming <= i,
        decreases c@.len() - i,
    {
        proof {
            let ci = c@.take(i as int + 1);
            assert(ci.drop_last() =~= c@.take(i as int));
            assert(golden@.take(i as int + 1).take(i as int) =~= golden@.take(i as int));
        }
        if c[i] != golden[i] {
            hamming = hamming + 1;
        }
        i = i + 1;
    }
    assert(c@.take(c@.len() as int) =~= c@);
    assert(golden@.take(golden@.len() as int) =~= golden@);
    let result_type = if hamming > 0 {
        ResultType::Sdc
    } else {
        ResultType::Pass
    };
    (result_type, hamming)
}

} // verus!
