//! VBIOS BIT-table parser: extracts structure from a raw NVIDIA VBIOS image.
//!
//! - The BIT header is located by scanning for the ASCII signature "BIT".
//! - BIT header: `"BIT"` + u8 version + u16 header size, then a few bytes of
//!   generation-specific metadata, then the token table.
//! - Token table: 6-byte entries `{u8 token, u8 version, u16 size LE,
//!   u16 offset LE}` where `offset` is relative to the BIT header. A zero
//!   token byte terminates the table. The table start is anchor-scanned: the
//!   start whose chain of plausible entries is the longest one reaching a
//!   zero terminator (the earliest such start on ties).
//! - Generation-specific sub-tables whose entry encoding is not decoded are
//!   surfaced as raw blocks.
use vstd::prelude::*;

use crate::text::{message, string_from_chars, string_of};

verus! {

/// One BIT token-table entry.
#[derive(Debug, Clone, Copy, PartialEq, Eq, Structural)]
pub struct BitToken {
    /// Token character ('P' = Performance, 'V' = Voltage, 'M' = VID ladder,
    /// 'S' = Strings, ...).
    pub token: char,
    /// Sub-table version.
    pub version: u8,
    /// Sub-table byte size.
    pub size: u16,
    /// Sub-table offset, relative to the BIT header.
    pub offset: u16,
}

/// Parsed BIT-table summary of a VBIOS image.
#[derive(Debug, Clone)]
pub struct BitSummary {
    /// Byte offset of the "BIT" signature in the image.
    pub bit_offset: usize,
    /// BIT header version byte.
    pub bit_version: u8,
    /// All token-table entries.
    pub tokens: Vec<BitToken>,
}

/// A sub-table surfaced as raw bytes.
#[derive(Debug, Clone)]
pub struct RawBlock {
    /// Which BIT token this block came from.
    pub token: char,
    /// Table-level metadata shown alongside the bytes: for 'P' the layout
    /// byte at table offset +1.
    pub layout_version: Option<u8>,
    pub raw: Vec<u8>,
}

// ---------------------------------------------------------------------------
// Specification
// ---------------------------------------------------------------------------

/// Whether the signature "BIT" starts at `p`.
pub open spec fn sig_at(img: Seq<u8>, p: int) -> bool {
    0 <= p && p + 3 <= img.len() && img[p] == 0x42 && img[p + 1] == 0x49 && img[p + 2] == 0x54
}

/// Position of the first "BIT" signature.
#[verifier::opaque]
pub open spec fn find_bit_spec(img: Seq<u8>) -> Option<nat> {
    if exists|p: int| sig_at(img, p) {
        let p = choose|p: int| sig_at(img, p) && forall|q: int| 0 <= q < p ==> !sig_at(img, q);
        Some(p as nat)
    } else {
        None
    }
}

/// Little-endian u16 at `p`.
pub open spec fn le16(img: Seq<u8>, p: int) -> u16 {
    (img[p] + 256 * img[p + 1]) as u16
}

/// The 6-byte entry at `p`.
pub open spec fn entry_at(img: Seq<u8>, p: int) -> BitToken {
    BitToken {
        token: (img[p] as u32) as char,
        version: img[p + 1],
        size: le16(img, p + 2),
        offset: le16(img, p + 4),
    }
}

/// Plausibility of the entry at `p`: printable token, small version, table
/// inside the image.
pub open spec fn plausible(img: Seq<u8>, bit: int, p: int) -> bool {
    let e = entry_at(img, p);
    &&& 0x21 <= img[p] <= 0x7E
    &&& e.version <= 10
    &&& bit + e.offset + e.size <= img.len()
}

/// Walks the entry chain from `p`: whether it stopped without meeting an
/// implausible entry, the entries read, and where it stopped.
pub open spec fn walk(img: Seq<u8>, bit: int, p: int) -> (bool, Seq<BitToken>, int)
    decreases img.len() - p,
{
    if p + 6 <= img.len() && p < bit + 512 {
        if img[p] == 0 {
            (true, Seq::empty(), p)
        } else if !plausible(img, bit, p) {
            (false, Seq::empty(), p)
        } else {
            let (ok, ts, e) = walk(img, bit, p + 6);
            (ok, seq![entry_at(img, p)] + ts, e)
        }
    } else {
        (true, Seq::empty(), p)
    }
}

/// The chain starting at `start` when it is anchored: at least four
/// plausible entries followed by a zero terminator inside the image.
pub open spec fn anchored(img: Seq<u8>, bit: int, start: int) -> Option<Seq<BitToken>> {
    let (ok, ts, e) = walk(img, bit, start);
    if ok && ts.len() >= 4 && 0 <= e < img.len() && img[e] == 0 {
        Some(ts)
    } else {
        None
    }
}

/// Keeps `best` unless `cand` is anchored and strictly longer.
pub open spec fn prefer_longer(best: Option<Seq<BitToken>>, cand: Option<Seq<BitToken>>) -> Option<
    Seq<BitToken>,
> {
    match cand {
        Some(c) => match best {
            Some(b) => if b.len() < c.len() {
                cand
            } else {
                best
            },
            None => cand,
        },
        None => best,
    }
}

/// The longest anchored chain over the starts `lo .. hi` (earliest on ties).
#[verifier::opaque]
pub open spec fn best_chain(img: Seq<u8>, bit: int, lo: int, hi: int) -> Option<Seq<BitToken>>
    decreases hi - lo,
{
    if hi <= lo {
        None
    } else {
        prefer_longer(best_chain(img, bit, lo, hi - 1), anchored(img, bit, hi - 1))
    }
}

/// Result of parsing the BIT header and token table: the signature offset,
/// the version byte and the entries, or the error message.
pub open spec fn parse_bit_spec(img: Seq<u8>) -> Result<(nat, u8, Seq<BitToken>), Seq<char>> {
    match find_bit_spec(img) {
        None => Err("no BIT signature"@),
        Some(bit) => if bit + 8 > img.len() {
            Err("BIT signature at end of image"@)
        } else {
            let limit: int = if bit + 64 < img.len() - 6 {
                bit + 64 as int
            } else {
                img.len() - 6
            };
            match best_chain(img, bit as int, bit + 4 as int, limit) {
                Some(ts) => Ok((bit, img[bit as int + 3], ts)),
                None => Err("BIT token table not found (no anchored chain)"@),
            }
        },
    }
}

/// Whether every entry's sub-table lies inside the image.
pub open spec fn tables_inside(img: Seq<u8>, bit: int, ts: Seq<BitToken>) -> bool {
    forall|k: int| 0 <= k < ts.len() ==> bit + (#[trigger] ts[k]).offset + ts[k].size <= img.len()
}

proof fn lemma_walk_inside(img: Seq<u8>, bit: int, p: int)
    ensures
        tables_inside(img, bit, walk(img, bit, p).1),
    decreases img.len() - p,
{
    if p + 6 <= img.len() && p < bit + 512 && img[p] != 0 && plausible(img, bit, p) {
        lemma_walk_inside(img, bit, p + 6);
        let ts = walk(img, bit, p + 6).1;
        let all = seq![entry_at(img, p)] + ts;
        assert forall|k: int| 0 <= k < all.len() implies bit + (#[trigger] all[k]).offset
            + all[k].size <= img.len() by {
            if k > 0 {
                assert(all[k] == ts[k - 1]);
            }
        }
    }
}

proof fn lemma_best_chain_inside(img: Seq<u8>, bit: int, lo: int, hi: int)
    ensures
        best_chain(img, bit, lo, hi) matches Some(ts) ==> tables_inside(img, bit, ts),
    decreases hi - lo,
{
    reveal(best_chain);
    if hi > lo {
        lemma_best_chain_inside(img, bit, lo, hi - 1);
        lemma_walk_inside(img, bit, hi - 1);
    }
}

proof fn lemma_first_token_found(ts: Seq<BitToken>, k: int)
    requires
        0 <= k < ts.len(),
    ensures
        first_token(ts, ts[k].token) matches Some(i) && i < ts.len() && ts[i as int].token
            == ts[k].token,
    decreases k,
{
    if k > 0 && ts[0].token != ts[k].token {
        lemma_first_token_found(ts.drop_first(), k - 1);
        assert(ts.drop_first()[k - 1] == ts[k]);
    }
}

/// Every token of a parsed BIT table can be read back: the sub-table of the
/// first entry that carries it lies inside the image.
pub proof fn lemma_parsed_tokens_readable(img: Seq<u8>, k: int)
    requires
        parse_bit_spec(img) is Ok,
        0 <= k < parse_bit_spec(img)->Ok_0.2.len(),
    ensures
        ({
            let (bit, _, ts) = parse_bit_spec(img)->Ok_0;
            token_raw_spec(img, bit, ts, ts[k].token) is Some
        }),
{
    let (bit, _, ts) = parse_bit_spec(img)->Ok_0;
    let limit: int = if bit + 64 < img.len() - 6 {
        bit + 64 as int
    } else {
        img.len() - 6
    };
    lemma_best_chain_inside(img, bit as int, bit + 4 as int, limit);
    lemma_first_token_found(ts, k);
    let i = first_token(ts, ts[k].token)->0;
    assert(bit + ts[i as int].offset + ts[i as int].size <= img.len());
}

// ---------------------------------------------------------------------------
// Signature scan
// ---------------------------------------------------------------------------

/// Locate the BIT signature ("BIT"): its first occurrence in the image.
pub fn find_bit(image: &[u8]) -> (r: Option<usize>)
    ensures
        match r {
            Some(p) => find_bit_spec(image@) == Some(p as nat) && sig_at(image@, p as int),
            None => find_bit_spec(image@) is None,
        },
{
    let n = image.len();
    let mut p: usize = 0;
    proof {
        reveal(find_bit_spec);
    }
    while n >= 3 && p <= n - 3
        invariant
            n == image@.len(),
            forall|q: int| 0 <= q < p ==> !sig_at(image@, q),
        decreases n - p,
    {
        if image[p] == 0x42 && image[p + 1] == 0x49 && image[p + 2] == 0x54 {
            assert(sig_at(image@, p as int));
            reveal(find_bit_spec);
            proof {
                let w = choose|w: int|
                    sig_at(image@, w) && forall|q: int| 0 <= q < w ==> !sig_at(image@, q);
                assert(sig_at(image@, w) && forall|q: int| 0 <= q < w ==> !sig_at(image@, q));
                if w < p {
                    assert(!sig_at(image@, w));
                }
                if w > p {
                    assert(!sig_at(image@, p as int));
                }
            }
            return Some(p);
        }
        p = p + 1;
    }
    assert forall|q: int| !sig_at(image@, q) by {
        if 0 <= q < p {
        }
    }
    None
}

// ---------------------------------------------------------------------------
// Token-table scan
// ---------------------------------------------------------------------------

/// `walk` with `prefix` placed in front of the entries.
pub open spec fn with_prefix(prefix: Seq<BitToken>, w: (bool, Seq<BitToken>, int)) -> (
    bool,
    Seq<BitToken>,
    int,
) {
    (w.0, prefix + w.1, w.2)
}

fn read_le16(image: &[u8], p: usize) -> (v: u16)
    requires
        p + 2 <= image@.len(),
    ensures
        v == le16(image@, p as int),
{
    let lo = image[p] as u16;
    let hi = image[p + 1] as u16;
    assert(lo + 256 * hi <= 0xFFFF);
    lo + 256 * hi
}

/// Walks the entry chain from `start` (see [`walk`]).
fn walk_chain(image: &[u8], bit: usize, start: usize) -> (r: (bool, Vec<BitToken>, usize))
    requires
        bit <= start,
    ensures
        walk(image@, bit as int, start as int) == (r.0, r.1@, r.2 as int),
{
    let n = image.len();
    let mut tokens: Vec<BitToken> = Vec::new();
    let mut p = start;
    let mut ok = true;
    let ghost target = walk(image@, bit as int, start as int);
    assert(target == with_prefix(tokens@, walk(image@, bit as int, p as int))) by {
        assert(Seq::<BitToken>::empty() + walk(image@, bit as int, p as int).1 =~= walk(
            image@,
            bit as int,
            p as int,
        ).1);
    }
    loop
        invariant_except_break
            ok,
            target == with_prefix(tokens@, walk(image@, bit as int, p as int)),
        invariant
            n == image@.len(),
            bit <= start <= p,
            target == walk(image@, bit as int, start as int),
        ensures
            target == (ok, tokens@, p as int),
        decreases n - p,
    {
        if !(p <= n && n - p >= 6 && p - bit < 512) {
            assert(walk(image@, bit as int, p as int) == (true, Seq::<BitToken>::empty(), p as int));
            assert(tokens@ + Seq::<BitToken>::empty() =~= tokens@);
            break ;
        }
        let tok = image[p];
        if tok == 0 {
            assert(tokens@ + Seq::<BitToken>::empty() =~= tokens@);
            break ;
        }
        let ver = image[p + 1];
        let size = read_le16(image, p + 2);
        let off = read_le16(image, p + 4);
        let fits = (off as usize) <= n && (size as usize) <= n - (off as usize) && bit <= n - (
        off as usize) - (size as usize);
        let plaus = 0x21 <= tok && tok <= 0x7E && ver <= 10 && fits;
        assert(plaus == plausible(image@, bit as int, p as int));
        if !plaus {
            ok = false;
            assert(tokens@ + Seq::<BitToken>::empty() =~= tokens@);
            break ;
        }
        let entry = BitToken { token: tok as char, version: ver, size, offset: off };
        assert(entry == entry_at(image@, p as int));
        let ghost old_tokens = tokens@;
        tokens.push(entry);
        proof {
            let w = walk(image@, bit as int, p as int + 6);
            assert(walk(image@, bit as int, p as int) == (w.0, seq![entry] + w.1, w.2));
            assert(old_tokens + (seq![entry] + w.1) =~= tokens@ + w.1);
        }
        p = p + 6;
    }
    (ok, tokens, p)
}

/// The longest anchored chain over the starts `lo .. hi` (see [`best_chain`]).
fn scan_table(image: &[u8], bit: usize, lo: usize, hi: usize) -> (r: Option<Vec<BitToken>>)
    requires
        bit <= lo,
    ensures
        match r {
            Some(b) => best_chain(image@, bit as int, lo as int, hi as int) == Some(b@),
            None => best_chain(image@, bit as int, lo as int, hi as int) is None,
        },
{
    let n = image.len();
    let mut best: Option<Vec<BitToken>> = None;
    let mut start = lo;
    proof {
        reveal_with_fuel(best_chain, 1);
    }
    if hi <= lo {
        return None;
    }
    while start < hi
        invariant
            n == image@.len(),
            bit <= lo <= start <= hi,
            match best {
                Some(b) => best_chain(image@, bit as int, lo as int, start as int) == Some(b@),
                None => best_chain(image@, bit as int, lo as int, start as int) is None,
            },
        decreases hi - start,
    {
        proof {
            reveal_with_fuel(best_chain, 1);
        }
        let (ok, tokens, p) = walk_chain(image, bit, start);
        let anchored_here = ok && tokens.len() >= 4 && p < n && image[p] == 0;
        assert(anchored_here ==> anchored(image@, bit as int, start as int) == Some(tokens@));
        assert(!anchored_here ==> anchored(image@, bit as int, start as int) is None);
        if anchored_here {
            let longer = match &best {
                Some(b) => b.len() < tokens.len(),
                None => true,
            };
            if longer {
                best = Some(tokens);
            }
        }
        start = start + 1;
    }
    best
}

/// Parse the BIT header and the token table (see the module notes).
#[verifier::rlimit(50)]
pub fn parse_bit(image: &[u8]) -> (r: Result<BitSummary, String>)
    ensures
        match (r, parse_bit_spec(image@)) {
            (Ok(s), Ok((o, v, ts))) => s.bit_offset == o && s.bit_version == v && s.tokens@ == ts,
            (Err(e), Err(m)) => e@ == m,
            _ => false,
        },
{
    let bit = match find_bit(image) {
        Some(b) => b,
        None => {
            return Err(string_of("no BIT signature"));
        },
    };
    let n = image.len();
    if bit > n || n - bit < 8 {
        return Err(string_of("BIT signature at end of image"));
    }
    let bit_version = image[bit + 3];
    let scan_limit = if n - 6 - bit > 64 {
        bit + 64
    } else {
        n - 6
    };
    match scan_table(image, bit, bit + 4, scan_limit) {
        Some(tokens) => Ok(BitSummary { bit_offset: bit, bit_version, tokens }),
        None => Err(string_of("BIT token table not found (no anchored chain)")),
    }
}

// ---------------------------------------------------------------------------
// Sub-table access
// ---------------------------------------------------------------------------

/// Index of the first entry carrying `token`.
pub open spec fn first_token(ts: Seq<BitToken>, token: char) -> Option<nat>
    decreases ts.len(),
{
    if ts.len() == 0 {
        None
    } else if ts[0].token == token {
        Some(0)
    } else {
        match first_token(ts.drop_first(), token) {
            Some(i) => Some(i + 1),
            None => None,
        }
    }
}

/// The sub-table of the first entry carrying `token`, when it lies inside
/// the image: `image[bit_offset + offset ..][.. size]`.
pub open spec fn token_raw_spec(img: Seq<u8>, bit_offset: nat, ts: Seq<BitToken>, token: char) -> Option<
    Seq<u8>,
> {
    match first_token(ts, token) {
        Some(i) => {
            let t = ts[i as int];
            let from = bit_offset + t.offset;
            if from <= img.len() && from + t.size <= img.len() {
                Some(img.subrange(from as int, from + t.size))
            } else {
                None
            }
        },
        None => None,
    }
}

proof fn lemma_first_token_at(ts: Seq<BitToken>, token: char, i: int)
    requires
        0 <= i <= ts.len(),
        forall|j: int| 0 <= j < i ==> ts[j].token != token,
    ensures
        i < ts.len() && ts[i].token == token ==> first_token(ts, token) == Some(i as nat),
        i == ts.len() ==> first_token(ts, token) is None,
    decreases i,
{
    if i > 0 {
        lemma_first_token_at(ts.drop_first(), token, i - 1);
    }
}

/// Whether the BIT-relative offset of the first entry carrying `token`
/// (if any) can be added to the BIT offset.
pub open spec fn offset_fits(bit_offset: usize, ts: Seq<BitToken>, token: char) -> bool {
    first_token(ts, token) matches Some(i) ==> bit_offset + ts[i as int].offset <= usize::MAX
}

/// Whether the offsets of the tables the Fermi model reads ('P', 'M', 'V',
/// 'U') can be added to the BIT offset.
pub open spec fn fermi_offsets_fit(bit: BitSummary) -> bool {
    &&& offset_fits(bit.bit_offset, bit.tokens@, 'P')
    &&& offset_fits(bit.bit_offset, bit.tokens@, 'M')
    &&& offset_fits(bit.bit_offset, bit.tokens@, 'V')
    &&& offset_fits(bit.bit_offset, bit.tokens@, 'U')
}

impl BitSummary {
    /// Raw bytes of a token's sub-table (offset is BIT-relative), if present.
    pub fn token_raw<'a>(&self, image: &'a [u8], token: char) -> (r: Option<&'a [u8]>)
        requires
            offset_fits(self.bit_offset, self.tokens@, token),
        ensures
            match r {
                Some(s) => token_raw_spec(image@, self.bit_offset as nat, self.tokens@, token)
                    == Some(s@),
                None => token_raw_spec(image@, self.bit_offset as nat, self.tokens@, token) is None,
            },
    {
        let mut i: usize = 0;
        while i < self.tokens.len()
            invariant
                i <= self.tokens@.len(),
                forall|j: int| 0 <= j < i ==> self.tokens@[j].token != token,
                offset_fits(self.bit_offset, self.tokens@, token),
            decreases self.tokens@.len() - i,
        {
            let t = self.tokens[i];
            if t.token == token {
                proof {
                    lemma_first_token_at(self.tokens@, token, i as int);
                }
                assert(self.bit_offset + self.tokens@[i as int].offset <= usize::MAX);
                let from = self.bit_offset + t.offset as usize;
                if from > image.len() {
                    return None;
                }
                if (t.size as usize) > image.len() - from {
                    return None;
                }
                return Some(vstd::slice::slice_subrange(image, from, from + t.size as usize));
            }
            i = i + 1;
        }
        proof {
            lemma_first_token_at(self.tokens@, token, i as int);
        }
        None
    }
}

/// Whether the sub-table of `t` lies inside the image.
pub open spec fn present_pred(img: Seq<u8>, off: nat, ts: Seq<BitToken>) -> spec_fn(char) -> bool {
    |t: char| token_raw_spec(img, off, ts, t) is Some
}

/// The tokens of a list of raw blocks.
pub open spec fn block_tokens(bs: Seq<RawBlock>) -> Seq<char> {
    bs.map_values(|b: RawBlock| b.token)
}

/// Lower-case hexadecimal digit.
pub open spec fn hex_char_lower(d: nat) -> char {
    if d < 10 {
        ((d + 48) as u32) as char
    } else {
        ((d + 87) as u32) as char
    }
}

/// `{:02x}` of each byte, concatenated.
pub open spec fn hex_lower_bytes(b: Seq<u8>) -> Seq<char>
    decreases b.len(),
{
    if b.len() == 0 {
        Seq::empty()
    } else {
        hex_lower_bytes(b.drop_last()) + seq![
            hex_char_lower((b.last() / 16) as nat),
            hex_char_lower((b.last() % 16) as nat),
        ]
    }
}

fn hex_digit_lower(d: u8) -> (c: char)
    requires
        d < 16,
    ensures
        c == hex_char_lower(d as nat),
{
    if d < 10 {
        (d + 48) as char
    } else {
        (d + 87) as char
    }
}

/// Lower-case hex rendering of raw bytes.
pub fn hex(bytes: &[u8]) -> (s: String)
    ensures
        s@ == hex_lower_bytes(bytes@),
{
    let mut out: Vec<char> = Vec::new();
    let mut i: usize = 0;
    while i < bytes.len()
        invariant
            i <= bytes@.len(),
            out@ == hex_lower_bytes(bytes@.take(i as int)),
        decreases bytes@.len() - i,
    {
        let b = bytes[i];
        out.push(hex_digit_lower(b / 16));
        out.push(hex_digit_lower(b % 16));
        let ghost t = bytes@.take(i as int + 1);
        assert(t.drop_last() =~= bytes@.take(i as int));
        i = i + 1;
        assert(out@ =~= hex_lower_bytes(bytes@.take(i as int)));
    }
    assert(bytes@.take(bytes@.len() as int) =~= bytes@);
    string_from_chars(out.as_slice())
}

/// The structural view of a Fermi-generation image: the 'P' performance
/// table (with its layout byte, when it has at least two bytes) and the
/// 'M', 'V', 'U' voltage-related tables that are present, in that order.
pub fn fermi_model_blocks(image: &[u8], bit: &BitSummary) -> (r: (Option<RawBlock>, Vec<RawBlock>))
    requires
        fermi_offsets_fit(*bit),
    ensures
        match token_raw_spec(image@, bit.bit_offset as nat, bit.tokens@, 'P') {
            Some(raw) => if raw.len() >= 2 {
                r.0 matches Some(b) && b.token == 'P' && b.layout_version == Some(raw[1]) && b.raw@
                    == raw
            } else {
                r.0 is None
            },
            None => r.0 is None,
        },
        r.1@.len() <= 3,
        forall|i: int|
            0 <= i < r.1@.len() ==> (#[trigger] r.1@[i]).layout_version is None && token_raw_spec(
                image@,
                bit.bit_offset as nat,
                bit.tokens@,
                r.1@[i].token,
            ) == Some(r.1@[i].raw@),
        block_tokens(r.1@) == seq!['M', 'V', 'U'].filter(
            present_pred(image@, bit.bit_offset as nat, bit.tokens@),
        ),
{
    let perf = match bit.token_raw(image, 'P') {
        Some(raw) => if raw.len() >= 2 {
            Some(RawBlock { token: 'P', layout_version: Some(raw[1]), raw: vstd::slice::slice_to_vec(raw) })
        } else {
            None
        },
        None => None,
    };
    let mut blocks: Vec<RawBlock> = Vec::new();
    let ghost present = present_pred(image@, bit.bit_offset as nat, bit.tokens@);
    let order = ['M', 'V', 'U'];
    let mut k: usize = 0;
    while k < 3
        invariant
            k <= 3,
            order@ == seq!['M', 'V', 'U'],
            fermi_offsets_fit(*bit),
            blocks@.len() <= k,
            forall|i: int|
                0 <= i < blocks@.len() ==> (#[trigger] blocks@[i]).layout_version is None
                    && token_raw_spec(image@, bit.bit_offset as nat, bit.tokens@, blocks@[i].token)
                    == Some(blocks@[i].raw@),
            present == present_pred(image@, bit.bit_offset as nat, bit.tokens@),
            block_tokens(blocks@) == order@.take(k as int).filter(present),
        decreases 3 - k,
    {
        let t = order[k];
        let ghost before = blocks@;
        assert(order@.take(k as int + 1).drop_last() =~= order@.take(k as int));
        assert(order@.take(k as int + 1).last() == t);
        proof {
            reveal_with_fuel(Seq::filter, 1);
            let tk1 = order@.take(k as int + 1);
            assert(tk1.len() > 0);
            assert(tk1.filter(present) == (if present(tk1.last()) {
                tk1.drop_last().filter(present).push(tk1.last())
            } else {
                tk1.drop_last().filter(present)
            }));
        }
        match bit.token_raw(image, t) {
            Some(raw) => {
                blocks.push(RawBlock { token: t, layout_version: None, raw: vstd::slice::slice_to_vec(raw) });
                assert(block_tokens(blocks@) =~= block_tokens(before).push(t));
            },
            None => {},
        }
        k = k + 1;
    }
    assert(order@.take(3) =~= order@);
    (perf, blocks)
}

} // verus!
