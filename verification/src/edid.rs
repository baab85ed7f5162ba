//! Display identification data: upper-case hex rendering and parsing of raw
//! EDID blocks, display IDs, and the human-readable interpretation of an
//! EDID base block.
use vstd::prelude::*;

use crate::text::{
    chars_of, debug_quote, debug_text, decimal, decimal_chars, digit, digit_value, hex_char_upper,
    hex_digit_upper, message, parse_u32_radix, parse_unsigned, parse_unsigned_chars, res_view,
    slice_copy,
    string_from_chars, trim, trim_chars,
};

verus! {

// ---------------------------------------------------------------------------
// Hex rendering
// ---------------------------------------------------------------------------

/// Upper-case hex rendering of bytes, two digits per byte.
pub open spec fn upper_hex_bytes(b: Seq<u8>) -> Seq<char>
    decreases b.len(),
{
    if b.len() == 0 {
        Seq::empty()
    } else {
        upper_hex_bytes(b.drop_last()) + seq![
            hex_char_upper((b.last() / 16) as nat),
            hex_char_upper((b.last() % 16) as nat),
        ]
    }
}

/// Renders bytes as upper-case hex, two digits per byte, no separators.
pub fn bytes_to_upper_hex(bytes: &[u8]) -> (s: String)
    ensures
        s@ == upper_hex_bytes(bytes@),
{
    let mut out: Vec<char> = Vec::new();
    let mut i: usize = 0;
    while i < bytes.len()
        invariant
            i <= bytes@.len(),
            out@ == upper_hex_bytes(bytes@.take(i as int)),
        decreases bytes@.len() - i,
    {
        let b = bytes[i];
        assert(b >> 4u8 == b / 16) by (bit_vector);
        assert(b & 0x0Fu8 == b % 16) by (bit_vector);
        out.push(hex_digit_upper((b >> 4u8) as u64));
        out.push(hex_digit_upper((b & 0x0Fu8) as u64));
        let ghost t = bytes@.take(i as int + 1);
        assert(t.drop_last() =~= bytes@.take(i as int));
        i = i + 1;
        assert(out@ =~= upper_hex_bytes(bytes@.take(i as int)));
    }
    assert(bytes@.take(bytes@.len() as int) =~= bytes@);
    string_from_chars(out.as_slice())
}

// ---------------------------------------------------------------------------
// Display IDs
// ---------------------------------------------------------------------------

/// The digits of a display ID: the trimmed text without a `0x`/`0X` prefix.
pub open spec fn display_id_digits(raw: Seq<char>) -> Seq<char> {
    let t = trim(raw);
    if t.len() >= 2 && t[0] == '0' && (t[1] == 'x' || t[1] == 'X') {
        t.skip(2)
    } else {
        t
    }
}

/// A display ID is a 32-bit hexadecimal number, optionally `0x`-prefixed.
pub open spec fn parse_display_id_spec(raw: Seq<char>) -> Result<u32, Seq<char>> {
    match parse_unsigned(display_id_digits(raw), 16, u32::MAX as nat) {
        Some(v) => Ok(v as u32),
        None => Err("invalid display ID "@ + debug_text(raw) + "; expected hex"@),
    }
}

/// Parses a hexadecimal display ID such as `0x00010001`.
pub fn parse_display_id(raw: &str) -> (r: Result<u32, String>)
    ensures
        res_view(r) == parse_display_id_spec(raw@),
{
    let c = chars_of(raw);
    let t = trim_chars(c.as_slice());
    let digits = if t.len() >= 2 && t[0] == '0' && (t[1] == 'x' || t[1] == 'X') {
        slice_copy(t.as_slice(), 2, t.len())
    } else {
        slice_copy(t.as_slice(), 0, t.len())
    };
    assert(digits@ =~= display_id_digits(raw@));
    match parse_u32_radix(digits.as_slice(), 16) {
        Some(v) => Ok(v),
        None => {
            let q = debug_quote(raw);
            let qc = chars_of(q.as_str());
            let tail = chars_of("; expected hex");
            let mut body = qc;
            let mut k: usize = 0;
            let ghost q0 = body@;
            while k < tail.len()
                invariant
                    k <= tail@.len(),
                    body@ == q0 + tail@.take(k as int),
                decreases tail@.len() - k,
            {
                body.push(tail[k]);
                k = k + 1;
                assert(body@ =~= q0 + tail@.take(k as int));
            }
            assert(tail@.take(tail@.len() as int) =~= tail@);
            let m = message("invalid display ID ", body.as_slice());
            assert(m@ =~= "invalid display ID "@ + debug_text(raw@) + "; expected hex"@);
            Err(m)
        },
    }
}

// ---------------------------------------------------------------------------
// EDID hex parsing
// ---------------------------------------------------------------------------

/// Bytes of `c` in UTF-8.
pub open spec fn utf8_len(c: char) -> nat {
    if (c as u32) < 0x80 {
        1
    } else if (c as u32) < 0x800 {
        2
    } else if (c as u32) < 0x10000 {
        3
    } else {
        4
    }
}

/// Length in bytes of the UTF-8 encoding of `s`.
pub open spec fn byte_len(s: Seq<char>) -> nat
    decreases s.len(),
{
    if s.len() == 0 {
        0
    } else {
        byte_len(s.drop_last()) + utf8_len(s.last())
    }
}

/// Pairs of hex digits read from the start of `s` (byte offset `off`),
/// each as `u8::from_str_radix(pair, 16)`. A pair is two one-byte
/// characters; a leading two-byte character is a pair of its own and never
/// a number. On failure, the byte offset of the offending pair.
pub open spec fn hex_pairs(s: Seq<char>, off: nat) -> Result<Seq<u8>, nat>
    decreases s.len(),
{
    if s.len() == 0 {
        Ok(Seq::empty())
    } else if utf8_len(s[0]) == 1 && s.len() >= 2 && utf8_len(s[1]) == 1 {
        match parse_unsigned(s.take(2), 16, 255) {
            Some(v) => match hex_pairs(s.skip(2), off + 2) {
                Ok(rest) => Ok(seq![v as u8] + rest),
                Err(k) => Err(k),
            },
            None => Err(off),
        }
    } else {
        Err(off)
    }
}

/// Whether reading pairs from the start of `s` slices through a character:
/// it does when the pair it reaches does not end on a character boundary.
pub open spec fn hex_pairs_split_char(s: Seq<char>) -> bool
    decreases s.len(),
{
    if s.len() == 0 {
        false
    } else if utf8_len(s[0]) == 1 {
        if s.len() < 2 || utf8_len(s[1]) != 1 {
            true
        } else {
            match parse_unsigned(s.take(2), 16, 255) {
                Some(_) => hex_pairs_split_char(s.skip(2)),
                None => false,
            }
        }
    } else {
        utf8_len(s[0]) != 2
    }
}

/// EDID bytes from hex text: the trimmed text must hold an even number of
/// bytes; each pair of digits is one byte.
pub open spec fn parse_edid_hex_spec(raw: Seq<char>) -> Result<Seq<u8>, Seq<char>> {
    let h = trim(raw);
    if byte_len(h) % 2 != 0 {
        Err("EDID hex must contain an even number of digits"@)
    } else {
        match hex_pairs(h, 0) {
            Ok(b) => Ok(b),
            Err(k) => Err("invalid EDID hex byte at offset "@ + decimal(k)),
        }
    }
}

/// Whether `parse_edid_hex` would slice through a multi-byte character of
/// `raw` (inputs on which the byte-offset slicing it performs panics).
pub open spec fn edid_hex_splits_char(raw: Seq<char>) -> bool {
    byte_len(trim(raw)) % 2 == 0 && hex_pairs_split_char(trim(raw))
}

proof fn lemma_byte_len_push(s: Seq<char>, c: char)
    ensures
        byte_len(s.push(c)) == byte_len(s) + utf8_len(c),
{
    assert(s.push(c).drop_last() =~= s);
}

fn utf8_len_exec(c: char) -> (n: usize)
    ensures
        n == utf8_len(c),
{
    let u = c as u32;
    if u < 0x80 {
        1
    } else if u < 0x800 {
        2
    } else if u < 0x10000 {
        3
    } else {
        4
    }
}

/// Parity of the UTF-8 length of `s`.
fn byte_len_is_odd(s: &[char]) -> (b: bool)
    ensures
        b == (byte_len(s@) % 2 != 0),
{
    let mut odd = false;
    let mut i: usize = 0;
    while i < s.len()
        invariant
            i <= s@.len(),
            odd == (byte_len(s@.take(i as int)) % 2 != 0),
        decreases s@.len() - i,
    {
        let n = utf8_len_exec(s[i]);
        proof {
            assert(s@.take(i as int + 1) =~= s@.take(i as int).push(s@[i as int]));
            lemma_byte_len_push(s@.take(i as int), s@[i as int]);
        }
        if n % 2 == 1 {
            odd = !odd;
        }
        i = i + 1;
    }
    assert(s@.take(s@.len() as int) =~= s@);
    odd
}

/// Whether `raw` is text on which [`parse_edid_hex`] would slice through a
/// multi-byte character (see [`edid_hex_splits_char`]); callers test this
/// before parsing.
pub fn edid_hex_splits_char_check(raw: &str) -> (b: bool)
    ensures
        b == edid_hex_splits_char(raw@),
{
    let c = chars_of(raw);
    let h = trim_chars(c.as_slice());
    if byte_len_is_odd(h.as_slice()) {
        return false;
    }
    let ghost hs = h@;
    let mut i: usize = 0;
    assert(hs.skip(0) =~= hs);
    while i < h.len()
        invariant
            hs == h@,
            i <= hs.len(),
            edid_hex_splits_char(raw@) == hex_pairs_split_char(hs.skip(i as int)),
            hs == trim(raw@),
            byte_len(hs) % 2 == 0,
        decreases hs.len() - i,
    {
        let ghost rest = hs.skip(i as int);
        assert(rest[0] == h@[i as int]);
        let n0 = utf8_len_exec(h[i]);
        if n0 != 1 {
            return n0 != 2;
        }
        if i + 1 >= h.len() {
            return true;
        }
        assert(rest[1] == h@[i as int + 1]);
        if utf8_len_exec(h[i + 1]) != 1 {
            return true;
        }
        let pair = slice_copy(h.as_slice(), i, i + 2);
        assert(pair@ =~= rest.take(2));
        match parse_unsigned_chars(pair.as_slice(), 16, 255) {
            None => {
                return false;
            },
            Some(_) => {},
        }
        assert(rest.skip(2) =~= hs.skip(i as int + 2));
        i = i + 2;
    }
    assert(hs.skip(i as int) =~= Seq::<char>::empty());
    false
}

/// Parses EDID bytes from hex text (two digits per byte, either case).
pub fn parse_edid_hex(raw: &str) -> (r: Result<Vec<u8>, String>)
    requires
        !edid_hex_splits_char(raw@),
    ensures
        match r {
            Ok(v) => parse_edid_hex_spec(raw@) == Ok::<Seq<u8>, Seq<char>>(v@),
            Err(e) => parse_edid_hex_spec(raw@) == Err::<Seq<u8>, Seq<char>>(e@),
        },
{
    let c = chars_of(raw);
    let h = trim_chars(c.as_slice());
    if byte_len_is_odd(h.as_slice()) {
        return Err(crate::text::string_of("EDID hex must contain an even number of digits"));
    }
    let ghost hs = h@;
    let mut out: Vec<u8> = Vec::new();
    let mut i: usize = 0;
    assert(hs.skip(0) =~= hs);
    while i < h.len()
        invariant
            hs == h@,
            hs == trim(raw@),
            byte_len(hs) % 2 == 0,
            i <= hs.len(),
            !hex_pairs_split_char(hs.skip(i as int)),
            hex_pairs(hs, 0) == (match hex_pairs(hs.skip(i as int), i as nat) {
                Ok(rest) => Ok(out@ + rest),
                Err(k) => Err::<Seq<u8>, nat>(k),
            }),
        decreases hs.len() - i,
    {
        let ghost rest = hs.skip(i as int);
        assert(rest[0] == h@[i as int]);
        let c0 = h[i];
        if (c0 as u32) >= 0x80 {
            assert(hex_pairs(rest, i as nat) == Err::<Seq<u8>, nat>(i as nat));
            let msg = offset_message(i);
            assert(parse_edid_hex_spec(raw@) == Err::<Seq<u8>, Seq<char>>(msg@));
            return Err(msg);
        }
        assert(rest.len() >= 2 && utf8_len(rest[1]) == 1);
        let c1 = h[i + 1];
        assert(rest[1] == c1);
        let mut pair: Vec<char> = Vec::new();
        pair.push(c0);
        pair.push(c1);
        assert(pair@ =~= rest.take(2));
        match crate::text::parse_u8_radix(pair.as_slice(), 16) {
            Some(v) => {
                assert(rest.skip(2) =~= hs.skip(i as int + 2));
                let ghost o0 = out@;
                out.push(v);
                proof {
                    match hex_pairs(rest.skip(2), (i + 2) as nat) {
                        Ok(r2) => {
                            assert(o0 + (seq![v] + r2) =~= out@ + r2);
                        },
                        Err(_) => {},
                    }
                }
                i = i + 2;
            },
            None => {
                assert(hex_pairs(rest, i as nat) == Err::<Seq<u8>, nat>(i as nat));
                let msg = offset_message(i);
                assert(parse_edid_hex_spec(raw@) == Err::<Seq<u8>, Seq<char>>(msg@));
                return Err(msg);
            },
        }
    }
    assert(hs.skip(i as int) =~= Seq::<char>::empty());
    Ok(out)
}

fn offset_message(i: usize) -> (m: String)
    ensures
        m@ == "invalid EDID hex byte at offset "@ + decimal(i as nat),
{
    let d = decimal_chars(i as u64);
    message("invalid EDID hex byte at offset ", d.as_slice())
}

// ---------------------------------------------------------------------------
// EDID base block interpretation
// ---------------------------------------------------------------------------

/// A value of an interpreted EDID field: text, or a plain number.
#[derive(Debug, Clone, PartialEq, Eq)]
pub enum EdidValue {
    Text(String),
    Number(u32),
}

/// An interpreted EDID field value, its text taken by its characters.
pub enum EdidValueView {
    Text(Seq<char>),
    Number(u32),
}

impl View for EdidValue {
    type V = EdidValueView;

    open spec fn view(&self) -> EdidValueView {
        match self {
            EdidValue::Text(s) => EdidValueView::Text(s@),
            EdidValue::Number(n) => EdidValueView::Number(*n),
        }
    }
}

/// The labelled fields of an interpretation, by their views.
pub open spec fn fields_view(v: Seq<(String, EdidValue)>) -> Seq<(Seq<char>, EdidValueView)> {
    v.map_values(|f: (String, EdidValue)| (f.0@, f.1@))
}

/// A base block: at least 128 bytes, starting with the fixed 8-byte header.
pub open spec fn edid_valid(e: Seq<u8>) -> bool {
    e.len() >= 128 && e.take(8) == seq![0x00u8, 0xFF, 0xFF, 0xFF, 0xFF, 0xFF, 0xFF, 0x00]
}

/// One letter of the compressed three-letter PNP manufacturer code.
pub open spec fn pnp_letter(x: nat) -> char {
    ((x + 64) as u32) as char
}

/// The manufacturer PNP code: three 5-bit letters of bytes 8-9 (big-endian).
pub open spec fn mfg_id(e: Seq<u8>) -> Seq<char> {
    let m = e[8] as nat * 256 + e[9] as nat;
    seq![pnp_letter((m / 1024) % 32), pnp_letter((m / 32) % 32), pnp_letter(m % 32)]
}

/// The manufacturer ID reads back the three upper-case letters that bytes
/// 8-9 pack as 5-bit codes (`A` = 1 .. `Z` = 26), first letter in the high
/// bits.
pub proof fn lemma_mfg_id_decodes_letters(e: Seq<u8>, c0: char, c1: char, c2: char)
    requires
        e.len() >= 10,
        'A' <= c0 <= 'Z',
        'A' <= c1 <= 'Z',
        'A' <= c2 <= 'Z',
        e[8] as int * 256 + e[9] as int == (c0 as int - 64) * 1024 + (c1 as int - 64) * 32 + (c2 as int
            - 64),
    ensures
        mfg_id(e) == seq![c0, c1, c2],
{
    let x = c0 as int - 64;
    let y = c1 as int - 64;
    let z = c2 as int - 64;
    let m = e[8] as nat * 256 + e[9] as nat;
    assert(m / 1024 == x && (m / 32) % 32 == y && m % 32 == z) by (nonlinear_arith)
        requires
            m == x * 1024 + y * 32 + z,
            1 <= x <= 26,
            1 <= y <= 26,
            1 <= z <= 26,
    ;
    assert(x % 32 == x);
    assert(((x + 64) as u32) as char == c0);
    assert(((y + 64) as u32) as char == c1);
    assert(((z + 64) as u32) as char == c2);
}

/// Product code (bytes 10-11, little-endian) as `0x` and four hex digits.
pub open spec fn product_code_text(e: Seq<u8>) -> Seq<char> {
    "0x"@ + crate::text::hex_upper_padded(e[10] as nat + e[11] as nat * 256, 4)
}

/// Numeric serial number (bytes 12-15, little-endian).
pub open spec fn serial_number(e: Seq<u8>) -> nat {
    e[12] as nat + e[13] as nat * 256 + e[14] as nat * 65536 + e[15] as nat * 16777216
}

/// Manufacture date: `Week w, year` for a week in 1..=54, else the year.
pub open spec fn manufactured_text(e: Seq<u8>) -> Seq<char> {
    let w = e[16] as nat;
    let y = e[17] as nat + 1990;
    if 0 < w <= 54 {
        "Week "@ + decimal(w) + ", "@ + decimal(y)
    } else {
        decimal(y)
    }
}

/// Gamma byte `g` as the decimal `(g + 100) / 100` with two fraction digits.
pub open spec fn gamma_text(g: u8) -> Seq<char> {
    let v = g as nat + 100;
    decimal(v / 100) + seq!['.', crate::text::digit_char((v % 100) / 10), crate::text::digit_char(
        v % 10,
    )]
}

/// Supported DPMS states named by the feature byte.
pub open spec fn dpms_parts(f: u8) -> Seq<Seq<char>> {
    (if f & 0x80u8 != 0 {
        seq!["Standby"@]
    } else {
        Seq::empty()
    }) + (if f & 0x40u8 != 0 {
        seq!["Suspend"@]
    } else {
        Seq::empty()
    }) + (if f & 0x20u8 != 0 {
        seq!["ActiveOff"@]
    } else {
        Seq::empty()
    })
}

/// The DPMS names of EDID feature byte `f` (VESA EDID 1.3, byte 24): bit
/// 0x80 is "Standby", bit 0x40 "Suspend", bit 0x20 "ActiveOff"; each is
/// listed exactly when its bit is set, once, from the highest bit down, and
/// nothing else is listed.
pub proof fn lemma_dpms_names(f: u8)
    ensures
        dpms_parts(f).contains("Standby"@) == (f & 0x80u8 != 0),
        dpms_parts(f).contains("Suspend"@) == (f & 0x40u8 != 0),
        dpms_parts(f).contains("ActiveOff"@) == (f & 0x20u8 != 0),
        forall|k: int|
            0 <= k < dpms_parts(f).len() ==> (#[trigger] dpms_parts(f)[k] == "Standby"@
                || dpms_parts(f)[k] == "Suspend"@ || dpms_parts(f)[k] == "ActiveOff"@),
        dpms_parts(f).no_duplicates(),
        f & 0x80u8 != 0 ==> dpms_parts(f)[0] == "Standby"@,
        f & 0x20u8 != 0 ==> dpms_parts(f).last() == "ActiveOff"@,
{
    reveal_strlit("Standby");
    reveal_strlit("Suspend");
    reveal_strlit("ActiveOff");
    assert("Standby"@.len() == 7);
    assert("Suspend"@.len() == 7);
    assert("ActiveOff"@.len() == 9);
    assert("Standby"@[1] != "Suspend"@[1]);
    let p = dpms_parts(f);
    let hi = f & 0x80u8 != 0;
    let mid = f & 0x40u8 != 0;
    let lo = f & 0x20u8 != 0;
    if hi {
        if mid {
            if lo {
                assert(p =~= seq!["Standby"@, "Suspend"@, "ActiveOff"@]);
            } else {
                assert(p =~= seq!["Standby"@, "Suspend"@]);
            }
        } else {
            if lo {
                assert(p =~= seq!["Standby"@, "ActiveOff"@]);
            } else {
                assert(p =~= seq!["Standby"@]);
            }
        }
    } else {
        if mid {
            if lo {
                assert(p =~= seq!["Suspend"@, "ActiveOff"@]);
            } else {
                assert(p =~= seq!["Suspend"@]);
            }
        } else {
            if lo {
                assert(p =~= seq!["ActiveOff"@]);
            } else {
                assert(p =~= Seq::<Seq<char>>::empty());
            }
        }
    }
    assert(p.contains("Standby"@) ==> hi) by {
        if p.contains("Standby"@) {
            let k = choose|k: int| 0 <= k < p.len() && p[k] == "Standby"@;
        }
    }
    assert(p.contains("Suspend"@) ==> mid) by {
        if p.contains("Suspend"@) {
            let k = choose|k: int| 0 <= k < p.len() && p[k] == "Suspend"@;
        }
    }
    assert(p.contains("ActiveOff"@) ==> lo) by {
        if p.contains("ActiveOff"@) {
            let k = choose|k: int| 0 <= k < p.len() && p[k] == "ActiveOff"@;
        }
    }
    if hi {
        assert(p[0] == "Standby"@);
    }
    if mid {
        assert(p[if hi { 1int } else { 0int }] == "Suspend"@);
    }
    if lo {
        assert(p[p.len() - 1] == "ActiveOff"@);
    }
}

/// Color format named by bits 3-4 of the feature byte.
pub open spec fn color_text(digital: bool, f: u8) -> Seq<char> {
    let k = (f >> 3u8) & 0x03u8;
    if digital {
        if k == 0 {
            "RGB 4:4:4"@
        } else if k == 1 {
            "RGB 4:4:4 & YCrCb 4:4:4"@
        } else if k == 2 {
            "RGB 4:4:4 & YCrCb 4:2:2"@
        } else {
            "RGB 4:4:4 & YCrCb 4:4:4 & 4:2:2"@
        }
    } else {
        if k == 0 {
            "Monochrome"@
        } else if k == 1 {
            "RGB"@
        } else if k == 2 {
            "Non-RGB"@
        } else {
            "Undefined"@
        }
    }
}

/// The `i`-th 18-byte descriptor block (0..4), from byte 54 on.
pub open spec fn block(e: Seq<u8>, i: nat) -> Seq<u8> {
    e.subrange(54 + 18 * i as int, 72 + 18 * i as int)
}

/// A display descriptor (as opposed to a detailed timing) starts with three
/// zero bytes.
pub open spec fn is_descriptor(b: Seq<u8>) -> bool {
    b[0] == 0 && b[1] == 0 && b[2] == 0
}

/// Whether a descriptor text byte is kept: ASCII graphic or space.
pub open spec fn keeps_byte(b: u8) -> bool {
    (0x21 <= b <= 0x7E) || b == 0x20
}

/// Kept characters of descriptor text, up to the first line feed.
pub open spec fn printable(s: Seq<u8>) -> Seq<char>
    decreases s.len(),
{
    if s.len() == 0 || s[0] == 0x0A {
        Seq::empty()
    } else {
        (if keeps_byte(s[0]) {
            seq![s[0] as char]
        } else {
            Seq::empty()
        }) + printable(s.drop_first())
    }
}

/// Text of a name/serial descriptor: its printable payload, trimmed.
pub open spec fn descriptor_text(b: Seq<u8>) -> Seq<char> {
    trim(printable(b.subrange(5, 18)))
}

/// Text of the last descriptor tagged `tag` among the first `n` blocks.
pub open spec fn text_after(e: Seq<u8>, tag: u8, n: nat) -> Seq<char>
    decreases n,
{
    if n == 0 {
        Seq::empty()
    } else {
        let b = block(e, (n - 1) as nat);
        if is_descriptor(b) && b[3] == tag {
            descriptor_text(b)
        } else {
            text_after(e, tag, (n - 1) as nat)
        }
    }
}

/// Monitor range limits of a `0xFD` descriptor.
pub open spec fn range_text(b: Seq<u8>) -> Seq<char> {
    decimal(b[5] as nat) + "~"@ + decimal(b[6] as nat) + " Hz (V) | "@ + decimal(b[7] as nat)
        + "~"@ + decimal(b[8] as nat) + " kHz (H) | Max "@ + decimal(b[9] as nat * 10)
        + " MHz"@
}

/// Range limits of the last `0xFD` descriptor among the first `n` blocks.
pub open spec fn range_after(e: Seq<u8>, n: nat) -> Seq<char>
    decreases n,
{
    if n == 0 {
        Seq::empty()
    } else {
        let b = block(e, (n - 1) as nat);
        if is_descriptor(b) && b[3] == 0xFD {
            range_text(b)
        } else {
            range_after(e, (n - 1) as nat)
        }
    }
}

/// Whether the first block is a detailed timing with a pixel clock.
pub open spec fn has_native_timing(e: Seq<u8>) -> bool {
    let b = block(e, 0);
    !is_descriptor(b) && (b[0] as nat + b[1] as nat * 256) > 0
}

/// Native resolution of the first detailed timing: `HxV`.
pub open spec fn native_res_text(e: Seq<u8>) -> Seq<char> {
    let b = block(e, 0);
    decimal(b[2] as nat + (b[4] as nat / 16) * 256) + "x"@ + decimal(
        b[5] as nat + (b[7] as nat / 16) * 256,
    )
}

/// An optional field.
pub open spec fn opt_field(present: bool, label: Seq<char>, value: EdidValueView) -> Seq<
    (Seq<char>, EdidValueView),
> {
    if present {
        seq![(label, value)]
    } else {
        Seq::empty()
    }
}

/// Identity fields: manufacturer, product code, numeric serial (when not
/// zero), manufacture date and input signal.
pub open spec fn identity_fields(e: Seq<u8>) -> Seq<(Seq<char>, EdidValueView)> {
    let digital = e[20] & 0x80u8 != 0;
    seq![
        ("Manufacturer"@, EdidValueView::Text(mfg_id(e))),
        ("Product Code"@, EdidValueView::Text(product_code_text(e))),
    ] + opt_field(
        serial_number(e) != 0,
        "Serial Number"@,
        EdidValueView::Number(serial_number(e) as u32),
    ) + seq![
        ("Manufactured"@, EdidValueView::Text(manufactured_text(e))),
        (
            "Input Signal"@,
            EdidValueView::Text(
                if digital {
                    "Digital"@
                } else {
                    "Analog"@
                },
            ),
        ),
    ]
}

/// Display fields: screen size (when both dimensions are set), gamma (when
/// defined), DPMS features (when any), color format and native resolution
/// (when the first block is a timing).
pub open spec fn display_fields(e: Seq<u8>) -> Seq<(Seq<char>, EdidValueView)> {
    let digital = e[20] & 0x80u8 != 0;
    let g = e[23];
    screen_field(e) + opt_field(g > 0 && g != 0xFF, "Gamma"@, EdidValueView::Text(gamma_text(g))) + opt_field(
        dpms_parts(e[24]).len() > 0,
        "DPMS Features"@,
        EdidValueView::Text(crate::text::join(dpms_parts(e[24]), ", "@)),
    ) + seq![("Color Format"@, EdidValueView::Text(color_text(digital, e[24])))] + opt_field(
        has_native_timing(e),
        "Native Res"@,
        EdidValueView::Text(native_res_text(e)),
    )
}

/// Descriptor fields: model name, serial text and range limits, each when
/// some descriptor gives it (the last such descriptor wins).
pub open spec fn descriptor_fields(e: Seq<u8>) -> Seq<(Seq<char>, EdidValueView)> {
    let name = text_after(e, 0xFC, 4);
    let serial = text_after(e, 0xFF, 4);
    let range = range_after(e, 4);
    opt_field(name.len() > 0, "Model Name"@, EdidValueView::Text(name)) + opt_field(
        serial.len() > 0,
        "Serial Number"@,
        EdidValueView::Text(serial),
    ) + opt_field(range.len() > 0, "Range Limits"@, EdidValueView::Text(range))
}

/// The interpretation of an EDID base block as labelled fields: identity,
/// display and descriptor fields, in that order. Anything that is not a
/// base block gives no fields.
pub open spec fn edid_fields(e: Seq<u8>) -> Seq<(Seq<char>, EdidValueView)> {
    if !edid_valid(e) {
        Seq::empty()
    } else {
        identity_fields(e) + display_fields(e) + descriptor_fields(e)
    }
}

fn text_field(label: &str, value: Vec<char>) -> (f: (String, EdidValue))
    ensures
        f.0@ == label@,
        f.1@ == EdidValueView::Text(value@),
{
    (crate::text::string_of(label), EdidValue::Text(string_from_chars(value.as_slice())))
}

fn decimal_u8(x: u8) -> (out: Vec<char>)
    ensures
        out@ == decimal(x as nat),
{
    decimal_chars(x as u64)
}

fn join3(a: Vec<char>, b: &str, c: Vec<char>) -> (out: Vec<char>)
    ensures
        out@ == a@ + b@ + c@,
{
    let bc = chars_of(b);
    let ab = crate::text::concat(a.as_slice(), bc.as_slice());
    crate::text::concat(ab.as_slice(), c.as_slice())
}

fn append(a: Vec<char>, b: &str) -> (out: Vec<char>)
    ensures
        out@ == a@ + b@,
{
    let bc = chars_of(b);
    crate::text::concat(a.as_slice(), bc.as_slice())
}

fn mfg_id_chars(hi: u8, lo: u8) -> (out: Vec<char>)
    ensures
        out@ == seq![
            pnp_letter(((hi as nat * 256 + lo as nat) / 1024) % 32),
            pnp_letter(((hi as nat * 256 + lo as nat) / 32) % 32),
            pnp_letter((hi as nat * 256 + lo as nat) % 32),
        ],
{
    let m: u32 = (hi as u32) * 256 + (lo as u32);
    let a = ((m / 1024) % 32) as u8;
    let b = ((m / 32) % 32) as u8;
    let c = (m % 32) as u8;
    let mut out: Vec<char> = Vec::new();
    out.push((a + 64) as char);
    out.push((b + 64) as char);
    out.push((c + 64) as char);
    assert(out@ =~= seq![
        pnp_letter(((hi as nat * 256 + lo as nat) / 1024) % 32),
        pnp_letter(((hi as nat * 256 + lo as nat) / 32) % 32),
        pnp_letter((hi as nat * 256 + lo as nat) % 32),
    ]);
    out
}

fn gamma_chars(g: u8) -> (out: Vec<char>)
    ensures
        out@ == gamma_text(g),
{
    let v: u64 = g as u64 + 100;
    let mut out = decimal_chars(v / 100);
    out.push('.');
    out.push((((v % 100) / 10) as u8 + 48) as char);
    out.push(((v % 10) as u8 + 48) as char);
    assert(out@ =~= gamma_text(g));
    out
}

fn color_chars(digital: bool, f: u8) -> (out: Vec<char>)
    ensures
        out@ == color_text(digital, f),
{
    let k = (f >> 3u8) & 0x03u8;
    let s = if digital {
        if k == 0 {
            "RGB 4:4:4"
        } else if k == 1 {
            "RGB 4:4:4 & YCrCb 4:4:4"
        } else if k == 2 {
            "RGB 4:4:4 & YCrCb 4:2:2"
        } else {
            "RGB 4:4:4 & YCrCb 4:4:4 & 4:2:2"
        }
    } else {
        if k == 0 {
            "Monochrome"
        } else if k == 1 {
            "RGB"
        } else if k == 2 {
            "Non-RGB"
        } else {
            "Undefined"
        }
    };
    chars_of(s)
}

fn dpms_chars(f: u8) -> (out: Vec<char>)
    ensures
        out@ == crate::text::join(dpms_parts(f), ", "@),
{
    let mut parts: Vec<Vec<char>> = Vec::new();
    if f & 0x80u8 != 0 {
        parts.push(chars_of("Standby"));
    }
    if f & 0x40u8 != 0 {
        parts.push(chars_of("Suspend"));
    }
    if f & 0x20u8 != 0 {
        parts.push(chars_of("ActiveOff"));
    }
    assert(crate::text::pieces_view(parts@) =~= dpms_parts(f));
    crate::text::join_chars(&parts, ", ")
}

/// Printable payload of the descriptor block at `off`.
fn descriptor_chars(e: &[u8], off: usize) -> (out: Vec<char>)
    requires
        off + 18 <= e@.len(),
    ensures
        out@ == descriptor_text(e@.subrange(off as int, off + 18)),
{
    let ghost b = e@.subrange(off as int, off + 18);
    let ghost p = b.subrange(5, 18);
    let n = e.len();
    let mut text: Vec<char> = Vec::new();
    let mut j: usize = 5;
    assert(p.skip(0) =~= p);
    while j < 18
        invariant
            5 <= j <= 18,
            n == e@.len(),
            off + 18 <= e@.len(),
            b == e@.subrange(off as int, off + 18),
            p == b.subrange(5, 18),
            printable(p) == text@ + printable(p.skip(j - 5)),
        ensures
            printable(p) == text@,
        decreases 18 - j,
    {
        let x = e[off + j];
        let ghost rest = p.skip(j - 5);
        assert(rest[0] == x);
        if x == 0x0A {
            assert(printable(rest) =~= Seq::<char>::empty());
            assert(text@ + printable(rest) =~= text@);
            break;
        }
        assert(rest.drop_first() =~= p.skip(j - 5 + 1));
        let ghost t0 = text@;
        if (0x21 <= x && x <= 0x7E) || x == 0x20 {
            text.push(x as char);
            assert(t0 + (seq![x as char] + printable(rest.drop_first())) =~= text@ + printable(
                rest.drop_first(),
            ));
        } else {
            assert(t0 + (Seq::<char>::empty() + printable(rest.drop_first())) =~= text@
                + printable(rest.drop_first()));
        }
        j = j + 1;
        if j == 18 {
            assert(p.skip(13) =~= Seq::<u8>::empty());
            assert(text@ + printable(p.skip(13)) =~= text@);
        }
    }
    trim_chars(text.as_slice())
}

fn range_chars(e: &[u8], off: usize) -> (out: Vec<char>)
    requires
        off + 18 <= e@.len(),
    ensures
        out@ == range_text(e@.subrange(off as int, off + 18)),
{
    let ghost b = e@.subrange(off as int, off + 18);
    let _n = e.len();
    let a = decimal_u8(e[off + 5]);
    let s1 = join3(a, "~", decimal_u8(e[off + 6]));
    let s2 = join3(s1, " Hz (V) | ", decimal_u8(e[off + 7]));
    let s3 = join3(s2, "~", decimal_u8(e[off + 8]));
    let clock: u64 = (e[off + 9] as u64) * 10;
    let s4 = join3(s3, " kHz (H) | Max ", decimal_chars(clock));
    let out = append(s4, " MHz");
    assert(b[5] == e@[off + 5]);
    assert(b[6] == e@[off + 6]);
    assert(b[7] == e@[off + 7]);
    assert(b[8] == e@[off + 8]);
    assert(b[9] == e@[off + 9]);
    assert(out@ =~= range_text(b));
    out
}

fn header_ok(e: &[u8]) -> (b: bool)
    ensures
        b == edid_valid(e@),
{
    if e.len() < 128 {
        return false;
    }
    let ok = e[0] == 0x00 && e[1] == 0xFF && e[2] == 0xFF && e[3] == 0xFF && e[4] == 0xFF
        && e[5] == 0xFF && e[6] == 0xFF && e[7] == 0x00;
    proof {
        let h = seq![0x00u8, 0xFF, 0xFF, 0xFF, 0xFF, 0xFF, 0xFF, 0x00];
        if ok {
            assert(e@.take(8) =~= h);
        } else {
            if e@.take(8) == h {
                assert(e@.take(8)[0] == e@[0]);
                assert(e@.take(8)[7] == e@[7]);
                assert(e@.take(8)[1] == e@[1]);
                assert(e@.take(8)[2] == e@[2]);
                assert(e@.take(8)[3] == e@[3]);
                assert(e@.take(8)[4] == e@[4]);
                assert(e@.take(8)[5] == e@[5]);
                assert(e@.take(8)[6] == e@[6]);
            }
        }
    }
    ok
}

proof fn lemma_fields_push(v: Seq<(String, EdidValue)>, f: (String, EdidValue))
    ensures
        fields_view(v.push(f)) == fields_view(v).push((f.0@, f.1@)),
{
    assert(fields_view(v.push(f)) =~= fields_view(v).push((f.0@, f.1@)));
}

fn push_field(out: &mut Vec<(String, EdidValue)>, f: (String, EdidValue))
    ensures
        fields_view(final(out)@) == fields_view(old(out)@).push((f.0@, f.1@)),
{
    proof {
        lemma_fields_push(out@, f);
    }
    out.push(f);
}

fn push_identity(out: &mut Vec<(String, EdidValue)>, edid: &[u8])
    requires
        edid_valid(edid@),
    ensures
        fields_view(final(out)@) == fields_view(old(out)@) + identity_fields(edid@),
{
    let ghost e = edid@;
    let ghost start = fields_view(out@);
    push_field(out, text_field("Manufacturer", mfg_id_chars(edid[8], edid[9])));
    let pc = crate::text::hex_upper_padded_chars((edid[10] as u64) + (edid[11] as u64) * 256, 4);
    let pcs = crate::text::concat(chars_of("0x").as_slice(), pc.as_slice());
    push_field(out, text_field("Product Code", pcs));
    let ghost mid = fields_view(out@);
    let s_no: u32 = (edid[12] as u32) + (edid[13] as u32) * 256 + (edid[14] as u32) * 65536 + (
    edid[15] as u32) * 16777216;
    if s_no != 0 {
        push_field(out, (crate::text::string_of("Serial Number"), EdidValue::Number(s_no)));
    }
    let ghost after_serial = fields_view(out@);
    let week = edid[16];
    let year: u64 = edid[17] as u64 + 1990;
    let made = if week > 0 && week <= 54 {
        let w = decimal_u8(week);
        let a = crate::text::concat(chars_of("Week ").as_slice(), w.as_slice());
        join3(a, ", ", decimal_chars(year))
    } else {
        decimal_chars(year)
    };
    assert(made@ =~= manufactured_text(e));
    let digital = edid[20] & 0x80u8 != 0;
    let input = if digital {
        chars_of("Digital")
    } else {
        chars_of("Analog")
    };
    push_field(out, text_field("Manufactured", made));
    push_field(out, text_field("Input Signal", input));
    proof {
        let id = identity_fields(e);
        assert(mid =~= start + seq![
            ("Manufacturer"@, EdidValueView::Text(mfg_id(e))),
            ("Product Code"@, EdidValueView::Text(product_code_text(e))),
        ]);
        assert(after_serial =~= mid + opt_field(
            serial_number(e) != 0,
            "Serial Number"@,
            EdidValueView::Number(serial_number(e) as u32),
        ));
        assert(fields_view(out@) =~= start + id);
    }
}

/// The screen-size field, when both dimensions are set.
pub open spec fn screen_field(e: Seq<u8>) -> Seq<(Seq<char>, EdidValueView)> {
    opt_field(
        e[21] > 0 && e[22] > 0,
        "Screen Size"@,
        EdidValueView::Text(decimal(e[21] as nat) + " cm x "@ + decimal(e[22] as nat) + " cm"@),
    )
}

fn push_screen_gamma(out: &mut Vec<(String, EdidValue)>, edid: &[u8])
    requires
        edid_valid(edid@),
    ensures
        fields_view(final(out)@) == fields_view(old(out)@) + screen_field(edid@) + opt_field(
            edid@[23] > 0 && edid@[23] != 0xFF,
            "Gamma"@,
            EdidValueView::Text(gamma_text(edid@[23])),
        ),
{
    let ghost e = edid@;
    let ghost start = fields_view(out@);
    let width_cm = edid[21];
    let height_cm = edid[22];
    if width_cm > 0 && height_cm > 0 {
        let a = join3(decimal_u8(width_cm), " cm x ", decimal_u8(height_cm));
        push_field(out, text_field("Screen Size", append(a, " cm")));
    }
    let ghost s1 = fields_view(out@);
    assert(s1 =~= start + screen_field(e));
    let gamma = edid[23];
    if gamma > 0 && gamma != 0xFF {
        push_field(out, text_field("Gamma", gamma_chars(gamma)));
    }
    assert(fields_view(out@) =~= s1 + opt_field(
        e[23] > 0 && e[23] != 0xFF,
        "Gamma"@,
        EdidValueView::Text(gamma_text(e[23])),
    ));
}

fn push_features(out: &mut Vec<(String, EdidValue)>, edid: &[u8])
    requires
        edid_valid(edid@),
    ensures
        fields_view(final(out)@) == fields_view(old(out)@) + opt_field(
            dpms_parts(edid@[24]).len() > 0,
            "DPMS Features"@,
            EdidValueView::Text(crate::text::join(dpms_parts(edid@[24]), ", "@)),
        ) + seq![
            (
                "Color Format"@,
                EdidValueView::Text(color_text(edid@[20] & 0x80u8 != 0, edid@[24])),
            ),
        ],
{
    let ghost e = edid@;
    let ghost start = fields_view(out@);
    let features = edid[24];
    let any_dpms = features & 0x80u8 != 0 || features & 0x40u8 != 0 || features & 0x20u8 != 0;
    assert(any_dpms == (dpms_parts(features).len() > 0));
    if any_dpms {
        push_field(out, text_field("DPMS Features", dpms_chars(features)));
    }
    let ghost s3 = fields_view(out@);
    assert(s3 =~= start + opt_field(
        dpms_parts(e[24]).len() > 0,
        "DPMS Features"@,
        EdidValueView::Text(crate::text::join(dpms_parts(e[24]), ", "@)),
    ));
    let digital = edid[20] & 0x80u8 != 0;
    push_field(out, text_field("Color Format", color_chars(digital, features)));
}

fn push_native(out: &mut Vec<(String, EdidValue)>, edid: &[u8])
    requires
        edid_valid(edid@),
    ensures
        fields_view(final(out)@) == fields_view(old(out)@) + opt_field(
            has_native_timing(edid@),
            "Native Res"@,
            EdidValueView::Text(native_res_text(edid@)),
        ),
{
    let ghost e = edid@;
    let ghost start = fields_view(out@);
    let b0 = edid[54];
    let b1 = edid[55];
    let b2 = edid[56];
    assert(block(e, 0)[0] == b0 && block(e, 0)[1] == b1 && block(e, 0)[2] == b2);
    if (b0 != 0 || b1 != 0 || b2 != 0) && ((b0 as u32) + (b1 as u32) * 256) > 0 {
        let h: u64 = (b2 as u64) + ((edid[58] / 16) as u64) * 256;
        let v: u64 = (edid[59] as u64) + ((edid[61] / 16) as u64) * 256;
        let t = join3(decimal_chars(h), "x", decimal_chars(v));
        assert(block(e, 0)[4] == e[58] && block(e, 0)[5] == e[59] && block(e, 0)[7] == e[61]);
        assert(t@ =~= native_res_text(e));
        push_field(out, text_field("Native Res", t));
    }
    assert(fields_view(out@) =~= start + opt_field(
        has_native_timing(e),
        "Native Res"@,
        EdidValueView::Text(native_res_text(e)),
    ));
}

fn push_display(out: &mut Vec<(String, EdidValue)>, edid: &[u8])
    requires
        edid_valid(edid@),
    ensures
        fields_view(final(out)@) == fields_view(old(out)@) + display_fields(edid@),
{
    let ghost start = fields_view(out@);
    push_screen_gamma(out, edid);
    push_features(out, edid);
    push_native(out, edid);
    assert(fields_view(out@) =~= start + display_fields(edid@));
}

fn push_descriptors(out: &mut Vec<(String, EdidValue)>, edid: &[u8])
    requires
        edid_valid(edid@),
    ensures
        fields_view(final(out)@) == fields_view(old(out)@) + descriptor_fields(edid@),
{
    let ghost e = edid@;
    let ghost start = fields_view(out@);
    let mut name: Vec<char> = Vec::new();
    let mut serial: Vec<char> = Vec::new();
    let mut range: Vec<char> = Vec::new();
    let mut i: usize = 0;
    while i < 4
        invariant
            i <= 4,
            e == edid@,
            edid@.len() >= 128,
            name@ == text_after(e, 0xFC, i as nat),
            serial@ == text_after(e, 0xFF, i as nat),
            range@ == range_after(e, i as nat),
        decreases 4 - i,
    {
        let off = 54 + i * 18;
        let ghost b = block(e, i as nat);
        assert(b =~= edid@.subrange(off as int, off + 18));
        assert(b[0] == edid@[off as int] && b[1] == edid@[off + 1] && b[2] == edid@[off + 2]
            && b[3] == edid@[off + 3]);
        if edid[off] == 0 && edid[off + 1] == 0 && edid[off + 2] == 0 {
            let tag = edid[off + 3];
            if tag == 0xFC {
                name = descriptor_chars(edid, off);
            } else if tag == 0xFF {
                serial = descriptor_chars(edid, off);
            } else if tag == 0xFD {
                range = range_chars(edid, off);
            }
        }
        i = i + 1;
    }
    let ghost nm = text_after(e, 0xFC, 4);
    let ghost sr = text_after(e, 0xFF, 4);
    let ghost rg = range_after(e, 4);
    if name.len() > 0 {
        push_field(out, text_field("Model Name", name));
    }
    let ghost s1 = fields_view(out@);
    if serial.len() > 0 {
        push_field(out, text_field("Serial Number", serial));
    }
    let ghost s2 = fields_view(out@);
    if range.len() > 0 {
        push_field(out, text_field("Range Limits", range));
    }
    proof {
        assert(s1 =~= start + opt_field(nm.len() > 0, "Model Name"@, EdidValueView::Text(nm)));
        assert(s2 =~= s1 + opt_field(sr.len() > 0, "Serial Number"@, EdidValueView::Text(sr)));
        assert(fields_view(out@) =~= s2 + opt_field(
            rg.len() > 0,
            "Range Limits"@,
            EdidValueView::Text(rg),
        ));
        assert(fields_view(out@) =~= start + descriptor_fields(e));
    }
}

/// Interprets an EDID base block as labelled fields (see [`edid_fields`]):
/// anything that is not a 128-byte base block gives no fields.
pub fn parse_edid(edid: &[u8]) -> (out: Vec<(String, EdidValue)>)
    ensures
        fields_view(out@) == edid_fields(edid@),
{
    let mut out: Vec<(String, EdidValue)> = Vec::new();
    assert(fields_view(out@) =~= Seq::<(Seq<char>, EdidValueView)>::empty());
    if !header_ok(edid) {
        return out;
    }
    push_identity(&mut out, edid);
    push_display(&mut out, edid);
    push_descriptors(&mut out, edid);
    assert(fields_view(out@) =~= edid_fields(edid@));
    out
}

// ---------------------------------------------------------------------------
// Round trip
// ---------------------------------------------------------------------------

proof fn lemma_upper_hex_concat(a: Seq<u8>, b: Seq<u8>)
    ensures
        upper_hex_bytes(a + b) == upper_hex_bytes(a) + upper_hex_bytes(b),
    decreases b.len(),
{
    if b.len() == 0 {
        assert(a + b =~= a);
        assert(upper_hex_bytes(b) =~= Seq::<char>::empty());
        assert(upper_hex_bytes(a) + upper_hex_bytes(b) =~= upper_hex_bytes(a));
    } else {
        lemma_upper_hex_concat(a, b.drop_last());
        assert((a + b).drop_last() =~= a + b.drop_last());
        assert((a + b).last() == b.last());
    }
}

proof fn lemma_upper_hex_len(b: Seq<u8>)
    ensures
        upper_hex_bytes(b).len() == 2 * b.len(),
        forall|j: int|
            0 <= j < upper_hex_bytes(b).len() ==> {
                let c = #[trigger] upper_hex_bytes(b)[j];
                (48 <= c as u32 <= 57) || (65 <= c as u32 <= 70)
            },
    decreases b.len(),
{
    if b.len() > 0 {
        lemma_upper_hex_len(b.drop_last());
    }
}

proof fn lemma_hex_digit_round_trip(d: nat)
    requires
        d < 16,
    ensures
        digit_value(hex_char_upper(d), 16) == Some(d),
{
}

proof fn lemma_hex_pairs_of_upper_hex(b: Seq<u8>, off: nat)
    ensures
        hex_pairs(upper_hex_bytes(b), off) == Ok::<Seq<u8>, nat>(b),
        !hex_pairs_split_char(upper_hex_bytes(b)),
    decreases b.len(),
{
    if b.len() > 0 {
        let x = b[0];
        let rest = b.drop_first();
        assert(b =~= seq![x] + rest);
        lemma_upper_hex_concat(seq![x], rest);
        let pair = upper_hex_bytes(seq![x]);
        assert(seq![x].drop_last() =~= Seq::<u8>::empty());
        assert(seq![x].last() == x);
        assert(upper_hex_bytes(Seq::<u8>::empty()) =~= Seq::<char>::empty());
        assert(pair =~= seq![hex_char_upper((x / 16) as nat), hex_char_upper((x % 16) as nat)]);
        let h = upper_hex_bytes(b);
        assert(h =~= pair + upper_hex_bytes(rest));
        assert(h.take(2) =~= pair);
        assert(h.skip(2) =~= upper_hex_bytes(rest));
        lemma_hex_digit_round_trip((x / 16) as nat);
        lemma_hex_digit_round_trip((x % 16) as nat);
        assert(pair.drop_last() =~= seq![hex_char_upper((x / 16) as nat)]);
        assert(pair.drop_last().drop_last() =~= Seq::<char>::empty());
        reveal_with_fuel(crate::text::digits_value, 3);
        assert(crate::text::digits_value(pair, 16) == Some((x / 16) as nat * 16 + (x % 16) as nat));
        assert(parse_unsigned(h.take(2), 16, 255) == Some(x as nat));
        lemma_hex_pairs_of_upper_hex(rest, off + 2);
        assert(seq![x as nat as u8] + rest =~= b);
    } else {
        assert(b =~= Seq::<u8>::empty());
    }
}

/// Rendering bytes as upper-case hex and parsing the text back gives the
/// same bytes, and the parse never slices through a character.
pub proof fn lemma_edid_hex_round_trip(b: Seq<u8>)
    ensures
        !edid_hex_splits_char(upper_hex_bytes(b)),
        parse_edid_hex_spec(upper_hex_bytes(b)) == Ok::<Seq<u8>, Seq<char>>(b),
{
    let h = upper_hex_bytes(b);
    lemma_upper_hex_len(b);
    if h.len() > 0 {
        let c0 = h[0];
        let cl = h[h.len() - 1];
        assert(!crate::text::is_ws(c0));
        assert(!crate::text::is_ws(cl));
    }
    assert(trim(h) == h);
    lemma_ascii_byte_len(h);
    lemma_hex_pairs_of_upper_hex(b, 0);
}

proof fn lemma_ascii_byte_len(s: Seq<char>)
    requires
        forall|j: int| 0 <= j < s.len() ==> (s[j] as u32) < 0x80,
    ensures
        byte_len(s) == s.len(),
    decreases s.len(),
{
    if s.len() > 0 {
        lemma_ascii_byte_len(s.drop_last());
    }
}

} // verus!
