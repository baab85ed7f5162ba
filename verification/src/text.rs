//! Character-level text handling shared by the command-line and profile
//! parsers: Unicode whitespace trimming, ASCII case folding, splitting on a
//! separator, and integer parsing/printing with the semantics of Rust's
//! `FromStr` / `from_str_radix` for the integer types.
use vstd::prelude::*;

verus! {

// ---------------------------------------------------------------------------
// Specifications
// ---------------------------------------------------------------------------

/// `char::is_whitespace`: the Unicode `White_Space` property.
pub open spec fn is_ws(c: char) -> bool {
    let u = c as u32;
    ||| 9 <= u <= 13
    ||| u == 32
    ||| u == 0x85
    ||| u == 0xA0
    ||| u == 0x1680
    ||| 0x2000 <= u <= 0x200A
    ||| u == 0x2028
    ||| u == 0x2029
    ||| u == 0x202F
    ||| u == 0x205F
    ||| u == 0x3000
}

/// `str::trim_start`.
pub open spec fn trim_start(s: Seq<char>) -> Seq<char>
    decreases s.len(),
{
    if s.len() > 0 && is_ws(s[0]) {
        trim_start(s.drop_first())
    } else {
        s
    }
}

/// `str::trim_end`.
pub open spec fn trim_end(s: Seq<char>) -> Seq<char>
    decreases s.len(),
{
    if s.len() > 0 && is_ws(s.last()) {
        trim_end(s.drop_last())
    } else {
        s
    }
}

/// `str::trim`.
pub open spec fn trim(s: Seq<char>) -> Seq<char> {
    trim_end(trim_start(s))
}

pub open spec fn is_upper_ascii(c: char) -> bool {
    65 <= (c as u32) <= 90
}

/// `char::to_ascii_lowercase`.
pub open spec fn lower_char(c: char) -> char {
    if is_upper_ascii(c) {
        ((c as u32) + 32) as char
    } else {
        c
    }
}

/// `char::to_ascii_uppercase`.
pub open spec fn upper_char(c: char) -> char {
    if 97 <= (c as u32) <= 122 {
        ((c as u32) - 32) as char
    } else {
        c
    }
}

/// `str::to_ascii_lowercase`.
pub open spec fn lower(s: Seq<char>) -> Seq<char> {
    s.map_values(|c: char| lower_char(c))
}

/// `str::to_ascii_uppercase`.
pub open spec fn upper(s: Seq<char>) -> Seq<char> {
    s.map_values(|c: char| upper_char(c))
}

/// `str::split(sep)`: the pieces between separators, empty pieces included.
pub open spec fn split_on(s: Seq<char>, sep: char) -> Seq<Seq<char>>
    decreases s.len(),
{
    if s.len() == 0 {
        seq![Seq::<char>::empty()]
    } else {
        let r = split_on(s.drop_last(), sep);
        if s.last() == sep {
            r.push(Seq::<char>::empty())
        } else {
            r.update(r.len() - 1, r.last().push(s.last()))
        }
    }
}

/// Index of the first occurrence of `c` in `s`.
pub open spec fn first_index(s: Seq<char>, c: char) -> Option<nat>
    decreases s.len(),
{
    if s.len() == 0 {
        None
    } else if s[0] == c {
        Some(0)
    } else {
        match first_index(s.drop_first(), c) {
            Some(i) => Some(i + 1),
            None => None,
        }
    }
}

/// `str::split_once(c)`.
pub open spec fn split_once(s: Seq<char>, c: char) -> Option<(Seq<char>, Seq<char>)> {
    match first_index(s, c) {
        Some(i) => Some((s.take(i as int), s.skip(i as int + 1))),
        None => None,
    }
}

pub open spec fn has_prefix(s: Seq<char>, p: Seq<char>) -> bool {
    p.len() <= s.len() && s.take(p.len() as int) == p
}

pub open spec fn has_suffix(s: Seq<char>, p: Seq<char>) -> bool {
    p.len() <= s.len() && s.skip(s.len() - p.len()) == p
}

/// Value of one digit in the given radix (both letter cases accepted).
pub open spec fn digit_value(c: char, radix: nat) -> Option<nat> {
    let u = c as u32;
    let v: int = if 48 <= u <= 57 {
        u - 48
    } else if 97 <= u <= 122 {
        u - 87
    } else if 65 <= u <= 90 {
        u - 55
    } else {
        radix as int
    };
    if v < radix {
        Some(v as nat)
    } else {
        None
    }
}

/// Value of a digit string, most significant digit first.
pub open spec fn digits_value(s: Seq<char>, radix: nat) -> Option<nat>
    decreases s.len(),
{
    if s.len() == 0 {
        Some(0)
    } else {
        match (digits_value(s.drop_last(), radix), digit_value(s.last(), radix)) {
            (Some(h), Some(d)) => Some(h * radix + d),
            _ => None,
        }
    }
}

/// Magnitude of an unsigned integer literal as `from_str_radix` reads it:
/// an optional `+`, then at least one digit.
pub open spec fn unsigned_magnitude(s: Seq<char>, radix: nat) -> Option<nat> {
    let body = if s.len() > 0 && s[0] == '+' {
        s.drop_first()
    } else {
        s
    };
    if body.len() == 0 {
        None
    } else {
        digits_value(body, radix)
    }
}

/// `from_str_radix` for an unsigned type whose largest value is `max`.
pub open spec fn parse_unsigned(s: Seq<char>, radix: nat, max: nat) -> Option<nat> {
    match unsigned_magnitude(s, radix) {
        Some(v) => if v <= max {
            Some(v)
        } else {
            None
        },
        None => None,
    }
}

/// `i32::from_str`: an optional sign, then at least one decimal digit.
pub open spec fn parse_i32_spec(s: Seq<char>) -> Option<i32> {
    if s.len() > 0 && s[0] == '-' {
        let body = s.drop_first();
        if body.len() == 0 {
            None
        } else {
            match digits_value(body, 10) {
                Some(v) => if v <= 0x8000_0000 {
                    Some((0 - v) as i32)
                } else {
                    None
                },
                None => None,
            }
        }
    } else {
        match parse_unsigned(s, 10, 0x7FFF_FFFF) {
            Some(v) => Some(v as i32),
            None => None,
        }
    }
}

/// Decimal rendering of a natural number (`{}`), no leading zeros.
pub open spec fn decimal(n: nat) -> Seq<char>
    decreases n,
{
    if n < 10 {
        seq![digit_char(n)]
    } else {
        decimal(n / 10).push(digit_char(n % 10))
    }
}

/// Decimal text is non-empty, made of digits, and reads back as its
/// number.
pub proof fn lemma_decimal_digits(n: nat)
    ensures
        decimal(n).len() > 0,
        forall|i: int| 0 <= i < decimal(n).len() ==> '0' <= #[trigger] decimal(n)[i] <= '9',
        digits_value(decimal(n), 10) == Some(n),
    decreases n,
{
    let h = decimal(n);
    if n >= 10 {
        lemma_decimal_digits(n / 10);
        assert(h.drop_last() =~= decimal(n / 10));
        assert(h.last() == digit_char(n % 10));
        assert(digit_value(digit_char(n % 10), 10) == Some(n % 10));
        assert(n == (n / 10) * 10 + n % 10);
        assert forall|i: int| 0 <= i < h.len() implies '0' <= #[trigger] h[i] <= '9' by {
            if i < h.len() - 1 {
                assert(h[i] == decimal(n / 10)[i]);
            }
        }
    } else {
        assert(h.drop_last() =~= Seq::<char>::empty());
        assert(digits_value(h.drop_last(), 10) == Some(0nat));
        assert(digit_value(digit_char(n), 10) == Some(n));
    }
}

/// A number written in decimal parses back to itself wherever it fits.
pub proof fn lemma_decimal_parses_back(n: nat, max: nat)
    requires
        n <= max,
    ensures
        parse_unsigned(decimal(n), 10, max) == Some(n),
        trim(decimal(n)) == decimal(n),
{
    lemma_decimal_digits(n);
    let h = decimal(n);
    assert('0' <= h[0] <= '9');
    assert(h[0] != '+');
    assert('0' <= h.last() <= '9');
    assert(!is_ws(h[0]));
    assert(!is_ws(h.last()));
}

/// Decimal rendering of a signed integer.
pub open spec fn decimal_int(n: int) -> Seq<char> {
    if n < 0 {
        seq!['-'] + decimal((0 - n) as nat)
    } else {
        decimal(n as nat)
    }
}

pub open spec fn digit_char(d: nat) -> char {
    ((d + 48) as u32) as char
}

/// One upper-case hexadecimal digit.
pub open spec fn hex_char_upper(d: nat) -> char {
    if d < 10 {
        ((d + 48) as u32) as char
    } else {
        ((d + 55) as u32) as char
    }
}

/// Upper-case hexadecimal rendering (`{:X}`), no leading zeros.
pub open spec fn hex_upper(n: nat) -> Seq<char>
    decreases n,
{
    if n < 16 {
        seq![hex_char_upper(n)]
    } else {
        hex_upper(n / 16).push(hex_char_upper(n % 16))
    }
}

/// `{:0w$X}`: upper-case hexadecimal left-padded with zeros to width `w`.
pub open spec fn hex_upper_padded(n: nat, w: nat) -> Seq<char> {
    let h = hex_upper(n);
    if h.len() >= w {
        h
    } else {
        Seq::new((w - h.len()) as nat, |i: int| '0') + h
    }
}

// ---------------------------------------------------------------------------
// Conversions between `str`/`String` and character vectors
// ---------------------------------------------------------------------------

/// The characters of `s`, in order.
pub fn chars_of(s: &str) -> (out: Vec<char>)
    ensures
        out@ == s@,
{
    let mut out: Vec<char> = Vec::new();
    for c in it: s.chars()
        invariant
            out@ == it.seq().take(it.index() as int),
    {
        out.push(c);
    }
    out
}

/// Collects characters into a `String` with std's `FromIterator<char> for
/// String` (`Iterator::collect`). Trusted: the string holds exactly these
/// characters, in order.
#[verifier::external_body]
pub(crate) fn string_from_chars(chars: &[char]) -> (s: String)
    ensures
        s@ == chars@,
{
    chars.iter().collect()
}

/// A `String` holding the characters of `s`.
pub fn string_of(s: &str) -> (out: String)
    ensures
        out@ == s@,
{
    let v = chars_of(s);
    string_from_chars(v.as_slice())
}

/// Whether the characters `s` spell the string `lit`.
pub fn eq_str(s: &[char], lit: &str) -> (b: bool)
    ensures
        b == (s@ == lit@),
{
    let l = chars_of(lit);
    eq_chars(s, l.as_slice())
}

/// Character-sequence equality.
pub fn eq_chars(a: &[char], b: &[char]) -> (r: bool)
    ensures
        r == (a@ == b@),
{
    if a.len() != b.len() {
        return false;
    }
    let mut i: usize = 0;
    while i < a.len()
        invariant
            a@.len() == b@.len(),
            i <= a@.len(),
            forall|j: int| 0 <= j < i ==> a@[j] == b@[j],
        decreases a@.len() - i,
    {
        if a[i] != b[i] {
            return false;
        }
        i = i + 1;
    }
    assert(a@ =~= b@);
    true
}

/// Copy of `s[from..to]`.
pub fn slice_copy(s: &[char], from: usize, to: usize) -> (out: Vec<char>)
    requires
        from <= to <= s@.len(),
    ensures
        out@ == s@.subrange(from as int, to as int),
{
    let mut out: Vec<char> = Vec::new();
    let mut i = from;
    while i < to
        invariant
            from <= i <= to <= s@.len(),
            out@ == s@.subrange(from as int, i as int),
        decreases to - i,
    {
        out.push(s[i]);
        i = i + 1;
        assert(out@ =~= s@.subrange(from as int, i as int));
    }
    out
}

/// Concatenation of two character sequences.
pub fn concat(a: &[char], b: &[char]) -> (out: Vec<char>)
    ensures
        out@ == a@ + b@,
{
    let mut out = slice_copy(a, 0, a.len());
    let mut i: usize = 0;
    while i < b.len()
        invariant
            i <= b@.len(),
            out@ == a@ + b@.take(i as int),
        decreases b@.len() - i,
    {
        out.push(b[i]);
        i = i + 1;
        assert(out@ =~= a@ + b@.take(i as int));
    }
    assert(b@.take(b@.len() as int) =~= b@);
    out
}

/// A `String` holding the literal `lit` followed by the characters `tail`.
pub fn message(lit: &str, tail: &[char]) -> (out: String)
    ensures
        out@ == lit@ + tail@,
{
    let l = chars_of(lit);
    let v = concat(l.as_slice(), tail);
    string_from_chars(v.as_slice())
}

// ---------------------------------------------------------------------------
// Trimming, case folding, searching
// ---------------------------------------------------------------------------

/// `char::is_whitespace`.
pub fn is_whitespace(c: char) -> (b: bool)
    ensures
        b == is_ws(c),
{
    let u = c as u32;
    (9 <= u && u <= 13) || u == 32 || u == 0x85 || u == 0xA0 || u == 0x1680 || (0x2000 <= u && u
        <= 0x200A) || u == 0x2028 || u == 0x2029 || u == 0x202F || u == 0x205F || u == 0x3000
}

proof fn lemma_trim_start_skip(s: Seq<char>, i: int)
    requires
        0 <= i <= s.len(),
        forall|j: int| 0 <= j < i ==> is_ws(#[trigger] s[j]),
    ensures
        trim_start(s) == trim_start(s.skip(i)),
    decreases i,
{
    if i > 0 {
        assert(is_ws(s[0]));
        assert(s.drop_first().skip(i - 1) =~= s.skip(i));
        assert forall|j: int| 0 <= j < i - 1 implies is_ws(#[trigger] s.drop_first()[j]) by {
            assert(s.drop_first()[j] == s[j + 1]);
        }
        lemma_trim_start_skip(s.drop_first(), i - 1);
    } else {
        assert(s.skip(0) =~= s);
    }
}

proof fn lemma_trim_end_take(s: Seq<char>, i: int)
    requires
        0 <= i <= s.len(),
        forall|j: int| i <= j < s.len() ==> is_ws(#[trigger] s[j]),
    ensures
        trim_end(s) == trim_end(s.take(i)),
    decreases s.len() - i,
{
    if i < s.len() {
        assert(is_ws(s[s.len() - 1]));
        assert(s.drop_last().take(i) =~= s.take(i));
        assert forall|j: int| i <= j < s.drop_last().len() implies is_ws(
            #[trigger] s.drop_last()[j],
        ) by {
            assert(s.drop_last()[j] == s[j]);
        }
        lemma_trim_end_take(s.drop_last(), i);
    } else {
        assert(s.take(i) =~= s);
    }
}

/// `str::trim`.
pub fn trim_chars(s: &[char]) -> (out: Vec<char>)
    ensures
        out@ == trim(s@),
{
    let mut i: usize = 0;
    while i < s.len() && is_whitespace(s[i])
        invariant
            i <= s@.len(),
            forall|j: int| 0 <= j < i ==> is_ws(#[trigger] s@[j]),
        decreases s@.len() - i,
    {
        i = i + 1;
    }
    proof {
        lemma_trim_start_skip(s@, i as int);
    }
    let mut j: usize = s.len();
    while j > i && is_whitespace(s[j - 1])
        invariant
            i <= j <= s@.len(),
            forall|k: int| j <= k < s@.len() ==> is_ws(#[trigger] s@[k]),
        decreases j,
    {
        j = j - 1;
    }
    proof {
        let t = s@.skip(i as int);
        assert(i == s@.len() || !is_ws(t[0]));
        assert(trim_start(t) == t);
        assert forall|k: int| (j - i) <= k < t.len() implies is_ws(#[trigger] t[k]) by {
            assert(t[k] == s@[k + i]);
        }
        lemma_trim_end_take(t, j - i);
        let u = t.take(j - i);
        assert(u.len() == 0 || !is_ws(u.last())) by {
            if u.len() > 0 {
                assert(u.last() == s@[j - 1]);
            }
        }
        assert(trim_end(u) == u);
        assert(u =~= s@.subrange(i as int, j as int));
    }
    slice_copy(s, i, j)
}

/// `char::to_ascii_lowercase`.
pub fn to_lower(c: char) -> (r: char)
    ensures
        r == lower_char(c),
{
    let u = c as u32;
    if 65 <= u && u <= 90 {
        let b = (u + 32) as u8;
        b as char
    } else {
        c
    }
}

/// `char::to_ascii_uppercase`.
pub fn to_upper(c: char) -> (r: char)
    ensures
        r == upper_char(c),
{
    let u = c as u32;
    if 97 <= u && u <= 122 {
        let b = (u - 32) as u8;
        b as char
    } else {
        c
    }
}

/// `str::to_ascii_lowercase`.
pub fn lower_chars(s: &[char]) -> (out: Vec<char>)
    ensures
        out@ == lower(s@),
{
    let mut out: Vec<char> = Vec::new();
    let mut i: usize = 0;
    while i < s.len()
        invariant
            i <= s@.len(),
            out@ == lower(s@.take(i as int)),
        decreases s@.len() - i,
    {
        out.push(to_lower(s[i]));
        i = i + 1;
        assert(out@ =~= lower(s@.take(i as int)));
    }
    assert(s@.take(s@.len() as int) =~= s@);
    out
}

/// `str::to_ascii_uppercase`.
pub fn upper_chars(s: &[char]) -> (out: Vec<char>)
    ensures
        out@ == upper(s@),
{
    let mut out: Vec<char> = Vec::new();
    let mut i: usize = 0;
    while i < s.len()
        invariant
            i <= s@.len(),
            out@ == upper(s@.take(i as int)),
        decreases s@.len() - i,
    {
        out.push(to_upper(s[i]));
        i = i + 1;
        assert(out@ =~= upper(s@.take(i as int)));
    }
    assert(s@.take(s@.len() as int) =~= s@);
    out
}

/// `str::trim` followed by `str::to_ascii_lowercase`.
pub fn trim_lower(s: &[char]) -> (out: Vec<char>)
    ensures
        out@ == lower(trim(s@)),
{
    let t = trim_chars(s);
    lower_chars(t.as_slice())
}

/// Position of the first `c` in `s`.
pub fn find_char(s: &[char], c: char) -> (r: Option<usize>)
    ensures
        match r {
            Some(i) => first_index(s@, c) == Some(i as nat) && i < s@.len() && s@[i as int] == c,
            None => first_index(s@, c) is None,
        },
{
    let mut i: usize = 0;
    while i < s.len()
        invariant
            i <= s@.len(),
            forall|j: int| 0 <= j < i ==> s@[j] != c,
        decreases s@.len() - i,
    {
        if s[i] == c {
            proof {
                lemma_first_index_at(s@, c, i as int);
            }
            return Some(i);
        }
        i = i + 1;
    }
    proof {
        lemma_first_index_at(s@, c, s@.len() as int);
    }
    None
}

proof fn lemma_first_index_at(s: Seq<char>, c: char, i: int)
    requires
        0 <= i <= s.len(),
        forall|j: int| 0 <= j < i ==> s[j] != c,
    ensures
        i < s.len() && s[i] == c ==> first_index(s, c) == Some(i as nat),
        i == s.len() ==> first_index(s, c) is None,
    decreases i,
{
    if i > 0 {
        lemma_first_index_at(s.drop_first(), c, i - 1);
    } else if s.len() > 0 {
    }
}

/// `str::split_once(c)`.
pub fn split_once_chars(s: &[char], c: char) -> (r: Option<(Vec<char>, Vec<char>)>)
    ensures
        match r {
            Some((a, b)) => split_once(s@, c) == Some((a@, b@)),
            None => split_once(s@, c) is None,
        },
{
    let found = find_char(s, c);
    match found {
        Some(i) => {
            assert(i < s@.len());
            assert(i < s.len());
            let a = slice_copy(s, 0, i);
            let b = slice_copy(s, i + 1, s.len());
            assert(a@ =~= s@.take(i as int));
            assert(b@ =~= s@.skip(i + 1));
            Some((a, b))
        },
        None => None,
    }
}

/// The character sequences held by a vector of pieces.
pub open spec fn pieces_view(v: Seq<Vec<char>>) -> Seq<Seq<char>> {
    v.map_values(|p: Vec<char>| p@)
}

/// `str::split(sep)`.
pub fn split_chars(s: &[char], sep: char) -> (out: Vec<Vec<char>>)
    ensures
        pieces_view(out@) == split_on(s@, sep),
{
    let mut done: Vec<Vec<char>> = Vec::new();
    let mut cur: Vec<char> = Vec::new();
    let mut i: usize = 0;
    assert(s@.take(0) =~= Seq::<char>::empty());
    while i < s.len()
        invariant
            i <= s@.len(),
            pieces_view(done@).push(cur@) == split_on(s@.take(i as int), sep),
        decreases s@.len() - i,
    {
        let ghost before = pieces_view(done@).push(cur@);
        let ch = s[i];
        let ghost t = s@.take(i as int + 1);
        assert(t.drop_last() =~= s@.take(i as int));
        assert(t.last() == ch);
        if ch == sep {
            let finished = cur;
            done.push(finished);
            cur = Vec::new();
            assert(pieces_view(done@) =~= before);
            assert(pieces_view(done@).push(cur@) =~= before.push(Seq::<char>::empty()));
        } else {
            let ghost d0 = pieces_view(done@);
            cur.push(ch);
            assert(pieces_view(done@).push(cur@) =~= before.update(
                before.len() - 1,
                before.last().push(ch),
            ));
        }
        i = i + 1;
    }
    assert(s@.take(s@.len() as int) =~= s@);
    let ghost d1 = pieces_view(done@);
    done.push(cur);
    assert(pieces_view(done@) =~= d1.push(cur@));
    done
}

pub fn starts_with_str(s: &[char], p: &str) -> (b: bool)
    ensures
        b == has_prefix(s@, p@),
{
    let pc = chars_of(p);
    if pc.len() > s.len() {
        return false;
    }
    let head = slice_copy(s, 0, pc.len());
    eq_chars(head.as_slice(), pc.as_slice())
}

pub fn ends_with_str(s: &[char], p: &str) -> (b: bool)
    ensures
        b == has_suffix(s@, p@),
{
    let pc = chars_of(p);
    if pc.len() > s.len() {
        return false;
    }
    let tail = slice_copy(s, s.len() - pc.len(), s.len());
    assert(tail@ =~= s@.skip(s@.len() - pc@.len()));
    eq_chars(tail.as_slice(), pc.as_slice())
}

// ---------------------------------------------------------------------------
// Integer parsing
// ---------------------------------------------------------------------------

/// Value of one digit in `radix` (2..=36).
pub fn digit(c: char, radix: u32) -> (r: Option<u32>)
    requires
        2 <= radix <= 36,
    ensures
        match r {
            Some(v) => digit_value(c, radix as nat) == Some(v as nat),
            None => digit_value(c, radix as nat) is None,
        },
{
    let u = c as u32;
    let v: u32 = if 48 <= u && u <= 57 {
        u - 48
    } else if 97 <= u && u <= 122 {
        u - 87
    } else if 65 <= u && u <= 90 {
        u - 55
    } else {
        radix
    };
    if v < radix {
        Some(v)
    } else {
        None
    }
}

/// Value of the digit string `s` in `radix` when it is at most `max`.
fn digits_upto(s: &[char], radix: u32, max: u64) -> (r: Option<u64>)
    requires
        2 <= radix <= 36,
    ensures
        match r {
            Some(v) => digits_value(s@, radix as nat) == Some(v as nat) && v <= max,
            None => digits_value(s@, radix as nat) matches Some(v) ==> v > max,
        },
{
    let mut acc: u64 = 0;
    let mut over = false;
    let mut i: usize = 0;
    assert(s@.take(0) =~= Seq::<char>::empty());
    while i < s.len()
        invariant
            2 <= radix <= 36,
            i <= s@.len(),
            digits_value(s@.take(i as int), radix as nat) is Some,
            digits_value(s@.take(i as int), radix as nat) matches Some(v) ==> (if over {
                v > max
            } else {
                v == acc && acc <= max
            }),
        decreases s@.len() - i,
    {
        let ghost t = s@.take(i as int + 1);
        assert(t.drop_last() =~= s@.take(i as int));
        match digit(s[i], radix) {
            None => {
                assert(digits_value(t, radix as nat) is None);
                proof {
                    lemma_none_extends(s@, radix as nat, i as int + 1);
                }
                return None;
            },
            Some(d) => {
                let ghost h = digits_value(s@.take(i as int), radix as nat).unwrap();
                assert(digits_value(t, radix as nat) == Some((h * radix + d) as nat));
                if !over {
                    if (d as u64) <= max && acc <= (max - d as u64) / (radix as u64) {
                        proof {
                            lemma_fits(acc as int, radix as int, d as int, max as int);
                        }
                        acc = acc * (radix as u64) + d as u64;
                    } else {
                        proof {
                            lemma_exceeds(acc as int, radix as int, d as int, max as int);
                        }
                        over = true;
                    }
                } else {
                    proof {
                        lemma_grows(h as int, radix as int, d as int);
                    }
                }
            },
        }
        i = i + 1;
    }
    assert(s@.take(s@.len() as int) =~= s@);
    if over {
        None
    } else {
        Some(acc)
    }
}

proof fn lemma_fits(a: int, r: int, d: int, m: int)
    requires
        r > 0,
        a >= 0,
        0 <= d <= m,
        a <= (m - d) / r,
    ensures
        a * r + d <= m,
{
    assert(a * r <= ((m - d) / r) * r) by (nonlinear_arith)
        requires
            r > 0,
            a >= 0,
            a <= (m - d) / r,
    ;
    assert(((m - d) / r) * r <= m - d) by (nonlinear_arith)
        requires
            r > 0,
            m - d >= 0,
    ;
}

proof fn lemma_exceeds(a: int, r: int, d: int, m: int)
    requires
        r > 0,
        a >= 0,
        d >= 0,
        m >= 0,
        !(d <= m && a <= (m - d) / r),
    ensures
        a * r + d > m,
{
    assert(a * r >= 0) by (nonlinear_arith)
        requires
            r > 0,
            a >= 0,
    ;
    if d <= m {
        let q = (m - d) / r;
        assert(a >= q + 1);
        assert(a * r >= (q + 1) * r) by (nonlinear_arith)
            requires
                r > 0,
                a >= q + 1,
        ;
        assert((q + 1) * r > m - d) by (nonlinear_arith)
            requires
                r > 0,
                m - d >= 0,
                q == (m - d) / r,
        ;
    }
}

proof fn lemma_grows(h: int, r: int, d: int)
    requires
        r >= 1,
        h >= 0,
        d >= 0,
    ensures
        h * r + d >= h,
{
    assert(h * r >= h) by (nonlinear_arith)
        requires
            r >= 1,
            h >= 0,
    ;
}

proof fn lemma_none_extends(s: Seq<char>, radix: nat, i: int)
    requires
        0 <= i <= s.len(),
        digits_value(s.take(i), radix) is None,
    ensures
        digits_value(s, radix) is None,
    decreases s.len() - i,
{
    if i < s.len() {
        let t = s.take(i + 1);
        assert(t.drop_last() =~= s.take(i));
        lemma_none_extends(s, radix, i + 1);
    } else {
        assert(s.take(i) =~= s);
    }
}

/// `from_str_radix` for an unsigned type whose largest value is `max`.
pub fn parse_unsigned_chars(s: &[char], radix: u32, max: u64) -> (r: Option<u64>)
    requires
        2 <= radix <= 36,
    ensures
        match r {
            Some(v) => parse_unsigned(s@, radix as nat, max as nat) == Some(v as nat),
            None => parse_unsigned(s@, radix as nat, max as nat) is None,
        },
{
    let body = if s.len() > 0 && s[0] == '+' {
        slice_copy(s, 1, s.len())
    } else {
        slice_copy(s, 0, s.len())
    };
    assert(s@.len() > 0 && s@[0] == '+' ==> body@ =~= s@.drop_first());
    assert(!(s@.len() > 0 && s@[0] == '+') ==> body@ =~= s@);
    if body.len() == 0 {
        return None;
    }
    digits_upto(body.as_slice(), radix, max)
}

/// `usize::from_str` (decimal).
pub fn parse_usize_chars(s: &[char]) -> (r: Option<usize>)
    ensures
        match r {
            Some(v) => parse_unsigned(s@, 10, usize::MAX as nat) == Some(v as nat),
            None => parse_unsigned(s@, 10, usize::MAX as nat) is None,
        },
{
    match parse_unsigned_chars(s, 10, usize::MAX as u64) {
        Some(v) => Some(v as usize),
        None => None,
    }
}

/// `u32::from_str_radix`.
pub fn parse_u32_radix(s: &[char], radix: u32) -> (r: Option<u32>)
    requires
        2 <= radix <= 36,
    ensures
        match r {
            Some(v) => parse_unsigned(s@, radix as nat, u32::MAX as nat) == Some(v as nat),
            None => parse_unsigned(s@, radix as nat, u32::MAX as nat) is None,
        },
{
    match parse_unsigned_chars(s, radix, u32::MAX as u64) {
        Some(v) => Some(v as u32),
        None => None,
    }
}

/// `u8::from_str_radix`.
pub fn parse_u8_radix(s: &[char], radix: u32) -> (r: Option<u8>)
    requires
        2 <= radix <= 36,
    ensures
        match r {
            Some(v) => parse_unsigned(s@, radix as nat, u8::MAX as nat) == Some(v as nat),
            None => parse_unsigned(s@, radix as nat, u8::MAX as nat) is None,
        },
{
    match parse_unsigned_chars(s, radix, u8::MAX as u64) {
        Some(v) => Some(v as u8),
        None => None,
    }
}

/// `i32::from_str`.
pub fn parse_i32_chars(s: &[char]) -> (r: Option<i32>)
    ensures
        r == parse_i32_spec(s@),
{
    if s.len() > 0 && s[0] == '-' {
        let body = slice_copy(s, 1, s.len());
        assert(body@ =~= s@.drop_first());
        if body.len() == 0 {
            return None;
        }
        match digits_upto(body.as_slice(), 10, 0x8000_0000) {
            Some(v) => {
                let r = (0 - (v as i64)) as i32;
                Some(r)
            },
            None => None,
        }
    } else {
        match parse_unsigned_chars(s, 10, 0x7FFF_FFFF) {
            Some(v) => Some(v as i32),
            None => None,
        }
    }
}

// ---------------------------------------------------------------------------
// Integer printing
// ---------------------------------------------------------------------------

/// `{}` for an unsigned integer.
pub fn decimal_chars(n: u64) -> (out: Vec<char>)
    ensures
        out@ == decimal(n as nat),
    decreases n,
{
    if n < 10 {
        let c = ((n + 48) as u8) as char;
        let mut v: Vec<char> = Vec::new();
        v.push(c);
        assert(v@ =~= seq![digit_char(n as nat)]);
        v
    } else {
        let mut v = decimal_chars(n / 10);
        let c = ((n % 10 + 48) as u8) as char;
        v.push(c);
        v
    }
}

/// `{}` for a signed integer.
pub fn decimal_int_chars(n: i64) -> (out: Vec<char>)
    ensures
        out@ == decimal_int(n as int),
{
    if n < 0 {
        let m: u64 = if n == i64::MIN {
            0x8000_0000_0000_0000u64
        } else {
            (0 - n) as u64
        };
        let d = decimal_chars(m);
        let mut v: Vec<char> = Vec::new();
        v.push('-');
        let out = concat(v.as_slice(), d.as_slice());
        assert(v@ =~= seq!['-']);
        out
    } else {
        decimal_chars(n as u64)
    }
}

/// One upper-case hexadecimal digit.
pub fn hex_digit_upper(d: u64) -> (c: char)
    requires
        d < 16,
    ensures
        c == hex_char_upper(d as nat),
{
    if d < 10 {
        ((d + 48) as u8) as char
    } else {
        ((d + 55) as u8) as char
    }
}

/// `{:X}`.
pub fn hex_upper_chars(n: u64) -> (out: Vec<char>)
    ensures
        out@ == hex_upper(n as nat),
    decreases n,
{
    if n < 16 {
        let mut v: Vec<char> = Vec::new();
        v.push(hex_digit_upper(n));
        assert(v@ =~= seq![hex_char_upper(n as nat)]);
        v
    } else {
        let mut v = hex_upper_chars(n / 16);
        v.push(hex_digit_upper(n % 16));
        v
    }
}

/// `{:0w$X}`.
pub fn hex_upper_padded_chars(n: u64, w: usize) -> (out: Vec<char>)
    ensures
        out@ == hex_upper_padded(n as nat, w as nat),
{
    let h = hex_upper_chars(n);
    if h.len() >= w {
        return h;
    }
    let mut pad: Vec<char> = Vec::new();
    let k = w - h.len();
    let mut i: usize = 0;
    while i < k
        invariant
            i <= k,
            pad@ == Seq::new(i as nat, |j: int| '0'),
        decreases k - i,
    {
        pad.push('0');
        i = i + 1;
        assert(pad@ =~= Seq::new(i as nat, |j: int| '0'));
    }
    concat(pad.as_slice(), h.as_slice())
}

// ---------------------------------------------------------------------------
// Results carrying a message
// ---------------------------------------------------------------------------

/// A result with its message taken by its characters.
pub open spec fn res_view<T>(r: Result<T, String>) -> Result<T, Seq<char>> {
    match r {
        Ok(v) => Ok(v),
        Err(e) => Err(e@),
    }
}

/// A result holding a vector, both sides taken by their views.
pub open spec fn res_seq<T>(r: Result<Vec<T>, String>) -> Result<Seq<T>, Seq<char>> {
    match r {
        Ok(v) => Ok(v@),
        Err(e) => Err(e@),
    }
}

/// `parts.join(sep)`.
pub open spec fn join(parts: Seq<Seq<char>>, sep: Seq<char>) -> Seq<char>
    decreases parts.len(),
{
    if parts.len() == 0 {
        Seq::empty()
    } else if parts.len() == 1 {
        parts[0]
    } else {
        join(parts.drop_last(), sep) + sep + parts.last()
    }
}

/// `parts.join(sep)` on character vectors.
pub fn join_chars(parts: &Vec<Vec<char>>, sep: &str) -> (out: Vec<char>)
    ensures
        out@ == join(pieces_view(parts@), sep@),
{
    let sepc = chars_of(sep);
    let mut out: Vec<char> = Vec::new();
    let mut i: usize = 0;
    while i < parts.len()
        invariant
            i <= parts@.len(),
            sepc@ == sep@,
            out@ == join(pieces_view(parts@).take(i as int), sep@),
        decreases parts@.len() - i,
    {
        let ghost t = pieces_view(parts@).take(i as int + 1);
        assert(t.drop_last() =~= pieces_view(parts@).take(i as int));
        assert(t.last() == parts@[i as int]@);
        if i == 0 {
            out = concat(out.as_slice(), parts[i].as_slice());
            assert(out@ =~= join(t, sep@));
        } else {
            let with_sep = concat(out.as_slice(), sepc.as_slice());
            out = concat(with_sep.as_slice(), parts[i].as_slice());
        }
        i = i + 1;
    }
    assert(pieces_view(parts@).take(parts@.len() as int) =~= pieces_view(parts@));
    out
}

// ---------------------------------------------------------------------------
// Debug quoting
// ---------------------------------------------------------------------------

/// The text `{:?}` prints for a string: quoted, with std's escapes.
pub uninterp spec fn debug_text(s: Seq<char>) -> Seq<char>;

/// `format!("{:?}", s)`: std's `Debug` for `str`. Trusted: the result is
/// the text named by [`debug_text`] for the characters of `s`; the quoting
/// and escaping rules themselves are not stated.
#[verifier::external_body]
pub(crate) fn debug_quote(s: &str) -> (r: String)
    ensures
        r@ == debug_text(s@),
{
    format!("{:?}", s)
}

/// The strings of a list, by their characters.
pub open spec fn strings_view(v: Seq<String>) -> Seq<Seq<char>> {
    v.map_values(|s: String| s@)
}

} // verus!
