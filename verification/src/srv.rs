//! The loopback HTTP exchange with the local fan-control service: request
//! text, response parsing, and what a `/status` probe or a `POST` reply
//! means.
use vstd::prelude::*;

use crate::text::{
    chars_of, concat, debug_quote, debug_text, decimal, decimal_chars, is_whitespace, is_ws, lower,
    lower_chars, message, parse_unsigned, slice_copy, string_from_chars, string_of, trim, trim_chars,
};

verus! {

// ---------------------------------------------------------------------------
// Requests
// ---------------------------------------------------------------------------

/// The request text: request line, `Host`, the anti-CSRF header for `POST`,
/// `Connection: close`, an empty body.
pub open spec fn request_spec(method: Seq<char>, path: Seq<char>, port: u16) -> Seq<char> {
    method + " "@ + path + " HTTP/1.1\r\nHost: 127.0.0.1:"@ + decimal(port as nat) + "\r\n"@ + (
    if method == "POST"@ {
        "X-Requested-With: XMLHttpRequest\r\n"@
    } else {
        Seq::empty()
    }) + "Connection: close\r\nContent-Length: 0\r\n\r\n"@
}

/// Builds the request text for `method` on `path`.
pub fn http_request_text(method: &str, path: &str, port: u16) -> (s: String)
    ensures
        s@ == request_spec(method@, path@, port),
{
    let m = chars_of(method);
    let sp = chars_of(" ");
    let p = chars_of(path);
    let host = chars_of(" HTTP/1.1\r\nHost: 127.0.0.1:");
    let d = decimal_chars(port as u64);
    let crlf = chars_of("\r\n");
    let tail = chars_of("Connection: close\r\nContent-Length: 0\r\n\r\n");
    let csrf = if crate::text::eq_str(m.as_slice(), "POST") {
        chars_of("X-Requested-With: XMLHttpRequest\r\n")
    } else {
        Vec::new()
    };
    let s1 = concat(m.as_slice(), sp.as_slice());
    let s2 = concat(s1.as_slice(), p.as_slice());
    let s3 = concat(s2.as_slice(), host.as_slice());
    let s4 = concat(s3.as_slice(), d.as_slice());
    let s5 = concat(s4.as_slice(), crlf.as_slice());
    let s6 = concat(s5.as_slice(), csrf.as_slice());
    let s7 = concat(s6.as_slice(), tail.as_slice());
    assert(s7@ =~= request_spec(method@, path@, port));
    string_from_chars(s7.as_slice())
}

// ---------------------------------------------------------------------------
// Responses
// ---------------------------------------------------------------------------

/// Whether `p` occurs in `s` at position `i`.
pub open spec fn occurs_at(s: Seq<char>, p: Seq<char>, i: int) -> bool {
    0 <= i && i + p.len() <= s.len() && s.subrange(i, i + p.len()) == p
}

/// The first position at or after `i` at which `p` occurs in `s`.
pub open spec fn find_from(s: Seq<char>, p: Seq<char>, i: int) -> Option<int>
    decreases s.len() + 1 - i,
{
    if i < 0 || i + p.len() > s.len() {
        None
    } else if occurs_at(s, p, i) {
        Some(i)
    } else {
        find_from(s, p, i + 1)
    }
}

/// The first position at which `p` occurs in `s`.
pub open spec fn find_spec(s: Seq<char>, p: Seq<char>) -> Option<int> {
    find_from(s, p, 0)
}

fn occurs_at_exec(s: &[char], p: &[char], i: usize) -> (b: bool)
    ensures
        b == occurs_at(s@, p@, i as int),
{
    let n = s.len();
    if p.len() > n || i > n - p.len() {
        return false;
    }
    let mut k: usize = 0;
    while k < p.len()
        invariant
            n == s@.len(),
            i + p@.len() <= s@.len(),
            k <= p@.len(),
            forall|j: int| 0 <= j < k ==> s@[i + j] == p@[j],
        decreases p@.len() - k,
    {
        if s[i + k] != p[k] {
            assert(s@.subrange(i as int, i + p@.len())[k as int] != p@[k as int]);
            return false;
        }
        k = k + 1;
    }
    assert(s@.subrange(i as int, i + p@.len()) =~= p@);
    true
}

/// The first position of `p` in `s`.
fn find(s: &[char], p: &[char]) -> (r: Option<usize>)
    ensures
        match r {
            Some(i) => find_spec(s@, p@) == Some(i as int),
            None => find_spec(s@, p@) is None,
        },
{
    let n = s.len();
    if p.len() > n {
        return None;
    }
    let last = n - p.len();
    let mut i: usize = 0;
    while i <= last
        invariant
            n == s@.len(),
            p@.len() <= n,
            last == n - p@.len(),
            i <= last,
            find_spec(s@, p@) == find_from(s@, p@, i as int),
        decreases last - i,
    {
        if occurs_at_exec(s, p, i) {
            return Some(i);
        }
        if i == last {
            assert(find_from(s@, p@, i + 1) is None);
            return None;
        }
        i = i + 1;
    }
    None
}

proof fn lemma_find_from_bounds(s: Seq<char>, p: Seq<char>, j: int)
    ensures
        match find_from(s, p, j) {
            Some(i) => j <= i && 0 <= i && i + p.len() <= s.len() && occurs_at(s, p, i),
            None => true,
        },
    decreases s.len() + 1 - j,
{
    if !(j < 0 || j + p.len() > s.len()) && !occurs_at(s, p, j) {
        lemma_find_from_bounds(s, p, j + 1);
    }
}

/// The words of `s` split at whitespace so far, and the word being read.
pub open spec fn words_acc(s: Seq<char>) -> (Seq<Seq<char>>, Seq<char>)
    decreases s.len(),
{
    if s.len() == 0 {
        (Seq::empty(), Seq::empty())
    } else {
        let (d, c) = words_acc(s.drop_last());
        let ch = s.last();
        if is_ws(ch) {
            if c.len() > 0 {
                (d.push(c), Seq::empty())
            } else {
                (d, Seq::empty())
            }
        } else {
            (d, c.push(ch))
        }
    }
}

/// `str::split_whitespace`: the maximal runs of non-whitespace characters.
pub open spec fn words(s: Seq<char>) -> Seq<Seq<char>> {
    let (d, c) = words_acc(s);
    if c.len() > 0 {
        d.push(c)
    } else {
        d
    }
}

/// The first line of a header (`str::lines`): up to the first line feed,
/// without a carriage return right before it.
pub open spec fn first_line(h: Seq<char>) -> Seq<char> {
    match crate::text::first_index(h, '\n') {
        Some(i) => {
            let l = h.take(i as int);
            if l.len() > 0 && l.last() == '\r' {
                l.drop_last()
            } else {
                l
            }
        },
        None => h,
    }
}

/// A response: head and body split at the first blank line; the status code
/// is the second word of the first head line.
pub open spec fn parse_response_spec(raw: Seq<char>) -> Result<(u16, Seq<char>), Seq<char>> {
    match find_spec(raw, "\r\n\r\n"@) {
        None => Err("response has no header/body separator"@),
        Some(i) => {
            let line = first_line(raw.take(i));
            let w = words(line);
            if w.len() >= 2 && parse_unsigned(w[1], 10, 65535) is Some {
                Ok((parse_unsigned(w[1], 10, 65535)->0 as u16, raw.skip(i + 4)))
            } else {
                Err("no status line: "@ + debug_text(line))
            }
        },
    }
}

fn second_word(s: &[char]) -> (r: Option<Vec<char>>)
    ensures
        match r {
            Some(w) => words(s@).len() >= 2 && w@ == words(s@)[1],
            None => words(s@).len() < 2,
        },
{
    let mut done: Vec<Vec<char>> = Vec::new();
    let mut cur: Vec<char> = Vec::new();
    let mut i: usize = 0;
    assert(s@.take(0) =~= Seq::<char>::empty());
    while i < s.len()
        invariant
            i <= s@.len(),
            words_acc(s@.take(i as int)) == (crate::text::pieces_view(done@), cur@),
        decreases s@.len() - i,
    {
        let ghost d0 = crate::text::pieces_view(done@);
        assert(s@.take(i as int + 1).drop_last() =~= s@.take(i as int));
        assert(s@.take(i as int + 1).last() == s@[i as int]);
        let ch = s[i];
        if is_whitespace(ch) {
            if cur.len() > 0 {
                let w = cur;
                done.push(w);
                cur = Vec::new();
                assert(crate::text::pieces_view(done@) =~= d0.push(w@));
            } else {
                cur = Vec::new();
            }
        } else {
            cur.push(ch);
        }
        i = i + 1;
    }
    assert(s@.take(s@.len() as int) =~= s@);
    if cur.len() > 0 {
        let ghost d0 = crate::text::pieces_view(done@);
        done.push(cur);
        assert(crate::text::pieces_view(done@) =~= d0.push(words_acc(s@).1));
    }
    assert(crate::text::pieces_view(done@) == words(s@));
    if done.len() >= 2 {
        let w = slice_copy(done[1].as_slice(), 0, done[1].len());
        assert(w@ =~= done@[1]@);
        Some(w)
    } else {
        None
    }
}

fn first_line_exec(h: &[char]) -> (l: Vec<char>)
    ensures
        l@ == first_line(h@),
{
    match crate::text::find_char(h, '\n') {
        Some(i) => {
            let l = slice_copy(h, 0, i);
            assert(l@ =~= h@.take(i as int));
            if l.len() > 0 && l[l.len() - 1] == '\r' {
                let m = slice_copy(l.as_slice(), 0, l.len() - 1);
                assert(m@ =~= l@.drop_last());
                m
            } else {
                l
            }
        },
        None => slice_copy(h, 0, h.len()),
    }
}

/// Splits a response into its status code and body.
pub fn parse_http_response(raw: &str) -> (r: Result<(u16, String), String>)
    ensures
        match r {
            Ok((code, body)) => parse_response_spec(raw@) == Ok::<(u16, Seq<char>), Seq<char>>(
                (code, body@),
            ),
            Err(e) => parse_response_spec(raw@) == Err::<(u16, Seq<char>), Seq<char>>(e@),
        },
{
    let c = chars_of(raw);
    let sep = chars_of("\r\n\r\n");
    let i = match find(c.as_slice(), sep.as_slice()) {
        Some(i) => i,
        None => {
            return Err(string_of("response has no header/body separator"));
        },
    };
    proof {
        reveal_strlit("\r\n\r\n");
        lemma_find_from_bounds(raw@, sep@, 0);
    }
    let head = slice_copy(c.as_slice(), 0, i);
    assert(head@ =~= raw@.take(i as int));
    let line = first_line_exec(head.as_slice());
    let code = match second_word(line.as_slice()) {
        Some(w) => crate::text::parse_unsigned_chars(w.as_slice(), 10, 65535),
        None => None,
    };
    match code {
        Some(v) => {
            let n = c.len();
            assert(i + 4 <= n);
            let body = slice_copy(c.as_slice(), i + 4, n);
            assert(body@ =~= raw@.skip(i + 4));
            Ok((v as u16, string_from_chars(body.as_slice())))
        },
        None => {
            let ls = string_from_chars(line.as_slice());
            let q = debug_quote(ls.as_str());
            let qc = chars_of(q.as_str());
            Err(message("no status line: ", qc.as_slice()))
        },
    }
}

/// `srv returned <code>: <text>`.
pub open spec fn srv_error(code: u16, text: Seq<char>) -> Seq<char> {
    "srv returned "@ + decimal(code as nat) + ": "@ + text
}

fn srv_error_message(code: u16, text: &[char]) -> (m: String)
    ensures
        m@ == srv_error(code, text@),
{
    let d = decimal_chars(code as u64);
    let sep = chars_of(": ");
    let a = concat(d.as_slice(), sep.as_slice());
    let b = concat(a.as_slice(), text);
    let m = message("srv returned ", b.as_slice());
    assert(m@ =~= srv_error(code, text@));
    m
}

/// The reply to a `POST`: its body for a status below 400, else an error
/// naming the status and the trimmed body.
pub fn post_outcome(code: u16, body: String) -> (r: Result<String, String>)
    ensures
        match r {
            Ok(b) => code < 400 && b@ == body@,
            Err(e) => code >= 400 && e@ == srv_error(code, trim(body@)),
        },
{
    if code < 400 {
        Ok(body)
    } else {
        let c = chars_of(body.as_str());
        let t = trim_chars(c.as_slice());
        Err(srv_error_message(code, t.as_slice()))
    }
}

// ---------------------------------------------------------------------------
// Probing
// ---------------------------------------------------------------------------

/// What a `/status` probe found on the port.
#[derive(Debug, Clone, Copy, PartialEq, Eq, Structural)]
pub enum Probe {
    /// A service with GPUs under control.
    Ready,
    /// A service still discovering its GPUs.
    Starting,
    /// Nothing listening.
    Absent,
}

/// What a JSON document holds under one key of its top-level object.
#[derive(Debug)]
pub enum JsonField {
    /// The text is not JSON; the parser's message.
    NotJson(String),
    /// The document has no such key (or is not an object).
    Missing,
    /// An array of this length.
    Array(usize),
    /// Any other value.
    Other,
}

/// [`JsonField`] by plain values.
pub enum JsonFieldView {
    NotJson(Seq<char>),
    Missing,
    Array(nat),
    Other,
}

impl View for JsonField {
    type V = JsonFieldView;

    open spec fn view(&self) -> JsonFieldView {
        match self {
            JsonField::NotJson(e) => JsonFieldView::NotJson(e@),
            JsonField::Missing => JsonFieldView::Missing,
            JsonField::Array(n) => JsonFieldView::Array(*n as nat),
            JsonField::Other => JsonFieldView::Other,
        }
    }
}

/// What `serde_json` reads under `key` in the document `body`.
pub uninterp spec fn json_field_of(body: Seq<char>, key: Seq<char>) -> JsonFieldView;

/// Parses `body` with `serde_json::from_str` into a `serde_json::Value` and
/// looks `key` up with `Value::get`, telling the found value's variants
/// apart. Trusted: the result is the one named by [`json_field_of`] for the
/// two texts; what the parser accepts and the wording of its errors are not
/// stated.
#[verifier::external_body]
fn json_field(body: &str, key: &str) -> (r: JsonField)
    ensures
        r@ == json_field_of(body@, key@),
{
    match serde_json::from_str::<serde_json::Value>(body) {
        Err(e) => JsonField::NotJson(e.to_string()),
        Ok(v) => match v.get(key) {
            None => JsonField::Missing,
            Some(serde_json::Value::Array(a)) => JsonField::Array(a.len()),
            Some(_) => JsonField::Other,
        },
    }
}

/// Whether `p` occurs anywhere in `s`.
pub open spec fn contains_text(s: Seq<char>, p: Seq<char>) -> bool {
    find_spec(s, p) is Some
}

/// What a `/status` document means, given what it holds under `gpus`: not
/// JSON is an error naming the parser's message; no `gpus` array (the key
/// absent or holding something else) is an error; an empty array is a
/// starting service, a non-empty one a ready service.
pub open spec fn gpus_probe_spec(gpus: JsonFieldView) -> Result<Probe, Seq<char>> {
    match gpus {
        JsonFieldView::NotJson(e) => Err("srv /status is not JSON: "@ + e),
        JsonFieldView::Missing => Err("srv /status missing 'gpus'"@),
        JsonFieldView::Other => Err("srv /status missing 'gpus'"@),
        JsonFieldView::Array(n) => if n == 0 {
            Ok(Probe::Starting)
        } else {
            Ok(Probe::Ready)
        },
    }
}

/// Whether a transport error says the connection was refused, ignoring
/// ASCII case (the OS writes "Connection refused").
pub open spec fn refused(m: Seq<char>) -> bool {
    contains_text(lower(m), "connection refused"@)
}

/// What a `/status` exchange means, given what the status document holds
/// under `gpus`: a refused connection is an absent service (to be started),
/// other transport errors and error statuses are errors, and a successful
/// reply is read by [`gpus_probe_spec`].
pub open spec fn probe_spec(response: Result<(u16, Seq<char>), Seq<char>>, gpus: JsonFieldView) -> Result<Probe, Seq<char>> {
    match response {
        Err(m) => if refused(m) {
            Ok(Probe::Absent)
        } else {
            Err(m)
        },
        Ok((code, body)) => if code >= 400 {
            Err(srv_error(code, body))
        } else {
            gpus_probe_spec(gpus)
        },
    }
}

/// Interprets what a `/status` document holds under `gpus` (see
/// [`gpus_probe_spec`]).
pub fn probe_from_gpus(gpus: JsonField) -> (r: Result<Probe, String>)
    ensures
        crate::text::res_view(r) == gpus_probe_spec(gpus@),
{
    match gpus {
        JsonField::NotJson(e) => {
            let ec = chars_of(e.as_str());
            Err(message("srv /status is not JSON: ", ec.as_slice()))
        },
        JsonField::Missing => Err(string_of("srv /status missing 'gpus'")),
        JsonField::Other => Err(string_of("srv /status missing 'gpus'")),
        JsonField::Array(n) => if n == 0 {
            Ok(Probe::Starting)
        } else {
            Ok(Probe::Ready)
        },
    }
}

/// The response of a `/status` exchange by the views of its parts.
pub open spec fn response_view(r: Result<(u16, String), String>) -> Result<(u16, Seq<char>), Seq<char>> {
    match r {
        Ok((c, b)) => Ok((c, b@)),
        Err(e) => Err(e@),
    }
}

/// Interprets the outcome of a `GET /status` exchange (see [`probe_spec`]);
/// the JSON document of a successful reply is read with `serde_json`.
pub fn probe_state(response: Result<(u16, String), String>) -> (r: Result<Probe, String>)
    ensures
        match response {
            Ok((code, body)) => if code < 400 {
                crate::text::res_view(r) == probe_spec(
                    response_view(response),
                    json_field_of(body@, "gpus"@),
                )
            } else {
                crate::text::res_view(r) == probe_spec(response_view(response), JsonFieldView::Missing)
            },
            Err(_) => crate::text::res_view(r) == probe_spec(
                response_view(response),
                JsonFieldView::Missing,
            ),
        },
{
    match response {
        Err(m) => {
            let mc = chars_of(m.as_str());
            let ml = lower_chars(mc.as_slice());
            let pat = chars_of("connection refused");
            proof {
                reveal_strlit("connection refused");
            }
            let found = find(ml.as_slice(), pat.as_slice());
            if found.is_some() {
                Ok(Probe::Absent)
            } else {
                Err(m)
            }
        },
        Ok((code, body)) => {
            if code >= 400 {
                let bc = chars_of(body.as_str());
                return Err(srv_error_message(code, bc.as_slice()));
            }
            probe_from_gpus(json_field(body.as_str(), "gpus"))
        },
    }
}

} // verus!
