//! Values given on the command line: numbers with optional units, booleans,
//! clock domains, fan targets and API restriction settings.
use vstd::prelude::*;

use crate::cli::{option_one, option_one_spec, Invocation};
use crate::text::{
    chars_of, concat, debug_quote, debug_text, has_suffix, lower, lower_chars, message,
    parse_i32_chars, parse_i32_spec, parse_u32_radix, parse_unsigned, parse_usize_chars,
    res_view, slice_copy, string_from_chars, string_of, trim, trim_chars, trim_lower,
};

verus! {

// ---------------------------------------------------------------------------
// Numbers with units
// ---------------------------------------------------------------------------

/// `t` without its last `n` characters, trimmed.
pub open spec fn cut_trim(t: Seq<char>, n: nat) -> Seq<char> {
    trim(t.take(t.len() - n))
}

/// The number part of a value with an optional unit: the trimmed text
/// without a (case-insensitive) trailing `suffix`, `label` or plural
/// `label` + `s`, tried in that order, and trimmed again.
pub open spec fn strip_unit_spec(raw: Seq<char>, suffix: Seq<char>, label: Seq<char>) -> Seq<
    char,
> {
    let t = trim(raw);
    let l = lower(t);
    if has_suffix(l, suffix) {
        cut_trim(t, suffix.len())
    } else if has_suffix(l, label) {
        cut_trim(t, label.len())
    } else if has_suffix(l, label + seq!['s']) {
        cut_trim(t, label.len() + 1)
    } else {
        t
    }
}

/// The number part of `raw` (see [`strip_unit_spec`]).
pub fn strip_unit(raw: &str, suffix: &str, label: &str) -> (out: String)
    ensures
        out@ == strip_unit_spec(raw@, suffix@, label@),
{
    let c = chars_of(raw);
    let t = trim_chars(c.as_slice());
    let l = lower_chars(t.as_slice());
    let sfx = chars_of(suffix);
    let lbl = chars_of(label);
    let mut plural = chars_of(label);
    plural.push('s');
    assert(plural@ =~= label@ + seq!['s']);
    let n = if ends_with(l.as_slice(), sfx.as_slice()) {
        Some(sfx.len())
    } else if ends_with(l.as_slice(), lbl.as_slice()) {
        Some(lbl.len())
    } else if ends_with(l.as_slice(), plural.as_slice()) {
        Some(plural.len())
    } else {
        None
    };
    match n {
        Some(k) => {
            let head = slice_copy(t.as_slice(), 0, t.len() - k);
            assert(head@ =~= t@.take(t@.len() - k));
            let out = trim_chars(head.as_slice());
            string_from_chars(out.as_slice())
        },
        None => string_from_chars(t.as_slice()),
    }
}

/// Whether every character of `d` is a decimal digit.
pub open spec fn all_digits(d: Seq<char>) -> bool {
    forall|i: int| 0 <= i < d.len() ==> '0' <= #[trigger] d[i] <= '9'
}

/// Whether `u` is a unit as the command line writes it: lower-case ASCII
/// letters and `%`.
pub open spec fn unit_word(u: Seq<char>) -> bool {
    forall|i: int| 0 <= i < u.len() ==> ('a' <= #[trigger] u[i] <= 'z' || u[i] == '%')
}

/// A number may be written with or without its unit: the digits followed
/// by the unit and the bare digits give the same number part.
pub proof fn lemma_unit_is_optional(d: Seq<char>, suffix: Seq<char>, label: Seq<char>)
    requires
        d.len() > 0,
        all_digits(d),
        suffix.len() > 0,
        unit_word(suffix),
        label.len() > 0,
        !('0' <= label.last() <= '9'),
    ensures
        strip_unit_spec(d + suffix, suffix, label) == d,
        strip_unit_spec(d, suffix, label) == d,
{
    let t = d + suffix;
    assert(t[0] == d[0]);
    assert(t.last() == suffix.last());
    assert(!crate::text::is_ws(t[0]));
    assert(!crate::text::is_ws(t.last()));
    assert(trim(t) == t);
    assert(lower(t) =~= t) by {
        assert forall|i: int| 0 <= i < t.len() implies lower(t)[i] == t[i] by {
            if i < d.len() {
                assert(t[i] == d[i]);
            } else {
                assert(t[i] == suffix[i - d.len()]);
            }
        }
    }
    assert(t.skip(t.len() - suffix.len()) =~= suffix);
    assert(t.take(t.len() - suffix.len()) =~= d);
    assert(!crate::text::is_ws(d[0]));
    assert(!crate::text::is_ws(d.last()));
    assert(trim(d) == d);
    assert(lower(d) =~= d) by {
        assert forall|i: int| 0 <= i < d.len() implies lower(d)[i] == d[i] by {
            assert('0' <= d[i] <= '9');
        }
    }
    if suffix.len() <= d.len() {
        assert(d.skip(d.len() - suffix.len()).last() == d.last());
        assert(d.skip(d.len() - suffix.len()) != suffix);
    }
    if label.len() <= d.len() {
        assert(d.skip(d.len() - label.len()).last() == d.last());
        assert(d.skip(d.len() - label.len()) != label);
    }
    let plural = label + seq!['s'];
    if plural.len() <= d.len() {
        assert(d.skip(d.len() - plural.len()).last() == d.last());
        assert(plural.last() == 's');
        assert(d.skip(d.len() - plural.len()) != plural);
    }
}

/// A decimal `u32` or `usize` written by `{}` parses back to itself.
pub proof fn lemma_decimal_values_parse_back(n: u32, m: usize, label: Seq<char>)
    ensures
        parse_u32_spec(crate::text::decimal(n as nat), label) == Ok::<u32, Seq<char>>(n),
        parse_usize_spec(crate::text::decimal(m as nat), label) == Ok::<usize, Seq<char>>(m),
{
    crate::text::lemma_decimal_parses_back(n as nat, u32::MAX as nat);
    crate::text::lemma_decimal_parses_back(m as nat, usize::MAX as nat);
}

/// Whether `s` ends with `p`.
fn ends_with(s: &[char], p: &[char]) -> (b: bool)
    ensures
        b == has_suffix(s@, p@),
{
    if p.len() > s.len() {
        return false;
    }
    let tail = slice_copy(s, s.len() - p.len(), s.len());
    assert(tail@ =~= s@.skip(s@.len() - p@.len()));
    crate::text::eq_chars(tail.as_slice(), p)
}

/// `invalid <label> value "<raw>"`.
pub open spec fn unit_error(raw: Seq<char>, label: Seq<char>) -> Seq<char> {
    "invalid "@ + label + " value "@ + debug_text(raw)
}

fn unit_error_message(raw: &str, label: &str) -> (m: String)
    ensures
        m@ == unit_error(raw@, label@),
{
    let q = debug_quote(raw);
    let qc = chars_of(q.as_str());
    let lc = chars_of(label);
    let mid = chars_of(" value ");
    let a = concat(lc.as_slice(), mid.as_slice());
    let b = concat(a.as_slice(), qc.as_slice());
    let m = message("invalid ", b.as_slice());
    assert(m@ =~= unit_error(raw@, label@));
    m
}

/// A signed value with an optional unit, such as `-125MHz`.
pub open spec fn parse_i32_unit_spec(raw: Seq<char>, suffix: Seq<char>, label: Seq<char>) -> Result<
    i32,
    Seq<char>,
> {
    match parse_i32_spec(strip_unit_spec(raw, suffix, label)) {
        Some(v) => Ok(v),
        None => Err(unit_error(raw, label)),
    }
}

/// An unsigned value with an optional unit, such as `350W` or `90%`.
pub open spec fn parse_u32_unit_spec(raw: Seq<char>, suffix: Seq<char>, label: Seq<char>) -> Result<
    u32,
    Seq<char>,
> {
    match parse_unsigned(strip_unit_spec(raw, suffix, label), 10, u32::MAX as nat) {
        Some(v) => Ok(v as u32),
        None => Err(unit_error(raw, label)),
    }
}

/// Parses a signed value with an optional unit.
pub fn parse_i32_unit(raw: &str, suffix: &str, label: &str) -> (r: Result<i32, String>)
    ensures
        res_view(r) == parse_i32_unit_spec(raw@, suffix@, label@),
{
    let s = strip_unit(raw, suffix, label);
    let c = chars_of(s.as_str());
    match parse_i32_chars(c.as_slice()) {
        Some(v) => Ok(v),
        None => Err(unit_error_message(raw, label)),
    }
}

/// Parses an unsigned value with an optional unit.
pub fn parse_u32_unit(raw: &str, suffix: &str, label: &str) -> (r: Result<u32, String>)
    ensures
        res_view(r) == parse_u32_unit_spec(raw@, suffix@, label@),
{
    let s = strip_unit(raw, suffix, label);
    let c = chars_of(s.as_str());
    match parse_u32_radix(c.as_slice(), 10) {
        Some(v) => Ok(v),
        None => Err(unit_error_message(raw, label)),
    }
}

/// `invalid <label> "<raw>"`.
pub open spec fn value_error(raw: Seq<char>, label: Seq<char>) -> Seq<char> {
    "invalid "@ + label + " "@ + debug_text(raw)
}

fn value_error_message(raw: &str, label: &str) -> (m: String)
    ensures
        m@ == value_error(raw@, label@),
{
    let q = debug_quote(raw);
    let qc = chars_of(q.as_str());
    let lc = chars_of(label);
    let mut a = lc;
    a.push(' ');
    let b = concat(a.as_slice(), qc.as_slice());
    let m = message("invalid ", b.as_slice());
    proof {
        reveal_strlit(" ");
    }
    assert(m@ =~= value_error(raw@, label@));
    m
}

/// A plain decimal `usize` (surrounding whitespace allowed).
pub open spec fn parse_usize_spec(raw: Seq<char>, label: Seq<char>) -> Result<usize, Seq<char>> {
    match parse_unsigned(trim(raw), 10, usize::MAX as nat) {
        Some(v) => Ok(v as usize),
        None => Err(value_error(raw, label)),
    }
}

/// A plain decimal `u32` (surrounding whitespace allowed).
pub open spec fn parse_u32_spec(raw: Seq<char>, label: Seq<char>) -> Result<u32, Seq<char>> {
    match parse_unsigned(trim(raw), 10, u32::MAX as nat) {
        Some(v) => Ok(v as u32),
        None => Err(value_error(raw, label)),
    }
}

/// Parses a decimal `usize`; `label` names the value in the error.
pub fn parse_usize(raw: &str, label: &str) -> (r: Result<usize, String>)
    ensures
        res_view(r) == parse_usize_spec(raw@, label@),
{
    let c = chars_of(raw);
    let t = trim_chars(c.as_slice());
    match parse_usize_chars(t.as_slice()) {
        Some(v) => Ok(v),
        None => Err(value_error_message(raw, label)),
    }
}

/// Parses a decimal `u32`; `label` names the value in the error.
pub fn parse_u32(raw: &str, label: &str) -> (r: Result<u32, String>)
    ensures
        res_view(r) == parse_u32_spec(raw@, label@),
{
    let c = chars_of(raw);
    let t = trim_chars(c.as_slice());
    match parse_u32_radix(t.as_slice(), 10) {
        Some(v) => Ok(v),
        None => Err(value_error_message(raw, label)),
    }
}

/// MHz to kHz, refused when the product does not fit.
pub fn mhz_to_khz_i32(mhz: i32) -> (r: Result<i32, String>)
    ensures
        match r {
            Ok(v) => v == mhz * 1000,
            Err(e) => e@ == "MHz value is too large"@ && (mhz * 1000 < i32::MIN || mhz * 1000
                > i32::MAX),
        },
{
    match mhz.checked_mul(1000) {
        Some(v) => Ok(v),
        None => Err(string_of("MHz value is too large")),
    }
}

/// MHz to kHz, refused when the product does not fit.
pub fn mhz_to_khz_u32(mhz: u32) -> (r: Result<u32, String>)
    ensures
        match r {
            Ok(v) => v == mhz * 1000,
            Err(e) => e@ == "MHz value is too large"@ && mhz * 1000 > u32::MAX,
        },
{
    match mhz.checked_mul(1000) {
        Some(v) => Ok(v),
        None => Err(string_of("MHz value is too large")),
    }
}

// ---------------------------------------------------------------------------
// Keywords
// ---------------------------------------------------------------------------

/// A keyword error: `<lead><quoted key><tail>`, the key being the trimmed,
/// lower-cased input.
pub open spec fn keyword_error(lead: Seq<char>, key: Seq<char>, tail: Seq<char>) -> Seq<char> {
    lead + debug_text(key) + tail
}

fn keyword_error_message(lead: &str, key: &[char], tail: &str) -> (m: String)
    ensures
        m@ == keyword_error(lead@, key@, tail@),
{
    let ks = string_from_chars(key);
    let q = debug_quote(ks.as_str());
    let qc = chars_of(q.as_str());
    let tc = chars_of(tail);
    let body = concat(qc.as_slice(), tc.as_slice());
    let m = message(lead, body.as_slice());
    assert(m@ =~= keyword_error(lead@, key@, tail@));
    m
}

/// On/off switches: `1`, `true`, `yes`, `on` and `0`, `false`, `no`, `off`,
/// in any case and with surrounding whitespace.
pub open spec fn parse_bool_spec(raw: Seq<char>) -> Result<bool, Seq<char>> {
    let k = lower(trim(raw));
    if k == "1"@ || k == "true"@ || k == "yes"@ || k == "on"@ {
        Ok(true)
    } else if k == "0"@ || k == "false"@ || k == "no"@ || k == "off"@ {
        Ok(false)
    } else {
        Err(keyword_error("invalid bool "@, k, "; expected on/off"@))
    }
}

/// Parses an on/off switch.
pub fn parse_bool(raw: &str) -> (r: Result<bool, String>)
    ensures
        res_view(r) == parse_bool_spec(raw@),
{
    let c = chars_of(raw);
    let k = trim_lower(c.as_slice());
    let ks = k.as_slice();
    if crate::text::eq_str(ks, "1") || crate::text::eq_str(ks, "true") || crate::text::eq_str(
        ks,
        "yes",
    ) || crate::text::eq_str(ks, "on") {
        Ok(true)
    } else if crate::text::eq_str(ks, "0") || crate::text::eq_str(ks, "false")
        || crate::text::eq_str(ks, "no") || crate::text::eq_str(ks, "off") {
        Ok(false)
    } else {
        Err(keyword_error_message("invalid bool ", ks, "; expected on/off"))
    }
}

/// Clock domains.
#[derive(Debug, Clone, Copy, PartialEq, Eq, Structural)]
pub enum ClockDomain {
    Graphics,
    Memory,
    Processor,
    Video,
}

/// Clock domain names and aliases.
pub open spec fn parse_domain_spec(raw: Seq<char>) -> Result<ClockDomain, Seq<char>> {
    let k = lower(trim(raw));
    if k == "core"@ || k == "gpu"@ || k == "graphics"@ {
        Ok(ClockDomain::Graphics)
    } else if k == "mem"@ || k == "memory"@ {
        Ok(ClockDomain::Memory)
    } else if k == "processor"@ || k == "sm"@ {
        Ok(ClockDomain::Processor)
    } else if k == "video"@ {
        Ok(ClockDomain::Video)
    } else {
        Err(
            keyword_error(
                "invalid domain "@,
                k,
                "; expected core, memory, processor, or video"@,
            ),
        )
    }
}

/// Parses a clock domain.
pub fn parse_domain(raw: &str) -> (r: Result<ClockDomain, String>)
    ensures
        res_view(r) == parse_domain_spec(raw@),
{
    let c = chars_of(raw);
    let k = trim_lower(c.as_slice());
    let ks = k.as_slice();
    if crate::text::eq_str(ks, "core") || crate::text::eq_str(ks, "gpu") || crate::text::eq_str(
        ks,
        "graphics",
    ) {
        Ok(ClockDomain::Graphics)
    } else if crate::text::eq_str(ks, "mem") || crate::text::eq_str(ks, "memory") {
        Ok(ClockDomain::Memory)
    } else if crate::text::eq_str(ks, "processor") || crate::text::eq_str(ks, "sm") {
        Ok(ClockDomain::Processor)
    } else if crate::text::eq_str(ks, "video") {
        Ok(ClockDomain::Video)
    } else {
        Err(
            keyword_error_message(
                "invalid domain ",
                ks,
                "; expected core, memory, processor, or video",
            ),
        )
    }
}

/// Every clock domain's own name parses back to it, and so do the short
/// names: `core` and `gpu` name the graphics clock, `mem` the memory clock,
/// `sm` the processor clock.
pub proof fn lemma_domain_names_parse_back(d: ClockDomain)
    ensures
        parse_domain_spec(domain_name(d)) == Ok::<ClockDomain, Seq<char>>(d),
        parse_domain_spec("core"@) == Ok::<ClockDomain, Seq<char>>(ClockDomain::Graphics),
        parse_domain_spec("gpu"@) == Ok::<ClockDomain, Seq<char>>(ClockDomain::Graphics),
        parse_domain_spec("mem"@) == Ok::<ClockDomain, Seq<char>>(ClockDomain::Memory),
        parse_domain_spec("sm"@) == Ok::<ClockDomain, Seq<char>>(ClockDomain::Processor),
{
    reveal_strlit("core");
    reveal_strlit("gpu");
    reveal_strlit("graphics");
    reveal_strlit("mem");
    reveal_strlit("memory");
    reveal_strlit("processor");
    reveal_strlit("sm");
    reveal_strlit("video");
    assert("core"@.len() == 4);
    assert("gpu"@.len() == 3);
    assert("graphics"@.len() == 8);
    assert("mem"@.len() == 3);
    assert("memory"@.len() == 6);
    assert("processor"@.len() == 9);
    assert("sm"@.len() == 2);
    assert("video"@.len() == 5);
    assert("mem"@[0] != "gpu"@[0]);
    assert(lower(trim("core"@)) =~= "core"@);
    assert(lower(trim("gpu"@)) =~= "gpu"@);
    assert(lower(trim("graphics"@)) =~= "graphics"@);
    assert(lower(trim("mem"@)) =~= "mem"@);
    assert(lower(trim("memory"@)) =~= "memory"@);
    assert(lower(trim("processor"@)) =~= "processor"@);
    assert(lower(trim("sm"@)) =~= "sm"@);
    assert(lower(trim("video"@)) =~= "video"@);
}

/// Only a name of a domain is accepted as that domain: when a value parses to
/// a domain, its trimmed lower-case form is the domain's own name or one of
/// its short names (`core`, `gpu` for graphics, `mem` for memory, `sm` for
/// the processor clock); in particular `memory` can only be the memory clock.
pub proof fn lemma_parsed_domain_is_named(raw: Seq<char>)
    ensures
        parse_domain_spec(raw) matches Ok(d) ==> {
            let k = lower(trim(raw));
            ||| k == domain_name(d)
            ||| d == ClockDomain::Graphics && (k == "core"@ || k == "gpu"@)
            ||| d == ClockDomain::Memory && k == "mem"@
            ||| d == ClockDomain::Processor && k == "sm"@
        },
        parse_domain_spec(raw) is Err <== {
            let k = lower(trim(raw));
            k != "core"@ && k != "gpu"@ && k != "graphics"@ && k != "mem"@ && k != "memory"@
                && k != "processor"@ && k != "sm"@ && k != "video"@
        },
{
}

/// Lower-case name of a clock domain.
pub open spec fn domain_name(d: ClockDomain) -> Seq<char> {
    match d {
        ClockDomain::Graphics => "graphics"@,
        ClockDomain::Memory => "memory"@,
        ClockDomain::Processor => "processor"@,
        ClockDomain::Video => "video"@,
    }
}

/// Lower-case name of a clock domain.
pub fn domain_label(domain: ClockDomain) -> (s: &'static str)
    ensures
        s@ == domain_name(domain),
{
    match domain {
        ClockDomain::Graphics => "graphics",
        ClockDomain::Memory => "memory",
        ClockDomain::Processor => "processor",
        ClockDomain::Video => "video",
    }
}

/// Fan/cooler targets of the NVAPI backend.
#[derive(Debug, Clone, Copy, PartialEq, Eq, Structural)]
pub enum CoolerTarget {
    All,
    Cooler1,
    Cooler2,
}

/// `all`, or a cooler number: `0` and `1` both name the first cooler.
pub open spec fn parse_cooler_target_spec(raw: Seq<char>) -> Result<CoolerTarget, Seq<char>> {
    let k = lower(trim(raw));
    if k == "all"@ {
        Ok(CoolerTarget::All)
    } else if k == "0"@ || k == "1"@ {
        Ok(CoolerTarget::Cooler1)
    } else if k == "2"@ {
        Ok(CoolerTarget::Cooler2)
    } else {
        Err(keyword_error("invalid fan target "@, k, "; expected all, 1, or 2"@))
    }
}

/// Parses a fan/cooler target.
pub fn parse_cooler_target(raw: &str) -> (r: Result<CoolerTarget, String>)
    ensures
        res_view(r) == parse_cooler_target_spec(raw@),
{
    let c = chars_of(raw);
    let k = trim_lower(c.as_slice());
    let ks = k.as_slice();
    if crate::text::eq_str(ks, "all") {
        Ok(CoolerTarget::All)
    } else if crate::text::eq_str(ks, "0") || crate::text::eq_str(ks, "1") {
        Ok(CoolerTarget::Cooler1)
    } else if crate::text::eq_str(ks, "2") {
        Ok(CoolerTarget::Cooler2)
    } else {
        Err(keyword_error_message("invalid fan target ", ks, "; expected all, 1, or 2"))
    }
}

/// `restricted` or `open`.
pub open spec fn parse_api_restriction_state_spec(raw: Seq<char>) -> Result<bool, Seq<char>> {
    let k = lower(trim(raw));
    if k == "restricted"@ {
        Ok(true)
    } else if k == "open"@ {
        Ok(false)
    } else {
        Err(
            keyword_error(
                "invalid API restriction state "@,
                k,
                "; expected open or restricted"@,
            ),
        )
    }
}

/// Parses an API restriction state: whether the API is restricted.
pub fn parse_api_restriction_state(raw: &str) -> (r: Result<bool, String>)
    ensures
        res_view(r) == parse_api_restriction_state_spec(raw@),
{
    let c = chars_of(raw);
    let k = trim_lower(c.as_slice());
    let ks = k.as_slice();
    if crate::text::eq_str(ks, "restricted") {
        Ok(true)
    } else if crate::text::eq_str(ks, "open") {
        Ok(false)
    } else {
        Err(
            keyword_error_message(
                "invalid API restriction state ",
                ks,
                "; expected open or restricted",
            ),
        )
    }
}

/// The NVML APIs whose use can be restricted to administrators.
#[derive(Debug, Clone, Copy, PartialEq, Eq, Structural)]
pub enum RestrictedApi {
    ApplicationClocks,
    AutoBoostedClocks,
}

/// API names and aliases.
pub open spec fn parse_api_restriction_api_spec(raw: Seq<char>) -> Result<RestrictedApi, Seq<char>> {
    let k = lower(trim(raw));
    if k == "app-clocks"@ || k == "application-clocks"@ {
        Ok(RestrictedApi::ApplicationClocks)
    } else if k == "auto-boost"@ || k == "autoboost"@ {
        Ok(RestrictedApi::AutoBoostedClocks)
    } else {
        Err(keyword_error("invalid API "@, k, "; expected app-clocks or auto-boost"@))
    }
}

/// Parses the API of an API restriction.
pub fn parse_api_restriction_api(raw: &str) -> (r: Result<RestrictedApi, String>)
    ensures
        res_view(r) == parse_api_restriction_api_spec(raw@),
{
    let c = chars_of(raw);
    let k = trim_lower(c.as_slice());
    let ks = k.as_slice();
    if crate::text::eq_str(ks, "app-clocks") || crate::text::eq_str(ks, "application-clocks") {
        Ok(RestrictedApi::ApplicationClocks)
    } else if crate::text::eq_str(ks, "auto-boost") || crate::text::eq_str(ks, "autoboost") {
        Ok(RestrictedApi::AutoBoostedClocks)
    } else {
        Err(keyword_error_message("invalid API ", ks, "; expected app-clocks or auto-boost"))
    }
}

/// Canonical name of a restricted API.
pub open spec fn api_name(api: RestrictedApi) -> Seq<char> {
    match api {
        RestrictedApi::ApplicationClocks => "app-clocks"@,
        RestrictedApi::AutoBoostedClocks => "auto-boost"@,
    }
}

/// Canonical name of a restricted API.
pub fn api_restriction_api_label(api: RestrictedApi) -> (s: &'static str)
    ensures
        s@ == api_name(api),
{
    match api {
        RestrictedApi::ApplicationClocks => "app-clocks",
        RestrictedApi::AutoBoostedClocks => "auto-boost",
    }
}

/// Domains a VFP reset applies to.
#[derive(Debug, Clone, Copy, PartialEq, Eq, Structural)]
pub enum VfpResetDomain {
    All,
    Core,
    Memory,
}

/// VFP reset domain names and aliases.
pub open spec fn vfp_reset_domain_spec(raw: Seq<char>) -> Result<VfpResetDomain, Seq<char>> {
    let k = lower(trim(raw));
    if k == "all"@ {
        Ok(VfpResetDomain::All)
    } else if k == "core"@ || k == "graphics"@ || k == "gpu"@ {
        Ok(VfpResetDomain::Core)
    } else if k == "mem"@ || k == "memory"@ {
        Ok(VfpResetDomain::Memory)
    } else {
        Err(
            keyword_error(
                "invalid VFP reset domain "@,
                k,
                "; expected all, core, or memory"@,
            ),
        )
    }
}

fn parse_vfp_reset_domain(raw: &[char]) -> (r: Result<VfpResetDomain, String>)
    ensures
        res_view(r) == vfp_reset_domain_spec(raw@),
{
    let k = trim_lower(raw);
    let ks = k.as_slice();
    if crate::text::eq_str(ks, "all") {
        Ok(VfpResetDomain::All)
    } else if crate::text::eq_str(ks, "core") || crate::text::eq_str(ks, "graphics")
        || crate::text::eq_str(ks, "gpu") {
        Ok(VfpResetDomain::Core)
    } else if crate::text::eq_str(ks, "mem") || crate::text::eq_str(ks, "memory") {
        Ok(VfpResetDomain::Memory)
    } else {
        Err(keyword_error_message("invalid VFP reset domain ", ks, "; expected all, core, or memory"))
    }
}

/// Lower-case name of a VFP reset domain.
pub open spec fn vfp_reset_domain_name(d: VfpResetDomain) -> Seq<char> {
    match d {
        VfpResetDomain::All => "all"@,
        VfpResetDomain::Core => "core"@,
        VfpResetDomain::Memory => "memory"@,
    }
}

/// Lower-case name of a VFP reset domain.
pub fn vfp_reset_domain_label(domain: VfpResetDomain) -> (s: &'static str)
    ensures
        s@ == vfp_reset_domain_name(domain),
{
    match domain {
        VfpResetDomain::All => "all",
        VfpResetDomain::Core => "core",
        VfpResetDomain::Memory => "memory",
    }
}

// ---------------------------------------------------------------------------
// Options of an invocation
// ---------------------------------------------------------------------------

/// Switch option `name`: its last value read as a switch, else `default`.
pub fn option_bool(invocation: &Invocation, name: &str, default: bool) -> (r: Result<bool, String>)
    ensures
        res_view(r) == match option_one_spec(invocation.options@, name@) {
            Some(v) => parse_bool_spec(v),
            None => Ok(default),
        },
{
    match option_one(invocation, name) {
        Some(v) => parse_bool(v),
        None => Ok(default),
    }
}

/// The `--domain` option read as a clock domain, else `default`.
pub fn option_domain(invocation: &Invocation, default: ClockDomain) -> (r: Result<
    ClockDomain,
    String,
>)
    ensures
        res_view(r) == match option_one_spec(invocation.options@, "domain"@) {
            Some(v) => parse_domain_spec(v),
            None => Ok(default),
        },
{
    match option_one(invocation, "domain") {
        Some(v) => parse_domain(v),
        None => Ok(default),
    }
}

/// The `--domain` option read as a VFP reset domain, `all` when absent.
pub fn option_vfp_reset_domain(invocation: &Invocation) -> (r: Result<VfpResetDomain, String>)
    ensures
        res_view(r) == match option_one_spec(invocation.options@, "domain"@) {
            Some(v) => vfp_reset_domain_spec(v),
            None => vfp_reset_domain_spec("all"@),
        },
{
    match option_one(invocation, "domain") {
        Some(v) => {
            let c = chars_of(v);
            parse_vfp_reset_domain(c.as_slice())
        },
        None => {
            let c = chars_of("all");
            parse_vfp_reset_domain(c.as_slice())
        },
    }
}

/// Whether a fan option names every fan (`all`, any case, not trimmed).
pub fn is_all_fans(raw: &str) -> (b: bool)
    ensures
        b == (lower(raw@) == "all"@),
{
    let c = chars_of(raw);
    let l = lower_chars(c.as_slice());
    crate::text::eq_str(l.as_slice(), "all")
}

/// The indices of all `count` fans, in order.
pub fn all_fan_indices(count: u32) -> (v: Vec<u32>)
    ensures
        v@ == Seq::new(count as nat, |i: int| i as u32),
{
    let mut v: Vec<u32> = Vec::new();
    let mut i: u32 = 0;
    while i < count
        invariant
            i <= count,
            v@ == Seq::new(i as nat, |j: int| j as u32),
        decreases count - i,
    {
        v.push(i);
        i = i + 1;
        assert(v@ =~= Seq::new(i as nat, |j: int| j as u32));
    }
    v
}

/// Each on/off word reads as its switch: `1`, `true`, `yes`, `on` turn it on; `0`, `false`, `no`, `off` turn it off.
pub proof fn lemma_bool_words()
    ensures
        parse_bool_spec("1"@) == Ok::<bool, Seq<char>>(true),
        parse_bool_spec("true"@) == Ok::<bool, Seq<char>>(true),
        parse_bool_spec("yes"@) == Ok::<bool, Seq<char>>(true),
        parse_bool_spec("on"@) == Ok::<bool, Seq<char>>(true),
        parse_bool_spec("0"@) == Ok::<bool, Seq<char>>(false),
        parse_bool_spec("false"@) == Ok::<bool, Seq<char>>(false),
        parse_bool_spec("no"@) == Ok::<bool, Seq<char>>(false),
        parse_bool_spec("off"@) == Ok::<bool, Seq<char>>(false),
{
    reveal_strlit("0");
    reveal_strlit("1");
    reveal_strlit("false");
    reveal_strlit("no");
    reveal_strlit("off");
    reveal_strlit("on");
    reveal_strlit("true");
    reveal_strlit("yes");
    assert("0"@.len() == 1);
    assert("1"@.len() == 1);
    assert("false"@.len() == 5);
    assert("no"@.len() == 2);
    assert("off"@.len() == 3);
    assert("on"@.len() == 2);
    assert("true"@.len() == 4);
    assert("yes"@.len() == 3);
    assert(lower(trim("1"@)) =~= "1"@);
    assert(lower(trim("true"@)) =~= "true"@);
    assert(lower(trim("yes"@)) =~= "yes"@);
    assert(lower(trim("on"@)) =~= "on"@);
    assert("0"@[0] != "1"@[0]);
    assert(lower(trim("0"@)) =~= "0"@);
    assert(lower(trim("false"@)) =~= "false"@);
    assert("no"@[0] != "on"@[0]);
    assert(lower(trim("no"@)) =~= "no"@);
    assert("off"@[0] != "yes"@[0]);
    assert(lower(trim("off"@)) =~= "off"@);
}

/// `all` names every cooler; `0` and `1` name the first cooler and `2` the second.
pub proof fn lemma_cooler_target_words()
    ensures
        parse_cooler_target_spec("all"@) == Ok::<CoolerTarget, Seq<char>>(CoolerTarget::All),
        parse_cooler_target_spec("0"@) == Ok::<CoolerTarget, Seq<char>>(CoolerTarget::Cooler1),
        parse_cooler_target_spec("1"@) == Ok::<CoolerTarget, Seq<char>>(CoolerTarget::Cooler1),
        parse_cooler_target_spec("2"@) == Ok::<CoolerTarget, Seq<char>>(CoolerTarget::Cooler2),
{
    reveal_strlit("0");
    reveal_strlit("1");
    reveal_strlit("2");
    reveal_strlit("all");
    assert("0"@.len() == 1);
    assert("1"@.len() == 1);
    assert("2"@.len() == 1);
    assert("all"@.len() == 3);
    assert(lower(trim("all"@)) =~= "all"@);
    assert(lower(trim("0"@)) =~= "0"@);
    assert("1"@[0] != "0"@[0]);
    assert(lower(trim("1"@)) =~= "1"@);
    assert("2"@[0] != "0"@[0]);
    assert("2"@[0] != "1"@[0]);
    assert(lower(trim("2"@)) =~= "2"@);
}

/// `restricted` restricts the API and `open` opens it.
pub proof fn lemma_api_restriction_state_words()
    ensures
        parse_api_restriction_state_spec("restricted"@) == Ok::<bool, Seq<char>>(true),
        parse_api_restriction_state_spec("open"@) == Ok::<bool, Seq<char>>(false),
{
    reveal_strlit("open");
    reveal_strlit("restricted");
    assert("open"@.len() == 4);
    assert("restricted"@.len() == 10);
    assert(lower(trim("restricted"@)) =~= "restricted"@);
    assert(lower(trim("open"@)) =~= "open"@);
}

/// Each restricted API's name and alias read back as that API.
pub proof fn lemma_restricted_api_names(api: RestrictedApi)
    ensures
        parse_api_restriction_api_spec(api_name(api)) == Ok::<RestrictedApi, Seq<char>>(api),
        parse_api_restriction_api_spec("app-clocks"@) == Ok::<RestrictedApi, Seq<char>>(RestrictedApi::ApplicationClocks),
        parse_api_restriction_api_spec("application-clocks"@) == Ok::<RestrictedApi, Seq<char>>(RestrictedApi::ApplicationClocks),
        parse_api_restriction_api_spec("auto-boost"@) == Ok::<RestrictedApi, Seq<char>>(RestrictedApi::AutoBoostedClocks),
        parse_api_restriction_api_spec("autoboost"@) == Ok::<RestrictedApi, Seq<char>>(RestrictedApi::AutoBoostedClocks),
{
    reveal_strlit("app-clocks");
    reveal_strlit("application-clocks");
    reveal_strlit("auto-boost");
    reveal_strlit("autoboost");
    assert("app-clocks"@.len() == 10);
    assert("application-clocks"@.len() == 18);
    assert("auto-boost"@.len() == 10);
    assert("autoboost"@.len() == 9);
    assert(lower(trim("app-clocks"@)) =~= "app-clocks"@);
    assert(lower(trim("application-clocks"@)) =~= "application-clocks"@);
    assert("auto-boost"@[1] != "app-clocks"@[1]);
    assert(lower(trim("auto-boost"@)) =~= "auto-boost"@);
    assert(lower(trim("autoboost"@)) =~= "autoboost"@);
}

/// Each VFP reset domain's name reads back as that domain, and so do the aliases: `graphics` and `gpu` for the core, `mem` for memory.
pub proof fn lemma_vfp_reset_domain_names(d: VfpResetDomain)
    ensures
        vfp_reset_domain_spec(vfp_reset_domain_name(d)) == Ok::<VfpResetDomain, Seq<char>>(d),
        vfp_reset_domain_spec("all"@) == Ok::<VfpResetDomain, Seq<char>>(VfpResetDomain::All),
        vfp_reset_domain_spec("core"@) == Ok::<VfpResetDomain, Seq<char>>(VfpResetDomain::Core),
        vfp_reset_domain_spec("graphics"@) == Ok::<VfpResetDomain, Seq<char>>(VfpResetDomain::Core),
        vfp_reset_domain_spec("gpu"@) == Ok::<VfpResetDomain, Seq<char>>(VfpResetDomain::Core),
        vfp_reset_domain_spec("mem"@) == Ok::<VfpResetDomain, Seq<char>>(VfpResetDomain::Memory),
        vfp_reset_domain_spec("memory"@) == Ok::<VfpResetDomain, Seq<char>>(VfpResetDomain::Memory),
{
    reveal_strlit("all");
    reveal_strlit("core");
    reveal_strlit("gpu");
    reveal_strlit("graphics");
    reveal_strlit("mem");
    reveal_strlit("memory");
    assert("all"@.len() == 3);
    assert("core"@.len() == 4);
    assert("gpu"@.len() == 3);
    assert("graphics"@.len() == 8);
    assert("mem"@.len() == 3);
    assert("memory"@.len() == 6);
    assert(lower(trim("all"@)) =~= "all"@);
    assert(lower(trim("core"@)) =~= "core"@);
    assert(lower(trim("graphics"@)) =~= "graphics"@);
    assert("gpu"@[0] != "all"@[0]);
    assert(lower(trim("gpu"@)) =~= "gpu"@);
    assert("mem"@[0] != "all"@[0]);
    assert("mem"@[0] != "gpu"@[0]);
    assert(lower(trim("mem"@)) =~= "mem"@);
    assert(lower(trim("memory"@)) =~= "memory"@);
}

} // verus!
