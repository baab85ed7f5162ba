//! CUDA device identity: PCI bus addresses and UUIDs in their textual forms,
//! and the choice of a device among the enumerated ones by PCI-sorted
//! position, PCI address or UUID.
use vstd::prelude::*;
use vstd::relations::injective_on;
use vstd::set_lib::*;

use crate::edid::{bytes_to_upper_hex, upper_hex_bytes};
use crate::text::{
    chars_of, concat, decimal, decimal_chars, digit, digit_value, hex_upper, hex_upper_padded,
    hex_upper_padded_chars, message, parse_u32_radix, parse_unsigned, res_view, split_once,
    split_once_chars, string_from_chars, string_of, trim, trim_chars,
};

verus! {

// ---------------------------------------------------------------------------
// PCI bus addresses
// ---------------------------------------------------------------------------

/// A PCI bus address: domain, bus, device and function.
#[derive(Debug, Clone, Copy, PartialEq, Eq, Structural)]
pub struct PciBusAddress {
    pub domain: u32,
    pub bus: u32,
    pub device: u32,
    pub function: u32,
}

/// The four hex fields of `domain:bus:device.function`.
pub open spec fn pci_fields(s: Seq<char>) -> Option<(Seq<char>, Seq<char>, Seq<char>, Seq<char>)> {
    match split_once(s, ':') {
        Some((d, r1)) => match split_once(r1, ':') {
            Some((b, r2)) => match split_once(r2, '.') {
                Some((dv, f)) => Some((d, b, dv, f)),
                None => None,
            },
            None => None,
        },
        None => None,
    }
}

/// `invalid PCI <field><suffix>: <text>`.
pub open spec fn pci_field_error(field: Seq<char>, suffix: Seq<char>, text: Seq<char>) -> Seq<char> {
    "invalid PCI "@ + field + suffix + ": "@ + text
}

/// A PCI address in `domain:bus:device.function` form, every field a
/// 32-bit hex number; `lead` starts the message for a malformed text and
/// `suffix` follows the field name in the message for a bad field.
pub open spec fn pci_address_spec(s: Seq<char>, lead: Seq<char>, suffix: Seq<char>) -> Result<
    PciBusAddress,
    Seq<char>,
> {
    match pci_fields(s) {
        None => Err(lead + s),
        Some((d, b, dv, f)) => match parse_unsigned(d, 16, u32::MAX as nat) {
            None => Err(pci_field_error("domain"@, suffix, d)),
            Some(dn) => match parse_unsigned(b, 16, u32::MAX as nat) {
                None => Err(pci_field_error("bus"@, suffix, b)),
                Some(bn) => match parse_unsigned(dv, 16, u32::MAX as nat) {
                    None => Err(pci_field_error("device"@, suffix, dv)),
                    Some(dvn) => match parse_unsigned(f, 16, u32::MAX as nat) {
                        None => Err(pci_field_error("function"@, suffix, f)),
                        Some(fnum) => Ok(
                            PciBusAddress {
                                domain: dn as u32,
                                bus: bn as u32,
                                device: dvn as u32,
                                function: fnum as u32,
                            },
                        ),
                    },
                },
            },
        },
    }
}

fn field_error(field: &str, suffix: &str, text: &[char]) -> (m: String)
    ensures
        m@ == pci_field_error(field@, suffix@, text@),
{
    let f = chars_of(field);
    let sfx = chars_of(suffix);
    let colon = chars_of(": ");
    let a = concat(f.as_slice(), sfx.as_slice());
    let b = concat(a.as_slice(), colon.as_slice());
    let c = concat(b.as_slice(), text);
    let m = message("invalid PCI ", c.as_slice());
    assert(m@ =~= pci_field_error(field@, suffix@, text@));
    m
}

fn parse_pci_address(s: &[char], lead: &str, suffix: &str) -> (r: Result<PciBusAddress, String>)
    ensures
        res_view(r) == pci_address_spec(s@, lead@, suffix@),
{
    let (d, r1) = match split_once_chars(s, ':') {
        Some(p) => p,
        None => {
            return Err(message(lead, s));
        },
    };
    let (b, r2) = match split_once_chars(r1.as_slice(), ':') {
        Some(p) => p,
        None => {
            return Err(message(lead, s));
        },
    };
    let (dv, f) = match split_once_chars(r2.as_slice(), '.') {
        Some(p) => p,
        None => {
            return Err(message(lead, s));
        },
    };
    let domain = match parse_u32_radix(d.as_slice(), 16) {
        Some(v) => v,
        None => {
            return Err(field_error("domain", suffix, d.as_slice()));
        },
    };
    let bus = match parse_u32_radix(b.as_slice(), 16) {
        Some(v) => v,
        None => {
            return Err(field_error("bus", suffix, b.as_slice()));
        },
    };
    let device = match parse_u32_radix(dv.as_slice(), 16) {
        Some(v) => v,
        None => {
            return Err(field_error("device", suffix, dv.as_slice()));
        },
    };
    let function = match parse_u32_radix(f.as_slice(), 16) {
        Some(v) => v,
        None => {
            return Err(field_error("function", suffix, f.as_slice()));
        },
    };
    Ok(PciBusAddress { domain, bus, device, function })
}

/// A user-given PCI bus address (`--pci-bus`), surrounding whitespace
/// allowed.
pub open spec fn parse_pci_bus_string_spec(raw: Seq<char>) -> Result<PciBusAddress, Seq<char>> {
    pci_address_spec(trim(raw), "invalid PCI bus format: "@, Seq::empty())
}

/// Parses a user-given PCI bus address such as `0000:65:00.0`.
pub fn parse_pci_bus_string(raw: &str) -> (r: Result<PciBusAddress, String>)
    ensures
        res_view(r) == parse_pci_bus_string_spec(raw@),
{
    let c = chars_of(raw);
    let t = trim_chars(c.as_slice());
    proof {
        reveal_strlit("");
    }
    parse_pci_address(t.as_slice(), "invalid PCI bus format: ", "")
}

/// A PCI bus id as the CUDA driver reports it.
pub open spec fn parse_cuda_pci_bus_id_spec(raw: Seq<char>) -> Result<PciBusAddress, Seq<char>> {
    pci_address_spec(trim(raw), "invalid CUDA PCI bus id: "@, " in bus id"@)
}

/// Parses a PCI bus id reported by the CUDA driver.
pub fn parse_cuda_pci_bus_id(raw: &str) -> (r: Result<PciBusAddress, String>)
    ensures
        res_view(r) == parse_cuda_pci_bus_id_spec(raw@),
{
    let c = chars_of(raw);
    let t = trim_chars(c.as_slice());
    parse_pci_address(t.as_slice(), "invalid CUDA PCI bus id: ", " in bus id")
}

/// `{:04X}:{:02X}:{:02X}.{}`: domain, bus and device in hex, the function
/// in decimal.
pub open spec fn pci_address_text(p: PciBusAddress) -> Seq<char> {
    hex_upper_padded(p.domain as nat, 4) + ":"@ + hex_upper_padded(p.bus as nat, 2) + ":"@
        + hex_upper_padded(p.device as nat, 2) + "."@ + decimal(p.function as nat)
}

/// Renders a PCI bus address.
pub fn format_pci_address(pci: &PciBusAddress) -> (s: String)
    ensures
        s@ == pci_address_text(*pci),
{
    let colon = chars_of(":");
    let dot = chars_of(".");
    let a = hex_upper_padded_chars(pci.domain as u64, 4);
    let b = hex_upper_padded_chars(pci.bus as u64, 2);
    let c = hex_upper_padded_chars(pci.device as u64, 2);
    let d = decimal_chars(pci.function as u64);
    let s1 = concat(a.as_slice(), colon.as_slice());
    let s2 = concat(s1.as_slice(), b.as_slice());
    let s3 = concat(s2.as_slice(), colon.as_slice());
    let s4 = concat(s3.as_slice(), c.as_slice());
    let s5 = concat(s4.as_slice(), dot.as_slice());
    let s6 = concat(s5.as_slice(), d.as_slice());
    assert(s6@ =~= pci_address_text(*pci));
    string_from_chars(s6.as_slice())
}

// ---------------------------------------------------------------------------
// UUIDs
// ---------------------------------------------------------------------------

/// An ASCII hex digit.
pub open spec fn is_hex_digit(c: char) -> bool {
    ('0' <= c <= '9') || ('a' <= c <= 'f') || ('A' <= c <= 'F')
}

/// The hex digits of a UUID text, separators and anything else dropped.
pub open spec fn uuid_digits(raw: Seq<char>) -> Seq<char> {
    trim(raw).filter(|c: char| is_hex_digit(c))
}

/// Value of a hex digit.
pub open spec fn hex_value(c: char) -> nat {
    match digit_value(c, 16) {
        Some(v) => v,
        None => 0,
    }
}

/// A UUID text: exactly 32 hex digits (dashes, spaces or other characters
/// between them ignored), read as 16 bytes, most significant digit first.
pub open spec fn parse_uuid_spec(raw: Seq<char>) -> Result<Seq<u8>, Seq<char>> {
    let h = uuid_digits(raw);
    if h.len() != 32 {
        Err("UUID must be 32 hex digits, got "@ + decimal(h.len()))
    } else {
        Ok(Seq::new(16, |i: int| (hex_value(h[2 * i]) * 16 + hex_value(h[2 * i + 1])) as u8))
    }
}

fn is_hex_digit_exec(c: char) -> (b: bool)
    ensures
        b == is_hex_digit(c),
{
    ('0' <= c && c <= '9') || ('a' <= c && c <= 'f') || ('A' <= c && c <= 'F')
}

/// Parses a 16-byte UUID from its hex text.
pub fn parse_uuid_string(raw: &str) -> (r: Result<[u8; 16], String>)
    ensures
        match r {
            Ok(u) => parse_uuid_spec(raw@) == Ok::<Seq<u8>, Seq<char>>(u@),
            Err(e) => parse_uuid_spec(raw@) == Err::<Seq<u8>, Seq<char>>(e@),
        },
{
    let c = chars_of(raw);
    let t = trim_chars(c.as_slice());
    let ghost keep = |c: char| is_hex_digit(c);
    let mut h: Vec<char> = Vec::new();
    let mut i: usize = 0;
    assert(t@.take(0) =~= Seq::<char>::empty());
    while i < t.len()
        invariant
            i <= t@.len(),
            keep == (|c: char| is_hex_digit(c)),
            h@ == t@.take(i as int).filter(keep),
        decreases t@.len() - i,
    {
        proof {
            reveal_with_fuel(Seq::filter, 1);
            assert(t@.take(i as int + 1).drop_last() =~= t@.take(i as int));
        }
        if is_hex_digit_exec(t[i]) {
            h.push(t[i]);
        }
        i = i + 1;
    }
    assert(t@.take(t@.len() as int) =~= t@);
    assert(h@ == uuid_digits(raw@));
    if h.len() != 32 {
        let d = decimal_chars(h.len() as u64);
        return Err(message("UUID must be 32 hex digits, got ", d.as_slice()));
    }
    let mut uuid: [u8; 16] = [0u8; 16];
    let mut k: usize = 0;
    while k < 16
        invariant
            k <= 16,
            h@.len() == 32,
            h@ == uuid_digits(raw@),
            forall|j: int|
                0 <= j < k ==> uuid@[j] == (hex_value(h@[2 * j]) * 16 + hex_value(h@[2 * j + 1])) as u8,
        decreases 16 - k,
    {
        let hi = match digit(h[2 * k], 16) {
            Some(v) => v,
            None => 0,
        };
        let lo = match digit(h[2 * k + 1], 16) {
            Some(v) => v,
            None => 0,
        };
        uuid[k] = (hi * 16 + lo) as u8;
        k = k + 1;
    }
    assert(uuid@ =~= Seq::new(
        16,
        |i: int| (hex_value(h@[2 * i]) * 16 + hex_value(h@[2 * i + 1])) as u8,
    ));
    Ok(uuid)
}

/// Renders a UUID as 32 upper-case hex digits.
pub fn format_uuid_hex(uuid: &[u8; 16]) -> (s: String)
    ensures
        s@ == upper_hex_bytes(uuid@),
{
    bytes_to_upper_hex(uuid)
}

// ---------------------------------------------------------------------------
// Device selection
// ---------------------------------------------------------------------------

/// An enumerated CUDA device.
#[derive(Debug, Clone)]
pub struct CudaDeviceEnumInfo {
    pub device_index: u32,
    pub device_name: String,
    pub uuid: [u8; 16],
    pub pci_bus: Option<PciBusAddress>,
    pub compute_capability: Option<(i32, i32)>,
}

/// Lexicographic order of PCI addresses (domain, bus, device, function).
pub open spec fn pci_lt(a: PciBusAddress, b: PciBusAddress) -> bool {
    ||| a.domain < b.domain
    ||| a.domain == b.domain && a.bus < b.bus
    ||| a.domain == b.domain && a.bus == b.bus && a.device < b.device
    ||| a.domain == b.domain && a.bus == b.bus && a.device == b.device && a.function < b.function
}

/// Order of device keys: by PCI address, devices without one last.
pub open spec fn key_lt(a: Option<PciBusAddress>, b: Option<PciBusAddress>) -> bool {
    match (a, b) {
        (Some(x), Some(y)) => pci_lt(x, y),
        (Some(_), None) => true,
        _ => false,
    }
}

/// The PCI keys of a device list.
pub open spec fn device_keys(ds: Seq<CudaDeviceEnumInfo>) -> Seq<Option<PciBusAddress>> {
    ds.map_values(|d: CudaDeviceEnumInfo| d.pci_bus)
}

/// Whether device `a` comes before device `b` in the stable PCI sort: a
/// smaller key, or an equal key and an earlier position.
pub open spec fn precedes(ks: Seq<Option<PciBusAddress>>, a: int, b: int) -> bool {
    key_lt(ks[a], ks[b]) || (!key_lt(ks[b], ks[a]) && a < b)
}

/// How many of the first `m` devices come before device `i`.
pub open spec fn count_before(ks: Seq<Option<PciBusAddress>>, i: int, m: nat) -> nat
    decreases m,
{
    if m == 0 {
        0
    } else {
        count_before(ks, i, (m - 1) as nat) + if precedes(ks, m - 1, i) {
            1nat
        } else {
            0nat
        }
    }
}

/// Position of device `i` once the list is stably sorted by PCI address
/// (devices without an address last, in their listed order).
pub open spec fn sorted_rank(ks: Seq<Option<PciBusAddress>>, i: int) -> nat {
    count_before(ks, i, ks.len())
}

proof fn lemma_key_order(x: Option<PciBusAddress>, y: Option<PciBusAddress>, z: Option<PciBusAddress>)
    ensures
        !key_lt(x, x),
        key_lt(x, y) ==> !key_lt(y, x),
        key_lt(x, y) && key_lt(y, z) ==> key_lt(x, z),
        !key_lt(x, y) && !key_lt(y, x) ==> x == y,
        key_lt(x, y) && !key_lt(z, y) && !key_lt(y, z) ==> key_lt(x, z),
        !key_lt(y, x) && !key_lt(x, y) && key_lt(y, z) ==> key_lt(x, z),
{
}

proof fn lemma_precedes_order(ks: Seq<Option<PciBusAddress>>, a: int, b: int, c: int)
    requires
        0 <= a < ks.len(),
        0 <= b < ks.len(),
        0 <= c < ks.len(),
    ensures
        !precedes(ks, a, a),
        precedes(ks, a, b) && precedes(ks, b, c) ==> precedes(ks, a, c),
        a != b ==> (precedes(ks, a, b) || precedes(ks, b, a)),
{
    lemma_key_order(ks[a], ks[b], ks[c]);
    lemma_key_order(ks[b], ks[a], ks[c]);
    lemma_key_order(ks[a], ks[c], ks[b]);
}

proof fn lemma_count_monotone(ks: Seq<Option<PciBusAddress>>, i: int, j: int, m: nat)
    requires
        0 <= i < ks.len(),
        0 <= j < ks.len(),
        m <= ks.len(),
        precedes(ks, i, j),
    ensures
        count_before(ks, i, m) + (if i < m {
            1nat
        } else {
            0nat
        }) <= count_before(ks, j, m),
    decreases m,
{
    if m > 0 {
        lemma_count_monotone(ks, i, j, (m - 1) as nat);
        lemma_precedes_order(ks, m - 1, i, j);
        lemma_precedes_order(ks, i, i, i);
    }
}

proof fn lemma_count_bound(ks: Seq<Option<PciBusAddress>>, i: int, m: nat)
    requires
        0 <= i < ks.len(),
        m <= ks.len(),
    ensures
        count_before(ks, i, m) + (if i < m {
            1nat
        } else {
            0nat
        }) <= m,
    decreases m,
{
    if m > 0 {
        lemma_count_bound(ks, i, (m - 1) as nat);
        lemma_precedes_order(ks, i, i, i);
    }
}

/// The stable-sort positions of the devices are exactly `0..n`: every
/// position below the number of devices belongs to exactly one device.
pub proof fn lemma_sorted_rank_bijective(ks: Seq<Option<PciBusAddress>>, k: nat)
    requires
        k < ks.len(),
    ensures
        exists|i: int| 0 <= i < ks.len() && sorted_rank(ks, i) == k,
        forall|i: int, j: int|
            0 <= i < ks.len() && 0 <= j < ks.len() && sorted_rank(ks, i) == sorted_rank(ks, j)
                ==> i == j,
{
    let n = ks.len();
    assert forall|i: int, j: int|
        0 <= i < n && 0 <= j < n && sorted_rank(ks, i) == sorted_rank(ks, j) implies i == j by {
        if i != j {
            lemma_precedes_order(ks, i, j, i);
            if precedes(ks, i, j) {
                lemma_count_monotone(ks, i, j, n);
            } else {
                lemma_count_monotone(ks, j, i, n);
            }
        }
    }
    let dom = set_int_range(0, n as int);
    let f = |i: int| sorted_rank(ks, i) as int;
    lemma_int_range(0, n as int);
    assert(injective_on(f, dom));
    let img = dom.map(f);
    lemma_map_size(dom, img, f);
    assert forall|x: int| img.contains(x) implies dom.contains(x) by {
        let i = choose|i: int| dom.contains(i) && f(i) == x;
        lemma_count_bound(ks, i, n);
    }
    assert(img.subset_of(dom));
    lemma_subset_equality(img, dom);
    assert(dom.contains(k as int));
    assert(img.contains(k as int));
    let w = choose|i: int| dom.contains(i) && f(i) == k as int;
    assert(0 <= w < n && sorted_rank(ks, w) == k);
}

fn pci_less(a: &PciBusAddress, b: &PciBusAddress) -> (r: bool)
    ensures
        r == pci_lt(*a, *b),
{
    a.domain < b.domain || (a.domain == b.domain && a.bus < b.bus) || (a.domain == b.domain
        && a.bus == b.bus && a.device < b.device) || (a.domain == b.domain && a.bus == b.bus
        && a.device == b.device && a.function < b.function)
}

fn key_less(a: &Option<PciBusAddress>, b: &Option<PciBusAddress>) -> (r: bool)
    ensures
        r == key_lt(*a, *b),
{
    match (a, b) {
        (Some(x), Some(y)) => pci_less(x, y),
        (Some(_), None) => true,
        _ => false,
    }
}

fn rank_of(devices: &[CudaDeviceEnumInfo], i: usize) -> (r: usize)
    requires
        i < devices@.len(),
    ensures
        r == sorted_rank(device_keys(devices@), i as int),
{
    let ghost ks = device_keys(devices@);
    let mut count: usize = 0;
    let mut m: usize = 0;
    while m < devices.len()
        invariant
            i < devices@.len(),
            ks == device_keys(devices@),
            m <= devices@.len(),
            count == count_before(ks, i as int, m as nat),
        decreases devices@.len() - m,
    {
        proof {
            lemma_count_bound(ks, i as int, (m + 1) as nat);
        }
        let a = &devices[m].pci_bus;
        let b = &devices[i].pci_bus;
        assert(ks[m as int] == *a && ks[i as int] == *b);
        if key_less(a, b) || (!key_less(b, a) && m < i) {
            count = count + 1;
        }
        m = m + 1;
    }
    count
}

/// `sorted index k out of range (available: 0-<n - 1>)`; for an empty list
/// the upper bound wraps to `usize::MAX`.
pub open spec fn sorted_index_error(k: u32, n: nat) -> Seq<char> {
    "sorted index "@ + decimal(k as nat) + " out of range (available: 0-"@ + decimal(
        if n == 0 {
            usize::MAX as nat
        } else {
            (n - 1) as nat
        },
    ) + ")"@
}

/// Position in `devices` of the device at position `sorted_index` of the
/// list stably sorted by PCI address (devices without an address last).
fn sorted_position(devices: &[CudaDeviceEnumInfo], sorted_index: u32) -> (r: Result<
    usize,
    String,
>)
    ensures
        match r {
            Ok(i) => i < devices@.len() && sorted_index < devices@.len() && sorted_rank(
                device_keys(devices@),
                i as int,
            ) == sorted_index,
            Err(e) => sorted_index >= (devices@.len() as u32) && e@ == sorted_index_error(
                sorted_index,
                devices@.len(),
            ),
        },
{
    let n = devices.len();
    if sorted_index >= n as u32 {
        let a = decimal_chars(sorted_index as u64);
        let top = decimal_chars(n.wrapping_sub(1) as u64);
        let mid = chars_of(" out of range (available: 0-");
        let close = chars_of(")");
        let s1 = concat(a.as_slice(), mid.as_slice());
        let s2 = concat(s1.as_slice(), top.as_slice());
        let s3 = concat(s2.as_slice(), close.as_slice());
        let m = message("sorted index ", s3.as_slice());
        assert(m@ =~= sorted_index_error(sorted_index, devices@.len()));
        return Err(m);
    }
    let ghost ks = device_keys(devices@);
    proof {
        lemma_sorted_rank_bijective(ks, sorted_index as nat);
    }
    let mut i: usize = 0;
    while i < n
        invariant
            n == devices@.len(),
            ks == device_keys(devices@),
            sorted_index < n,
            i <= n,
            forall|j: int| 0 <= j < i ==> sorted_rank(ks, j) != sorted_index,
            exists|j: int| 0 <= j < n && sorted_rank(ks, j) == sorted_index,
        decreases n - i,
    {
        if rank_of(devices, i) == sorted_index as usize {
            return Ok(i);
        }
        i = i + 1;
    }
    proof {
        let w = choose|j: int| 0 <= j < n && sorted_rank(ks, j) == sorted_index;
        assert(sorted_rank(ks, w) != sorted_index);
    }
    Ok(0)
}

/// The positions of the devices in PCI-sorted order: entry `k` is the
/// device at sorted position `k`.
pub fn pci_sorted_positions(devices: &[CudaDeviceEnumInfo]) -> (order: Vec<usize>)
    ensures
        order@.len() == devices@.len(),
        forall|k: int|
            0 <= k < order@.len() ==> (#[trigger] order@[k]) < devices@.len() && sorted_rank(
                device_keys(devices@),
                order@[k] as int,
            ) == k,
{
    let n = devices.len();
    let mut order: Vec<usize> = Vec::new();
    let mut k: usize = 0;
    while k < n
        invariant
            n == devices@.len(),
            k <= n,
            order@.len() == k,
            forall|j: int|
                0 <= j < k ==> (#[trigger] order@[j]) < n && sorted_rank(
                    device_keys(devices@),
                    order@[j] as int,
                ) == j,
        decreases n - k,
    {
        let ghost ks = device_keys(devices@);
        proof {
            lemma_sorted_rank_bijective(ks, k as nat);
        }
        let mut i: usize = 0;
        let mut found: usize = 0;
        let mut got = false;
        while i < n
            invariant
                n == devices@.len(),
                ks == device_keys(devices@),
                k < n,
                i <= n,
                got ==> found < n && sorted_rank(ks, found as int) == k,
                !got ==> forall|j: int| 0 <= j < i ==> sorted_rank(ks, j) != k,
                exists|j: int| 0 <= j < n && sorted_rank(ks, j) == k,
            decreases n - i,
        {
            if !got && rank_of(devices, i) == k {
                found = i;
                got = true;
            }
            i = i + 1;
        }
        proof {
            if !got {
                let w = choose|j: int| 0 <= j < n && sorted_rank(ks, j) == k;
                assert(sorted_rank(ks, w) != k);
            }
        }
        order.push(found);
        k = k + 1;
    }
    order
}

/// `no CUDA device found with UUID <hex>`.
pub open spec fn uuid_not_found(uuid: Seq<u8>) -> Seq<char> {
    "no CUDA device found with UUID "@ + upper_hex_bytes(uuid)
}

/// Position of the first device whose UUID is `uuid`.
fn uuid_position(devices: &[CudaDeviceEnumInfo], uuid: &[u8; 16]) -> (r: Result<usize, String>)
    ensures
        match r {
            Ok(i) => i < devices@.len() && devices@[i as int].uuid@ == uuid@ && forall|j: int|
                0 <= j < i ==> devices@[j].uuid@ != uuid@,
            Err(e) => e@ == uuid_not_found(uuid@) && forall|j: int|
                0 <= j < devices@.len() ==> devices@[j].uuid@ != uuid@,
        },
{
    let mut i: usize = 0;
    while i < devices.len()
        invariant
            i <= devices@.len(),
            forall|j: int| 0 <= j < i ==> devices@[j].uuid@ != uuid@,
        decreases devices@.len() - i,
    {
        if same_uuid(&devices[i].uuid, uuid) {
            return Ok(i);
        }
        i = i + 1;
    }
    let hex = format_uuid_hex(uuid);
    let hc = chars_of(hex.as_str());
    Err(message("no CUDA device found with UUID ", hc.as_slice()))
}

fn same_uuid(a: &[u8; 16], b: &[u8; 16]) -> (r: bool)
    ensures
        r == (a@ == b@),
{
    let mut k: usize = 0;
    while k < 16
        invariant
            k <= 16,
            a@.len() == 16,
            b@.len() == 16,
            forall|j: int| 0 <= j < k ==> a@[j] == b@[j],
        decreases 16 - k,
    {
        if a[k] != b[k] {
            return false;
        }
        k = k + 1;
    }
    assert(a@ =~= b@);
    true
}

/// `no CUDA device found with PCI <address>`.
pub open spec fn pci_not_found(p: PciBusAddress) -> Seq<char> {
    "no CUDA device found with PCI "@ + pci_address_text(p)
}

/// Position of the first device at PCI address `pci`.
fn pci_position(devices: &[CudaDeviceEnumInfo], pci: PciBusAddress) -> (r: Result<
    usize,
    String,
>)
    ensures
        match r {
            Ok(i) => i < devices@.len() && devices@[i as int].pci_bus == Some(pci) && forall|j: int|
                0 <= j < i ==> devices@[j].pci_bus != Some(pci),
            Err(e) => e@ == pci_not_found(pci) && forall|j: int|
                0 <= j < devices@.len() ==> devices@[j].pci_bus != Some(pci),
        },
{
    let mut i: usize = 0;
    while i < devices.len()
        invariant
            i <= devices@.len(),
            forall|j: int| 0 <= j < i ==> devices@[j].pci_bus != Some(pci),
        decreases devices@.len() - i,
    {
        match devices[i].pci_bus {
            Some(p) => {
                if p == pci {
                    return Ok(i);
                }
            },
            None => {},
        }
        i = i + 1;
    }
    let text = format_pci_address(&pci);
    let tc = chars_of(text.as_str());
    Err(message("no CUDA device found with PCI ", tc.as_slice()))
}

/// The device at PCI-sorted position `k`: its position `i` in the list.
pub open spec fn at_sorted(devices: Seq<CudaDeviceEnumInfo>, k: u32, i: int) -> bool {
    0 <= i < devices.len() && sorted_rank(device_keys(devices), i) == k
}

/// The first device with UUID `u`: its position `i` in the list.
pub open spec fn first_with_uuid(devices: Seq<CudaDeviceEnumInfo>, u: Seq<u8>, i: int) -> bool {
    &&& 0 <= i < devices.len()
    &&& devices[i].uuid@ == u
    &&& forall|j: int| 0 <= j < i ==> devices[j].uuid@ != u
}

/// The first device at PCI address `p`: its position `i` in the list.
pub open spec fn first_at_pci(devices: Seq<CudaDeviceEnumInfo>, p: PciBusAddress, i: int) -> bool {
    &&& 0 <= i < devices.len()
    &&& devices[i].pci_bus == Some(p)
    &&& forall|j: int| 0 <= j < i ==> devices[j].pci_bus != Some(p)
}

/// The CUDA index of the device at position `sorted_index` of the device
/// list stably sorted by PCI address, devices without an address last.
/// Exactly one device is at that position (see
/// [`lemma_sorted_rank_bijective`]).
pub fn resolve_device_index_by_sorted_index(devices: &[CudaDeviceEnumInfo], sorted_index: u32) -> (r: Result<
    u32,
    String,
>)
    ensures
        match r {
            Ok(d) => exists|i: int| #[trigger] at_sorted(devices@, sorted_index, i) && d == devices@[i].device_index,
            Err(e) => sorted_index >= (devices@.len() as u32) && e@ == sorted_index_error(
                sorted_index,
                devices@.len(),
            ),
        },
{
    match sorted_position(devices, sorted_index) {
        Ok(i) => {
            assert(at_sorted(devices@, sorted_index, i as int));
            Ok(devices[i].device_index)
        },
        Err(e) => Err(e),
    }
}

/// The CUDA index of the first device whose UUID is `uuid`.
pub fn resolve_device_index_by_uuid(devices: &[CudaDeviceEnumInfo], uuid: &[u8; 16]) -> (r: Result<u32, String>)
    ensures
        match r {
            Ok(d) => exists|i: int| #[trigger] first_with_uuid(devices@, uuid@, i) && d == devices@[i].device_index,
            Err(e) => e@ == uuid_not_found(uuid@) && forall|j: int|
                0 <= j < devices@.len() ==> devices@[j].uuid@ != uuid@,
        },
{
    match uuid_position(devices, uuid) {
        Ok(i) => {
            assert(first_with_uuid(devices@, uuid@, i as int));
            Ok(devices[i].device_index)
        },
        Err(e) => Err(e),
    }
}

/// The CUDA index of the first device at PCI address `pci`.
pub fn resolve_device_index_by_pci_bus(devices: &[CudaDeviceEnumInfo], pci: PciBusAddress) -> (r: Result<
    u32,
    String,
>)
    ensures
        match r {
            Ok(d) => exists|i: int| #[trigger] first_at_pci(devices@, pci, i) && d == devices@[i].device_index,
            Err(e) => e@ == pci_not_found(pci) && forall|j: int|
                0 <= j < devices@.len() ==> devices@[j].pci_bus != Some(pci),
        },
{
    match pci_position(devices, pci) {
        Ok(i) => {
            assert(first_at_pci(devices@, pci, i as int));
            Ok(devices[i].device_index)
        },
        Err(e) => Err(e),
    }
}

/// At most one position is the first device with a UUID.
pub proof fn lemma_first_with_uuid_unique(devices: Seq<CudaDeviceEnumInfo>, u: Seq<u8>, i: int, j: int)
    requires
        first_with_uuid(devices, u, i),
        first_with_uuid(devices, u, j),
    ensures
        i == j,
{
}

/// At most one position is the first device at a PCI address.
pub proof fn lemma_first_at_pci_unique(devices: Seq<CudaDeviceEnumInfo>, p: PciBusAddress, i: int, j: int)
    requires
        first_at_pci(devices, p, i),
        first_at_pci(devices, p, j),
    ensures
        i == j,
{
}

/// How the device to stress is chosen.
#[derive(Debug, Clone, Copy, PartialEq, Eq)]
pub enum GpuSelection {
    /// Position in the PCI-sorted device list.
    SortedIndex(u32),
    PciBus(PciBusAddress),
    Uuid([u8; 16]),
}

/// How many of the three selection options are given.
pub open spec fn selectors_given(gpu_index: bool, pci_bus: bool, gpu_uuid: bool) -> int {
    (if gpu_index {
        1int
    } else {
        0int
    }) + (if pci_bus {
        1int
    } else {
        0int
    }) + (if gpu_uuid {
        1int
    } else {
        0int
    })
}

/// The selection the options name: at most one of a sorted position, a
/// PCI address and a UUID may be given; position 0 when none is.
pub fn gpu_selection(gpu_index: Option<u32>, pci_bus: Option<&str>, gpu_uuid: Option<&str>) -> (r:
    Result<GpuSelection, String>)
    ensures
        selectors_given(gpu_index is Some, pci_bus is Some, gpu_uuid is Some) > 1 ==> (r matches Err(
            e,
        ) && e@ == "only one of --gpu-index, --pci-bus, or --gpu-uuid can be specified"@),
        selectors_given(gpu_index is Some, pci_bus is Some, gpu_uuid is Some) <= 1 ==> {
            match (gpu_index, pci_bus, gpu_uuid) {
                (Some(k), _, _) => r == Ok::<GpuSelection, String>(GpuSelection::SortedIndex(k)),
                (None, Some(p), _) => match parse_pci_bus_string_spec(p@) {
                    Ok(a) => r == Ok::<GpuSelection, String>(GpuSelection::PciBus(a)),
                    Err(m) => r matches Err(e) && e@ == m,
                },
                (None, None, Some(u)) => match parse_uuid_spec(u@) {
                    Ok(b) => r matches Ok(GpuSelection::Uuid(a)) && a@ == b,
                    Err(m) => r matches Err(e) && e@ == m,
                },
                (None, None, None) => r == Ok::<GpuSelection, String>(GpuSelection::SortedIndex(0)),
            }
        },
{
    let given = (if gpu_index.is_some() { 1u32 } else { 0u32 }) + (if pci_bus.is_some() { 1u32 } else { 0u32 }) + (
    if gpu_uuid.is_some() { 1u32 } else { 0u32 });
    if given > 1 {
        return Err(string_of("only one of --gpu-index, --pci-bus, or --gpu-uuid can be specified"));
    }
    if let Some(k) = gpu_index {
        return Ok(GpuSelection::SortedIndex(k));
    }
    if let Some(p) = pci_bus {
        return match parse_pci_bus_string(p) {
            Ok(a) => Ok(GpuSelection::PciBus(a)),
            Err(e) => Err(e),
        };
    }
    if let Some(u) = gpu_uuid {
        return match parse_uuid_string(u) {
            Ok(a) => Ok(GpuSelection::Uuid(a)),
            Err(e) => Err(e),
        };
    }
    Ok(GpuSelection::SortedIndex(0))
}

/// The CUDA index of the device a selection names.
pub fn select_device(devices: &[CudaDeviceEnumInfo], selection: &GpuSelection) -> (r: Result<
    u32,
    String,
>)
    ensures
        match *selection {
            GpuSelection::SortedIndex(k) => match r {
                Ok(d) => exists|i: int| #[trigger] at_sorted(devices@, k, i) && d == devices@[i].device_index,
                Err(e) => k >= (devices@.len() as u32) && e@ == sorted_index_error(k, devices@.len()),
            },
            GpuSelection::PciBus(p) => match r {
                Ok(d) => exists|i: int| #[trigger] first_at_pci(devices@, p, i) && d == devices@[i].device_index,
                Err(e) => e@ == pci_not_found(p) && forall|j: int|
                    0 <= j < devices@.len() ==> devices@[j].pci_bus != Some(p),
            },
            GpuSelection::Uuid(u) => match r {
                Ok(d) => exists|i: int| #[trigger] first_with_uuid(devices@, u@, i) && d == devices@[i].device_index,
                Err(e) => e@ == uuid_not_found(u@) && forall|j: int|
                    0 <= j < devices@.len() ==> devices@[j].uuid@ != u@,
            },
        },
{
    match selection {
        GpuSelection::SortedIndex(k) => resolve_device_index_by_sorted_index(devices, *k),
        GpuSelection::PciBus(p) => resolve_device_index_by_pci_bus(devices, *p),
        GpuSelection::Uuid(u) => resolve_device_index_by_uuid(devices, u),
    }
}

// ---------------------------------------------------------------------------
// Round trips
// ---------------------------------------------------------------------------

proof fn lemma_upper_hex_digits(b: Seq<u8>, i: int)
    requires
        0 <= i < b.len(),
    ensures
        upper_hex_bytes(b).len() == 2 * b.len(),
        upper_hex_bytes(b)[2 * i] == crate::text::hex_char_upper((b[i] / 16) as nat),
        upper_hex_bytes(b)[2 * i + 1] == crate::text::hex_char_upper((b[i] % 16) as nat),
    decreases b.len(),
{
    lemma_upper_hex_len(b);
    if i < b.len() - 1 {
        lemma_upper_hex_digits(b.drop_last(), i);
        lemma_upper_hex_len(b.drop_last());
    }
}

proof fn lemma_upper_hex_len(b: Seq<u8>)
    ensures
        upper_hex_bytes(b).len() == 2 * b.len(),
        forall|j: int| 0 <= j < upper_hex_bytes(b).len() ==> is_hex_digit(#[trigger] upper_hex_bytes(b)[j]),
    decreases b.len(),
{
    if b.len() > 0 {
        lemma_upper_hex_len(b.drop_last());
    }
}

proof fn lemma_filter_all(s: Seq<char>)
    requires
        forall|j: int| 0 <= j < s.len() ==> is_hex_digit(#[trigger] s[j]),
    ensures
        s.filter(|c: char| is_hex_digit(c)) == s,
    decreases s.len(),
{
    reveal_with_fuel(Seq::filter, 1);
    if s.len() > 0 {
        lemma_filter_all(s.drop_last());
        assert(s.drop_last().push(s.last()) =~= s);
    } else {
        assert(s =~= Seq::<char>::empty());
    }
}

/// Rendering a UUID as hex and parsing the text back gives the same bytes.
pub proof fn lemma_uuid_round_trip(u: Seq<u8>)
    requires
        u.len() == 16,
    ensures
        parse_uuid_spec(upper_hex_bytes(u)) == Ok::<Seq<u8>, Seq<char>>(u),
{
    let h = upper_hex_bytes(u);
    lemma_upper_hex_len(u);
    assert(!crate::text::is_ws(h[0]));
    assert(!crate::text::is_ws(h[h.len() - 1]));
    assert(trim(h) == h);
    lemma_filter_all(h);
    assert(uuid_digits(h) == h);
    assert forall|i: int| 0 <= i < 16 implies (hex_value(h[2 * i]) * 16 + hex_value(
        h[2 * i + 1],
    )) as u8 == u[i] by {
        lemma_upper_hex_digits(u, i);
    }
    assert(Seq::new(16, |i: int| (hex_value(h[2 * i]) * 16 + hex_value(h[2 * i + 1])) as u8) =~= u);
}

/// Whether every character of `s` is an ASCII hex digit.
pub open spec fn all_hex(s: Seq<char>) -> bool {
    forall|i: int| 0 <= i < s.len() ==> is_hex_digit(#[trigger] s[i])
}

proof fn lemma_first_index_at(a: Seq<char>, c: char, r: Seq<char>)
    requires
        forall|i: int| 0 <= i < a.len() ==> a[i] != c,
    ensures
        crate::text::first_index(a + seq![c] + r, c) == Some(a.len()),
    decreases a.len(),
{
    let s = a + seq![c] + r;
    if a.len() > 0 {
        lemma_first_index_at(a.drop_first(), c, r);
        assert(s.drop_first() =~= a.drop_first() + seq![c] + r);
        assert(s[0] == a[0]);
    }
}

proof fn lemma_split_at_first(a: Seq<char>, c: char, r: Seq<char>)
    requires
        forall|i: int| 0 <= i < a.len() ==> a[i] != c,
    ensures
        split_once(a + seq![c] + r, c) == Some((a, r)),
{
    let s = a + seq![c] + r;
    lemma_first_index_at(a, c, r);
    assert(s.take(a.len() as int) =~= a);
    assert(s.skip(a.len() as int + 1) =~= r);
}

proof fn lemma_hex_upper_value(n: nat)
    ensures
        crate::text::digits_value(hex_upper(n), 16) == Some(n),
        hex_upper(n).len() > 0,
        all_hex(hex_upper(n)),
    decreases n,
{
    let h = hex_upper(n);
    if n >= 16 {
        lemma_hex_upper_value(n / 16);
        assert(h.drop_last() =~= hex_upper(n / 16));
        assert(h.last() == crate::text::hex_char_upper(n % 16));
        assert(digit_value(crate::text::hex_char_upper(n % 16), 16) == Some(n % 16));
        assert(n == (n / 16) * 16 + n % 16);
        assert forall|i: int| 0 <= i < h.len() implies is_hex_digit(#[trigger] h[i]) by {
            if i < h.len() - 1 {
                assert(h[i] == hex_upper(n / 16)[i]);
            }
        }
    } else {
        assert(h.drop_last() =~= Seq::<char>::empty());
        assert(crate::text::digits_value(h.drop_last(), 16) == Some(0nat));
        assert(h.last() == crate::text::hex_char_upper(n));
        assert(digit_value(crate::text::hex_char_upper(n), 16) == Some(n));
    }
}

proof fn lemma_zeros_value(k: nat, h: Seq<char>)
    ensures
        crate::text::digits_value(Seq::new(k, |i: int| '0') + h, 16) == crate::text::digits_value(
            h,
            16,
        ),
    decreases h.len(), k,
{
    let z = Seq::new(k, |i: int| '0');
    if h.len() == 0 {
        assert(z + h =~= z);
        if k > 0 {
            lemma_zeros_value((k - 1) as nat, h);
            assert(z.drop_last() =~= Seq::new((k - 1) as nat, |i: int| '0'));
            assert(Seq::new((k - 1) as nat, |i: int| '0') + h =~= Seq::new((k - 1) as nat, |i: int| '0'));
        }
    } else {
        lemma_zeros_value(k, h.drop_last());
        assert((z + h).drop_last() =~= z + h.drop_last());
        assert((z + h).last() == h.last());
    }
}

proof fn lemma_padded_value(n: nat, w: nat)
    requires
        n <= u32::MAX,
    ensures
        parse_unsigned(hex_upper_padded(n, w), 16, u32::MAX as nat) == Some(n),
        all_hex(hex_upper_padded(n, w)),
        hex_upper_padded(n, w).len() > 0,
{
    lemma_hex_upper_value(n);
    let h = hex_upper(n);
    if h.len() < w {
        lemma_zeros_value((w - h.len()) as nat, h);
    }
    let p = hex_upper_padded(n, w);
    assert(p[0] != '+');
}

/// Rendering a PCI address and parsing the text back gives the same address
/// when its function number is a single digit (the function is written in
/// decimal but read back as hex).
pub proof fn lemma_pci_address_round_trip(p: PciBusAddress)
    requires
        p.function < 10,
    ensures
        parse_pci_bus_string_spec(pci_address_text(p)) == Ok::<PciBusAddress, Seq<char>>(p),
{
    let a = hex_upper_padded(p.domain as nat, 4);
    let b = hex_upper_padded(p.bus as nat, 2);
    let c = hex_upper_padded(p.device as nat, 2);
    let d = decimal(p.function as nat);
    lemma_padded_value(p.domain as nat, 4);
    lemma_padded_value(p.bus as nat, 2);
    lemma_padded_value(p.device as nat, 2);
    reveal_strlit(":");
    reveal_strlit(".");
    assert(d =~= seq![crate::text::digit_char(p.function as nat)]);
    let text = pci_address_text(p);
    assert(text =~= a + seq![':'] + (b + seq![':'] + (c + seq!['.'] + d)));
    assert forall|i: int| 0 <= i < a.len() implies a[i] != ':' by {
        assert(is_hex_digit(a[i]));
    }
    assert forall|i: int| 0 <= i < b.len() implies b[i] != ':' by {
        assert(is_hex_digit(b[i]));
    }
    assert forall|i: int| 0 <= i < c.len() implies c[i] != '.' by {
        assert(is_hex_digit(c[i]));
    }
    lemma_split_at_first(a, ':', b + seq![':'] + (c + seq!['.'] + d));
    lemma_split_at_first(b, ':', c + seq!['.'] + d);
    lemma_split_at_first(c, '.', d);
    assert(is_hex_digit(text[0]));
    assert(text.last() == crate::text::digit_char(p.function as nat));
    assert(!crate::text::is_ws(text[0]));
    assert(!crate::text::is_ws(text.last()));
    assert(trim(text) == text);
    assert(d.drop_last() =~= Seq::<char>::empty());
    assert(crate::text::digits_value(d.drop_last(), 16) == Some(0nat));
    assert(d.last() == crate::text::digit_char(p.function as nat));
    assert(d[0] != '+');
    assert(digit_value(crate::text::digit_char(p.function as nat), 16) == Some(p.function as nat));
    assert(crate::text::digits_value(d, 16) == Some(p.function as nat));
    assert(parse_unsigned(d, 16, u32::MAX as nat) == Some(p.function as nat));
}

} // verus!
