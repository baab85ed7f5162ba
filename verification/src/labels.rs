//! Text pieces of the human-readable output: field labels from JSON keys,
//! units implied by key suffixes, range-group keys, and the decoding of
//! driver bitmasks and identifiers into names.
use vstd::prelude::*;

use crate::text::{
    chars_of, concat, decimal, decimal_chars, eq_str, has_prefix, has_suffix, hex_upper,
    hex_upper_chars, join, join_chars, message, pieces_view, slice_copy, split_chars, split_on,
    starts_with_str, string_from_chars, string_of, to_upper, upper_char,
};

verus! {

// ---------------------------------------------------------------------------
// Keys and labels
// ---------------------------------------------------------------------------

/// A nested key path: `parent.key`, or `key` at the top level.
pub open spec fn join_context_spec(parent: Seq<char>, key: Seq<char>) -> Seq<char> {
    if parent.len() == 0 {
        key
    } else {
        parent + seq!['.'] + key
    }
}

/// Joins a parent key path and a key.
pub fn join_context(parent: &str, key: &str) -> (s: String)
    ensures
        s@ == join_context_spec(parent@, key@),
{
    let p = chars_of(parent);
    let k = chars_of(key);
    if p.len() == 0 {
        return string_from_chars(k.as_slice());
    }
    let mut a = p;
    a.push('.');
    let out = concat(a.as_slice(), k.as_slice());
    string_from_chars(out.as_slice())
}

/// The range prefixes of scalar keys, tried in this order, and the label
/// each stands for.
pub open spec fn range_prefix(i: int) -> (Seq<char>, Seq<char>) {
    if i == 0 {
        ("max_"@, "Max"@)
    } else if i == 1 {
        ("current_"@, "Current"@)
    } else if i == 2 {
        ("default_"@, "Default"@)
    } else {
        ("min_"@, "Min"@)
    }
}

/// A range-group key such as `max_voltage_uv`: the key without its first
/// matching range prefix, and that prefix's label.
pub open spec fn split_range_key_spec(key: Seq<char>) -> Option<(Seq<char>, Seq<char>)> {
    if has_prefix(key, range_prefix(0).0) {
        Some((key.skip(4), range_prefix(0).1))
    } else if has_prefix(key, range_prefix(1).0) {
        Some((key.skip(8), range_prefix(1).1))
    } else if has_prefix(key, range_prefix(2).0) {
        Some((key.skip(8), range_prefix(2).1))
    } else if has_prefix(key, range_prefix(3).0) {
        Some((key.skip(4), range_prefix(3).1))
    } else {
        None
    }
}

/// Splits a range-group key into the group key and the part's label.
pub fn split_compact_range_key(key: &str) -> (r: Option<(String, &'static str)>)
    ensures
        match r {
            Some((rest, label)) => split_range_key_spec(key@) == Some((rest@, label@)),
            None => split_range_key_spec(key@) is None,
        },
{
    let k = chars_of(key);
    proof {
        reveal_strlit("max_");
        reveal_strlit("current_");
        reveal_strlit("default_");
        reveal_strlit("min_");
    }
    if starts_with_str(k.as_slice(), "max_") {
        let rest = slice_copy(k.as_slice(), 4, k.len());
        assert(rest@ =~= key@.skip(4));
        Some((string_from_chars(rest.as_slice()), "Max"))
    } else if starts_with_str(k.as_slice(), "current_") {
        let rest = slice_copy(k.as_slice(), 8, k.len());
        assert(rest@ =~= key@.skip(8));
        Some((string_from_chars(rest.as_slice()), "Current"))
    } else if starts_with_str(k.as_slice(), "default_") {
        let rest = slice_copy(k.as_slice(), 8, k.len());
        assert(rest@ =~= key@.skip(8));
        Some((string_from_chars(rest.as_slice()), "Default"))
    } else if starts_with_str(k.as_slice(), "min_") {
        let rest = slice_copy(k.as_slice(), 4, k.len());
        assert(rest@ =~= key@.skip(4));
        Some((string_from_chars(rest.as_slice()), "Min"))
    } else {
        None
    }
}

/// Labels of the keys of a compact scalar object.
pub open spec fn compact_label_spec(key: Seq<char>) -> Option<Seq<char>> {
    if key == "max"@ || key == "maximum"@ {
        Some("Max"@)
    } else if key == "current"@ || key == "value"@ {
        Some("Current"@)
    } else if key == "default"@ {
        Some("Default"@)
    } else if key == "min"@ || key == "minimum"@ {
        Some("Min"@)
    } else {
        None
    }
}

/// The label of a key of a compact scalar object (`max`, `current`, ...).
pub fn compact_scalar_object_label(key: &str) -> (r: Option<&'static str>)
    ensures
        match r {
            Some(l) => compact_label_spec(key@) == Some(l@),
            None => compact_label_spec(key@) is None,
        },
{
    let k = chars_of(key);
    let ks = k.as_slice();
    if eq_str(ks, "max") || eq_str(ks, "maximum") {
        Some("Max")
    } else if eq_str(ks, "current") || eq_str(ks, "value") {
        Some("Current")
    } else if eq_str(ks, "default") {
        Some("Default")
    } else if eq_str(ks, "min") || eq_str(ks, "minimum") {
        Some("Min")
    } else {
        None
    }
}

/// The unit suffixes of keys, tried in this order.
pub open spec fn unit_suffixes() -> Seq<Seq<char>> {
    seq!["_mhz"@, "_khz"@, "_mv"@, "_uv"@, "_watt"@, "_percent"@, "_c"@]
}

/// A key without the first unit suffix it ends with.
pub open spec fn strip_unit_key_spec(key: Seq<char>) -> Seq<char> {
    strip_unit_key_from(key, 0)
}

/// [`strip_unit_key_spec`] trying the suffixes from position `i` on.
pub open spec fn strip_unit_key_from(key: Seq<char>, i: nat) -> Seq<char>
    decreases 7 - i,
{
    if i >= 7 {
        key
    } else if has_suffix(key, unit_suffixes()[i as int]) {
        key.take(key.len() - unit_suffixes()[i as int].len())
    } else {
        strip_unit_key_from(key, i + 1)
    }
}

fn unit_suffix(i: usize) -> (s: &'static str)
    requires
        i < 7,
    ensures
        s@ == unit_suffixes()[i as int],
{
    if i == 0 {
        "_mhz"
    } else if i == 1 {
        "_khz"
    } else if i == 2 {
        "_mv"
    } else if i == 3 {
        "_uv"
    } else if i == 4 {
        "_watt"
    } else if i == 5 {
        "_percent"
    } else {
        "_c"
    }
}

/// Drops a trailing unit suffix (`_mhz`, `_khz`, `_mv`, `_uv`, `_watt`,
/// `_percent`, `_c`) from a key.
pub fn strip_trailing_unit_key(key: &str) -> (s: String)
    ensures
        s@ == strip_unit_key_spec(key@),
{
    let k = chars_of(key);
    let mut i: usize = 0;
    while i < 7
        invariant
            i <= 7,
            k@ == key@,
            strip_unit_key_spec(key@) == strip_unit_key_from(key@, i as nat),
        decreases 7 - i,
    {
        let sfx = chars_of(unit_suffix(i));
        if sfx.len() <= k.len() {
            let tail = slice_copy(k.as_slice(), k.len() - sfx.len(), k.len());
            assert(tail@ =~= k@.skip(k@.len() - sfx@.len()));
            if crate::text::eq_chars(tail.as_slice(), sfx.as_slice()) {
                let head = slice_copy(k.as_slice(), 0, k.len() - sfx.len());
                assert(head@ =~= key@.take(key@.len() - sfx@.len()));
                return string_from_chars(head.as_slice());
            }
        }
        i = i + 1;
    }
    string_from_chars(k.as_slice())
}

/// The rendering of a value with the unit its key implies.
pub open spec fn with_unit_spec(key: Seq<char>, r: Seq<char>) -> Seq<char> {
    if has_suffix(key, "_mhz"@) {
        r + " MHz"@
    } else if has_suffix(key, "_khz"@) {
        r + " kHz"@
    } else if has_suffix(key, "_mv"@) {
        r + " mV"@
    } else if has_suffix(key, "_uv"@) {
        r + " uV"@
    } else if has_suffix(key, "_watt"@) || has_suffix(key, "_w"@) {
        r + " W"@
    } else if has_suffix(key, "_percent"@) || key == "percent"@ {
        r + "%"@
    } else if has_suffix(key, "_c"@) || key == "celsius"@ {
        r + " C"@
    } else if has_suffix(key, "_mibps"@) {
        r + " MiB/s"@
    } else if key == "voltage"@ {
        r + " uV"@
    } else if key == "pcie_lanes"@ {
        "x"@ + r
    } else {
        r
    }
}

fn ends(k: &[char], s: &str) -> (b: bool)
    ensures
        b == has_suffix(k@, s@),
{
    crate::text::ends_with_str(k, s)
}

fn append_lit(r: &[char], s: &str) -> (out: String)
    ensures
        out@ == r@ + s@,
{
    let sc = chars_of(s);
    let v = concat(r, sc.as_slice());
    string_from_chars(v.as_slice())
}

/// Appends the unit a key implies to a rendered value.
pub fn format_with_unit(key: &str, rendered: &str) -> (s: String)
    ensures
        s@ == with_unit_spec(key@, rendered@),
{
    let k = chars_of(key);
    let r = chars_of(rendered);
    let ks = k.as_slice();
    let rs = r.as_slice();
    if ends(ks, "_mhz") {
        append_lit(rs, " MHz")
    } else if ends(ks, "_khz") {
        append_lit(rs, " kHz")
    } else if ends(ks, "_mv") {
        append_lit(rs, " mV")
    } else if ends(ks, "_uv") {
        append_lit(rs, " uV")
    } else if ends(ks, "_watt") || ends(ks, "_w") {
        append_lit(rs, " W")
    } else if ends(ks, "_percent") || eq_str(ks, "percent") {
        append_lit(rs, "%")
    } else if ends(ks, "_c") || eq_str(ks, "celsius") {
        append_lit(rs, " C")
    } else if ends(ks, "_mibps") {
        append_lit(rs, " MiB/s")
    } else if eq_str(ks, "voltage") {
        append_lit(rs, " uV")
    } else if eq_str(ks, "pcie_lanes") {
        message("x", rs)
    } else {
        string_from_chars(rs)
    }
}

/// The label of one word of a key: acronyms and units in their usual case,
/// any other word with its first letter upper-cased.
pub open spec fn label_word(w: Seq<char>) -> Seq<char> {
    if w == "gpu"@ {
        "GPU"@
    } else if w == "id"@ {
        "ID"@
    } else if w == "pci"@ {
        "PCI"@
    } else if w == "nvapi"@ {
        "NVAPI"@
    } else if w == "nvml"@ {
        "NVML"@
    } else if w == "tdp"@ {
        "TDP"@
    } else if w == "vfp"@ {
        "VFP"@
    } else if w == "uv"@ {
        "uV"@
    } else if w == "mv"@ {
        "mV"@
    } else if w == "mhz"@ {
        "MHz"@
    } else if w == "khz"@ {
        "kHz"@
    } else if w == "c"@ {
        "C"@
    } else if w.len() == 0 {
        Seq::empty()
    } else {
        seq![upper_char(w[0])] + w.drop_first()
    }
}

/// The label of a snake-case key: its words labelled and joined by spaces.
pub open spec fn format_label_spec(key: Seq<char>) -> Seq<char> {
    join(split_on(key, '_').map_values(|w: Seq<char>| label_word(w)), " "@)
}

fn label_word_exec(w: &[char]) -> (out: Vec<char>)
    ensures
        out@ == label_word(w@),
{
    if eq_str(w, "gpu") {
        chars_of("GPU")
    } else if eq_str(w, "id") {
        chars_of("ID")
    } else if eq_str(w, "pci") {
        chars_of("PCI")
    } else if eq_str(w, "nvapi") {
        chars_of("NVAPI")
    } else if eq_str(w, "nvml") {
        chars_of("NVML")
    } else if eq_str(w, "tdp") {
        chars_of("TDP")
    } else if eq_str(w, "vfp") {
        chars_of("VFP")
    } else if eq_str(w, "uv") {
        chars_of("uV")
    } else if eq_str(w, "mv") {
        chars_of("mV")
    } else if eq_str(w, "mhz") {
        chars_of("MHz")
    } else if eq_str(w, "khz") {
        chars_of("kHz")
    } else if eq_str(w, "c") {
        chars_of("C")
    } else if w.len() == 0 {
        Vec::new()
    } else {
        let mut out: Vec<char> = Vec::new();
        out.push(to_upper(w[0]));
        let rest = slice_copy(w, 1, w.len());
        let v = concat(out.as_slice(), rest.as_slice());
        assert(v@ =~= seq![upper_char(w@[0])] + w@.drop_first());
        v
    }
}

/// The human label of a snake-case JSON key, e.g. `max_core_mhz` gives
/// `Max Core MHz`.
pub fn format_label(key: &str) -> (s: String)
    ensures
        s@ == format_label_spec(key@),
{
    let k = chars_of(key);
    let words = split_chars(k.as_slice(), '_');
    let mut labels: Vec<Vec<char>> = Vec::new();
    let mut i: usize = 0;
    while i < words.len()
        invariant
            i <= words@.len(),
            pieces_view(words@) == split_on(key@, '_'),
            pieces_view(labels@) == pieces_view(words@).take(i as int).map_values(
                |w: Seq<char>| label_word(w),
            ),
        decreases words@.len() - i,
    {
        let l = label_word_exec(words[i].as_slice());
        let ghost before = pieces_view(labels@);
        assert(pieces_view(words@)[i as int] == words@[i as int]@);
        labels.push(l);
        assert(pieces_view(labels@) =~= before.push(label_word(words@[i as int]@)));
        i = i + 1;
        assert(pieces_view(labels@) =~= pieces_view(words@).take(i as int).map_values(
            |w: Seq<char>| label_word(w),
        ));
    }
    assert(pieces_view(words@).take(words@.len() as int) =~= pieces_view(words@));
    let out = join_chars(&labels, " ");
    string_from_chars(out.as_slice())
}

/// Two spaces per indentation level.
pub fn indent_spaces(indent: usize) -> (s: String)
    requires
        indent <= usize::MAX / 2,
    ensures
        s@ == Seq::new(2 * indent as nat, |i: int| ' '),
{
    let mut out: Vec<char> = Vec::new();
    let mut i: usize = 0;
    while i < indent
        invariant
            i <= indent,
            out@ == Seq::new(2 * i as nat, |j: int| ' '),
        decreases indent - i,
    {
        out.push(' ');
        out.push(' ');
        i = i + 1;
        assert(out@ =~= Seq::new(2 * i as nat, |j: int| ' '));
    }
    string_from_chars(out.as_slice())
}

// ---------------------------------------------------------------------------
// Identifiers and bitmasks
// ---------------------------------------------------------------------------

/// Board partners known by their PCI sub-vendor id.
pub open spec fn vendor_name_spec(subvendor: u16) -> Option<Seq<char>> {
    if subvendor == 0x10de {
        Some("NVIDIA"@)
    } else if subvendor == 0x1043 {
        Some("ASUS"@)
    } else if subvendor == 0x1458 {
        Some("Gigabyte"@)
    } else if subvendor == 0x1462 {
        Some("MSI"@)
    } else if subvendor == 0x10b0 {
        Some("Gainward"@)
    } else if subvendor == 0x107d {
        Some("Leadtek"@)
    } else if subvendor == 0x1048 {
        Some("Elsa"@)
    } else if subvendor == 0x19da {
        Some("Zotac"@)
    } else if subvendor == 0x196e {
        Some("PNY"@)
    } else {
        None
    }
}

/// The name of a board partner by PCI sub-vendor id.
pub fn pci_vendor_name(subvendor: u16) -> (r: Option<&'static str>)
    ensures
        match r {
            Some(n) => vendor_name_spec(subvendor) == Some(n@),
            None => vendor_name_spec(subvendor) is None,
        },
{
    match subvendor {
        0x10de => Some("NVIDIA"),
        0x1043 => Some("ASUS"),
        0x1458 => Some("Gigabyte"),
        0x1462 => Some("MSI"),
        0x10b0 => Some("Gainward"),
        0x107d => Some("Leadtek"),
        0x1048 => Some("Elsa"),
        0x19da => Some("Zotac"),
        0x196e => Some("PNY"),
        _ => None,
    }
}

/// Names of the known compute-capability bits set in `word`, in bit order.
pub open spec fn compute_cap_names(word: u32) -> Seq<Seq<char>> {
    (if word & 0x1u32 == 0x1u32 {
        seq!["BASE_COMPUTE"@]
    } else {
        Seq::empty()
    }) + (if word & 0x2u32 == 0x2u32 {
        seq!["COMPUTE_CAPABLE"@]
    } else {
        Seq::empty()
    }) + (if word & 0x4u32 == 0x4u32 {
        seq!["BOARD_DB_MATCH"@]
    } else {
        Seq::empty()
    }) + (if word & 0x100u32 == 0x100u32 {
        seq!["PHYSX_INSTALLED"@]
    } else {
        Seq::empty()
    }) + (if word & 0x200u32 == 0x200u32 {
        seq!["VRAM_GE_256MB"@]
    } else {
        Seq::empty()
    }) + (if word & 0x400u32 == 0x400u32 {
        seq!["PHYSX_GPU_SELECTED"@]
    } else {
        Seq::empty()
    })
}

proof fn lemma_concat_contains(a: Seq<Seq<char>>, b: Seq<Seq<char>>, x: Seq<char>)
    ensures
        (a + b).contains(x) == (a.contains(x) || b.contains(x)),
{
    if a.contains(x) {
        let k = choose|k: int| 0 <= k < a.len() && a[k] == x;
        assert((a + b)[k] == x);
    }
    if b.contains(x) {
        let k = choose|k: int| 0 <= k < b.len() && b[k] == x;
        assert((a + b)[a.len() + k] == x);
    }
    if (a + b).contains(x) {
        let k = choose|k: int| 0 <= k < (a + b).len() && (a + b)[k] == x;
        if k < a.len() {
            assert(a[k] == x);
        } else {
            assert(b[k - a.len()] == x);
        }
    }
}

/// Each known compute-capability bit is named exactly when it is set
/// (bits 0x1, 0x2, 0x4, 0x100, 0x200, 0x400 name BASE_COMPUTE,
/// COMPUTE_CAPABLE, BOARD_DB_MATCH, PHYSX_INSTALLED, VRAM_GE_256MB,
/// PHYSX_GPU_SELECTED), and the unknown bits are listed last exactly when
/// some are set.
pub proof fn lemma_compute_cap_bits(word: u32)
    ensures
        compute_cap_names(word).contains("BASE_COMPUTE"@) == (word & 0x1u32 != 0),
        compute_cap_names(word).contains("COMPUTE_CAPABLE"@) == (word & 0x2u32 != 0),
        compute_cap_names(word).contains("BOARD_DB_MATCH"@) == (word & 0x4u32 != 0),
        compute_cap_names(word).contains("PHYSX_INSTALLED"@) == (word & 0x100u32 != 0),
        compute_cap_names(word).contains("VRAM_GE_256MB"@) == (word & 0x200u32 != 0),
        compute_cap_names(word).contains("PHYSX_GPU_SELECTED"@) == (word & 0x400u32 != 0),
        compute_cap_items(word).len() == compute_cap_names(word).len() + if word & !0x707u32 != 0 {
            1int
        } else {
            0int
        },
{
    reveal_strlit("BASE_COMPUTE");
    reveal_strlit("COMPUTE_CAPABLE");
    reveal_strlit("BOARD_DB_MATCH");
    reveal_strlit("PHYSX_INSTALLED");
    reveal_strlit("VRAM_GE_256MB");
    reveal_strlit("PHYSX_GPU_SELECTED");
    assert("BASE_COMPUTE"@.len() == 12);
    assert("COMPUTE_CAPABLE"@.len() == 15);
    assert("BOARD_DB_MATCH"@.len() == 14);
    assert("PHYSX_INSTALLED"@.len() == 15);
    assert("VRAM_GE_256MB"@.len() == 13);
    assert("PHYSX_GPU_SELECTED"@.len() == 18);
    assert("PHYSX_INSTALLED"@[0] != "COMPUTE_CAPABLE"@[0]);
    let x0 = (if word & 0x1u32 == 0x1u32 { seq!["BASE_COMPUTE"@] } else { Seq::empty() });
    let x1 = (if word & 0x2u32 == 0x2u32 { seq!["COMPUTE_CAPABLE"@] } else { Seq::empty() });
    let x2 = (if word & 0x4u32 == 0x4u32 { seq!["BOARD_DB_MATCH"@] } else { Seq::empty() });
    let x3 = (if word & 0x100u32 == 0x100u32 { seq!["PHYSX_INSTALLED"@] } else { Seq::empty() });
    let x4 = (if word & 0x200u32 == 0x200u32 { seq!["VRAM_GE_256MB"@] } else { Seq::empty() });
    let x5 = (if word & 0x400u32 == 0x400u32 { seq!["PHYSX_GPU_SELECTED"@] } else { Seq::empty() });
    assert(compute_cap_names(word) == x0 + x1 + x2 + x3 + x4 + x5);
    assert forall|n: Seq<char>|
        #[trigger] compute_cap_names(word).contains(n) == (x0.contains(n) || x1.contains(n)
            || x2.contains(n) || x3.contains(n) || x4.contains(n) || x5.contains(n)) by {
        lemma_concat_contains(x0, x1, n);
        lemma_concat_contains(x0 + x1, x2, n);
        lemma_concat_contains(x0 + x1 + x2, x3, n);
        lemma_concat_contains(x0 + x1 + x2 + x3, x4, n);
        lemma_concat_contains(x0 + x1 + x2 + x3 + x4, x5, n);
    }
    if word & 0x1u32 == 0x1u32 { assert(x0[0] == "BASE_COMPUTE"@); }
    assert(word & 0x1u32 != 0 <==> word & 0x1u32 == 0x1u32) by (bit_vector);
    if word & 0x2u32 == 0x2u32 { assert(x1[0] == "COMPUTE_CAPABLE"@); }
    assert(word & 0x2u32 != 0 <==> word & 0x2u32 == 0x2u32) by (bit_vector);
    if word & 0x4u32 == 0x4u32 { assert(x2[0] == "BOARD_DB_MATCH"@); }
    assert(word & 0x4u32 != 0 <==> word & 0x4u32 == 0x4u32) by (bit_vector);
    if word & 0x100u32 == 0x100u32 { assert(x3[0] == "PHYSX_INSTALLED"@); }
    assert(word & 0x100u32 != 0 <==> word & 0x100u32 == 0x100u32) by (bit_vector);
    if word & 0x200u32 == 0x200u32 { assert(x4[0] == "VRAM_GE_256MB"@); }
    assert(word & 0x200u32 != 0 <==> word & 0x200u32 == 0x200u32) by (bit_vector);
    if word & 0x400u32 == 0x400u32 { assert(x5[0] == "PHYSX_GPU_SELECTED"@); }
    assert(word & 0x400u32 != 0 <==> word & 0x400u32 == 0x400u32) by (bit_vector);
}

/// The items listed for a compute-capability word: the names of its known
/// bits in bit order, then its unknown bits as one `0x<hex>` item.
pub open spec fn compute_cap_items(word: u32) -> Seq<Seq<char>> {
    let unknown = word & !0x707u32;
    compute_cap_names(word) + if unknown != 0 {
        seq!["0x"@ + hex_upper(unknown as nat)]
    } else {
        Seq::empty()
    }
}

/// The compute-capability word decoded: `<dec> (0x<hex>: ITEM | ...)`, the
/// items being the known bit names and then the unknown bits, so that no
/// set bit is lost; `0 (none)` when nothing is set.
pub open spec fn compute_caps_spec(word: u32) -> Seq<char> {
    let items = compute_cap_items(word);
    if items.len() == 0 {
        "0 (none)"@
    } else {
        decimal(word as nat) + " (0x"@ + hex_upper(word as nat) + ": "@ + join(items, " | "@)
            + ")"@
    }
}

/// Decodes a compute-capability word into its bit names.
#[verifier::rlimit(40)]
pub fn format_compute_caps(word: u32) -> (s: String)
    ensures
        s@ == compute_caps_spec(word),
{
    let mut names: Vec<Vec<char>> = Vec::new();
    if word & 0x1u32 == 0x1u32 {
        names.push(chars_of("BASE_COMPUTE"));
    }
    if word & 0x2u32 == 0x2u32 {
        names.push(chars_of("COMPUTE_CAPABLE"));
    }
    if word & 0x4u32 == 0x4u32 {
        names.push(chars_of("BOARD_DB_MATCH"));
    }
    if word & 0x100u32 == 0x100u32 {
        names.push(chars_of("PHYSX_INSTALLED"));
    }
    if word & 0x200u32 == 0x200u32 {
        names.push(chars_of("VRAM_GE_256MB"));
    }
    if word & 0x400u32 == 0x400u32 {
        names.push(chars_of("PHYSX_GPU_SELECTED"));
    }
    assert(pieces_view(names@) =~= compute_cap_names(word));
    let unknown = word & !0x707u32;
    if unknown != 0 {
        let h = hex_upper_chars(unknown as u64);
        let lead = chars_of("0x");
        names.push(concat(lead.as_slice(), h.as_slice()));
    }
    assert(pieces_view(names@) =~= compute_cap_items(word));
    if names.len() == 0 {
        return string_of("0 (none)");
    }
    let d = decimal_chars(word as u64);
    let h = hex_upper_chars(word as u64);
    let joined = join_chars(&names, " | ");
    let p1 = concat(d.as_slice(), chars_of(" (0x").as_slice());
    let p2 = concat(p1.as_slice(), h.as_slice());
    let p3 = concat(p2.as_slice(), chars_of(": ").as_slice());
    let p4 = concat(p3.as_slice(), joined.as_slice());
    let p5 = concat(p4.as_slice(), chars_of(")").as_slice());
    assert(p5@ =~= compute_caps_spec(word));
    string_from_chars(p5.as_slice())
}

/// Names of the set bits of a bitmask, by a table of (bit, name) in bit
/// order.
pub open spec fn bit_names(bits: u64, table: Seq<(u64, Seq<char>)>) -> Seq<Seq<char>>
    decreases table.len(),
{
    if table.len() == 0 {
        Seq::empty()
    } else {
        bit_names(bits, table.drop_last()) + if bits & table.last().0 != 0 {
            seq![table.last().1]
        } else {
            Seq::empty()
        }
    }
}

/// The names joined by `, `, or `None` when no bit is set.
pub open spec fn reasons_text(names: Seq<Seq<char>>) -> Seq<char> {
    if names.len() == 0 {
        "None"@
    } else {
        join(names, ", "@)
    }
}

/// Active performance limits (NVAPI perf flags).
pub open spec fn perf_limit_table() -> Seq<(u64, Seq<char>)> {
    seq![
        (1u64, "Power"@),
        (2u64, "Temperature"@),
        (4u64, "Reliability Voltage"@),
        (8u64, "Operating Voltage"@),
        (16u64, "No Load"@),
        (32u64, "Unknown32"@),
    ]
}

/// Performance decrease reasons.
pub open spec fn perf_decrease_table() -> Seq<(u64, Seq<char>)> {
    seq![
        (1u64, "Thermal Protection"@),
        (2u64, "Power Control"@),
        (4u64, "AC-Battery"@),
        (8u64, "API Triggered"@),
        (16u64, "Insufficient Power"@),
    ]
}

/// A table's names are listed exactly for the bits that are set: a name
/// appears when some entry carrying it has its bit set, and only then.
pub proof fn lemma_bit_names_contains(bits: u64, table: Seq<(u64, Seq<char>)>, x: Seq<char>)
    ensures
        bit_names(bits, table).contains(x) == exists|j: int|
            0 <= j < table.len() && (#[trigger] table[j]).1 == x && bits & table[j].0 != 0,
    decreases table.len(),
{
    if table.len() > 0 {
        let rest = table.drop_last();
        lemma_bit_names_contains(bits, rest, x);
        let last = if bits & table.last().0 != 0 {
            seq![table.last().1]
        } else {
            Seq::<Seq<char>>::empty()
        };
        lemma_concat_contains(bit_names(bits, rest), last, x);
        if exists|j: int| 0 <= j < rest.len() && (#[trigger] rest[j]).1 == x && bits & rest[j].0 != 0 {
            let j = choose|j: int| 0 <= j < rest.len() && (#[trigger] rest[j]).1 == x && bits & rest[j].0 != 0;
            assert(table[j] == rest[j]);
        }
        if exists|j: int| 0 <= j < table.len() && (#[trigger] table[j]).1 == x && bits & table[j].0 != 0 {
            let j = choose|j: int| 0 <= j < table.len() && (#[trigger] table[j]).1 == x && bits & table[j].0 != 0;
            if j < rest.len() {
                assert(rest[j] == table[j]);
            } else {
                assert(last[0] == x);
            }
        }
        if last.contains(x) {
            let k = choose|k: int| 0 <= k < last.len() && last[k] == x;
            assert(table[table.len() - 1].1 == x);
        }
    }
}

/// Each performance limit is named exactly when its flag is set: 1 Power, 2 Temperature, 4 Reliability Voltage, 8 Operating Voltage, 16 No Load, 32 Unknown32.
pub proof fn lemma_perf_limit_names(bits: u64)
    ensures
        bit_names(bits, perf_limit_table()).contains("Power"@) == (bits & 1u64 != 0),
        bit_names(bits, perf_limit_table()).contains("Temperature"@) == (bits & 2u64 != 0),
        bit_names(bits, perf_limit_table()).contains("Reliability Voltage"@) == (bits & 4u64 != 0),
        bit_names(bits, perf_limit_table()).contains("Operating Voltage"@) == (bits & 8u64 != 0),
        bit_names(bits, perf_limit_table()).contains("No Load"@) == (bits & 16u64 != 0),
        bit_names(bits, perf_limit_table()).contains("Unknown32"@) == (bits & 32u64 != 0),
{
    reveal_strlit("Power");
    reveal_strlit("Temperature");
    reveal_strlit("Reliability Voltage");
    reveal_strlit("Operating Voltage");
    reveal_strlit("No Load");
    reveal_strlit("Unknown32");
    assert("Power"@.len() == 5);
    assert("Temperature"@.len() == 11);
    assert("Reliability Voltage"@.len() == 19);
    assert("Operating Voltage"@.len() == 17);
    assert("No Load"@.len() == 7);
    assert("Unknown32"@.len() == 9);

    let t = perf_limit_table();
    assert(t[0] == (1u64, "Power"@));
    assert(t[1] == (2u64, "Temperature"@));
    assert(t[2] == (4u64, "Reliability Voltage"@));
    assert(t[3] == (8u64, "Operating Voltage"@));
    assert(t[4] == (16u64, "No Load"@));
    assert(t[5] == (32u64, "Unknown32"@));
    if bits & 1u64 != 0 {
        assert(t[0].1 == "Power"@ && bits & t[0].0 != 0);
    }
    lemma_bit_names_contains(bits, t, "Power"@);
    if bits & 2u64 != 0 {
        assert(t[1].1 == "Temperature"@ && bits & t[1].0 != 0);
    }
    lemma_bit_names_contains(bits, t, "Temperature"@);
    if bits & 4u64 != 0 {
        assert(t[2].1 == "Reliability Voltage"@ && bits & t[2].0 != 0);
    }
    lemma_bit_names_contains(bits, t, "Reliability Voltage"@);
    if bits & 8u64 != 0 {
        assert(t[3].1 == "Operating Voltage"@ && bits & t[3].0 != 0);
    }
    lemma_bit_names_contains(bits, t, "Operating Voltage"@);
    if bits & 16u64 != 0 {
        assert(t[4].1 == "No Load"@ && bits & t[4].0 != 0);
    }
    lemma_bit_names_contains(bits, t, "No Load"@);
    if bits & 32u64 != 0 {
        assert(t[5].1 == "Unknown32"@ && bits & t[5].0 != 0);
    }
    lemma_bit_names_contains(bits, t, "Unknown32"@);
}

/// Each performance-decrease reason is named exactly when its bit is set: 1 Thermal Protection, 2 Power Control, 4 AC-Battery, 8 API Triggered, 16 Insufficient Power.
pub proof fn lemma_perf_decrease_names(bits: u64)
    ensures
        bit_names(bits, perf_decrease_table()).contains("Thermal Protection"@) == (bits & 1u64 != 0),
        bit_names(bits, perf_decrease_table()).contains("Power Control"@) == (bits & 2u64 != 0),
        bit_names(bits, perf_decrease_table()).contains("AC-Battery"@) == (bits & 4u64 != 0),
        bit_names(bits, perf_decrease_table()).contains("API Triggered"@) == (bits & 8u64 != 0),
        bit_names(bits, perf_decrease_table()).contains("Insufficient Power"@) == (bits & 16u64 != 0),
{
    reveal_strlit("Thermal Protection");
    reveal_strlit("Power Control");
    reveal_strlit("AC-Battery");
    reveal_strlit("API Triggered");
    reveal_strlit("Insufficient Power");
    assert("Thermal Protection"@.len() == 18);
    assert("Power Control"@.len() == 13);
    assert("AC-Battery"@.len() == 10);
    assert("API Triggered"@.len() == 13);
    assert("Insufficient Power"@.len() == 18);
    assert("API Triggered"@[0] != "Power Control"@[0]);
    assert("Insufficient Power"@[0] != "Thermal Protection"@[0]);
    let t = perf_decrease_table();
    assert(t[0] == (1u64, "Thermal Protection"@));
    assert(t[1] == (2u64, "Power Control"@));
    assert(t[2] == (4u64, "AC-Battery"@));
    assert(t[3] == (8u64, "API Triggered"@));
    assert(t[4] == (16u64, "Insufficient Power"@));
    if bits & 1u64 != 0 {
        assert(t[0].1 == "Thermal Protection"@ && bits & t[0].0 != 0);
    }
    lemma_bit_names_contains(bits, t, "Thermal Protection"@);
    if bits & 2u64 != 0 {
        assert(t[1].1 == "Power Control"@ && bits & t[1].0 != 0);
    }
    lemma_bit_names_contains(bits, t, "Power Control"@);
    if bits & 4u64 != 0 {
        assert(t[2].1 == "AC-Battery"@ && bits & t[2].0 != 0);
    }
    lemma_bit_names_contains(bits, t, "AC-Battery"@);
    if bits & 8u64 != 0 {
        assert(t[3].1 == "API Triggered"@ && bits & t[3].0 != 0);
    }
    lemma_bit_names_contains(bits, t, "API Triggered"@);
    if bits & 16u64 != 0 {
        assert(t[4].1 == "Insufficient Power"@ && bits & t[4].0 != 0);
    }
    lemma_bit_names_contains(bits, t, "Insufficient Power"@);
}

fn decode_bits(bits: u64, table: &[(u64, &str)]) -> (out: Vec<char>)
    ensures
        out@ == reasons_text(
            bit_names(bits, table@.map_values(|e: (u64, &str)| (e.0, e.1@))),
        ),
{
    let ghost tv = table@.map_values(|e: (u64, &str)| (e.0, e.1@));
    let mut names: Vec<Vec<char>> = Vec::new();
    let mut i: usize = 0;
    while i < table.len()
        invariant
            i <= table@.len(),
            tv == table@.map_values(|e: (u64, &str)| (e.0, e.1@)),
            pieces_view(names@) == bit_names(bits, tv.take(i as int)),
        decreases table@.len() - i,
    {
        let (bit, name) = table[i];
        let ghost before = pieces_view(names@);
        assert(tv.take(i as int + 1).drop_last() =~= tv.take(i as int));
        assert(tv.take(i as int + 1).last() == (bit, name@));
        if bits & bit != 0 {
            names.push(chars_of(name));
            assert(pieces_view(names@) =~= before + seq![name@]);
        } else {
            assert(pieces_view(names@) =~= before + Seq::<Seq<char>>::empty());
        }
        i = i + 1;
    }
    assert(tv.take(table@.len() as int) =~= tv);
    if names.len() == 0 {
        chars_of("None")
    } else {
        join_chars(&names, ", ")
    }
}

/// The active performance limits named by a perf-flags bitmask.
pub fn perf_limits_text(bits: u64) -> (s: String)
    ensures
        s@ == reasons_text(bit_names(bits, perf_limit_table())),
{
    let table: [(u64, &str); 6] = [
        (1, "Power"),
        (2, "Temperature"),
        (4, "Reliability Voltage"),
        (8, "Operating Voltage"),
        (16, "No Load"),
        (32, "Unknown32"),
    ];
    let out = decode_bits(bits, table.as_slice());
    assert(table@.map_values(|e: (u64, &str)| (e.0, e.1@)) =~= perf_limit_table());
    string_from_chars(out.as_slice())
}

/// The performance decrease reasons named by a bitmask.
pub fn perf_decrease_text(bits: u64) -> (s: String)
    ensures
        s@ == reasons_text(bit_names(bits, perf_decrease_table())),
{
    let table: [(u64, &str); 5] = [
        (1, "Thermal Protection"),
        (2, "Power Control"),
        (4, "AC-Battery"),
        (8, "API Triggered"),
        (16, "Insufficient Power"),
    ];
    let out = decode_bits(bits, table.as_slice());
    assert(table@.map_values(|e: (u64, &str)| (e.0, e.1@)) =~= perf_decrease_table());
    string_from_chars(out.as_slice())
}

/// The driver's load level: 1 load, 3 low clocks, 7 idle; other values raw.
pub open spec fn load_level_spec(level: u64) -> Seq<char> {
    if level == 1 {
        "Load"@
    } else if level == 3 {
        "Low Clock"@
    } else if level == 7 {
        "Idle"@
    } else {
        decimal(level as nat) + " (raw)"@
    }
}

/// Names the driver's load level.
pub fn load_level_text(level: u64) -> (s: String)
    ensures
        s@ == load_level_spec(level),
{
    if level == 1 {
        string_of("Load")
    } else if level == 3 {
        string_of("Low Clock")
    } else if level == 7 {
        string_of("Idle")
    } else {
        let d = decimal_chars(level);
        let t = chars_of(" (raw)");
        let v = concat(d.as_slice(), t.as_slice());
        string_from_chars(v.as_slice())
    }
}

} // verus!
