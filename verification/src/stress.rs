//! Stress-run configuration: precisions, kernel types, stream modes, the
//! textual list syntaxes of the command line and profiles, and the
//! kernel/precision compatibility rules.
use vstd::prelude::*;

use crate::text::{
    chars_of, concat, decimal_int, decimal_int_chars, eq_chars, eq_str, join, join_chars, lower,
    message, parse_unsigned, parse_usize_chars, pieces_view, res_seq, res_view, split_chars,
    split_on, string_of, trim, trim_chars, trim_lower,
};

verus! {

// ---------------------------------------------------------------------------
// Types
// ---------------------------------------------------------------------------

#[derive(Clone, Copy, Debug, PartialEq, Eq, Structural)]
pub enum PrecisionKind {
    FP64,
    FP32,
    TF32,
    FP16,
    BF16,
    FP8E4M3FN,
    INT8,
    INT16,
    INT32,
}

#[derive(Clone, Copy, Debug, PartialEq, Eq, Hash, Structural)]
pub enum KernelType {
    Gemm,
    Memcpy,
    Memset,
    Transpose,
    Elementwise,
    Reduction,
    Atomic,
    /// Integer ALU stress (INT8 DP4A on capable hardware, scalar
    /// int32/16/8 multiply-add chains otherwise).
    IntAlu,
}

#[derive(Clone, Copy, Debug, PartialEq, Eq, Structural)]
pub enum StreamMode {
    Single,
    Dual,
    Triple,
}

/// One selectable precision: its display name, kind and TF32 setting.
#[derive(Clone, Copy, Debug)]
pub struct PrecisionSpec {
    pub name: &'static str,
    pub kind: PrecisionKind,
    pub tf32_enabled: Option<bool>,
}

/// A precision and its weight in a precision mixture; `W` is the numeric
/// type of weights and rates, which this library carries but never reads.
#[derive(Clone, Copy, Debug)]
pub struct PrecisionMixtureEntry<W> {
    pub spec: PrecisionSpec,
    pub weight: W,
}

/// A kernel type and its weight in a kernel mixture.
#[derive(Clone, Copy, Debug)]
pub struct KernelMixtureEntry<W> {
    pub kind: KernelType,
    pub weight: W,
}

/// Per-kernel parameter overrides; unset fields fall back to the run-wide
/// settings.
#[derive(Clone, Debug)]
pub struct KernelParamOverride<W> {
    pub kind: KernelType,
    pub precisions: Option<Vec<PrecisionSpec>>,
    pub precision_mixture: Option<Vec<PrecisionMixtureEntry<W>>>,
    pub matrix_sizes: Option<Vec<usize>>,
    pub warmup_iters: Option<u32>,
    pub burst_iters: Option<u32>,
    pub transpose_prob: Option<W>,
    pub minor_mixture_rate: Option<W>,
}

/// Identity and compute capability of a device.
#[derive(Debug, Clone)]
pub struct DeviceInfo {
    pub name: String,
    pub compute_capability: Option<(i32, i32)>,
}

// ---------------------------------------------------------------------------
// Kernel types
// ---------------------------------------------------------------------------

/// Upper-case display name of a kernel type.
pub open spec fn kernel_label(k: KernelType) -> Seq<char> {
    match k {
        KernelType::Gemm => "GEMM"@,
        KernelType::Memcpy => "MEMCPY"@,
        KernelType::Memset => "MEMSET"@,
        KernelType::Transpose => "TRANSPOSE"@,
        KernelType::Elementwise => "ELEMENTWISE"@,
        KernelType::Reduction => "REDUCTION"@,
        KernelType::Atomic => "ATOMIC"@,
        KernelType::IntAlu => "INTALU"@,
    }
}

/// The kernel type named by a lower-case key, aliases included.
pub open spec fn kernel_of_key(key: Seq<char>) -> Option<KernelType> {
    if key == "gemm"@ {
        Some(KernelType::Gemm)
    } else if key == "memcpy"@ || key == "copy"@ || key == "clone"@ {
        Some(KernelType::Memcpy)
    } else if key == "memset"@ || key == "fill"@ {
        Some(KernelType::Memset)
    } else if key == "transpose"@ {
        Some(KernelType::Transpose)
    } else if key == "elementwise"@ || key == "elem"@ || key == "add"@ {
        Some(KernelType::Elementwise)
    } else if key == "reduction"@ || key == "reduce"@ || key == "sum"@ {
        Some(KernelType::Reduction)
    } else if key == "atomic"@ {
        Some(KernelType::Atomic)
    } else if key == "intalu"@ || key == "ialu"@ || key == "int"@ {
        Some(KernelType::IntAlu)
    } else {
        None
    }
}

/// `parse_kernel_type`: the key is the trimmed, lower-cased input.
pub open spec fn parse_kernel_type_spec(raw: Seq<char>) -> Result<KernelType, Seq<char>> {
    let key = lower(trim(raw));
    match kernel_of_key(key) {
        Some(k) => Ok(k),
        None => Err("unsupported kernel type: "@ + key),
    }
}

impl KernelType {
    pub fn as_str(&self) -> (s: &'static str)
        ensures
            s@ == kernel_label(*self),
    {
        match self {
            KernelType::Gemm => "GEMM",
            KernelType::Memcpy => "MEMCPY",
            KernelType::Memset => "MEMSET",
            KernelType::Transpose => "TRANSPOSE",
            KernelType::Elementwise => "ELEMENTWISE",
            KernelType::Reduction => "REDUCTION",
            KernelType::Atomic => "ATOMIC",
            KernelType::IntAlu => "INTALU",
        }
    }
}

fn kernel_from_key(key: &[char]) -> (r: Option<KernelType>)
    ensures
        r == kernel_of_key(key@),
{
    if eq_str(key, "gemm") {
        Some(KernelType::Gemm)
    } else if eq_str(key, "memcpy") || eq_str(key, "copy") || eq_str(key, "clone") {
        Some(KernelType::Memcpy)
    } else if eq_str(key, "memset") || eq_str(key, "fill") {
        Some(KernelType::Memset)
    } else if eq_str(key, "transpose") {
        Some(KernelType::Transpose)
    } else if eq_str(key, "elementwise") || eq_str(key, "elem") || eq_str(key, "add") {
        Some(KernelType::Elementwise)
    } else if eq_str(key, "reduction") || eq_str(key, "reduce") || eq_str(key, "sum") {
        Some(KernelType::Reduction)
    } else if eq_str(key, "atomic") {
        Some(KernelType::Atomic)
    } else if eq_str(key, "intalu") || eq_str(key, "ialu") || eq_str(key, "int") {
        Some(KernelType::IntAlu)
    } else {
        None
    }
}

fn parse_kernel_type_chars(raw: &[char]) -> (r: Result<KernelType, String>)
    ensures
        res_view(r) == parse_kernel_type_spec(raw@),
{
    let key = trim_lower(raw);
    match kernel_from_key(key.as_slice()) {
        Some(k) => Ok(k),
        None => Err(message("unsupported kernel type: ", key.as_slice())),
    }
}

/// Kernel type named by `raw` (trimmed, any ASCII case, aliases accepted).
pub fn parse_kernel_type(raw: &str) -> (r: Result<KernelType, String>)
    ensures
        res_view(r) == parse_kernel_type_spec(raw@),
{
    let c = chars_of(raw);
    parse_kernel_type_chars(c.as_slice())
}

// ---------------------------------------------------------------------------
// Stream modes
// ---------------------------------------------------------------------------

pub open spec fn stream_count_spec(m: StreamMode) -> nat {
    match m {
        StreamMode::Single => 1,
        StreamMode::Dual => 2,
        StreamMode::Triple => 3,
    }
}

impl StreamMode {
    pub fn stream_count(&self) -> (n: usize)
        ensures
            n == stream_count_spec(*self),
    {
        match self {
            StreamMode::Single => 1,
            StreamMode::Dual => 2,
            StreamMode::Triple => 3,
        }
    }
}

/// Number of concurrent lanes for a stream mode, clamped to the three
/// streams allocated up-front.
pub fn lane_count(stream_mode: StreamMode) -> (n: usize)
    ensures
        n == stream_count_spec(stream_mode),
        1 <= n <= 3,
{
    let n = stream_mode.stream_count();
    if n < 1 {
        1
    } else if n > 3 {
        3
    } else {
        n
    }
}

pub open spec fn stream_mode_of_key(key: Seq<char>) -> Option<StreamMode> {
    if key == "single"@ || key == "1"@ {
        Some(StreamMode::Single)
    } else if key == "dual"@ || key == "2"@ {
        Some(StreamMode::Dual)
    } else if key == "triple"@ || key == "3"@ {
        Some(StreamMode::Triple)
    } else {
        None
    }
}

pub open spec fn parse_stream_mode_spec(raw: Seq<char>) -> Result<StreamMode, Seq<char>> {
    let key = lower(trim(raw));
    match stream_mode_of_key(key) {
        Some(m) => Ok(m),
        None => Err("unsupported stream mode: "@ + key + ", expected single|dual|triple"@),
    }
}

/// Stream mode named by `raw`: single|1, dual|2, triple|3.
pub fn parse_stream_mode(raw: &str) -> (r: Result<StreamMode, String>)
    ensures
        res_view(r) == parse_stream_mode_spec(raw@),
{
    let c = chars_of(raw);
    let key = trim_lower(c.as_slice());
    if eq_str(key.as_slice(), "single") || eq_str(key.as_slice(), "1") {
        Ok(StreamMode::Single)
    } else if eq_str(key.as_slice(), "dual") || eq_str(key.as_slice(), "2") {
        Ok(StreamMode::Dual)
    } else if eq_str(key.as_slice(), "triple") || eq_str(key.as_slice(), "3") {
        Ok(StreamMode::Triple)
    } else {
        let tail = chars_of(", expected single|dual|triple");
        let body = concat(key.as_slice(), tail.as_slice());
        assert(body@ =~= key@ + ", expected single|dual|triple"@);
        let m = message("unsupported stream mode: ", body.as_slice());
        assert(m@ =~= "unsupported stream mode: "@ + key@ + ", expected single|dual|triple"@);
        Err(m)
    }
}

// ---------------------------------------------------------------------------
// Precision / kernel compatibility
// ---------------------------------------------------------------------------

pub open spec fn is_int_kind(k: PrecisionKind) -> bool {
    k == PrecisionKind::INT8 || k == PrecisionKind::INT16 || k == PrecisionKind::INT32
}

/// Whether a precision is an integer (INT8/16/32) stress path.
pub fn is_int_precision(kind: PrecisionKind) -> (b: bool)
    ensures
        b == is_int_kind(kind),
{
    match kind {
        PrecisionKind::INT8 | PrecisionKind::INT16 | PrecisionKind::INT32 => true,
        _ => false,
    }
}

/// Meaningful (kernel, precision) pairs: IntAlu runs the integer
/// precisions only; INT16/INT32 run on IntAlu only; everything else pairs.
pub open spec fn compatible_spec(kind: KernelType, precision: PrecisionKind) -> bool {
    if kind == KernelType::IntAlu {
        is_int_kind(precision)
    } else {
        precision != PrecisionKind::INT16 && precision != PrecisionKind::INT32
    }
}

/// Whether a (kernel, precision) pair is a meaningful stress combination.
pub fn kernel_precision_compatible(kind: KernelType, precision: PrecisionKind) -> (b: bool)
    ensures
        b == compatible_spec(kind, precision),
{
    match (kind, precision) {
        (KernelType::IntAlu, precision) => is_int_precision(precision),
        (_, PrecisionKind::INT16) | (_, PrecisionKind::INT32) => false,
        _ => true,
    }
}

/// INT8 is the one integer precision with kernels besides IntAlu; INT16
/// and INT32 run on IntAlu alone, and IntAlu runs nothing but integers.
pub proof fn lemma_int_precisions_route_to_intalu(kind: KernelType, precision: PrecisionKind)
    ensures
        (precision == PrecisionKind::INT16 || precision == PrecisionKind::INT32) ==> (
        compatible_spec(kind, precision) <==> kind == KernelType::IntAlu),
        kind == KernelType::IntAlu ==> (compatible_spec(kind, precision) <==> is_int_kind(
            precision,
        )),
        compatible_spec(kind, PrecisionKind::INT8),
{
}

// ---------------------------------------------------------------------------
// Integer lists
// ---------------------------------------------------------------------------

/// Left fold of `parse_int_list` over the comma-separated pieces.
pub open spec fn int_fold(pieces: Seq<Seq<char>>) -> Result<Seq<usize>, Seq<char>>
    decreases pieces.len(),
{
    if pieces.len() == 0 {
        Ok(Seq::empty())
    } else {
        match int_fold(pieces.drop_last()) {
            Err(e) => Err(e),
            Ok(vals) => {
                let t = trim(pieces.last());
                if t.len() == 0 {
                    Ok(vals)
                } else {
                    match parse_unsigned(t, 10, usize::MAX as nat) {
                        Some(v) => Ok(vals.push(v as usize)),
                        None => Err("invalid integer: "@ + t),
                    }
                }
            },
        }
    }
}

/// Comma-separated sizes: empty pieces skipped, at least one value.
pub open spec fn parse_int_list_spec(raw: Seq<char>) -> Result<Seq<usize>, Seq<char>> {
    match int_fold(split_on(raw, ',')) {
        Ok(v) => if v.len() == 0 {
            Err("matrix sizes cannot be empty"@)
        } else {
            Ok(v)
        },
        Err(e) => Err(e),
    }
}

proof fn lemma_int_fold_err(pieces: Seq<Seq<char>>, i: int)
    requires
        0 <= i <= pieces.len(),
        int_fold(pieces.take(i)) is Err,
    ensures
        int_fold(pieces) == int_fold(pieces.take(i)),
    decreases pieces.len() - i,
{
    if i < pieces.len() {
        assert(pieces.take(i + 1).drop_last() =~= pieces.take(i));
        lemma_int_fold_err(pieces, i + 1);
    } else {
        assert(pieces.take(i) =~= pieces);
    }
}

/// Comma-separated list of sizes, e.g. "512, 1024, 2048".
pub fn parse_int_list(raw: &str) -> (r: Result<Vec<usize>, String>)
    ensures
        res_seq(r) == parse_int_list_spec(raw@),
{
    let c = chars_of(raw);
    let pieces = split_chars(c.as_slice(), ',');
    let ghost ps = pieces_view(pieces@);
    let mut values: Vec<usize> = Vec::new();
    let mut i: usize = 0;
    assert(ps.take(0) =~= Seq::<Seq<char>>::empty());
    while i < pieces.len()
        invariant
            i <= pieces@.len(),
            ps == pieces_view(pieces@),
            ps == split_on(raw@, ','),
            int_fold(ps.take(i as int)) == Ok::<Seq<usize>, Seq<char>>(values@),
        decreases pieces@.len() - i,
    {
        let ghost t1 = ps.take(i as int + 1);
        assert(t1.drop_last() =~= ps.take(i as int));
        assert(t1.last() == pieces@[i as int]@);
        let trimmed = trim_chars(pieces[i].as_slice());
        if trimmed.len() > 0 {
            match parse_usize_chars(trimmed.as_slice()) {
                Some(v) => {
                    values.push(v);
                },
                None => {
                    proof {
                        lemma_int_fold_err(ps, i as int + 1);
                    }
                    return Err(message("invalid integer: ", trimmed.as_slice()));
                },
            }
        }
        i = i + 1;
    }
    assert(ps.take(pieces@.len() as int) =~= ps);
    if values.len() == 0 {
        return Err(string_of("matrix sizes cannot be empty"));
    }
    Ok(values)
}

// ---------------------------------------------------------------------------
// Precision lists
// ---------------------------------------------------------------------------

/// The precision named by a lower-case key.
pub open spec fn precision_of_key(key: Seq<char>) -> Option<PrecisionSpec> {
    if key == "fp64"@ {
        Some(PrecisionSpec { name: "FP64", kind: PrecisionKind::FP64, tf32_enabled: None })
    } else if key == "fp32"@ {
        Some(PrecisionSpec { name: "FP32", kind: PrecisionKind::FP32, tf32_enabled: Some(false) })
    } else if key == "tf32"@ {
        Some(PrecisionSpec { name: "TF32", kind: PrecisionKind::TF32, tf32_enabled: Some(true) })
    } else if key == "fp16"@ {
        Some(PrecisionSpec { name: "FP16", kind: PrecisionKind::FP16, tf32_enabled: None })
    } else if key == "bf16"@ {
        Some(PrecisionSpec { name: "BF16", kind: PrecisionKind::BF16, tf32_enabled: None })
    } else if key == "fp8"@ {
        Some(
            PrecisionSpec { name: "FP8 E4M3FN", kind: PrecisionKind::FP8E4M3FN, tf32_enabled: None },
        )
    } else if key == "int8"@ || key == "i8"@ {
        Some(PrecisionSpec { name: "INT8", kind: PrecisionKind::INT8, tf32_enabled: None })
    } else if key == "int16"@ || key == "i16"@ {
        Some(PrecisionSpec { name: "INT16", kind: PrecisionKind::INT16, tf32_enabled: None })
    } else if key == "int32"@ || key == "i32"@ {
        Some(PrecisionSpec { name: "INT32", kind: PrecisionKind::INT32, tf32_enabled: None })
    } else {
        None
    }
}

fn precision_from_key(key: &[char]) -> (r: Option<PrecisionSpec>)
    ensures
        r == precision_of_key(key@),
{
    if eq_str(key, "fp64") {
        Some(PrecisionSpec { name: "FP64", kind: PrecisionKind::FP64, tf32_enabled: None })
    } else if eq_str(key, "fp32") {
        Some(PrecisionSpec { name: "FP32", kind: PrecisionKind::FP32, tf32_enabled: Some(false) })
    } else if eq_str(key, "tf32") {
        Some(PrecisionSpec { name: "TF32", kind: PrecisionKind::TF32, tf32_enabled: Some(true) })
    } else if eq_str(key, "fp16") {
        Some(PrecisionSpec { name: "FP16", kind: PrecisionKind::FP16, tf32_enabled: None })
    } else if eq_str(key, "bf16") {
        Some(PrecisionSpec { name: "BF16", kind: PrecisionKind::BF16, tf32_enabled: None })
    } else if eq_str(key, "fp8") {
        Some(
            PrecisionSpec { name: "FP8 E4M3FN", kind: PrecisionKind::FP8E4M3FN, tf32_enabled: None },
        )
    } else if eq_str(key, "int8") || eq_str(key, "i8") {
        Some(PrecisionSpec { name: "INT8", kind: PrecisionKind::INT8, tf32_enabled: None })
    } else if eq_str(key, "int16") || eq_str(key, "i16") {
        Some(PrecisionSpec { name: "INT16", kind: PrecisionKind::INT16, tf32_enabled: None })
    } else if eq_str(key, "int32") || eq_str(key, "i32") {
        Some(PrecisionSpec { name: "INT32", kind: PrecisionKind::INT32, tf32_enabled: None })
    } else {
        None
    }
}

/// Left fold of `parse_precision_list` over the comma-separated pieces.
/// The error names the piece as written.
pub open spec fn precision_fold(pieces: Seq<Seq<char>>) -> Result<Seq<PrecisionSpec>, Seq<char>>
    decreases pieces.len(),
{
    if pieces.len() == 0 {
        Ok(Seq::empty())
    } else {
        match precision_fold(pieces.drop_last()) {
            Err(e) => Err(e),
            Ok(sel) => {
                let key = lower(trim(pieces.last()));
                if key.len() == 0 {
                    Ok(sel)
                } else {
                    match precision_of_key(key) {
                        Some(s) => Ok(sel.push(s)),
                        None => Err("unsupported precision: "@ + pieces.last()),
                    }
                }
            },
        }
    }
}

pub open spec fn parse_precision_list_spec(raw: Seq<char>) -> Result<Seq<PrecisionSpec>, Seq<char>> {
    match precision_fold(split_on(raw, ',')) {
        Ok(v) => if v.len() == 0 {
            Err("precision list cannot be empty"@)
        } else {
            Ok(v)
        },
        Err(e) => Err(e),
    }
}

proof fn lemma_precision_fold_err(pieces: Seq<Seq<char>>, i: int)
    requires
        0 <= i <= pieces.len(),
        precision_fold(pieces.take(i)) is Err,
    ensures
        precision_fold(pieces) == precision_fold(pieces.take(i)),
    decreases pieces.len() - i,
{
    if i < pieces.len() {
        assert(pieces.take(i + 1).drop_last() =~= pieces.take(i));
        lemma_precision_fold_err(pieces, i + 1);
    } else {
        assert(pieces.take(i) =~= pieces);
    }
}

/// The key that names a precision on the command line.
pub open spec fn precision_key(k: PrecisionKind) -> Seq<char> {
    match k {
        PrecisionKind::FP64 => "fp64"@,
        PrecisionKind::FP32 => "fp32"@,
        PrecisionKind::TF32 => "tf32"@,
        PrecisionKind::FP16 => "fp16"@,
        PrecisionKind::BF16 => "bf16"@,
        PrecisionKind::FP8E4M3FN => "fp8"@,
        PrecisionKind::INT8 => "int8"@,
        PrecisionKind::INT16 => "int16"@,
        PrecisionKind::INT32 => "int32"@,
    }
}

/// The short alias of an integer precision (`i8`, `i16`, `i32`); other
/// precisions have only their key.
pub open spec fn precision_alias(k: PrecisionKind) -> Seq<char> {
    match k {
        PrecisionKind::INT8 => "i8"@,
        PrecisionKind::INT16 => "i16"@,
        PrecisionKind::INT32 => "i32"@,
        _ => precision_key(k),
    }
}

/// The display name of a precision.
pub open spec fn precision_display(k: PrecisionKind) -> Seq<char> {
    match k {
        PrecisionKind::FP64 => "FP64"@,
        PrecisionKind::FP32 => "FP32"@,
        PrecisionKind::TF32 => "TF32"@,
        PrecisionKind::FP16 => "FP16"@,
        PrecisionKind::BF16 => "BF16"@,
        PrecisionKind::FP8E4M3FN => "FP8 E4M3FN"@,
        PrecisionKind::INT8 => "INT8"@,
        PrecisionKind::INT16 => "INT16"@,
        PrecisionKind::INT32 => "INT32"@,
    }
}

/// The TF32 setting that goes with a precision: on for TF32, off for FP32,
/// none for the others.
pub open spec fn tf32_setting(k: PrecisionKind) -> Option<bool> {
    match k {
        PrecisionKind::TF32 => Some(true),
        PrecisionKind::FP32 => Some(false),
        _ => None,
    }
}

/// A key gives the precision it names: the key (or the integer alias) of
/// the precision it gives is that key, and the precision carries its own
/// display name and TF32 setting.
pub proof fn lemma_key_names_its_precision(key: Seq<char>)
    ensures
        precision_of_key(key) matches Some(p) ==> {
            &&& key == precision_key(p.kind) || key == precision_alias(p.kind)
            &&& p.name@ == precision_display(p.kind)
            &&& p.tf32_enabled == tf32_setting(p.kind)
        },
{
}

proof fn lemma_split_without_sep(s: Seq<char>, c: char)
    requires
        forall|i: int| 0 <= i < s.len() ==> s[i] != c,
    ensures
        split_on(s, c) == seq![s],
    decreases s.len(),
{
    if s.len() > 0 {
        lemma_split_without_sep(s.drop_last(), c);
        assert(s.drop_last().push(s.last()) =~= s);
        assert(seq![s.drop_last()].update(0, s.drop_last().push(s.last())) =~= seq![s]);
    } else {
        assert(s =~= Seq::<char>::empty());
    }
}

proof fn lemma_single_key_parses(key: Seq<char>)
    requires
        forall|i: int| 0 <= i < key.len() ==> key[i] != ',',
        lower(trim(key)) == key,
        key.len() > 0,
        precision_of_key(key) is Some,
    ensures
        parse_precision_spec(key) == Ok::<PrecisionSpec, Seq<char>>(precision_of_key(key)->0),
{
    lemma_split_without_sep(key, ',');
    let pieces = seq![key];
    assert(pieces.drop_last() =~= Seq::<Seq<char>>::empty());
    assert(pieces.last() == key);
    assert(precision_fold(pieces.drop_last()) == Ok::<Seq<PrecisionSpec>, Seq<char>>(Seq::empty()));
    let p = precision_of_key(key)->0;
    assert(Seq::<PrecisionSpec>::empty().push(p) =~= seq![p]);
    assert(precision_fold(pieces) == Ok::<Seq<PrecisionSpec>, Seq<char>>(seq![p]));
}

/// Every precision's key parses to that precision, with its display name and
/// TF32 setting; so does the short alias of each integer precision.
pub proof fn lemma_precision_keys_parse_back(k: PrecisionKind)
    ensures
        parse_precision_spec(precision_key(k)) matches Ok(p) && p.kind == k && p.name@
            == precision_display(k) && p.tf32_enabled == tf32_setting(k),
        parse_precision_spec(precision_alias(k)) matches Ok(p) && p.kind == k,
{
    reveal_strlit("fp64");
    reveal_strlit("fp32");
    reveal_strlit("tf32");
    reveal_strlit("fp16");
    reveal_strlit("bf16");
    reveal_strlit("fp8");
    reveal_strlit("int8");
    reveal_strlit("i8");
    reveal_strlit("int16");
    reveal_strlit("i16");
    reveal_strlit("int32");
    reveal_strlit("i32");
    assert("fp64"@.len() == 4);
    assert("fp32"@.len() == 4);
    assert("tf32"@.len() == 4);
    assert("fp16"@.len() == 4);
    assert("bf16"@.len() == 4);
    assert("fp8"@.len() == 3);
    assert("int8"@.len() == 4);
    assert("i8"@.len() == 2);
    assert("int16"@.len() == 5);
    assert("i16"@.len() == 3);
    assert("int32"@.len() == 5);
    assert("i32"@.len() == 3);
    match k {
        PrecisionKind::FP64 => {
            assert(lower(trim("fp64"@)) =~= "fp64"@);
            lemma_single_key_parses("fp64"@);
        },
        PrecisionKind::FP32 => {
            assert("fp32"@[2] != "fp64"@[2]);
            assert(lower(trim("fp32"@)) =~= "fp32"@);
            lemma_single_key_parses("fp32"@);
        },
        PrecisionKind::TF32 => {
            assert("tf32"@[0] != "fp64"@[0]);
            assert("tf32"@[0] != "fp32"@[0]);
            assert(lower(trim("tf32"@)) =~= "tf32"@);
            lemma_single_key_parses("tf32"@);
        },
        PrecisionKind::FP16 => {
            assert("fp16"@[2] != "fp64"@[2]);
            assert("fp16"@[2] != "fp32"@[2]);
            assert("fp16"@[0] != "tf32"@[0]);
            assert(lower(trim("fp16"@)) =~= "fp16"@);
            lemma_single_key_parses("fp16"@);
        },
        PrecisionKind::BF16 => {
            assert("bf16"@[0] != "fp64"@[0]);
            assert("bf16"@[0] != "fp32"@[0]);
            assert("bf16"@[0] != "tf32"@[0]);
            assert("bf16"@[0] != "fp16"@[0]);
            assert(lower(trim("bf16"@)) =~= "bf16"@);
            lemma_single_key_parses("bf16"@);
        },
        PrecisionKind::FP8E4M3FN => {
            assert(lower(trim("fp8"@)) =~= "fp8"@);
            lemma_single_key_parses("fp8"@);
        },
        PrecisionKind::INT8 => {
            assert("int8"@[0] != "fp64"@[0]);
            assert("int8"@[0] != "fp32"@[0]);
            assert("int8"@[0] != "tf32"@[0]);
            assert("int8"@[0] != "fp16"@[0]);
            assert("int8"@[0] != "bf16"@[0]);
            assert(lower(trim("int8"@)) =~= "int8"@);
            lemma_single_key_parses("int8"@);
            assert(lower(trim("i8"@)) =~= "i8"@);
            lemma_single_key_parses("i8"@);
        },
        PrecisionKind::INT16 => {
            assert(lower(trim("int16"@)) =~= "int16"@);
            lemma_single_key_parses("int16"@);
            assert("i16"@[0] != "fp8"@[0]);
            assert(lower(trim("i16"@)) =~= "i16"@);
            lemma_single_key_parses("i16"@);
        },
        PrecisionKind::INT32 => {
            assert("int32"@[3] != "int16"@[3]);
            assert(lower(trim("int32"@)) =~= "int32"@);
            lemma_single_key_parses("int32"@);
            assert("i32"@[0] != "fp8"@[0]);
            assert("i32"@[1] != "i16"@[1]);
            assert(lower(trim("i32"@)) =~= "i32"@);
            lemma_single_key_parses("i32"@);
        },
    }
}

/// Comma-separated precision keys (fp64, fp32, tf32, fp16, bf16, fp8,
/// int8|i8, int16|i16, int32|i32), any ASCII case.
pub fn parse_precision_list(raw: &str) -> (r: Result<Vec<PrecisionSpec>, String>)
    ensures
        res_seq(r) == parse_precision_list_spec(raw@),
{
    let c = chars_of(raw);
    parse_precision_list_chars(c.as_slice())
}

fn parse_precision_list_chars(raw: &[char]) -> (r: Result<Vec<PrecisionSpec>, String>)
    ensures
        res_seq(r) == parse_precision_list_spec(raw@),
{
    let pieces = split_chars(raw, ',');
    let ghost ps = pieces_view(pieces@);
    let mut selected: Vec<PrecisionSpec> = Vec::new();
    let mut i: usize = 0;
    assert(ps.take(0) =~= Seq::<Seq<char>>::empty());
    while i < pieces.len()
        invariant
            i <= pieces@.len(),
            ps == pieces_view(pieces@),
            ps == split_on(raw@, ','),
            precision_fold(ps.take(i as int)) == Ok::<Seq<PrecisionSpec>, Seq<char>>(selected@),
        decreases pieces@.len() - i,
    {
        let ghost t1 = ps.take(i as int + 1);
        assert(t1.drop_last() =~= ps.take(i as int));
        assert(t1.last() == pieces@[i as int]@);
        let key = trim_lower(pieces[i].as_slice());
        if key.len() > 0 {
            match precision_from_key(key.as_slice()) {
                Some(s) => {
                    selected.push(s);
                },
                None => {
                    proof {
                        lemma_precision_fold_err(ps, i as int + 1);
                    }
                    return Err(message("unsupported precision: ", pieces[i].as_slice()));
                },
            }
        }
        i = i + 1;
    }
    assert(ps.take(pieces@.len() as int) =~= ps);
    if selected.len() == 0 {
        return Err(string_of("precision list cannot be empty"));
    }
    Ok(selected)
}

pub open spec fn parse_precision_spec(raw: Seq<char>) -> Result<PrecisionSpec, Seq<char>> {
    match parse_precision_list_spec(raw) {
        Ok(v) => if v.len() == 1 {
            Ok(v[0])
        } else {
            Err("expected a single precision, got: "@ + raw)
        },
        Err(e) => Err(e),
    }
}

/// Exactly one precision key.
pub fn parse_precision(raw: &str) -> (r: Result<PrecisionSpec, String>)
    ensures
        res_view(r) == parse_precision_spec(raw@),
{
    let c = chars_of(raw);
    let specs = parse_precision_list_chars(c.as_slice())?;
    if specs.len() != 1 {
        return Err(message("expected a single precision, got: ", c.as_slice()));
    }
    Ok(specs[0])
}

// ---------------------------------------------------------------------------
// Kernel type lists
// ---------------------------------------------------------------------------

/// Left fold of `parse_kernel_type_list`: each non-empty trimmed,
/// lower-cased piece parsed, kinds already present skipped.
pub open spec fn kernel_fold(pieces: Seq<Seq<char>>) -> Result<Seq<KernelType>, Seq<char>>
    decreases pieces.len(),
{
    if pieces.len() == 0 {
        Ok(Seq::empty())
    } else {
        match kernel_fold(pieces.drop_last()) {
            Err(e) => Err(e),
            Ok(sel) => {
                let key = lower(trim(pieces.last()));
                if key.len() == 0 {
                    Ok(sel)
                } else {
                    match parse_kernel_type_spec(key) {
                        Ok(k) => if sel.contains(k) {
                            Ok(sel)
                        } else {
                            Ok(sel.push(k))
                        },
                        Err(e) => Err(e),
                    }
                }
            },
        }
    }
}

pub open spec fn parse_kernel_type_list_spec(raw: Seq<char>) -> Result<Seq<KernelType>, Seq<char>> {
    match kernel_fold(split_on(raw, ',')) {
        Ok(v) => if v.len() == 0 {
            Err("kernel type list cannot be empty"@)
        } else {
            Ok(v)
        },
        Err(e) => Err(e),
    }
}

proof fn lemma_kernel_fold_err(pieces: Seq<Seq<char>>, i: int)
    requires
        0 <= i <= pieces.len(),
        kernel_fold(pieces.take(i)) is Err,
    ensures
        kernel_fold(pieces) == kernel_fold(pieces.take(i)),
    decreases pieces.len() - i,
{
    if i < pieces.len() {
        assert(pieces.take(i + 1).drop_last() =~= pieces.take(i));
        lemma_kernel_fold_err(pieces, i + 1);
    } else {
        assert(pieces.take(i) =~= pieces);
    }
}

/// The kinds produced by the kernel-type fold never repeat.
pub proof fn lemma_kernel_fold_distinct(pieces: Seq<Seq<char>>)
    ensures
        kernel_fold(pieces) matches Ok(v) ==> v.no_duplicates(),
    decreases pieces.len(),
{
    if pieces.len() > 0 {
        lemma_kernel_fold_distinct(pieces.drop_last());
    }
}

fn contains_kind(v: &Vec<KernelType>, k: KernelType) -> (b: bool)
    ensures
        b == v@.contains(k),
{
    let mut i: usize = 0;
    while i < v.len()
        invariant
            i <= v@.len(),
            forall|j: int| 0 <= j < i ==> v@[j] != k,
        decreases v@.len() - i,
    {
        if v[i] == k {
            assert(v@[i as int] == k);
            return true;
        }
        i = i + 1;
    }
    false
}

/// Comma-separated kernel types, duplicates dropped (first occurrence kept).
pub fn parse_kernel_type_list(raw: &str) -> (r: Result<Vec<KernelType>, String>)
    ensures
        res_seq(r) == parse_kernel_type_list_spec(raw@),
        r matches Ok(v) ==> v@.no_duplicates() && v@.len() > 0,
{
    let c = chars_of(raw);
    let pieces = split_chars(c.as_slice(), ',');
    let ghost ps = pieces_view(pieces@);
    let mut selected: Vec<KernelType> = Vec::new();
    let mut i: usize = 0;
    assert(ps.take(0) =~= Seq::<Seq<char>>::empty());
    while i < pieces.len()
        invariant
            i <= pieces@.len(),
            ps == pieces_view(pieces@),
            ps == split_on(raw@, ','),
            kernel_fold(ps.take(i as int)) == Ok::<Seq<KernelType>, Seq<char>>(selected@),
        decreases pieces@.len() - i,
    {
        let ghost t1 = ps.take(i as int + 1);
        assert(t1.drop_last() =~= ps.take(i as int));
        assert(t1.last() == pieces@[i as int]@);
        let key = trim_lower(pieces[i].as_slice());
        if key.len() > 0 {
            match parse_kernel_type_chars(key.as_slice()) {
                Ok(kind) => {
                    if !contains_kind(&selected, kind) {
                        selected.push(kind);
                    }
                },
                Err(e) => {
                    proof {
                        lemma_kernel_fold_err(ps, i as int + 1);
                    }
                    return Err(e);
                },
            }
        }
        i = i + 1;
    }
    assert(ps.take(pieces@.len() as int) =~= ps);
    proof {
        lemma_kernel_fold_distinct(ps);
    }
    if selected.len() == 0 {
        return Err(string_of("kernel type list cannot be empty"));
    }
    Ok(selected)
}

// ---------------------------------------------------------------------------
// IntAlu precision overrides
// ---------------------------------------------------------------------------

/// The precisions of an optional list.
pub open spec fn opt_specs(o: Option<Vec<PrecisionSpec>>) -> Seq<PrecisionSpec> {
    match o {
        Some(v) => v@,
        None => Seq::empty(),
    }
}

/// The precisions of an optional mixture, in order.
pub open spec fn mixture_specs<W>(o: Option<Vec<PrecisionMixtureEntry<W>>>) -> Seq<PrecisionSpec> {
    match o {
        Some(v) => v@.map_values(|e: PrecisionMixtureEntry<W>| e.spec),
        None => Seq::empty(),
    }
}

/// The precisions named by an override: its list, then its mixture's.
pub open spec fn override_specs<W>(o: KernelParamOverride<W>) -> Seq<PrecisionSpec> {
    opt_specs(o.precisions) + mixture_specs(o.precision_mixture)
}

/// Names of the non-integer precisions among `specs`, each once, in order of
/// first appearance.
pub open spec fn incompatible_names(specs: Seq<PrecisionSpec>) -> Seq<Seq<char>>
    decreases specs.len(),
{
    if specs.len() == 0 {
        Seq::empty()
    } else {
        let prev = incompatible_names(specs.drop_last());
        let s = specs.last();
        if !is_int_kind(s.kind) && !prev.contains(s.name@) {
            prev.push(s.name@)
        } else {
            prev
        }
    }
}

/// The first IntAlu override naming a non-integer precision is rejected.
pub open spec fn validate_overrides_spec<W>(items: Seq<KernelParamOverride<W>>) -> Result<(), Seq<char>>
    decreases items.len(),
{
    if items.len() == 0 {
        Ok(())
    } else {
        let o = items[0];
        let bad = incompatible_names(override_specs(o));
        if o.kind == KernelType::IntAlu && bad.len() > 0 {
            Err(
                "INTALU supports only INT8/INT16/INT32; incompatible precision(s): "@ + join(
                    bad,
                    ", "@,
                ),
            )
        } else {
            validate_overrides_spec(items.drop_first())
        }
    }
}

fn contains_name(v: &Vec<Vec<char>>, name: &[char]) -> (b: bool)
    ensures
        b == pieces_view(v@).contains(name@),
{
    let mut i: usize = 0;
    while i < v.len()
        invariant
            i <= v@.len(),
            forall|j: int| 0 <= j < i ==> v@[j]@ != name@,
        decreases v@.len() - i,
    {
        if eq_chars(v[i].as_slice(), name) {
            assert(pieces_view(v@)[i as int] == name@);
            return true;
        }
        i = i + 1;
    }
    assert(!pieces_view(v@).contains(name@)) by {
        if pieces_view(v@).contains(name@) {
            let j = choose|j: int| 0 <= j < pieces_view(v@).len() && pieces_view(v@)[j] == name@;
            assert(v@[j]@ == name@);
        }
    }
    false
}

fn collect_incompatible(specs: &Vec<PrecisionSpec>, names: &mut Vec<Vec<char>>)
    ensures
        pieces_view(final(names)@) == incompatible_names_from(pieces_view(old(names)@), specs@),
{
    let mut i: usize = 0;
    let ghost start = pieces_view(names@);
    assert(specs@.take(0) =~= Seq::<PrecisionSpec>::empty());
    while i < specs.len()
        invariant
            i <= specs@.len(),
            pieces_view(names@) == incompatible_names_from(start, specs@.take(i as int)),
        decreases specs@.len() - i,
    {
        let s = specs[i];
        let ghost t1 = specs@.take(i as int + 1);
        assert(t1.drop_last() =~= specs@.take(i as int));
        let name = chars_of(s.name);
        if !is_int_precision(s.kind) && !contains_name(names, name.as_slice()) {
            let ghost before = pieces_view(names@);
            names.push(name);
            assert(pieces_view(names@) =~= before.push(s.name@));
        }
        i = i + 1;
    }
    assert(specs@.take(specs@.len() as int) =~= specs@);
}

fn mixture_spec_list<W>(mix: &Option<Vec<PrecisionMixtureEntry<W>>>) -> (out: Vec<PrecisionSpec>)
    ensures
        out@ == mixture_specs(*mix),
{
    let mut out: Vec<PrecisionSpec> = Vec::new();
    match mix {
        Some(v) => {
            let mut i: usize = 0;
            while i < v.len()
                invariant
                    i <= v@.len(),
                    out@ == v@.take(i as int).map_values(|e: PrecisionMixtureEntry<W>| e.spec),
                decreases v@.len() - i,
            {
                out.push(v[i].spec);
                i = i + 1;
                assert(out@ =~= v@.take(i as int).map_values(|e: PrecisionMixtureEntry<W>| e.spec));
            }
            assert(v@.take(v@.len() as int) =~= v@);
        },
        None => {},
    }
    out
}

/// [`incompatible_names`] continued from an already collected list.
pub open spec fn incompatible_names_from(start: Seq<Seq<char>>, specs: Seq<PrecisionSpec>) -> Seq<
    Seq<char>,
>
    decreases specs.len(),
{
    if specs.len() == 0 {
        start
    } else {
        let prev = incompatible_names_from(start, specs.drop_last());
        let s = specs.last();
        if !is_int_kind(s.kind) && !prev.contains(s.name@) {
            prev.push(s.name@)
        } else {
            prev
        }
    }
}

proof fn lemma_names_from_concat(start: Seq<Seq<char>>, a: Seq<PrecisionSpec>, b: Seq<PrecisionSpec>)
    ensures
        incompatible_names_from(incompatible_names_from(start, a), b) == incompatible_names_from(
            start,
            a + b,
        ),
    decreases b.len(),
{
    if b.len() == 0 {
        assert(a + b =~= a);
    } else {
        lemma_names_from_concat(start, a, b.drop_last());
        assert((a + b).drop_last() =~= a + b.drop_last());
        assert((a + b).last() == b.last());
    }
}

proof fn lemma_names_from_empty(specs: Seq<PrecisionSpec>)
    ensures
        incompatible_names_from(Seq::empty(), specs) == incompatible_names(specs),
    decreases specs.len(),
{
    if specs.len() > 0 {
        lemma_names_from_empty(specs.drop_last());
    }
}

/// Reject IntAlu overrides that name a floating-point precision, which
/// would mislabel an integer workload as floating-point stress.
pub fn validate_intalu_precision_overrides<W>(overrides: &[KernelParamOverride<W>]) -> (r: Result<
    (),
    String,
>)
    ensures
        res_view(r) == validate_overrides_spec(overrides@),
{
    let mut i: usize = 0;
    assert(overrides@.skip(0) =~= overrides@);
    while i < overrides.len()
        invariant
            i <= overrides@.len(),
            validate_overrides_spec(overrides@) == validate_overrides_spec(overrides@.skip(i as int)),
        decreases overrides@.len() - i,
    {
        let item = &overrides[i];
        let ghost rest = overrides@.skip(i as int);
        assert(rest[0] == overrides@[i as int]);
        assert(rest.drop_first() =~= overrides@.skip(i as int + 1));
        if item.kind == KernelType::IntAlu {
            let mut names: Vec<Vec<char>> = Vec::new();
            assert(pieces_view(names@) =~= Seq::<Seq<char>>::empty());
            let empty: Vec<PrecisionSpec> = Vec::new();
            match &item.precisions {
                Some(v) => collect_incompatible(v, &mut names),
                None => collect_incompatible(&empty, &mut names),
            }
            let mix = mixture_spec_list(&item.precision_mixture);
            collect_incompatible(&mix, &mut names);
            proof {
                let a = opt_specs(item.precisions);
                let b = mixture_specs(item.precision_mixture);
                lemma_names_from_concat(Seq::empty(), a, b);
                lemma_names_from_empty(a + b);
            }
            if names.len() > 0 {
                let joined = join_chars(&names, ", ");
                return Err(
                    message(
                        "INTALU supports only INT8/INT16/INT32; incompatible precision(s): ",
                        joined.as_slice(),
                    ),
                );
            }
        }
        i = i + 1;
    }
    assert(overrides@.skip(i as int) =~= Seq::<KernelParamOverride<W>>::empty());
    Ok(())
}

// ---------------------------------------------------------------------------
// Device capability
// ---------------------------------------------------------------------------

/// The compute capability, (0, 0) when unknown.
pub open spec fn sm_of(info: DeviceInfo) -> (i32, i32) {
    match info.compute_capability {
        Some(sm) => sm,
        None => (0, 0),
    }
}

/// `"SM" major "." minor`.
pub open spec fn sm_label(sm: (i32, i32)) -> Seq<char> {
    "SM"@ + decimal_int(sm.0 as int) + "."@ + decimal_int(sm.1 as int)
}

/// Whether the device runs a precision: BF16 needs SM 8.0, FP8 needs
/// SM 8.9; everything else runs on any SM.
pub open spec fn supports_precision_spec(info: DeviceInfo, kind: PrecisionKind) -> Result<
    (),
    Seq<char>,
> {
    let sm = sm_of(info);
    if kind == PrecisionKind::BF16 {
        if sm.0 >= 8 {
            Ok(())
        } else {
            Err("BF16 requires SM80 or higher (current: "@ + sm_label(sm) + ")"@)
        }
    } else if kind == PrecisionKind::FP8E4M3FN {
        if sm.0 >= 8 && (sm.0 > 8 || sm.1 >= 9) {
            Ok(())
        } else {
            Err("FP8 requires SM89 or higher (current: "@ + sm_label(sm) + ")"@)
        }
    } else {
        Ok(())
    }
}

fn sm_label_chars(sm: (i32, i32)) -> (out: Vec<char>)
    ensures
        out@ == sm_label(sm),
{
    let a = chars_of("SM");
    let b = decimal_int_chars(sm.0 as i64);
    let c = chars_of(".");
    let d = decimal_int_chars(sm.1 as i64);
    let ab = concat(a.as_slice(), b.as_slice());
    let abc = concat(ab.as_slice(), c.as_slice());
    concat(abc.as_slice(), d.as_slice())
}

impl DeviceInfo {
    pub fn supports_precision(&self, spec: &PrecisionSpec) -> (r: Result<(), String>)
        ensures
            res_view(r) == supports_precision_spec(*self, spec.kind),
    {
        let sm = match self.compute_capability {
            Some(sm) => sm,
            None => (0, 0),
        };
        match spec.kind {
            PrecisionKind::BF16 => {
                if sm.0 >= 8 {
                    Ok(())
                } else {
                    let label = sm_label_chars(sm);
                    let close = chars_of(")");
                    let tail = concat(label.as_slice(), close.as_slice());
                    let m = message("BF16 requires SM80 or higher (current: ", tail.as_slice());
                    assert(m@ =~= "BF16 requires SM80 or higher (current: "@ + sm_label(sm) + ")"@);
                    Err(m)
                }
            },
            PrecisionKind::FP8E4M3FN => {
                if sm.0 >= 8 && (sm.0 > 8 || sm.1 >= 9) {
                    Ok(())
                } else {
                    let label = sm_label_chars(sm);
                    let close = chars_of(")");
                    let tail = concat(label.as_slice(), close.as_slice());
                    let m = message("FP8 requires SM89 or higher (current: ", tail.as_slice());
                    assert(m@ =~= "FP8 requires SM89 or higher (current: "@ + sm_label(sm) + ")"@);
                    Err(m)
                }
            },
            _ => Ok(()),
        }
    }
}

/// Whether INT8 GEMM runs on tensor cores (IMMA, SM 7.5 and later).
pub fn has_int8_tensor_cores(info: &DeviceInfo) -> (b: bool)
    ensures
        b == (sm_of(*info).0 > 7 || (sm_of(*info).0 == 7 && sm_of(*info).1 >= 5)),
{
    let sm = match info.compute_capability {
        Some(sm) => sm,
        None => (0, 0),
    };
    sm.0 > 7 || (sm.0 == 7 && sm.1 >= 5)
}

/// Kernel types kept on a device: the atomic path needs SM 8.0, so below
/// that it is dropped; everything else is kept in order.
pub fn filter_atomic_for_sm(kernel_types: &mut Vec<KernelType>, info: &DeviceInfo)
    ensures
        sm_of(*info).0 >= 8 ==> final(kernel_types)@ == old(kernel_types)@,
        sm_of(*info).0 < 8 ==> final(kernel_types)@ == old(kernel_types)@.filter(
            |k: KernelType| k != KernelType::Atomic,
        ),
{
    let major = match info.compute_capability {
        Some((major, _)) => major,
        None => 0,
    };
    if major >= 8 {
        return;
    }
    let ghost orig = kernel_types@;
    let ghost keep = |k: KernelType| k != KernelType::Atomic;
    let mut out: Vec<KernelType> = Vec::new();
    let mut i: usize = 0;
    assert(orig.take(0) =~= Seq::<KernelType>::empty());
    while i < kernel_types.len()
        invariant
            i <= kernel_types@.len(),
            kernel_types@ == orig,
            keep == (|k: KernelType| k != KernelType::Atomic),
            out@ == orig.take(i as int).filter(keep),
        decreases kernel_types@.len() - i,
    {
        proof {
            reveal_with_fuel(Seq::filter, 1);
            assert(orig.take(i as int + 1).drop_last() =~= orig.take(i as int));
        }
        let k = kernel_types[i];
        if k != KernelType::Atomic {
            out.push(k);
        }
        i = i + 1;
    }
    assert(orig.take(orig.len() as int) =~= orig);
    *kernel_types = out;
}

// ---------------------------------------------------------------------------
// Work estimates
// ---------------------------------------------------------------------------

/// Integer operations per element of the IntAlu multiply-add chain.
pub const INTALU_OPS_PER_ELEM: u128 = 64;

/// Floating-point (IntAlu: integer) operations of `iters` bursts of a
/// kernel on an `n`-by-`n` problem: GEMM `2n^3`, transpose and elementwise
/// `2n^2`, IntAlu `64n^2`, the other kernels `n^2`, per burst.
pub open spec fn kernel_work(kind: KernelType, n: nat, iters: nat) -> nat {
    match kind {
        KernelType::Gemm => 2 * n * n * n * iters,
        KernelType::Transpose | KernelType::Elementwise => 2 * n * n * iters,
        KernelType::IntAlu => n * n * 64 * iters,
        _ => n * n * iters,
    }
}

/// Estimated work of `burst_iters` bursts of a kernel at size `size`.
pub fn estimate_kernel_work_flops(kind: KernelType, size: usize, burst_iters: u32) -> (r: u128)
    requires
        kernel_work(kind, size as nat, burst_iters as nat) <= u128::MAX,
    ensures
        r == kernel_work(kind, size as nat, burst_iters as nat),
{
    let n = size as u128;
    let iters = burst_iters as u128;
    let ghost nn = size as nat;
    let ghost it = burst_iters as nat;
    match kind {
        KernelType::Gemm => {
            if n == 0 || iters == 0 {
                assert(2 * nn * nn * nn * it == 0) by (nonlinear_arith)
                    requires
                        nn == 0 || it == 0,
                ;
                return 0;
            }
            assert(2 * n <= 2 * n * n * n * iters) by (nonlinear_arith)
                requires
                    n >= 1,
                    iters >= 1,
            ;
            assert(2 * n * n <= 2 * n * n * n * iters) by (nonlinear_arith)
                requires
                    n >= 1,
                    iters >= 1,
            ;
            assert(2 * n * n * n <= 2 * n * n * n * iters) by (nonlinear_arith)
                requires
                    n >= 1,
                    iters >= 1,
            ;
            2 * n * n * n * iters
        },
        KernelType::Transpose | KernelType::Elementwise => {
            if n == 0 || iters == 0 {
                assert(2 * nn * nn * it == 0) by (nonlinear_arith)
                    requires
                        nn == 0 || it == 0,
                ;
                return 0;
            }
            assert(2 * n <= 2 * n * n * iters && 2 * n * n <= 2 * n * n * iters) by (nonlinear_arith)
                requires
                    n >= 1,
                    iters >= 1,
            ;
            2 * n * n * iters
        },
        KernelType::IntAlu => {
            if n == 0 || iters == 0 {
                assert(nn * nn * 64 * it == 0) by (nonlinear_arith)
                    requires
                        nn == 0 || it == 0,
                ;
                return 0;
            }
            assert(n * n <= n * n * INTALU_OPS_PER_ELEM * iters && n * n * INTALU_OPS_PER_ELEM
                <= n * n * INTALU_OPS_PER_ELEM * iters) by (nonlinear_arith)
                requires
                    n >= 1,
                    iters >= 1,
                    INTALU_OPS_PER_ELEM == 64,
            ;
            n * n * INTALU_OPS_PER_ELEM * iters
        },
        _ => {
            if n == 0 || iters == 0 {
                assert(nn * nn * it == 0) by (nonlinear_arith)
                    requires
                        nn == 0 || it == 0,
                ;
                return 0;
            }
            assert(n * n <= n * n * iters) by (nonlinear_arith)
                requires
                    n >= 1,
                    iters >= 1,
            ;
            n * n * iters
        },
    }
}

// ---------------------------------------------------------------------------
// Golden-trial precisions
// ---------------------------------------------------------------------------

/// Precisions of the golden-result GEMM trials.
#[derive(Clone, Copy, Debug, PartialEq, Eq, Structural)]
pub enum Precision {
    Fp32,
    Fp16,
    Tf32,
    Fp64,
    Bf16,
}

/// Upper-case name of a trial precision.
pub open spec fn precision_label(p: Precision) -> Seq<char> {
    match p {
        Precision::Fp32 => "FP32"@,
        Precision::Fp16 => "FP16"@,
        Precision::Tf32 => "TF32"@,
        Precision::Fp64 => "FP64"@,
        Precision::Bf16 => "BF16"@,
    }
}

impl Precision {
    /// Upper-case name of the precision.
    pub fn as_str(&self) -> (s: &'static str)
        ensures
            s@ == precision_label(*self),
    {
        match self {
            Precision::Fp32 => "FP32",
            Precision::Fp16 => "FP16",
            Precision::Tf32 => "TF32",
            Precision::Fp64 => "FP64",
            Precision::Bf16 => "BF16",
        }
    }

    /// Whether the GEMM path is bit-reproducible at this precision (all but
    /// TF32).
    pub fn is_deterministic(&self) -> (b: bool)
        ensures
            b == (*self != Precision::Tf32),
    {
        match self {
            Precision::Tf32 => false,
            _ => true,
        }
    }
}

// ---------------------------------------------------------------------------
// Device-specific choices
// ---------------------------------------------------------------------------

/// The virtual architecture the IntAlu kernel is compiled for:
/// `compute_<major><minor>` of the device (SM 7.5 when unknown), capped at
/// SM 9.0.
pub open spec fn nvrtc_arch_spec(info: DeviceInfo) -> Seq<char> {
    let sm = match info.compute_capability {
        Some(sm) => sm,
        None => (7i32, 5i32),
    };
    let t = if sm.0 >= 9 {
        (9i32, 0i32)
    } else {
        sm
    };
    "compute_"@ + decimal_int(t.0 as int) + decimal_int(t.1 as int)
}

/// The compile target of the IntAlu kernel for a device.
pub fn nvrtc_arch_for(info: &DeviceInfo) -> (s: String)
    ensures
        s@ == nvrtc_arch_spec(*info),
{
    let (maj, min) = match info.compute_capability {
        Some(sm) => sm,
        None => (7, 5),
    };
    let (tmaj, tmin) = if maj >= 9 {
        (9, 0)
    } else {
        (maj, min)
    };
    let a = decimal_int_chars(tmaj as i64);
    let b = decimal_int_chars(tmin as i64);
    let ab = concat(a.as_slice(), b.as_slice());
    message("compute_", ab.as_slice())
}

/// The warning for INT8 GEMM without tensor cores: the slower scalar/DP4A
/// path is still valid stress.
pub open spec fn int8_warning_text(sm: (i32, i32)) -> Seq<char> {
    "INT8 GEMM tensor cores (IMMA) require SM>=7.5 (detected SM"@ + decimal_int(sm.0 as int)
        + "."@ + decimal_int(sm.1 as int)
        + "); cuBLAS will use a scalar/DP4A INT8 path (slower, but valid stress)"@
}

/// The INT8 tensor-core warning, when INT8 is requested on a device
/// without INT8 tensor cores.
pub fn int8_tensor_op_warning(precisions: &[PrecisionSpec], info: &DeviceInfo) -> (r: Option<String>)
    ensures
        ({
            let wants = exists|i: int|
                0 <= i < precisions@.len() && (#[trigger] precisions@[i]).kind == PrecisionKind::INT8;
            let sm = sm_of(*info);
            let imma = sm.0 > 7 || (sm.0 == 7 && sm.1 >= 5);
            if wants && !imma {
                r matches Some(m) && m@ == int8_warning_text(sm)
            } else {
                r is None
            }
        }),
{
    let mut wants = false;
    let mut i: usize = 0;
    while i < precisions.len()
        invariant
            i <= precisions@.len(),
            wants == exists|j: int|
                0 <= j < i && (#[trigger] precisions@[j]).kind == PrecisionKind::INT8,
        decreases precisions@.len() - i,
    {
        if precisions[i].kind == PrecisionKind::INT8 {
            wants = true;
        }
        i = i + 1;
    }
    if !wants || has_int8_tensor_cores(info) {
        return None;
    }
    let sm = match info.compute_capability {
        Some(sm) => sm,
        None => (0, 0),
    };
    let a = decimal_int_chars(sm.0 as i64);
    let dot = chars_of(".");
    let b = decimal_int_chars(sm.1 as i64);
    let tail = chars_of("); cuBLAS will use a scalar/DP4A INT8 path (slower, but valid stress)");
    let s1 = concat(a.as_slice(), dot.as_slice());
    let s2 = concat(s1.as_slice(), b.as_slice());
    let s3 = concat(s2.as_slice(), tail.as_slice());
    let m = message("INT8 GEMM tensor cores (IMMA) require SM>=7.5 (detected SM", s3.as_slice());
    assert(m@ =~= int8_warning_text(sm));
    Some(m)
}

/// The display name of a kernel type parses back to that kernel type.
pub proof fn lemma_kernel_label_round_trip(k: KernelType)
    ensures
        parse_kernel_type_spec(kernel_label(k)) == Ok::<KernelType, Seq<char>>(k),
{
    reveal_strlit("gemm");
    reveal_strlit("memcpy");
    reveal_strlit("copy");
    reveal_strlit("clone");
    reveal_strlit("memset");
    reveal_strlit("fill");
    reveal_strlit("transpose");
    reveal_strlit("elementwise");
    reveal_strlit("elem");
    reveal_strlit("add");
    reveal_strlit("reduction");
    reveal_strlit("reduce");
    reveal_strlit("sum");
    reveal_strlit("atomic");
    reveal_strlit("intalu");
    reveal_strlit("ialu");
    reveal_strlit("int");
    match k {
        KernelType::Gemm => {
            reveal_strlit("GEMM");
            reveal_strlit("gemm");
            assert(lower(trim("GEMM"@)) =~= "gemm"@);
            assert(parse_kernel_type_spec(kernel_label(k)) == Ok::<KernelType, Seq<char>>(k));
        },
        KernelType::Memcpy => {
            reveal_strlit("MEMCPY");
            reveal_strlit("memcpy");
            assert(lower(trim("MEMCPY"@)) =~= "memcpy"@);
            assert(parse_kernel_type_spec(kernel_label(k)) == Ok::<KernelType, Seq<char>>(k));
        },
        KernelType::Memset => {
            reveal_strlit("MEMSET");
            reveal_strlit("memset");
            assert(lower(trim("MEMSET"@)) =~= "memset"@);
            assert("memset"@[3] != "memcpy"@[3]);
            assert(parse_kernel_type_spec(kernel_label(k)) == Ok::<KernelType, Seq<char>>(k));
        },
        KernelType::Transpose => {
            reveal_strlit("TRANSPOSE");
            reveal_strlit("transpose");
            assert(lower(trim("TRANSPOSE"@)) =~= "transpose"@);
            assert(parse_kernel_type_spec(kernel_label(k)) == Ok::<KernelType, Seq<char>>(k));
        },
        KernelType::Elementwise => {
            reveal_strlit("ELEMENTWISE");
            reveal_strlit("elementwise");
            assert(lower(trim("ELEMENTWISE"@)) =~= "elementwise"@);
            assert(parse_kernel_type_spec(kernel_label(k)) == Ok::<KernelType, Seq<char>>(k));
        },
        KernelType::Reduction => {
            reveal_strlit("REDUCTION");
            reveal_strlit("reduction");
            assert(lower(trim("REDUCTION"@)) =~= "reduction"@);
            assert("reduction"@[0] != "transpose"@[0]);
            assert(parse_kernel_type_spec(kernel_label(k)) == Ok::<KernelType, Seq<char>>(k));
        },
        KernelType::Atomic => {
            reveal_strlit("ATOMIC");
            reveal_strlit("atomic");
            assert(lower(trim("ATOMIC"@)) =~= "atomic"@);
            assert("atomic"@[0] != "memcpy"@[0]);
            assert("atomic"@[0] != "memset"@[0]);
            assert("atomic"@[0] != "reduce"@[0]);
            assert(parse_kernel_type_spec(kernel_label(k)) == Ok::<KernelType, Seq<char>>(k));
        },
        KernelType::IntAlu => {
            reveal_strlit("INTALU");
            reveal_strlit("intalu");
            assert(lower(trim("INTALU"@)) =~= "intalu"@);
            assert("intalu"@[0] != "memcpy"@[0]);
            assert("intalu"@[0] != "memset"@[0]);
            assert("intalu"@[0] != "reduce"@[0]);
            assert("intalu"@[0] != "atomic"@[0]);
            assert(parse_kernel_type_spec(kernel_label(k)) == Ok::<KernelType, Seq<char>>(k));
        },
    }
}

/// A stream mode named by its number runs that many streams, and its word names the same mode: `single`/`1`, `dual`/`2`, `triple`/`3`.
pub proof fn lemma_stream_mode_words()
    ensures
        stream_count_spec(StreamMode::Single) == 1,
        stream_count_spec(StreamMode::Dual) == 2,
        stream_count_spec(StreamMode::Triple) == 3,
        parse_stream_mode_spec("single"@) == Ok::<StreamMode, Seq<char>>(StreamMode::Single),
        parse_stream_mode_spec("1"@) == Ok::<StreamMode, Seq<char>>(StreamMode::Single),
        parse_stream_mode_spec("dual"@) == Ok::<StreamMode, Seq<char>>(StreamMode::Dual),
        parse_stream_mode_spec("2"@) == Ok::<StreamMode, Seq<char>>(StreamMode::Dual),
        parse_stream_mode_spec("triple"@) == Ok::<StreamMode, Seq<char>>(StreamMode::Triple),
        parse_stream_mode_spec("3"@) == Ok::<StreamMode, Seq<char>>(StreamMode::Triple),
{
    reveal_strlit("1");
    reveal_strlit("2");
    reveal_strlit("3");
    reveal_strlit("dual");
    reveal_strlit("single");
    reveal_strlit("triple");
    assert("1"@.len() == 1);
    assert("2"@.len() == 1);
    assert("3"@.len() == 1);
    assert("dual"@.len() == 4);
    assert("single"@.len() == 6);
    assert("triple"@.len() == 6);
    assert(lower(trim("single"@)) =~= "single"@);
    assert(lower(trim("1"@)) =~= "1"@);
    assert(lower(trim("dual"@)) =~= "dual"@);
    assert("2"@[0] != "1"@[0]);
    assert(lower(trim("2"@)) =~= "2"@);
    assert("triple"@[0] != "single"@[0]);
    assert(lower(trim("triple"@)) =~= "triple"@);
    assert("3"@[0] != "1"@[0]);
    assert("3"@[0] != "2"@[0]);
    assert(lower(trim("3"@)) =~= "3"@);
}

/// The aliases of each kernel type read as that kernel type.
pub proof fn lemma_kernel_type_aliases()
    ensures
        parse_kernel_type_spec("copy"@) == Ok::<KernelType, Seq<char>>(KernelType::Memcpy),
        parse_kernel_type_spec("clone"@) == Ok::<KernelType, Seq<char>>(KernelType::Memcpy),
        parse_kernel_type_spec("fill"@) == Ok::<KernelType, Seq<char>>(KernelType::Memset),
        parse_kernel_type_spec("elem"@) == Ok::<KernelType, Seq<char>>(KernelType::Elementwise),
        parse_kernel_type_spec("add"@) == Ok::<KernelType, Seq<char>>(KernelType::Elementwise),
        parse_kernel_type_spec("reduce"@) == Ok::<KernelType, Seq<char>>(KernelType::Reduction),
        parse_kernel_type_spec("sum"@) == Ok::<KernelType, Seq<char>>(KernelType::Reduction),
        parse_kernel_type_spec("ialu"@) == Ok::<KernelType, Seq<char>>(KernelType::IntAlu),
        parse_kernel_type_spec("int"@) == Ok::<KernelType, Seq<char>>(KernelType::IntAlu),
{
    reveal_strlit("add");
    reveal_strlit("atomic");
    reveal_strlit("clone");
    reveal_strlit("copy");
    reveal_strlit("elem");
    reveal_strlit("elementwise");
    reveal_strlit("fill");
    reveal_strlit("gemm");
    reveal_strlit("ialu");
    reveal_strlit("int");
    reveal_strlit("intalu");
    reveal_strlit("memcpy");
    reveal_strlit("memset");
    reveal_strlit("reduce");
    reveal_strlit("reduction");
    reveal_strlit("sum");
    reveal_strlit("transpose");
    assert("add"@.len() == 3);
    assert("atomic"@.len() == 6);
    assert("clone"@.len() == 5);
    assert("copy"@.len() == 4);
    assert("elem"@.len() == 4);
    assert("elementwise"@.len() == 11);
    assert("fill"@.len() == 4);
    assert("gemm"@.len() == 4);
    assert("ialu"@.len() == 4);
    assert("int"@.len() == 3);
    assert("intalu"@.len() == 6);
    assert("memcpy"@.len() == 6);
    assert("memset"@.len() == 6);
    assert("reduce"@.len() == 6);
    assert("reduction"@.len() == 9);
    assert("sum"@.len() == 3);
    assert("transpose"@.len() == 9);
    assert("copy"@[0] != "gemm"@[0]);
    assert(lower(trim("copy"@)) =~= "copy"@);
    assert(lower(trim("clone"@)) =~= "clone"@);
    assert("fill"@[0] != "gemm"@[0]);
    assert("fill"@[0] != "copy"@[0]);
    assert(lower(trim("fill"@)) =~= "fill"@);
    assert("elem"@[0] != "gemm"@[0]);
    assert("elem"@[0] != "copy"@[0]);
    assert("elem"@[0] != "fill"@[0]);
    assert(lower(trim("elem"@)) =~= "elem"@);
    assert(lower(trim("add"@)) =~= "add"@);
    assert("reduce"@[0] != "memcpy"@[0]);
    assert("reduce"@[0] != "memset"@[0]);
    assert(lower(trim("reduce"@)) =~= "reduce"@);
    assert("sum"@[0] != "add"@[0]);
    assert(lower(trim("sum"@)) =~= "sum"@);
    assert("ialu"@[0] != "gemm"@[0]);
    assert("ialu"@[0] != "copy"@[0]);
    assert("ialu"@[0] != "fill"@[0]);
    assert("ialu"@[0] != "elem"@[0]);
    assert(lower(trim("ialu"@)) =~= "ialu"@);
    assert("int"@[0] != "add"@[0]);
    assert("int"@[0] != "sum"@[0]);
    assert(lower(trim("int"@)) =~= "int"@);
}

} // verus!
