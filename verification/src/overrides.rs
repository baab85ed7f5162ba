//! Per-kernel parameter overrides: merging the profile's with the command
//! line's, resolving a kernel's effective parameters, and dropping the
//! precisions a device cannot run. `W` is the numeric type of weights and
//! rates; it is carried through unread.
use vstd::prelude::*;

use crate::stress::{
    kernel_label, supports_precision_spec, DeviceInfo, KernelParamOverride, KernelType,
    PrecisionMixtureEntry, PrecisionSpec,
};
use crate::text::{chars_of, concat, message};

verus! {

// ---------------------------------------------------------------------------
// Merging
// ---------------------------------------------------------------------------

/// An override with every field `c` sets taken from `c`, the others from `m`.
pub open spec fn overlay<W>(m: KernelParamOverride<W>, c: KernelParamOverride<W>) -> KernelParamOverride<W> {
    KernelParamOverride {
        kind: m.kind,
        precisions: if c.precisions is Some {
            c.precisions
        } else {
            m.precisions
        },
        precision_mixture: if c.precision_mixture is Some {
            c.precision_mixture
        } else {
            m.precision_mixture
        },
        matrix_sizes: if c.matrix_sizes is Some {
            c.matrix_sizes
        } else {
            m.matrix_sizes
        },
        warmup_iters: if c.warmup_iters is Some {
            c.warmup_iters
        } else {
            m.warmup_iters
        },
        burst_iters: if c.burst_iters is Some {
            c.burst_iters
        } else {
            m.burst_iters
        },
        transpose_prob: if c.transpose_prob is Some {
            c.transpose_prob
        } else {
            m.transpose_prob
        },
        minor_mixture_rate: if c.minor_mixture_rate is Some {
            c.minor_mixture_rate
        } else {
            m.minor_mixture_rate
        },
    }
}

/// Position of the first override for kernel `k`.
pub open spec fn first_of_kind<W>(ms: Seq<KernelParamOverride<W>>, k: KernelType) -> Option<int>
    decreases ms.len(),
{
    if ms.len() == 0 {
        None
    } else if ms[0].kind == k {
        Some(0)
    } else {
        match first_of_kind(ms.drop_first(), k) {
            Some(i) => Some(i + 1),
            None => None,
        }
    }
}

/// The command line's overrides laid over the profile's, one at a time: an
/// override for a kernel already present updates the first such entry
/// field by field; one for a new kernel is appended.
pub open spec fn merge_spec<W>(base: Seq<KernelParamOverride<W>>, cli: Seq<KernelParamOverride<W>>) -> Seq<
    KernelParamOverride<W>,
>
    decreases cli.len(),
{
    if cli.len() == 0 {
        base
    } else {
        let m = merge_spec(base, cli.drop_last());
        let c = cli.last();
        match first_of_kind(m, c.kind) {
            Some(i) => m.update(i, overlay(m[i], c)),
            None => m.push(c),
        }
    }
}

proof fn lemma_first_of_kind<W>(ms: Seq<KernelParamOverride<W>>, k: KernelType, i: int)
    requires
        0 <= i <= ms.len(),
        forall|j: int| 0 <= j < i ==> ms[j].kind != k,
    ensures
        i < ms.len() && ms[i].kind == k ==> first_of_kind(ms, k) == Some(i),
        i == ms.len() ==> first_of_kind(ms, k) is None,
    decreases i,
{
    if i > 0 {
        lemma_first_of_kind(ms.drop_first(), k, i - 1);
    }
}

fn find_kind<W>(ms: &Vec<KernelParamOverride<W>>, k: KernelType) -> (r: Option<usize>)
    ensures
        match r {
            Some(i) => first_of_kind(ms@, k) == Some(i as int) && i < ms@.len(),
            None => first_of_kind(ms@, k) is None,
        },
{
    let mut i: usize = 0;
    while i < ms.len()
        invariant
            i <= ms@.len(),
            forall|j: int| 0 <= j < i ==> ms@[j].kind != k,
        decreases ms@.len() - i,
    {
        if ms[i].kind == k {
            proof {
                lemma_first_of_kind(ms@, k, i as int);
            }
            return Some(i);
        }
        i = i + 1;
    }
    proof {
        lemma_first_of_kind(ms@, k, ms@.len() as int);
    }
    None
}

fn overlay_exec<W>(m: KernelParamOverride<W>, c: KernelParamOverride<W>) -> (r: KernelParamOverride<
    W,
>)
    ensures
        r == overlay(m, c),
{
    KernelParamOverride {
        kind: m.kind,
        precisions: if c.precisions.is_some() {
            c.precisions
        } else {
            m.precisions
        },
        precision_mixture: if c.precision_mixture.is_some() {
            c.precision_mixture
        } else {
            m.precision_mixture
        },
        matrix_sizes: if c.matrix_sizes.is_some() {
            c.matrix_sizes
        } else {
            m.matrix_sizes
        },
        warmup_iters: if c.warmup_iters.is_some() {
            c.warmup_iters
        } else {
            m.warmup_iters
        },
        burst_iters: if c.burst_iters.is_some() {
            c.burst_iters
        } else {
            m.burst_iters
        },
        transpose_prob: if c.transpose_prob.is_some() {
            c.transpose_prob
        } else {
            m.transpose_prob
        },
        minor_mixture_rate: if c.minor_mixture_rate.is_some() {
            c.minor_mixture_rate
        } else {
            m.minor_mixture_rate
        },
    }
}

/// Whether some override in `ms` is for kernel `k`.
pub open spec fn has_kind<W>(ms: Seq<KernelParamOverride<W>>, k: KernelType) -> bool {
    exists|j: int| 0 <= j < ms.len() && (#[trigger] ms[j]).kind == k
}

proof fn lemma_first_of_kind_some<W>(ms: Seq<KernelParamOverride<W>>, k: KernelType)
    ensures
        (first_of_kind(ms, k) is Some) == has_kind(ms, k),
        first_of_kind(ms, k) matches Some(i) ==> 0 <= i < ms.len() && ms[i].kind == k,
    decreases ms.len(),
{
    if ms.len() > 0 {
        lemma_first_of_kind_some(ms.drop_first(), k);
        if has_kind(ms, k) && ms[0].kind != k {
            let j = choose|j: int| 0 <= j < ms.len() && (#[trigger] ms[j]).kind == k;
            assert(ms.drop_first()[j - 1].kind == k);
        }
        if has_kind(ms.drop_first(), k) {
            let j = choose|j: int| 0 <= j < ms.drop_first().len() && (#[trigger] ms.drop_first()[j]).kind
                == k;
            assert(ms[j + 1].kind == k);
        }
    }
}

/// Merging loses no kernel and invents none: the merged list has an
/// override for a kernel exactly when the profile's or the command line's
/// list has one.
pub proof fn lemma_merge_keeps_kernels<W>(
    base: Seq<KernelParamOverride<W>>,
    cli: Seq<KernelParamOverride<W>>,
    k: KernelType,
)
    ensures
        has_kind(merge_spec(base, cli), k) == (has_kind(base, k) || has_kind(cli, k)),
    decreases cli.len(),
{
    if cli.len() > 0 {
        let rest = cli.drop_last();
        let c = cli.last();
        lemma_merge_keeps_kernels(base, rest, k);
        let m = merge_spec(base, rest);
        lemma_first_of_kind_some(m, c.kind);
        if has_kind(rest, k) {
            let j = choose|j: int| 0 <= j < rest.len() && (#[trigger] rest[j]).kind == k;
            assert(cli[j].kind == k);
        }
        if has_kind(cli, k) && c.kind != k {
            let j = choose|j: int| 0 <= j < cli.len() && (#[trigger] cli[j]).kind == k;
            assert(rest[j].kind == k);
        }
        match first_of_kind(m, c.kind) {
            Some(i) => {
                let r = m.update(i, overlay(m[i], c));
                if has_kind(m, k) {
                    let j = choose|j: int| 0 <= j < m.len() && (#[trigger] m[j]).kind == k;
                    assert(r[j].kind == k);
                }
                if has_kind(r, k) {
                    let j = choose|j: int| 0 <= j < r.len() && (#[trigger] r[j]).kind == k;
                    assert(m[j].kind == k);
                }
            },
            None => {
                let r = m.push(c);
                if has_kind(m, k) {
                    let j = choose|j: int| 0 <= j < m.len() && (#[trigger] m[j]).kind == k;
                    assert(r[j].kind == k);
                }
                if c.kind == k {
                    assert(r[m.len() as int].kind == k);
                }
                if has_kind(r, k) && c.kind != k {
                    let j = choose|j: int| 0 <= j < r.len() && (#[trigger] r[j]).kind == k;
                    assert(m[j].kind == k);
                }
            },
        }
    }
}

/// Lays the command line's overrides over the profile's (see
/// [`merge_spec`]).
pub fn merge_kernel_overrides<W>(
    base: Vec<KernelParamOverride<W>>,
    cli: Vec<KernelParamOverride<W>>,
) -> (merged: Vec<KernelParamOverride<W>>)
    ensures
        merged@ == merge_spec(base@, cli@),
{
    let ghost all = cli@;
    let n = cli.len();
    let mut rest = cli;
    let mut rev: Vec<KernelParamOverride<W>> = Vec::new();
    while rest.len() > 0
        invariant
            all.len() == n,
            rev@.len() + rest@.len() == n,
            rest@ == all.take(rest@.len() as int),
            forall|j: int| 0 <= j < rev@.len() ==> #[trigger] rev@[j] == all[n - 1 - j],
        decreases rest@.len(),
    {
        let item = rest.pop().unwrap();
        rev.push(item);
        assert(rest@ =~= all.take(rest@.len() as int));
    }
    let mut merged = base;
    let ghost b0 = merged@;
    assert(all.take(0) =~= Seq::<KernelParamOverride<W>>::empty());
    while rev.len() > 0
        invariant
            all.len() == n,
            rev@.len() <= n,
            forall|j: int| 0 <= j < rev@.len() ==> #[trigger] rev@[j] == all[n - 1 - j],
            merged@ == merge_spec(b0, all.take(n - rev@.len())),
        decreases rev@.len(),
    {
        let ghost done = n - rev@.len();
        let c = rev.pop().unwrap();
        assert(c == all[done]);
        assert(all.take(done + 1).drop_last() =~= all.take(done));
        assert(all.take(done + 1).last() == c);
        match find_kind(&merged, c.kind) {
            Some(i) => {
                let m = merged.remove(i);
                let ghost before = merged@;
                let o = overlay_exec(m, c);
                merged.insert(i, o);
                assert(merged@ =~= merge_spec(b0, all.take(done + 1)));
            },
            None => {
                merged.push(c);
            },
        }
    }
    assert(all.take(n as int) =~= all);
    merged
}

// ---------------------------------------------------------------------------
// Resolution
// ---------------------------------------------------------------------------

/// A kernel's effective parameters.
#[derive(Clone, Debug)]
pub struct ResolvedKernelParams<W> {
    pub precisions: Option<Vec<PrecisionSpec>>,
    pub precision_mixture: Option<Vec<PrecisionMixtureEntry<W>>>,
    pub matrix_sizes: Vec<usize>,
    /// Whether the sizes are the run-wide ones (no override set them).
    pub matrix_sizes_default: bool,
    pub warmup_iters: u32,
    pub burst_iters: u32,
    pub transpose_prob: W,
    pub minor_mixture_rate: W,
}

/// The run-wide settings a kernel falls back to.
#[derive(Clone, Debug)]
pub struct RunDefaults<W> {
    pub matrix_sizes: Vec<usize>,
    pub warmup_iters: u32,
    pub burst_iters: u32,
    pub transpose_prob: W,
    pub minor_mixture_rate: W,
}

/// The value an optional override sets, else the default.
pub open spec fn or_default<T>(o: Option<T>, d: T) -> T {
    match o {
        Some(v) => v,
        None => d,
    }
}

/// Whether `r` holds the parameters of kernel `kind`: the first override
/// for it sets what it sets, the run-wide settings give the rest.
pub open spec fn resolved_spec<W>(
    kind: KernelType,
    overrides: Seq<KernelParamOverride<W>>,
    defaults: RunDefaults<W>,
    r: ResolvedKernelParams<W>,
) -> bool {
    match first_of_kind(overrides, kind) {
        Some(i) => {
            let o = overrides[i];
            &&& opt_vec_view(r.precisions) == opt_vec_view(o.precisions)
            &&& opt_vec_view(r.precision_mixture) == opt_vec_view(o.precision_mixture)
            &&& r.matrix_sizes@ == (match o.matrix_sizes {
                Some(v) => v@,
                None => defaults.matrix_sizes@,
            })
            &&& r.matrix_sizes_default == (o.matrix_sizes is None)
            &&& r.warmup_iters == or_default(o.warmup_iters, defaults.warmup_iters)
            &&& r.burst_iters == or_default(o.burst_iters, defaults.burst_iters)
            &&& r.transpose_prob == or_default(o.transpose_prob, defaults.transpose_prob)
            &&& r.minor_mixture_rate == or_default(o.minor_mixture_rate, defaults.minor_mixture_rate)
        },
        None => {
            &&& r.precisions is None
            &&& r.precision_mixture is None
            &&& r.matrix_sizes@ == defaults.matrix_sizes@
            &&& r.matrix_sizes_default
            &&& r.warmup_iters == defaults.warmup_iters
            &&& r.burst_iters == defaults.burst_iters
            &&& r.transpose_prob == defaults.transpose_prob
            &&& r.minor_mixture_rate == defaults.minor_mixture_rate
        },
    }
}

/// The elements of an optional vector.
pub open spec fn opt_vec_view<T>(o: Option<Vec<T>>) -> Option<Seq<T>> {
    match o {
        Some(v) => Some(v@),
        None => None,
    }
}

fn copy_vec<T: Copy>(v: &Vec<T>) -> (out: Vec<T>)
    ensures
        out@ == v@,
{
    let mut out: Vec<T> = Vec::new();
    let mut i: usize = 0;
    while i < v.len()
        invariant
            i <= v@.len(),
            out@ == v@.take(i as int),
        decreases v@.len() - i,
    {
        out.push(v[i]);
        i = i + 1;
        assert(out@ =~= v@.take(i as int));
    }
    assert(v@.take(v@.len() as int) =~= v@);
    out
}

fn copy_opt_vec<T: Copy>(o: &Option<Vec<T>>) -> (out: Option<Vec<T>>)
    ensures
        opt_vec_view(out) == opt_vec_view(*o),
{
    match o {
        Some(v) => Some(copy_vec(v)),
        None => None,
    }
}

/// The effective parameters of kernel `kind` (see [`resolved_spec`]).
pub fn resolve_kernel_params<W: Copy>(
    kind: KernelType,
    overrides: &[KernelParamOverride<W>],
    defaults: &RunDefaults<W>,
) -> (r: ResolvedKernelParams<W>)
    ensures
        resolved_spec(kind, overrides@, *defaults, r),
{
    let mut i: usize = 0;
    while i < overrides.len()
        invariant
            i <= overrides@.len(),
            forall|j: int| 0 <= j < i ==> overrides@[j].kind != kind,
        decreases overrides@.len() - i,
    {
        if overrides[i].kind == kind {
            proof {
                lemma_first_of_kind(overrides@, kind, i as int);
            }
            let o = &overrides[i];
            let matrix_sizes = match &o.matrix_sizes {
                Some(v) => copy_vec(v),
                None => copy_vec(&defaults.matrix_sizes),
            };
            return ResolvedKernelParams {
                precisions: copy_opt_vec(&o.precisions),
                precision_mixture: copy_opt_vec(&o.precision_mixture),
                matrix_sizes,
                matrix_sizes_default: o.matrix_sizes.is_none(),
                warmup_iters: match o.warmup_iters {
                    Some(v) => v,
                    None => defaults.warmup_iters,
                },
                burst_iters: match o.burst_iters {
                    Some(v) => v,
                    None => defaults.burst_iters,
                },
                transpose_prob: match o.transpose_prob {
                    Some(v) => v,
                    None => defaults.transpose_prob,
                },
                minor_mixture_rate: match o.minor_mixture_rate {
                    Some(v) => v,
                    None => defaults.minor_mixture_rate,
                },
            };
        }
        i = i + 1;
    }
    proof {
        lemma_first_of_kind(overrides@, kind, overrides@.len() as int);
    }
    ResolvedKernelParams {
        precisions: None,
        precision_mixture: None,
        matrix_sizes: copy_vec(&defaults.matrix_sizes),
        matrix_sizes_default: true,
        warmup_iters: defaults.warmup_iters,
        burst_iters: defaults.burst_iters,
        transpose_prob: defaults.transpose_prob,
        minor_mixture_rate: defaults.minor_mixture_rate,
    }
}

// ---------------------------------------------------------------------------
// Device filtering
// ---------------------------------------------------------------------------

/// Whether the device runs a precision.
pub open spec fn runs(info: DeviceInfo, s: PrecisionSpec) -> bool {
    supports_precision_spec(info, s.kind) is Ok
}

/// `Kernel <KIND> precision <NAME> unsupported on this device, skipping it`.
pub open spec fn skip_note(kind: KernelType, s: PrecisionSpec) -> Seq<char> {
    "Kernel "@ + kernel_label(kind) + " precision "@ + s.name@
        + " unsupported on this device, skipping it"@
}

/// A filtered list: `None` when nothing is left.
pub open spec fn none_if_empty<T>(s: Seq<T>) -> Option<Seq<T>> {
    if s.len() == 0 {
        None
    } else {
        Some(s)
    }
}

/// The override with the precisions the device cannot run dropped from its
/// list and its mixture (a list left empty becomes unset).
pub open spec fn filtered_spec<W>(info: DeviceInfo, o: KernelParamOverride<W>, r: KernelParamOverride<W>) -> bool {
    &&& r.kind == o.kind
    &&& opt_vec_view(r.precisions) == match o.precisions {
        Some(v) => none_if_empty(v@.filter(|s: PrecisionSpec| runs(info, s))),
        None => None,
    }
    &&& opt_vec_view(r.precision_mixture) == match o.precision_mixture {
        Some(v) => none_if_empty(v@.filter(|e: PrecisionMixtureEntry<W>| runs(info, e.spec))),
        None => None,
    }
    &&& opt_vec_view(r.matrix_sizes) == opt_vec_view(o.matrix_sizes)
    &&& r.warmup_iters == o.warmup_iters
    &&& r.burst_iters == o.burst_iters
    &&& r.transpose_prob == o.transpose_prob
    &&& r.minor_mixture_rate == o.minor_mixture_rate
}

/// The notes for the precisions of one override that are dropped: list
/// first, then mixture, in order.
pub open spec fn skip_notes<W>(info: DeviceInfo, o: KernelParamOverride<W>) -> Seq<Seq<char>> {
    (match o.precisions {
        Some(v) => v@.filter(|s: PrecisionSpec| !runs(info, s)).map_values(
            |s: PrecisionSpec| skip_note(o.kind, s),
        ),
        None => Seq::empty(),
    }) + (match o.precision_mixture {
        Some(v) => v@.filter(|e: PrecisionMixtureEntry<W>| !runs(info, e.spec)).map_values(
            |e: PrecisionMixtureEntry<W>| skip_note(o.kind, e.spec),
        ),
        None => Seq::empty(),
    })
}

/// All notes of a list of overrides, in order.
pub open spec fn all_skip_notes<W>(info: DeviceInfo, os: Seq<KernelParamOverride<W>>) -> Seq<Seq<char>>
    decreases os.len(),
{
    if os.len() == 0 {
        Seq::empty()
    } else {
        all_skip_notes(info, os.drop_last()) + skip_notes(info, os.last())
    }
}

fn note(kind: KernelType, s: &PrecisionSpec) -> (m: String)
    ensures
        m@ == skip_note(kind, *s),
{
    let k = chars_of(kind.as_str());
    let p = chars_of(" precision ");
    let n = chars_of(s.name);
    let t = chars_of(" unsupported on this device, skipping it");
    let a = concat(k.as_slice(), p.as_slice());
    let b = concat(a.as_slice(), n.as_slice());
    let c = concat(b.as_slice(), t.as_slice());
    let m = message("Kernel ", c.as_slice());
    assert(m@ =~= skip_note(kind, *s));
    m
}

fn filter_specs(info: &DeviceInfo, kind: KernelType, specs: &Vec<PrecisionSpec>, notes: &mut Vec<String>) -> (out: Vec<PrecisionSpec>)
    ensures
        out@ == specs@.filter(|s: PrecisionSpec| runs(*info, s)),
        crate::text::strings_view(final(notes)@) == crate::text::strings_view(old(notes)@) + specs@.filter(
            |s: PrecisionSpec| !runs(*info, s),
        ).map_values(|s: PrecisionSpec| skip_note(kind, s)),
{
    let ghost keep = |s: PrecisionSpec| runs(*info, s);
    let ghost drop = |s: PrecisionSpec| !runs(*info, s);
    let ghost n0 = crate::text::strings_view(notes@);
    let mut out: Vec<PrecisionSpec> = Vec::new();
    let mut i: usize = 0;
    assert(specs@.take(0) =~= Seq::<PrecisionSpec>::empty());
    while i < specs.len()
        invariant
            i <= specs@.len(),
            keep == (|s: PrecisionSpec| runs(*info, s)),
            drop == (|s: PrecisionSpec| !runs(*info, s)),
            out@ == specs@.take(i as int).filter(keep),
            crate::text::strings_view(notes@) == n0 + specs@.take(i as int).filter(drop).map_values(
                |s: PrecisionSpec| skip_note(kind, s),
            ),
        decreases specs@.len() - i,
    {
        proof {
            reveal_with_fuel(Seq::filter, 1);
            assert(specs@.take(i as int + 1).drop_last() =~= specs@.take(i as int));
        }
        let s = specs[i];
        let ghost before = specs@.take(i as int).filter(drop);
        if info.supports_precision(&s).is_ok() {
            out.push(s);
            assert(specs@.take(i as int + 1).filter(drop) == before);
        } else {
            let ghost nb = crate::text::strings_view(notes@);
            notes.push(note(kind, &s));
            assert(specs@.take(i as int + 1).filter(drop) == before.push(s));
            assert(before.push(s).map_values(|s: PrecisionSpec| skip_note(kind, s)) =~= before.map_values(
                |s: PrecisionSpec| skip_note(kind, s),
            ).push(skip_note(kind, s)));
            assert(crate::text::strings_view(notes@) =~= nb.push(skip_note(kind, s)));
        }
        i = i + 1;
    }
    assert(specs@.take(specs@.len() as int) =~= specs@);
    out
}

fn filter_mixture<W: Copy>(
    info: &DeviceInfo,
    kind: KernelType,
    mix: &Vec<PrecisionMixtureEntry<W>>,
    notes: &mut Vec<String>,
) -> (out: Vec<PrecisionMixtureEntry<W>>)
    ensures
        out@ == mix@.filter(|e: PrecisionMixtureEntry<W>| runs(*info, e.spec)),
        crate::text::strings_view(final(notes)@) == crate::text::strings_view(old(notes)@) + mix@.filter(
            |e: PrecisionMixtureEntry<W>| !runs(*info, e.spec),
        ).map_values(|e: PrecisionMixtureEntry<W>| skip_note(kind, e.spec)),
{
    let ghost keep = |e: PrecisionMixtureEntry<W>| runs(*info, e.spec);
    let ghost drop = |e: PrecisionMixtureEntry<W>| !runs(*info, e.spec);
    let ghost n0 = crate::text::strings_view(notes@);
    let mut out: Vec<PrecisionMixtureEntry<W>> = Vec::new();
    let mut i: usize = 0;
    assert(mix@.take(0) =~= Seq::<PrecisionMixtureEntry<W>>::empty());
    while i < mix.len()
        invariant
            i <= mix@.len(),
            keep == (|e: PrecisionMixtureEntry<W>| runs(*info, e.spec)),
            drop == (|e: PrecisionMixtureEntry<W>| !runs(*info, e.spec)),
            out@ == mix@.take(i as int).filter(keep),
            crate::text::strings_view(notes@) == n0 + mix@.take(i as int).filter(drop).map_values(
                |e: PrecisionMixtureEntry<W>| skip_note(kind, e.spec),
            ),
        decreases mix@.len() - i,
    {
        proof {
            reveal_with_fuel(Seq::filter, 1);
            assert(mix@.take(i as int + 1).drop_last() =~= mix@.take(i as int));
        }
        let e = mix[i];
        let ghost before = mix@.take(i as int).filter(drop);
        if info.supports_precision(&e.spec).is_ok() {
            out.push(e);
            assert(mix@.take(i as int + 1).filter(drop) == before);
        } else {
            let ghost nb = crate::text::strings_view(notes@);
            notes.push(note(kind, &e.spec));
            assert(mix@.take(i as int + 1).filter(drop) == before.push(e));
            assert(before.push(e).map_values(|e: PrecisionMixtureEntry<W>| skip_note(kind, e.spec))
                =~= before.map_values(|e: PrecisionMixtureEntry<W>| skip_note(kind, e.spec)).push(
                skip_note(kind, e.spec),
            ));
            assert(crate::text::strings_view(notes@) =~= nb.push(skip_note(kind, e.spec)));
        }
        i = i + 1;
    }
    assert(mix@.take(mix@.len() as int) =~= mix@);
    out
}

fn filter_one<W: Copy>(info: &DeviceInfo, item: &KernelParamOverride<W>, notes: &mut Vec<String>) -> (r:
    KernelParamOverride<W>)
    ensures
        filtered_spec(*info, *item, r),
        crate::text::strings_view(final(notes)@) == crate::text::strings_view(old(notes)@) + skip_notes(
            *info,
            *item,
        ),
{
    let ghost n0 = crate::text::strings_view(notes@);
    let precisions = match &item.precisions {
        Some(v) => {
            let kept = filter_specs(info, item.kind, v, notes);
            if kept.len() == 0 {
                None
            } else {
                Some(kept)
            }
        },
        None => None,
    };
    let ghost n1 = crate::text::strings_view(notes@);
    let precision_mixture = match &item.precision_mixture {
        Some(v) => {
            let kept = filter_mixture(info, item.kind, v, notes);
            if kept.len() == 0 {
                None
            } else {
                Some(kept)
            }
        },
        None => None,
    };
    proof {
        if item.precisions is None {
            assert(n1 =~= n0 + Seq::<Seq<char>>::empty());
        }
        if item.precision_mixture is None {
            assert(crate::text::strings_view(notes@) =~= n1 + Seq::<Seq<char>>::empty());
        }
        assert(crate::text::strings_view(notes@) =~= n0 + skip_notes(*info, *item));
    }
    KernelParamOverride {
        kind: item.kind,
        precisions,
        precision_mixture,
        matrix_sizes: copy_opt_vec(&item.matrix_sizes),
        warmup_iters: item.warmup_iters,
        burst_iters: item.burst_iters,
        transpose_prob: item.transpose_prob,
        minor_mixture_rate: item.minor_mixture_rate,
    }
}

/// The overrides with the precisions the device cannot run dropped (see
/// [`filtered_spec`]), and one note per dropped precision, in order.
pub fn filter_supported_kernel_precisions<W: Copy>(
    info: &DeviceInfo,
    overrides: &[KernelParamOverride<W>],
) -> (r: (Vec<KernelParamOverride<W>>, Vec<String>))
    ensures
        r.0@.len() == overrides@.len(),
        forall|i: int| 0 <= i < overrides@.len() ==> filtered_spec(*info, overrides@[i], #[trigger] r.0@[i]),
        crate::text::strings_view(r.1@) == all_skip_notes(*info, overrides@),
{
    let mut out: Vec<KernelParamOverride<W>> = Vec::new();
    let mut notes: Vec<String> = Vec::new();
    let mut i: usize = 0;
    assert(crate::text::strings_view(notes@) =~= Seq::<Seq<char>>::empty());
    assert(overrides@.take(0) =~= Seq::<KernelParamOverride<W>>::empty());
    while i < overrides.len()
        invariant
            i <= overrides@.len(),
            out@.len() == i,
            forall|j: int| 0 <= j < i ==> filtered_spec(*info, overrides@[j], #[trigger] out@[j]),
            crate::text::strings_view(notes@) == all_skip_notes(*info, overrides@.take(i as int)),
        decreases overrides@.len() - i,
    {
        assert(overrides@.take(i as int + 1).drop_last() =~= overrides@.take(i as int));
        assert(overrides@.take(i as int + 1).last() == overrides@[i as int]);
        let f = filter_one(info, &overrides[i], &mut notes);
        out.push(f);
        i = i + 1;
    }
    assert(overrides@.take(overrides@.len() as int) =~= overrides@);
    (out, notes)
}

} // verus!
