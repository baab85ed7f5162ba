//! Checks a stress run makes on its precision and kernel lists before it
//! starts: dropping FP8 when it is disabled, and refusing precisions that no
//! selected kernel can run.
use vstd::prelude::*;

use crate::stress::{
    compatible_spec, kernel_precision_compatible, KernelType, PrecisionKind, PrecisionSpec,
};
use crate::text::{chars_of, concat, eq_str, join, join_chars, pieces_view, string_from_chars, string_of};

verus! {

/// The precisions that run: all of them, or all but FP8 when FP8 is
/// disabled.
pub open spec fn runnable_spec(ps: Seq<PrecisionSpec>, include_fp8: bool) -> Seq<PrecisionSpec>
    decreases ps.len(),
{
    if ps.len() == 0 {
        Seq::empty()
    } else {
        let rest = runnable_spec(ps.drop_last(), include_fp8);
        if ps.last().kind == PrecisionKind::FP8E4M3FN && !include_fp8 {
            rest
        } else {
            rest.push(ps.last())
        }
    }
}

/// How many precisions the FP8 switch drops.
pub open spec fn fp8_skipped(ps: Seq<PrecisionSpec>, include_fp8: bool) -> nat {
    (ps.len() - runnable_spec(ps, include_fp8).len()) as nat
}

/// Drops FP8 when it is disabled. Gives the precisions that run and how
/// many were dropped (one "disabled by flag" notice each), or the error
/// when none is left.
pub fn runnable_precisions(precisions: &[PrecisionSpec], include_fp8: bool) -> (r: Result<
    (Vec<PrecisionSpec>, usize),
    String,
>)
    ensures
        match r {
            Ok((v, skipped)) => v@ == runnable_spec(precisions@, include_fp8) && v@.len() > 0
                && skipped == fp8_skipped(precisions@, include_fp8),
            Err(e) => runnable_spec(precisions@, include_fp8).len() == 0 && e@
                == "No runnable precision modes available"@,
        },
{
    let mut out: Vec<PrecisionSpec> = Vec::new();
    let mut skipped: usize = 0;
    let mut i: usize = 0;
    while i < precisions.len()
        invariant
            i <= precisions@.len(),
            out@ == runnable_spec(precisions@.take(i as int), include_fp8),
            skipped + out@.len() == i,
        decreases precisions@.len() - i,
    {
        let spec = precisions[i];
        proof {
            assert(precisions@.take(i as int + 1).drop_last() =~= precisions@.take(i as int));
        }
        if spec.kind == PrecisionKind::FP8E4M3FN && !include_fp8 {
            skipped = skipped + 1;
        } else {
            out.push(spec);
        }
        i = i + 1;
    }
    assert(precisions@.take(precisions@.len() as int) =~= precisions@);
    if out.len() == 0 {
        return Err(string_of("No runnable precision modes available"));
    }
    Ok((out, skipped))
}

/// Whether some selected kernel can run `kind`.
pub open spec fn has_kernel_for(kernels: Seq<KernelType>, kind: PrecisionKind) -> bool {
    exists|j: int| 0 <= j < kernels.len() && compatible_spec(#[trigger] kernels[j], kind)
}

/// Names of the precisions no selected kernel can run, in order.
pub open spec fn incompatible_names(ps: Seq<PrecisionSpec>, kernels: Seq<KernelType>) -> Seq<
    Seq<char>,
>
    decreases ps.len(),
{
    if ps.len() == 0 {
        Seq::empty()
    } else {
        let rest = incompatible_names(ps.drop_last(), kernels);
        if has_kernel_for(kernels, ps.last().kind) {
            rest
        } else {
            rest.push(ps.last().name@)
        }
    }
}

/// Why the precisions cannot run: IntAlu alone runs only integers; INT16
/// and INT32 need IntAlu; otherwise no kernel fits.
pub open spec fn incompatible_reason(names: Seq<Seq<char>>, kernels: Seq<KernelType>) -> Seq<char> {
    if forall|j: int| 0 <= j < kernels.len() ==> #[trigger] kernels[j] == KernelType::IntAlu {
        "INTALU supports only INT8/INT16/INT32"@
    } else if exists|j: int| 0 <= j < names.len() && (#[trigger] names[j] == "INT16"@ || names[j] == "INT32"@) {
        "INT16/INT32 have no GEMM path; add `intalu` to --kernel-types"@
    } else {
        "no compatible kernel type for the requested precision"@
    }
}

/// The refusal of a run whose precisions include some that no selected
/// kernel can run; `None` when every precision has a kernel.
pub open spec fn incompatible_spec(ps: Seq<PrecisionSpec>, kernels: Seq<KernelType>) -> Option<Seq<char>> {
    let names = incompatible_names(ps, kernels);
    if names.len() == 0 {
        None
    } else {
        Some(
            "Precision(s) ["@ + join(names, ", "@) + "] have no compatible kernel in --kernel-types ("@
                + incompatible_reason(names, kernels)
                + "). Aborting; pick a compatible --kernel-types combination."@,
        )
    }
}

fn has_kernel_for_exec(kernels: &[KernelType], kind: PrecisionKind) -> (b: bool)
    ensures
        b == has_kernel_for(kernels@, kind),
{
    let mut j: usize = 0;
    while j < kernels.len()
        invariant
            j <= kernels@.len(),
            forall|t: int| 0 <= t < j ==> !compatible_spec(#[trigger] kernels@[t], kind),
        decreases kernels@.len() - j,
    {
        if kernel_precision_compatible(kernels[j], kind) {
            assert(compatible_spec(kernels@[j as int], kind));
            return true;
        }
        j = j + 1;
    }
    false
}

fn reason_exec(names: &Vec<Vec<char>>, kernels: &[KernelType]) -> (s: &'static str)
    ensures
        s@ == incompatible_reason(pieces_view(names@), kernels@),
{
    let mut all_intalu = true;
    let mut j: usize = 0;
    while j < kernels.len()
        invariant
            j <= kernels@.len(),
            all_intalu == forall|t: int| 0 <= t < j ==> #[trigger] kernels@[t] == KernelType::IntAlu,
        decreases kernels@.len() - j,
    {
        if kernels[j] != KernelType::IntAlu {
            all_intalu = false;
        }
        j = j + 1;
    }
    if all_intalu {
        return "INTALU supports only INT8/INT16/INT32";
    }
    let ghost pv = pieces_view(names@);
    let mut k: usize = 0;
    while k < names.len()
        invariant
            k <= names@.len(),
            pv == pieces_view(names@),
            !(forall|t: int| 0 <= t < kernels@.len() ==> #[trigger] kernels@[t] == KernelType::IntAlu),
            forall|t: int| 0 <= t < k ==> !(#[trigger] pv[t] == "INT16"@ || pv[t] == "INT32"@),
        decreases names@.len() - k,
    {
        assert(pv[k as int] == names@[k as int]@);
        if eq_str(names[k].as_slice(), "INT16") || eq_str(names[k].as_slice(), "INT32") {
            assert(pv[k as int] == "INT16"@ || pv[k as int] == "INT32"@);
            return "INT16/INT32 have no GEMM path; add `intalu` to --kernel-types";
        }
        k = k + 1;
    }
    "no compatible kernel type for the requested precision"
}

/// Refuses precisions that no selected kernel can run (see
/// [`incompatible_spec`]).
pub fn incompatible_precision_error(precisions: &[PrecisionSpec], kernels: &[KernelType]) -> (r:
    Option<String>)
    ensures
        match r {
            Some(e) => incompatible_spec(precisions@, kernels@) == Some(e@),
            None => incompatible_spec(precisions@, kernels@) is None,
        },
{
    let mut names: Vec<Vec<char>> = Vec::new();
    let mut i: usize = 0;
    while i < precisions.len()
        invariant
            i <= precisions@.len(),
            pieces_view(names@) == incompatible_names(precisions@.take(i as int), kernels@),
        decreases precisions@.len() - i,
    {
        let spec = precisions[i];
        proof {
            assert(precisions@.take(i as int + 1).drop_last() =~= precisions@.take(i as int));
        }
        if !has_kernel_for_exec(kernels, spec.kind) {
            let ghost before = pieces_view(names@);
            names.push(chars_of(spec.name));
            assert(pieces_view(names@) =~= before.push(spec.name@));
        }
        i = i + 1;
    }
    assert(precisions@.take(precisions@.len() as int) =~= precisions@);
    if names.len() == 0 {
        return None;
    }
    let reason = reason_exec(&names, kernels);
    let joined = join_chars(&names, ", ");
    let a = concat(chars_of("Precision(s) [").as_slice(), joined.as_slice());
    let b = concat(a.as_slice(), chars_of("] have no compatible kernel in --kernel-types (").as_slice());
    let c = concat(b.as_slice(), chars_of(reason).as_slice());
    let d = concat(
        c.as_slice(),
        chars_of("). Aborting; pick a compatible --kernel-types combination.").as_slice(),
    );
    assert(d@ =~= incompatible_spec(precisions@, kernels@)->0);
    Some(string_from_chars(d.as_slice()))
}

} // verus!
