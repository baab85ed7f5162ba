//! Executions of a command over GPU targets, and the decisions of the
//! automatic backend choice: NVAPI first, NVML for the targets NVAPI did not
//! cover or when NVAPI failed. The backends themselves run outside; these
//! functions take what they returned and decide what comes next.
use vstd::prelude::*;

use crate::cli::{
    adapter_label, command_adapters, command_name, contains_adapter, target_supports,
    BackendAdapter, Command,
};
use crate::text::{chars_of, concat, join, join_chars, message, pieces_view, string_from_chars};

verus! {

/// The outcome of a command on one GPU target; `O` is the command output.
#[derive(Debug, Clone)]
pub struct TargetResult<O> {
    pub gpu_id: Option<u32>,
    pub backend: &'static str,
    pub ok: bool,
    pub output: Option<O>,
    pub error: Option<String>,
}

/// The outcome of a command over its targets.
#[derive(Debug, Clone)]
pub struct Execution<O> {
    pub function: &'static str,
    pub backend: String,
    pub warnings: Vec<String>,
    pub results: Vec<TargetResult<O>>,
}

/// Whether some target failed.
pub open spec fn has_errors_spec<O>(e: Execution<O>) -> bool {
    exists|i: int| 0 <= i < e.results@.len() && !(#[trigger] e.results@[i]).ok
}

impl<O> Execution<O> {
    /// Whether some target failed.
    pub fn has_errors(&self) -> (b: bool)
        ensures
            b == has_errors_spec(*self),
    {
        let mut i: usize = 0;
        while i < self.results.len()
            invariant
                i <= self.results@.len(),
                forall|j: int| 0 <= j < i ==> (#[trigger] self.results@[j]).ok,
            decreases self.results@.len() - i,
        {
            if !self.results[i].ok {
                return true;
            }
            i = i + 1;
        }
        false
    }
}

/// The GPU ids of results.
pub open spec fn result_ids<O>(rs: Seq<TargetResult<O>>) -> Seq<Option<u32>> {
    rs.map_values(|r: TargetResult<O>| r.gpu_id)
}

/// The error messages of results, in order.
pub open spec fn result_errors<O>(rs: Seq<TargetResult<O>>) -> Seq<Seq<char>>
    decreases rs.len(),
{
    if rs.len() == 0 {
        Seq::empty()
    } else {
        result_errors(rs.drop_last()) + match rs.last().error {
            Some(e) => seq![e@],
            None => Seq::empty(),
        }
    }
}

/// The error messages of an execution joined by `; `.
pub open spec fn summarize_errors_spec<O>(e: Execution<O>) -> Seq<char> {
    join(result_errors(e.results@), "; "@)
}

/// The error messages of an execution joined by `; `.
pub fn summarize_errors<O>(execution: &Execution<O>) -> (s: String)
    ensures
        s@ == summarize_errors_spec(*execution),
{
    let rs = &execution.results;
    let mut parts: Vec<Vec<char>> = Vec::new();
    let mut i: usize = 0;
    assert(rs@.take(0) =~= Seq::<TargetResult<O>>::empty());
    while i < rs.len()
        invariant
            i <= rs@.len(),
            pieces_view(parts@) == result_errors(rs@.take(i as int)),
        decreases rs@.len() - i,
    {
        let ghost before = pieces_view(parts@);
        assert(rs@.take(i as int + 1).drop_last() =~= rs@.take(i as int));
        assert(rs@.take(i as int + 1).last() == rs@[i as int]);
        match &rs[i].error {
            Some(e) => {
                parts.push(chars_of(e.as_str()));
                assert(pieces_view(parts@) =~= before + seq![e@]);
            },
            None => {
                assert(pieces_view(parts@) =~= before + Seq::<Seq<char>>::empty());
            },
        }
        i = i + 1;
    }
    assert(rs@.take(rs@.len() as int) =~= rs@);
    let out = join_chars(&parts, "; ");
    string_from_chars(out.as_slice())
}

/// The selected GPU ids that no result of `execution` covers, in order.
pub open spec fn uncovered_spec<O>(target_ids: Seq<u32>, execution: Execution<O>) -> Seq<u32> {
    target_ids.filter(|id: u32| !result_ids(execution.results@).contains(Some(id)))
}

fn covers<O>(rs: &Vec<TargetResult<O>>, id: u32) -> (b: bool)
    ensures
        b == result_ids(rs@).contains(Some(id)),
{
    let mut i: usize = 0;
    while i < rs.len()
        invariant
            i <= rs@.len(),
            forall|j: int| 0 <= j < i ==> (#[trigger] rs@[j]).gpu_id != Some(id),
        decreases rs@.len() - i,
    {
        if rs[i].gpu_id == Some(id) {
            assert(result_ids(rs@)[i as int] == Some(id));
            return true;
        }
        i = i + 1;
    }
    assert forall|j: int| 0 <= j < result_ids(rs@).len() implies result_ids(rs@)[j] != Some(id) by {
        assert(rs@[j].gpu_id != Some(id));
    }
    false
}

/// The selected GPU ids that the primary backend's results do not cover.
pub fn uncovered_target_ids<O>(target_ids: &[u32], execution: &Execution<O>) -> (r: Vec<u32>)
    ensures
        r@ == uncovered_spec(target_ids@, *execution),
{
    let ghost keep = |id: u32| !result_ids(execution.results@).contains(Some(id));
    let mut out: Vec<u32> = Vec::new();
    let mut i: usize = 0;
    assert(target_ids@.take(0) =~= Seq::<u32>::empty());
    while i < target_ids.len()
        invariant
            i <= target_ids@.len(),
            keep == (|id: u32| !result_ids(execution.results@).contains(Some(id))),
            out@ == target_ids@.take(i as int).filter(keep),
        decreases target_ids@.len() - i,
    {
        proof {
            reveal_with_fuel(Seq::filter, 1);
            assert(target_ids@.take(i as int + 1).drop_last() =~= target_ids@.take(i as int));
        }
        let id = target_ids[i];
        if !covers(&execution.results, id) {
            out.push(id);
        }
        i = i + 1;
    }
    assert(target_ids@.take(target_ids@.len() as int) =~= target_ids@);
    out
}

// ---------------------------------------------------------------------------
// Running over targets
// ---------------------------------------------------------------------------

/// The backends a GPU target exposes.
#[derive(Debug, Clone, Copy, PartialEq, Eq, Structural)]
pub struct TargetCaps {
    pub id: u32,
    pub has_nvapi: bool,
    pub has_nvml: bool,
}

/// Whether a target runs `command` through `adapter`.
pub open spec fn supports_spec(t: TargetCaps, command: Command, adapter: BackendAdapter) -> bool {
    match adapter {
        BackendAdapter::Nvapi => t.has_nvapi && (command != Command::SetPstateLock || t.has_nvml),
        BackendAdapter::Nvml => t.has_nvml,
    }
}

/// `no selected GPUs expose the <backend> backend required by <command>`.
pub open spec fn no_targets_spec(command: Command, adapter: BackendAdapter) -> Seq<char> {
    "no selected GPUs expose the "@ + adapter_label(adapter) + " backend required by "@
        + command_name(command)
}

/// The selected targets able to run `command` through `adapter`, in order;
/// an error when there is none.
pub fn runnable_targets(targets: &[TargetCaps], command: Command, adapter: BackendAdapter) -> (r:
    Result<Vec<TargetCaps>, String>)
    ensures
        match r {
            Ok(v) => v@ == targets@.filter(|t: TargetCaps| supports_spec(t, command, adapter))
                && v@.len() > 0,
            Err(e) => e@ == no_targets_spec(command, adapter) && targets@.filter(
                |t: TargetCaps| supports_spec(t, command, adapter),
            ).len() == 0,
        },
{
    let ghost keep = |t: TargetCaps| supports_spec(t, command, adapter);
    let mut out: Vec<TargetCaps> = Vec::new();
    let mut i: usize = 0;
    assert(targets@.take(0) =~= Seq::<TargetCaps>::empty());
    while i < targets.len()
        invariant
            i <= targets@.len(),
            keep == (|t: TargetCaps| supports_spec(t, command, adapter)),
            out@ == targets@.take(i as int).filter(keep),
        decreases targets@.len() - i,
    {
        proof {
            reveal_with_fuel(Seq::filter, 1);
            assert(targets@.take(i as int + 1).drop_last() =~= targets@.take(i as int));
        }
        let t = targets[i];
        if target_supports(t.has_nvapi, t.has_nvml, command, adapter) {
            out.push(t);
        }
        i = i + 1;
    }
    assert(targets@.take(targets@.len() as int) =~= targets@);
    if out.len() == 0 {
        let a = chars_of(adapter.label());
        let mid = chars_of(" backend required by ");
        let c = chars_of(command.name());
        let s1 = concat(a.as_slice(), mid.as_slice());
        let s2 = concat(s1.as_slice(), c.as_slice());
        let m = message("no selected GPUs expose the ", s2.as_slice());
        assert(m@ =~= no_targets_spec(command, adapter));
        return Err(m);
    }
    Ok(out)
}

/// The result of running on one target: its output, or the error text.
pub open spec fn target_result_spec<O>(
    id: u32,
    adapter: BackendAdapter,
    outcome: Result<O, String>,
    r: TargetResult<O>,
) -> bool {
    &&& r.gpu_id == Some(id)
    &&& r.backend@ == adapter_label(adapter)
    &&& match outcome {
        Ok(o) => r.ok && r.output == Some(o) && r.error is None,
        Err(e) => !r.ok && r.output is None && r.error == Some(e),
    }
}

/// Collects the per-target outcomes of `command` run through `adapter`
/// into an execution, in order, with no warnings.
pub fn execution_from_outcomes<O>(
    command: Command,
    adapter: BackendAdapter,
    outcomes: Vec<(u32, Result<O, String>)>,
) -> (e: Execution<O>)
    ensures
        e.function@ == command_name(command),
        e.backend@ == adapter_label(adapter),
        e.warnings@.len() == 0,
        e.results@.len() == outcomes@.len(),
        forall|i: int|
            0 <= i < outcomes@.len() ==> target_result_spec(
                outcomes@[i].0,
                adapter,
                outcomes@[i].1,
                #[trigger] e.results@[i],
            ),
{
    let mut results: Vec<TargetResult<O>> = Vec::new();
    let mut rest = outcomes;
    let ghost all = rest@;
    let mut k: usize = 0;
    let n = rest.len();
    let mut rev: Vec<(u32, Result<O, String>)> = Vec::new();
    while rest.len() > 0
        invariant
            all.len() == n,
            rev@.len() + rest@.len() == n,
            rest@ == all.take(rest@.len() as int),
            forall|j: int| 0 <= j < rev@.len() ==> #[trigger] rev@[j] == all[n - 1 - j],
        decreases rest@.len(),
    {
        let item = rest.pop().unwrap();
        rev.push(item);
        assert(rest@ =~= all.take(rest@.len() as int));
    }
    while rev.len() > 0
        invariant
            all.len() == n,
            rev@.len() + results@.len() == n,
            forall|j: int| 0 <= j < rev@.len() ==> #[trigger] rev@[j] == all[n - 1 - j],
            forall|i: int|
                0 <= i < results@.len() ==> target_result_spec(
                    all[i].0,
                    adapter,
                    all[i].1,
                    #[trigger] results@[i],
                ),
        decreases rev@.len(),
    {
        let (id, outcome) = rev.pop().unwrap();
        let r = match outcome {
            Ok(o) => TargetResult {
                gpu_id: Some(id),
                backend: adapter.label(),
                ok: true,
                output: Some(o),
                error: None,
            },
            Err(e) => TargetResult {
                gpu_id: Some(id),
                backend: adapter.label(),
                ok: false,
                output: None,
                error: Some(e),
            },
        };
        results.push(r);
    }
    Execution {
        function: command.name(),
        backend: crate::text::string_of(adapter.label()),
        warnings: Vec::new(),
        results,
    }
}

// ---------------------------------------------------------------------------
// Automatic backend choice
// ---------------------------------------------------------------------------

/// The first move of an automatic run.
#[derive(Debug, Clone, PartialEq, Eq)]
pub enum AutoPlan {
    /// Listing GPUs goes through both backends' inventories.
    ListGpus,
    /// Run through NVAPI first.
    Nvapi,
    /// Run through NVML only.
    Nvml,
    /// The command has no backend; the message says so.
    NoBackend(String),
}

/// `<command> has no runnable backend`.
pub open spec fn no_backend_spec(command: Command) -> Seq<char> {
    command_name(command) + " has no runnable backend"@
}

/// The first move of an automatic run: list GPUs, NVAPI when the command
/// supports it, NVML otherwise.
pub fn auto_plan(command: Command) -> (p: AutoPlan)
    ensures
        command == Command::ListGpus ==> p == AutoPlan::ListGpus,
        command != Command::ListGpus && command_adapters(command).contains(BackendAdapter::Nvapi)
            ==> p == AutoPlan::Nvapi,
        command != Command::ListGpus && !command_adapters(command).contains(BackendAdapter::Nvapi)
            && command_adapters(command).contains(BackendAdapter::Nvml) ==> p == AutoPlan::Nvml,
        command != Command::ListGpus && !command_adapters(command).contains(BackendAdapter::Nvapi)
            && !command_adapters(command).contains(BackendAdapter::Nvml) ==> (p matches AutoPlan::NoBackend(m)
            && m@ == no_backend_spec(command)),
{
    if command == Command::ListGpus {
        return AutoPlan::ListGpus;
    }
    let adapters = command.adapters();
    if contains_adapter(adapters, BackendAdapter::Nvapi) {
        AutoPlan::Nvapi
    } else if contains_adapter(adapters, BackendAdapter::Nvml) {
        AutoPlan::Nvml
    } else {
        let n = chars_of(command.name());
        let t = chars_of(" has no runnable backend");
        let m = concat(n.as_slice(), t.as_slice());
        AutoPlan::NoBackend(string_from_chars(m.as_slice()))
    }
}

/// Why the NVML fallback runs, and what it adds as warnings.
#[derive(Debug, Clone, PartialEq, Eq)]
pub enum Fallback {
    /// NVAPI ran but some target failed; the summary of its errors.
    Unsuccessful(String),
    /// NVAPI failed as a whole; its error.
    Failed(String),
}

/// What follows the NVAPI run of an automatic run.
#[derive(Debug)]
pub enum AfterNvapi<O> {
    /// The run is over with this result.
    Done(Result<Execution<O>, String>),
    /// NVAPI succeeded; NVML may still cover the selected targets it missed.
    CheckCoverage(Execution<O>),
    /// Run NVML over all selected targets instead.
    Fallback(Fallback),
}

/// The decision after NVAPI ran for `command`: a clean NVAPI execution is
/// kept (and completed by NVML when the command supports it); a failed or
/// unsuccessful one gives way to NVML when the command supports it, and is
/// the result otherwise.
pub fn after_nvapi<O>(command: Command, nvapi: Result<Execution<O>, String>) -> (a: AfterNvapi<O>)
    ensures
        ({
            let nvml = command_adapters(command).contains(BackendAdapter::Nvml);
            match nvapi {
                Ok(e) => if !has_errors_spec(e) {
                    if nvml {
                        a matches AfterNvapi::CheckCoverage(x) && x == e
                    } else {
                        a matches AfterNvapi::Done(Ok(x)) && x == e
                    }
                } else if nvml {
                    a matches AfterNvapi::Fallback(Fallback::Unsuccessful(s)) && s@
                        == summarize_errors_spec(e)
                } else {
                    a matches AfterNvapi::Done(Ok(x)) && x == e
                },
                Err(m) => if nvml {
                    a matches AfterNvapi::Fallback(Fallback::Failed(s)) && s == m
                } else {
                    a matches AfterNvapi::Done(Err(x)) && x == m
                },
            }
        }),
{
    let nvml = contains_adapter(command.adapters(), BackendAdapter::Nvml);
    match nvapi {
        Ok(e) => {
            if !e.has_errors() {
                if nvml {
                    AfterNvapi::CheckCoverage(e)
                } else {
                    AfterNvapi::Done(Ok(e))
                }
            } else if nvml {
                AfterNvapi::Fallback(Fallback::Unsuccessful(summarize_errors(&e)))
            } else {
                AfterNvapi::Done(Ok(e))
            }
        },
        Err(m) => {
            if nvml {
                AfterNvapi::Fallback(Fallback::Failed(m))
            } else {
                AfterNvapi::Done(Err(m))
            }
        },
    }
}

/// The selected GPUs that NVML should still cover after a clean NVAPI run:
/// none when the selection could not be read or everything is covered.
pub fn coverage_gaps<O>(nvapi: &Execution<O>, selected: Result<Vec<u32>, String>) -> (r: Option<
    Vec<u32>,
>)
    ensures
        match selected {
            Ok(ids) => if uncovered_spec(ids@, *nvapi).len() > 0 {
                r matches Some(v) && v@ == uncovered_spec(ids@, *nvapi)
            } else {
                r is None
            },
            Err(_) => r is None,
        },
{
    match selected {
        Ok(ids) => {
            let missing = uncovered_target_ids(ids.as_slice(), nvapi);
            if missing.len() > 0 {
                Some(missing)
            } else {
                None
            }
        },
        Err(_) => None,
    }
}

/// A clean NVAPI execution completed by the NVML run over the targets it
/// missed: reported as `auto`, NVAPI results first. An NVML failure is the
/// result.
pub fn merge_coverage<O>(nvapi: Execution<O>, nvml: Result<Execution<O>, String>) -> (r: Result<
    Execution<O>,
    String,
>)
    ensures
        match nvml {
            Ok(n) => r matches Ok(e) && e.function == nvapi.function && e.backend@ == "auto"@
                && e.warnings == nvapi.warnings && e.results@ == nvapi.results@ + n.results@,
            Err(m) => r == Err::<Execution<O>, String>(m),
        },
{
    match nvml {
        Ok(n) => {
            let mut e = nvapi;
            e.backend = crate::text::string_of("auto");
            let mut extra = n.results;
            let ghost before = e.results@;
            let ghost added = extra@;
            e.results.append(&mut extra);
            Ok(e)
        },
        Err(m) => Err(m),
    }
}

/// `NVAPI attempt for <command> failed; fell back to NVML`.
pub open spec fn unsuccessful_warning(command: Command) -> Seq<char> {
    "NVAPI attempt for "@ + command_name(command) + " failed; fell back to NVML"@
}

/// `NVAPI result was also unsuccessful: <summary>`.
pub open spec fn also_unsuccessful_warning(summary: Seq<char>) -> Seq<char> {
    "NVAPI result was also unsuccessful: "@ + summary
}

/// `NVAPI attempt failed; fell back to NVML: <error>`.
pub open spec fn failed_warning(error: Seq<char>) -> Seq<char> {
    "NVAPI attempt failed; fell back to NVML: "@ + error
}

/// The NVML fallback's result with the warnings explaining it put first: an
/// unsuccessful NVAPI run is named, and its errors too when NVML also had
/// errors; a failed NVAPI run is named with its error. An NVML failure is
/// the result.
pub fn apply_fallback<O>(command: Command, reason: Fallback, nvml: Result<Execution<O>, String>) -> (r:
    Result<Execution<O>, String>)
    ensures
        match nvml {
            Ok(n) => r matches Ok(e) && e.function == n.function && e.backend == n.backend
                && e.results == n.results && match reason {
                Fallback::Unsuccessful(s) => if has_errors_spec(n) {
                    strings(e.warnings@) == seq![
                        unsuccessful_warning(command),
                        also_unsuccessful_warning(s@),
                    ] + strings(n.warnings@)
                } else {
                    strings(e.warnings@) == seq![unsuccessful_warning(command)] + strings(
                        n.warnings@,
                    )
                },
                Fallback::Failed(m) => strings(e.warnings@) == seq![failed_warning(m@)]
                    + strings(n.warnings@),
            },
            Err(m) => r == Err::<Execution<O>, String>(m),
        },
{
    match nvml {
        Ok(n) => {
            let mut e = n;
            let ghost w0 = strings(e.warnings@);
            match reason {
                Fallback::Unsuccessful(s) => {
                    let c = chars_of(command.name());
                    let t = chars_of(" failed; fell back to NVML");
                    let body = concat(c.as_slice(), t.as_slice());
                    let first = message("NVAPI attempt for ", body.as_slice());
                    assert(first@ =~= unsuccessful_warning(command));
                    let ghost v0 = e.warnings@;
                    e.warnings.insert(0, first);
                    proof {
                        lemma_strings_insert(v0, 0, first);
                    }
                    assert(strings(e.warnings@) =~= seq![unsuccessful_warning(command)] + w0);
                    if e.has_errors() {
                        let sc = chars_of(s.as_str());
                        let second = message("NVAPI result was also unsuccessful: ", sc.as_slice());
                        let ghost v1 = e.warnings@;
                        e.warnings.insert(1, second);
                        proof {
                            lemma_strings_insert(v1, 1, second);
                        }
                        assert(strings(e.warnings@) =~= seq![
                            unsuccessful_warning(command),
                            also_unsuccessful_warning(s@),
                        ] + w0);
                    }
                },
                Fallback::Failed(m) => {
                    let mc = chars_of(m.as_str());
                    let first = message("NVAPI attempt failed; fell back to NVML: ", mc.as_slice());
                    let ghost v0 = e.warnings@;
                    e.warnings.insert(0, first);
                    proof {
                        lemma_strings_insert(v0, 0, first);
                    }
                    assert(strings(e.warnings@) =~= seq![failed_warning(m@)] + w0);
                },
            }
            Ok(e)
        },
        Err(m) => Err(m),
    }
}

proof fn lemma_strings_insert(v: Seq<String>, i: int, x: String)
    requires
        0 <= i <= v.len(),
    ensures
        strings(v.insert(i, x)) == strings(v).insert(i, x@),
{
    assert(strings(v.insert(i, x)) =~= strings(v).insert(i, x@));
}

/// The texts of a list of strings.
pub open spec fn strings(v: Seq<String>) -> Seq<Seq<char>> {
    v.map_values(|s: String| s@)
}

// ---------------------------------------------------------------------------
// Listing GPUs
// ---------------------------------------------------------------------------

/// The backend label of a listed GPU: `both`, `nvapi` or `nvml`.
pub open spec fn list_backend_spec(has_nvapi: bool, has_nvml: bool) -> Seq<char> {
    if has_nvapi && has_nvml {
        "both"@
    } else if has_nvapi {
        "nvapi"@
    } else {
        "nvml"@
    }
}

/// The backend label of a listed GPU.
pub fn list_backend_label(has_nvapi: bool, has_nvml: bool) -> (s: &'static str)
    ensures
        s@ == list_backend_spec(has_nvapi, has_nvml),
{
    if has_nvapi && has_nvml {
        "both"
    } else if has_nvapi {
        "nvapi"
    } else {
        "nvml"
    }
}

/// The selected targets a GPU listing shows: with a forced backend, only
/// those that expose it; an error when none is left.
pub fn listed_targets(targets: &[TargetCaps], explicit_backend: bool, adapter: BackendAdapter) -> (r:
    Result<Vec<TargetCaps>, String>)
    ensures
        match r {
            Ok(v) => v@ == targets@.filter(
                |t: TargetCaps| !explicit_backend || supports_spec(t, Command::ListGpus, adapter),
            ) && v@.len() > 0,
            Err(e) => e@ == "no GPUs matched the selector"@ && targets@.filter(
                |t: TargetCaps| !explicit_backend || supports_spec(t, Command::ListGpus, adapter),
            ).len() == 0,
        },
{
    let ghost keep = |t: TargetCaps| !explicit_backend || supports_spec(t, Command::ListGpus, adapter);
    let mut out: Vec<TargetCaps> = Vec::new();
    let mut i: usize = 0;
    assert(targets@.take(0) =~= Seq::<TargetCaps>::empty());
    while i < targets.len()
        invariant
            i <= targets@.len(),
            keep == (|t: TargetCaps| !explicit_backend || supports_spec(t, Command::ListGpus, adapter)),
            out@ == targets@.take(i as int).filter(keep),
        decreases targets@.len() - i,
    {
        proof {
            reveal_with_fuel(Seq::filter, 1);
            assert(targets@.take(i as int + 1).drop_last() =~= targets@.take(i as int));
        }
        let t = targets[i];
        if !explicit_backend || target_supports(t.has_nvapi, t.has_nvml, Command::ListGpus, adapter) {
            out.push(t);
        }
        i = i + 1;
    }
    assert(targets@.take(targets@.len() as int) =~= targets@);
    if out.len() == 0 {
        return Err(crate::text::string_of("no GPUs matched the selector"));
    }
    Ok(out)
}

/// The targets among `ids` able to run `command` through `adapter`, in
/// listed order; an error when there is none.
pub fn requested_targets(
    targets: &[TargetCaps],
    ids: &[u32],
    command: Command,
    adapter: BackendAdapter,
) -> (r: Result<Vec<TargetCaps>, String>)
    ensures
        match r {
            Ok(v) => v@ == targets@.filter(
                |t: TargetCaps| ids@.contains(t.id) && supports_spec(t, command, adapter),
            ) && v@.len() > 0,
            Err(e) => e@ == no_targets_spec(command, adapter) && targets@.filter(
                |t: TargetCaps| ids@.contains(t.id) && supports_spec(t, command, adapter),
            ).len() == 0,
        },
{
    let ghost keep = |t: TargetCaps| ids@.contains(t.id) && supports_spec(t, command, adapter);
    let mut out: Vec<TargetCaps> = Vec::new();
    let mut i: usize = 0;
    assert(targets@.take(0) =~= Seq::<TargetCaps>::empty());
    while i < targets.len()
        invariant
            i <= targets@.len(),
            keep == (|t: TargetCaps| ids@.contains(t.id) && supports_spec(t, command, adapter)),
            out@ == targets@.take(i as int).filter(keep),
        decreases targets@.len() - i,
    {
        proof {
            reveal_with_fuel(Seq::filter, 1);
            assert(targets@.take(i as int + 1).drop_last() =~= targets@.take(i as int));
        }
        let t = targets[i];
        if contains_id(ids, t.id) && target_supports(t.has_nvapi, t.has_nvml, command, adapter) {
            out.push(t);
        }
        i = i + 1;
    }
    assert(targets@.take(targets@.len() as int) =~= targets@);
    if out.len() == 0 {
        let a = chars_of(adapter.label());
        let mid = chars_of(" backend required by ");
        let c = chars_of(command.name());
        let s1 = concat(a.as_slice(), mid.as_slice());
        let s2 = concat(s1.as_slice(), c.as_slice());
        let m = message("no selected GPUs expose the ", s2.as_slice());
        assert(m@ =~= no_targets_spec(command, adapter));
        return Err(m);
    }
    Ok(out)
}

fn contains_id(ids: &[u32], id: u32) -> (b: bool)
    ensures
        b == ids@.contains(id),
{
    let mut i: usize = 0;
    while i < ids.len()
        invariant
            i <= ids@.len(),
            forall|j: int| 0 <= j < i ==> ids@[j] != id,
        decreases ids@.len() - i,
    {
        if ids[i] == id {
            assert(ids@[i as int] == id);
            return true;
        }
        i = i + 1;
    }
    false
}

} // verus!
