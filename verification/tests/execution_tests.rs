use nvoc::execution::requested_targets;
use nvoc::cli::{BackendAdapter, Command};
use nvoc::execution::{
    after_nvapi, apply_fallback, auto_plan, coverage_gaps, execution_from_outcomes,
    list_backend_label, listed_targets, merge_coverage, runnable_targets, summarize_errors,
    uncovered_target_ids, AfterNvapi, AutoPlan, Execution, Fallback, TargetCaps, TargetResult,
};

fn ok_result(id: u32, backend: &'static str) -> TargetResult<u32> {
    TargetResult {
        gpu_id: Some(id),
        backend,
        ok: true,
        output: Some(id),
        error: None,
    }
}

fn err_result(id: u32, backend: &'static str, msg: &str) -> TargetResult<u32> {
    TargetResult {
        gpu_id: Some(id),
        backend,
        ok: false,
        output: None,
        error: Some(msg.to_string()),
    }
}

#[test]
fn finds_auto_targets_not_covered_by_primary_backend() {
    let execution: Execution<u32> = Execution {
        function: "get-clock-offset-mhz",
        backend: "nvapi".to_string(),
        warnings: Vec::new(),
        results: vec![
            TargetResult {
                gpu_id: Some(256),
                backend: "nvapi",
                ok: true,
                output: None,
                error: None,
            },
            TargetResult {
                gpu_id: Some(768),
                backend: "nvapi",
                ok: true,
                output: None,
                error: None,
            },
        ],
    };

    assert_eq!(
        uncovered_target_ids(&[256, 512, 768], &execution),
        vec![512]
    );
}

#[test]
fn plans_follow_command_backends() {
    assert_eq!(auto_plan(Command::ListGpus), AutoPlan::ListGpus);
    assert_eq!(auto_plan(Command::SetThermalLimitC), AutoPlan::Nvapi);
    assert_eq!(auto_plan(Command::SetPowerWatt), AutoPlan::Nvml);
    assert_eq!(auto_plan(Command::GetVfp), AutoPlan::Nvapi);
}

#[test]
fn clean_nvapi_is_checked_for_coverage_when_nvml_exists() {
    let e = Execution {
        function: "set-thermal-limit-c",
        backend: "nvapi".to_string(),
        warnings: Vec::new(),
        results: vec![ok_result(1, "nvapi")],
    };
    match after_nvapi(Command::SetThermalLimitC, Ok(e.clone())) {
        AfterNvapi::CheckCoverage(x) => assert_eq!(x.results.len(), 1),
        other => panic!("unexpected {other:?}"),
    }
    match after_nvapi(Command::GetVfp, Ok(e)) {
        AfterNvapi::Done(Ok(x)) => assert_eq!(x.backend, "nvapi"),
        other => panic!("unexpected {other:?}"),
    }
}

#[test]
fn unsuccessful_nvapi_falls_back_with_warnings() {
    let bad = Execution {
        function: "set-thermal-limit-c",
        backend: "nvapi".to_string(),
        warnings: Vec::new(),
        results: vec![err_result(1, "nvapi", "denied"), err_result(2, "nvapi", "busy")],
    };
    let reason = match after_nvapi(Command::SetThermalLimitC, Ok(bad)) {
        AfterNvapi::Fallback(r) => r,
        other => panic!("unexpected {other:?}"),
    };
    assert_eq!(reason, Fallback::Unsuccessful("denied; busy".to_string()));
    let nvml_bad = Execution {
        function: "set-thermal-limit-c",
        backend: "nvml".to_string(),
        warnings: vec!["w".to_string()],
        results: vec![err_result(1, "nvml", "nope")],
    };
    let merged = apply_fallback(Command::SetThermalLimitC, reason.clone(), Ok(nvml_bad)).unwrap();
    assert_eq!(
        merged.warnings,
        vec![
            "NVAPI attempt for set-thermal-limit-c failed; fell back to NVML".to_string(),
            "NVAPI result was also unsuccessful: denied; busy".to_string(),
            "w".to_string()
        ]
    );
    let nvml_ok = Execution {
        function: "set-thermal-limit-c",
        backend: "nvml".to_string(),
        warnings: Vec::new(),
        results: vec![ok_result(1, "nvml")],
    };
    let merged = apply_fallback(Command::SetThermalLimitC, reason, Ok(nvml_ok)).unwrap();
    assert_eq!(merged.warnings.len(), 1);
    let failed = apply_fallback::<u32>(
        Command::SetThermalLimitC,
        Fallback::Failed("no driver".to_string()),
        Err("nvml down".to_string()),
    );
    assert_eq!(failed.unwrap_err(), "nvml down");
    let failed_ok = apply_fallback(
        Command::SetThermalLimitC,
        Fallback::Failed("no driver".to_string()),
        Ok(Execution {
            function: "set-thermal-limit-c",
            backend: "nvml".to_string(),
            warnings: Vec::new(),
            results: vec![ok_result(3, "nvml")],
        }),
    )
    .unwrap();
    assert_eq!(
        failed_ok.warnings,
        vec!["NVAPI attempt failed; fell back to NVML: no driver".to_string()]
    );
}

#[test]
fn nvapi_error_without_nvml_is_the_result() {
    match after_nvapi::<u32>(Command::GetVfp, Err("boom".to_string())) {
        AfterNvapi::Done(Err(m)) => assert_eq!(m, "boom"),
        other => panic!("unexpected {other:?}"),
    }
    match after_nvapi::<u32>(Command::SetThermalLimitC, Err("boom".to_string())) {
        AfterNvapi::Fallback(Fallback::Failed(m)) => assert_eq!(m, "boom"),
        other => panic!("unexpected {other:?}"),
    }
}

#[test]
fn coverage_is_completed_by_nvml() {
    let nvapi = Execution {
        function: "set-thermal-limit-c",
        backend: "nvapi".to_string(),
        warnings: Vec::new(),
        results: vec![ok_result(1, "nvapi")],
    };
    assert_eq!(coverage_gaps(&nvapi, Ok(vec![1, 2, 3])), Some(vec![2, 3]));
    assert_eq!(coverage_gaps(&nvapi, Ok(vec![1])), None);
    assert_eq!(coverage_gaps(&nvapi, Err("x".to_string())), None);
    let nvml = Execution {
        function: "set-thermal-limit-c",
        backend: "nvml".to_string(),
        warnings: Vec::new(),
        results: vec![ok_result(2, "nvml")],
    };
    let merged = merge_coverage(nvapi, Ok(nvml)).unwrap();
    assert_eq!(merged.backend, "auto");
    assert_eq!(merged.results.len(), 2);
    assert_eq!(merged.results[1].gpu_id, Some(2));
}

#[test]
fn targets_and_outcomes() {
    let targets = [
        TargetCaps {
            id: 1,
            has_nvapi: true,
            has_nvml: false,
        },
        TargetCaps {
            id: 2,
            has_nvapi: true,
            has_nvml: true,
        },
    ];
    let runnable = runnable_targets(&targets, Command::SetPstateLock, BackendAdapter::Nvapi).unwrap();
    assert_eq!(runnable.len(), 1);
    assert_eq!(runnable[0].id, 2);
    assert_eq!(
        runnable_targets(&targets[..1], Command::SetPowerWatt, BackendAdapter::Nvml).unwrap_err(),
        "no selected GPUs expose the nvml backend required by set-power-watt"
    );
    let e = execution_from_outcomes(
        Command::GetVfp,
        BackendAdapter::Nvapi,
        vec![(1, Ok(10u32)), (2, Err("fail".to_string()))],
    );
    assert_eq!(e.function, "get-vfp");
    assert_eq!(e.backend, "nvapi");
    assert!(e.has_errors());
    assert_eq!(e.results[0].output, Some(10));
    assert_eq!(e.results[1].error.as_deref(), Some("fail"));
    assert_eq!(summarize_errors(&e), "fail");
    assert_eq!(list_backend_label(true, true), "both");
    assert_eq!(list_backend_label(false, true), "nvml");
    assert_eq!(listed_targets(&targets, false, BackendAdapter::Nvml).unwrap().len(), 2);
    assert_eq!(listed_targets(&targets, true, BackendAdapter::Nvml).unwrap().len(), 1);
    assert_eq!(
        listed_targets(&targets[..1], true, BackendAdapter::Nvml).unwrap_err(),
        "no GPUs matched the selector"
    );
}

#[test]
fn requested_targets_keep_listed_ids() {
    let targets = [
        TargetCaps {
            id: 1,
            has_nvapi: true,
            has_nvml: true,
        },
        TargetCaps {
            id: 2,
            has_nvapi: false,
            has_nvml: true,
        },
        TargetCaps {
            id: 3,
            has_nvapi: false,
            has_nvml: true,
        },
    ];
    let got = requested_targets(&targets, &[3, 1], Command::SetThermalLimitC, BackendAdapter::Nvml).unwrap();
    assert_eq!(got.iter().map(|t| t.id).collect::<Vec<_>>(), vec![1, 3]);
    assert_eq!(
        requested_targets(&targets, &[2], Command::SetThermalLimitC, BackendAdapter::Nvapi).unwrap_err(),
        "no selected GPUs expose the nvapi backend required by set-thermal-limit-c"
    );
}
