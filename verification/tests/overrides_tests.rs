use nvoc::overrides::{
    filter_supported_kernel_precisions, merge_kernel_overrides, resolve_kernel_params,
    RunDefaults,
};
use nvoc::stress::{
    estimate_kernel_work_flops, parse_precision, parse_precision_list, DeviceInfo,
    KernelParamOverride, KernelType, Precision, PrecisionMixtureEntry,
};

fn empty(kind: KernelType) -> KernelParamOverride<f64> {
    KernelParamOverride {
        kind,
        precisions: None,
        precision_mixture: None,
        matrix_sizes: None,
        warmup_iters: None,
        burst_iters: None,
        transpose_prob: None,
        minor_mixture_rate: None,
    }
}

#[test]
fn intalu_flops_estimate() {
    assert_eq!(
        estimate_kernel_work_flops(KernelType::IntAlu, 1024, 10),
        1024u128 * 1024 * 64 * 10
    );
}

#[test]
fn flops_per_kernel() {
    assert_eq!(estimate_kernel_work_flops(KernelType::Gemm, 4, 2), 2 * 64 * 2);
    assert_eq!(estimate_kernel_work_flops(KernelType::Transpose, 4, 2), 2 * 16 * 2);
    assert_eq!(estimate_kernel_work_flops(KernelType::Memcpy, 4, 2), 32);
    assert_eq!(estimate_kernel_work_flops(KernelType::Gemm, 0, 2), 0);
}

#[test]
fn trial_precisions() {
    assert_eq!(Precision::Bf16.as_str(), "BF16");
    assert!(!Precision::Tf32.is_deterministic());
    assert!(Precision::Fp64.is_deterministic());
}

#[test]
fn cli_overrides_update_profile_fields() {
    let mut base_gemm = empty(KernelType::Gemm);
    base_gemm.warmup_iters = Some(2);
    base_gemm.matrix_sizes = Some(vec![1024]);
    let base = vec![base_gemm, empty(KernelType::Memcpy)];
    let mut cli_gemm = empty(KernelType::Gemm);
    cli_gemm.burst_iters = Some(8);
    cli_gemm.transpose_prob = Some(0.5);
    let mut cli_atomic = empty(KernelType::Atomic);
    cli_atomic.warmup_iters = Some(1);
    let merged = merge_kernel_overrides(base, vec![cli_gemm, cli_atomic]);
    assert_eq!(merged.len(), 3);
    assert_eq!(merged[0].kind, KernelType::Gemm);
    assert_eq!(merged[0].warmup_iters, Some(2));
    assert_eq!(merged[0].burst_iters, Some(8));
    assert_eq!(merged[0].matrix_sizes, Some(vec![1024]));
    assert_eq!(merged[0].transpose_prob, Some(0.5));
    assert_eq!(merged[2].kind, KernelType::Atomic);
}

#[test]
fn resolution_falls_back_to_run_defaults() {
    let defaults = RunDefaults {
        matrix_sizes: vec![512, 2048],
        warmup_iters: 3,
        burst_iters: 5,
        transpose_prob: 0.25,
        minor_mixture_rate: 0.1,
    };
    let mut o = empty(KernelType::Gemm);
    o.burst_iters = Some(9);
    o.precisions = Some(parse_precision_list("fp16").unwrap());
    let r = resolve_kernel_params(KernelType::Gemm, &[o.clone()], &defaults);
    assert_eq!(r.burst_iters, 9);
    assert_eq!(r.warmup_iters, 3);
    assert_eq!(r.matrix_sizes, vec![512, 2048]);
    assert!(r.matrix_sizes_default);
    assert_eq!(r.precisions.unwrap().len(), 1);
    assert_eq!(r.transpose_prob, 0.25);
    let r = resolve_kernel_params(KernelType::Memset, &[o], &defaults);
    assert!(r.precisions.is_none());
    assert_eq!(r.burst_iters, 5);
}

#[test]
fn unsupported_precisions_are_dropped_with_notes() {
    let turing = DeviceInfo {
        name: "T".into(),
        compute_capability: Some((7, 5)),
    };
    let mut o = empty(KernelType::Gemm);
    o.precisions = Some(parse_precision_list("bf16,fp32").unwrap());
    o.precision_mixture = Some(vec![PrecisionMixtureEntry {
        spec: parse_precision("fp8").unwrap(),
        weight: 1.0,
    }]);
    let (kept, notes) = filter_supported_kernel_precisions(&turing, &[o]);
    assert_eq!(kept.len(), 1);
    assert_eq!(kept[0].precisions.as_ref().unwrap().len(), 1);
    assert!(kept[0].precision_mixture.is_none());
    assert_eq!(
        notes,
        vec![
            "Kernel GEMM precision BF16 unsupported on this device, skipping it".to_string(),
            "Kernel GEMM precision FP8 E4M3FN unsupported on this device, skipping it".to_string()
        ]
    );
}
