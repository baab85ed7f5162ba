use nvoc::stress::{int8_tensor_op_warning, nvrtc_arch_for};
use nvoc::stress::{
    filter_atomic_for_sm, has_int8_tensor_cores, is_int_precision, kernel_precision_compatible,
    lane_count, parse_int_list, parse_kernel_type, parse_kernel_type_list, parse_precision,
    parse_precision_list, parse_stream_mode, validate_intalu_precision_overrides, DeviceInfo,
    KernelParamOverride, KernelType, PrecisionKind, PrecisionMixtureEntry, PrecisionSpec, StreamMode,
};

fn empty(kind: KernelType) -> KernelParamOverride<f64> {
    KernelParamOverride {
        kind,
        precisions: None,
        precision_mixture: None,
        matrix_sizes: None,
        warmup_iters: None,
        burst_iters: None,
        transpose_prob: None,
        minor_mixture_rate: None,
    }
}

fn int_spec(kind: PrecisionKind) -> PrecisionSpec {
    PrecisionSpec {
        name: "INT",
        kind,
        tf32_enabled: None,
    }
}

#[test]
fn test_parse_int_list() {
    assert_eq!(parse_int_list("1024").unwrap(), vec![1024]);
    assert_eq!(
        parse_int_list("512, 1024, 2048").unwrap(),
        vec![512, 1024, 2048]
    );
    assert!(parse_int_list("").is_err());
}

#[test]
fn test_parse_kernel_type_list() {
    let kinds = parse_kernel_type_list("gemm, memcpy, reduction, atomic").unwrap();
    assert_eq!(
        kinds,
        vec![
            KernelType::Gemm,
            KernelType::Memcpy,
            KernelType::Reduction,
            KernelType::Atomic
        ]
    );
}

#[test]
fn test_parse_stream_mode() {
    let mode = parse_stream_mode("dual").unwrap();
    assert_eq!(mode.stream_count(), 2);
}

#[test]
fn parse_int_precision_keys_and_aliases() {
    let specs = parse_precision_list("int8,i8,int16,i16,int32,i32").expect("int keys parse");
    let kinds: Vec<_> = specs.iter().map(|s| s.kind).collect();
    assert_eq!(
        kinds,
        vec![
            PrecisionKind::INT8,
            PrecisionKind::INT8,
            PrecisionKind::INT16,
            PrecisionKind::INT16,
            PrecisionKind::INT32,
            PrecisionKind::INT32,
        ]
    );
}

#[test]
fn unknown_int_precision_rejected() {
    assert!(parse_precision_list("int64").is_err());
}

#[test]
fn parse_intalu_kernel_type() {
    assert_eq!(parse_kernel_type("intalu").unwrap(), KernelType::IntAlu);
    assert_eq!(parse_kernel_type("ialu").unwrap(), KernelType::IntAlu);
    assert_eq!(parse_kernel_type("int").unwrap(), KernelType::IntAlu);
    assert_eq!(KernelType::IntAlu.as_str(), "INTALU");
}

#[test]
fn int_precisions_supported_on_any_sm() {
    let old_gpu = DeviceInfo {
        name: "OldGPU".into(),
        compute_capability: Some((6, 1)),
    };
    for kind in [
        PrecisionKind::INT8,
        PrecisionKind::INT16,
        PrecisionKind::INT32,
    ] {
        assert!(old_gpu.supports_precision(&int_spec(kind)).is_ok());
    }
    let unknown = DeviceInfo {
        name: "MysteryGPU".into(),
        compute_capability: None,
    };
    assert!(unknown
        .supports_precision(&int_spec(PrecisionKind::INT8))
        .is_ok());
}

#[test]
fn kernel_precision_compatibility_matrix() {
    assert!(!kernel_precision_compatible(KernelType::Gemm, PrecisionKind::INT16));
    assert!(!kernel_precision_compatible(KernelType::Gemm, PrecisionKind::INT32));
    assert!(kernel_precision_compatible(KernelType::IntAlu, PrecisionKind::INT16));
    assert!(kernel_precision_compatible(KernelType::IntAlu, PrecisionKind::INT32));
    assert!(kernel_precision_compatible(KernelType::Gemm, PrecisionKind::INT8));
    assert!(kernel_precision_compatible(KernelType::IntAlu, PrecisionKind::INT8));
    for kind in [
        PrecisionKind::FP64,
        PrecisionKind::FP32,
        PrecisionKind::TF32,
        PrecisionKind::FP16,
        PrecisionKind::BF16,
        PrecisionKind::FP8E4M3FN,
    ] {
        assert!(!kernel_precision_compatible(KernelType::IntAlu, kind));
    }
    assert!(kernel_precision_compatible(KernelType::Gemm, PrecisionKind::FP32));
}

#[test]
fn intalu_precision_overrides_reject_floats() {
    let mut item = empty(KernelType::IntAlu);
    item.precisions = Some(parse_precision_list("fp16|fp32".replace('|', ",").as_str()).unwrap());
    let invalid = vec![item];
    let err = validate_intalu_precision_overrides(&invalid).unwrap_err();
    assert!(err.contains("INTALU supports only INT8/INT16/INT32"));
    assert!(err.contains("FP16"));
    assert!(err.contains("FP32"));

    let mut item = empty(KernelType::IntAlu);
    item.precision_mixture = Some(
        parse_precision_list("fp16,int32")
            .unwrap()
            .into_iter()
            .map(|spec| PrecisionMixtureEntry { spec, weight: 0.5 })
            .collect(),
    );
    let invalid_mixture = vec![item];
    assert!(validate_intalu_precision_overrides(&invalid_mixture).is_err());

    let mut item = empty(KernelType::IntAlu);
    item.precisions = Some(parse_precision_list("int8,int16,int32").unwrap());
    let valid = vec![item];
    assert!(validate_intalu_precision_overrides(&valid).is_ok());
}

#[test]
fn float_overrides_on_gemm_are_not_checked() {
    let mut item = empty(KernelType::Gemm);
    item.precisions = Some(parse_precision_list("fp16").unwrap());
    let gemm = vec![item];
    assert!(validate_intalu_precision_overrides(&gemm).is_ok());
}

#[test]
fn int_list_rejects_garbage_and_zero_handling() {
    assert!(parse_int_list("12x").is_err());
    assert!(parse_int_list(" , ").is_err());
    assert_eq!(parse_int_list("0").unwrap(), vec![0]);
}

#[test]
fn kernel_type_aliases_and_errors() {
    assert_eq!(parse_kernel_type(" Copy ").unwrap(), KernelType::Memcpy);
    assert_eq!(parse_kernel_type("fill").unwrap(), KernelType::Memset);
    assert_eq!(parse_kernel_type("reduce").unwrap(), KernelType::Reduction);
    assert_eq!(
        parse_kernel_type("warp").unwrap_err(),
        "unsupported kernel type: warp"
    );
    assert_eq!(KernelType::Gemm.as_str(), "GEMM");
}

#[test]
fn kernel_type_list_dedups_in_order() {
    let kinds = parse_kernel_type_list("memcpy,gemm,copy,gemm").unwrap();
    assert_eq!(kinds, vec![KernelType::Memcpy, KernelType::Gemm]);
    assert!(parse_kernel_type_list("").is_err());
}

#[test]
fn stream_modes_and_lanes() {
    assert_eq!(parse_stream_mode("single").unwrap(), StreamMode::Single);
    assert_eq!(parse_stream_mode("triple").unwrap().stream_count(), 3);
    assert_eq!(StreamMode::Single.stream_count(), 1);
    assert!(parse_stream_mode("quad").is_err());
    assert_eq!(lane_count(StreamMode::Dual), 2);
}

#[test]
fn precision_parsing() {
    let p = parse_precision("fp32").unwrap();
    assert_eq!(p.kind, PrecisionKind::FP32);
    assert!(parse_precision("fp128").is_err());
    assert!(is_int_precision(PrecisionKind::INT16));
    assert!(!is_int_precision(PrecisionKind::BF16));
}

#[test]
fn device_capability_rules() {
    let turing = DeviceInfo {
        name: "T".into(),
        compute_capability: Some((7, 5)),
    };
    assert!(has_int8_tensor_cores(&turing));
    let err = turing
        .supports_precision(&PrecisionSpec {
            name: "BF16",
            kind: PrecisionKind::BF16,
            tf32_enabled: None,
        })
        .unwrap_err();
    assert_eq!(err, "BF16 requires SM80 or higher (current: SM7.5)");
    let mut kinds = vec![KernelType::Gemm, KernelType::Atomic, KernelType::Memcpy];
    filter_atomic_for_sm(&mut kinds, &turing);
    assert_eq!(kinds, vec![KernelType::Gemm, KernelType::Memcpy]);
    let ampere = DeviceInfo {
        name: "A".into(),
        compute_capability: Some((8, 6)),
    };
    let mut kinds = vec![KernelType::Atomic];
    filter_atomic_for_sm(&mut kinds, &ampere);
    assert_eq!(kinds, vec![KernelType::Atomic]);
    let err = ampere
        .supports_precision(&PrecisionSpec {
            name: "FP8",
            kind: PrecisionKind::FP8E4M3FN,
            tf32_enabled: None,
        })
        .unwrap_err();
    assert_eq!(err, "FP8 requires SM89 or higher (current: SM8.6)");
}

#[test]
fn nvrtc_targets_and_int8_warning() {
    let pascal = DeviceInfo {
        name: "P".into(),
        compute_capability: Some((6, 1)),
    };
    let hopper = DeviceInfo {
        name: "H".into(),
        compute_capability: Some((9, 0)),
    };
    let blackwell = DeviceInfo {
        name: "B".into(),
        compute_capability: Some((12, 0)),
    };
    let unknown = DeviceInfo {
        name: "U".into(),
        compute_capability: None,
    };
    assert_eq!(nvrtc_arch_for(&pascal), "compute_61");
    assert_eq!(nvrtc_arch_for(&hopper), "compute_90");
    assert_eq!(nvrtc_arch_for(&blackwell), "compute_90");
    assert_eq!(nvrtc_arch_for(&unknown), "compute_75");
    let int8 = parse_precision_list("fp32,int8").unwrap();
    assert_eq!(
        int8_tensor_op_warning(&int8, &pascal).unwrap(),
        "INT8 GEMM tensor cores (IMMA) require SM>=7.5 (detected SM6.1); cuBLAS will use a scalar/DP4A INT8 path (slower, but valid stress)"
    );
    assert!(int8_tensor_op_warning(&int8, &hopper).is_none());
    let fp = parse_precision_list("fp32").unwrap();
    assert!(int8_tensor_op_warning(&fp, &pascal).is_none());
}
