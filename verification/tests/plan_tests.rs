use nvoc::edid::edid_hex_splits_char_check;
use nvoc::plan::{incompatible_precision_error, runnable_precisions};
use nvoc::settings::{resolve_verify_settings, FileVerifySettings};
use nvoc::stress::{parse_precision_list, KernelType};
use nvoc::verify::{vexpected_host, vhash32, VerifyConfig};

#[test]
fn fp8_is_dropped_when_disabled() {
    let precisions = parse_precision_list("fp32,fp8,fp16").unwrap();
    let (kept, skipped) = runnable_precisions(&precisions, false).unwrap();
    assert_eq!(skipped, 1);
    assert_eq!(kept.iter().map(|p| p.name).collect::<Vec<_>>(), vec!["FP32", "FP16"]);
    let (kept, skipped) = runnable_precisions(&precisions, true).unwrap();
    assert_eq!((kept.len(), skipped), (3, 0));
    let only_fp8 = parse_precision_list("fp8").unwrap();
    assert_eq!(
        runnable_precisions(&only_fp8, false).unwrap_err(),
        "No runnable precision modes available"
    );
}

#[test]
fn precisions_without_a_kernel_are_refused() {
    let ints = parse_precision_list("int16,fp32").unwrap();
    assert_eq!(
        incompatible_precision_error(&ints, &[KernelType::Gemm]).unwrap(),
        "Precision(s) [INT16] have no compatible kernel in --kernel-types \
         (INT16/INT32 have no GEMM path; add `intalu` to --kernel-types). \
         Aborting; pick a compatible --kernel-types combination."
    );
    assert_eq!(
        incompatible_precision_error(&ints, &[KernelType::IntAlu]).unwrap(),
        "Precision(s) [FP32] have no compatible kernel in --kernel-types \
         (INTALU supports only INT8/INT16/INT32). \
         Aborting; pick a compatible --kernel-types combination."
    );
    assert_eq!(incompatible_precision_error(&ints, &[KernelType::Gemm, KernelType::IntAlu]), None);
}

#[test]
fn verify_section_fills_defaults_and_flags_override() {
    let file = FileVerifySettings {
        enabled: Some(true),
        self_test: Some(true),
        full_check_max_size: Some(256),
        continue_on_error: None,
        resident_interval_s: Some(9.0),
        memcpy_every: Some(3),
        memset_every: None,
        gemm_every: None,
        gemm_samples: Some(64),
        intalu_samples: None,
        int8_validate_size: None,
    };
    let r = resolve_verify_settings(Some(file), false, true, 2.5, true);
    let d = VerifyConfig::default();
    assert!(r.config.enabled);
    assert!(!r.config.self_test);
    assert_eq!(r.config.full_check_max_size, 256);
    assert_eq!(r.config.memcpy_every, 3);
    assert_eq!(r.config.memset_every, d.memset_every);
    assert_eq!(r.config.gemm_samples, 64);
    assert!(r.continue_on_error);
    assert_eq!(r.resident_interval_s, 2.5);
    let off = resolve_verify_settings::<f64>(None, true, false, 1.0, false);
    assert!(!off.config.enabled);
    assert!(off.config.self_test);
    assert!(!off.continue_on_error);
}

#[test]
fn edid_hex_check_finds_split_characters() {
    assert!(edid_hex_splits_char_check("0é0"));
    assert!(!edid_hex_splits_char_check("é00"));
    assert!(!edid_hex_splits_char_check("00ab"));
    assert!(!edid_hex_splits_char_check("0é"));
}

#[test]
fn vexpected_wraps_at_the_last_index() {
    assert_eq!(vexpected_host(u64::MAX, 0x1234), vhash32(0x1234));
}
