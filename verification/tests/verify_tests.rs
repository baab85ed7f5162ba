use nvoc::verify::DetectorState;
use nvoc::verify::{injection_check, kernel_error_check, pattern_clean_check, self_test_report};
use nvoc::verify::GemmStats;
use nvoc::verify::{
    classify, dp4a_ref, intalu_ref_element, lane_seed, vexpected_host, vhash32, DetectorStats,
    SampleStats, VerdictClass, VerifyConfig, VerifyReport, GOLDEN,
};

#[test]
fn vexpected_is_deterministic_and_seed_sensitive() {
    assert_eq!(vexpected_host(0, 1), vexpected_host(0, 1));
    assert_ne!(vexpected_host(0, 1), vexpected_host(0, 2));
    assert_ne!(vexpected_host(0, 1), vexpected_host(1, 1));
    assert_ne!(vexpected_host(0, 0), vexpected_host(0, 1));
}

#[test]
fn intalu_ref_matches_known_vectors() {
    let (a, mut b) = (1i32, 2i32);
    let mut acc = a;
    for _ in 0..32 {
        acc = acc.wrapping_mul(b).wrapping_add(a);
        b = b.wrapping_mul(1664525).wrapping_add(1013904223);
    }
    assert_eq!(intalu_ref_element(1, 2, 32, false), acc);
}

#[test]
fn dp4a_ref_matches_definition() {
    let a = 0x807F_0102u32 as i32;
    let b = 0x017F_0201u32 as i32;
    let a_bytes = a.to_le_bytes();
    let b_bytes = b.to_le_bytes();
    let expect: i32 = a_bytes
        .iter()
        .zip(b_bytes.iter())
        .map(|(x, y)| (*x as i8 as i32) * (*y as i8 as i32))
        .sum();
    assert_eq!(dp4a_ref(a, b), expect);
}

#[test]
fn mode_narrowing_matches_kernel_c_casts() {
    let acc: i32 = 0x8001_7FFFu32 as i32;
    let widened = (acc as i16 as i32) ^ ((acc >> 16) as i16 as i32);
    assert_eq!(widened, -2);
    let acc8: i32 = 0x807F_0102u32 as i32;
    let expect8 = (acc8 as i8 as i32)
        ^ (((acc8 >> 8) as i8) as i32)
        ^ (((acc8 >> 16) as i8) as i32)
        ^ (((acc8 >> 24) as i8) as i32);
    assert_eq!(expect8, 2 ^ 1 ^ 127 ^ -128);
}

#[test]
fn verify_config_cadence_is_stateless() {
    let cfg = VerifyConfig {
        memcpy_every: 3,
        ..VerifyConfig::default()
    };
    assert!(cfg.due(3, 9));
    assert!(!cfg.due(3, 10));
    assert!(!cfg.due(0, 0), "every=0 disables the check");
    let off = VerifyConfig {
        enabled: false,
        ..VerifyConfig::default()
    };
    assert!(!off.due(1, 0), "enabled=false disables every check");
}

#[test]
fn test_verify_report_layout_and_init() {
    assert_eq!(std::mem::size_of::<VerifyReport>(), 176);
    let report = VerifyReport::init();
    assert_eq!(report.magic, VerifyReport::MAGIC);
    assert_eq!(report.idx_min, u32::MAX);
    assert_eq!(report.first_lock, u32::MAX);
    assert_eq!(report.total_errors, 0);
}

#[test]
fn test_verify_config_defaults_and_cadence() {
    let cfg = VerifyConfig::default();
    assert!(cfg.enabled && cfg.self_test);
    assert_eq!(cfg.memcpy_every, 1);
    assert_eq!(cfg.memset_every, 8);
    assert_eq!(cfg.gemm_every, 4);
    assert_eq!(cfg.gemm_samples, 512);
    assert!(cfg.due(cfg.gemm_every, 8));
    assert!(!cfg.due(3, 8));
}

#[test]
fn test_intalu_ref_deterministic() {
    let a = 0x1234_5678u32 as i32;
    let b = 0xDEAD_BEEFu32 as i32;
    for mode in [8u32, 16, 32] {
        assert_eq!(
            intalu_ref_element(a, b, mode, false),
            intalu_ref_element(a, b, mode, false)
        );
        assert_ne!(
            intalu_ref_element(a, b, mode, false),
            intalu_ref_element(a, b, mode, true)
        );
    }
    assert_eq!(dp4a_ref(0x0101_0101, 0x0101_0101), 4);
}

#[test]
fn test_vexpected_matches_doc_example() {
    assert_eq!(
        vexpected_host(0xADBA, 0xADBA),
        vexpected_host(0xADBA, 0xADBA)
    );
    assert_ne!(vexpected_host(0, 0xADBA), vexpected_host(1, 0xADBA));
}

#[test]
fn test_classify_precedence() {
    assert_eq!(classify(false, 0, 0, 0), VerdictClass::SelfTestFailed);
    assert_eq!(classify(true, 0, 0, 2), VerdictClass::ApiError);
    assert_eq!(classify(true, 0, 1, 0), VerdictClass::MemoryError);
    assert_eq!(classify(true, 3, 0, 0), VerdictClass::DataError);
    assert_eq!(classify(true, 0, 0, 0), VerdictClass::NoError);
}

#[test]
fn test_detector_stats_merge() {
    let mut total = DetectorStats::default();
    let mut part = DetectorStats {
        ops_checked: 3,
        elements_checked: 100,
        total_errors: 1,
        mismatches: 0,
        nonfinite: 0,
        first_error: Some("memcpy verify: 1 wrong words".into()),
        bit_hist: [0; 32],
        fault_events: 1,
    };
    part.bit_hist[27] = 1;
    total.merge(&part);
    total.merge(&DetectorStats {
        ops_checked: 2,
        ..DetectorStats::default()
    });
    assert_eq!(total.ops_checked, 5);
    assert_eq!(total.elements_checked, 100);
    assert_eq!(total.total_errors, 1);
    let later = DetectorStats {
        ops_checked: 1,
        first_error: Some("later".into()),
        ..DetectorStats::default()
    };
    total.merge(&later);
    assert_eq!(
        total.first_error.as_deref(),
        Some("memcpy verify: 1 wrong words")
    );
}

#[test]
fn detector_merge_adds_histogram_and_fault_events() {
    let mut a = DetectorStats::default();
    a.bit_hist[3] = 2;
    a.fault_events = 4;
    let mut b = DetectorStats::default();
    b.bit_hist[3] = 5;
    b.bit_hist[31] = 1;
    b.fault_events = 6;
    a.merge(&b);
    assert_eq!(a.bit_hist[3], 7);
    assert_eq!(a.bit_hist[31], 1);
    assert_eq!(a.bit_hist[0], 0);
    assert_eq!(a.fault_events, 10);
    assert_eq!(a.first_error, None);
}

#[test]
fn detector_merge_with_default_is_identity() {
    let mut a = DetectorStats {
        ops_checked: 7,
        elements_checked: 9,
        total_errors: 2,
        mismatches: 1,
        nonfinite: 1,
        first_error: Some("x".into()),
        bit_hist: [1; 32],
        fault_events: 3,
    };
    let before = a.clone();
    a.merge(&DetectorStats::default());
    assert_eq!(a.ops_checked, before.ops_checked);
    assert_eq!(a.elements_checked, before.elements_checked);
    assert_eq!(a.bit_hist, before.bit_hist);
    assert_eq!(a.first_error, before.first_error);
}

#[test]
fn classify_clean_run_is_none_label() {
    assert_eq!(classify(true, 0, 0, 0).as_str(), "none");
    assert_eq!(VerdictClass::SelfTestFailed.as_str(), "self_test_failed");
    assert_eq!(VerdictClass::DataError.as_str(), "data_error");
    assert_eq!(VerdictClass::MemoryError.as_str(), "memory_error");
    assert_eq!(VerdictClass::ApiError.as_str(), "api_error");
}

#[test]
fn vhash32_known_values() {
    // splitmix64 finalizer of 0 is 0.
    assert_eq!(vhash32(0), 0);
    let mut x: u64 = 1;
    x ^= x >> 30;
    x = x.wrapping_mul(0xBF58_476D_1CE4_E5B9);
    x ^= x >> 27;
    x = x.wrapping_mul(0x94D0_49BB_1331_11EB);
    x ^= x >> 31;
    assert_eq!(vhash32(1), (x >> 32) as u32);
    assert_eq!(vexpected_host(0, 0), vhash32(GOLDEN));
}

#[test]
fn lane_seed_folds_lane_index() {
    assert_eq!(lane_seed(0, 0), GOLDEN);
    assert_eq!(lane_seed(5, 1), 5 ^ GOLDEN.wrapping_mul(2));
}

#[test]
fn sample_stats_init_is_zeroed() {
    let s = SampleStats::init();
    assert_eq!(s.checked, 0);
    assert_eq!(s.mismatch, 0);
    assert_eq!(s.nonfinite, 0);
    assert_eq!(s.max_abs_diff_bits, 0);
    assert_eq!(s.done, 0);
}

#[test]
fn verify_report_init_arms_counters() {
    let r = VerifyReport::init();
    assert_eq!(r.idx_max, 0);
    assert_eq!(r.checked, 0);
    assert_eq!(r.done, 0);
    assert!(r.bit_hist.iter().all(|&b| b == 0));
}

#[test]
fn pattern_reports_are_absorbed_and_first_failure_sticks() {
    let mut st = DetectorState::new();
    let mut r = VerifyReport::init();
    r.done = 4;
    st.absorb_pattern(&r, 100, 4, "memcpy verify");
    assert_eq!(st.drained.ops_checked, 1);
    assert_eq!(st.drained.elements_checked, 100);
    assert!(st.failure.is_none());
    r.total_errors = 1;
    r.idx_min = 7;
    r.idx_max = 7;
    r.first_exp = 0xAB;
    r.first_act = 0xAA;
    r.bit_hist[0] = 1;
    st.absorb_pattern(&r, 10, 4, "memcpy verify");
    let expected =
        "memcpy verify: 1 wrong words (idx 7..7, exp=0x000000AB act=0x000000AA, bits: bit0=1)";
    assert_eq!(st.failure.as_deref(), Some(expected));
    assert_eq!(st.drained.first_error.as_deref(), Some(expected));
    st.absorb_pattern(&r, 10, 5, "memset verify");
    assert_eq!(st.failure.as_deref(), Some(expected));
    st.absorb_intalu(16, 2, Some("intalu mismatch".to_string()));
    assert_eq!(st.drained.mismatches, 2);
    assert_eq!(st.failure.as_deref(), Some(expected));
    let taken = st.drain();
    assert_eq!(taken.ops_checked, 4);
    assert_eq!(st.drained.ops_checked, 0);
    assert!(st.failure.is_none());
    st.absorb_pattern(&r, 1, 9, "gemm");
    assert_eq!(
        st.failure.as_deref(),
        Some("gemm: report completion counter mismatch (done=4, expected=9)")
    );
}

#[test]
fn self_test_gates() {
    let mut r = VerifyReport::init();
    r.done = 3;
    let clean = pattern_clean_check(&r, 3);
    assert!(clean.passed);
    assert_eq!(clean.name, "pattern_clean");
    assert_eq!(clean.detail, "total_errors=0, done=3 (expected 3)");
    assert!(!pattern_clean_check(&r, 2).passed);
    let mut inj = VerifyReport::init();
    inj.total_errors = 1;
    inj.idx_min = VerifyReport::SELF_TEST_IDX;
    inj.idx_max = VerifyReport::SELF_TEST_IDX;
    inj.first_exp = 0x0040_0001;
    inj.first_act = 0x0000_0001;
    inj.bit_hist[22] = 1;
    let c = injection_check(&inj);
    assert!(c.passed);
    assert_eq!(
        c.detail,
        "total_errors=1, idx=44474..44474 (want 44474..44474), xor=0x00400000 (want 0x00400000), bit_hist[22]=1"
    );
    inj.bit_hist[3] = 1;
    assert!(!injection_check(&inj).passed);
    let k = kernel_error_check("pattern_clean", "launch failed");
    assert!(!k.passed);
    assert_eq!(k.detail, "kernel error: launch failed");
    let report = self_test_report(vec![clean.clone(), k]);
    assert!(!report.passed);
    assert!(self_test_report(vec![clean]).passed);
}

#[test]
fn gemm_stats_start_at_zero() {
    let s = GemmStats::init();
    assert_eq!(s.nonfinite, 0);
    assert_eq!(s.zero, 0);
    assert_eq!(f32::from_bits(s.abs_sum_bits), 0.0);
    assert_eq!(s.done, 0);
}
