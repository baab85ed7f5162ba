use nvoc::golden::{ResultType, bits_identical, compare_bits, golden_bytes, parse_golden};

fn bits(v: &[f32]) -> Vec<u32> {
    v.iter().map(|x| x.to_bits()).collect()
}

#[test]
fn golden_save_load_roundtrip() {
    let data: Vec<f32> = (0..1024).map(|x| x as f32 * 0.001).collect();
    let bytes = golden_bytes(&bits(&data));
    let loaded: Vec<f32> = parse_golden(&bytes, 32, "golden.bin")
        .unwrap()
        .into_iter()
        .map(f32::from_bits)
        .collect();
    assert_eq!(data.len(), loaded.len());
    for (a, b) in data.iter().zip(loaded.iter()) {
        assert_eq!(a.to_bits(), b.to_bits(), "bit mismatch after round-trip");
    }
}

#[test]
fn golden_bytes_are_little_endian() {
    assert_eq!(golden_bytes(&[0x0403_0201, 0xA0B0_C0D0]), vec![1, 2, 3, 4, 0xD0, 0xC0, 0xB0, 0xA0]);
}

#[test]
fn golden_of_wrong_size_is_refused() {
    let err = parse_golden(&[0u8; 12], 2, "run.golden").unwrap_err();
    assert_eq!(err, "golden file run.golden has 12 bytes, expected 16 (N=2)");
}

#[test]
fn compare_detects_bit_flip() {
    let golden = vec![1.0f32; 64];
    let mut c = golden.clone();
    c[17] = f32::from_bits(c[17].to_bits() ^ 1);
    let (result_type, hamming) = compare_bits(&bits(&c), &bits(&golden));
    assert_eq!(result_type, ResultType::Sdc);
    assert_eq!(hamming, 1);
}

#[test]
fn compare_of_identical_results_passes() {
    let golden = vec![0.5f32; 16];
    assert_eq!(compare_bits(&bits(&golden), &bits(&golden)), (ResultType::Pass, 0));
}

#[test]
fn compare_fast_detects_pass() {
    let golden = vec![1.0f32; 1024];
    let c = golden.clone();
    assert!(bits_identical(&bits(&c), &bits(&golden)));
}

#[test]
fn compare_fast_detects_difference() {
    let golden = vec![1.0f32; 1024];
    let mut c = golden.clone();
    c[500] = 2.0;
    assert!(!bits_identical(&bits(&c), &bits(&golden)));
}
