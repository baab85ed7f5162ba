use nvoc::vbios::{fermi_model_blocks, find_bit, hex, parse_bit};

fn synthetic(sizes: [u8; 4]) -> Vec<u8> {
    let mut img = vec![0u8; 0x400];
    img[0] = 0x55;
    img[1] = 0xAA;
    let bit = 0x40;
    img[bit..bit + 3].copy_from_slice(b"BIT");
    img[bit + 3] = 0x00;
    let t = bit + 16;
    img[t..t + 6].copy_from_slice(&[b'P', 2, sizes[0], 0, 0x00, 0x01]);
    img[t + 6..t + 12].copy_from_slice(&[b'V', 1, sizes[1], 0, 0x10, 0x01]);
    img[t + 12..t + 18].copy_from_slice(&[b'S', 2, sizes[2], 0, 0x20, 0x01]);
    img[t + 18..t + 24].copy_from_slice(&[b'i', 2, sizes[3], 0, 0x30, 0x01]);
    img[t + 24..t + 30].copy_from_slice(&[0; 6]);
    img
}

#[test]
fn bit_scan_finds_signature() {
    let mut img = vec![0u8; 0x200];
    img[0] = 0x55;
    img[1] = 0xAA;
    img[0x1a6..0x1a9].copy_from_slice(b"BIT");
    assert_eq!(find_bit(&img), Some(0x1a6));
}

#[test]
fn token_table_anchor_scan() {
    let img = synthetic([4, 6, 8, 10]);
    let sum = parse_bit(&img).expect("parse");
    assert_eq!(sum.bit_offset, 0x40);
    assert_eq!(sum.tokens.len(), 4);
    assert_eq!(sum.tokens[0].token, 'P');
    assert_eq!(sum.tokens[1].token, 'V');
    assert_eq!(sum.tokens[1].size, 6);
    assert_eq!(sum.tokens[3].token, 'i');
}

#[test]
fn no_bit_signature_errors() {
    let img = vec![0u8; 0x100];
    assert!(parse_bit(&img).is_err());
}

#[test]
fn token_raw_slices_sub_table() {
    let mut img = synthetic([4, 2, 2, 2]);
    let bit = 0x40;
    img[bit + 0x100..bit + 0x104].copy_from_slice(&[0xde, 0xad, 0xbe, 0xef]);
    let sum = parse_bit(&img).expect("parse");
    assert_eq!(
        sum.token_raw(&img, 'P'),
        Some(&[0xde, 0xad, 0xbe, 0xef][..])
    );
    assert_eq!(sum.token_raw(&img, 'Q'), None);
}

#[test]
fn find_bit_absent_and_first_match() {
    assert_eq!(find_bit(&[]), None);
    assert_eq!(find_bit(b"BI"), None);
    assert_eq!(find_bit(b"xxBITyyBIT"), Some(2));
}

#[test]
fn no_anchored_chain_errors() {
    let mut img = vec![0u8; 0x100];
    img[0x10..0x13].copy_from_slice(b"BIT");
    let err = parse_bit(&img).unwrap_err();
    assert!(err.contains("BIT token table not found"));
}

#[test]
fn hex_is_lower_case() {
    assert_eq!(hex(&[0x00, 0xab, 0xff, 0x10]), "00abff10");
    assert_eq!(hex(&[]), "");
}

#[test]
fn fermi_blocks_pick_perf_and_voltage_tables() {
    let mut img = synthetic([4, 2, 2, 2]);
    let bit = 0x40;
    img[bit + 0x100..bit + 0x104].copy_from_slice(&[0x10, 0x22, 0x33, 0x44]);
    img[bit + 0x110..bit + 0x112].copy_from_slice(&[0x05, 0x06]);
    let sum = parse_bit(&img).expect("parse");
    let (perf, blocks) = fermi_model_blocks(&img, &sum);
    let perf = perf.expect("perf table");
    assert_eq!(perf.token, 'P');
    assert_eq!(perf.layout_version, Some(0x22));
    assert_eq!(perf.raw, vec![0x10, 0x22, 0x33, 0x44]);
    assert_eq!(blocks.len(), 1);
    assert_eq!(blocks[0].token, 'V');
    assert_eq!(blocks[0].raw, vec![0x05, 0x06]);
}

#[test]
fn every_parsed_token_table_can_be_read_back() {
    let img = synthetic([4, 6, 8, 10]);
    let sum = parse_bit(&img).expect("parse");
    for t in &sum.tokens {
        let raw = sum.token_raw(&img, t.token).expect("sub-table inside the image");
        assert_eq!(raw.len(), t.size as usize);
    }
}
