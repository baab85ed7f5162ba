use nvoc::values::{all_fan_indices, is_all_fans};
use nvoc::cli::{BackendChoice, Command, Invocation, OutputFormat};
use nvoc::edid::{bytes_to_upper_hex, parse_display_id, parse_edid, parse_edid_hex, EdidValue};
use nvoc::values::{
    api_restriction_api_label, domain_label, mhz_to_khz_i32, mhz_to_khz_u32, option_bool,
    option_domain, option_vfp_reset_domain, parse_api_restriction_api,
    parse_api_restriction_state, parse_bool, parse_cooler_target, parse_domain, parse_i32_unit,
    parse_u32, parse_u32_unit, parse_usize, strip_unit, vfp_reset_domain_label, ClockDomain,
    CoolerTarget, RestrictedApi, VfpResetDomain,
};

#[test]
fn parses_units() {
    assert_eq!(parse_i32_unit("-125MHz", "mhz", "mhz").unwrap(), -125);
    assert_eq!(parse_u32_unit("350W", "w", "watt").unwrap(), 350);
    assert_eq!(parse_u32_unit("350watts", "w", "watt").unwrap(), 350);
    assert_eq!(parse_u32_unit("90%", "%", "percent").unwrap(), 90);
    assert_eq!(parse_u32_unit("90percent", "%", "percent").unwrap(), 90);
    assert_eq!(parse_i32_unit("83celsius", "c", "celsius").unwrap(), 83);
    assert_eq!(mhz_to_khz_i32(150).unwrap(), 150_000);
    assert_eq!(mhz_to_khz_u32(150).unwrap(), 150_000);
    assert!(mhz_to_khz_u32(u32::MAX).is_err());
    assert_eq!(bytes_to_upper_hex(&[0x00, 0xab, 0xff]), "00ABFF");
    assert_eq!(parse_display_id("0x00010001").unwrap(), 0x00010001);
    assert_eq!(parse_display_id("00010001").unwrap(), 0x00010001);
    assert_eq!(parse_edid_hex("00abFF").unwrap(), vec![0x00, 0xab, 0xff]);
    assert!(parse_display_id("display-1").is_err());
    assert!(parse_edid_hex("ABC").is_err());
    assert!(parse_edid_hex("00GG").is_err());
}

#[test]
fn parse_edid_interprets_real_u2790b_block() {
    let hex = "00FFFFFFFFFFFF0005E39027B91401001F1D0103803C22782A67A1A5554DA2270E5054BFEF00D1C0B30095008180814081C0010101014DD000A0F0703E803020350055502100001AA36600A0F0701F803020350055502100001A000000FC005532373930420A202020202020000000FD0017501EA03C000A20202020202001DC020333F14C9004031F1301125D5E5F606123090707830100006D030C001000387820006001020367D85DC401788003E30F000C565E00A0A0A029503020350055502100001E023A801871382D40582C450055502100001E011D007251D01E206E28550055502100001E4D6C80A070703E8030203A0055502100001A000000004E";
    let edid = parse_edid_hex(hex).unwrap();
    let fields = parse_edid(&edid);

    let lookup = |key: &str| -> String {
        fields
            .iter()
            .find(|(k, _)| k == key)
            .map(|(_, v)| match v {
                EdidValue::Text(s) => s.clone(),
                EdidValue::Number(_) => String::new(),
            })
            .unwrap_or_default()
    };

    assert_eq!(lookup("Manufacturer"), "AOC");
    assert_eq!(lookup("Model Name"), "U2790B");
    assert_eq!(lookup("Input Signal"), "Digital");
    assert_eq!(
        lookup("Range Limits"),
        "23~80 Hz (V) | 30~160 kHz (H) | Max 600 MHz"
    );
    assert!(!fields.is_empty());
    assert!(parse_edid(&[0u8; 64]).is_empty());
    assert!(parse_edid(&[0xFFu8; 128]).is_empty());
}

#[test]
fn parse_edid_decodes_header_fields() {
    let hex = "00FFFFFFFFFFFF0005E39027B91401001F1D0103803C22782A67A1A5554DA2270E5054BFEF00D1C0B30095008180814081C0010101014DD000A0F0703E803020350055502100001AA36600A0F0701F803020350055502100001A000000FC005532373930420A202020202020000000FD0017501EA03C000A20202020202001DC";
    let edid = parse_edid_hex(hex).unwrap();
    let fields = parse_edid(&edid);
    let labels: Vec<&str> = fields.iter().map(|(k, _)| k.as_str()).collect();
    assert_eq!(
        labels,
        vec![
            "Manufacturer",
            "Product Code",
            "Serial Number",
            "Manufactured",
            "Input Signal",
            "Screen Size",
            "Gamma",
            "DPMS Features",
            "Color Format",
            "Native Res",
            "Model Name",
            "Range Limits"
        ]
    );
    assert_eq!(fields[1].1, EdidValue::Text("0x2790".to_string()));
    assert_eq!(fields[2].1, EdidValue::Number(0x000114B9));
    assert_eq!(fields[3].1, EdidValue::Text("Week 31, 2019".to_string()));
    assert_eq!(fields[5].1, EdidValue::Text("60 cm x 34 cm".to_string()));
    assert_eq!(fields[6].1, EdidValue::Text("2.20".to_string()));
    assert_eq!(fields[7].1, EdidValue::Text("ActiveOff".to_string()));
    assert_eq!(
        fields[8].1,
        EdidValue::Text("RGB 4:4:4 & YCrCb 4:4:4".to_string())
    );
    assert_eq!(fields[9].1, EdidValue::Text("3840x2160".to_string()));
}

#[test]
fn edid_hex_round_trips_and_reports_offsets() {
    let bytes: Vec<u8> = (0u8..=255).collect();
    let text = bytes_to_upper_hex(&bytes);
    assert_eq!(parse_edid_hex(&text).unwrap(), bytes);
    assert_eq!(
        parse_edid_hex("00zz").unwrap_err(),
        "invalid EDID hex byte at offset 2"
    );
    assert_eq!(
        parse_edid_hex("abc").unwrap_err(),
        "EDID hex must contain an even number of digits"
    );
    assert_eq!(parse_edid_hex("  0a1B ").unwrap(), vec![0x0a, 0x1b]);
    assert_eq!(parse_edid_hex("").unwrap(), Vec::<u8>::new());
    assert_eq!(
        parse_edid_hex("éé").unwrap_err(),
        "invalid EDID hex byte at offset 0"
    );
}

#[test]
fn display_id_errors_quote_input() {
    assert_eq!(
        parse_display_id(" x1 ").unwrap_err(),
        "invalid display ID \" x1 \"; expected hex"
    );
    assert_eq!(parse_display_id("0XfF").unwrap(), 255);
}

#[test]
fn parses_domain_aliases() {
    assert_eq!(parse_domain("core").unwrap(), ClockDomain::Graphics);
    assert_eq!(parse_domain("mem").unwrap(), ClockDomain::Memory);
}

#[test]
fn keyword_parsers() {
    assert_eq!(parse_domain(" SM ").unwrap(), ClockDomain::Processor);
    assert_eq!(
        parse_domain("Shader").unwrap_err(),
        "invalid domain \"shader\"; expected core, memory, processor, or video"
    );
    assert_eq!(domain_label(ClockDomain::Video), "video");
    assert!(parse_bool("Yes").unwrap());
    assert!(!parse_bool("off").unwrap());
    assert_eq!(
        parse_bool("maybe").unwrap_err(),
        "invalid bool \"maybe\"; expected on/off"
    );
    assert_eq!(parse_cooler_target("0").unwrap(), CoolerTarget::Cooler1);
    assert_eq!(parse_cooler_target("ALL").unwrap(), CoolerTarget::All);
    assert_eq!(parse_cooler_target("2").unwrap(), CoolerTarget::Cooler2);
    assert!(parse_cooler_target("3").is_err());
    assert!(parse_api_restriction_state("Restricted").unwrap());
    assert!(!parse_api_restriction_state("open").unwrap());
    assert!(parse_api_restriction_state("closed").is_err());
    assert_eq!(
        parse_api_restriction_api("application-clocks").unwrap(),
        RestrictedApi::ApplicationClocks
    );
    assert_eq!(
        parse_api_restriction_api("autoboost").unwrap(),
        RestrictedApi::AutoBoostedClocks
    );
    assert_eq!(
        api_restriction_api_label(RestrictedApi::AutoBoostedClocks),
        "auto-boost"
    );
    assert_eq!(
        parse_api_restriction_api("x").unwrap_err(),
        "invalid API \"x\"; expected app-clocks or auto-boost"
    );
}

#[test]
fn plain_numbers_and_units() {
    assert_eq!(parse_usize(" 42 ", "size").unwrap(), 42);
    assert_eq!(
        parse_usize("4x", "size").unwrap_err(),
        "invalid size \"4x\""
    );
    assert_eq!(parse_u32("7", "fan").unwrap(), 7);
    assert_eq!(
        parse_u32("-1", "fan").unwrap_err(),
        "invalid fan \"-1\""
    );
    assert_eq!(strip_unit(" 125 MHz ", "mhz", "mhz"), "125");
    assert_eq!(strip_unit("5 Watts", "w", "watt"), "5");
    assert_eq!(strip_unit("17", "w", "watt"), "17");
    assert_eq!(
        parse_u32_unit("ten W", "w", "watt").unwrap_err(),
        "invalid watt value \"ten W\""
    );
    assert_eq!(parse_i32_unit("+5 mhz", "mhz", "mhz").unwrap(), 5);
    assert_eq!(
        mhz_to_khz_i32(i32::MIN).unwrap_err(),
        "MHz value is too large"
    );
    assert_eq!(mhz_to_khz_i32(-3).unwrap(), -3000);
}

#[test]
fn options_of_an_invocation() {
    let inv = Invocation {
        backend: BackendChoice::Auto,
        output: OutputFormat::Human,
        no_color: false,
        gpu_specs: Vec::new(),
        command: Some(Command::ResetVfpDeltas),
        positionals: Vec::new(),
        options: vec![
            ("domain".to_string(), vec!["mem".to_string()]),
            ("indexed".to_string(), vec!["true".to_string()]),
        ],
    };
    assert!(option_bool(&inv, "indexed", false).unwrap());
    assert!(option_bool(&inv, "all", true).unwrap());
    assert_eq!(
        option_domain(&inv, ClockDomain::Graphics).unwrap(),
        ClockDomain::Memory
    );
    assert_eq!(
        option_vfp_reset_domain(&inv).unwrap(),
        VfpResetDomain::Memory
    );
    let mut none = inv.clone();
    none.options = Vec::new();
    assert_eq!(option_vfp_reset_domain(&none).unwrap(), VfpResetDomain::All);
    assert_eq!(
        option_domain(&none, ClockDomain::Video).unwrap(),
        ClockDomain::Video
    );
    assert_eq!(vfp_reset_domain_label(VfpResetDomain::Core), "core");
}

#[test]
fn fan_targets() {
    assert!(is_all_fans("ALL"));
    assert!(!is_all_fans(" all"));
    assert_eq!(all_fan_indices(3), vec![0, 1, 2]);
    assert!(all_fan_indices(0).is_empty());
}
