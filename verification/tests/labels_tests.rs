use nvoc::labels::{
    compact_scalar_object_label, format_compute_caps, format_label, format_with_unit,
    indent_spaces, join_context, load_level_text, pci_vendor_name, perf_decrease_text,
    perf_limits_text, split_compact_range_key, strip_trailing_unit_key,
};

#[test]
fn labels_from_keys() {
    assert_eq!(format_label("max_core_mhz"), "Max Core MHz");
    assert_eq!(format_label("gpu_id"), "GPU ID");
    assert_eq!(format_label("pcie_tx_mibps"), "Pcie Tx Mibps");
    assert_eq!(format_label("current_uv"), "Current uV");
    assert_eq!(format_label("a__b"), "A  B");
    assert_eq!(format_label(""), "");
}

#[test]
fn units_from_key_suffixes() {
    assert_eq!(format_with_unit("max_watt", "350"), "350 W");
    assert_eq!(format_with_unit("limit_w", "5"), "5 W");
    assert_eq!(format_with_unit("percent", "90"), "90%");
    assert_eq!(format_with_unit("temp_c", "83"), "83 C");
    assert_eq!(format_with_unit("pcie_lanes", "8"), "x8");
    assert_eq!(format_with_unit("voltage", "940000"), "940000 uV");
    assert_eq!(format_with_unit("pcie_tx_mibps", "1"), "1 MiB/s");
    assert_eq!(format_with_unit("name", "abc"), "abc");
    assert_eq!(format_with_unit("core_mhz", "1"), "1 MHz");
}

#[test]
fn range_keys_and_contexts() {
    assert_eq!(
        split_compact_range_key("max_voltage_uv"),
        Some(("voltage_uv".to_string(), "Max"))
    );
    assert_eq!(
        split_compact_range_key("current_clock"),
        Some(("clock".to_string(), "Current"))
    );
    assert_eq!(split_compact_range_key("voltage"), None);
    assert_eq!(strip_trailing_unit_key("voltage_uv"), "voltage");
    assert_eq!(strip_trailing_unit_key("power_percent"), "power");
    assert_eq!(strip_trailing_unit_key("name"), "name");
    assert_eq!(compact_scalar_object_label("maximum"), Some("Max"));
    assert_eq!(compact_scalar_object_label("value"), Some("Current"));
    assert_eq!(compact_scalar_object_label("other"), None);
    assert_eq!(join_context("", "sensors"), "sensors");
    assert_eq!(join_context("sensors", "range"), "sensors.range");
    assert_eq!(indent_spaces(2), "    ");
    assert_eq!(indent_spaces(0), "");
}

#[test]
fn identifiers_and_bitmasks() {
    assert_eq!(pci_vendor_name(0x1043), Some("ASUS"));
    assert_eq!(pci_vendor_name(0xFFFF), None);
    assert_eq!(format_compute_caps(0), "0 (none)");
    assert_eq!(
        format_compute_caps(0x203),
        "515 (0x203: BASE_COMPUTE | COMPUTE_CAPABLE | VRAM_GE_256MB)"
    );
    assert_eq!(format_compute_caps(0x1001), "4097 (0x1001: BASE_COMPUTE | 0x1000)");
    assert_eq!(format_compute_caps(0x8), "8 (0x8: 0x8)");
    assert_eq!(perf_limits_text(16), "No Load");
    assert_eq!(perf_limits_text(3), "Power, Temperature");
    assert_eq!(perf_limits_text(0), "None");
    assert_eq!(perf_decrease_text(3), "Thermal Protection, Power Control");
    assert_eq!(perf_decrease_text(0), "None");
    assert_eq!(load_level_text(7), "Idle");
    assert_eq!(load_level_text(1), "Load");
    assert_eq!(load_level_text(5), "5 (raw)");
}
