use nvoc::devices::pci_sorted_positions;
use nvoc::devices::{
    format_pci_address, format_uuid_hex, gpu_selection, parse_cuda_pci_bus_id,
    parse_pci_bus_string, parse_uuid_string, resolve_device_index_by_pci_bus, resolve_device_index_by_sorted_index,
    resolve_device_index_by_uuid, select_device, CudaDeviceEnumInfo, GpuSelection, PciBusAddress,
};

fn pci(domain: u32, bus: u32, device: u32, function: u32) -> PciBusAddress {
    PciBusAddress {
        domain,
        bus,
        device,
        function,
    }
}

fn dev(index: u32, bus: Option<PciBusAddress>, uuid_byte: u8) -> CudaDeviceEnumInfo {
    CudaDeviceEnumInfo {
        device_index: 10 + index,
        device_name: format!("GPU{index}"),
        uuid: [uuid_byte; 16],
        pci_bus: bus,
        compute_capability: Some((8, 9)),
    }
}

#[test]
fn pci_bus_strings_parse_in_hex() {
    assert_eq!(
        parse_pci_bus_string(" 0000:65:00.0 ").unwrap(),
        pci(0, 0x65, 0, 0)
    );
    assert_eq!(
        parse_pci_bus_string("0000:65").unwrap_err(),
        "invalid PCI bus format: 0000:65"
    );
    assert_eq!(
        parse_pci_bus_string("00g0:65:00.0").unwrap_err(),
        "invalid PCI domain: 00g0"
    );
    assert_eq!(
        parse_pci_bus_string("0:1:2.x").unwrap_err(),
        "invalid PCI function: x"
    );
    assert_eq!(
        parse_cuda_pci_bus_id("00000000:0A:00.1").unwrap(),
        pci(0, 0x0a, 0, 1)
    );
    assert_eq!(
        parse_cuda_pci_bus_id("0000:zz:00.0").unwrap_err(),
        "invalid PCI bus in bus id: zz"
    );
    assert_eq!(
        parse_cuda_pci_bus_id("garbage").unwrap_err(),
        "invalid CUDA PCI bus id: garbage"
    );
}

#[test]
fn pci_address_formats_with_decimal_function() {
    assert_eq!(format_pci_address(&pci(0, 0x65, 0x1f, 3)), "0000:65:1F.3");
    let p = pci(0x1, 0x2, 0x3, 7);
    assert_eq!(parse_pci_bus_string(&format_pci_address(&p)).unwrap(), p);
}

#[test]
fn uuids_parse_and_format() {
    let text = "GPU-4a6b1f2c-0d3e-4f50-8a9b-0c1d2e3f4a5b";
    let u = parse_uuid_string(text).unwrap();
    assert_eq!(u[0], 0x4a);
    assert_eq!(u[15], 0x5b);
    assert_eq!(format_uuid_hex(&u), "4A6B1F2C0D3E4F508A9B0C1D2E3F4A5B");
    assert_eq!(parse_uuid_string(&format_uuid_hex(&u)).unwrap(), u);
    assert_eq!(
        parse_uuid_string("abcd").unwrap_err(),
        "UUID must be 32 hex digits, got 4"
    );
}

#[test]
fn sorted_index_follows_pci_order_with_unaddressed_last() {
    let devices = vec![
        dev(0, None, 1),
        dev(1, Some(pci(0, 0x65, 0, 0)), 2),
        dev(2, Some(pci(0, 0x17, 0, 0)), 3),
        dev(3, None, 4),
    ];
    assert_eq!(resolve_device_index_by_sorted_index(&devices, 0).unwrap(), 12);
    assert_eq!(resolve_device_index_by_sorted_index(&devices, 1).unwrap(), 11);
    assert_eq!(resolve_device_index_by_sorted_index(&devices, 2).unwrap(), 10);
    assert_eq!(resolve_device_index_by_sorted_index(&devices, 3).unwrap(), 13);
    assert_eq!(
        resolve_device_index_by_sorted_index(&devices, 4).unwrap_err(),
        "sorted index 4 out of range (available: 0-3)"
    );
    assert_eq!(
        resolve_device_index_by_sorted_index(&[], 0).unwrap_err(),
        format!("sorted index 0 out of range (available: 0-{})", usize::MAX)
    );
}

#[test]
fn select_by_address_and_uuid() {
    let devices = vec![dev(0, Some(pci(0, 1, 0, 0)), 7), dev(1, Some(pci(0, 2, 0, 0)), 9)];
    assert_eq!(resolve_device_index_by_pci_bus(&devices, pci(0, 2, 0, 0)).unwrap(), 11);
    assert_eq!(
        resolve_device_index_by_pci_bus(&devices, pci(0, 3, 0, 0)).unwrap_err(),
        "no CUDA device found with PCI 0000:03:00.0"
    );
    assert_eq!(resolve_device_index_by_uuid(&devices, &[7; 16]).unwrap(), 10);
    assert_eq!(
        resolve_device_index_by_uuid(&devices, &[0xAB; 16]).unwrap_err(),
        format!("no CUDA device found with UUID {}", "AB".repeat(16))
    );
}

#[test]
fn gpu_selection_allows_one_selector() {
    assert_eq!(
        gpu_selection(Some(1), Some("0:1:0.0"), None).unwrap_err(),
        "only one of --gpu-index, --pci-bus, or --gpu-uuid can be specified"
    );
    assert_eq!(
        gpu_selection(None, None, None).unwrap(),
        GpuSelection::SortedIndex(0)
    );
    assert_eq!(
        gpu_selection(Some(2), None, None).unwrap(),
        GpuSelection::SortedIndex(2)
    );
    assert_eq!(
        gpu_selection(None, Some("0000:65:00.0"), None).unwrap(),
        GpuSelection::PciBus(pci(0, 0x65, 0, 0))
    );
    assert!(gpu_selection(None, None, Some("12")).is_err());
    let devices = vec![dev(5, Some(pci(0, 1, 0, 0)), 0x11)];
    let sel = gpu_selection(None, None, Some(&"11".repeat(16))).unwrap();
    assert_eq!(select_device(&devices, &sel).unwrap(), 15);
}

#[test]
fn sorted_positions_list_devices_in_pci_order() {
    let devices = vec![
        dev(0, None, 1),
        dev(1, Some(pci(1, 0, 0, 0)), 2),
        dev(2, Some(pci(0, 0x17, 0, 0)), 3),
    ];
    assert_eq!(pci_sorted_positions(&devices), vec![2, 1, 0]);
    assert_eq!(pci_sorted_positions(&[]), Vec::<usize>::new());
}
