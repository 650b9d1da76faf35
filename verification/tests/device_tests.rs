use hostfetch::device::{
    combine_device_identity, get_device_info, parse_prop_output, read_device_tree, read_dmi,
    scan_build_props, DeviceSources,
};

fn no_sources() -> DeviceSources {
    DeviceSources {
        prop_manufacturer: None,
        prop_model: None,
        dmi_sys_vendor: None,
        dmi_board_vendor: None,
        dmi_product_name: None,
        dmi_product_version: None,
        dmi_board_name: None,
        device_tree: None,
        build_props: Vec::new(),
        cpuinfo: None,
    }
}

#[test]
fn unknown_device_when_every_source_fails() {
    assert_eq!(get_device_info(&no_sources()), "Unknown Device");
}

#[test]
fn cpuinfo_hardware_line_resolves_without_duplicate_vendor() {
    // Sources one to five fail; the processor-info line carries the
    // whole name, so no vendor token is duplicated in the result.
    let mut s = no_sources();
    s.cpuinfo = Some("processor\t: 0\nHardware\t: Raspberry Pi 4 Model B\n".to_string());
    assert_eq!(get_device_info(&s), "Raspberry Pi 4 Model B");
}

#[test]
fn firmware_vendor_and_product_join_with_a_space() {
    let mut s = no_sources();
    s.dmi_sys_vendor = Some("Dell Inc.\n".to_string());
    s.dmi_product_name = Some("XPS 13 9310\n".to_string());
    assert_eq!(get_device_info(&s), "Dell Inc. XPS 13 9310");
}

#[test]
fn product_already_carrying_vendor_stands_alone() {
    let combined = combine_device_identity(
        &Some("Apple".to_string()),
        &Some("Apple MacBook Pro".to_string()),
    );
    assert_eq!(combined, "Apple MacBook Pro");
}

#[test]
fn sentinel_product_falls_back_to_version() {
    let r = read_dmi(
        &Some("To be filled by O.E.M.\n".to_string()),
        &Some("1.0\n".to_string()),
    );
    assert_eq!(r, Some("1.0".to_string()));
}

#[test]
fn dmi_prefers_the_primary_field() {
    let r = read_dmi(&Some("ASUS\n".to_string()), &Some("other\n".to_string()));
    assert_eq!(r, Some("ASUS".to_string()));
    assert_eq!(read_dmi(&None, &None), None);
}

#[test]
fn property_output_opens_underscores() {
    assert_eq!(
        parse_prop_output(&Some("Google_Pixel \n".to_string())),
        Some("Google Pixel".to_string())
    );
    assert_eq!(parse_prop_output(&Some("   \n".to_string())), None);
    assert_eq!(parse_prop_output(&None), None);
}

#[test]
fn device_tree_splits_vendor_from_model() {
    let r = read_device_tree(&Some("Raspberry Pi 4 Model B Rev 1.2\0".to_string()));
    assert_eq!(
        r,
        Some((Some("Raspberry".to_string()), "Pi 4 Model B Rev 1.2".to_string()))
    );
}

#[test]
fn device_tree_single_word_is_the_model() {
    let r = read_device_tree(&Some("Overo\0".to_string()));
    assert_eq!(r, Some((None, "Overo".to_string())));
    assert_eq!(read_device_tree(&Some("\0\0".to_string())), None);
    assert_eq!(read_device_tree(&None), None);
}

#[test]
fn build_prop_scan_finds_first_match() {
    let files = vec![
        "ro.other=1\n".to_string(),
        "ro.product.manufacturer=Samsung\nro.product.model=SM-G998B\n".to_string(),
        "ro.product.manufacturer=Later\n".to_string(),
    ];
    assert_eq!(
        scan_build_props(&files, "ro.product.manufacturer="),
        Some("Samsung".to_string())
    );
    assert_eq!(
        scan_build_props(&files, "ro.product.model="),
        Some("SM-G998B".to_string())
    );
    assert_eq!(scan_build_props(&files, "ro.missing="), None);
}

#[test]
fn earlier_sources_beat_later_ones() {
    let mut s = no_sources();
    s.prop_manufacturer = Some("Google\n".to_string());
    s.prop_model = Some("Pixel 8\n".to_string());
    s.dmi_sys_vendor = Some("ShouldNotAppear\n".to_string());
    s.cpuinfo = Some("Hardware\t: AlsoNot\n".to_string());
    assert_eq!(get_device_info(&s), "Google Pixel 8");
}
