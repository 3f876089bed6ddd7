use gflick::probe::{
    confirm_profile_write, default_device_index, find_report_collection, optional_hz,
    optional_number, optional_text, parse_device_selector, parse_rgb, parse_u16, parse_u8,
    profile_bhop_label, select_device, summarize_values, DeviceSelector, HidCollection,
    ProfileTargetArgs,
};
use gflick::protocol::RgbColor;

#[test]
fn parses_numeric_device_selector() {
    assert!(matches!(
        "9".parse::<DeviceSelector>().unwrap(),
        DeviceSelector::ListIndex(9)
    ));
}

#[test]
fn parses_usb_device_selector() {
    assert!(matches!(
        "046d:c54d".parse::<DeviceSelector>().unwrap(),
        DeviceSelector::UsbId {
            vendor_id: 0x046d,
            product_id: 0xc54d
        }
    ));
}

#[test]
fn rejects_malformed_device_selectors() {
    assert_eq!(
        parse_device_selector("1:2:3"),
        Err("expected a list index or VID:PID such as 9 or 046d:c54d".to_owned())
    );
    assert_eq!(
        parse_device_selector("zz:c54d"),
        Err("invalid hexadecimal vendor ID `zz`".to_owned())
    );
    assert_eq!(
        parse_device_selector("046d:"),
        Err("invalid hexadecimal product ID ``".to_owned())
    );
    assert_eq!(
        parse_device_selector("nine"),
        Err("expected a list index or VID:PID such as 9 or 046d:c54d".to_owned())
    );
}

#[test]
fn parses_decimal_and_hex_profile_sectors() {
    assert_eq!(parse_u16("1").unwrap(), 1);
    assert_eq!(parse_u16("0x0101").unwrap(), 0x0101);
}

#[test]
fn profile_sector_errors_carry_the_parse_error() {
    assert_eq!(
        parse_u16("70000"),
        Err("expected a profile sector: number too large to fit in target type".to_owned())
    );
    assert_eq!(
        parse_u16("  "),
        Err("expected a profile sector: cannot parse integer from empty string".to_owned())
    );
}

#[test]
fn parses_hex_bytes() {
    assert_eq!(parse_u8(" 0xff "), Ok(0xff));
    assert_eq!(parse_u8("1A"), Ok(0x1a));
    assert_eq!(
        parse_u8("0x100"),
        Err("expected a hex byte: number too large to fit in target type".to_owned())
    );
    assert_eq!(
        parse_u8("g"),
        Err("expected a hex byte: invalid digit found in string".to_owned())
    );
}

#[test]
fn parses_rgb_colors() {
    assert_eq!(
        parse_rgb("#12aBcD").unwrap(),
        RgbColor {
            red: 0x12,
            green: 0xab,
            blue: 0xcd
        }
    );
    assert!(parse_rgb("12345").is_err());
    assert!(parse_rgb("gg0000").is_err());
}

fn collection(vendor_id: u16, product_id: u16, usage_page: u16, usage: u16) -> HidCollection {
    HidCollection {
        vendor_id,
        product_id,
        interface_number: 2,
        serial_number: None,
        usage_page,
        usage,
        path: Vec::new(),
    }
}

#[test]
fn selects_exactly_one_hid_collection() {
    let devices = vec![
        collection(0x046d, 0xc54d, 0x0001, 0x0002),
        collection(0x046d, 0xc54d, 0xff00, 0x0001),
        collection(0x046d, 0xc54d, 0xff00, 0x0002),
    ];
    assert_eq!(select_device(&devices, DeviceSelector::ListIndex(2)), Ok(2));
    assert_eq!(
        select_device(&devices, DeviceSelector::ListIndex(3)),
        Err("device index 3 does not exist; run `open-hub-probe list` again".to_owned())
    );
    let usb = DeviceSelector::UsbId {
        vendor_id: 0x046d,
        product_id: 0xc54d,
    };
    assert_eq!(select_device(&devices, usb), Ok(1));
    assert_eq!(find_report_collection(&devices, &devices[1], 0x0002), Some(2));
    assert_eq!(find_report_collection(&devices, &devices[1], 0x0005), None);
    let twice = vec![
        collection(0x046d, 0xc54d, 0xff00, 0x0001),
        collection(0x046d, 0xc54d, 0xff43, 0x0001),
    ];
    assert_eq!(
        select_device(&twice, usb),
        Err("more than one HID++ device matches 046d:c54d; use its numeric list index".to_owned())
    );
    assert_eq!(
        select_device(&[].to_vec(), usb),
        Err("no HID++ short-report collection found for 046d:c54d; run `open-hub-probe list`".to_owned())
    );
}

#[test]
fn receivers_default_to_the_first_paired_slot() {
    assert_eq!(default_device_index(Some("USB Receiver")), 0x01);
    assert_eq!(default_device_index(Some("G502 X")), 0xff);
    assert_eq!(default_device_index(None), 0xff);
}

#[test]
fn labels_values_for_the_report() {
    assert_eq!(optional_text(None), "<default>");
    assert_eq!(optional_text(Some("x")), "x");
    assert_eq!(profile_bhop_label(None), "off");
    assert_eq!(profile_bhop_label(Some(300)), "on/300 ms");
    assert_eq!(optional_number(Some(42)), "42");
    assert_eq!(optional_number(None), "n/a");
    assert_eq!(optional_hz(Some(1000)), "1000 Hz");
    assert_eq!(summarize_values(&vec![], " Hz"), "<none>");
    assert_eq!(summarize_values(&vec![125, 250], " Hz"), "125 Hz, 250 Hz");
    let many: Vec<u16> = (1..=11).map(|v| v * 100).collect();
    assert_eq!(summarize_values(&many, ""), "100..1100 (11 values)");
}

#[test]
fn profile_writes_need_confirmation() {
    assert!(confirm_profile_write(&ProfileTargetArgs {
        profile: 1,
        confirm_flash_write: true
    })
    .is_ok());
    assert!(confirm_profile_write(&ProfileTargetArgs {
        profile: 1,
        confirm_flash_write: false
    })
    .unwrap_err()
    .contains("--confirm-flash-write"));
}
