use gflick::labels::{
    battery_tone, charge, connection_label, device_label, dpi_text, group_order, rate_name,
    reported_label, source_label, Charge, LinkState, Tone,
};
use gflick::protocol::{
    BatteryState, ConfigurationSource, DeviceAvailability, DeviceColor, DeviceConnection,
    DeviceSummary, DeviceUnavailableReason,
};

use gflick::sidebar::{
    drop_device, landing, next_drop_hint, order_not_saved, saved_order, DropHint,
};

fn summary() -> DeviceSummary {
    DeviceSummary {
        id: "mouse".into(),
        hardware_id: Some("hardware".into()),
        vendor_id: 0x046d,
        product_id: 0xc09b,
        product_name: Some("USB Receiver".into()),
        display_name: Some("PRO X 2".into()),
        serial_number: None,
        nickname: None,
        color: DeviceColor::Black,
        sort_order: None,
        connection: DeviceConnection::Receiver,
        device_index: 1,
        availability: Some(DeviceAvailability::Ready),
        ready: true,
    }
}

fn battery(percentage: u8, status_code: u8) -> BatteryState {
    BatteryState { percentage, level_code: 0, status_code, status: "discharging".into() }
}

#[test]
fn only_five_digit_sensitivities_carry_a_separator() {
    assert_eq!(dpi_text(100), "100");
    assert_eq!(dpi_text(1600), "1600");
    assert_eq!(dpi_text(44_000), "44,000");
    assert_eq!(dpi_text(0), "0");
    assert_eq!(dpi_text(65_535), "65,535");
}

#[test]
fn distinguishes_missing_usb_from_a_silent_receiver_and_read_errors() {
    let mut device = summary();
    device.ready = false;
    device.connection = DeviceConnection::Receiver;
    device.availability = Some(DeviceAvailability::Unavailable {
        reason: DeviceUnavailableReason::NotResponding,
        detail: "Timed out".into(),
    });
    assert!(LinkState::of(&device, false) == LinkState::Offline);
    assert!(LinkState::of(&device, true) == LinkState::Disconnected);
    device.availability = Some(DeviceAvailability::Initializing);
    assert!(LinkState::of(&device, false) == LinkState::Checking);
    device.availability = Some(DeviceAvailability::Unavailable {
        reason: DeviceUnavailableReason::CommunicationError,
        detail: "Read failed".into(),
    });
    assert!(LinkState::of(&device, false) == LinkState::Error);
    assert!(LinkState::of(&summary(), false) == LinkState::Ready);
}

#[test]
fn rates_read_in_kilohertz_when_whole() {
    assert_eq!(rate_name(8000), "8K");
    assert_eq!(rate_name(1000), "1K");
    assert_eq!(rate_name(500), "500");
    assert_eq!(rate_name(1500), "1500");
    assert_eq!(rate_name(0), "0");
}

#[test]
fn charge_and_its_tone() {
    assert_eq!(charge(None), Charge::Steady);
    assert_eq!(charge(Some(&battery(10, 1))), Charge::Charging);
    assert_eq!(charge(Some(&battery(10, 4))), Charge::Charging);
    assert_eq!(charge(Some(&battery(29, 0))), Charge::Low);
    assert_eq!(charge(Some(&battery(30, 5))), Charge::Steady);
    let ready = summary();
    let mut offline = summary();
    offline.ready = false;
    assert_eq!(battery_tone(Some(&battery(90, 0)), &offline), Tone::Muted);
    assert_eq!(battery_tone(Some(&battery(10, 2)), &ready), Tone::Success);
    assert_eq!(battery_tone(Some(&battery(25, 0)), &ready), Tone::Danger);
    assert_eq!(battery_tone(Some(&battery(90, 0)), &ready), Tone::Success);
    assert_eq!(battery_tone(None, &ready), Tone::Muted);
}

#[test]
fn names_fall_back_in_order() {
    let mut device = summary();
    assert_eq!(device_label(&device), "PRO X 2");
    assert_eq!(reported_label(&device), "PRO X 2");
    device.nickname = Some("Desk".into());
    assert_eq!(device_label(&device), "Desk");
    assert_eq!(reported_label(&device), "PRO X 2");
    device.nickname = None;
    device.display_name = None;
    assert_eq!(device_label(&device), "USB Receiver");
    device.product_name = None;
    assert_eq!(device_label(&device), "Logitech mouse");
    assert_eq!(reported_label(&device), "Not reported");
}

#[test]
fn links_sources_and_groups_are_named() {
    let mut device = summary();
    assert_eq!(connection_label(&device), "WIRELESS RECEIVER");
    device.connection = DeviceConnection::DirectUsb;
    assert_eq!(connection_label(&device), "DIRECT USB");
    assert_eq!(source_label(Some(ConfigurationSource::Host)), "HOST CONTROL");
    assert_eq!(source_label(Some(ConfigurationSource::Onboard { active_profile: None })), "ONBOARD PROFILE");
    assert_eq!(source_label(Some(ConfigurationSource::Unknown { raw_mode: 3 })), "UNKNOWN MODE");
    assert_eq!(source_label(None), "SOURCE UNAVAILABLE");
    assert_eq!(group_order("Sensitivity"), 0);
    assert_eq!(group_order("Buttons"), 7);
    assert_eq!(group_order("Other"), 8);
}

fn listed(id: &str, hardware_id: Option<&str>) -> DeviceSummary {
    let mut device = summary();
    device.id = id.to_owned();
    device.hardware_id = hardware_id.map(str::to_owned);
    device
}

fn ids(devices: &[DeviceSummary]) -> Vec<&str> {
    devices.iter().map(|d| d.id.as_str()).collect()
}

#[test]
fn the_row_under_the_pointer_holds_the_drop() {
    let hint = next_drop_hint(None, "b", 0, true);
    assert_eq!(hint, Some(DropHint { device_id: "b".to_owned(), over: 0 }));
    // Another row that the pointer is not in leaves the hint alone.
    assert_eq!(next_drop_hint(hint.clone(), "b", 1, false), hint);
    // The row that held it clears it when the pointer leaves.
    assert_eq!(next_drop_hint(hint, "b", 0, false), None);
}

#[test]
fn the_drop_line_shows_where_the_device_lands() {
    let devices = vec![listed("a", Some("ha")), listed("b", Some("hb")), listed("c", Some("hc"))];
    let from_below = Some(DropHint { device_id: "c".to_owned(), over: 0 });
    assert_eq!(landing(&devices, &from_below, 0), Some(true));
    assert_eq!(landing(&devices, &from_below, 1), None);
    let from_above = Some(DropHint { device_id: "a".to_owned(), over: 2 });
    assert_eq!(landing(&devices, &from_above, 2), Some(false));
    let own_row = Some(DropHint { device_id: "b".to_owned(), over: 1 });
    assert_eq!(landing(&devices, &own_row, 1), None);
    assert_eq!(landing(&devices, &None, 0), None);
}

#[test]
fn a_dropped_device_takes_the_row_and_only_identified_devices_are_saved() {
    let mut devices = vec![listed("a", Some("ha")), listed("b", None), listed("c", Some("hc"))];
    assert!(drop_device(&mut devices, "c", 0));
    assert_eq!(ids(&devices), vec!["c", "a", "b"]);
    assert!(!drop_device(&mut devices, "c", 0));
    assert!(!drop_device(&mut devices, "a", 3));
    assert!(!drop_device(&mut devices, "missing", 0));
    assert!(drop_device(&mut devices, "c", 2));
    assert_eq!(ids(&devices), vec!["a", "b", "c"]);
    assert_eq!(saved_order(&devices), vec!["ha".to_owned(), "hc".to_owned()]);
    assert_eq!(
        order_not_saved("agent is not running"),
        "The new device order was not saved. agent is not running"
    );
}
