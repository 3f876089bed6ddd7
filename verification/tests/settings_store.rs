use gflick::store::{
    check_version, quarantine_file_name, unsupported_version_message, DevicePreferences,
    SettingsStore, StoreError, UsbIdentity,
};

fn usb_identity(device_index: u8, serial_number: Option<&str>) -> UsbIdentity {
    UsbIdentity::new(0x046d, 0xc54d, device_index, serial_number.map(str::to_owned))
}

fn store() -> SettingsStore {
    SettingsStore::new("settings.json".to_owned())
}

#[test]
fn replaces_device_order_and_persists_it() {
    let mut store = store();
    store.device_mut("hardware-a");
    store.device_mut("hardware-b");

    store
        .replace_device_order(&["hardware-a".to_owned(), "hardware-b".to_owned()])
        .unwrap();
    assert_eq!(store.device("hardware-a").unwrap().sort_order, Some(0));
    assert_eq!(store.device("hardware-b").unwrap().sort_order, Some(1));

    let reloaded = SettingsStore::from_entries("settings.json".to_owned(), store.into_entries());
    assert_eq!(reloaded.device("hardware-a").unwrap().sort_order, Some(0));
    assert_eq!(reloaded.device("hardware-b").unwrap().sort_order, Some(1));
}

#[test]
fn replacement_order_clears_omitted_devices() {
    let mut store = store();
    store.device_mut("hardware-a");
    store.device_mut("hardware-b");

    store
        .replace_device_order(&["hardware-a".to_owned(), "hardware-b".to_owned()])
        .unwrap();
    store
        .replace_device_order(&["hardware-b".to_owned()])
        .unwrap();

    assert_eq!(store.device("hardware-a").unwrap().sort_order, None);
    assert_eq!(store.device("hardware-b").unwrap().sort_order, Some(0));
}

#[test]
fn empty_replacement_order_clears_all_devices() {
    let mut store = store();
    store.device_mut("hardware-a").sort_order = Some(0);
    store.device_mut("hardware-b").sort_order = Some(1);

    store.replace_device_order(&[]).unwrap();

    assert_eq!(store.device("hardware-a").unwrap().sort_order, None);
    assert_eq!(store.device("hardware-b").unwrap().sort_order, None);
}

#[test]
fn duplicate_replacement_hardware_id_leaves_preferences_unchanged() {
    let mut store = store();
    store.device_mut("hardware-a").sort_order = Some(1);
    store.device_mut("hardware-b").sort_order = Some(0);

    let error = store
        .replace_device_order(&["hardware-a".to_owned(), "hardware-a".to_owned()])
        .unwrap_err();

    assert!(error.message().contains("duplicate"));
    assert_eq!(store.device("hardware-a").unwrap().sort_order, Some(1));
    assert_eq!(store.device("hardware-b").unwrap().sort_order, Some(0));
}

#[test]
fn unknown_replacement_hardware_id_creates_no_record_or_mutation() {
    let mut store = store();
    store.device_mut("hardware-a").sort_order = Some(0);
    store.device_mut("hardware-b").sort_order = Some(1);

    let error = store
        .replace_device_order(&["hardware-a".to_owned(), "missing".to_owned()])
        .unwrap_err();

    assert!(error.message().contains("unknown hardware ID"));
    assert_eq!(store.device("hardware-a").unwrap().sort_order, Some(0));
    assert_eq!(store.device("hardware-b").unwrap().sort_order, Some(1));
    assert_eq!(store.device("missing"), None);
}

#[test]
fn the_first_faulty_position_decides_the_refusal() {
    let mut store = store();
    store.device_mut("hardware-a");
    let error = store
        .replace_device_order(&[
            "missing".to_owned(),
            "hardware-a".to_owned(),
            "hardware-a".to_owned(),
        ])
        .unwrap_err();
    assert_eq!(error, StoreError::UnknownHardwareId);
    assert_eq!(error.message(), "unknown hardware ID in reorder request");
    let error = store
        .replace_device_order(&[
            "hardware-a".to_owned(),
            "hardware-a".to_owned(),
            "missing".to_owned(),
        ])
        .unwrap_err();
    assert_eq!(error, StoreError::DuplicateHardwareId);
    assert_eq!(error.message(), "duplicate hardware ID in reorder request");
}

#[test]
fn inserting_keeps_what_is_already_stored() {
    let mut store = store();
    let mut first = DevicePreferences::empty();
    first.nickname = Some("First".to_owned());
    assert!(store.insert_if_missing("unit", first));
    let mut second = DevicePreferences::empty();
    second.nickname = Some("Second".to_owned());
    assert!(!store.insert_if_missing("unit", second));
    assert_eq!(store.device("unit").unwrap().nickname.as_deref(), Some("First"));
}

#[test]
fn finds_a_never_opened_device_by_its_usb_identity() {
    let mut store = store();
    let identity = usb_identity(1, None);
    let device = store.device_mut("046d:unit:1077e69f");
    device.cached_model_name = Some("PRO X Superlight 2".to_owned());
    device.nickname = Some("Desk mouse".to_owned());
    device.usb_identity = Some(identity.clone());

    let (hardware_id, preferences) = store.resolve_device_by_usb_identity(&identity).unwrap();
    assert_eq!(hardware_id, "046d:unit:1077e69f");
    assert_eq!(preferences.nickname.as_deref(), Some("Desk mouse"));
}

#[test]
fn exact_serial_match_wins() {
    let mut store = store();
    let identity = usb_identity(1, Some("SERIAL-A"));
    store.device_mut("unit-a").usb_identity = Some(identity.clone());
    store.device_mut("unit-without-serial").usb_identity = Some(usb_identity(1, None));

    assert_eq!(
        store.resolve_device_by_usb_identity(&identity).unwrap().0,
        "unit-a"
    );
}

#[test]
fn canonicalizes_blank_serials_as_missing() {
    assert_eq!(usb_identity(1, None).serial_number, None);
    assert_eq!(usb_identity(1, Some("")).serial_number, None);
    assert_eq!(usb_identity(1, Some(" \t\r\n")).serial_number, None);
    assert_eq!(
        usb_identity(1, Some(" SERIAL ")).serial_number.as_deref(),
        Some(" SERIAL ")
    );
}

#[test]
fn uniquely_relaxes_a_match_when_either_serial_is_missing() {
    let mut stored_without_serial = store();
    stored_without_serial.device_mut("unit-a").usb_identity = Some(usb_identity(1, None));
    assert_eq!(
        stored_without_serial
            .resolve_device_by_usb_identity(&usb_identity(1, Some("SERIAL-A")))
            .unwrap()
            .0,
        "unit-a"
    );

    let mut candidate_without_serial = store();
    candidate_without_serial.device_mut("unit-b").usb_identity =
        Some(usb_identity(1, Some("SERIAL-B")));
    assert_eq!(
        candidate_without_serial
            .resolve_device_by_usb_identity(&usb_identity(1, None))
            .unwrap()
            .0,
        "unit-b"
    );
}

#[test]
fn ambiguous_relaxed_match_fails_closed() {
    let mut store = store();
    store.device_mut("unit-a").usb_identity = Some(usb_identity(1, Some("SERIAL-A")));
    store.device_mut("unit-b").usb_identity = Some(usb_identity(1, Some("SERIAL-B")));

    assert!(store
        .resolve_device_by_usb_identity(&usb_identity(1, None))
        .is_none());
}

#[test]
fn ambiguous_exact_match_fails_closed() {
    let mut store = store();
    let identity = usb_identity(1, Some("SERIAL-A"));
    store.device_mut("unit-a").usb_identity = Some(identity.clone());
    store.device_mut("unit-b").usb_identity = Some(identity.clone());

    assert!(store.resolve_device_by_usb_identity(&identity).is_none());
}

#[test]
fn distinct_real_serials_never_relax_match() {
    let mut store = store();
    store.device_mut("unit-a").usb_identity = Some(usb_identity(1, Some("SERIAL-A")));

    assert!(store
        .resolve_device_by_usb_identity(&usb_identity(1, Some("SERIAL-B")))
        .is_none());
}

#[test]
fn historical_blank_serial_matches_a_missing_serial() {
    let mut store = store();
    store.device_mut("unit-a").usb_identity = Some(UsbIdentity {
        vendor_id: 1133,
        product_id: 50509,
        device_index: 1,
        serial_number: Some(String::new()),
    });
    assert_eq!(
        store
            .resolve_device_by_usb_identity(&UsbIdentity::new(1133, 50509, 1, None))
            .unwrap()
            .0,
        "unit-a"
    );
}

#[test]
fn usb_identity_match_distinguishes_devices_behind_one_receiver() {
    let mut store = store();
    let first = usb_identity(1, None);
    let second = usb_identity(2, None);
    store.device_mut("unit-a").usb_identity = Some(first.clone());
    store.device_mut("unit-b").usb_identity = Some(second.clone());

    assert_eq!(
        store.resolve_device_by_usb_identity(&first).unwrap().0,
        "unit-a"
    );
    assert_eq!(
        store.resolve_device_by_usb_identity(&second).unwrap().0,
        "unit-b"
    );
}

#[test]
fn later_entries_replace_earlier_ones_when_loading() {
    let mut first = DevicePreferences::empty();
    first.sort_order = Some(1);
    let mut second = DevicePreferences::empty();
    second.sort_order = Some(2);
    let store = SettingsStore::from_entries(
        "settings.json".to_owned(),
        vec![("unit".to_owned(), first), ("unit".to_owned(), second)],
    );
    assert_eq!(store.device("unit").unwrap().sort_order, Some(2));
    assert_eq!(store.path(), "settings.json");
    assert_eq!(store.into_entries().len(), 1);
}

#[test]
fn rejects_future_schema_versions() {
    assert_eq!(check_version(1), Ok(()));
    assert_eq!(check_version(2), Err(2));
    let message = unsupported_version_message("/tmp/settings.json", 2);
    assert!(message.contains("unsupported schema version 2"));
    assert_eq!(
        message,
        "settings `/tmp/settings.json` use unsupported schema version 2; this agent supports version 1"
    );
}

#[test]
fn invalid_files_are_kept_under_a_corrupt_name() {
    assert_eq!(
        quarantine_file_name("settings.json", 1_700_000_000_123_456_789),
        "settings.json.corrupt-1700000000123456789"
    );
}
