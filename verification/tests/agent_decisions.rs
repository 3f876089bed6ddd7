use std::cell::Cell;

use gflick::agent::{
    polling_takes_host_control, remember_command, remember_identity,
    command_changes_metadata, command_changes_settings, command_device_id, device_metadata_event,
    record_unavailable, reschedule_battery_check, resolve_device_metadata,
    response_publication_events, sort_by_user_order, update_nickname, update_preferences,
    capture_protocol_host_preferences, battery_query_outcome, command_answer, device_summary,
    request_refusal,
    usb_identity, ManagedDevice, NicknameError, UnavailableDevice,
};
use gflick::keyed::KeyedMap;
use gflick::tick::{
    after_battery_query, after_reopen, battery_check_due, battery_given_up, forget_disconnected,
    link_lost, should_retry, BatteryWatch, ReopenFailure,
};
use gflick::protocol::{
    AgentEvent, BunnyHoppingState, ConfigurationSource, DeviceAvailability, DeviceCapabilities,
    DeviceColor, DeviceConnection, DeviceState, DeviceSummary, DeviceUnavailableReason, DpiState,
    ErrorCode, LiftOffDistance, OperatingMode, PollingRateCapabilities, PollingRateState,
    RequestCommand, ResponseData, ResponseResult, ServerMessage, SettingsState, SurfaceMode,
};
use gflick::store::{
    ControlPreference, DevicePreferences, PollingPreference, SettingsStore, UsbIdentity,
};

fn metadata_store() -> SettingsStore {
    SettingsStore::new("settings.json".to_owned())
}

fn test_usb_identity(serial_number: Option<&str>) -> UsbIdentity {
    UsbIdentity::new(0x046d, 0xc54d, 1, serial_number.map(str::to_owned))
}

fn remember_test_device(settings: &mut SettingsStore, hardware_id: &str, identity: UsbIdentity) {
    let preferences = settings.device_mut(hardware_id);
    preferences.usb_identity = Some(identity);
    preferences.nickname = Some("Desk mouse".to_owned());
    preferences.sort_order = Some(2);
    preferences.cached_model_name = Some("PRO X Superlight 2".to_owned());
}

fn ordered_summary(id: &str, sort_order: Option<u32>) -> DeviceSummary {
    DeviceSummary {
        id: id.to_owned(),
        hardware_id: Some(id.to_owned()),
        vendor_id: 0x046d,
        product_id: 0xc54d,
        product_name: None,
        display_name: None,
        serial_number: None,
        nickname: None,
        color: DeviceColor::Black,
        sort_order,
        connection: DeviceConnection::Receiver,
        device_index: 1,
        availability: Some(DeviceAvailability::Ready),
        ready: true,
    }
}

fn sample_device_state() -> DeviceState {
    DeviceState {
        device: DeviceSummary {
            id: "session-id".to_owned(),
            hardware_id: Some("046d:unit:1077e69f".to_owned()),
            vendor_id: 0x046d,
            product_id: 0xc54d,
            product_name: Some("USB Receiver".to_owned()),
            display_name: Some("PRO X Superlight 2".to_owned()),
            serial_number: None,
            nickname: None,
            color: DeviceColor::Black,
            sort_order: None,
            connection: DeviceConnection::Receiver,
            device_index: 1,
            availability: Some(DeviceAvailability::Ready),
            ready: true,
        },
        capabilities: DeviceCapabilities {
            battery: true,
            supported_dpi: Some(vec![800, 1600]),
            polling_rates: PollingRateCapabilities::PerConnection {
                wired_hz: vec![1000],
                wireless_hz: vec![1000, 2000],
            },
            onboard_profiles: true,
            onboard_profile_count: None,
            lift_off_distance: true,
            surface_mode: true,
            operating_mode_switch: false,
            color_led_effects: false,
            bunny_hopping: true,
            mouse_button_filter: true,
        },
        settings: SettingsState {
            onboard_dpi_stage: None,
            mouse_button_mapping: None,
            battery: None,
            dpi: Some(DpiState {
                current_x: 800,
                default_x: 800,
                current_y: Some(800),
                default_y: Some(800),
                lift_off_distance: Some(LiftOffDistance::High),
            }),
            polling_rate: PollingRateState::PerConnection {
                wired_hz: 1000,
                wireless_hz: 2000,
            },
            configuration_source: Some(ConfigurationSource::Host),
            operating_mode: Some(OperatingMode::Endurance),
            surface_mode: Some(SurfaceMode::Off),
            bunny_hopping: Some(BunnyHoppingState {
                enabled: false,
                timeout_ms: 0,
            }),
        },
    }
}

#[test]
fn changing_battery_cadence_reschedules_from_the_last_check() {
    let last: u64 = 1_000_000_000_000;
    let background: u64 = 30_000_000_000;
    let foreground: u64 = 5_000_000_000;
    let now: u64 = 2_000_000_000_000;
    let fast = reschedule_battery_check(last + background, background, foreground, now);
    assert_eq!(fast, last + foreground);
    assert_eq!(
        reschedule_battery_check(fast, foreground, background, now),
        last + background
    );
}

#[test]
fn a_deadline_before_the_clock_origin_counts_from_now() {
    assert_eq!(reschedule_battery_check(3, 10, 5, 100), 105);
}

#[test]
fn user_order_precedes_unordered_devices_in_discovery_order() {
    let mut devices = vec![
        ordered_summary("unordered-first", None),
        ordered_summary("second", Some(1)),
        ordered_summary("unordered-second", None),
        ordered_summary("first", Some(0)),
    ];
    sort_by_user_order(&mut devices);
    let ids: Vec<&str> = devices.iter().map(|device| device.id.as_str()).collect();
    assert_eq!(
        ids,
        ["first", "second", "unordered-first", "unordered-second"]
    );
}

#[test]
fn equal_positions_keep_their_discovery_order() {
    let mut devices = vec![
        ordered_summary("b", Some(3)),
        ordered_summary("a", Some(3)),
        ordered_summary("c", Some(1)),
    ];
    sort_by_user_order(&mut devices);
    let ids: Vec<&str> = devices.iter().map(|device| device.id.as_str()).collect();
    assert_eq!(ids, ["c", "b", "a"]);
}

#[test]
fn extracts_device_ids_only_from_device_commands() {
    assert_eq!(command_device_id(&RequestCommand::Ping), None);
    assert_eq!(
        command_device_id(&RequestCommand::SetDpi {
            device_id: "mouse-1".to_owned(),
            dpi: 800,
        }),
        Some("mouse-1")
    );
}

#[test]
fn color_change_is_metadata_and_survives_hardware_setting_updates() {
    let command = RequestCommand::SetDeviceColor {
        device_id: "mouse-1".into(),
        color: DeviceColor::Cyan,
    };
    assert_eq!(command_device_id(&command), None);
    assert!(!command_changes_settings(&command));
    assert!(command_changes_metadata(&command));
    let mut preferences = DevicePreferences {
        color: DeviceColor::Cyan,
        ..DevicePreferences::empty()
    };
    let state = sample_device_state();
    update_preferences(
        &mut preferences,
        &RequestCommand::SetDpi {
            device_id: "mouse-1".into(),
            dpi: 1600,
        },
        &state,
    );
    assert_eq!(preferences.color, DeviceColor::Cyan);
}

#[test]
fn only_mutations_emit_settings_events() {
    assert!(!command_changes_settings(&RequestCommand::ListDevices));
    assert!(command_changes_settings(&RequestCommand::SetDpi {
        device_id: "mouse-1".to_owned(),
        dpi: 800,
    }));
}

#[test]
fn publication_seam_emits_exactly_one_metadata_event_for_successful_host_changes() {
    let rename = RequestCommand::SetDeviceNickname {
        device_id: "mouse-1".to_owned(),
        nickname: Some("Desk mouse".to_owned()),
    };
    let reorder = RequestCommand::ReorderDevices {
        hardware_ids: vec!["hardware-1".to_owned()],
    };
    for command in [&rename, &reorder] {
        let acknowledged = ServerMessage::success(1, ResponseData::Acknowledged);
        let builder_calls = Cell::new(0);
        let events = response_publication_events(command, acknowledged, || {
            builder_calls.set(builder_calls.get() + 1);
            device_metadata_event(vec![])
        });
        assert_eq!(builder_calls.get(), 1);
        assert_eq!(events, vec![device_metadata_event(vec![])]);
    }
}

#[test]
fn publication_seam_skips_metadata_for_failed_and_non_mutating_commands() {
    let rename = RequestCommand::SetDeviceNickname {
        device_id: "mouse-1".to_owned(),
        nickname: Some("Desk mouse".to_owned()),
    };
    let reorder = RequestCommand::ReorderDevices {
        hardware_ids: vec!["hardware-1".to_owned()],
    };
    let cases = vec![
        (
            rename,
            ServerMessage::error(
                1,
                ErrorCode::PersistenceFailed,
                "could not save preferences".to_owned(),
            ),
        ),
        (
            reorder,
            ServerMessage::error(1, ErrorCode::OperationFailed, "duplicate hardware ID".to_owned()),
        ),
        (
            RequestCommand::ListDevices,
            ServerMessage::success(1, ResponseData::Acknowledged),
        ),
    ];
    for (command, response) in cases {
        let builder_calls = Cell::new(0);
        let events = response_publication_events(&command, response, || {
            builder_calls.set(builder_calls.get() + 1);
            device_metadata_event(vec![])
        });
        assert!(events.is_empty());
        assert_eq!(builder_calls.get(), 0);
    }
}

#[test]
fn publication_seam_keeps_hid_changes_as_one_settings_event() {
    let command = RequestCommand::SetDpi {
        device_id: "mouse-1".to_owned(),
        dpi: 800,
    };
    let state = sample_device_state();
    let response = ServerMessage::success(
        1,
        ResponseData::Device {
            device: Box::new(state.clone()),
        },
    );
    let builder_calls = Cell::new(0);
    let events = response_publication_events(&command, response, || {
        builder_calls.set(builder_calls.get() + 1);
        device_metadata_event(vec![])
    });
    assert_eq!(builder_calls.get(), 0);
    assert_eq!(
        events,
        vec![AgentEvent::SettingsChanged {
            device: Box::new(state)
        }]
    );
}

#[test]
fn host_mode_captures_supported_settings_for_restore() {
    let state = sample_device_state();
    let mut preferences = DevicePreferences::empty();
    update_preferences(
        &mut preferences,
        &RequestCommand::UseHostSettings {
            device_id: "session-id".to_owned(),
        },
        &state,
    );
    assert_eq!(preferences.control, Some(ControlPreference::Host));
    assert_eq!(preferences.host.dpi, Some(800));
    assert_eq!(
        preferences.host.polling_rate,
        Some(PollingPreference::PerConnection {
            wired_hz: 1000,
            wireless_hz: 2000,
        })
    );
    assert_eq!(
        preferences.host.lift_off_distance,
        Some(LiftOffDistance::High)
    );
    assert_eq!(preferences.host.operating_mode, None);
}

#[test]
fn live_axis_mapping_and_stage_commands_persist_verified_values() {
    let mut state = sample_device_state();
    let mut prefs = DevicePreferences::empty();
    state.settings.configuration_source = Some(ConfigurationSource::Host);
    state.settings.dpi.as_mut().unwrap().current_x = 800;
    state.settings.dpi.as_mut().unwrap().current_y = Some(1600);
    update_preferences(
        &mut prefs,
        &RequestCommand::SetDpiAxes {
            device_id: "mouse".into(),
            x: 800,
            y: 1600,
        },
        &state,
    );
    assert_eq!(prefs.host.dpi, Some(800));
    assert_eq!(prefs.host.dpi_y, Some(1600));
    state.settings.mouse_button_mapping = Some(vec![1, 2, 3, 5, 4]);
    update_preferences(
        &mut prefs,
        &RequestCommand::SetMouseButtonMapping {
            device_id: "mouse".into(),
            mapping: vec![1, 2, 3, 5, 4],
        },
        &state,
    );
    assert_eq!(prefs.host.button_mapping, Some(vec![1, 2, 3, 5, 4]));
    let saved_host = prefs.host.clone();
    state.settings.configuration_source = Some(ConfigurationSource::Onboard {
        active_profile: Some(1),
    });
    state.settings.onboard_dpi_stage = Some(2);
    update_preferences(
        &mut prefs,
        &RequestCommand::SetOnboardDpiStage {
            device_id: "mouse".into(),
            index: 2,
        },
        &state,
    );
    assert_eq!(prefs.onboard_dpi_stage, Some(2));
    assert_eq!(prefs.host, saved_host);
}

#[test]
fn selecting_onboard_profile_preserves_saved_host_preferences() {
    let mut state = sample_device_state();
    let mut preferences = DevicePreferences {
        control: Some(ControlPreference::Host),
        host: capture_protocol_host_preferences(&state),
        ..DevicePreferences::empty()
    };
    let saved_host = preferences.host.clone();
    state.settings.configuration_source = Some(ConfigurationSource::Onboard {
        active_profile: Some(1),
    });
    update_preferences(
        &mut preferences,
        &RequestCommand::UseOnboardProfile {
            device_id: "session-id".to_owned(),
            profile: 1,
        },
        &state,
    );
    assert_eq!(
        preferences.control,
        Some(ControlPreference::Onboard { profile: 1 })
    );
    assert_eq!(preferences.host, saved_host);
}

#[test]
fn unavailable_transition_is_emitted_once_until_device_recovers() {
    let mut unavailable: KeyedMap<UnavailableDevice> = KeyedMap::new();
    let first = record_unavailable(
        &mut unavailable,
        "mouse-1",
        DeviceUnavailableReason::NotResponding,
        "mouse may be switched off".to_owned(),
        Some("hardware-1".to_owned()),
    );
    assert!(matches!(
        first,
        Some(AgentEvent::DeviceUnavailable {
            reason_code: Some(DeviceUnavailableReason::NotResponding),
            ..
        })
    ));

    let retry = record_unavailable(
        &mut unavailable,
        "mouse-1",
        DeviceUnavailableReason::NotResponding,
        "second timeout".to_owned(),
        None,
    );
    assert_eq!(retry, None);
    assert_eq!(unavailable.get("mouse-1").unwrap().detail, "second timeout");
    assert_eq!(
        unavailable.get("mouse-1").unwrap().hardware_id.as_deref(),
        Some("hardware-1")
    );

    assert!(unavailable.remove("mouse-1").is_some());
    let after_recovery = record_unavailable(
        &mut unavailable,
        "mouse-1",
        DeviceUnavailableReason::CommunicationError,
        "new failure after recovery".to_owned(),
        Some("hardware-1".to_owned()),
    );
    assert!(after_recovery.is_some());
}

#[test]
fn a_new_reason_is_announced_again() {
    let mut unavailable: KeyedMap<UnavailableDevice> = KeyedMap::new();
    record_unavailable(
        &mut unavailable,
        "mouse-1",
        DeviceUnavailableReason::NotResponding,
        "asleep".to_owned(),
        None,
    );
    let changed = record_unavailable(
        &mut unavailable,
        "mouse-1",
        DeviceUnavailableReason::CommunicationError,
        "read failed".to_owned(),
        None,
    );
    assert_eq!(
        changed,
        Some(AgentEvent::DeviceUnavailable {
            device_id: "mouse-1".to_owned(),
            reason_code: Some(DeviceUnavailableReason::CommunicationError),
            reason: "read failed".to_owned(),
        })
    );
}

#[test]
fn unique_offline_usb_identity_restores_all_stored_metadata() {
    let mut settings = metadata_store();
    let identity = test_usb_identity(Some("receiver-1"));
    remember_test_device(&mut settings, "hardware-1", identity.clone());

    let metadata = resolve_device_metadata(&settings, &identity, None);

    assert_eq!(metadata.hardware_id.as_deref(), Some("hardware-1"));
    let preferences = metadata.preferences.unwrap();
    assert_eq!(preferences.nickname.as_deref(), Some("Desk mouse"));
    assert_eq!(preferences.sort_order, Some(2));
    assert_eq!(
        preferences.cached_model_name.as_deref(),
        Some("PRO X Superlight 2")
    );
}

#[test]
fn unknown_or_ambiguous_offline_usb_identity_has_no_metadata() {
    let mut settings = metadata_store();
    let identity = test_usb_identity(Some("receiver-1"));
    let unknown = resolve_device_metadata(&settings, &identity, None);
    assert_eq!(unknown.hardware_id, None);
    assert_eq!(unknown.preferences, None);

    remember_test_device(&mut settings, "hardware-1", identity.clone());
    remember_test_device(&mut settings, "hardware-2", identity.clone());
    let ambiguous = resolve_device_metadata(&settings, &identity, None);
    assert_eq!(ambiguous.hardware_id, None);
    assert_eq!(ambiguous.preferences, None);
}

#[test]
fn live_hardware_identity_wins_over_stored_usb_metadata() {
    let mut settings = metadata_store();
    let identity = test_usb_identity(Some("receiver-1"));
    remember_test_device(&mut settings, "stored-hardware", identity.clone());

    let metadata = resolve_device_metadata(&settings, &identity, Some("live-hardware"));

    assert_eq!(metadata.hardware_id.as_deref(), Some("live-hardware"));
    assert_eq!(metadata.preferences, None);
}

#[test]
fn offline_learned_nickname_uses_stored_hardware_identity() {
    let mut settings = metadata_store();
    let identity = test_usb_identity(Some("receiver-1"));
    remember_test_device(&mut settings, "hardware-1", identity.clone());
    let hardware_id = resolve_device_metadata(&settings, &identity, None)
        .hardware_id
        .unwrap();

    update_nickname(
        &mut settings,
        &hardware_id,
        Some("Offline desk mouse".to_owned()),
    )
    .unwrap();

    assert_eq!(
        settings.device("hardware-1").unwrap().nickname.as_deref(),
        Some("Offline desk mouse")
    );
    assert_eq!(settings.device("transient-session-id"), None);
}

#[test]
fn unknown_or_ambiguous_offline_nickname_has_no_hardware_identity() {
    let mut settings = metadata_store();
    let identity = test_usb_identity(Some("receiver-1"));

    assert_eq!(
        resolve_device_metadata(&settings, &identity, None).hardware_id,
        None
    );

    remember_test_device(&mut settings, "hardware-1", identity.clone());
    remember_test_device(&mut settings, "hardware-2", identity.clone());
    assert_eq!(
        resolve_device_metadata(&settings, &identity, None).hardware_id,
        None
    );
    assert_eq!(settings.device("transient-session-id"), None);
}

#[test]
fn nicknames_are_trimmed_cleared_when_blank_and_length_checked() {
    let mut settings = metadata_store();
    update_nickname(&mut settings, "unit", Some("  Desk  ".to_owned())).unwrap();
    assert_eq!(settings.device("unit").unwrap().nickname.as_deref(), Some("Desk"));
    update_nickname(&mut settings, "unit", Some(" \t ".to_owned())).unwrap();
    assert_eq!(settings.device("unit").unwrap().nickname, None);
    let long = "x".repeat(65);
    let error = update_nickname(&mut settings, "other", Some(long)).unwrap_err();
    assert_eq!(error, NicknameError::TooLong);
    assert_eq!(error.message(), "nickname must be at most 64 characters");
    assert_eq!(settings.device("other"), None);
    update_nickname(&mut settings, "other", Some("y".repeat(64))).unwrap();
    assert_eq!(settings.device("other").unwrap().nickname.as_deref().map(str::len), Some(64));
}

#[test]
fn refuses_other_protocol_versions_and_devices_that_are_not_ready() {
    let set_dpi = RequestCommand::SetDpi {
        device_id: "mouse-1".to_owned(),
        dpi: 800,
    };
    let refusal = request_refusal(7, 2, 3, &set_dpi, true, true, None).unwrap();
    assert_eq!(
        refusal,
        ServerMessage::Response {
            id: 7,
            result: ResponseResult::Error {
                code: ErrorCode::VersionMismatch,
                message: "client protocol version 2 is incompatible with agent version 3".to_owned(),
            },
        }
    );
    let missing = request_refusal(1, 3, 3, &set_dpi, false, false, None).unwrap();
    assert!(matches!(
        missing,
        ServerMessage::Response { result: ResponseResult::Error { code: ErrorCode::DeviceNotFound, ref message }, .. }
            if message == "device `mouse-1` is not connected"
    ));
    let waiting = request_refusal(1, 3, 3, &set_dpi, true, false, None).unwrap();
    assert!(matches!(
        waiting,
        ServerMessage::Response { result: ResponseResult::Error { code: ErrorCode::DeviceUnavailable, ref message }, .. }
            if message == "device `mouse-1` is present but not ready: device is still initializing"
    ));
    let asleep = request_refusal(1, 3, 3, &set_dpi, true, false, Some("asleep")).unwrap();
    assert!(matches!(
        asleep,
        ServerMessage::Response { result: ResponseResult::Error { ref message, .. }, .. }
            if message == "device `mouse-1` is present but not ready: asleep"
    ));
    assert_eq!(request_refusal(1, 3, 3, &set_dpi, true, true, None), None);
    assert_eq!(
        request_refusal(1, 3, 3, &RequestCommand::Ping, false, false, None),
        None
    );
}

#[test]
fn three_failed_battery_queries_give_a_mouse_up() {
    assert_eq!(battery_query_outcome(0, false, false), (1, false, false));
    assert_eq!(battery_query_outcome(2, false, false), (3, false, true));
    assert_eq!(battery_query_outcome(255, false, true), (255, false, true));
    assert_eq!(battery_query_outcome(2, true, true), (0, true, false));
}

#[test]
fn summaries_prefer_a_live_name_and_carry_stored_metadata() {
    let device = ManagedDevice {
        id: "session".to_owned(),
        vendor_id: 0x046d,
        product_id: 0xc54d,
        product_name: Some("USB Receiver".to_owned()),
        serial_number: Some("  ".to_owned()),
        connection: DeviceConnection::Receiver,
        device_index: 2,
    };
    let preferences = DevicePreferences {
        nickname: Some("Desk".to_owned()),
        cached_model_name: Some("G Pro".to_owned()),
        color: DeviceColor::Mint,
        sort_order: Some(4),
        ..DevicePreferences::empty()
    };
    let offline = device_summary(
        &device,
        DeviceAvailability::Initializing,
        Some("hardware"),
        None,
        Some(&preferences),
    );
    assert_eq!(offline.display_name.as_deref(), Some("G Pro"));
    assert_eq!(offline.nickname.as_deref(), Some("Desk"));
    assert_eq!(offline.color, DeviceColor::Mint);
    assert_eq!(offline.sort_order, Some(4));
    assert!(!offline.ready);
    let live = device_summary(&device, DeviceAvailability::Ready, None, Some("Live"), None);
    assert_eq!(live.display_name.as_deref(), Some("Live"));
    assert_eq!(live.color, DeviceColor::Black);
    assert!(live.ready);
    assert_eq!(usb_identity(&device).serial_number, None);
    assert_eq!(usb_identity(&device).device_index, 2);
}

#[test]
fn setting_commands_are_remembered_under_the_hardware_identity() {
    let mut settings = metadata_store();
    let mut device = sample_device_state();
    device.settings.dpi.as_mut().unwrap().current_x = 1600;
    let command = RequestCommand::SetDpi { device_id: "session-id".to_owned(), dpi: 1600 };
    let response = ResponseData::Device { device: Box::new(device.clone()) };
    assert_eq!(remember_command(&mut settings, &command, &response), Ok(true));
    let stored = settings.device("046d:unit:1077e69f").unwrap();
    assert_eq!(stored.host.dpi, Some(1600));
    assert_eq!(stored.control, Some(ControlPreference::Host));

    let ping = RequestCommand::Ping;
    assert_eq!(remember_command(&mut settings, &ping, &ResponseData::Pong), Ok(false));
    assert_eq!(
        remember_command(&mut settings, &command, &ResponseData::Acknowledged).unwrap_err(),
        "a setting command returned no device snapshot"
    );
    device.device.hardware_id = None;
    let anonymous = ResponseData::Device { device: Box::new(device) };
    assert_eq!(
        remember_command(&mut settings, &command, &anonymous).unwrap_err(),
        "the device has no persistent HID++ hardware identity"
    );
}

#[test]
fn polling_under_an_onboard_profile_needs_explicit_host_control() {
    let onboard = Some(ConfigurationSource::Onboard { active_profile: Some(1) });
    assert_eq!(polling_takes_host_control(onboard, true), Ok(true));
    assert!(polling_takes_host_control(onboard, false).unwrap_err().contains("disable_onboard_profiles=true"));
    assert_eq!(polling_takes_host_control(Some(ConfigurationSource::Host), false), Ok(false));
    assert_eq!(polling_takes_host_control(None, false), Ok(false));
}

#[test]
fn identity_is_cached_only_when_it_changes() {
    let mut preferences = DevicePreferences::empty();
    assert!(remember_identity(&mut preferences, Some("PRO X 2"), test_usb_identity(Some("ABC"))));
    assert_eq!(preferences.cached_model_name.as_deref(), Some("PRO X 2"));
    assert!(!remember_identity(&mut preferences, Some("PRO X 2"), test_usb_identity(Some("ABC"))));
    assert!(!remember_identity(&mut preferences, None, test_usb_identity(Some("ABC"))));
    assert!(remember_identity(&mut preferences, None, test_usb_identity(Some("XYZ"))));
    assert_eq!(preferences.cached_model_name.as_deref(), Some("PRO X 2"));
    assert!(remember_identity(&mut preferences, Some("G305"), test_usb_identity(Some("XYZ"))));
    assert_eq!(preferences.cached_model_name.as_deref(), Some("G305"));
}

fn reading(percentage: u8) -> Option<gflick::protocol::BatteryState> {
    Some(gflick::protocol::BatteryState {
        percentage,
        level_code: 0,
        status_code: 0,
        status: "discharging".to_owned(),
    })
}

#[test]
fn a_dropped_link_is_announced_once_as_not_responding() {
    let mut unavailable: KeyedMap<UnavailableDevice> = KeyedMap::new();
    let first = link_lost(&mut unavailable, "mouse-1", Some("hardware-1".to_owned()));
    assert_eq!(
        first,
        Some(AgentEvent::DeviceUnavailable {
            device_id: "mouse-1".to_owned(),
            reason_code: Some(DeviceUnavailableReason::NotResponding),
            reason: "wireless link disconnected; mouse may be asleep, switched off, or out of range"
                .to_owned(),
        })
    );
    assert_eq!(link_lost(&mut unavailable, "mouse-1", None), None);
    assert_eq!(
        unavailable.get("mouse-1").unwrap().hardware_id.as_deref(),
        Some("hardware-1")
    );
}

#[test]
fn only_devices_neither_ready_nor_just_dropped_are_retried() {
    let ready = vec!["mouse-1".to_owned()];
    let dropped = vec!["mouse-2".to_owned()];
    assert!(!should_retry("mouse-1", &ready, &dropped));
    assert!(!should_retry("mouse-2", &ready, &dropped));
    assert!(should_retry("mouse-3", &ready, &dropped));
}

#[test]
fn a_reopened_mouse_is_ready_and_no_longer_unavailable() {
    let mut unavailable: KeyedMap<UnavailableDevice> = KeyedMap::new();
    link_lost(&mut unavailable, "mouse-1", None);
    let state = sample_device_state();
    let event = after_reopen(&mut unavailable, "mouse-1", Ok(state.clone()), None);
    assert_eq!(event, Some(AgentEvent::DeviceReady { device: Box::new(state) }));
    assert!(unavailable.get("mouse-1").is_none());
}

#[test]
fn a_mouse_that_cannot_be_reopened_says_why() {
    let mut unavailable: KeyedMap<UnavailableDevice> = KeyedMap::new();
    let asleep = after_reopen(
        &mut unavailable,
        "mouse-1",
        Err(ReopenFailure::NotOpened("timed out".to_owned())),
        Some("hardware-1".to_owned()),
    );
    assert_eq!(
        asleep,
        Some(AgentEvent::DeviceUnavailable {
            device_id: "mouse-1".to_owned(),
            reason_code: Some(DeviceUnavailableReason::NotResponding),
            reason: "mouse is present but not responding; it may be asleep or switched off: timed out"
                .to_owned(),
        })
    );
    let unreadable = after_reopen(
        &mut unavailable,
        "mouse-1",
        Err(ReopenFailure::NotRead("bad report".to_owned())),
        None,
    );
    assert_eq!(
        unreadable,
        Some(AgentEvent::DeviceUnavailable {
            device_id: "mouse-1".to_owned(),
            reason_code: Some(DeviceUnavailableReason::CommunicationError),
            reason: "could not read mouse state: bad report".to_owned(),
        })
    );
    assert_eq!(
        unavailable.get("mouse-1").unwrap().hardware_id.as_deref(),
        Some("hardware-1")
    );
}

#[test]
fn an_unplugged_mouse_is_forgotten() {
    let mut unavailable: KeyedMap<UnavailableDevice> = KeyedMap::new();
    link_lost(&mut unavailable, "mouse-1", None);
    let event = forget_disconnected(&mut unavailable, "mouse-1");
    assert_eq!(event, AgentEvent::DeviceDisconnected { device_id: "mouse-1".to_owned() });
    assert!(unavailable.get("mouse-1").is_none());
}

#[test]
fn battery_checks_publish_changes_and_give_up_after_three_failures() {
    let mut watch = BatteryWatch { battery: reading(50), check_after: 1_000, failures: 0 };
    assert!(!battery_check_due(&watch, 999));
    assert!(battery_check_due(&watch, 1_000));

    let same = after_battery_query(&mut watch, "mouse-1", Ok(reading(50)), 1_000, 500);
    assert_eq!(same, (None, None));
    assert_eq!(watch.check_after, 1_500);

    let changed = after_battery_query(&mut watch, "mouse-1", Ok(reading(49)), 1_500, 500);
    assert_eq!(
        changed,
        (Some(AgentEvent::BatteryChanged { device_id: "mouse-1".to_owned(), battery: reading(49) }), None)
    );
    assert_eq!(watch.battery, reading(49));

    assert_eq!(after_battery_query(&mut watch, "mouse-1", Err("no answer".to_owned()), 2_000, 500), (None, None));
    assert_eq!(after_battery_query(&mut watch, "mouse-1", Err("no answer".to_owned()), 2_500, 500), (None, None));
    let given_up = after_battery_query(&mut watch, "mouse-1", Err("no answer".to_owned()), 3_000, 500);
    assert_eq!(
        given_up,
        (None, Some("mouse stopped responding during a battery query: no answer".to_owned()))
    );
    assert_eq!(watch.failures, 3);
    assert_eq!(watch.battery, reading(49));

    let mut unavailable: KeyedMap<UnavailableDevice> = KeyedMap::new();
    let event = battery_given_up(&mut unavailable, "mouse-1", given_up.1.unwrap(), None);
    assert!(matches!(
        event,
        Some(AgentEvent::DeviceUnavailable {
            reason_code: Some(DeviceUnavailableReason::CommunicationError),
            ..
        })
    ));

    let recovered = after_battery_query(&mut watch, "mouse-1", Ok(reading(49)), 3_500, 500);
    assert_eq!(recovered, (None, None));
    assert_eq!(watch.failures, 0);
}

#[test]
fn answers_say_whether_the_command_ran_and_was_saved() {
    assert_eq!(
        command_answer(7, Ok(ResponseData::Acknowledged), Ok(())),
        ServerMessage::Response {
            id: 7,
            result: ResponseResult::Success { data: ResponseData::Acknowledged },
        }
    );
    assert_eq!(
        command_answer(7, Ok(ResponseData::Acknowledged), Err("disk full".to_owned())),
        ServerMessage::Response {
            id: 7,
            result: ResponseResult::Error {
                code: ErrorCode::PersistenceFailed,
                message: "the setting was applied and verified, but could not be persisted: disk full"
                    .to_owned(),
            },
        }
    );
    assert_eq!(
        command_answer(7, Err("write refused".to_owned()), Err("not asked".to_owned())),
        ServerMessage::Response {
            id: 7,
            result: ResponseResult::Error {
                code: ErrorCode::OperationFailed,
                message: "write refused".to_owned(),
            },
        }
    );
}
