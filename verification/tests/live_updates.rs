use gflick::keyed::KeyedMap;
use gflick::live::{apply, merge};
use gflick::protocol::{
    AgentEvent, BatteryState, BunnyHoppingState, ConfigurationSource, DeviceAvailability,
    DeviceCapabilities, DeviceColor, DeviceConnection, DeviceState, DeviceSummary,
    DeviceUnavailableReason, DpiState, LiftOffDistance, OperatingMode, PollingRateCapabilities,
    PollingRateState, SettingsState, SurfaceMode,
};

fn device() -> DeviceState {
    DeviceState {
        device: DeviceSummary {
            id: "mouse".into(),
            hardware_id: Some("hardware".into()),
            vendor_id: 0x046d,
            product_id: 0xc09b,
            product_name: Some("USB Receiver".into()),
            display_name: Some("PRO X 2".into()),
            serial_number: None,
            nickname: None,
            color: DeviceColor::Black,
            sort_order: None,
            connection: DeviceConnection::Receiver,
            device_index: 1,
            availability: Some(DeviceAvailability::Ready),
            ready: true,
        },
        capabilities: DeviceCapabilities {
            battery: true,
            supported_dpi: Some(vec![400, 800, 1200, 1600, 3200]),
            polling_rates: PollingRateCapabilities::PerConnection {
                wired_hz: vec![125, 500, 1000],
                wireless_hz: vec![125, 500, 1000, 2000],
            },
            onboard_profiles: true,
            onboard_profile_count: Some(5),
            lift_off_distance: true,
            surface_mode: true,
            operating_mode_switch: true,
            color_led_effects: true,
            bunny_hopping: true,
            mouse_button_filter: false,
        },
        settings: SettingsState {
            onboard_dpi_stage: None,
            mouse_button_mapping: None,
            battery: Some(BatteryState {
                percentage: 47,
                level_code: 0,
                status_code: 0,
                status: "discharging".into(),
            }),
            dpi: Some(DpiState {
                current_x: 800,
                default_x: 800,
                current_y: Some(800),
                default_y: Some(800),
                lift_off_distance: Some(LiftOffDistance::High),
            }),
            polling_rate: PollingRateState::PerConnection {
                wired_hz: 1000,
                wireless_hz: 1000,
            },
            configuration_source: Some(ConfigurationSource::Onboard {
                active_profile: Some(1),
            }),
            operating_mode: Some(OperatingMode::Performance),
            surface_mode: Some(SurfaceMode::Off),
            bunny_hopping: Some(BunnyHoppingState {
                enabled: false,
                timeout_ms: 100,
            }),
        },
    }
}

fn battery(percentage: u8, status_code: u8) -> Option<BatteryState> {
    Some(BatteryState {
        percentage,
        level_code: 0,
        status_code,
        status: if status_code == 1 {
            "charging"
        } else {
            "discharging"
        }
        .into(),
    })
}

#[test]
fn battery_updates_charge_status_without_refreshing_other_settings() {
    let state = device();
    let mut devices = vec![state.device.clone()];
    let mut states = vec![state.clone()];
    let mut disconnected = KeyedMap::new();
    apply(
        &mut devices,
        &mut states,
        &mut disconnected,
        AgentEvent::BatteryChanged {
            device_id: state.device.id.clone(),
            battery: battery(74, 1),
        },
    );
    let mut expected = state;
    expected.settings.battery = battery(74, 1);
    assert_eq!(states, vec![expected.clone()]);
    apply(
        &mut devices,
        &mut states,
        &mut disconnected,
        AgentEvent::BatteryChanged {
            device_id: expected.device.id,
            battery: None,
        },
    );
    assert!(states[0].settings.battery.is_none());
}

#[test]
fn hardware_and_metadata_events_stay_manual() {
    let state = device();
    let mut devices = vec![state.device.clone()];
    let mut states = vec![state.clone()];
    let mut changed = state.clone();
    changed.settings.dpi = None;
    changed.device.nickname = Some("External name".into());
    apply(
        &mut devices,
        &mut states,
        &mut KeyedMap::new(),
        AgentEvent::SettingsChanged {
            device: Box::new(changed.clone()),
        },
    );
    apply(
        &mut devices,
        &mut states,
        &mut KeyedMap::new(),
        AgentEvent::DeviceMetadataChanged {
            devices: vec![changed.device],
        },
    );
    assert_eq!(devices, vec![state.device.clone()]);
    assert_eq!(states, vec![state]);
}

#[test]
fn offline_and_usb_disconnected_are_distinct_and_clear_battery() {
    let state = device();
    let id = state.device.id.clone();
    let mut devices = vec![state.device.clone()];
    let mut states = vec![state];
    let mut disconnected = KeyedMap::new();
    apply(
        &mut devices,
        &mut states,
        &mut disconnected,
        AgentEvent::DeviceUnavailable {
            device_id: id.clone(),
            reason_code: Some(DeviceUnavailableReason::NotResponding),
            reason: "Mouse asleep".into(),
        },
    );
    assert!(!devices[0].ready);
    assert!(states.is_empty());
    assert!(disconnected.is_empty());
    apply(
        &mut devices,
        &mut states,
        &mut disconnected,
        AgentEvent::DeviceDisconnected {
            device_id: id.clone(),
        },
    );
    assert!(disconnected.contains_key(&id));
    apply(
        &mut devices,
        &mut states,
        &mut disconnected,
        AgentEvent::BatteryChanged {
            device_id: id,
            battery: battery(100, 1),
        },
    );
    assert!(states.is_empty());
    assert!(!devices[0].ready);
}

#[test]
fn reused_receiver_route_preserves_the_previous_mouse() {
    let state = device();
    let mut devices = vec![state.device.clone()];
    let mut states = vec![state.clone()];
    let mut disconnected = KeyedMap::new();
    let mut replacement = state;
    replacement.device.hardware_id = Some("other-mouse".into());
    apply(
        &mut devices,
        &mut states,
        &mut disconnected,
        AgentEvent::DeviceReady {
            device: Box::new(replacement.clone()),
        },
    );
    assert_eq!(devices.len(), 2);
    assert_eq!(disconnected.len(), 1);
    assert_eq!(states, vec![replacement]);
    assert_ne!(devices[0].id, devices[1].id);
    assert!(devices.iter().any(|d| d.id == "saved:hardware" && !d.ready));
}

#[test]
fn reconnect_on_a_new_usb_route_replaces_the_remembered_row() {
    let state = device();
    let mut devices = vec![state.device.clone()];
    let mut states = vec![state.clone()];
    let mut disconnected = KeyedMap::new();
    apply(
        &mut devices,
        &mut states,
        &mut disconnected,
        AgentEvent::DeviceDisconnected {
            device_id: state.device.id.clone(),
        },
    );
    let mut returned = state;
    returned.device.id = "another-usb-port".into();
    apply(
        &mut devices,
        &mut states,
        &mut disconnected,
        AgentEvent::DeviceReady {
            device: Box::new(returned.clone()),
        },
    );
    assert_eq!(devices, vec![returned.device.clone()]);
    assert_eq!(states, vec![returned]);
    assert!(disconnected.is_empty());
}

#[test]
fn connected_devices_are_listed_by_position() {
    let state = device();
    let mut first = state.device.clone();
    first.id = "first".into();
    first.hardware_id = Some("hw-first".into());
    first.sort_order = Some(0);
    let mut devices = vec![state.device.clone()];
    let mut states = vec![];
    let mut disconnected = KeyedMap::new();
    apply(
        &mut devices,
        &mut states,
        &mut disconnected,
        AgentEvent::DeviceConnected { device: first.clone() },
    );
    assert_eq!(devices, vec![first, state.device]);
}

#[test]
fn unplug_retains_identity_and_reconnect_replaces_old_usb_route() {
    let mouse = device().device;
    let (known, disconnected) = merge(&vec![mouse.clone()], vec![]);
    assert_eq!(known.len(), 1);
    assert!(!known[0].ready);
    assert!(disconnected.contains_key(&mouse.id));
    let mut returned = mouse.clone();
    returned.id = "new-usb-port".into();
    let (devices, disconnected) = merge(&known, vec![returned.clone()]);
    assert_eq!(devices, vec![returned]);
    assert!(disconnected.is_empty());
}

#[test]
fn reused_usb_route_does_not_replace_a_different_physical_mouse() {
    let old = device().device;
    let mut replacement = old.clone();
    replacement.hardware_id = Some("different-mouse".into());
    let (devices, disconnected) = merge(&vec![old], vec![replacement]);
    assert_eq!(devices.len(), 2);
    assert_ne!(devices[0].id, devices[1].id);
    assert_eq!(disconnected.len(), 1);
    let (again, _) = merge(&devices, vec![devices[0].clone()]);
    assert_eq!(again.len(), 2);
}

#[test]
fn receiver_present_is_not_usb_disconnected() {
    let mouse = device().device;
    let mut offline = mouse.clone();
    offline.ready = false;
    offline.availability = Some(DeviceAvailability::Unavailable {
        reason: DeviceUnavailableReason::NotResponding,
        detail: "No wireless response".into(),
    });
    let (devices, disconnected) = merge(&vec![mouse], vec![offline.clone()]);
    assert_eq!(devices, vec![offline]);
    assert!(disconnected.is_empty());
}
