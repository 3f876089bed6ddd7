use gflick::output::{device_text, devices_text, event_human, status_line};
use gflick::protocol::{
    AgentEvent, BatteryState, BunnyHoppingState, ConfigurationSource, DeviceAvailability,
    DeviceCapabilities, DeviceColor, DeviceConnection, DeviceState, DeviceSummary,
    DeviceUnavailableReason, DpiState, OperatingMode, PollingRateCapabilities, PollingRateState,
    SettingsState, SurfaceMode,
};

fn summary() -> DeviceSummary {
    DeviceSummary {
        id: "mouse-1".to_owned(),
        hardware_id: None,
        vendor_id: 1,
        product_id: 2,
        product_name: None,
        display_name: None,
        serial_number: None,
        nickname: None,
        color: DeviceColor::Black,
        sort_order: None,
        connection: DeviceConnection::DirectUsb,
        device_index: 0,
        availability: None,
        ready: true,
    }
}

fn state() -> DeviceState {
    DeviceState {
        device: summary(),
        capabilities: DeviceCapabilities {
            battery: false,
            supported_dpi: None,
            polling_rates: PollingRateCapabilities::Unsupported,
            onboard_profiles: false,
            onboard_profile_count: None,
            lift_off_distance: false,
            surface_mode: false,
            operating_mode_switch: false,
            color_led_effects: false,
            bunny_hopping: false,
            mouse_button_filter: false,
        },
        settings: SettingsState {
            onboard_dpi_stage: None,
            mouse_button_mapping: None,
            battery: None,
            dpi: None,
            polling_rate: PollingRateState::Unsupported,
            configuration_source: None,
            operating_mode: None,
            surface_mode: None,
            bunny_hopping: None,
        },
    }
}

fn discharging() -> BatteryState {
    BatteryState { percentage: 89, level_code: 8, status_code: 0, status: "discharging".to_owned() }
}

fn populated_state() -> DeviceState {
    let mut device = state();
    device.settings.battery = Some(discharging());
    device.settings.dpi = Some(DpiState {
        current_x: 1600,
        default_x: 800,
        current_y: Some(800),
        default_y: None,
        lift_off_distance: None,
    });
    device.settings.polling_rate = PollingRateState::PerConnection { wired_hz: 1000, wireless_hz: 500 };
    device.settings.configuration_source = Some(ConfigurationSource::Onboard { active_profile: Some(2) });
    device.settings.operating_mode = Some(OperatingMode::Performance);
    device.settings.surface_mode = Some(SurfaceMode::Automatic);
    device.settings.bunny_hopping = Some(BunnyHoppingState { enabled: true, timeout_ms: 100 });
    device
}

#[test]
fn human_list_uses_vid_pid_fallback_and_status() {
    assert_eq!(devices_text(&vec![summary()]), "0001:0002 (mouse-1) — ready\n");
}

#[test]
fn human_list_renders_unavailable_status_and_stable_selector() {
    let mut unavailable = summary();
    unavailable.hardware_id = Some("hardware-id".to_owned());
    unavailable.availability = Some(DeviceAvailability::Unavailable {
        reason: DeviceUnavailableReason::NotResponding,
        detail: "sleeping".to_owned(),
    });
    unavailable.ready = false;
    assert_eq!(devices_text(&vec![unavailable]), "0001:0002 (hardware-id) — unavailable: sleeping\n");
}

#[test]
fn empty_device_list_says_so() {
    assert_eq!(devices_text(&vec![]), "No devices found.\n");
}

#[test]
fn human_device_snapshot_contains_available_settings() {
    let output = device_text(&populated_state());
    assert!(output.contains("Device: 0001:0002\n"));
    assert!(output.contains("Selector: mouse-1\nStatus: ready\n"));
    assert!(output.contains("Battery: 89% (discharging)\n"));
    assert!(output.contains("DPI: 1600 x 800\n"));
    assert!(output.contains("Polling rate: wired 1000 Hz; wireless 500 Hz\n"));
    assert!(output.contains("Configuration source: onboard profile 2\n"));
    assert!(output.contains("Operating mode: performance\nSurface mode: automatic\n"));
    assert!(output.contains("BHOP: on (100 ms)\n"));
}

#[test]
fn device_snapshot_lines_come_in_order() {
    let mut device = populated_state();
    device.settings.dpi.as_mut().unwrap().current_y = None;
    device.settings.polling_rate = PollingRateState::Shared { hz: 8000 };
    device.settings.configuration_source = Some(ConfigurationSource::Unknown { raw_mode: 7 });
    device.settings.bunny_hopping = Some(BunnyHoppingState { enabled: false, timeout_ms: 300 });
    assert_eq!(
        device_text(&device),
        "Device: 0001:0002\nSelector: mouse-1\nStatus: ready\nBattery: 89% (discharging)\n\
         DPI: 1600\nPolling rate: 8000 Hz\nConfiguration source: unknown (7)\n\
         Operating mode: performance\nSurface mode: automatic\nBHOP: off (300 ms)\n"
    );
}

#[test]
fn unavailable_device_omits_stale_settings() {
    let mut unavailable = state();
    unavailable.device.ready = false;
    unavailable.device.availability = Some(DeviceAvailability::Unavailable {
        reason: DeviceUnavailableReason::NotResponding,
        detail: "sleeping".to_owned(),
    });
    unavailable.settings.battery = Some(discharging());
    assert_eq!(
        device_text(&unavailable),
        "Device: 0001:0002\nSelector: mouse-1\nStatus: unavailable: sleeping\n"
    );
}

#[test]
fn metadata_event_has_compact_human_output() {
    let event = AgentEvent::DeviceMetadataChanged { devices: vec![summary()] };
    assert_eq!(event_human(&event), "Device metadata changed: 1 device(s)");
}

#[test]
fn every_event_reads_as_one_sentence() {
    let cases = [
        (AgentEvent::ApplicationShuttingDown, "Agent is shutting down"),
        (AgentEvent::DeviceConnected { device: summary() }, "Device connected: 0001:0002"),
        (AgentEvent::DeviceReady { device: Box::new(state()) }, "Device ready: 0001:0002"),
        (
            AgentEvent::DeviceUnavailable {
                device_id: "mouse-1".to_owned(),
                reason_code: None,
                reason: "sleeping".to_owned(),
            },
            "Device unavailable: mouse-1 (sleeping)",
        ),
        (AgentEvent::SettingsChanged { device: Box::new(state()) }, "Settings changed: 0001:0002"),
        (AgentEvent::DeviceDisconnected { device_id: "mouse-1".to_owned() }, "Device disconnected: mouse-1"),
        (
            AgentEvent::BatteryChanged { device_id: "mouse-1".to_owned(), battery: None },
            "Battery unavailable: mouse-1",
        ),
        (
            AgentEvent::BatteryChanged { device_id: "mouse-1".to_owned(), battery: Some(discharging()) },
            "Battery changed: mouse-1 (89%)",
        ),
    ];
    for (event, text) in cases {
        assert_eq!(event_human(&event), text);
    }
}

#[test]
fn status_line_names_the_protocol() {
    assert_eq!(status_line(3), "Agent: running (protocol 3)\n");
}
