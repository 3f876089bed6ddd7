use gflick::apply::{
    apply_with, load_snapshot_with, reorder_acknowledged, ApplyPhase, ApplyRun,
};
use gflick::protocol::{
    BatteryState, BunnyHoppingState, ConfigurationSource, DeviceAvailability, DeviceCapabilities,
    DeviceColor, DeviceConnection, DeviceState, DeviceSummary, DpiState, LiftOffDistance,
    OperatingMode, PollingRateCapabilities, PollingRateState, RequestCommand, ResponseData,
    SettingsState, SurfaceMode,
};
use gflick::settings_form::{Change, Key};
use gflick::transport::Transport;

fn device() -> DeviceState {
    DeviceState {
        device: DeviceSummary {
            id: "mouse".into(),
            hardware_id: Some("hardware".into()),
            vendor_id: 0x046d,
            product_id: 0xc09b,
            product_name: Some("USB Receiver".into()),
            display_name: Some("PRO X 2".into()),
            serial_number: None,
            nickname: None,
            color: DeviceColor::Black,
            sort_order: None,
            connection: DeviceConnection::Receiver,
            device_index: 1,
            availability: Some(DeviceAvailability::Ready),
            ready: true,
        },
        capabilities: DeviceCapabilities {
            battery: true,
            supported_dpi: Some(vec![400, 800, 1200, 1600, 3200]),
            polling_rates: PollingRateCapabilities::PerConnection {
                wired_hz: vec![125, 500, 1000],
                wireless_hz: vec![125, 500, 1000, 2000],
            },
            onboard_profiles: true,
            onboard_profile_count: Some(5),
            lift_off_distance: true,
            surface_mode: true,
            operating_mode_switch: true,
            color_led_effects: true,
            bunny_hopping: true,
            mouse_button_filter: false,
        },
        settings: SettingsState {
            onboard_dpi_stage: None,
            mouse_button_mapping: None,
            battery: Some(BatteryState {
                percentage: 47,
                level_code: 0,
                status_code: 0,
                status: "discharging".into(),
            }),
            dpi: Some(DpiState {
                current_x: 800,
                default_x: 800,
                current_y: Some(800),
                default_y: Some(800),
                lift_off_distance: Some(LiftOffDistance::High),
            }),
            polling_rate: PollingRateState::PerConnection {
                wired_hz: 1000,
                wireless_hz: 1000,
            },
            configuration_source: Some(ConfigurationSource::Onboard {
                active_profile: Some(1),
            }),
            operating_mode: Some(OperatingMode::Performance),
            surface_mode: Some(SurfaceMode::Off),
            bunny_hopping: Some(BunnyHoppingState {
                enabled: false,
                timeout_ms: 100,
            }),
        },
    }
}

fn response(state: &DeviceState) -> ResponseData {
    ResponseData::Device { device: Box::new(state.clone()) }
}

fn dpi() -> Change {
    Change { keys: vec![Key::Dpi], command: RequestCommand::SetDpi { device_id: "mouse".into(), dpi: 1600 } }
}

#[test]
fn external_color_change_preserves_the_new_saved_value() {
    let baseline = device();
    let mut current = baseline.clone();
    current.device.color = DeviceColor::White;
    let outcome = apply_with(baseline, vec![dpi()], &mut Transport::new(|command| {
        assert!(matches!(command, RequestCommand::GetDevice { .. }));
        Ok(response(&current))
    }));
    assert!(outcome.error.is_some());
    assert!(outcome.applied.is_empty());
    assert_eq!(outcome.state.unwrap().device.color, DeviceColor::White);
}

#[test]
fn color_acknowledgement_reads_back_saved_appearance() {
    let baseline = device();
    let mut actual = baseline.clone();
    let outcome = apply_with(
        baseline,
        vec![Change {
            keys: vec![Key::Appearance],
            command: RequestCommand::SetDeviceColor { device_id: "mouse".into(), color: DeviceColor::Cyan },
        }],
        &mut Transport::new(|command| match command {
            RequestCommand::GetDevice { .. } => Ok(response(&actual)),
            RequestCommand::SetDeviceColor { color, .. } => {
                actual.device.color = color;
                Ok(ResponseData::Acknowledged)
            }
            _ => panic!("color must not issue hardware commands"),
        }),
    );
    assert!(outcome.error.is_none());
    assert_eq!(outcome.applied, vec![Key::Appearance]);
    assert_eq!(outcome.state.unwrap().device.color, DeviceColor::Cyan);
}

#[test]
fn stops_failed_batch_and_reads_actual_partial_state() {
    let baseline = device();
    let mut actual = baseline.clone();
    let mut calls = Vec::new();
    let changes = vec![
        dpi(),
        Change {
            keys: vec![Key::Surface],
            command: RequestCommand::SetSurfaceMode { device_id: "mouse".into(), mode: SurfaceMode::On },
        },
        Change {
            keys: vec![Key::Nickname],
            command: RequestCommand::SetDeviceNickname {
                device_id: "mouse".into(),
                nickname: Some("Desk".into()),
            },
        },
    ];
    let outcome = apply_with(baseline, changes, &mut Transport::new(|command| {
        calls.push(command.clone());
        match command {
            RequestCommand::GetDevice { .. } => Ok(response(&actual)),
            RequestCommand::SetDpi { dpi, .. } => {
                actual.settings.dpi.as_mut().unwrap().current_x = dpi;
                Ok(response(&actual))
            }
            RequestCommand::SetSurfaceMode { .. } => Err("simulated device failure".to_owned()),
            _ => panic!("writes after failure must not execute"),
        }
    }));
    assert_eq!(outcome.applied, vec![Key::Dpi]);
    assert!(outcome.error.unwrap().contains("simulated device failure"));
    assert_eq!(outcome.state.unwrap().settings.dpi.unwrap().current_x, 1600);
    assert!(matches!(calls.last(), Some(RequestCommand::GetDevice { .. })));
    assert_eq!(calls.len(), 4);
}

#[test]
fn concurrent_settings_change_is_not_overwritten() {
    let baseline = device();
    let mut actual = baseline.clone();
    actual.settings.dpi.as_mut().unwrap().current_x = 1200;
    let outcome = apply_with(baseline, vec![dpi()], &mut Transport::new(|command| {
        assert!(matches!(command, RequestCommand::GetDevice { .. }));
        Ok(response(&actual))
    }));
    assert!(outcome.applied.is_empty());
    assert!(outcome.error.unwrap().contains("changed since"));
    assert_eq!(outcome.state, Some(actual));
}

#[test]
fn battery_change_does_not_block_a_write() {
    let baseline = device();
    let mut actual = baseline.clone();
    actual.settings.battery.as_mut().unwrap().percentage = 46;
    let outcome = apply_with(baseline, vec![dpi()], &mut Transport::new(|command| {
        if let RequestCommand::SetDpi { dpi, .. } = command {
            actual.settings.dpi.as_mut().unwrap().current_x = dpi;
        }
        Ok(response(&actual))
    }));
    assert!(outcome.error.is_none());
    assert_eq!(outcome.applied, vec![Key::Dpi]);
}

#[test]
fn nickname_acknowledgement_is_followed_by_readback() {
    let baseline = device();
    let mut actual = baseline.clone();
    let outcome = apply_with(
        baseline,
        vec![Change {
            keys: vec![Key::Nickname],
            command: RequestCommand::SetDeviceNickname { device_id: "mouse".into(), nickname: Some("Desk".into()) },
        }],
        &mut Transport::new(|command| {
            if let RequestCommand::SetDeviceNickname { nickname, .. } = command {
                actual.device.nickname = nickname;
                Ok(ResponseData::Acknowledged)
            } else {
                Ok(response(&actual))
            }
        }),
    );
    assert!(outcome.error.is_none());
    assert_eq!(outcome.state.unwrap().device.nickname.as_deref(), Some("Desk"));
    assert_eq!(outcome.applied, vec![Key::Nickname]);
}

#[test]
fn failed_final_read_never_reports_success() {
    let baseline = device();
    let mut actual = baseline.clone();
    let mut reads = 0;
    let outcome = apply_with(baseline, vec![dpi()], &mut Transport::new(|command| {
        if matches!(command, RequestCommand::GetDevice { .. }) {
            reads += 1;
            if reads == 2 {
                return Err("disconnected".to_owned());
            }
        }
        if let RequestCommand::SetDpi { dpi, .. } = command {
            actual.settings.dpi.as_mut().unwrap().current_x = dpi;
        }
        Ok(response(&actual))
    }));
    assert!(outcome.error.unwrap().contains("read-back failed"));
}

#[test]
fn replacement_device_on_same_receiver_is_not_written() {
    let baseline = device();
    let mut replacement = baseline.clone();
    replacement.device.hardware_id = Some("different mouse".into());
    let outcome = apply_with(baseline, vec![dpi()], &mut Transport::new(|command| {
        assert!(matches!(command, RequestCommand::GetDevice { .. }));
        Ok(response(&replacement))
    }));
    assert!(outcome.error.is_some());
    assert!(outcome.applied.is_empty());
}

#[test]
fn hardware_write_answered_with_a_bare_acknowledgement_is_refused() {
    let baseline = device();
    let actual = baseline.clone();
    let outcome = apply_with(baseline, vec![dpi()], &mut Transport::new(|command| match command {
        RequestCommand::SetDpi { .. } => Ok(ResponseData::Acknowledged),
        _ => Ok(response(&actual)),
    }));
    assert!(outcome.applied.is_empty());
    assert_eq!(outcome.error.as_deref(), Some("agent returned an unexpected write response"));
}

#[test]
fn both_failures_are_reported_together() {
    let baseline = device();
    let mut reads = 0;
    let outcome = apply_with(baseline.clone(), vec![dpi()], &mut Transport::new(|command| {
        if matches!(command, RequestCommand::GetDevice { .. }) {
            reads += 1;
            if reads == 1 {
                return Ok(ResponseData::Acknowledged);
            }
            return Err("gone".to_owned());
        }
        panic!("no write may follow a failed check")
    }));
    assert_eq!(
        outcome.error.as_deref(),
        Some("agent returned no device state Device read-back failed: gone. Refresh before making more changes.")
    );
    assert!(outcome.state.is_none());
}

#[test]
fn run_asks_for_the_device_first_and_last() {
    let baseline = device();
    let (mut run, first) = ApplyRun::start(baseline.clone(), vec![dpi()]);
    assert!(matches!(first, RequestCommand::GetDevice { ref device_id } if device_id == "mouse"));
    let write = run.step(Ok(response(&baseline))).unwrap();
    assert!(matches!(write, RequestCommand::SetDpi { dpi: 1600, .. }));
    assert_eq!(run.phase, ApplyPhase::Write);
    let read = run.step(Ok(response(&baseline))).unwrap();
    assert!(matches!(read, RequestCommand::GetDevice { .. }));
    assert_eq!(run.phase, ApplyPhase::ReadBack);
    assert!(run.step(Ok(response(&baseline))).is_none());
    assert_eq!(run.phase, ApplyPhase::Done);
    let outcome = run.finish();
    assert_eq!(outcome.applied, vec![Key::Dpi]);
    assert!(outcome.error.is_none());
}

#[test]
fn snapshot_reads_every_ready_mouse_in_order() {
    let ready = device();
    let mut asleep = device().device;
    asleep.id = "asleep".into();
    asleep.ready = false;
    let mut reads = Vec::new();
    let snapshot = load_snapshot_with(&mut Transport::new(|command| match command {
        RequestCommand::ListDevices => Ok(ResponseData::Devices { devices: vec![asleep.clone(), ready.device.clone()] }),
        RequestCommand::GetDevice { device_id } => {
            reads.push(device_id);
            Ok(response(&ready))
        }
        _ => panic!("a snapshot only reads"),
    }))
    .unwrap();
    assert_eq!(snapshot.devices.len(), 2);
    assert_eq!(snapshot.states.len(), 1);
    assert_eq!(reads, vec!["mouse".to_owned()]);
}

#[test]
fn snapshot_refuses_unexpected_answers() {
    let refusal = load_snapshot_with(&mut Transport::new(|_| Ok(ResponseData::Pong))).err().unwrap();
    assert_eq!(refusal, "agent returned an unexpected response to list_devices");
    let ready = device();
    let refusal = load_snapshot_with(&mut Transport::new(|command| match command {
        RequestCommand::ListDevices => Ok(ResponseData::Devices { devices: vec![ready.device.clone()] }),
        _ => Ok(ResponseData::Acknowledged),
    }))
    .err()
    .unwrap();
    assert_eq!(refusal, "agent returned an unexpected response to get_device");
}

#[test]
fn reorder_needs_an_acknowledgement() {
    assert_eq!(reorder_acknowledged(Ok(ResponseData::Acknowledged)), Ok(()));
    assert_eq!(
        reorder_acknowledged(Ok(ResponseData::Pong)).unwrap_err(),
        "agent returned an unexpected response to reorder_devices"
    );
    assert_eq!(reorder_acknowledged(Err("gone".into())).unwrap_err(), "gone");
}

#[test]
fn snapshot_passes_on_the_agents_own_error() {
    let ready = device();
    let refusal = load_snapshot_with(&mut Transport::new(|command| match command {
        RequestCommand::ListDevices => Ok(ResponseData::Devices { devices: vec![ready.device.clone()] }),
        _ => Err("device is busy".to_owned()),
    }))
    .err()
    .unwrap();
    assert_eq!(refusal, "device is busy");
}
