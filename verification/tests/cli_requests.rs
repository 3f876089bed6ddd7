use gflick::cli::{
    ipc_context, parse_rgb, parse_sector, setting_request, use_request, ConnectionChoice,
    DeviceSetArgs, DeviceUseArgs, IpcFailure, LiftOffDistanceChoice, LightingCommand,
    OperatingModeChoice, SettingCommand, SurfaceModeChoice, Toggle, UseCommand,
};
use gflick::protocol::{
    AppPreferences, Connection, DeviceColor, DeviceConnection, DeviceSummary, LiftOffDistance,
    LightingEffect, OperatingMode, RequestCommand, RgbColor, SurfaceMode,
};
use gflick::cli_run::{execute_with, AgentCommand, CommandFailure, CommandOutput, DeviceCommand};
use gflick::protocol::ResponseData;
use gflick::transport::Transport;
use gflick::selector::{device_name, select_device};

#[test]
fn parses_rgb() {
    assert_eq!(
        parse_rgb("#0102fF").unwrap(),
        RgbColor {
            red: 1,
            green: 2,
            blue: 255
        }
    );
    assert!(parse_rgb("123").is_err());
}

#[test]
fn parses_decimal_and_hex_sectors() {
    assert_eq!(parse_sector("17").unwrap(), 17);
    assert_eq!(parse_sector("0x10").unwrap(), 16);
    assert!(parse_sector("0x10000").is_err());
}

fn set(setting: SettingCommand) -> DeviceSetArgs {
    DeviceSetArgs {
        selector: Some("hardware-id".to_owned()),
        setting,
    }
}

#[test]
fn maps_every_setting_request_exactly() {
    let color = RgbColor {
        red: 1,
        green: 2,
        blue: 3,
    };
    let commands = vec![
        set(SettingCommand::Dpi { dpi: 1600 }),
        set(SettingCommand::PollingRate {
            hz: 1000,
            connection: ConnectionChoice::Wired,
            disable_onboard_profiles: true,
        }),
        set(SettingCommand::LiftOffDistance {
            lod: LiftOffDistanceChoice::Low,
        }),
        set(SettingCommand::SurfaceMode {
            mode: SurfaceModeChoice::Automatic,
        }),
        set(SettingCommand::OperatingMode {
            mode: OperatingModeChoice::Performance,
        }),
        set(SettingCommand::Bhop {
            state: Toggle::On,
            window_ms: 100,
        }),
        set(SettingCommand::Lighting {
            effect: LightingCommand::Off,
        }),
        set(SettingCommand::Lighting {
            effect: LightingCommand::Fixed { color },
        }),
        set(SettingCommand::Lighting {
            effect: LightingCommand::Cycling {
                period_ms: 1000,
                brightness: 100,
            },
        }),
        set(SettingCommand::Lighting {
            effect: LightingCommand::Breathing {
                color,
                period_ms: 1000,
                brightness: 100,
            },
        }),
    ];
    let mutations: Vec<RequestCommand> = commands
        .into_iter()
        .map(|args| setting_request(args, "session-id".to_owned()))
        .collect();
    assert_eq!(
        mutations,
        vec![
            RequestCommand::SetDpi {
                device_id: "session-id".to_owned(),
                dpi: 1600
            },
            RequestCommand::SetPollingRate {
                device_id: "session-id".to_owned(),
                connection: Connection::Wired,
                hz: 1000,
                disable_onboard_profiles: true
            },
            RequestCommand::SetLiftOffDistance {
                device_id: "session-id".to_owned(),
                lod: LiftOffDistance::Low
            },
            RequestCommand::SetSurfaceMode {
                device_id: "session-id".to_owned(),
                mode: SurfaceMode::Automatic
            },
            RequestCommand::SetOperatingMode {
                device_id: "session-id".to_owned(),
                mode: OperatingMode::Performance
            },
            RequestCommand::SetBunnyHopping {
                device_id: "session-id".to_owned(),
                enabled: true,
                timeout_ms: 100
            },
            RequestCommand::SetLighting {
                device_id: "session-id".to_owned(),
                zone: 0,
                effect: LightingEffect::Disabled
            },
            RequestCommand::SetLighting {
                device_id: "session-id".to_owned(),
                zone: 0,
                effect: LightingEffect::Fixed { color }
            },
            RequestCommand::SetLighting {
                device_id: "session-id".to_owned(),
                zone: 0,
                effect: LightingEffect::Cycling {
                    period_ms: 1000,
                    brightness: 100
                }
            },
            RequestCommand::SetLighting {
                device_id: "session-id".to_owned(),
                zone: 0,
                effect: LightingEffect::Breathing {
                    color,
                    period_ms: 1000,
                    brightness: 100
                }
            },
        ]
    );
}

#[test]
fn maps_every_use_request() {
    let uses: Vec<RequestCommand> = [
        UseCommand::FirmwareLighting,
        UseCommand::HostSettings,
        UseCommand::OnboardProfile { sector: 3 },
    ]
    .into_iter()
    .map(|mode| {
        use_request(
            DeviceUseArgs {
                selector: None,
                mode,
            },
            "session-id".to_owned(),
        )
    })
    .collect();
    assert_eq!(
        uses,
        vec![
            RequestCommand::UseFirmwareLighting {
                device_id: "session-id".to_owned()
            },
            RequestCommand::UseHostSettings {
                device_id: "session-id".to_owned()
            },
            RequestCommand::UseOnboardProfile {
                device_id: "session-id".to_owned(),
                profile: 3
            },
        ]
    );
}

#[test]
fn a_missing_agent_gets_its_own_message() {
    assert_eq!(
        ipc_context("could not connect to the GFlick agent: refused"),
        IpcFailure::AgentNotRunning
    );
    assert_eq!(ipc_context("timed out"), IpcFailure::CommandFailed);
}

fn device(id: &str, hardware_id: Option<&str>) -> DeviceSummary {
    DeviceSummary {
        id: id.to_owned(),
        hardware_id: hardware_id.map(str::to_owned),
        vendor_id: 0x046d,
        product_id: 0xc539,
        product_name: Some("Receiver".to_owned()),
        display_name: None,
        serial_number: None,
        nickname: None,
        color: DeviceColor::Black,
        sort_order: None,
        connection: DeviceConnection::Receiver,
        device_index: 1,
        availability: None,
        ready: true,
    }
}

#[test]
fn zero_devices_fails() {
    assert!(select_device(&vec![], None).unwrap_err().contains("no devices"));
}

#[test]
fn implicit_single_device_uses_session_id() {
    assert_eq!(
        select_device(&vec![device("session", Some("hardware"))], None)
            .unwrap()
            .id,
        "session"
    );
}

#[test]
fn implicit_multiple_devices_fails_with_candidates() {
    let error = select_device(
        &vec![
            device("session-a", Some("hardware-a")),
            device("session-b", Some("hardware-b")),
        ],
        None,
    )
    .unwrap_err();
    assert!(error.contains("hardware-a"));
}

#[test]
fn exact_session_id_routes_to_session() {
    assert_eq!(
        select_device(&vec![device("Session", Some("hardware"))], Some("Session"))
            .unwrap()
            .id,
        "Session"
    );
}

#[test]
fn exact_hardware_id_routes_to_session() {
    assert_eq!(
        select_device(&vec![device("session", Some("hardware"))], Some("hardware"))
            .unwrap()
            .id,
        "session"
    );
}

#[test]
fn unique_case_insensitive_prefix_matches() {
    assert_eq!(
        select_device(&vec![device("session", Some("hardware"))], Some("HAR"))
            .unwrap()
            .id,
        "session"
    );
}

#[test]
fn ambiguous_prefix_fails() {
    assert!(select_device(
        &vec![
            device("session-a", Some("hardware-a")),
            device("session-b", Some("hardware-b"))
        ],
        Some("session")
    )
    .is_err());
}

#[test]
fn unavailable_listing_is_still_selectable() {
    let mut unavailable = device("session", None);
    unavailable.ready = false;
    assert_eq!(select_device(&vec![unavailable], None).unwrap().id, "session");
}

#[test]
fn device_name_prioritizes_display_product_then_vid_pid() {
    let mut item = device("session", None);
    item.display_name = Some("G305".to_owned());
    assert_eq!(device_name(&item), "G305");
    item.display_name = None;
    assert_eq!(device_name(&item), "Receiver");
    item.product_name = None;
    assert_eq!(device_name(&item), "046d:c539");
}

#[test]
fn apply_and_discard_confirmations_are_independent() {
    for apply in [false, true] {
        for discard in [false, true] {
            for profiles in [false, true] {
                let p = AppPreferences {
                    confirm_apply: apply,
                    confirm_discard: discard,
                    confirm_profile_writes: profiles,
                };
                for profile_write in [false, true] {
                    assert_eq!(p.needs_confirmation(true, profile_write), discard);
                    assert_eq!(
                        p.needs_confirmation(false, profile_write),
                        apply || (profiles && profile_write)
                    );
                }
            }
        }
    }
}

#[test]
fn sectors_read_back_in_every_written_form() {
    for n in [0u16, 1, 9, 10, 255, 256, 4096, 0xabcd, u16::MAX] {
        assert_eq!(parse_sector(&n.to_string()), Ok(n));
        assert_eq!(parse_sector(&format!("0x{:x}", n)), Ok(n));
        assert_eq!(parse_sector(&format!("0X{:X}", n)), Ok(n));
    }
}

#[test]
fn rejects_unexpected_response_shape() {
    let outcome = execute_with(&mut Transport::new(|_| Ok(ResponseData::Acknowledged)), AgentCommand::Status);
    assert!(outcome.is_err());
    assert_eq!(
        outcome,
        Err(CommandFailure::UnexpectedPing(ResponseData::Acknowledged))
    );
    assert_eq!(
        CommandFailure::UnexpectedPing(ResponseData::Acknowledged).message("Acknowledged"),
        "agent returned an unexpected ping response: Acknowledged"
    );
}

#[test]
fn a_setting_goes_to_the_selected_device_after_the_list() {
    let mut sent = Vec::new();
    let outcome = execute_with(
        &mut Transport::new(|command: RequestCommand| {
            sent.push(command.clone());
            match command {
                RequestCommand::ListDevices => Ok(ResponseData::Devices {
                    devices: vec![device("session-1", Some("hardware-id")), device("session-2", None)],
                }),
                _ => Ok(ResponseData::Acknowledged),
            }
        }),
        AgentCommand::Device { command: DeviceCommand::SetSetting(set(SettingCommand::Dpi { dpi: 1600 })) },
    );
    assert_eq!(
        sent,
        vec![
            RequestCommand::ListDevices,
            RequestCommand::SetDpi { device_id: "session-1".to_owned(), dpi: 1600 },
        ]
    );
    assert_eq!(outcome, Err(CommandFailure::UnexpectedDevice(ResponseData::Acknowledged)));
}

#[test]
fn device_commands_report_list_selection_and_request_failures() {
    let listed = || Ok(ResponseData::Devices { devices: vec![device("session-1", Some("hardware-id"))] });
    assert_eq!(
        execute_with(&mut Transport::new(|_| listed()), AgentCommand::Device { command: DeviceCommand::List }),
        Ok(CommandOutput::Devices(vec![device("session-1", Some("hardware-id"))]))
    );
    assert_eq!(
        execute_with(&mut Transport::new(|_| Err("could not connect".to_owned())), AgentCommand::Device { command: DeviceCommand::List }),
        Err(CommandFailure::Request("could not connect".to_owned()))
    );
    assert_eq!(
        execute_with(&mut Transport::new(|_| Ok(ResponseData::Pong)), AgentCommand::Device { command: DeviceCommand::List }),
        Err(CommandFailure::UnexpectedList(ResponseData::Pong))
    );
    let missing = execute_with(
        &mut Transport::new(|_| listed()),
        AgentCommand::Device { command: DeviceCommand::Show { selector: Some("other".to_owned()) } },
    );
    assert!(matches!(missing, Err(CommandFailure::Selection(_))));
    let mut sent = Vec::new();
    let used = execute_with(
        &mut Transport::new(|command: RequestCommand| {
            sent.push(command.clone());
            match command {
                RequestCommand::ListDevices => listed(),
                _ => Err("write refused".to_owned()),
            }
        }),
        AgentCommand::Device {
            command: DeviceCommand::Use(DeviceUseArgs { selector: None, mode: UseCommand::HostSettings }),
        },
    );
    assert_eq!(used, Err(CommandFailure::Request("write refused".to_owned())));
    assert_eq!(sent[1], RequestCommand::UseHostSettings { device_id: "session-1".to_owned() });
    assert_eq!(
        execute_with(&mut Transport::new(|_| Ok(ResponseData::Pong)), AgentCommand::Status),
        Ok(CommandOutput::Status)
    );
}

#[test]
fn a_setting_selected_by_hardware_id_goes_to_the_session_id_alone() {
    let mut sent = Vec::new();
    let outcome = execute_with(
        &mut Transport::new(|command: RequestCommand| {
            sent.push(command.clone());
            match command {
                RequestCommand::ListDevices => Ok(ResponseData::Devices {
                    devices: vec![device("session-id", Some("hardware-id"))],
                }),
                _ => Ok(ResponseData::Pong),
            }
        }),
        AgentCommand::Device {
            command: DeviceCommand::SetSetting(set(SettingCommand::Bhop { state: Toggle::On, window_ms: 100 })),
        },
    );
    assert_eq!(outcome, Err(CommandFailure::UnexpectedDevice(ResponseData::Pong)));
    assert_eq!(
        sent,
        vec![
            RequestCommand::ListDevices,
            RequestCommand::SetBunnyHopping {
                device_id: "session-id".to_owned(),
                enabled: true,
                timeout_ms: 100,
            },
        ]
    );
}
