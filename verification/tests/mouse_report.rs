use gflick::protocol::{ConfigurationSource, PollingRateCapabilities, PollingRateState};
use gflick::snapshot::{
    snapshot_text, FirmwareEntry, LedEffect, LedZone, MouseSnapshot, ProfileStorage,
    SnapshotBattery, SnapshotBunnyHopping, SnapshotDpi, SnapshotLighting, SnapshotMetadata,
    SnapshotMode,
};

fn bare() -> MouseSnapshot {
    MouseSnapshot {
        metadata: None,
        battery: None,
        dpi: None,
        supported_dpi: None,
        polling_rates: PollingRateCapabilities::Unsupported,
        polling_rate: PollingRateState::Unsupported,
        mode: None,
        bunny_hopping: None,
        lighting: None,
        profile_storage: None,
        button_mapping: None,
        configuration_source: None,
    }
}

fn effect(index: u8, name: &str, capabilities: u16) -> LedEffect {
    LedEffect { index, name: name.to_owned(), capabilities, period_ms: 0 }
}

fn full() -> MouseSnapshot {
    MouseSnapshot {
        metadata: Some(SnapshotMetadata {
            name: "PRO X 2".to_owned(),
            device_type: "Mouse".to_owned(),
            unit_id: vec![0xab, 0x01, 0xcd, 0x0f],
            model_ids: [0xc09b, 0x0000, 0x4099],
            transport_flags: 0x0e,
            serial_number: Some("1234ABCD".to_owned()),
            firmware: vec![
                FirmwareEntry {
                    entity_type: 0,
                    prefix: "MPM".to_owned(),
                    firmware_number: 27,
                    revision: 3,
                    build: 15,
                    active: true,
                    transport_pid: 0xc09b,
                },
                FirmwareEntry {
                    entity_type: 1,
                    prefix: "BL".to_owned(),
                    firmware_number: 1,
                    revision: 0,
                    build: 7,
                    active: false,
                    transport_pid: 0,
                },
            ],
        }),
        battery: Some(SnapshotBattery {
            percentage: 47,
            status: "discharging".to_owned(),
            level_code: 0x01,
        }),
        dpi: Some(SnapshotDpi { current_x: 800, default_x: 800, current_y: Some(800), lod: None }),
        supported_dpi: Some(vec![400, 800, 1600]),
        polling_rates: PollingRateCapabilities::PerConnection {
            wired_hz: vec![125, 500, 1000],
            wireless_hz: vec![125, 250, 500, 1000, 2000],
        },
        polling_rate: PollingRateState::PerConnection { wired_hz: 1000, wireless_hz: 2000 },
        mode: Some(SnapshotMode {
            performance: true,
            status0: 0x01,
            status1: 0x00,
            capabilities: 0x03,
            capabilities1: 0x00,
            surface_mode: Some("off".to_owned()),
        }),
        bunny_hopping: Some(SnapshotBunnyHopping { enabled: false, timeout_ms: 0 }),
        lighting: Some(SnapshotLighting {
            zone_count: 1,
            nv_capabilities: 0x0003,
            extended_capabilities: 0x0000,
            software_control: Some(true),
            zones: vec![LedZone {
                index: 0,
                location: 0x0001,
                persistency_capabilities: 0x07,
                current_effect_index: Some(1),
                effects: vec![effect(0, "Off", 0x0000), effect(1, "Fixed", 0x0001)],
            }],
        }),
        profile_storage: Some(ProfileStorage {
            memory_model_id: 0x01,
            profile_format_id: 0x04,
            macro_format_id: 0x01,
            profile_count: 5,
            factory_profile_count: 1,
            button_count: 8,
            sector_count: 16,
            sector_size: 255,
        }),
        button_mapping: Some(vec![1, 2, 5]),
        configuration_source: Some(ConfigurationSource::Onboard { active_profile: Some(0x0101) }),
    }
}

#[test]
fn a_full_report_has_every_line_in_order() {
    let (text, error) = snapshot_text(&full());
    assert_eq!(error, None);
    assert_eq!(
        text,
        "Device: PRO X 2 (Mouse)\n\
         Unit ID: AB01CD0F; models c09b/0000/4099; transport flags 0x0e\n\
         Device serial: 1234ABCD\n\
         Firmware entity 0: MPM 27.03.B0015 (active) PID c09b\n\
         Firmware entity 1: BL 01.00.B0007\n\
         Battery: 47% (discharging, level code 0x01)\n\
         DPI: X=800 (default 800), Y=800, LOD=n/a\n\
         DPI supported: 400, 800, 1600\n\
         Polling rate (wired): 1000 Hz; supported 125 Hz, 500 Hz, 1000 Hz\n\
         Polling rate (wireless): 2000 Hz; supported 125 Hz, 250 Hz, 500 Hz, 1000 Hz, 2000 Hz\n\
         Operating mode: performance (status 0x01:0x00, capabilities 0x03:0x00)\n\
         Surface mode: off\n\
         BHOP: off; timeout not configured\n\
         Lighting: 1 zone(s), NV capabilities 0x0003, extended capabilities 0x0000, control software\n  \
         LED zone 0 location 0x0001, persistence 0x07, current Fixed (index 1)\n    \
         Effects: 0:Off caps 0x0000 period 0 ms, 1:Fixed caps 0x0001 period 0 ms\n\
         Onboard profile storage: memory 0x01, format 0x04, macro 0x01; 5 writable + 1 factory profiles, 8 buttons, 16 sectors of 255 bytes\n\
         Host button mapping: 1->1, 2->2, 3->5\n\
         Configuration source: onboard profile 0x0101\n"
    );
}

#[test]
fn an_unsupported_mouse_reports_what_it_lacks() {
    let (text, error) = snapshot_text(&bare());
    assert_eq!(error, None);
    assert_eq!(
        text,
        "Battery: unsupported\nDPI: unsupported\nPolling rate: unsupported\nConfiguration source: profile control unsupported\n"
    );
}

#[test]
fn mismatched_polling_kinds_cut_the_report_short() {
    let mut snapshot = bare();
    snapshot.polling_rates = PollingRateCapabilities::Shared { supported_hz: vec![1000] };
    snapshot.mode = Some(SnapshotMode {
        performance: false,
        status0: 0,
        status1: 0,
        capabilities: 0,
        capabilities1: 0,
        surface_mode: None,
    });
    let (text, error) = snapshot_text(&snapshot);
    assert_eq!(text, "Battery: unsupported\nDPI: unsupported\n");
    assert_eq!(
        error.as_deref(),
        Some("inconsistent polling-rate capability and settings representations")
    );
}

#[test]
fn long_lists_unknown_effects_and_other_sources_are_reported() {
    let mut snapshot = bare();
    snapshot.dpi = Some(SnapshotDpi { current_x: 1600, default_x: 800, current_y: None, lod: Some(2) });
    snapshot.supported_dpi = Some((1..=12).map(|k| k * 100).collect());
    snapshot.polling_rates = PollingRateCapabilities::Shared { supported_hz: vec![] };
    snapshot.polling_rate = PollingRateState::Shared { hz: 1000 };
    snapshot.mode = Some(SnapshotMode {
        performance: false,
        status0: 0x10,
        status1: 0xff,
        capabilities: 0,
        capabilities1: 1,
        surface_mode: None,
    });
    snapshot.bunny_hopping = Some(SnapshotBunnyHopping { enabled: true, timeout_ms: 120 });
    snapshot.lighting = Some(SnapshotLighting {
        zone_count: 2,
        nv_capabilities: 0xabcd,
        extended_capabilities: 0x0010,
        software_control: None,
        zones: vec![
            LedZone {
                index: 0,
                location: 0x0002,
                persistency_capabilities: 0,
                current_effect_index: Some(4),
                effects: vec![effect(0, "Off", 0)],
            },
            LedZone {
                index: 1,
                location: 0x0004,
                persistency_capabilities: 1,
                current_effect_index: None,
                effects: vec![],
            },
        ],
    });
    snapshot.configuration_source = Some(ConfigurationSource::Unknown { raw_mode: 0x2a });
    let (text, error) = snapshot_text(&snapshot);
    assert_eq!(error, None);
    assert_eq!(
        text,
        "Battery: unsupported\n\
         DPI: X=1600 (default 800), Y=n/a, LOD=2\n\
         DPI supported: 100..1200 (12 values)\n\
         Polling rate (shared): 1000 Hz; supported <none>\n\
         Operating mode: endurance (status 0x10:0xff, capabilities 0x00:0x01)\n\
         BHOP: on; timeout 120 ms\n\
         Lighting: 2 zone(s), NV capabilities 0xabcd, extended capabilities 0x0010, control unknown\n  \
         LED zone 0 location 0x0002, persistence 0x00, current index 4\n    \
         Effects: 0:Off caps 0x0000 period 0 ms\n  \
         LED zone 1 location 0x0004, persistence 0x01, current unknown\n    \
         Effects: \n\
         Configuration source: unknown mode 0x2a\n"
    );

    snapshot.configuration_source = Some(ConfigurationSource::Host);
    snapshot.lighting = None;
    let (text, _) = snapshot_text(&snapshot);
    assert!(text.ends_with("Configuration source: host/local settings\n"));
}
