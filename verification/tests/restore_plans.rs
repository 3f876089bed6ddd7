use gflick::agent::capture_host_preferences;
use gflick::protocol::{
    BunnyHoppingState, ConfigurationSource, Connection, DeviceCapabilities, DpiState,
    LiftOffDistance, LightingEffect, OperatingMode, PollingRateCapabilities, PollingRateState,
    RgbColor, SettingsState, SurfaceMode,
};
use gflick::restore::{
    control_step, host_restore, lighting_step, restores_host_settings, stage_write, ControlStep,
    LightingStep, RestoreWrite,
};
use gflick::store::{
    BunnyHoppingPreference, ControlPreference, HostPreferences, LightingPreference,
    PollingPreference,
};

fn capabilities() -> DeviceCapabilities {
    DeviceCapabilities {
        battery: true,
        supported_dpi: Some(vec![400, 800, 1600]),
        polling_rates: PollingRateCapabilities::PerConnection {
            wired_hz: vec![125, 1000],
            wireless_hz: vec![125, 1000, 2000],
        },
        onboard_profiles: true,
        onboard_profile_count: Some(5),
        lift_off_distance: true,
        surface_mode: true,
        operating_mode_switch: true,
        color_led_effects: true,
        bunny_hopping: true,
        mouse_button_filter: true,
    }
}

fn settings() -> SettingsState {
    SettingsState {
        onboard_dpi_stage: None,
        mouse_button_mapping: Some(vec![1, 2, 3]),
        battery: None,
        dpi: Some(DpiState {
            current_x: 800,
            default_x: 800,
            current_y: None,
            default_y: None,
            lift_off_distance: Some(LiftOffDistance::High),
        }),
        polling_rate: PollingRateState::PerConnection { wired_hz: 1000, wireless_hz: 1000 },
        configuration_source: Some(ConfigurationSource::Host),
        operating_mode: Some(OperatingMode::Performance),
        surface_mode: Some(SurfaceMode::Off),
        bunny_hopping: Some(BunnyHoppingState { enabled: true, timeout_ms: 300 }),
    }
}

fn nothing_stored() -> HostPreferences {
    HostPreferences {
        dpi: None,
        dpi_y: None,
        button_mapping: None,
        polling_rate: None,
        lift_off_distance: None,
        surface_mode: None,
        operating_mode: None,
        bunny_hopping: None,
    }
}

#[test]
fn captured_settings_restore_with_no_writes() {
    let caps = capabilities();
    let current = settings();
    let stored = capture_host_preferences(&caps, &current);
    for connection in [Connection::Wired, Connection::Wireless] {
        let plan = host_restore(&caps, &current, connection, &stored).unwrap();
        assert!(plan.button_mapping.is_none());
        assert!(plan.writes.is_empty());
    }
}

#[test]
fn every_changed_setting_is_written_in_order() {
    let caps = capabilities();
    let current = settings();
    let stored = HostPreferences {
        dpi: Some(1600),
        dpi_y: None,
        button_mapping: Some(vec![3, 2, 1]),
        polling_rate: Some(PollingPreference::PerConnection { wired_hz: 125, wireless_hz: 2000 }),
        lift_off_distance: Some(LiftOffDistance::Low),
        surface_mode: Some(SurfaceMode::Automatic),
        operating_mode: Some(OperatingMode::Endurance),
        bunny_hopping: Some(BunnyHoppingPreference { enabled: false, timeout_ms: 700 }),
    };
    let plan = host_restore(&caps, &current, Connection::Wireless, &stored).unwrap();
    assert_eq!(plan.button_mapping, Some(vec![3, 2, 1]));
    assert_eq!(
        plan.writes,
        vec![
            RestoreWrite::SetDpi { dpi: 1600 },
            RestoreWrite::SetPollingRate { connection: Connection::Wireless, hz: 2000 },
            RestoreWrite::SetLiftOffDistance { lod: LiftOffDistance::Low },
            RestoreWrite::SetSurfaceMode { mode: SurfaceMode::Automatic },
            RestoreWrite::SetOperatingMode { mode: OperatingMode::Endurance },
            RestoreWrite::SetBunnyHopping { enabled: false, timeout_ms: 100 },
        ]
    );
    let wired = host_restore(&caps, &current, Connection::Wired, &stored).unwrap();
    assert_eq!(wired.writes[1], RestoreWrite::SetPollingRate { connection: Connection::Wired, hz: 125 });
}

#[test]
fn two_axis_sensors_get_both_axes() {
    let caps = capabilities();
    let mut current = settings();
    current.dpi.as_mut().unwrap().current_y = Some(800);
    let mut stored = nothing_stored();
    stored.dpi = Some(800);
    stored.dpi_y = Some(1600);
    let plan = host_restore(&caps, &current, Connection::Wired, &stored).unwrap();
    assert_eq!(plan.writes, vec![RestoreWrite::SetDpiAxes { x: 800, y: 1600 }]);
}

#[test]
fn unsupported_button_mapping_is_refused_before_any_write() {
    let mut caps = capabilities();
    caps.mouse_button_filter = false;
    let mut stored = nothing_stored();
    stored.button_mapping = Some(vec![1]);
    stored.dpi = Some(400);
    let refusal = host_restore(&caps, &settings(), Connection::Wired, &stored).err().unwrap();
    assert_eq!(refusal, "stored button mapping is unsupported");
}

#[test]
fn unsupported_settings_are_skipped() {
    let mut caps = capabilities();
    caps.surface_mode = false;
    caps.supported_dpi = None;
    let mut stored = nothing_stored();
    stored.surface_mode = Some(SurfaceMode::On);
    stored.dpi = Some(400);
    stored.polling_rate = Some(PollingPreference::Shared { hz: 125 });
    let plan = host_restore(&caps, &settings(), Connection::Wired, &stored).unwrap();
    assert!(plan.writes.is_empty());
}

#[test]
fn control_follows_the_stored_owner() {
    assert_eq!(control_step(Some(ConfigurationSource::Host), Some(ControlPreference::Host)), ControlStep::Keep);
    assert_eq!(
        control_step(Some(ConfigurationSource::Onboard { active_profile: Some(1) }), Some(ControlPreference::Host)),
        ControlStep::UseHost
    );
    assert_eq!(
        control_step(
            Some(ConfigurationSource::Onboard { active_profile: Some(1) }),
            Some(ControlPreference::Onboard { profile: 2 })
        ),
        ControlStep::ActivateProfile { profile: 2 }
    );
    assert_eq!(
        control_step(
            Some(ConfigurationSource::Onboard { active_profile: Some(2) }),
            Some(ControlPreference::Onboard { profile: 2 })
        ),
        ControlStep::Keep
    );
    assert_eq!(control_step(None, None), ControlStep::Keep);
    assert!(restores_host_settings(Some(ControlPreference::Host)));
    assert!(!restores_host_settings(Some(ControlPreference::Onboard { profile: 1 })));
    assert!(!restores_host_settings(None));
}

#[test]
fn onboard_stage_is_selected_only_when_it_differs() {
    let onboard = Some(ControlPreference::Onboard { profile: 1 });
    assert_eq!(stage_write(onboard, Some(2), Some(1)), Some(2));
    assert_eq!(stage_write(onboard, Some(2), None), Some(2));
    assert_eq!(stage_write(onboard, Some(2), Some(2)), None);
    assert_eq!(stage_write(onboard, None, Some(2)), None);
    assert_eq!(stage_write(Some(ControlPreference::Host), Some(2), Some(1)), None);
}

#[test]
fn stored_lighting_is_released_applied_or_refused() {
    let caps = capabilities();
    let effect = LightingEffect::Fixed { color: RgbColor { red: 1, green: 2, blue: 3 } };
    assert_eq!(lighting_step(&caps, None), Ok(LightingStep::Keep));
    assert_eq!(lighting_step(&caps, Some(LightingPreference::Firmware)), Ok(LightingStep::Release));
    assert_eq!(
        lighting_step(&caps, Some(LightingPreference::Software { zone: 1, effect })),
        Ok(LightingStep::Apply { zone: 1, effect })
    );
    let mut plain = capabilities();
    plain.color_led_effects = false;
    assert_eq!(
        lighting_step(&plain, Some(LightingPreference::Software { zone: 0, effect })).unwrap_err(),
        "stored lighting preference is unsupported by this mouse"
    );
}
