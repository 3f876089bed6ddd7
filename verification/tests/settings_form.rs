use gflick::protocol::{
    BatteryState, BunnyHoppingState, ConfigurationSource, Connection, DeviceAvailability,
    DeviceCapabilities, DeviceColor, DeviceConnection, DeviceState, DeviceSummary, DpiState,
    LiftOffDistance, LightingEffect, OperatingMode, PollingRateCapabilities, PollingRateState,
    RequestCommand, RgbColor, SettingsState, SurfaceMode,
};
use gflick::form_specs::{change_recap, confirmation_description, specs, Spec};
use gflick::settings_form::{
    edited_fields, field_page, initial_values, plan, reconcile, writes_onboard_profile, EditorPage,
    Key,
};

fn device() -> DeviceState {
    DeviceState {
        device: DeviceSummary {
            id: "mouse".into(),
            hardware_id: Some("hardware".into()),
            vendor_id: 0x046d,
            product_id: 0xc09b,
            product_name: Some("USB Receiver".into()),
            display_name: Some("PRO X 2".into()),
            serial_number: None,
            nickname: None,
            color: DeviceColor::Black,
            sort_order: None,
            connection: DeviceConnection::Receiver,
            device_index: 1,
            availability: Some(DeviceAvailability::Ready),
            ready: true,
        },
        capabilities: DeviceCapabilities {
            battery: true,
            supported_dpi: Some(vec![400, 800, 1200, 1600, 3200]),
            polling_rates: PollingRateCapabilities::PerConnection {
                wired_hz: vec![125, 500, 1000],
                wireless_hz: vec![125, 500, 1000, 2000],
            },
            onboard_profiles: true,
            onboard_profile_count: Some(5),
            lift_off_distance: true,
            surface_mode: true,
            operating_mode_switch: true,
            color_led_effects: true,
            bunny_hopping: true,
            mouse_button_filter: false,
        },
        settings: SettingsState {
            onboard_dpi_stage: None,
            mouse_button_mapping: None,
            battery: Some(BatteryState {
                percentage: 47,
                level_code: 0,
                status_code: 0,
                status: "discharging".into(),
            }),
            dpi: Some(DpiState {
                current_x: 800,
                default_x: 800,
                current_y: Some(800),
                default_y: Some(800),
                lift_off_distance: Some(LiftOffDistance::High),
            }),
            polling_rate: PollingRateState::PerConnection {
                wired_hz: 1000,
                wireless_hz: 1000,
            },
            configuration_source: Some(ConfigurationSource::Onboard {
                active_profile: Some(1),
            }),
            operating_mode: Some(OperatingMode::Performance),
            surface_mode: Some(SurfaceMode::Off),
            bunny_hopping: Some(BunnyHoppingState {
                enabled: false,
                timeout_ms: 100,
            }),
        },
    }
}

/// The finishes of the PRO X 2.
fn pro_x_2_colors() -> Vec<DeviceColor> {
    vec![DeviceColor::White, DeviceColor::Black, DeviceColor::Cyan, DeviceColor::Magenta]
}

fn draft(state: &DeviceState, updates: &[(Key, &str)]) -> (Vec<(Key, String)>, Vec<(Key, String)>) {
    draft_with(state, &pro_x_2_colors(), updates)
}

fn draft_with(
    state: &DeviceState,
    colors: &Vec<DeviceColor>,
    updates: &[(Key, &str)],
) -> (Vec<(Key, String)>, Vec<(Key, String)>) {
    let dirty: Vec<(Key, String)> = updates.iter().map(|(k, v)| (*k, v.to_string())).collect();
    let mut values = initial_values(state, colors);
    for (k, v) in &dirty {
        match values.iter_mut().find(|(key, _)| key == k) {
            Some(entry) => entry.1 = v.clone(),
            None => values.push((*k, v.clone())),
        }
    }
    (values, dirty)
}

fn run(state: &DeviceState, values: &Vec<(Key, String)>, dirty: &Vec<(Key, String)>) -> Result<Vec<gflick::settings_form::Change>, String> {
    plan(state, &pro_x_2_colors(), values, dirty)
}

fn value_of(values: &Vec<(Key, String)>, k: Key) -> Option<&str> {
    values.iter().find(|(key, _)| *key == k).map(|(_, v)| v.as_str())
}

#[test]
fn validates_dpi_against_discrete_capabilities() {
    let state = device();
    for invalid in ["801", "0", "65536", "abc", ""] {
        let (v, d) = draft(&state, &[(Key::Dpi, invalid)]);
        assert!(run(&state, &v, &d).is_err());
    }
    let (v, d) = draft(&state, &[(Key::Dpi, "1600")]);
    assert!(matches!(
        run(&state, &v, &d).unwrap()[0].command,
        RequestCommand::SetDpi { dpi: 1600, .. }
    ));
}

#[test]
fn polling_requires_explicit_host_control_and_valid_transport_rate() {
    let state = device();
    let (v, d) = draft(&state, &[(Key::Wireless, "2000")]);
    assert!(run(&state, &v, &d).is_err());
    let (v, d) = draft(&state, &[(Key::Source, "host"), (Key::Wireless, "2000")]);
    let changes = run(&state, &v, &d).unwrap();
    assert!(matches!(changes[0].command, RequestCommand::UseHostSettings { .. }));
    assert!(matches!(
        changes[1].command,
        RequestCommand::SetPollingRate {
            connection: Connection::Wireless,
            hz: 2000,
            disable_onboard_profiles: false,
            ..
        }
    ));
    let (v, d) = draft(&state, &[(Key::Source, "host"), (Key::Wired, "2000")]);
    assert!(run(&state, &v, &d).is_err());
}

#[test]
fn shared_rate_is_one_control_and_one_write() {
    let mut state = device();
    state.capabilities.polling_rates = PollingRateCapabilities::Shared { supported_hz: vec![125, 1000] };
    state.settings.configuration_source = Some(ConfigurationSource::Host);
    assert!(value_of(&initial_values(&state, &pro_x_2_colors()), Key::Wireless).is_none());
    let (v, d) = draft(&state, &[(Key::Wired, "125")]);
    assert_eq!(run(&state, &v, &d).unwrap().len(), 1);
}

#[test]
fn profile_switch_is_separate_from_sensor_edits() {
    let state = device();
    let (v, d) = draft(&state, &[(Key::Source, "2"), (Key::Dpi, "1600")]);
    assert!(run(&state, &v, &d).is_err());
    let (v, d) = draft(&state, &[(Key::Source, "2")]);
    assert!(matches!(
        run(&state, &v, &d).unwrap()[0].command,
        RequestCommand::UseOnboardProfile { profile: 2, .. }
    ));
    let (v, d) = draft(&state, &[(Key::Source, "6")]);
    assert!(run(&state, &v, &d).is_err());
}

#[test]
fn unsupported_settings_never_enter_write_plan() {
    let mut state = device();
    state.capabilities.surface_mode = false;
    let (v, d) = draft(&state, &[(Key::Surface, "on")]);
    assert!(run(&state, &v, &d).is_err());
}

#[test]
fn sensor_and_lighting_validation_matches_agent() {
    let state = device();
    for value in ["0", "150", "1100"] {
        let (v, d) = draft(&state, &[(Key::Timeout, value)]);
        assert!(run(&state, &v, &d).is_err());
    }
    let (v, d) = draft(
        &state,
        &[
            (Key::Bhop, "on"),
            (Key::Timeout, "500"),
            (Key::Lod, "low"),
            (Key::Surface, "automatic"),
            (Key::Operating, "endurance"),
        ],
    );
    assert_eq!(run(&state, &v, &d).unwrap().len(), 4);
    let (v, d) = draft(&state, &[(Key::Lighting, "breathing"), (Key::Color, "12AB34")]);
    assert!(matches!(
        run(&state, &v, &d).unwrap()[0].command,
        RequestCommand::SetLighting {
            effect: LightingEffect::Breathing {
                color: RgbColor { red: 0x12, green: 0xab, blue: 0x34 },
                ..
            },
            ..
        }
    ));
    for (key, value) in [
        (Key::Brightness, "101"),
        (Key::Period, "0"),
        (Key::Color, "purple"),
        (Key::Zone, "256"),
    ] {
        let (v, d) = draft(&state, &[(Key::Lighting, "breathing"), (key, value)]);
        assert!(run(&state, &v, &d).is_err());
    }
}

#[test]
fn partial_batch_keeps_unapplied_drafts() {
    let mut state = device();
    let (submitted, pending) = draft(&state, &[(Key::Dpi, "1600"), (Key::Surface, "automatic")]);
    state.settings.dpi.as_mut().unwrap().current_x = 1600;
    let (initial, remaining) = reconcile(&state, &pro_x_2_colors(), &submitted, &pending, &vec![Key::Dpi]);
    assert_eq!(value_of(&initial, Key::Dpi), value_of(&remaining, Key::Dpi));
    assert_eq!(value_of(&remaining, Key::Surface), Some("automatic"));
    assert_eq!(value_of(&initial, Key::Surface), Some("off"));
}

#[test]
fn failed_preflight_preserves_every_edit_and_exposes_latest_values() {
    let mut state = device();
    let (submitted, pending) = draft(&state, &[(Key::Dpi, "1600")]);
    state.settings.dpi.as_mut().unwrap().current_x = 1200;
    let (initial, remaining) = reconcile(&state, &pro_x_2_colors(), &submitted, &pending, &vec![]);
    assert_eq!(value_of(&initial, Key::Dpi), Some("1200"));
    assert_eq!(value_of(&remaining, Key::Dpi), Some("1600"));
}

#[test]
fn nickname_can_be_cleared_and_is_length_checked() {
    let state = device();
    let (v, d) = draft(&state, &[(Key::Nickname, " ")]);
    assert!(matches!(
        run(&state, &v, &d).unwrap()[0].command,
        RequestCommand::SetDeviceNickname { nickname: None, .. }
    ));
    let long = "x".repeat(65);
    let (v, d) = draft(&state, &[(Key::Nickname, &long)]);
    assert!(run(&state, &v, &d).is_err());
}

#[test]
fn enclosure_colors_are_validated_per_model() {
    let names = [
        "white", "black", "cyan", "magenta", "red", "blue", "lilac", "mint", "orange",
    ];
    for colors in [
        pro_x_2_colors(),
        vec![DeviceColor::White, DeviceColor::Black, DeviceColor::Red, DeviceColor::Magenta],
        vec![DeviceColor::White, DeviceColor::Black, DeviceColor::Lilac, DeviceColor::Blue, DeviceColor::Mint],
    ] {
        let state = device();
        assert!(value_of(&initial_values(&state, &colors), Key::Appearance).is_some());
        for color in names {
            let (v, d) = draft_with(&state, &colors, &[(Key::Appearance, color)]);
            let result = plan(&state, &colors, &v, &d);
            let offered = colors.iter().any(|c| c.as_str() == color);
            assert_eq!(result.is_ok(), offered, "{color}");
            if let Ok(changes) = result {
                assert!(matches!(&changes[0].command, RequestCommand::SetDeviceColor { color: actual, .. } if actual.as_str() == color));
            }
        }
    }
    let state = device();
    assert!(value_of(&initial_values(&state, &vec![]), Key::Appearance).is_none());
}

#[test]
fn form_starts_from_the_reported_settings() {
    let state = device();
    let values = initial_values(&state, &pro_x_2_colors());
    assert_eq!(value_of(&values, Key::Dpi), Some("800"));
    assert_eq!(value_of(&values, Key::Wired), Some("1000"));
    assert_eq!(value_of(&values, Key::Wireless), Some("1000"));
    assert_eq!(value_of(&values, Key::Lod), Some("high"));
    assert_eq!(value_of(&values, Key::Surface), Some("off"));
    assert_eq!(value_of(&values, Key::Operating), Some("performance"));
    assert_eq!(value_of(&values, Key::Bhop), Some("off"));
    assert_eq!(value_of(&values, Key::Timeout), Some("100"));
    assert_eq!(value_of(&values, Key::Source), Some("1"));
    assert_eq!(value_of(&values, Key::Nickname), Some(""));
    assert_eq!(value_of(&values, Key::Appearance), Some("black"));
    assert_eq!(value_of(&values, Key::Lighting), Some("unchanged"));
    assert_eq!(value_of(&values, Key::Color), Some("FFFFFF"));
    assert_eq!(values.len(), 16);
    let keys: Vec<Key> = values.iter().map(|(k, _)| *k).collect();
    assert_eq!(keys[0], Key::Dpi);
    assert_eq!(keys[15], Key::Zone);
}

#[test]
fn device_that_is_not_ready_gets_no_plan() {
    let mut state = device();
    state.device.ready = false;
    let (v, d) = draft(&state, &[(Key::Dpi, "1600")]);
    assert_eq!(run(&state, &v, &d).unwrap_err(), "The device is not ready.");
}

#[test]
fn unoffered_field_is_named_in_the_refusal() {
    let mut state = device();
    state.capabilities.surface_mode = false;
    let (v, d) = draft(&state, &[(Key::Surface, "on")]);
    assert_eq!(run(&state, &v, &d).unwrap_err(), "This device does not support Surface.");
}

#[test]
fn writes_come_in_field_order_with_their_keys() {
    let state = device();
    let (v, d) = draft(
        &state,
        &[(Key::Nickname, " Desk "), (Key::Dpi, "1200"), (Key::Lighting, "fixed"), (Key::Color, "#00ff80")],
    );
    let changes = run(&state, &v, &d).unwrap();
    assert_eq!(changes.len(), 3);
    assert_eq!(changes[0].keys, vec![Key::Dpi]);
    assert_eq!(
        changes[1].keys,
        vec![Key::Lighting, Key::Color, Key::Period, Key::Brightness, Key::Zone]
    );
    assert!(matches!(
        changes[1].command,
        RequestCommand::SetLighting { zone: 0, effect: LightingEffect::Fixed { color: RgbColor { red: 0, green: 0xff, blue: 0x80 } }, .. }
    ));
    match &changes[2].command {
        RequestCommand::SetDeviceNickname { nickname, device_id } => {
            assert_eq!(nickname.as_deref(), Some("Desk"));
            assert_eq!(device_id, "mouse");
        }
        other => panic!("unexpected {other:?}"),
    }
}

#[test]
fn lighting_edits_survive_a_successful_write() {
    let state = device();
    let (submitted, pending) = draft(&state, &[(Key::Lighting, "fixed"), (Key::Color, "112233")]);
    let applied = vec![Key::Lighting, Key::Color, Key::Period, Key::Brightness, Key::Zone];
    let (initial, remaining) = reconcile(&state, &pro_x_2_colors(), &submitted, &pending, &applied);
    assert_eq!(value_of(&initial, Key::Lighting), Some("fixed"));
    assert_eq!(value_of(&initial, Key::Color), Some("112233"));
    assert_eq!(value_of(&remaining, Key::Color), Some("112233"));
    assert_eq!(value_of(&initial, Key::Dpi), Some("800"));
}

#[test]
fn only_changed_fields_count_as_edits() {
    let state = device();
    let initial = initial_values(&state, &pro_x_2_colors());
    let mut current = initial.clone();
    for entry in current.iter_mut() {
        if entry.0 == Key::Dpi {
            entry.1 = "1600".into();
        }
        if entry.0 == Key::Surface {
            entry.1 = "off".into();
        }
    }
    let edits = edited_fields(&initial, &current);
    assert_eq!(edits, vec![(Key::Dpi, "1600".to_owned())]);
    assert!(edited_fields(&initial, &initial).is_empty());
    let (v, d) = draft(&state, &[(Key::Dpi, "1600")]);
    assert_eq!(edited_fields(&initial, &v), d);
}

#[test]
fn profile_writes_are_told_apart_from_presentation_edits() {
    let state = device();
    let (v, d) = draft(&state, &[(Key::Dpi, "1600")]);
    assert!(writes_onboard_profile(&v, &d));
    let (v, d) = draft(&state, &[(Key::Nickname, "Desk"), (Key::Appearance, "white")]);
    assert!(!writes_onboard_profile(&v, &d));
    let (v, d) = draft(&state, &[(Key::Source, "host"), (Key::Dpi, "1600")]);
    assert!(!writes_onboard_profile(&v, &d));
    let mut host = device();
    host.settings.configuration_source = None;
    let (v, d) = draft(&host, &[(Key::Dpi, "1600")]);
    assert!(!writes_onboard_profile(&v, &d));
}

#[test]
fn fields_are_laid_out_with_their_choices() {
    let state = device();
    let fields = specs(&state, &pro_x_2_colors());
    let keys: Vec<Key> = fields.iter().map(|f| f.key).collect();
    assert_eq!(
        keys,
        vec![
            Key::Dpi, Key::Wired, Key::Wireless, Key::Lod, Key::Surface, Key::Operating, Key::Bhop,
            Key::Timeout, Key::Source, Key::Lighting, Key::Color, Key::Period, Key::Brightness,
            Key::Zone, Key::Nickname, Key::Appearance,
        ]
    );
    let dpi = &fields[0];
    assert_eq!(dpi.help, "Applies to both axes. Supported range 400–3200.");
    assert_eq!(dpi.unit, "DPI");
    assert!(dpi.text);
    let presets: Vec<&str> = dpi.choices.iter().map(|(v, _)| v.as_str()).collect();
    assert_eq!(presets, vec!["400", "800", "1200", "1600", "3200"]);
    let wireless = &fields[2];
    assert_eq!(wireless.label, "Wireless");
    assert_eq!(wireless.choices.last().unwrap(), &("2000".to_owned(), "2000 Hz".to_owned()));
    assert!(!wireless.text);
    let source = &fields[8];
    assert_eq!(source.value, "1");
    assert_eq!(source.choices.len(), 6);
    assert_eq!(source.choices[0], ("host".to_owned(), "Host control".to_owned()));
    assert_eq!(source.choices[5], ("5".to_owned(), "Profile 5".to_owned()));
    for field in &fields {
        assert_eq!(Some(field.value.as_str()), value_of(&initial_values(&state, &pro_x_2_colors()), field.key));
    }
}

#[test]
fn an_undescribed_active_profile_is_still_offered() {
    let mut state = device();
    state.settings.configuration_source = Some(ConfigurationSource::Onboard { active_profile: Some(7) });
    let fields = specs(&state, &pro_x_2_colors());
    let source = fields.iter().find(|f| f.key == Key::Source).unwrap();
    assert_eq!(source.choices.len(), 7);
    assert_eq!(source.choices[6], ("7".to_owned(), "Profile 7".to_owned()));
}

#[test]
fn a_shared_rate_is_one_report_rate_field() {
    let mut state = device();
    state.capabilities.polling_rates = PollingRateCapabilities::Shared { supported_hz: vec![125, 1000] };
    state.settings.polling_rate = PollingRateState::Shared { hz: 1000 };
    let fields = specs(&state, &pro_x_2_colors());
    assert!(!fields.iter().any(|f| f.key == Key::Wireless));
    let rate = fields.iter().find(|f| f.key == Key::Wired).unwrap();
    assert_eq!(rate.label, "Report rate");
    assert_eq!(rate.value, "1000");
}

#[test]
fn the_colour_field_lists_the_model_finishes() {
    let state = device();
    let fields = specs(&state, &pro_x_2_colors());
    let appearance = fields.iter().find(|f| f.key == Key::Appearance).unwrap();
    let names: Vec<&str> = appearance.choices.iter().map(|(v, _)| v.as_str()).collect();
    assert_eq!(names, vec!["white", "black", "cyan", "magenta"]);
    assert_eq!(appearance.choices[0].1, "White");
    assert!(!specs(&state, &vec![]).iter().any(|f| f.key == Key::Appearance));
}

fn recap_spec(key: Key, label: &'static str, unit: &'static str, value: &str) -> Spec {
    Spec {
        key,
        group: "Sensor",
        label,
        help: String::new(),
        unit,
        value: value.to_owned(),
        choices: vec![
            ("1000".to_owned(), "1000 Hz".to_owned()),
            ("high".to_owned(), "High".to_owned()),
        ],
        text: false,
    }
}

#[test]
fn the_recap_sets_each_changed_value_against_the_one_it_replaces() {
    let fields = vec![
        recap_spec(Key::Dpi, "DPI", "DPI", "800"),
        recap_spec(Key::Wired, "Wired rate", "", "1000"),
        recap_spec(Key::Lod, "Lift-off", "", ""),
        recap_spec(Key::Nickname, "Name", "", "Desk"),
    ];
    let dirty = vec![
        (Key::Lod, "high".to_owned()),
        (Key::Dpi, "1600".to_owned()),
        (Key::Nickname, String::new()),
    ];
    let rows = change_recap(&fields, &dirty);
    assert_eq!(
        rows,
        vec![
            ("DPI".to_owned(), "800".to_owned(), "1600 DPI".to_owned()),
            ("Lift-off".to_owned(), "Default".to_owned(), "High".to_owned()),
            ("Name".to_owned(), "Desk".to_owned(), "Default".to_owned()),
        ]
    );
    assert!(change_recap(&fields, &Vec::new()).is_empty());
}

#[test]
fn the_confirmation_says_what_happens_to_the_device() {
    assert_eq!(
        confirmation_description("PRO X 2", false),
        "Written to PRO X 2 as soon as you confirm."
    );
    assert_eq!(
        confirmation_description("PRO X 2", true),
        "PRO X 2 keeps the values it has now."
    );
}

#[test]
fn names_and_appearance_go_on_the_details_page() {
    assert_eq!(field_page(Key::Nickname), EditorPage::Details);
    assert_eq!(field_page(Key::Appearance), EditorPage::Details);
    assert_eq!(field_page(Key::Dpi), EditorPage::Performance);
    assert_eq!(field_page(Key::Lighting), EditorPage::Performance);
}
