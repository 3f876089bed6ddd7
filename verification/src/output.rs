//! What the command-line client prints for people: the agent's status, the
//! device list, a device's settings and the event stream.
use vstd::prelude::*;

use crate::protocol::{
    AgentEvent, BatteryState, BunnyHoppingState, ConfigurationSource, DeviceState, DeviceSummary,
    DpiState, OperatingMode, PollingRateState, SurfaceMode,
};
use crate::selector::{
    device_name, device_status, name_text, stable_selector, stable_text, status_text,
};
use crate::text::{decimal, decimal_chars, owned, push_chars, push_str};

verus! {

/// Appends the decimal digits of `n`.
fn push_number(s: &mut String, n: u64)
    ensures
        final(s)@ == old(s)@ + decimal(n as nat),
{
    push_chars(s, &decimal_chars(n as u128));
}

/// The line that says the agent is up, with its protocol version.
pub open spec fn status_text_line(version: u32) -> Seq<char> {
    "Agent: running (protocol "@ + decimal(version as nat) + ")\n"@
}

/// The line that says the agent is up.
pub fn status_line(version: u32) -> (r: String)
    ensures
        r@ == status_text_line(version),
{
    let mut s = owned("Agent: running (protocol ");
    push_number(&mut s, version as u64);
    push_str(&mut s, ")\n");
    s
}

/// One line of the device list: name, stable selector and readiness.
pub open spec fn list_line(device: DeviceSummary) -> Seq<char> {
    name_text(device) + " ("@ + stable_text(device) + ") — "@ + status_text(device) + "\n"@
}

/// The lines of the device list, one per device, in order.
pub open spec fn list_lines(devices: Seq<DeviceSummary>) -> Seq<char>
    decreases devices.len(),
{
    if devices.len() == 0 {
        Seq::empty()
    } else {
        list_lines(devices.drop_last()) + list_line(devices.last())
    }
}

/// The device list as printed: a notice when there is no device.
pub open spec fn devices_text_of(devices: Seq<DeviceSummary>) -> Seq<char> {
    if devices.len() == 0 {
        "No devices found.\n"@
    } else {
        list_lines(devices)
    }
}

/// The device list as printed.
pub fn devices_text(devices: &Vec<DeviceSummary>) -> (r: String)
    ensures
        r@ == devices_text_of(devices@),
{
    if devices.len() == 0 {
        return owned("No devices found.\n");
    }
    let mut s = String::new();
    let mut i: usize = 0;
    while i < devices.len()
        invariant
            i <= devices.len(),
            s@ == list_lines(devices@.take(i as int)),
        decreases devices.len() - i,
    {
        let d = &devices[i];
        let ghost before = s@;
        push_str(&mut s, device_name(d).as_str());
        push_str(&mut s, " (");
        push_str(&mut s, stable_selector(d).as_str());
        push_str(&mut s, ") — ");
        push_str(&mut s, device_status(d).as_str());
        push_str(&mut s, "\n");
        proof {
            let t = devices@.take(i as int + 1);
            assert(t.drop_last() =~= devices@.take(i as int));
            assert(t.last() == devices@[i as int]);
            assert(s@ =~= before + list_line(devices@[i as int]));
        }
        i += 1;
    }
    assert(devices@.take(devices@.len() as int) =~= devices@);
    s
}

/// How a configuration source is named.
pub open spec fn source_name(source: ConfigurationSource) -> Seq<char> {
    match source {
        ConfigurationSource::Host => "host"@,
        ConfigurationSource::Onboard { active_profile: Some(p) } => "onboard profile "@ + decimal(p as nat),
        ConfigurationSource::Onboard { active_profile: None } => "onboard"@,
        ConfigurationSource::Unknown { raw_mode } => "unknown ("@ + decimal(raw_mode as nat) + ")"@,
    }
}

/// How a configuration source is named.
pub fn configuration_source(source: ConfigurationSource) -> (r: String)
    ensures
        r@ == source_name(source),
{
    match source {
        ConfigurationSource::Host => owned("host"),
        ConfigurationSource::Onboard { active_profile: Some(p) } => {
            let mut s = owned("onboard profile ");
            push_number(&mut s, p as u64);
            s
        },
        ConfigurationSource::Onboard { active_profile: None } => owned("onboard"),
        ConfigurationSource::Unknown { raw_mode } => {
            let mut s = owned("unknown (");
            push_number(&mut s, raw_mode as u64);
            push_str(&mut s, ")");
            s
        },
    }
}

/// How an operating mode is named.
pub open spec fn operating_name(mode: OperatingMode) -> Seq<char> {
    match mode {
        OperatingMode::Performance => "performance"@,
        OperatingMode::Endurance => "endurance"@,
    }
}

/// How an operating mode is named.
pub fn operating_mode(mode: OperatingMode) -> (r: &'static str)
    ensures
        r@ == operating_name(mode),
{
    match mode {
        OperatingMode::Performance => "performance",
        OperatingMode::Endurance => "endurance",
    }
}

/// How a surface mode is named.
pub open spec fn surface_name(mode: SurfaceMode) -> Seq<char> {
    match mode {
        SurfaceMode::On => "on"@,
        SurfaceMode::Automatic => "automatic"@,
        SurfaceMode::Off => "off"@,
    }
}

/// How a surface mode is named.
pub fn surface_mode(mode: SurfaceMode) -> (r: &'static str)
    ensures
        r@ == surface_name(mode),
{
    match mode {
        SurfaceMode::On => "on",
        SurfaceMode::Automatic => "automatic",
        SurfaceMode::Off => "off",
    }
}

/// The lines that name a device and say whether it is ready.
pub open spec fn header_lines(device: DeviceSummary) -> Seq<char> {
    "Device: "@ + name_text(device) + "\n"@ + "Selector: "@ + stable_text(device) + "\n"@ + "Status: "@
        + status_text(device) + "\n"@
}

/// The battery line, when the charge is reported.
pub open spec fn battery_line(battery: Option<BatteryState>) -> Seq<char> {
    match battery {
        Some(b) => "Battery: "@ + decimal(b.percentage as nat) + "% ("@ + b.status@ + ")\n"@,
        None => Seq::empty(),
    }
}

fn push_battery_line(s: &mut String, battery: &Option<BatteryState>)
    ensures
        final(s)@ == old(s)@ + battery_line(*battery),
{
    let ghost start = s@;
    match battery {
        Some(b) => {
            push_str(s, "Battery: ");
            push_number(s, b.percentage as u64);
            push_str(s, "% (");
            push_str(s, b.status.as_str());
            push_str(s, ")\n");
        },
        None => {},
    }
    assert(s@ =~= start + battery_line(*battery));
}

/// The sensitivity line, with the second axis when it is reported.
pub open spec fn dpi_line(dpi: Option<DpiState>) -> Seq<char> {
    match dpi {
        Some(d) => match d.current_y {
            Some(y) => "DPI: "@ + decimal(d.current_x as nat) + " x "@ + decimal(y as nat) + "\n"@,
            None => "DPI: "@ + decimal(d.current_x as nat) + "\n"@,
        },
        None => Seq::empty(),
    }
}

fn push_dpi_line(s: &mut String, dpi: Option<DpiState>)
    ensures
        final(s)@ == old(s)@ + dpi_line(dpi),
{
    let ghost start = s@;
    match dpi {
        Some(d) => {
            push_str(s, "DPI: ");
            push_number(s, d.current_x as u64);
            match d.current_y {
                Some(y) => {
                    push_str(s, " x ");
                    push_number(s, y as u64);
                },
                None => {},
            }
            push_str(s, "\n");
        },
        None => {},
    }
    assert(s@ =~= start + dpi_line(dpi));
}

/// The polling-rate line, when the rate is reported.
pub open spec fn rate_line(rate: PollingRateState) -> Seq<char> {
    match rate {
        PollingRateState::Unsupported => Seq::empty(),
        PollingRateState::Shared { hz } => "Polling rate: "@ + decimal(hz as nat) + " Hz\n"@,
        PollingRateState::PerConnection { wired_hz, wireless_hz } => "Polling rate: wired "@ + decimal(
            wired_hz as nat,
        ) + " Hz; wireless "@ + decimal(wireless_hz as nat) + " Hz\n"@,
    }
}

fn push_rate_line(s: &mut String, rate: PollingRateState)
    ensures
        final(s)@ == old(s)@ + rate_line(rate),
{
    let ghost start = s@;
    match rate {
        PollingRateState::Unsupported => {},
        PollingRateState::Shared { hz } => {
            push_str(s, "Polling rate: ");
            push_number(s, hz as u64);
            push_str(s, " Hz\n");
        },
        PollingRateState::PerConnection { wired_hz, wireless_hz } => {
            push_str(s, "Polling rate: wired ");
            push_number(s, wired_hz as u64);
            push_str(s, " Hz; wireless ");
            push_number(s, wireless_hz as u64);
            push_str(s, " Hz\n");
        },
    }
    assert(s@ =~= start + rate_line(rate));
}

/// The lines for the configuration source and the sensor modes, each when it
/// is reported.
pub open spec fn mode_lines(
    source: Option<ConfigurationSource>,
    operating: Option<OperatingMode>,
    surface: Option<SurfaceMode>,
) -> Seq<char> {
    (match source {
        Some(c) => "Configuration source: "@ + source_name(c) + "\n"@,
        None => Seq::empty(),
    }) + (match operating {
        Some(m) => "Operating mode: "@ + operating_name(m) + "\n"@,
        None => Seq::empty(),
    }) + (match surface {
        Some(m) => "Surface mode: "@ + surface_name(m) + "\n"@,
        None => Seq::empty(),
    })
}

fn push_mode_lines(
    s: &mut String,
    source: Option<ConfigurationSource>,
    operating: Option<OperatingMode>,
    surface: Option<SurfaceMode>,
)
    ensures
        final(s)@ == old(s)@ + mode_lines(source, operating, surface),
{
    let ghost start = s@;
    match source {
        Some(c) => {
            push_str(s, "Configuration source: ");
            push_str(s, configuration_source(c).as_str());
            push_str(s, "\n");
        },
        None => {},
    }
    let ghost mid = s@;
    match operating {
        Some(m) => {
            push_str(s, "Operating mode: ");
            push_str(s, operating_mode(m));
            push_str(s, "\n");
        },
        None => {},
    }
    let ghost mid2 = s@;
    match surface {
        Some(m) => {
            push_str(s, "Surface mode: ");
            push_str(s, surface_mode(m));
            push_str(s, "\n");
        },
        None => {},
    }
    assert(mid =~= start + (match source {
        Some(c) => "Configuration source: "@ + source_name(c) + "\n"@,
        None => Seq::<char>::empty(),
    }));
    assert(mid2 =~= mid + (match operating {
        Some(m) => "Operating mode: "@ + operating_name(m) + "\n"@,
        None => Seq::<char>::empty(),
    }));
    assert(s@ =~= start + mode_lines(source, operating, surface));
}

/// The bunny-hopping line, when the setting is reported.
pub open spec fn bhop_line(bhop: Option<BunnyHoppingState>) -> Seq<char> {
    match bhop {
        Some(b) => "BHOP: "@ + (if b.enabled {
            "on"@
        } else {
            "off"@
        }) + " ("@ + decimal(b.timeout_ms as nat) + " ms)\n"@,
        None => Seq::empty(),
    }
}

fn push_bhop_line(s: &mut String, bhop: Option<BunnyHoppingState>)
    ensures
        final(s)@ == old(s)@ + bhop_line(bhop),
{
    let ghost start = s@;
    match bhop {
        Some(b) => {
            push_str(s, "BHOP: ");
            push_str(s, if b.enabled { "on" } else { "off" });
            push_str(s, " (");
            push_number(s, b.timeout_ms as u64);
            push_str(s, " ms)\n");
        },
        None => {},
    }
    assert(s@ =~= start + bhop_line(bhop));
}

/// The lines for the settings a ready device reports; a setting it does not
/// report gets no line.
pub open spec fn settings_lines(state: DeviceState) -> Seq<char> {
    let s = state.settings;
    battery_line(s.battery) + dpi_line(s.dpi) + rate_line(s.polling_rate) + mode_lines(
        s.configuration_source,
        s.operating_mode,
        s.surface_mode,
    ) + bhop_line(s.bunny_hopping)
}

/// A device as printed for people: its name, selector and status, then, when
/// it is ready, the settings it reports. Settings of a device that is not
/// ready are stale and left out.
pub open spec fn device_text_of(state: DeviceState) -> Seq<char> {
    header_lines(state.device) + if state.device.ready {
        settings_lines(state)
    } else {
        Seq::empty()
    }
}

/// A device as printed for people.
pub fn device_text(state: &DeviceState) -> (r: String)
    ensures
        r@ == device_text_of(*state),
{
    let d = &state.device;
    let mut s = owned("Device: ");
    push_str(&mut s, device_name(d).as_str());
    push_str(&mut s, "\n");
    push_str(&mut s, "Selector: ");
    push_str(&mut s, stable_selector(d).as_str());
    push_str(&mut s, "\n");
    push_str(&mut s, "Status: ");
    push_str(&mut s, device_status(d).as_str());
    push_str(&mut s, "\n");
    assert(s@ =~= header_lines(*d));
    if !d.ready {
        assert(s@ =~= device_text_of(*state));
        return s;
    }
    let ghost head = s@;
    let settings = &state.settings;
    push_battery_line(&mut s, &settings.battery);
    let ghost a = s@;
    push_dpi_line(&mut s, settings.dpi);
    let ghost b = s@;
    push_rate_line(&mut s, settings.polling_rate);
    let ghost c = s@;
    push_mode_lines(&mut s, settings.configuration_source, settings.operating_mode, settings.surface_mode);
    let ghost e = s@;
    push_bhop_line(&mut s, settings.bunny_hopping);
    assert(s@ =~= head + settings_lines(*state));
    s
}

/// An event as printed for people.
pub open spec fn event_text(event: AgentEvent) -> Seq<char> {
    match event {
        AgentEvent::ApplicationShuttingDown => "Agent is shutting down"@,
        AgentEvent::DeviceConnected { device } => "Device connected: "@ + name_text(device),
        AgentEvent::DeviceReady { device } => "Device ready: "@ + name_text(device.device),
        AgentEvent::DeviceUnavailable { device_id, reason, .. } => "Device unavailable: "@ + device_id@
            + " ("@ + reason@ + ")"@,
        AgentEvent::SettingsChanged { device } => "Settings changed: "@ + name_text(device.device),
        AgentEvent::DeviceMetadataChanged { devices } => "Device metadata changed: "@ + decimal(
            devices.len() as nat,
        ) + " device(s)"@,
        AgentEvent::DeviceDisconnected { device_id } => "Device disconnected: "@ + device_id@,
        AgentEvent::BatteryChanged { device_id, battery } => match battery {
            Some(b) => "Battery changed: "@ + device_id@ + " ("@ + decimal(b.percentage as nat) + "%)"@,
            None => "Battery unavailable: "@ + device_id@,
        },
    }
}

/// An event as printed for people.
pub fn event_human(event: &AgentEvent) -> (r: String)
    ensures
        r@ == event_text(*event),
{
    match event {
        AgentEvent::ApplicationShuttingDown => owned("Agent is shutting down"),
        AgentEvent::DeviceConnected { device } => {
            let mut s = owned("Device connected: ");
            push_str(&mut s, device_name(device).as_str());
            s
        },
        AgentEvent::DeviceReady { device } => {
            let mut s = owned("Device ready: ");
            push_str(&mut s, device_name(&device.device).as_str());
            s
        },
        AgentEvent::DeviceUnavailable { device_id, reason, .. } => {
            let mut s = owned("Device unavailable: ");
            push_str(&mut s, device_id.as_str());
            push_str(&mut s, " (");
            push_str(&mut s, reason.as_str());
            push_str(&mut s, ")");
            s
        },
        AgentEvent::SettingsChanged { device } => {
            let mut s = owned("Settings changed: ");
            push_str(&mut s, device_name(&device.device).as_str());
            s
        },
        AgentEvent::DeviceMetadataChanged { devices } => {
            let mut s = owned("Device metadata changed: ");
            push_number(&mut s, devices.len() as u64);
            push_str(&mut s, " device(s)");
            s
        },
        AgentEvent::DeviceDisconnected { device_id } => {
            let mut s = owned("Device disconnected: ");
            push_str(&mut s, device_id.as_str());
            s
        },
        AgentEvent::BatteryChanged { device_id, battery } => match battery {
            Some(b) => {
                let mut s = owned("Battery changed: ");
                push_str(&mut s, device_id.as_str());
                push_str(&mut s, " (");
                push_number(&mut s, b.percentage as u64);
                push_str(&mut s, "%)");
                s
            },
            None => {
                let mut s = owned("Battery unavailable: ");
                push_str(&mut s, device_id.as_str());
                s
            },
        },
    }
}

} // verus!
