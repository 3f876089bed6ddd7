//! The probe's report of a mouse: its identity and firmware, battery, DPI,
//! polling rate, operating mode, lighting, onboard profile storage, host
//! button mapping and configuration source, one line each, as read from the
//! device. The device is read elsewhere; the report is written from what was
//! read.
use vstd::prelude::*;

use crate::int_parse::digit_glyph;
use crate::probe::{optional_number, summarize_values, values_summary};
use crate::protocol::{ConfigurationSource, PollingRateCapabilities, PollingRateState};
use crate::text::{decimal, decimal_chars, hex_fixed, owned, push_chars, push_hex_fixed, push_str};

verus! {

// ---------------------------------------------------------------------------
// Number formats
// ---------------------------------------------------------------------------

/// A byte as two upper-case hexadecimal digits (`{:02X}`).
pub open spec fn upper_hex_byte(b: u8) -> Seq<char> {
    seq![digit_glyph((b / 16) as nat, true), digit_glyph((b % 16) as nat, true)]
}

/// Bytes as upper-case hexadecimal, two digits each, run together.
pub open spec fn upper_hex_bytes(bytes: Seq<u8>) -> Seq<char>
    decreases bytes.len(),
{
    if bytes.len() == 0 {
        Seq::empty()
    } else {
        upper_hex_bytes(bytes.drop_last()) + upper_hex_byte(bytes.last())
    }
}

/// `n` in decimal, with zeros in front up to `width` digits (`{:0width$}`).
pub open spec fn zero_padded(n: nat, width: nat) -> Seq<char> {
    let digits = decimal(n);
    Seq::new(
        if digits.len() < width {
            (width - digits.len()) as nat
        } else {
            0
        },
        |_i: int| '0',
    ) + digits
}

fn upper_digit(d: u8) -> (r: char)
    requires
        d < 16,
    ensures
        r == digit_glyph(d as nat, true),
{
    if d < 10 {
        let b: u8 = 48 + d;
        b as char
    } else {
        let b: u8 = 65 + (d - 10);
        b as char
    }
}

fn push_upper_hex_byte(out: &mut String, b: u8)
    ensures
        final(out)@ == old(out)@ + upper_hex_byte(b),
{
    let hi = upper_digit(b / 16);
    let lo = upper_digit(b % 16);
    crate::text::push_char(out, hi);
    crate::text::push_char(out, lo);
    assert(final(out)@ =~= old(out)@ + upper_hex_byte(b));
}

fn push_upper_hex_bytes(out: &mut String, bytes: &Vec<u8>)
    ensures
        final(out)@ == old(out)@ + upper_hex_bytes(bytes@),
{
    let ghost start = out@;
    let mut i: usize = 0;
    while i < bytes.len()
        invariant
            i <= bytes.len(),
            out@ == start + upper_hex_bytes(bytes@.take(i as int)),
        decreases bytes.len() - i,
    {
        proof {
            assert(bytes@.take(i as int + 1).drop_last() =~= bytes@.take(i as int));
        }
        push_upper_hex_byte(out, bytes[i]);
        proof {
            assert(out@ =~= start + upper_hex_bytes(bytes@.take(i as int + 1)));
        }
        i += 1;
    }
    assert(bytes@.take(bytes.len() as int) =~= bytes@);
}

fn push_decimal(out: &mut String, n: u64)
    ensures
        final(out)@ == old(out)@ + decimal(n as nat),
{
    push_chars(out, &decimal_chars(n as u128));
}

fn push_zero_padded(out: &mut String, n: u64, width: usize)
    ensures
        final(out)@ == old(out)@ + zero_padded(n as nat, width as nat),
{
    let ghost start = out@;
    let digits = decimal_chars(n as u128);
    let pad: usize = if digits.len() < width {
        width - digits.len()
    } else {
        0
    };
    let mut k: usize = 0;
    while k < pad
        invariant
            k <= pad,
            out@ == start + Seq::new(k as nat, |_i: int| '0'),
        decreases pad - k,
    {
        crate::text::push_char(out, '0');
        assert(out@ =~= start + Seq::new((k + 1) as nat, |_i: int| '0'));
        k += 1;
    }
    push_chars(out, &digits);
    assert(out@ =~= start + zero_padded(n as nat, width as nat));
}

fn push_hex(out: &mut String, n: u64, width: u32)
    ensures
        final(out)@ == old(out)@ + hex_fixed(n as nat, width as nat),
{
    let mut v: Vec<char> = Vec::new();
    push_hex_fixed(&mut v, n, width);
    assert(v@ =~= hex_fixed(n as nat, width as nat));
    push_chars(out, &v);
}

// ---------------------------------------------------------------------------
// Identity and firmware
// ---------------------------------------------------------------------------

/// One firmware entity of a device.
#[derive(Clone, Debug, PartialEq, Eq)]
pub struct FirmwareEntry {
    pub entity_type: u8,
    pub prefix: String,
    pub firmware_number: u8,
    pub revision: u8,
    pub build: u16,
    pub active: bool,
    pub transport_pid: u16,
}

/// What a device says of itself.
#[derive(Clone, Debug, PartialEq, Eq)]
pub struct SnapshotMetadata {
    pub name: String,
    pub device_type: String,
    pub unit_id: Vec<u8>,
    pub model_ids: [u16; 3],
    pub transport_flags: u8,
    pub serial_number: Option<String>,
    pub firmware: Vec<FirmwareEntry>,
}

/// The report line of one firmware entity.
pub open spec fn firmware_line(f: FirmwareEntry) -> Seq<char> {
    "Firmware entity "@ + decimal(f.entity_type as nat) + ": "@ + f.prefix@ + " "@ + zero_padded(
        f.firmware_number as nat,
        2,
    ) + "."@ + zero_padded(f.revision as nat, 2) + ".B"@ + zero_padded(f.build as nat, 4) + (if f.active {
        " (active)"@
    } else {
        ""@
    }) + (if f.transport_pid == 0 {
        ""@
    } else {
        " PID "@ + hex_fixed(f.transport_pid as nat, 4)
    }) + "\n"@
}

/// The report lines of firmware entities, in order.
pub open spec fn firmware_lines(entries: Seq<FirmwareEntry>) -> Seq<char>
    decreases entries.len(),
{
    if entries.len() == 0 {
        Seq::empty()
    } else {
        firmware_lines(entries.drop_last()) + firmware_line(entries.last())
    }
}

/// The report lines of a device's identity and firmware.
pub open spec fn metadata_lines(m: SnapshotMetadata) -> Seq<char> {
    "Device: "@ + m.name@ + " ("@ + m.device_type@ + ")\n"@ + "Unit ID: "@ + upper_hex_bytes(m.unit_id@)
        + "; models "@ + hex_fixed(m.model_ids@[0] as nat, 4) + "/"@ + hex_fixed(m.model_ids@[1] as nat, 4)
        + "/"@ + hex_fixed(m.model_ids@[2] as nat, 4) + "; transport flags 0x"@ + hex_fixed(
        m.transport_flags as nat,
        2,
    ) + "\n"@ + (match m.serial_number {
        Some(serial) => "Device serial: "@ + serial@ + "\n"@,
        None => ""@,
    }) + firmware_lines(m.firmware@)
}

fn push_firmware_line(out: &mut String, f: &FirmwareEntry)
    ensures
        final(out)@ == old(out)@ + firmware_line(*f),
{
    let mut line = String::new();
    push_str(&mut line, "Firmware entity ");
    assert(line@ =~= "Firmware entity "@);
    push_decimal(&mut line, f.entity_type as u64);
    push_str(&mut line, ": ");
    push_str(&mut line, f.prefix.as_str());
    push_str(&mut line, " ");
    push_zero_padded(&mut line, f.firmware_number as u64, 2);
    push_str(&mut line, ".");
    push_zero_padded(&mut line, f.revision as u64, 2);
    push_str(&mut line, ".B");
    push_zero_padded(&mut line, f.build as u64, 4);
    if f.active {
        push_str(&mut line, " (active)");
    } else {
        push_str(&mut line, "");
    }
    if f.transport_pid == 0 {
        push_str(&mut line, "");
    } else {
        let mut pid = owned(" PID ");
        push_hex(&mut pid, f.transport_pid as u64, 4);
        push_str(&mut line, pid.as_str());
    }
    push_str(&mut line, "\n");
    push_str(out, line.as_str());
}

fn push_metadata_lines(out: &mut String, m: &SnapshotMetadata)
    ensures
        final(out)@ == old(out)@ + metadata_lines(*m),
{
    let mut text = String::new();
    push_str(&mut text, "Device: ");
    assert(text@ =~= "Device: "@);
    push_str(&mut text, m.name.as_str());
    push_str(&mut text, " (");
    push_str(&mut text, m.device_type.as_str());
    push_str(&mut text, ")\n");
    push_str(&mut text, "Unit ID: ");
    push_upper_hex_bytes(&mut text, &m.unit_id);
    push_str(&mut text, "; models ");
    push_hex(&mut text, m.model_ids[0] as u64, 4);
    push_str(&mut text, "/");
    push_hex(&mut text, m.model_ids[1] as u64, 4);
    push_str(&mut text, "/");
    push_hex(&mut text, m.model_ids[2] as u64, 4);
    push_str(&mut text, "; transport flags 0x");
    push_hex(&mut text, m.transport_flags as u64, 2);
    push_str(&mut text, "\n");
    match &m.serial_number {
        Some(serial) => {
            let mut line = owned("Device serial: ");
            push_str(&mut line, serial.as_str());
            push_str(&mut line, "\n");
            push_str(&mut text, line.as_str());
        },
        None => {
            push_str(&mut text, "");
        },
    }
    let mut firmware = String::new();
    let mut i: usize = 0;
    while i < m.firmware.len()
        invariant
            i <= m.firmware.len(),
            firmware@ == firmware_lines(m.firmware@.take(i as int)),
        decreases m.firmware.len() - i,
    {
        proof {
            assert(m.firmware@.take(i as int + 1).drop_last() =~= m.firmware@.take(i as int));
        }
        push_firmware_line(&mut firmware, &m.firmware[i]);
        i += 1;
    }
    assert(m.firmware@.take(m.firmware.len() as int) =~= m.firmware@);
    push_str(&mut text, firmware.as_str());
    push_str(out, text.as_str());
}

// ---------------------------------------------------------------------------
// Battery, DPI, polling rate, operating mode
// ---------------------------------------------------------------------------

/// A battery reading.
#[derive(Clone, Debug, PartialEq, Eq)]
pub struct SnapshotBattery {
    pub percentage: u8,
    pub status: String,
    pub level_code: u8,
}

/// The DPI a device reports.
#[derive(Clone, Copy, Debug, PartialEq, Eq)]
pub struct SnapshotDpi {
    pub current_x: u16,
    pub default_x: u16,
    pub current_y: Option<u16>,
    pub lod: Option<u8>,
}

/// The operating mode a device reports, with its raw status.
#[derive(Clone, Debug, PartialEq, Eq)]
pub struct SnapshotMode {
    pub performance: bool,
    pub status0: u8,
    pub status1: u8,
    pub capabilities: u8,
    pub capabilities1: u8,
    pub surface_mode: Option<String>,
}

/// The bunny-hopping setting a device reports.
#[derive(Clone, Copy, Debug, PartialEq, Eq)]
pub struct SnapshotBunnyHopping {
    pub enabled: bool,
    pub timeout_ms: u16,
}

/// A number in decimal, or `n/a`.
pub open spec fn optional_number_text(value: Option<u64>) -> Seq<char> {
    match value {
        Some(v) => decimal(v as nat),
        None => "n/a"@,
    }
}

/// The battery line.
pub open spec fn battery_line(battery: Option<SnapshotBattery>) -> Seq<char> {
    match battery {
        Some(b) => "Battery: "@ + decimal(b.percentage as nat) + "% ("@ + b.status@ + ", level code 0x"@
            + hex_fixed(b.level_code as nat, 2) + ")\n"@,
        None => "Battery: unsupported\n"@,
    }
}

/// The DPI lines: the current values, then the supported ones.
pub open spec fn dpi_lines(dpi: Option<SnapshotDpi>, supported: Option<Seq<u16>>) -> Seq<char> {
    match dpi {
        Some(d) => "DPI: X="@ + decimal(d.current_x as nat) + " (default "@ + decimal(d.default_x as nat)
            + "), Y="@ + optional_number_text(
            match d.current_y {
                Some(y) => Some(y as u64),
                None => None,
            },
        ) + ", LOD="@ + optional_number_text(
            match d.lod {
                Some(l) => Some(l as u64),
                None => None,
            },
        ) + "\n"@ + "DPI supported: "@ + (match supported {
            Some(v) => values_summary(v, ""@),
            None => "<none>"@,
        }) + "\n"@,
        None => "DPI: unsupported\n"@,
    }
}

/// One polling-rate line: the current rate and the supported ones.
pub open spec fn polling_line(label: Seq<char>, hz: u16, supported: Seq<u16>) -> Seq<char> {
    "Polling rate ("@ + label + "): "@ + decimal(hz as nat) + " Hz; supported "@ + values_summary(
        supported,
        " Hz"@,
    ) + "\n"@
}

/// The polling-rate lines, or nothing when the capability and the setting
/// are not of the same kind.
pub open spec fn polling_lines(capabilities: PollingRateCapabilities, settings: PollingRateState) -> Option<
    Seq<char>,
> {
    match (capabilities, settings) {
        (PollingRateCapabilities::Shared { supported_hz }, PollingRateState::Shared { hz }) => Some(
            polling_line("shared"@, hz, supported_hz@),
        ),
        (
            PollingRateCapabilities::PerConnection { wired_hz, wireless_hz },
            PollingRateState::PerConnection { wired_hz: wired, wireless_hz: wireless },
        ) => Some(polling_line("wired"@, wired, wired_hz@) + polling_line("wireless"@, wireless, wireless_hz@)),
        (PollingRateCapabilities::Unsupported, PollingRateState::Unsupported) => Some(
            "Polling rate: unsupported\n"@,
        ),
        _ => None,
    }
}

/// Why a report stops at the polling rate.
pub open spec fn inconsistent_polling_text() -> Seq<char> {
    "inconsistent polling-rate capability and settings representations"@
}

/// The operating-mode lines, if the device reports a mode.
pub open spec fn mode_lines(mode: Option<SnapshotMode>) -> Seq<char> {
    match mode {
        Some(m) => "Operating mode: "@ + (if m.performance {
            "performance"@
        } else {
            "endurance"@
        }) + " (status 0x"@ + hex_fixed(m.status0 as nat, 2) + ":0x"@ + hex_fixed(m.status1 as nat, 2)
            + ", capabilities 0x"@ + hex_fixed(m.capabilities as nat, 2) + ":0x"@ + hex_fixed(
            m.capabilities1 as nat,
            2,
        ) + ")\n"@ + (match m.surface_mode {
            Some(surface) => "Surface mode: "@ + surface@ + "\n"@,
            None => ""@,
        }),
        None => ""@,
    }
}

/// The bunny-hopping line, if the device reports the setting.
pub open spec fn bunny_hopping_line(bhop: Option<SnapshotBunnyHopping>) -> Seq<char> {
    match bhop {
        Some(b) => "BHOP: "@ + (if b.enabled {
            "on"@
        } else {
            "off"@
        }) + "; timeout "@ + (if b.timeout_ms == 0 {
            "not configured"@
        } else {
            decimal(b.timeout_ms as nat) + " ms"@
        }) + "\n"@,
        None => ""@,
    }
}

fn push_battery_line(out: &mut String, battery: &Option<SnapshotBattery>)
    ensures
        final(out)@ == old(out)@ + battery_line(*battery),
{
    match battery {
        Some(b) => {
            let mut line = owned("Battery: ");
            push_decimal(&mut line, b.percentage as u64);
            push_str(&mut line, "% (");
            push_str(&mut line, b.status.as_str());
            push_str(&mut line, ", level code 0x");
            push_hex(&mut line, b.level_code as u64, 2);
            push_str(&mut line, ")\n");
            push_str(out, line.as_str());
        },
        None => push_str(out, "Battery: unsupported\n"),
    }
}

fn push_dpi_lines(out: &mut String, dpi: &Option<SnapshotDpi>, supported: &Option<Vec<u16>>)
    ensures
        final(out)@ == old(out)@ + dpi_lines(
            *dpi,
            match *supported {
                Some(v) => Some(v@),
                None => None,
            },
        ),
{
    match dpi {
        Some(d) => {
            let mut line = owned("DPI: X=");
            push_decimal(&mut line, d.current_x as u64);
            push_str(&mut line, " (default ");
            push_decimal(&mut line, d.default_x as u64);
            push_str(&mut line, "), Y=");
            let y = match d.current_y {
                Some(y) => Some(y as u64),
                None => None,
            };
            push_str(&mut line, optional_number(y).as_str());
            push_str(&mut line, ", LOD=");
            let lod = match d.lod {
                Some(l) => Some(l as u64),
                None => None,
            };
            push_str(&mut line, optional_number(lod).as_str());
            push_str(&mut line, "\n");
            push_str(&mut line, "DPI supported: ");
            match supported {
                Some(v) => push_str(&mut line, summarize_values(v, "").as_str()),
                None => push_str(&mut line, "<none>"),
            }
            push_str(&mut line, "\n");
            push_str(out, line.as_str());
        },
        None => push_str(out, "DPI: unsupported\n"),
    }
}

fn push_polling_line(out: &mut String, label: &str, hz: u16, supported: &Vec<u16>)
    ensures
        final(out)@ == old(out)@ + polling_line(label@, hz, supported@),
{
    let mut line = owned("Polling rate (");
    push_str(&mut line, label);
    push_str(&mut line, "): ");
    push_decimal(&mut line, hz as u64);
    push_str(&mut line, " Hz; supported ");
    push_str(&mut line, summarize_values(supported, " Hz").as_str());
    push_str(&mut line, "\n");
    push_str(out, line.as_str());
}

fn push_polling_lines(
    out: &mut String,
    capabilities: &PollingRateCapabilities,
    settings: &PollingRateState,
) -> (r: bool)
    ensures
        r == polling_lines(*capabilities, *settings) is Some,
        match polling_lines(*capabilities, *settings) {
            Some(t) => final(out)@ == old(out)@ + t,
            None => final(out)@ == old(out)@,
        },
{
    match (capabilities, settings) {
        (PollingRateCapabilities::Shared { supported_hz }, PollingRateState::Shared { hz }) => {
            push_polling_line(out, "shared", *hz, supported_hz);
            true
        },
        (
            PollingRateCapabilities::PerConnection { wired_hz, wireless_hz },
            PollingRateState::PerConnection { wired_hz: wired, wireless_hz: wireless },
        ) => {
            let mut lines = String::new();
            push_polling_line(&mut lines, "wired", *wired, wired_hz);
            assert(lines@ =~= polling_line("wired"@, *wired, wired_hz@));
            push_polling_line(&mut lines, "wireless", *wireless, wireless_hz);
            push_str(out, lines.as_str());
            true
        },
        (PollingRateCapabilities::Unsupported, PollingRateState::Unsupported) => {
            push_str(out, "Polling rate: unsupported\n");
            true
        },
        _ => false,
    }
}

fn push_mode_lines(out: &mut String, mode: &Option<SnapshotMode>)
    ensures
        final(out)@ == old(out)@ + mode_lines(*mode),
{
    match mode {
        Some(m) => {
            let mut line = owned("Operating mode: ");
            if m.performance {
                push_str(&mut line, "performance");
            } else {
                push_str(&mut line, "endurance");
            }
            push_str(&mut line, " (status 0x");
            push_hex(&mut line, m.status0 as u64, 2);
            push_str(&mut line, ":0x");
            push_hex(&mut line, m.status1 as u64, 2);
            push_str(&mut line, ", capabilities 0x");
            push_hex(&mut line, m.capabilities as u64, 2);
            push_str(&mut line, ":0x");
            push_hex(&mut line, m.capabilities1 as u64, 2);
            push_str(&mut line, ")\n");
            match &m.surface_mode {
                Some(surface) => {
                    let mut tail = owned("Surface mode: ");
                    push_str(&mut tail, surface.as_str());
                    push_str(&mut tail, "\n");
                    push_str(&mut line, tail.as_str());
                },
                None => push_str(&mut line, ""),
            }
            push_str(out, line.as_str());
        },
        None => push_str(out, ""),
    }
}

fn push_bunny_hopping_line(out: &mut String, bhop: &Option<SnapshotBunnyHopping>)
    ensures
        final(out)@ == old(out)@ + bunny_hopping_line(*bhop),
{
    match bhop {
        Some(b) => {
            let mut line = owned("BHOP: ");
            if b.enabled {
                push_str(&mut line, "on");
            } else {
                push_str(&mut line, "off");
            }
            push_str(&mut line, "; timeout ");
            if b.timeout_ms == 0 {
                push_str(&mut line, "not configured");
            } else {
                let mut t = String::new();
                push_decimal(&mut t, b.timeout_ms as u64);
                push_str(&mut t, " ms");
                assert(t@ =~= decimal(b.timeout_ms as nat) + " ms"@);
                push_str(&mut line, t.as_str());
            }
            push_str(&mut line, "\n");
            push_str(out, line.as_str());
        },
        None => push_str(out, ""),
    }
}

// ---------------------------------------------------------------------------
// Lighting
// ---------------------------------------------------------------------------

/// One lighting effect a zone offers.
#[derive(Clone, Debug, PartialEq, Eq)]
pub struct LedEffect {
    pub index: u8,
    pub name: String,
    pub capabilities: u16,
    pub period_ms: u16,
}

/// One lighting zone.
#[derive(Clone, Debug, PartialEq, Eq)]
pub struct LedZone {
    pub index: u8,
    pub location: u16,
    pub persistency_capabilities: u8,
    pub current_effect_index: Option<u8>,
    pub effects: Vec<LedEffect>,
}

/// The lighting a device reports.
#[derive(Clone, Debug, PartialEq, Eq)]
pub struct SnapshotLighting {
    pub zone_count: u8,
    pub nv_capabilities: u16,
    pub extended_capabilities: u16,
    pub software_control: Option<bool>,
    pub zones: Vec<LedZone>,
}

/// The first effect in `effects` with the index `index`.
pub open spec fn effect_with_index(effects: Seq<LedEffect>, index: u8) -> Option<LedEffect>
    decreases effects.len(),
{
    if effects.len() == 0 {
        None
    } else if effects[0].index == index {
        Some(effects[0])
    } else {
        effect_with_index(effects.drop_first(), index)
    }
}

/// The current effect of a zone: its name and index, its index alone when no
/// listed effect has it, or `unknown`.
pub open spec fn current_effect_text(zone: LedZone) -> Seq<char> {
    match zone.current_effect_index {
        None => "unknown"@,
        Some(i) => match effect_with_index(zone.effects@, i) {
            Some(e) => e.name@ + " (index "@ + decimal(i as nat) + ")"@,
            None => "index "@ + decimal(i as nat),
        },
    }
}

/// How an effect is listed.
pub open spec fn effect_text(e: LedEffect) -> Seq<char> {
    decimal(e.index as nat) + ":"@ + e.name@ + " caps 0x"@ + hex_fixed(e.capabilities as nat, 4) + " period "@
        + decimal(e.period_ms as nat) + " ms"@
}

/// The effects, separated by commas.
pub open spec fn effect_list(effects: Seq<LedEffect>) -> Seq<char>
    decreases effects.len(),
{
    if effects.len() == 0 {
        Seq::empty()
    } else if effects.len() == 1 {
        effect_text(effects[0])
    } else {
        effect_list(effects.drop_last()) + ", "@ + effect_text(effects.last())
    }
}

/// The two lines of a zone.
pub open spec fn zone_lines(zone: LedZone) -> Seq<char> {
    "  LED zone "@ + decimal(zone.index as nat) + " location 0x"@ + hex_fixed(zone.location as nat, 4)
        + ", persistence 0x"@ + hex_fixed(zone.persistency_capabilities as nat, 2) + ", current "@
        + current_effect_text(zone) + "\n"@ + "    Effects: "@ + effect_list(zone.effects@) + "\n"@
}

/// The lines of the zones, in order.
pub open spec fn zones_lines(zones: Seq<LedZone>) -> Seq<char>
    decreases zones.len(),
{
    if zones.len() == 0 {
        Seq::empty()
    } else {
        zones_lines(zones.drop_last()) + zone_lines(zones.last())
    }
}

/// The lighting lines, if the device reports its lighting.
pub open spec fn lighting_lines(lighting: Option<SnapshotLighting>) -> Seq<char> {
    match lighting {
        Some(l) => "Lighting: "@ + decimal(l.zone_count as nat) + " zone(s), NV capabilities 0x"@ + hex_fixed(
            l.nv_capabilities as nat,
            4,
        ) + ", extended capabilities 0x"@ + hex_fixed(l.extended_capabilities as nat, 4) + ", control "@
            + (match l.software_control {
            None => "unknown"@,
            Some(true) => "software"@,
            Some(false) => "firmware"@,
        }) + "\n"@ + zones_lines(l.zones@),
        None => ""@,
    }
}

fn find_effect(effects: &Vec<LedEffect>, index: u8) -> (r: Option<usize>)
    ensures
        match effect_with_index(effects@, index) {
            Some(e) => r matches Some(k) && k < effects.len() && effects@[k as int] == e,
            None => r is None,
        },
{
    let mut k: usize = 0;
    assert(effects@.skip(0) =~= effects@);
    while k < effects.len()
        invariant
            k <= effects.len(),
            effect_with_index(effects@, index) == effect_with_index(effects@.skip(k as int), index),
        decreases effects.len() - k,
    {
        proof {
            assert(effects@.skip(k as int)[0] == effects@[k as int]);
            assert(effects@.skip(k as int).drop_first() =~= effects@.skip(k as int + 1));
        }
        if effects[k].index == index {
            return Some(k);
        }
        k += 1;
    }
    proof {
        assert(effects@.skip(k as int).len() == 0);
    }
    None
}

fn push_effect_text(out: &mut String, e: &LedEffect)
    ensures
        final(out)@ == old(out)@ + effect_text(*e),
{
    let mut t = String::new();
    push_decimal(&mut t, e.index as u64);
    assert(t@ =~= decimal(e.index as nat));
    push_str(&mut t, ":");
    push_str(&mut t, e.name.as_str());
    push_str(&mut t, " caps 0x");
    push_hex(&mut t, e.capabilities as u64, 4);
    push_str(&mut t, " period ");
    push_decimal(&mut t, e.period_ms as u64);
    push_str(&mut t, " ms");
    push_str(out, t.as_str());
}

fn push_zone_lines(out: &mut String, zone: &LedZone)
    ensures
        final(out)@ == old(out)@ + zone_lines(*zone),
{
    let mut current = String::new();
    match zone.current_effect_index {
        None => push_str(&mut current, "unknown"),
        Some(i) => match find_effect(&zone.effects, i) {
            Some(k) => {
                push_str(&mut current, zone.effects[k].name.as_str());
                push_str(&mut current, " (index ");
                push_decimal(&mut current, i as u64);
                push_str(&mut current, ")");
            },
            None => {
                push_str(&mut current, "index ");
                push_decimal(&mut current, i as u64);
            },
        },
    }
    assert(current@ =~= current_effect_text(*zone));
    let mut effects = String::new();
    let mut k: usize = 0;
    while k < zone.effects.len()
        invariant
            k <= zone.effects.len(),
            effects@ == effect_list(zone.effects@.take(k as int)),
        decreases zone.effects.len() - k,
    {
        proof {
            assert(zone.effects@.take(k as int + 1).drop_last() =~= zone.effects@.take(k as int));
        }
        if k > 0 {
            push_str(&mut effects, ", ");
        } else {
            assert(effects@ =~= Seq::<char>::empty());
        }
        push_effect_text(&mut effects, &zone.effects[k]);
        proof {
            if k == 0 {
                assert(zone.effects@.take(1)[0] == zone.effects@[0]);
            } else {
                assert(zone.effects@.take(k as int + 1).last() == zone.effects@[k as int]);
            }
        }
        k += 1;
    }
    assert(zone.effects@.take(zone.effects.len() as int) =~= zone.effects@);
    let mut lines = owned("  LED zone ");
    push_decimal(&mut lines, zone.index as u64);
    push_str(&mut lines, " location 0x");
    push_hex(&mut lines, zone.location as u64, 4);
    push_str(&mut lines, ", persistence 0x");
    push_hex(&mut lines, zone.persistency_capabilities as u64, 2);
    push_str(&mut lines, ", current ");
    push_str(&mut lines, current.as_str());
    push_str(&mut lines, "\n");
    push_str(&mut lines, "    Effects: ");
    push_str(&mut lines, effects.as_str());
    push_str(&mut lines, "\n");
    push_str(out, lines.as_str());
}

fn push_lighting_lines(out: &mut String, lighting: &Option<SnapshotLighting>)
    ensures
        final(out)@ == old(out)@ + lighting_lines(*lighting),
{
    match lighting {
        Some(l) => {
            let mut text = owned("Lighting: ");
            push_decimal(&mut text, l.zone_count as u64);
            push_str(&mut text, " zone(s), NV capabilities 0x");
            push_hex(&mut text, l.nv_capabilities as u64, 4);
            push_str(&mut text, ", extended capabilities 0x");
            push_hex(&mut text, l.extended_capabilities as u64, 4);
            push_str(&mut text, ", control ");
            match l.software_control {
                None => push_str(&mut text, "unknown"),
                Some(true) => push_str(&mut text, "software"),
                Some(false) => push_str(&mut text, "firmware"),
            }
            push_str(&mut text, "\n");
            let mut zones = String::new();
            let mut i: usize = 0;
            while i < l.zones.len()
                invariant
                    i <= l.zones.len(),
                    zones@ == zones_lines(l.zones@.take(i as int)),
                decreases l.zones.len() - i,
            {
                proof {
                    assert(l.zones@.take(i as int + 1).drop_last() =~= l.zones@.take(i as int));
                }
                push_zone_lines(&mut zones, &l.zones[i]);
                i += 1;
            }
            assert(l.zones@.take(l.zones.len() as int) =~= l.zones@);
            push_str(&mut text, zones.as_str());
            push_str(out, text.as_str());
        },
        None => push_str(out, ""),
    }
}

// ---------------------------------------------------------------------------
// Profiles, button mapping, configuration source
// ---------------------------------------------------------------------------

/// How a device stores onboard profiles.
#[derive(Clone, Copy, Debug, PartialEq, Eq)]
pub struct ProfileStorage {
    pub memory_model_id: u8,
    pub profile_format_id: u8,
    pub macro_format_id: u8,
    pub profile_count: u8,
    pub factory_profile_count: u8,
    pub button_count: u8,
    pub sector_count: u16,
    pub sector_size: u16,
}

/// The profile-storage line, if the device describes its storage.
pub open spec fn profile_storage_line(storage: Option<ProfileStorage>) -> Seq<char> {
    match storage {
        Some(p) => "Onboard profile storage: memory 0x"@ + hex_fixed(p.memory_model_id as nat, 2)
            + ", format 0x"@ + hex_fixed(p.profile_format_id as nat, 2) + ", macro 0x"@ + hex_fixed(
            p.macro_format_id as nat,
            2,
        ) + "; "@ + decimal(p.profile_count as nat) + " writable + "@ + decimal(
            p.factory_profile_count as nat,
        ) + " factory profiles, "@ + decimal(p.button_count as nat) + " buttons, "@ + decimal(
            p.sector_count as nat,
        ) + " sectors of "@ + decimal(p.sector_size as nat) + " bytes\n"@,
        None => ""@,
    }
}

/// One entry of the host button mapping: the physical button, counted from
/// one, and the button it is mapped to.
pub open spec fn mapping_entry(position: int, mapped: u8) -> Seq<char> {
    decimal((position + 1) as nat) + "->"@ + decimal(mapped as nat)
}

/// The host button mapping, separated by commas.
pub open spec fn mapping_list(mapping: Seq<u8>) -> Seq<char>
    decreases mapping.len(),
{
    if mapping.len() == 0 {
        Seq::empty()
    } else if mapping.len() == 1 {
        mapping_entry(0, mapping[0])
    } else {
        mapping_list(mapping.drop_last()) + ", "@ + mapping_entry(mapping.len() - 1, mapping.last())
    }
}

/// The host button mapping line, if the device has one.
pub open spec fn mapping_line(mapping: Option<Seq<u8>>) -> Seq<char> {
    match mapping {
        Some(m) => "Host button mapping: "@ + mapping_list(m) + "\n"@,
        None => ""@,
    }
}

/// The configuration-source line.
pub open spec fn configuration_line(source: Option<ConfigurationSource>) -> Seq<char> {
    match source {
        Some(ConfigurationSource::Host) => "Configuration source: host/local settings\n"@,
        Some(ConfigurationSource::Onboard { active_profile }) => "Configuration source: onboard profile "@
            + (match active_profile {
            Some(sector) => "0x"@ + hex_fixed(sector as nat, 4),
            None => "unknown"@,
        }) + "\n"@,
        Some(ConfigurationSource::Unknown { raw_mode }) => "Configuration source: unknown mode 0x"@
            + hex_fixed(raw_mode as nat, 2) + "\n"@,
        None => "Configuration source: profile control unsupported\n"@,
    }
}

fn push_profile_storage_line(out: &mut String, storage: &Option<ProfileStorage>)
    ensures
        final(out)@ == old(out)@ + profile_storage_line(*storage),
{
    match storage {
        Some(p) => {
            let mut line = owned("Onboard profile storage: memory 0x");
            push_hex(&mut line, p.memory_model_id as u64, 2);
            push_str(&mut line, ", format 0x");
            push_hex(&mut line, p.profile_format_id as u64, 2);
            push_str(&mut line, ", macro 0x");
            push_hex(&mut line, p.macro_format_id as u64, 2);
            push_str(&mut line, "; ");
            push_decimal(&mut line, p.profile_count as u64);
            push_str(&mut line, " writable + ");
            push_decimal(&mut line, p.factory_profile_count as u64);
            push_str(&mut line, " factory profiles, ");
            push_decimal(&mut line, p.button_count as u64);
            push_str(&mut line, " buttons, ");
            push_decimal(&mut line, p.sector_count as u64);
            push_str(&mut line, " sectors of ");
            push_decimal(&mut line, p.sector_size as u64);
            push_str(&mut line, " bytes\n");
            push_str(out, line.as_str());
        },
        None => push_str(out, ""),
    }
}

fn push_mapping_line(out: &mut String, mapping: &Option<Vec<u8>>)
    ensures
        final(out)@ == old(out)@ + mapping_line(
            match *mapping {
                Some(m) => Some(m@),
                None => None,
            },
        ),
{
    match mapping {
        Some(m) => {
            let mut list = String::new();
            let mut k: usize = 0;
            while k < m.len()
                invariant
                    k <= m.len(),
                    list@ == mapping_list(m@.take(k as int)),
                decreases m.len() - k,
            {
                proof {
                    assert(m@.take(k as int + 1).drop_last() =~= m@.take(k as int));
                }
                let mut entry = String::new();
                push_decimal(&mut entry, k as u64 + 1);
                push_str(&mut entry, "->");
                push_decimal(&mut entry, m[k] as u64);
                assert(entry@ =~= mapping_entry(k as int, m@[k as int]));
                if k > 0 {
                    push_str(&mut list, ", ");
                    push_str(&mut list, entry.as_str());
                    assert(m@.take(k as int + 1).last() == m@[k as int]);
                } else {
                    push_str(&mut list, entry.as_str());
                    assert(list@ =~= entry@);
                    assert(m@.take(1)[0] == m@[0]);
                }
                k += 1;
            }
            assert(m@.take(m.len() as int) =~= m@);
            let mut line = owned("Host button mapping: ");
            push_str(&mut line, list.as_str());
            push_str(&mut line, "\n");
            push_str(out, line.as_str());
        },
        None => push_str(out, ""),
    }
}

fn push_configuration_line(out: &mut String, source: &Option<ConfigurationSource>)
    ensures
        final(out)@ == old(out)@ + configuration_line(*source),
{
    match source {
        Some(ConfigurationSource::Host) => push_str(out, "Configuration source: host/local settings\n"),
        Some(ConfigurationSource::Onboard { active_profile }) => {
            let mut line = owned("Configuration source: onboard profile ");
            match active_profile {
                Some(sector) => {
                    let mut t = owned("0x");
                    push_hex(&mut t, *sector as u64, 4);
                    push_str(&mut line, t.as_str());
                },
                None => push_str(&mut line, "unknown"),
            }
            push_str(&mut line, "\n");
            push_str(out, line.as_str());
        },
        Some(ConfigurationSource::Unknown { raw_mode }) => {
            let mut line = owned("Configuration source: unknown mode 0x");
            push_hex(&mut line, *raw_mode as u64, 2);
            push_str(&mut line, "\n");
            push_str(out, line.as_str());
        },
        None => push_str(out, "Configuration source: profile control unsupported\n"),
    }
}

// ---------------------------------------------------------------------------
// The report
// ---------------------------------------------------------------------------

/// What was read from a mouse for its report.
#[derive(Clone, Debug, PartialEq, Eq)]
pub struct MouseSnapshot {
    pub metadata: Option<SnapshotMetadata>,
    pub battery: Option<SnapshotBattery>,
    pub dpi: Option<SnapshotDpi>,
    pub supported_dpi: Option<Vec<u16>>,
    pub polling_rates: PollingRateCapabilities,
    pub polling_rate: PollingRateState,
    pub mode: Option<SnapshotMode>,
    pub bunny_hopping: Option<SnapshotBunnyHopping>,
    pub lighting: Option<SnapshotLighting>,
    pub profile_storage: Option<ProfileStorage>,
    pub button_mapping: Option<Vec<u8>>,
    pub configuration_source: Option<ConfigurationSource>,
}

/// A list of values by its values, if there is one.
pub open spec fn values_view(v: Option<Vec<u16>>) -> Option<Seq<u16>> {
    match v {
        Some(x) => Some(x@),
        None => None,
    }
}

/// A byte list by its values, if there is one.
pub open spec fn byte_values_view(v: Option<Vec<u8>>) -> Option<Seq<u8>> {
    match v {
        Some(x) => Some(x@),
        None => None,
    }
}

/// The report up to the polling rate.
pub open spec fn report_head(s: MouseSnapshot) -> Seq<char> {
    (match s.metadata {
        Some(m) => metadata_lines(m),
        None => ""@,
    }) + battery_line(s.battery) + dpi_lines(s.dpi, values_view(s.supported_dpi))
}

/// The report after the polling rate.
pub open spec fn report_tail(s: MouseSnapshot) -> Seq<char> {
    mode_lines(s.mode) + bunny_hopping_line(s.bunny_hopping) + lighting_lines(s.lighting)
        + profile_storage_line(s.profile_storage) + mapping_line(byte_values_view(s.button_mapping))
        + configuration_line(s.configuration_source)
}

/// The report of a mouse, and the error that cut it short: when the polling
/// capability and setting are of different kinds, the report ends before the
/// polling rate with that error.
pub open spec fn snapshot_text_of(s: MouseSnapshot) -> (Seq<char>, Option<Seq<char>>) {
    match polling_lines(s.polling_rates, s.polling_rate) {
        Some(p) => (report_head(s) + p + report_tail(s), None),
        None => (report_head(s), Some(inconsistent_polling_text())),
    }
}

/// Writes the report of a mouse: the text, and the error that cut it short,
/// if any.
pub fn snapshot_text(s: &MouseSnapshot) -> (r: (String, Option<String>))
    ensures
        r.0@ == snapshot_text_of(*s).0,
        match snapshot_text_of(*s).1 {
            Some(e) => r.1 matches Some(m) && m@ == e,
            None => r.1 is None,
        },
{
    let mut head = String::new();
    match &s.metadata {
        Some(m) => push_metadata_lines(&mut head, m),
        None => push_str(&mut head, ""),
    }
    assert(head@ =~= match s.metadata {
        Some(m) => metadata_lines(m),
        None => ""@,
    });
    push_battery_line(&mut head, &s.battery);
    push_dpi_lines(&mut head, &s.dpi, &s.supported_dpi);
    let consistent = push_polling_lines(&mut head, &s.polling_rates, &s.polling_rate);
    if !consistent {
        return (head, Some(owned("inconsistent polling-rate capability and settings representations")));
    }
    let mut tail = String::new();
    push_mode_lines(&mut tail, &s.mode);
    assert(tail@ =~= mode_lines(s.mode));
    push_bunny_hopping_line(&mut tail, &s.bunny_hopping);
    push_lighting_lines(&mut tail, &s.lighting);
    push_profile_storage_line(&mut tail, &s.profile_storage);
    push_mapping_line(&mut tail, &s.button_mapping);
    push_configuration_line(&mut tail, &s.configuration_source);
    push_str(&mut head, tail.as_str());
    (head, None)
}

} // verus!
