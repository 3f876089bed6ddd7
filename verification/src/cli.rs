//! The command-line client: its argument values, their parsers, and the
//! requests that each command sends to the agent.
use vstd::prelude::*;

use crate::int_parse::{
    digit_text, lemma_digit_text_digits, lemma_digit_text_unsigned, lemma_scan_digit_text,
    parse_u16_radix, parse_u8_radix, parse_uint, IntErrorKind,
};
use crate::protocol::{
    Connection, LiftOffDistance, LightingEffect, OperatingMode, RequestCommand, RgbColor,
    SurfaceMode,
};
use crate::text::{
    byte_len, char_index_at_byte, chars_of, contains, contains_chars, decimal, has_prefix, owned, slice,
    strip_prefix,
};

verus! {

#[derive(Clone, Copy, Debug, PartialEq, Eq, Structural)]
pub enum OutputFormat {
    Human,
    Json,
}

#[derive(Clone, Copy, Debug, PartialEq, Eq, Structural)]
pub enum Toggle {
    On,
    Off,
}

impl Toggle {
    /// Whether the toggle is on.
    pub fn enabled(self) -> (r: bool)
        ensures
            r == (self == Toggle::On),
    {
        match self {
            Toggle::On => true,
            Toggle::Off => false,
        }
    }
}

#[derive(Clone, Copy, Debug, PartialEq, Eq, Structural)]
pub enum ConnectionChoice {
    Wired,
    Wireless,
}

#[derive(Clone, Copy, Debug, PartialEq, Eq, Structural)]
pub enum LiftOffDistanceChoice {
    Low,
    Medium,
    High,
}

#[derive(Clone, Copy, Debug, PartialEq, Eq, Structural)]
pub enum SurfaceModeChoice {
    On,
    Automatic,
    Off,
}

#[derive(Clone, Copy, Debug, PartialEq, Eq, Structural)]
pub enum OperatingModeChoice {
    Performance,
    Endurance,
}

/// `device set lighting ...`.
#[derive(Clone, Copy, Debug, PartialEq, Eq, Structural)]
pub enum LightingCommand {
    Off,
    Fixed { color: RgbColor },
    Cycling { period_ms: u16, brightness: u8 },
    Breathing { color: RgbColor, period_ms: u16, brightness: u8 },
}

/// `device set <setting>`.
#[derive(Clone, Copy, Debug, PartialEq, Eq, Structural)]
pub enum SettingCommand {
    Dpi { dpi: u16 },
    PollingRate { hz: u16, connection: ConnectionChoice, disable_onboard_profiles: bool },
    LiftOffDistance { lod: LiftOffDistanceChoice },
    SurfaceMode { mode: SurfaceModeChoice },
    OperatingMode { mode: OperatingModeChoice },
    Bhop { state: Toggle, window_ms: u16 },
    Lighting { effect: LightingCommand },
}

/// `device use <mode>`.
#[derive(Clone, Copy, Debug, PartialEq, Eq, Structural)]
pub enum UseCommand {
    FirmwareLighting,
    HostSettings,
    OnboardProfile { sector: u16 },
}

/// `device set [selector] <setting>`.
#[derive(Clone, Debug, PartialEq, Eq)]
pub struct DeviceSetArgs {
    pub selector: Option<String>,
    pub setting: SettingCommand,
}

/// `device use [selector] <mode>`.
#[derive(Clone, Debug, PartialEq, Eq)]
pub struct DeviceUseArgs {
    pub selector: Option<String>,
    pub mode: UseCommand,
}

// ---------------------------------------------------------------------------
// Colour and sector arguments
// ---------------------------------------------------------------------------

/// `value` without one leading `#`.
pub open spec fn strip_hash(value: Seq<char>) -> Seq<char> {
    if value.len() > 0 && value[0] == '#' {
        value.drop_first()
    } else {
        value
    }
}

/// One colour component written as hexadecimal digits.
pub open spec fn hex_component(s: Seq<char>) -> Option<u8> {
    match parse_uint(s, 16, 255) {
        Ok(v) => Some(v as u8),
        Err(_) => None,
    }
}

pub open spec fn rgb_length_error() -> Seq<char> {
    "color must be exactly six hexadecimal digits (RRGGBB)"@
}

/// The colour of three components, or the message for the first invalid one.
pub open spec fn rgb_from_parts(red: Seq<char>, green: Seq<char>, blue: Seq<char>) -> Result<
    RgbColor,
    Seq<char>,
> {
    match (hex_component(red), hex_component(green), hex_component(blue)) {
        (None, _, _) => Err("invalid red component"@),
        (Some(_), None, _) => Err("invalid green component"@),
        (Some(_), Some(_), None) => Err("invalid blue component"@),
        (Some(r), Some(g), Some(b)) => Ok(RgbColor { red: r, green: g, blue: b }),
    }
}

/// Whether the byte offsets 2 and 4 of a six-byte colour fall between characters,
/// so that the text can be cut into its three components.
pub open spec fn rgb_cuttable(v: Seq<char>) -> bool {
    byte_len(v) == 6 ==> exists|k2: int, k4: int|
        0 <= k2 <= k4 <= v.len() && byte_len(#[trigger] v.take(k2)) == 2 && byte_len(
            #[trigger] v.take(k4),
        ) == 4
}

/// Parses an `RRGGBB` or `#RRGGBB` colour.
///
/// A text of six bytes whose second or fourth byte boundary falls inside a
/// character is left out: the component slicing would panic on it.
pub fn parse_rgb(value: &str) -> (r: Result<RgbColor, String>)
    requires
        rgb_cuttable(strip_hash(value@)),
    ensures
        byte_len(strip_hash(value@)) != 6 ==> (r matches Err(m) && m@ == rgb_length_error()),
        byte_len(strip_hash(value@)) == 6 ==> forall|k2: int, k4: int|
            0 <= k2 <= k4 <= strip_hash(value@).len() && byte_len(
                #[trigger] strip_hash(value@).take(k2),
            ) == 2 && byte_len(#[trigger] strip_hash(value@).take(k4)) == 4 ==> match rgb_from_parts(
                strip_hash(value@).take(k2),
                strip_hash(value@).subrange(k2, k4),
                strip_hash(value@).skip(k4),
            ) {
                Ok(c) => r == Ok::<RgbColor, String>(c),
                Err(m) => r matches Err(e) && e@ == m,
            },
{
    let all = chars_of(value);
    let hash = chars_of("#");
    proof {
        reveal_strlit("#");
    }
    let v = match strip_prefix(&all, &hash) {
        Some(rest) => rest,
        None => all,
    };
    proof {
        assert(hash@ =~= seq!['#']);
        if all@.len() > 0 && all@[0] == '#' {
            assert(all@.take(1) =~= seq!['#']);
            assert(has_prefix(all@, hash@));
            assert(all@.skip(1) =~= all@.drop_first());
        } else if has_prefix(all@, hash@) {
            assert(all@.take(1)[0] == all@[0]);
        }
    }
    assert(v@ == strip_hash(value@));
    let k2 = char_index_at_byte(&v, 2);
    let k4 = char_index_at_byte(&v, 4);
    proof {
        assert(v@.take(v@.len() as int) =~= v@);
    }
    if !six_bytes(&v) {
        return Err(owned("color must be exactly six hexadecimal digits (RRGGBB)"));
    }
    let (a, b) = match (k2, k4) {
        (Some(a), Some(b)) => (a, b),
        _ => {
            proof {
                let w2 = choose|k2: int, k4: int|
                    0 <= k2 <= k4 <= v@.len() && byte_len(#[trigger] v@.take(k2)) == 2 && byte_len(
                        #[trigger] v@.take(k4),
                    ) == 4;
                assert(byte_len(v@.take(w2.0)) == 2);
                assert(byte_len(v@.take(w2.1)) == 4);
            }
            return Err(owned("color must be exactly six hexadecimal digits (RRGGBB)"));
        },
    };
    proof {
        lemma_cut_positions(v@, a as int, b as int);
    }
    let red_text = slice(&v, 0, a);
    let green_text = slice(&v, a, b);
    let blue_text = slice(&v, b, v.len());
    assert(red_text@ == v@.take(a as int));
    assert(blue_text@ == v@.skip(b as int));
    let red = match parse_u8_radix(&red_text, 16) {
        Ok(x) => x,
        Err(_) => return Err(owned("invalid red component")),
    };
    let green = match parse_u8_radix(&green_text, 16) {
        Ok(x) => x,
        Err(_) => return Err(owned("invalid green component")),
    };
    let blue = match parse_u8_radix(&blue_text, 16) {
        Ok(x) => x,
        Err(_) => return Err(owned("invalid blue component")),
    };
    Ok(RgbColor { red, green, blue })
}

/// Whether `v` is exactly six bytes long in UTF-8.
fn six_bytes(v: &Vec<char>) -> (r: bool)
    ensures
        r == (byte_len(v@) == 6),
{
    match char_index_at_byte(v, 6) {
        Some(k) => {
            if k == v.len() {
                assert(v@.take(k as int) =~= v@);
                proof {
                    if byte_len(v@) < 6 {
                    }
                }
                !is_short(v, k)
            } else {
                proof {
                    lemma_prefix_shorter(v@, k as int);
                }
                false
            }
        },
        None => {
            assert(v@.take(v@.len() as int) =~= v@);
            false
        },
    }
}

/// Whether the whole text is shorter than six bytes, given that scanning for
/// byte six stopped at its end.
fn is_short(v: &Vec<char>, k: usize) -> (r: bool)
    requires
        k == v.len(),
        byte_len(v@.take(k as int)) == 6 || byte_len(v@) < 6,
    ensures
        r == (byte_len(v@) < 6),
{
    assert(v@.take(k as int) =~= v@);
    let mut total: usize = 0;
    let mut i: usize = 0;
    assert(v@.take(0) =~= Seq::<char>::empty());
    while i < v.len() && total < 6
        invariant
            i <= v.len(),
            total == byte_len(v@.take(i as int)),
            total <= 9,
        decreases v.len() - i,
    {
        assert(v@.take(i as int + 1).drop_last() =~= v@.take(i as int));
        total = total + crate::text::width_of(v[i]);
        i += 1;
    }
    proof {
        if i < v.len() {
            lemma_prefix_ge(v@, i as int);
        } else {
            assert(v@.take(i as int) =~= v@);
        }
    }
    total < 6
}

proof fn lemma_prefix_ge(s: Seq<char>, k: int)
    requires
        0 <= k <= s.len(),
    ensures
        byte_len(s) >= byte_len(s.take(k)),
    decreases s.len() - k,
{
    if k < s.len() {
        lemma_prefix_ge(s, k + 1);
        assert(s.take(k + 1).drop_last() =~= s.take(k));
    } else {
        assert(s.take(k) =~= s);
    }
}

/// A proper prefix with six bytes leaves more bytes after it.
proof fn lemma_prefix_shorter(s: Seq<char>, k: int)
    requires
        0 <= k < s.len(),
    ensures
        byte_len(s) > byte_len(s.take(k)),
{
    lemma_prefix_ge(s, k + 1);
    assert(s.take(k + 1).drop_last() =~= s.take(k));
}

/// The cut positions found by scanning are the only ones.
proof fn lemma_cut_positions(v: Seq<char>, a: int, b: int)
    requires
        0 <= a <= v.len(),
        0 <= b <= v.len(),
        byte_len(v) == 6,
        byte_len(v.take(a)) == 2 || (a == v.len() && byte_len(v) < 2),
        byte_len(v.take(b)) == 4 || (b == v.len() && byte_len(v) < 4),
    ensures
        byte_len(v.take(a)) == 2,
        byte_len(v.take(b)) == 4,
        a <= b,
        forall|k: int| 0 <= k <= v.len() && byte_len(#[trigger] v.take(k)) == 2 ==> k == a,
        forall|k: int| 0 <= k <= v.len() && byte_len(#[trigger] v.take(k)) == 4 ==> k == b,
{
    assert forall|k: int| 0 <= k <= v.len() && byte_len(#[trigger] v.take(k)) == 2 implies k
        == a by {
        if k < a {
            lemma_prefix_strict(v, k, a);
        } else if a < k {
            lemma_prefix_strict(v, a, k);
        }
    }
    assert forall|k: int| 0 <= k <= v.len() && byte_len(#[trigger] v.take(k)) == 4 implies k
        == b by {
        if k < b {
            lemma_prefix_strict(v, k, b);
        } else if b < k {
            lemma_prefix_strict(v, b, k);
        }
    }
    if b < a {
        lemma_prefix_strict(v, b, a);
    }
}

/// Strictly longer prefixes have strictly more bytes.
proof fn lemma_prefix_strict(v: Seq<char>, i: int, j: int)
    requires
        0 <= i <= v.len(),
        0 <= j <= v.len(),
        i < j,
    ensures
        byte_len(v.take(i)) < byte_len(v.take(j)),
    decreases j - i,
{
    assert(v.take(j).drop_last() =~= v.take(j - 1));
    if i < j - 1 {
        lemma_prefix_strict(v, i, j - 1);
    }
}

/// The radix and digits of a sector argument: hexadecimal after `0x` or `0X`.
pub open spec fn sector_digits(value: Seq<char>) -> (nat, Seq<char>) {
    if has_prefix(value, "0x"@) || has_prefix(value, "0X"@) {
        (16, value.skip(2))
    } else {
        (10, value)
    }
}

/// Parses an onboard profile sector, decimal or `0x`-prefixed hexadecimal.
pub fn parse_sector(value: &str) -> (r: Result<u16, String>)
    ensures
        match parse_uint(sector_digits(value@).1, sector_digits(value@).0, 0xffff) {
            Ok(n) => r == Ok::<u16, String>(n as u16),
            Err(_) => r matches Err(m) && m@ == "sector must be a u16 decimal or hexadecimal value"@,
        },
{
    let v = chars_of(value);
    let lower = chars_of("0x");
    let upper = chars_of("0X");
    proof {
        reveal_strlit("0x");
        reveal_strlit("0X");
    }
    let (radix, digits) = match strip_prefix(&v, &lower) {
        Some(rest) => (16u32, rest),
        None => match strip_prefix(&v, &upper) {
            Some(rest) => (16u32, rest),
            None => (10u32, v),
        },
    };
    match parse_u16_radix(&digits, radix) {
        Ok(n) => Ok(n),
        Err(_) => Err(owned("sector must be a u16 decimal or hexadecimal value")),
    }
}

// ---------------------------------------------------------------------------
// Requests
// ---------------------------------------------------------------------------

pub open spec fn connection_of(value: ConnectionChoice) -> Connection {
    match value {
        ConnectionChoice::Wired => Connection::Wired,
        ConnectionChoice::Wireless => Connection::Wireless,
    }
}

pub open spec fn lod_of(value: LiftOffDistanceChoice) -> LiftOffDistance {
    match value {
        LiftOffDistanceChoice::Low => LiftOffDistance::Low,
        LiftOffDistanceChoice::Medium => LiftOffDistance::Medium,
        LiftOffDistanceChoice::High => LiftOffDistance::High,
    }
}

pub open spec fn surface_of(value: SurfaceModeChoice) -> SurfaceMode {
    match value {
        SurfaceModeChoice::On => SurfaceMode::On,
        SurfaceModeChoice::Automatic => SurfaceMode::Automatic,
        SurfaceModeChoice::Off => SurfaceMode::Off,
    }
}

pub open spec fn operating_of(value: OperatingModeChoice) -> OperatingMode {
    match value {
        OperatingModeChoice::Performance => OperatingMode::Performance,
        OperatingModeChoice::Endurance => OperatingMode::Endurance,
    }
}

pub open spec fn effect_of(value: LightingCommand) -> LightingEffect {
    match value {
        LightingCommand::Off => LightingEffect::Disabled,
        LightingCommand::Fixed { color } => LightingEffect::Fixed { color },
        LightingCommand::Cycling { period_ms, brightness } => LightingEffect::Cycling {
            period_ms,
            brightness,
        },
        LightingCommand::Breathing { color, period_ms, brightness } => LightingEffect::Breathing {
            color,
            period_ms,
            brightness,
        },
    }
}

pub fn connection_to_protocol(value: ConnectionChoice) -> (r: Connection)
    ensures
        r == connection_of(value),
{
    match value {
        ConnectionChoice::Wired => Connection::Wired,
        ConnectionChoice::Wireless => Connection::Wireless,
    }
}

pub fn lod_to_protocol(value: LiftOffDistanceChoice) -> (r: LiftOffDistance)
    ensures
        r == lod_of(value),
{
    match value {
        LiftOffDistanceChoice::Low => LiftOffDistance::Low,
        LiftOffDistanceChoice::Medium => LiftOffDistance::Medium,
        LiftOffDistanceChoice::High => LiftOffDistance::High,
    }
}

pub fn surface_to_protocol(value: SurfaceModeChoice) -> (r: SurfaceMode)
    ensures
        r == surface_of(value),
{
    match value {
        SurfaceModeChoice::On => SurfaceMode::On,
        SurfaceModeChoice::Automatic => SurfaceMode::Automatic,
        SurfaceModeChoice::Off => SurfaceMode::Off,
    }
}

pub fn operating_to_protocol(value: OperatingModeChoice) -> (r: OperatingMode)
    ensures
        r == operating_of(value),
{
    match value {
        OperatingModeChoice::Performance => OperatingMode::Performance,
        OperatingModeChoice::Endurance => OperatingMode::Endurance,
    }
}

pub fn lighting_to_protocol(value: LightingCommand) -> (r: LightingEffect)
    ensures
        r == effect_of(value),
{
    match value {
        LightingCommand::Off => LightingEffect::Disabled,
        LightingCommand::Fixed { color } => LightingEffect::Fixed { color },
        LightingCommand::Cycling { period_ms, brightness } => LightingEffect::Cycling {
            period_ms,
            brightness,
        },
        LightingCommand::Breathing { color, period_ms, brightness } => LightingEffect::Breathing {
            color,
            period_ms,
            brightness,
        },
    }
}

/// The request that `device set` sends for the device `device_id`.
pub open spec fn setting_command(setting: SettingCommand, device_id: String) -> RequestCommand {
    match setting {
        SettingCommand::Dpi { dpi } => RequestCommand::SetDpi { device_id, dpi },
        SettingCommand::PollingRate { hz, connection, disable_onboard_profiles } =>
            RequestCommand::SetPollingRate {
            device_id,
            connection: connection_of(connection),
            hz,
            disable_onboard_profiles,
        },
        SettingCommand::LiftOffDistance { lod } => RequestCommand::SetLiftOffDistance {
            device_id,
            lod: lod_of(lod),
        },
        SettingCommand::SurfaceMode { mode } => RequestCommand::SetSurfaceMode {
            device_id,
            mode: surface_of(mode),
        },
        SettingCommand::OperatingMode { mode } => RequestCommand::SetOperatingMode {
            device_id,
            mode: operating_of(mode),
        },
        SettingCommand::Bhop { state, window_ms } => RequestCommand::SetBunnyHopping {
            device_id,
            enabled: state == Toggle::On,
            timeout_ms: window_ms,
        },
        SettingCommand::Lighting { effect } => RequestCommand::SetLighting {
            device_id,
            zone: 0,
            effect: effect_of(effect),
        },
    }
}

/// The request that `device set` sends to the selected device.
pub fn setting_request(args: DeviceSetArgs, device_id: String) -> (r: RequestCommand)
    ensures
        r == setting_command(args.setting, device_id),
{
    match args.setting {
        SettingCommand::Dpi { dpi } => RequestCommand::SetDpi { device_id, dpi },
        SettingCommand::PollingRate { hz, connection, disable_onboard_profiles } =>
            RequestCommand::SetPollingRate {
            device_id,
            connection: connection_to_protocol(connection),
            hz,
            disable_onboard_profiles,
        },
        SettingCommand::LiftOffDistance { lod } => RequestCommand::SetLiftOffDistance {
            device_id,
            lod: lod_to_protocol(lod),
        },
        SettingCommand::SurfaceMode { mode } => RequestCommand::SetSurfaceMode {
            device_id,
            mode: surface_to_protocol(mode),
        },
        SettingCommand::OperatingMode { mode } => RequestCommand::SetOperatingMode {
            device_id,
            mode: operating_to_protocol(mode),
        },
        SettingCommand::Bhop { state, window_ms } => RequestCommand::SetBunnyHopping {
            device_id,
            enabled: state.enabled(),
            timeout_ms: window_ms,
        },
        SettingCommand::Lighting { effect } => RequestCommand::SetLighting {
            device_id,
            zone: 0,
            effect: lighting_to_protocol(effect),
        },
    }
}

/// The request that `device use` sends for the device `device_id`.
pub open spec fn use_command(mode: UseCommand, device_id: String) -> RequestCommand {
    match mode {
        UseCommand::FirmwareLighting => RequestCommand::UseFirmwareLighting { device_id },
        UseCommand::HostSettings => RequestCommand::UseHostSettings { device_id },
        UseCommand::OnboardProfile { sector } => RequestCommand::UseOnboardProfile {
            device_id,
            profile: sector,
        },
    }
}

/// The request that `device use` sends to the selected device.
pub fn use_request(args: DeviceUseArgs, device_id: String) -> (r: RequestCommand)
    ensures
        r == use_command(args.mode, device_id),
{
    match args.mode {
        UseCommand::FirmwareLighting => RequestCommand::UseFirmwareLighting { device_id },
        UseCommand::HostSettings => RequestCommand::UseHostSettings { device_id },
        UseCommand::OnboardProfile { sector } => RequestCommand::UseOnboardProfile {
            device_id,
            profile: sector,
        },
    }
}

/// How a failed command is reported.
#[derive(Clone, Copy, Debug, PartialEq, Eq, Structural)]
pub enum IpcFailure {
    /// The agent could not be reached: it is not running.
    AgentNotRunning,
    /// Any other failure, reported under the context `GFlick command failed`.
    CommandFailed,
}

pub open spec fn connect_failure_text() -> Seq<char> {
    "could not connect to the GFlick agent"@
}

/// Classifies a failure by its message: a failed connection means the agent is
/// not running; everything else keeps its message under a command-failed context.
pub fn ipc_context(error: &str) -> (r: IpcFailure)
    ensures
        (r == IpcFailure::AgentNotRunning) == contains(error@, connect_failure_text()),
{
    let text = chars_of(error);
    let needle = chars_of("could not connect to the GFlick agent");
    if contains_chars(&text, &needle) {
        IpcFailure::AgentNotRunning
    } else {
        IpcFailure::CommandFailed
    }
}

impl IpcFailure {
    /// The message shown for the failure; `detail` is the failure's own message.
    pub fn message(self, detail: &str) -> (r: String)
        ensures
            self == IpcFailure::AgentNotRunning ==> r@
                == "the GFlick background agent is not running; install or start it, then try again"@,
            self == IpcFailure::CommandFailed ==> r@ == "GFlick command failed: "@ + detail@,
    {
        match self {
            IpcFailure::AgentNotRunning => owned(
                "the GFlick background agent is not running; install or start it, then try again",
            ),
            IpcFailure::CommandFailed => {
                let mut s = owned("GFlick command failed: ");
                crate::text::push_str(&mut s, detail);
                s
            },
        }
    }
}

/// What a sector argument reads as: the value of its digits, in the radix
/// its prefix calls for, as long as it fits a `u16`.
pub open spec fn sector_value(value: Seq<char>) -> Result<nat, IntErrorKind> {
    parse_uint(sector_digits(value).1, sector_digits(value).0, 0xffff)
}

/// A sector written out reads back as itself: in decimal, and in hexadecimal
/// after `0x` (lower-case digits) or `0X` (upper-case digits).
pub proof fn law_sector_text_round_trip(n: u16)
    ensures
        sector_value(decimal(n as nat)) == Ok::<nat, IntErrorKind>(n as nat),
        sector_value("0x"@ + digit_text(n as nat, 16, false)) == Ok::<nat, IntErrorKind>(n as nat),
        sector_value("0X"@ + digit_text(n as nat, 16, true)) == Ok::<nat, IntErrorKind>(n as nat),
{
    reveal_strlit("0x");
    reveal_strlit("0X");
    crate::text::lemma_decimal_is_digit_text(n as nat);
    let d = decimal(n as nat);
    lemma_digit_text_digits(n as nat);
    lemma_digit_text_unsigned(n as nat, 10, false);
    lemma_scan_digit_text(n as nat, 10, false, 0xffff);
    if d.len() >= 2 {
        assert(d.take(2)[1] == d[1]);
        assert('0' <= d[1] <= '9');
        assert(d.take(2) != "0x"@);
        assert(d.take(2) != "0X"@);
    }
    assert(sector_digits(d) == (10nat, d));
    assert(d[0] != '+' && d[0] != '-');
    let lo = digit_text(n as nat, 16, false);
    let hi = digit_text(n as nat, 16, true);
    lemma_digit_text_unsigned(n as nat, 16, false);
    lemma_digit_text_unsigned(n as nat, 16, true);
    lemma_scan_digit_text(n as nat, 16, false, 0xffff);
    lemma_scan_digit_text(n as nat, 16, true, 0xffff);
    let x = "0x"@ + lo;
    let big = "0X"@ + hi;
    assert(x.take(2) =~= "0x"@);
    assert(x.skip(2) =~= lo);
    assert(big.take(2) =~= "0X"@);
    assert(big.skip(2) =~= hi);
    assert(big.take(2)[1] == 'X' && ("0x"@)[1] == 'x');
    assert(big.take(2) != "0x"@);
    assert(lo[0] != '+' && lo[0] != '-');
    assert(hi[0] != '+' && hi[0] != '-');
}

} // verus!
