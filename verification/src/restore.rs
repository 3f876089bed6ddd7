//! Putting a mouse back the way it was saved: which writes bring a device from
//! what it reports to the stored preferences, and in which order.
use vstd::prelude::*;

use crate::agent::{bytes_view, copy_opt_bytes, supported_host_preferences, updated_preferences};
use crate::protocol::{
    ConfigurationSource, Connection, DeviceCapabilities, LiftOffDistance, LightingEffect,
    OperatingMode, PollingRateState, SettingsState, SurfaceMode,
};
use crate::protocol::{BunnyHoppingState, DeviceState, DpiState, RequestCommand};
use crate::store::{ControlPreference, DevicePreferences, HostPreferences, LightingPreference, PollingPreference};
use crate::text::owned;

verus! {

/// One write that restoring host settings makes, in the order it is made.
#[derive(Clone, Copy, Debug, PartialEq, Eq, Structural)]
pub enum RestoreWrite {
    SetDpiAxes { x: u16, y: u16 },
    SetDpi { dpi: u16 },
    SetPollingRate { connection: Connection, hz: u16 },
    SetLiftOffDistance { lod: LiftOffDistance },
    SetSurfaceMode { mode: SurfaceMode },
    SetOperatingMode { mode: OperatingMode },
    SetBunnyHopping { enabled: bool, timeout_ms: u16 },
}

/// The writes that restore host settings: the button mapping first, when one
/// is to be written, then the other settings.
pub struct HostRestore {
    pub button_mapping: Option<Vec<u8>>,
    pub writes: Vec<RestoreWrite>,
}

/// The message when a stored button mapping cannot be written.
pub open spec fn mapping_unsupported() -> Seq<char> {
    "stored button mapping is unsupported"@
}

/// The button mapping to write: the stored one, unless the device already
/// uses it. A mouse without a button filter cannot take one.
pub open spec fn mapping_write(capabilities: DeviceCapabilities, current: SettingsState, preferences: HostPreferences) -> Result<
    Option<Seq<u8>>,
    Seq<char>,
> {
    match preferences.button_mapping {
        None => Ok(None),
        Some(m) => if !capabilities.mouse_button_filter {
            Err(mapping_unsupported())
        } else if (current.mouse_button_mapping matches Some(c) && c@ == m@) {
            Ok(None)
        } else {
            Ok(Some(m@))
        },
    }
}

/// The sensitivity write: the stored DPI on both axes (the second axis taking
/// its own stored value where there is one) when the device reports others.
pub open spec fn dpi_write(capabilities: DeviceCapabilities, current: SettingsState, preferences: HostPreferences) -> Option<
    RestoreWrite,
> {
    match preferences.dpi {
        None => None,
        Some(dpi) => {
            let y = match preferences.dpi_y {
                Some(y) => y,
                None => dpi,
            };
            if !(capabilities.supported_dpi is Some) {
                None
            } else {
                match current.dpi {
                    None => Some(RestoreWrite::SetDpi { dpi }),
                    Some(d) => if d.current_x != dpi || (d.current_y matches Some(cy) && cy != y) {
                        if d.current_y is Some {
                            Some(RestoreWrite::SetDpiAxes { x: dpi, y })
                        } else {
                            Some(RestoreWrite::SetDpi { dpi })
                        }
                    } else {
                        None
                    },
                }
            }
        },
    }
}

/// The polling-rate write for the connection in use, when the stored rate of
/// the same kind differs from the reported one.
pub open spec fn rate_write(current: SettingsState, connection: Connection, preferences: HostPreferences) -> Option<
    RestoreWrite,
> {
    match (preferences.polling_rate, current.polling_rate) {
        (Some(PollingPreference::Shared { hz }), PollingRateState::Shared { hz: now }) => if hz != now {
            Some(RestoreWrite::SetPollingRate { connection, hz })
        } else {
            None
        },
        (
            Some(PollingPreference::PerConnection { wired_hz, wireless_hz }),
            PollingRateState::PerConnection { wired_hz: now_wired, wireless_hz: now_wireless },
        ) => match connection {
            Connection::Wired => if wired_hz != now_wired {
                Some(RestoreWrite::SetPollingRate { connection: Connection::Wired, hz: wired_hz })
            } else {
                None
            },
            Connection::Wireless => if wireless_hz != now_wireless {
                Some(RestoreWrite::SetPollingRate { connection: Connection::Wireless, hz: wireless_hz })
            } else {
                None
            },
        },
        _ => None,
    }
}

/// The lift-off distance that a device reports.
pub open spec fn current_lod(current: SettingsState) -> Option<LiftOffDistance> {
    match current.dpi {
        Some(d) => d.lift_off_distance,
        None => None,
    }
}

/// The sensor-mode writes: lift-off distance, surface mode and operating mode,
/// each when it is stored, supported and not already in force.
pub open spec fn mode_writes(capabilities: DeviceCapabilities, current: SettingsState, preferences: HostPreferences) -> Seq<
    RestoreWrite,
> {
    (match preferences.lift_off_distance {
        Some(lod) => if capabilities.lift_off_distance && current_lod(current) != Some(lod) {
            seq![RestoreWrite::SetLiftOffDistance { lod }]
        } else {
            Seq::empty()
        },
        None => Seq::empty(),
    }) + (match preferences.surface_mode {
        Some(mode) => if capabilities.surface_mode && current.surface_mode != Some(mode) {
            seq![RestoreWrite::SetSurfaceMode { mode }]
        } else {
            Seq::empty()
        },
        None => Seq::empty(),
    }) + (match preferences.operating_mode {
        Some(mode) => if capabilities.operating_mode_switch && current.operating_mode != Some(mode) {
            seq![RestoreWrite::SetOperatingMode { mode }]
        } else {
            Seq::empty()
        },
        None => Seq::empty(),
    })
}

/// The bunny-hopping write. Switching it off still sends a well-formed timeout,
/// 100 ms, because the firmware checks it either way.
pub open spec fn bhop_write(capabilities: DeviceCapabilities, current: SettingsState, preferences: HostPreferences) -> Option<
    RestoreWrite,
> {
    match preferences.bunny_hopping {
        Some(b) => if capabilities.bunny_hopping && (match current.bunny_hopping {
            None => true,
            Some(now) => now.enabled != b.enabled || now.timeout_ms != b.timeout_ms,
        }) {
            Some(RestoreWrite::SetBunnyHopping {
                enabled: b.enabled,
                timeout_ms: if b.enabled {
                    b.timeout_ms
                } else {
                    100
                },
            })
        } else {
            None
        },
        None => None,
    }
}

/// An optional write as a list of at most one.
pub open spec fn one(w: Option<RestoreWrite>) -> Seq<RestoreWrite> {
    match w {
        Some(w) => seq![w],
        None => Seq::empty(),
    }
}

/// The writes after the button mapping, in the order they are made.
pub open spec fn setting_writes(
    capabilities: DeviceCapabilities,
    current: SettingsState,
    connection: Connection,
    preferences: HostPreferences,
) -> Seq<RestoreWrite> {
    one(dpi_write(capabilities, current, preferences)) + one(rate_write(current, connection, preferences))
        + mode_writes(capabilities, current, preferences) + one(bhop_write(capabilities, current, preferences))
}

fn push_one(writes: &mut Vec<RestoreWrite>, w: Option<RestoreWrite>)
    ensures
        final(writes)@ == old(writes)@ + one(w),
{
    match w {
        Some(w) => {
            writes.push(w);
        },
        None => {},
    }
    assert(writes@ =~= old(writes)@ + one(w));
}

fn dpi_write_exec(capabilities: &DeviceCapabilities, current: &SettingsState, preferences: &HostPreferences) -> (r: Option<RestoreWrite>)
    ensures
        r == dpi_write(*capabilities, *current, *preferences),
{
    let dpi = match preferences.dpi {
        Some(dpi) => dpi,
        None => return None,
    };
    let y = match preferences.dpi_y {
        Some(y) => y,
        None => dpi,
    };
    if capabilities.supported_dpi.is_none() {
        return None;
    }
    match current.dpi {
        None => Some(RestoreWrite::SetDpi { dpi }),
        Some(d) => {
            let y_differs = match d.current_y {
                Some(cy) => cy != y,
                None => false,
            };
            if d.current_x != dpi || y_differs {
                if d.current_y.is_some() {
                    Some(RestoreWrite::SetDpiAxes { x: dpi, y })
                } else {
                    Some(RestoreWrite::SetDpi { dpi })
                }
            } else {
                None
            }
        },
    }
}

fn rate_write_exec(current: &SettingsState, connection: Connection, preferences: &HostPreferences) -> (r: Option<RestoreWrite>)
    ensures
        r == rate_write(*current, connection, *preferences),
{
    match (preferences.polling_rate, current.polling_rate) {
        (Some(PollingPreference::Shared { hz }), PollingRateState::Shared { hz: now }) => if hz != now {
            Some(RestoreWrite::SetPollingRate { connection, hz })
        } else {
            None
        },
        (
            Some(PollingPreference::PerConnection { wired_hz, wireless_hz }),
            PollingRateState::PerConnection { wired_hz: now_wired, wireless_hz: now_wireless },
        ) => match connection {
            Connection::Wired => if wired_hz != now_wired {
                Some(RestoreWrite::SetPollingRate { connection: Connection::Wired, hz: wired_hz })
            } else {
                None
            },
            Connection::Wireless => if wireless_hz != now_wireless {
                Some(RestoreWrite::SetPollingRate { connection: Connection::Wireless, hz: wireless_hz })
            } else {
                None
            },
        },
        _ => None,
    }
}

fn same_lod(a: Option<LiftOffDistance>, b: LiftOffDistance) -> (r: bool)
    ensures
        r == (a == Some(b)),
{
    match a {
        Some(x) => x == b,
        None => false,
    }
}

fn same_surface(a: Option<SurfaceMode>, b: SurfaceMode) -> (r: bool)
    ensures
        r == (a == Some(b)),
{
    match a {
        Some(x) => x == b,
        None => false,
    }
}

fn same_operating(a: Option<OperatingMode>, b: OperatingMode) -> (r: bool)
    ensures
        r == (a == Some(b)),
{
    match a {
        Some(x) => x == b,
        None => false,
    }
}

fn push_mode_writes(
    writes: &mut Vec<RestoreWrite>,
    capabilities: &DeviceCapabilities,
    current: &SettingsState,
    preferences: &HostPreferences,
)
    ensures
        final(writes)@ == old(writes)@ + mode_writes(*capabilities, *current, *preferences),
{
    let ghost start = writes@;
    let lod_now = match current.dpi {
        Some(d) => d.lift_off_distance,
        None => None,
    };
    match preferences.lift_off_distance {
        Some(lod) => if capabilities.lift_off_distance && !same_lod(lod_now, lod) {
            writes.push(RestoreWrite::SetLiftOffDistance { lod });
        },
        None => {},
    }
    let ghost after_lod = writes@;
    match preferences.surface_mode {
        Some(mode) => if capabilities.surface_mode && !same_surface(current.surface_mode, mode) {
            writes.push(RestoreWrite::SetSurfaceMode { mode });
        },
        None => {},
    }
    let ghost after_surface = writes@;
    match preferences.operating_mode {
        Some(mode) => if capabilities.operating_mode_switch && !same_operating(current.operating_mode, mode) {
            writes.push(RestoreWrite::SetOperatingMode { mode });
        },
        None => {},
    }
    proof {
        let p = *preferences;
        let c = *capabilities;
        let s = *current;
        let lod_part = match p.lift_off_distance {
            Some(lod) => if c.lift_off_distance && current_lod(s) != Some(lod) {
                seq![RestoreWrite::SetLiftOffDistance { lod }]
            } else {
                Seq::empty()
            },
            None => Seq::empty(),
        };
        let surface_part = match p.surface_mode {
            Some(mode) => if c.surface_mode && s.surface_mode != Some(mode) {
                seq![RestoreWrite::SetSurfaceMode { mode }]
            } else {
                Seq::empty()
            },
            None => Seq::empty(),
        };
        assert(after_lod =~= start + lod_part);
        assert(after_surface =~= after_lod + surface_part);
        assert(writes@ =~= start + mode_writes(c, s, p));
    }
}

fn bhop_write_exec(capabilities: &DeviceCapabilities, current: &SettingsState, preferences: &HostPreferences) -> (r: Option<RestoreWrite>)
    ensures
        r == bhop_write(*capabilities, *current, *preferences),
{
    match preferences.bunny_hopping {
        Some(b) => {
            let differs = match current.bunny_hopping {
                None => true,
                Some(now) => now.enabled != b.enabled || now.timeout_ms != b.timeout_ms,
            };
            if capabilities.bunny_hopping && differs {
                Some(RestoreWrite::SetBunnyHopping {
                    enabled: b.enabled,
                    timeout_ms: if b.enabled {
                        b.timeout_ms
                    } else {
                        100
                    },
                })
            } else {
                None
            }
        },
        None => None,
    }
}

/// The writes that bring a device's host settings from `current`, as it
/// reports them over `connection`, to the stored `preferences`: a stored
/// button mapping the mouse cannot take is refused before anything is written.
pub fn host_restore(
    capabilities: &DeviceCapabilities,
    current: &SettingsState,
    connection: Connection,
    preferences: &HostPreferences,
) -> (r: Result<HostRestore, String>)
    ensures
        match mapping_write(*capabilities, *current, *preferences) {
            Err(m) => r matches Err(e) && e@ == m,
            Ok(mapping) => r matches Ok(plan) && (match plan.button_mapping {
                Some(v) => mapping == Some(v@),
                None => mapping is None,
            }) && plan.writes@ == setting_writes(*capabilities, *current, connection, *preferences),
        },
{
    let button_mapping = match &preferences.button_mapping {
        None => None,
        Some(m) => {
            if !capabilities.mouse_button_filter {
                return Err(owned("stored button mapping is unsupported"));
            }
            let same = match &current.mouse_button_mapping {
                Some(c) => bytes_equal(c, m),
                None => false,
            };
            if same {
                None
            } else {
                let copy = copy_opt_bytes(&preferences.button_mapping);
                proof {
                    assert(bytes_view(copy) == Some(m@));
                }
                copy
            }
        },
    };
    let mut writes: Vec<RestoreWrite> = Vec::new();
    push_one(&mut writes, dpi_write_exec(capabilities, current, preferences));
    push_one(&mut writes, rate_write_exec(current, connection, preferences));
    push_mode_writes(&mut writes, capabilities, current, preferences);
    push_one(&mut writes, bhop_write_exec(capabilities, current, preferences));
    assert(writes@ =~= setting_writes(*capabilities, *current, connection, *preferences));
    Ok(HostRestore { button_mapping, writes })
}

/// Whether two byte lists hold the same bytes.
pub fn bytes_equal(a: &Vec<u8>, b: &Vec<u8>) -> (r: bool)
    ensures
        r == (a@ == b@),
{
    if a.len() != b.len() {
        return false;
    }
    let mut i: usize = 0;
    while i < a.len()
        invariant
            i <= a.len(),
            a.len() == b.len(),
            forall|j: int| 0 <= j < i ==> a@[j] == b@[j],
        decreases a.len() - i,
    {
        if a[i] != b[i] {
            assert(a@[i as int] != b@[i as int]);
            return false;
        }
        i += 1;
    }
    assert(a@ =~= b@);
    true
}

/// What restoring does about who controls the configuration.
#[derive(Clone, Copy, Debug, PartialEq, Eq, Structural)]
pub enum ControlStep {
    /// The device is already under the stored control, or none is stored.
    Keep,
    /// Take the configuration over from the onboard profile.
    UseHost,
    /// Switch the device to a stored onboard profile.
    ActivateProfile { profile: u16 },
}

/// The control step for a device reporting `source` with `control` stored.
pub open spec fn control_step_of(source: Option<ConfigurationSource>, control: Option<ControlPreference>) -> ControlStep {
    match control {
        Some(ControlPreference::Host) => if source == Some(ConfigurationSource::Host) {
            ControlStep::Keep
        } else {
            ControlStep::UseHost
        },
        Some(ControlPreference::Onboard { profile }) => if source == Some(
            ConfigurationSource::Onboard { active_profile: Some(profile) },
        ) {
            ControlStep::Keep
        } else {
            ControlStep::ActivateProfile { profile }
        },
        None => ControlStep::Keep,
    }
}

/// The control step for a device reporting `source` with `control` stored.
pub fn control_step(source: Option<ConfigurationSource>, control: Option<ControlPreference>) -> (r: ControlStep)
    ensures
        r == control_step_of(source, control),
{
    match control {
        Some(ControlPreference::Host) => match source {
            Some(ConfigurationSource::Host) => ControlStep::Keep,
            _ => ControlStep::UseHost,
        },
        Some(ControlPreference::Onboard { profile }) => match source {
            Some(ConfigurationSource::Onboard { active_profile: Some(active) }) => if active == profile {
                ControlStep::Keep
            } else {
                ControlStep::ActivateProfile { profile }
            },
            _ => ControlStep::ActivateProfile { profile },
        },
        None => ControlStep::Keep,
    }
}

/// Host settings are restored only under stored host control; an onboard
/// profile keeps its own.
pub fn restores_host_settings(control: Option<ControlPreference>) -> (r: bool)
    ensures
        r == (control == Some(ControlPreference::Host)),
{
    match control {
        Some(ControlPreference::Host) => true,
        _ => false,
    }
}

/// The onboard DPI stage to select: the stored one, under stored onboard
/// control, unless the device already uses it.
pub fn stage_write(control: Option<ControlPreference>, stored: Option<u8>, current: Option<u8>) -> (r: Option<u8>)
    ensures
        r == (if control matches Some(ControlPreference::Onboard { .. }) && stored is Some && current != stored {
            stored
        } else {
            None
        }),
{
    match control {
        Some(ControlPreference::Onboard { .. }) => match stored {
            Some(s) => match current {
                Some(c) => if c == s {
                    None
                } else {
                    Some(s)
                },
                None => Some(s),
            },
            None => None,
        },
        _ => None,
    }
}

/// What restoring does about the lighting.
#[derive(Clone, Copy, Debug, PartialEq, Eq, Structural)]
pub enum LightingStep {
    /// Nothing stored: leave the lighting alone.
    Keep,
    /// Hand the lighting back to the firmware.
    Release,
    /// Drive the lighting from the host with the stored effect.
    Apply { zone: u8, effect: LightingEffect },
}

/// The message when stored software lighting cannot be applied.
pub open spec fn lighting_unsupported() -> Seq<char> {
    "stored lighting preference is unsupported by this mouse"@
}

/// The lighting step for a stored preference; a mouse without colour effects
/// cannot take software lighting.
pub open spec fn lighting_step_of(capabilities: DeviceCapabilities, lighting: Option<LightingPreference>) -> Result<
    LightingStep,
    Seq<char>,
> {
    match lighting {
        Some(LightingPreference::Firmware) => Ok(LightingStep::Release),
        Some(LightingPreference::Software { zone, effect }) => if capabilities.color_led_effects {
            Ok(LightingStep::Apply { zone, effect })
        } else {
            Err(lighting_unsupported())
        },
        None => Ok(LightingStep::Keep),
    }
}

/// The lighting step for a stored preference.
pub fn lighting_step(capabilities: &DeviceCapabilities, lighting: Option<LightingPreference>) -> (r: Result<
    LightingStep,
    String,
>)
    ensures
        match lighting_step_of(*capabilities, lighting) {
            Ok(step) => r == Ok::<LightingStep, String>(step),
            Err(m) => r matches Err(e) && e@ == m,
        },
{
    match lighting {
        Some(LightingPreference::Firmware) => Ok(LightingStep::Release),
        Some(LightingPreference::Software { zone, effect }) => if capabilities.color_led_effects {
            Ok(LightingStep::Apply { zone, effect })
        } else {
            Err(owned("stored lighting preference is unsupported by this mouse"))
        },
        None => Ok(LightingStep::Keep),
    }
}

/// Restoring the host settings that were captured from a device, while the
/// device still reports what it reported then, writes nothing to it.
pub proof fn law_restoring_captured_settings_writes_nothing(
    capabilities: DeviceCapabilities,
    current: SettingsState,
    connection: Connection,
)
    ensures
        mapping_write(capabilities, current, supported_host_preferences(capabilities, current, None))
            == Ok::<Option<Seq<u8>>, Seq<char>>(None),
        setting_writes(capabilities, current, connection, supported_host_preferences(capabilities, current, None))
            == Seq::<RestoreWrite>::empty(),
{
    let p = supported_host_preferences(capabilities, current, None);
    assert(dpi_write(capabilities, current, p) is None);
    assert(rate_write(current, connection, p) is None);
    assert(bhop_write(capabilities, current, p) is None);
    assert(mode_writes(capabilities, current, p) =~= Seq::<RestoreWrite>::empty());
    assert(setting_writes(capabilities, current, connection, p) =~= Seq::<RestoreWrite>::empty());
}

/// The control step is idempotent: once it is carried out and the device
/// reports the stored control, restoring again leaves control alone.
pub proof fn law_control_step_settles(control: ControlPreference)
    ensures
        control_step_of(
            Some(
                match control {
                    ControlPreference::Host => ConfigurationSource::Host,
                    ControlPreference::Onboard { profile } => ConfigurationSource::Onboard {
                        active_profile: Some(profile),
                    },
                },
            ),
            Some(control),
        ) == ControlStep::Keep,
{
}

// ---------------------------------------------------------------------------
// What the writes do to the polling rate
// ---------------------------------------------------------------------------

/// The polling rate a device reports once `write` was carried out: a rate
/// write sets the rate of the connection it names (the one rate, on a device
/// with a shared rate); every other write leaves the rate alone.
pub open spec fn rate_after_write(rate: PollingRateState, write: RestoreWrite) -> PollingRateState {
    match write {
        RestoreWrite::SetPollingRate { connection, hz } => match rate {
            PollingRateState::Shared { .. } => PollingRateState::Shared { hz },
            PollingRateState::PerConnection { wired_hz, wireless_hz } => match connection {
                Connection::Wired => PollingRateState::PerConnection { wired_hz: hz, wireless_hz },
                Connection::Wireless => PollingRateState::PerConnection { wired_hz, wireless_hz: hz },
            },
            PollingRateState::Unsupported => PollingRateState::Unsupported,
        },
        _ => rate,
    }
}

/// The polling rate a device reports once `writes` were carried out in order.
pub open spec fn rate_after(rate: PollingRateState, writes: Seq<RestoreWrite>) -> PollingRateState
    decreases writes.len(),
{
    if writes.len() == 0 {
        rate
    } else {
        rate_after_write(rate_after(rate, writes.drop_last()), writes.last())
    }
}

/// The rate in force over `connection`, if the device reports one.
pub open spec fn rate_over(rate: PollingRateState, connection: Connection) -> Option<u16> {
    match rate {
        PollingRateState::Shared { hz } => Some(hz),
        PollingRateState::PerConnection { wired_hz, wireless_hz } => match connection {
            Connection::Wired => Some(wired_hz),
            Connection::Wireless => Some(wireless_hz),
        },
        PollingRateState::Unsupported => None,
    }
}

/// The stored rate for `connection`, if one is stored.
pub open spec fn stored_rate_over(preference: Option<PollingPreference>, connection: Connection) -> Option<u16> {
    match preference {
        Some(PollingPreference::Shared { hz }) => Some(hz),
        Some(PollingPreference::PerConnection { wired_hz, wireless_hz }) => match connection {
            Connection::Wired => Some(wired_hz),
            Connection::Wireless => Some(wireless_hz),
        },
        None => None,
    }
}

/// Whether a stored rate and a reported one are of the same kind.
pub open spec fn same_rate_kind(preference: Option<PollingPreference>, rate: PollingRateState) -> bool {
    ||| (preference matches Some(PollingPreference::Shared { .. }) && rate is Shared)
    ||| (preference matches Some(PollingPreference::PerConnection { .. }) && rate is PerConnection)
}

proof fn lemma_rate_after_concat(rate: PollingRateState, a: Seq<RestoreWrite>, b: Seq<RestoreWrite>)
    ensures
        rate_after(rate, a + b) == rate_after(rate_after(rate, a), b),
    decreases b.len(),
{
    if b.len() == 0 {
        assert(a + b =~= a);
    } else {
        assert((a + b).drop_last() =~= a + b.drop_last());
        assert((a + b).last() == b.last());
        lemma_rate_after_concat(rate, a, b.drop_last());
    }
}

proof fn lemma_rate_after_single(rate: PollingRateState, x: RestoreWrite)
    ensures
        rate_after(rate, seq![x]) == rate_after_write(rate, x),
{
    assert(seq![x].drop_last() =~= Seq::<RestoreWrite>::empty());
    assert(seq![x].last() == x);
    assert(rate_after(rate, Seq::<RestoreWrite>::empty()) == rate);
}

proof fn lemma_rate_after_empty(rate: PollingRateState)
    ensures
        rate_after(rate, Seq::<RestoreWrite>::empty()) == rate,
{
}

proof fn lemma_rate_after_one(rate: PollingRateState, w: Option<RestoreWrite>)
    ensures
        rate_after(rate, one(w)) == match w {
            Some(w) => rate_after_write(rate, w),
            None => rate,
        },
{
    match w {
        Some(x) => {
            lemma_rate_after_single(rate, x);
        },
        None => {
            lemma_rate_after_empty(rate);
        },
    }
}

proof fn lemma_mode_writes_keep_rate(
    capabilities: DeviceCapabilities,
    current: SettingsState,
    preferences: HostPreferences,
    rate: PollingRateState,
)
    ensures
        rate_after(rate, mode_writes(capabilities, current, preferences)) == rate,
{
    let lod: Seq<RestoreWrite> = match preferences.lift_off_distance {
        Some(l) => if capabilities.lift_off_distance && current_lod(current) != Some(l) {
            seq![RestoreWrite::SetLiftOffDistance { lod: l }]
        } else {
            Seq::empty()
        },
        None => Seq::empty(),
    };
    let surface: Seq<RestoreWrite> = match preferences.surface_mode {
        Some(mode) => if capabilities.surface_mode && current.surface_mode != Some(mode) {
            seq![RestoreWrite::SetSurfaceMode { mode }]
        } else {
            Seq::empty()
        },
        None => Seq::empty(),
    };
    let operating: Seq<RestoreWrite> = match preferences.operating_mode {
        Some(mode) => if capabilities.operating_mode_switch && current.operating_mode != Some(mode) {
            seq![RestoreWrite::SetOperatingMode { mode }]
        } else {
            Seq::empty()
        },
        None => Seq::empty(),
    };
    assert(mode_writes(capabilities, current, preferences) == lod + surface + operating);
    lemma_rate_after_concat(rate, lod + surface, operating);
    lemma_rate_after_concat(rate, lod, surface);
    lemma_rate_after_empty(rate);
    match preferences.lift_off_distance {
        Some(l) => lemma_rate_after_single(rate, RestoreWrite::SetLiftOffDistance { lod: l }),
        None => {},
    }
    match preferences.surface_mode {
        Some(mode) => lemma_rate_after_single(rate, RestoreWrite::SetSurfaceMode { mode }),
        None => {},
    }
    match preferences.operating_mode {
        Some(mode) => lemma_rate_after_single(rate, RestoreWrite::SetOperatingMode { mode }),
        None => {},
    }
    assert(rate_after(rate, lod) == rate);
    assert(rate_after(rate, surface) == rate);
    assert(rate_after(rate, operating) == rate);
}

/// Restoring brings back the stored polling rate: when the device reports a
/// rate of the kind that is stored, once the restore writes are carried out
/// the rate in force over the connection in use is the stored one for that
/// connection, and the rate of the other connection is left as it was.
pub proof fn law_restore_brings_back_the_polling_rate(
    capabilities: DeviceCapabilities,
    current: SettingsState,
    connection: Connection,
    preferences: HostPreferences,
)
    requires
        same_rate_kind(preferences.polling_rate, current.polling_rate),
    ensures
        rate_over(rate_after(current.polling_rate, setting_writes(capabilities, current, connection, preferences)), connection)
            == stored_rate_over(preferences.polling_rate, connection),
        forall|other: Connection|
            other != connection && current.polling_rate is PerConnection ==> rate_over(
                rate_after(current.polling_rate, setting_writes(capabilities, current, connection, preferences)),
                other,
            ) == rate_over(current.polling_rate, other),
{
    let rate = current.polling_rate;
    let d = one(dpi_write(capabilities, current, preferences));
    let w = one(rate_write(current, connection, preferences));
    let m = mode_writes(capabilities, current, preferences);
    let b = one(bhop_write(capabilities, current, preferences));
    assert(setting_writes(capabilities, current, connection, preferences) == d + w + m + b);
    lemma_rate_after_concat(rate, d + w + m, b);
    lemma_rate_after_concat(rate, d + w, m);
    lemma_rate_after_concat(rate, d, w);
    lemma_rate_after_one(rate, dpi_write(capabilities, current, preferences));
    assert(rate_after_write(rate, RestoreWrite::SetDpi { dpi: 0 }) == rate);
    let r1 = rate_after(rate, d);
    assert(r1 == rate);
    lemma_rate_after_one(r1, rate_write(current, connection, preferences));
    let r2 = rate_after(r1, w);
    lemma_mode_writes_keep_rate(capabilities, current, preferences, r2);
    lemma_rate_after_one(r2, bhop_write(capabilities, current, preferences));
}

/// What a device reports once `write` was carried out: each write sets the
/// setting it names and leaves the others; the DPI and the lift-off distance
/// are set on a device that reports its DPI.
pub open spec fn settings_after_write(s: SettingsState, write: RestoreWrite) -> SettingsState {
    match write {
        RestoreWrite::SetDpiAxes { x, y } => SettingsState {
            dpi: match s.dpi {
                Some(d) => Some(DpiState { current_x: x, current_y: Some(y), ..d }),
                None => None,
            },
            ..s
        },
        RestoreWrite::SetDpi { dpi } => SettingsState {
            dpi: match s.dpi {
                Some(d) => Some(DpiState { current_x: dpi, ..d }),
                None => None,
            },
            ..s
        },
        RestoreWrite::SetPollingRate { .. } => SettingsState {
            polling_rate: rate_after_write(s.polling_rate, write),
            ..s
        },
        RestoreWrite::SetLiftOffDistance { lod } => SettingsState {
            dpi: match s.dpi {
                Some(d) => Some(DpiState { lift_off_distance: Some(lod), ..d }),
                None => None,
            },
            ..s
        },
        RestoreWrite::SetSurfaceMode { mode } => SettingsState { surface_mode: Some(mode), ..s },
        RestoreWrite::SetOperatingMode { mode } => SettingsState { operating_mode: Some(mode), ..s },
        RestoreWrite::SetBunnyHopping { enabled, timeout_ms } => SettingsState {
            bunny_hopping: Some(BunnyHoppingState { enabled, timeout_ms }),
            ..s
        },
    }
}

/// What a device reports once `writes` were carried out in order.
pub open spec fn settings_after(s: SettingsState, writes: Seq<RestoreWrite>) -> SettingsState
    decreases writes.len(),
{
    if writes.len() == 0 {
        s
    } else {
        settings_after_write(settings_after(s, writes.drop_last()), writes.last())
    }
}

proof fn lemma_settings_after_concat(s: SettingsState, a: Seq<RestoreWrite>, b: Seq<RestoreWrite>)
    ensures
        settings_after(s, a + b) == settings_after(settings_after(s, a), b),
    decreases b.len(),
{
    if b.len() == 0 {
        assert(a + b =~= a);
    } else {
        assert((a + b).drop_last() =~= a + b.drop_last());
        assert((a + b).last() == b.last());
        lemma_settings_after_concat(s, a, b.drop_last());
    }
}

proof fn lemma_settings_after_single(s: SettingsState, x: RestoreWrite)
    ensures
        settings_after(s, seq![x]) == settings_after_write(s, x),
{
    assert(seq![x].drop_last() =~= Seq::<RestoreWrite>::empty());
    assert(seq![x].last() == x);
    assert(settings_after(s, Seq::<RestoreWrite>::empty()) == s);
}

proof fn lemma_settings_after_one(s: SettingsState, w: Option<RestoreWrite>)
    ensures
        settings_after(s, one(w)) == match w {
            Some(w) => settings_after_write(s, w),
            None => s,
        },
{
    match w {
        Some(x) => lemma_settings_after_single(s, x),
        None => {
            assert(settings_after(s, Seq::<RestoreWrite>::empty()) == s);
        },
    }
}

/// The stored DPI of the second axis: its own, or the first axis's.
pub open spec fn stored_dpi_y(preferences: HostPreferences) -> Option<u16> {
    match preferences.dpi_y {
        Some(y) => Some(y),
        None => preferences.dpi,
    }
}

/// Restoring brings back every stored setting the device supports: once the
/// restore writes are carried out, a device that reports its DPI reports the
/// stored DPI (on the second axis too, where it reports one) and the stored
/// lift-off distance, and any device reports the stored surface mode,
/// operating mode and bunny-hopping switch (with the stored timeout when it
/// is on). Each holds when that setting is stored and supported.
#[verifier::rlimit(100)]
pub proof fn law_restore_brings_back_the_stored_settings(
    capabilities: DeviceCapabilities,
    current: SettingsState,
    connection: Connection,
    preferences: HostPreferences,
)
    ensures
        ({
            let after = settings_after(current, setting_writes(capabilities, current, connection, preferences));
            &&& (preferences.dpi is Some && capabilities.supported_dpi is Some && current.dpi is Some) ==> {
                &&& after.dpi is Some
                &&& Some(after.dpi->0.current_x) == preferences.dpi
                &&& current.dpi->0.current_y is Some ==> after.dpi->0.current_y == stored_dpi_y(preferences)
            }
            &&& (preferences.lift_off_distance is Some && capabilities.lift_off_distance && current.dpi is Some)
                ==> (after.dpi is Some && after.dpi->0.lift_off_distance == preferences.lift_off_distance)
            &&& (preferences.surface_mode is Some && capabilities.surface_mode) ==> after.surface_mode
                == preferences.surface_mode
            &&& (preferences.operating_mode is Some && capabilities.operating_mode_switch) ==> after.operating_mode
                == preferences.operating_mode
            &&& (preferences.bunny_hopping is Some && capabilities.bunny_hopping) ==> {
                &&& after.bunny_hopping is Some
                &&& after.bunny_hopping->0.enabled == preferences.bunny_hopping->0.enabled
                &&& preferences.bunny_hopping->0.enabled ==> after.bunny_hopping->0.timeout_ms
                    == preferences.bunny_hopping->0.timeout_ms
            }
        }),
{
    let d = one(dpi_write(capabilities, current, preferences));
    let w = one(rate_write(current, connection, preferences));
    let lod: Seq<RestoreWrite> = match preferences.lift_off_distance {
        Some(l) => if capabilities.lift_off_distance && current_lod(current) != Some(l) {
            seq![RestoreWrite::SetLiftOffDistance { lod: l }]
        } else {
            Seq::empty()
        },
        None => Seq::empty(),
    };
    let surface: Seq<RestoreWrite> = match preferences.surface_mode {
        Some(mode) => if capabilities.surface_mode && current.surface_mode != Some(mode) {
            seq![RestoreWrite::SetSurfaceMode { mode }]
        } else {
            Seq::empty()
        },
        None => Seq::empty(),
    };
    let operating: Seq<RestoreWrite> = match preferences.operating_mode {
        Some(mode) => if capabilities.operating_mode_switch && current.operating_mode != Some(mode) {
            seq![RestoreWrite::SetOperatingMode { mode }]
        } else {
            Seq::empty()
        },
        None => Seq::empty(),
    };
    let b = one(bhop_write(capabilities, current, preferences));
    assert(mode_writes(capabilities, current, preferences) == lod + surface + operating);
    assert(setting_writes(capabilities, current, connection, preferences) =~= d + w + lod + surface + operating
        + b);
    lemma_settings_after_concat(current, d + w + lod + surface + operating, b);
    lemma_settings_after_concat(current, d + w + lod + surface, operating);
    lemma_settings_after_concat(current, d + w + lod, surface);
    lemma_settings_after_concat(current, d + w, lod);
    lemma_settings_after_concat(current, d, w);
    let s1 = settings_after(current, d);
    lemma_settings_after_one(current, dpi_write(capabilities, current, preferences));
    let s2 = settings_after(s1, w);
    lemma_settings_after_one(s1, rate_write(current, connection, preferences));
    let s3 = settings_after(s2, lod);
    let s4 = settings_after(s3, surface);
    let s5 = settings_after(s4, operating);
    assert(settings_after(s2, Seq::<RestoreWrite>::empty()) == s2);
    assert(settings_after(s3, Seq::<RestoreWrite>::empty()) == s3);
    assert(settings_after(s4, Seq::<RestoreWrite>::empty()) == s4);
    match preferences.lift_off_distance {
        Some(l) => lemma_settings_after_single(s2, RestoreWrite::SetLiftOffDistance { lod: l }),
        None => {},
    }
    match preferences.surface_mode {
        Some(mode) => lemma_settings_after_single(s3, RestoreWrite::SetSurfaceMode { mode }),
        None => {},
    }
    match preferences.operating_mode {
        Some(mode) => lemma_settings_after_single(s4, RestoreWrite::SetOperatingMode { mode }),
        None => {},
    }
    lemma_settings_after_one(s5, bhop_write(capabilities, current, preferences));
}

/// A polling rate that was just set and recorded needs no restoring: once a
/// polling-rate command succeeded and was recorded, restoring the recorded
/// preferences to the device as it then reports writes no polling rate, over
/// either connection.
pub proof fn law_recorded_rate_needs_no_restore(
    p: DevicePreferences,
    command: RequestCommand,
    device: DeviceState,
    button_mapping: Option<Vec<u8>>,
    connection: Connection,
)
    requires
        command is SetPollingRate,
    ensures
        rate_write(
            device.settings,
            connection,
            updated_preferences(p, command, device, button_mapping).host,
        ) is None,
{
}

/// Switching to host control captures the settings in force: restoring the
/// recorded host preferences to the device as it reports them right after
/// the switch writes nothing.
pub proof fn law_host_switch_needs_no_restore(
    p: DevicePreferences,
    command: RequestCommand,
    device: DeviceState,
    button_mapping: Option<Vec<u8>>,
    connection: Connection,
)
    requires
        command is UseHostSettings,
    ensures
        setting_writes(
            device.capabilities,
            device.settings,
            connection,
            updated_preferences(p, command, device, button_mapping).host,
        ) == Seq::<RestoreWrite>::empty(),
{
    let host = updated_preferences(p, command, device, button_mapping).host;
    assert(host == supported_host_preferences(device.capabilities, device.settings, button_mapping));
    assert(dpi_write(device.capabilities, device.settings, host) is None);
    assert(rate_write(device.settings, connection, host) is None);
    assert(bhop_write(device.capabilities, device.settings, host) is None);
    assert(mode_writes(device.capabilities, device.settings, host) =~= Seq::<RestoreWrite>::empty());
    assert(setting_writes(device.capabilities, device.settings, connection, host) =~= Seq::<RestoreWrite>::empty());
}

/// The commands that change a hardware setting of the device.
pub open spec fn writes_hardware_setting(command: RequestCommand) -> bool {
    ||| command is SetDpi
    ||| command is SetDpiAxes
    ||| command is SetPollingRate
    ||| command is SetLiftOffDistance
    ||| command is SetSurfaceMode
    ||| command is SetOperatingMode
    ||| command is SetBunnyHopping
    ||| command is SetOnboardDpiStage
    ||| command is SetMouseButtonMapping
}

/// After a hardware setting was written and recorded, the recorded control
/// is the one the device reports, so restoring it changes nothing: when the
/// device reports host control or an active onboard profile, the control
/// step of a restore keeps it.
pub proof fn law_recorded_control_needs_no_restore(
    p: DevicePreferences,
    command: RequestCommand,
    device: DeviceState,
    button_mapping: Option<Vec<u8>>,
)
    requires
        writes_hardware_setting(command),
        device.settings.configuration_source == Some(ConfigurationSource::Host) || (
        device.settings.configuration_source matches Some(ConfigurationSource::Onboard { active_profile: Some(_) })),
    ensures
        control_step_of(
            device.settings.configuration_source,
            updated_preferences(p, command, device, button_mapping).control,
        ) == ControlStep::Keep,
{
}

/// Restoring brings back a stored button mapping: on a mouse with a button
/// filter, either the device already uses the stored mapping or the restore
/// writes exactly it; on a mouse without one, the restore is refused.
pub proof fn law_restore_brings_back_the_button_mapping(
    capabilities: DeviceCapabilities,
    current: SettingsState,
    preferences: HostPreferences,
)
    requires
        preferences.button_mapping is Some,
    ensures
        capabilities.mouse_button_filter ==> (mapping_write(capabilities, current, preferences) matches Ok(w) && (w
            == Some(preferences.button_mapping->0@) || bytes_view(current.mouse_button_mapping) == Some(
            preferences.button_mapping->0@,
        ))),
        !capabilities.mouse_button_filter ==> mapping_write(capabilities, current, preferences) is Err,
{
}

} // verus!
