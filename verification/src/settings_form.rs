//! The settings form of the settings application: which fields a device
//! offers, and the validated, ordered write plan for the fields a user edited.
use vstd::prelude::*;

use crate::int_parse::{parse_u16_radix, parse_u32_radix, parse_uint};
use crate::protocol::{
    color_text, Connection, ConfigurationSource, DeviceColor, DeviceState, LiftOffDistance,
    LightingEffect, OperatingMode, PollingRateCapabilities, PollingRateState, RequestCommand,
    RgbColor, SurfaceMode,
};
use crate::text::{
    byte_len, chars_eq, chars_of, decimal, decimal_chars, owned, slice, string_of, trim, trim_chars,
};

verus! {

/// The fields of the settings form, in the order in which they are checked.
#[derive(Clone, Copy, Debug, PartialEq, Eq, Structural)]
pub enum Key {
    Dpi,
    Wired,
    Wireless,
    Lod,
    Surface,
    Operating,
    Bhop,
    Timeout,
    Source,
    Nickname,
    Appearance,
    Lighting,
    Color,
    Period,
    Brightness,
    Zone,
}

/// Every field, in order.
pub open spec fn all_keys() -> Seq<Key> {
    seq![
        Key::Dpi,
        Key::Wired,
        Key::Wireless,
        Key::Lod,
        Key::Surface,
        Key::Operating,
        Key::Bhop,
        Key::Timeout,
        Key::Source,
        Key::Nickname,
        Key::Appearance,
        Key::Lighting,
        Key::Color,
        Key::Period,
        Key::Brightness,
        Key::Zone,
    ]
}

fn all_keys_exec() -> (r: Vec<Key>)
    ensures
        r@ == all_keys(),
{
    let r = vec![
        Key::Dpi,
        Key::Wired,
        Key::Wireless,
        Key::Lod,
        Key::Surface,
        Key::Operating,
        Key::Bhop,
        Key::Timeout,
        Key::Source,
        Key::Nickname,
        Key::Appearance,
        Key::Lighting,
        Key::Color,
        Key::Period,
        Key::Brightness,
        Key::Zone,
    ];
    assert(r@ =~= all_keys());
    r
}

/// The name of a field as messages write it.
pub open spec fn key_name(k: Key) -> Seq<char> {
    match k {
        Key::Dpi => "Dpi"@,
        Key::Wired => "Wired"@,
        Key::Wireless => "Wireless"@,
        Key::Lod => "Lod"@,
        Key::Surface => "Surface"@,
        Key::Operating => "Operating"@,
        Key::Bhop => "Bhop"@,
        Key::Timeout => "Timeout"@,
        Key::Source => "Source"@,
        Key::Nickname => "Nickname"@,
        Key::Appearance => "Appearance"@,
        Key::Lighting => "Lighting"@,
        Key::Color => "Color"@,
        Key::Period => "Period"@,
        Key::Brightness => "Brightness"@,
        Key::Zone => "Zone"@,
    }
}

fn key_name_exec(k: Key) -> (r: &'static str)
    ensures
        r@ == key_name(k),
{
    match k {
        Key::Dpi => "Dpi",
        Key::Wired => "Wired",
        Key::Wireless => "Wireless",
        Key::Lod => "Lod",
        Key::Surface => "Surface",
        Key::Operating => "Operating",
        Key::Bhop => "Bhop",
        Key::Timeout => "Timeout",
        Key::Source => "Source",
        Key::Nickname => "Nickname",
        Key::Appearance => "Appearance",
        Key::Lighting => "Lighting",
        Key::Color => "Color",
        Key::Period => "Period",
        Key::Brightness => "Brightness",
        Key::Zone => "Zone",
    }
}

/// The pages of a device's editor.
#[derive(Clone, Copy, Debug, PartialEq, Eq, Structural)]
pub enum EditorPage {
    /// Device tuning.
    Performance,
    /// Physical button assignments.
    Buttons,
    /// How the device is presented: its name and appearance.
    Details,
}

/// The page that shows the field `key`: the name and the appearance on the
/// details page, everything else on the performance page.
pub open spec fn page_of(key: Key) -> EditorPage {
    match key {
        Key::Nickname | Key::Appearance => EditorPage::Details,
        _ => EditorPage::Performance,
    }
}

/// The page that shows the field `key`.
pub fn field_page(key: Key) -> (r: EditorPage)
    ensures
        r == page_of(key),
{
    match key {
        Key::Nickname | Key::Appearance => EditorPage::Details,
        _ => EditorPage::Performance,
    }
}

// ---------------------------------------------------------------------------
// Form values
// ---------------------------------------------------------------------------

/// The text entered for `k`: the first entry for it.
pub open spec fn lookup(values: Seq<(Key, String)>, k: Key) -> Option<Seq<char>>
    decreases values.len(),
{
    if values.len() == 0 {
        None
    } else if values[0].0 == k {
        Some(values[0].1@)
    } else {
        lookup(values.drop_first(), k)
    }
}

/// Whether `k` was entered.
pub open spec fn entered(values: Seq<(Key, String)>, k: Key) -> bool {
    lookup(values, k) is Some
}

/// The trimmed text for `k`, empty when nothing was entered.
pub open spec fn text_of(values: Seq<(Key, String)>, k: Key) -> Seq<char> {
    trim(
        match lookup(values, k) {
            Some(v) => v,
            None => Seq::empty(),
        },
    )
}

pub(crate) fn lookup_exec(values: &Vec<(Key, String)>, k: Key) -> (r: Option<&String>)
    ensures
        match r {
            Some(s) => lookup(values@, k) == Some(s@),
            None => lookup(values@, k) is None,
        },
{
    let mut i: usize = 0;
    assert(values@.skip(0) =~= values@);
    while i < values.len()
        invariant
            i <= values.len(),
            lookup(values@, k) == lookup(values@.skip(i as int), k),
        decreases values.len() - i,
    {
        assert(values@.skip(i as int)[0] == values@[i as int]);
        if values[i].0 == k {
            return Some(&values[i].1);
        }
        assert(values@.skip(i as int).drop_first() =~= values@.skip(i as int + 1));
        i += 1;
    }
    None
}

fn has_exec(values: &Vec<(Key, String)>, k: Key) -> (r: bool)
    ensures
        r == entered(values@, k),
{
    lookup_exec(values, k).is_some()
}

fn text_exec(values: &Vec<(Key, String)>, k: Key) -> (r: Vec<char>)
    ensures
        r@ == text_of(values@, k),
{
    match lookup_exec(values, k) {
        Some(s) => trim_chars(&chars_of(s.as_str())),
        None => {
            let empty: Vec<char> = Vec::new();
            assert(trim(Seq::<char>::empty()) =~= Seq::<char>::empty());
            empty
        },
    }
}

fn is_text(v: &Vec<char>, t: &str) -> (r: bool)
    ensures
        r == (v@ == t@),
{
    chars_eq(v, &chars_of(t))
}

/// The whole number entered for `k`, or the message naming `label`.
pub open spec fn number_of(values: Seq<(Key, String)>, k: Key, label: Seq<char>) -> Result<u16, Seq<char>> {
    match parse_uint(text_of(values, k), 10, 0xffff) {
        Ok(v) => Ok(v as u16),
        Err(_) => Err("Enter a whole number from 0 to 65535 for "@ + label + "."@),
    }
}

fn number_exec(values: &Vec<(Key, String)>, k: Key, label: &str) -> (r: Result<u16, String>)
    ensures
        match number_of(values@, k, label@) {
            Ok(v) => r == Ok::<u16, String>(v),
            Err(m) => r matches Err(e) && e@ == m,
        },
{
    let t = text_exec(values, k);
    match parse_u16_radix(&t, 10) {
        Ok(v) => Ok(v),
        Err(_) => {
            let mut m = owned("Enter a whole number from 0 to 65535 for ");
            crate::text::push_str(&mut m, label);
            crate::text::push_str(&mut m, ".");
            Err(m)
        },
    }
}

// ---------------------------------------------------------------------------
// Which fields a device offers
// ---------------------------------------------------------------------------

/// Whether the form of `state` offers the field `k`; `colors` are the finishes
/// the device's model comes in.
pub open spec fn offers(state: DeviceState, colors: Seq<DeviceColor>, k: Key) -> bool {
    let caps = state.capabilities;
    match k {
        Key::Dpi => caps.supported_dpi matches Some(v) && v@.len() > 0,
        Key::Wired => !(caps.polling_rates is Unsupported),
        Key::Wireless => caps.polling_rates is PerConnection,
        Key::Lod => caps.lift_off_distance,
        Key::Surface => caps.surface_mode,
        Key::Operating => caps.operating_mode_switch,
        Key::Bhop | Key::Timeout => caps.bunny_hopping,
        Key::Source => caps.onboard_profiles,
        Key::Nickname => true,
        Key::Appearance => colors.len() > 0,
        Key::Lighting | Key::Color | Key::Period | Key::Brightness | Key::Zone => caps.color_led_effects,
    }
}

pub(crate) fn offers_exec(state: &DeviceState, colors: &Vec<DeviceColor>, k: Key) -> (r: bool)
    ensures
        r == offers(*state, colors@, k),
{
    let caps = &state.capabilities;
    match k {
        Key::Dpi => match &caps.supported_dpi {
            Some(v) => v.len() > 0,
            None => false,
        },
        Key::Wired => match &caps.polling_rates {
            PollingRateCapabilities::Unsupported => false,
            _ => true,
        },
        Key::Wireless => match &caps.polling_rates {
            PollingRateCapabilities::PerConnection { .. } => true,
            _ => false,
        },
        Key::Lod => caps.lift_off_distance,
        Key::Surface => caps.surface_mode,
        Key::Operating => caps.operating_mode_switch,
        Key::Bhop | Key::Timeout => caps.bunny_hopping,
        Key::Source => caps.onboard_profiles,
        Key::Nickname => true,
        Key::Appearance => colors.len() > 0,
        Key::Lighting | Key::Color | Key::Period | Key::Brightness | Key::Zone => caps.color_led_effects,
    }
}

/// The value the Source field shows for the configuration a device reports.
pub open spec fn source_value(state: DeviceState) -> Seq<char> {
    match state.settings.configuration_source {
        Some(ConfigurationSource::Host) => "host"@,
        Some(ConfigurationSource::Onboard { active_profile: Some(p) }) => decimal(p as nat),
        _ => Seq::empty(),
    }
}

/// Whether `v` is one of the Source choices: host control, a reported profile,
/// or the active profile.
pub open spec fn source_choice(state: DeviceState, v: Seq<char>) -> bool {
    ||| v == "host"@
    ||| (exists|p: int|
        1 <= p <= (match state.capabilities.onboard_profile_count {
            Some(n) => n as int,
            None => 0,
        }) && #[trigger] decimal(p as nat) == v)
    ||| (source_value(state).len() > 0 && v == source_value(state))
}

// ---------------------------------------------------------------------------
// The write plan
// ---------------------------------------------------------------------------

/// One write of the plan and the fields it settles.
#[derive(Clone, Debug, PartialEq, Eq)]
pub struct Change {
    pub keys: Vec<Key>,
    pub command: RequestCommand,
}

/// What a write says: the fields it settles and its request.
pub open spec fn change_view(c: Change) -> (Seq<Key>, RequestCommand) {
    (c.keys@, c.command)
}

/// The writes so far, followed by what one more step of the plan gives; the
/// first refusal stops the plan.
pub open spec fn then(
    acc: Result<Seq<(Seq<Key>, RequestCommand)>, Seq<char>>,
    step: Result<Option<(Seq<Key>, RequestCommand)>, Seq<char>>,
) -> Result<Seq<(Seq<Key>, RequestCommand)>, Seq<char>> {
    match acc {
        Err(m) => Err(m),
        Ok(cs) => match step {
            Err(m) => Err(m),
            Ok(None) => Ok(cs),
            Ok(Some(c)) => Ok(cs.push(c)),
        },
    }
}

/// A step's result, by its view.
pub open spec fn step_is(
    r: Result<Option<Change>, String>,
    s: Result<Option<(Seq<Key>, RequestCommand)>, Seq<char>>,
) -> bool {
    match s {
        Ok(None) => r matches Ok(None),
        Ok(Some(c)) => r matches Ok(Some(x)) && change_view(x) == c,
        Err(m) => r matches Err(e) && e@ == m,
    }
}

fn absorb(
    changes: &mut Vec<Change>,
    step: Result<Option<Change>, String>,
    Ghost(acc): Ghost<Seq<(Seq<Key>, RequestCommand)>>,
    Ghost(s): Ghost<Result<Option<(Seq<Key>, RequestCommand)>, Seq<char>>>,
) -> (r: Result<(), String>)
    requires
        old(changes)@.map_values(|c: Change| change_view(c)) == acc,
        step_is(step, s),
    ensures
        match then(Ok(acc), s) {
            Ok(cs) => r is Ok && final(changes)@.map_values(|c: Change| change_view(c)) == cs,
            Err(m) => r matches Err(e) && e@ == m,
        },
{
    match step {
        Err(e) => Err(e),
        Ok(None) => Ok(()),
        Ok(Some(c)) => {
            let ghost before = changes@;
            changes.push(c);
            assert(changes@.map_values(|c: Change| change_view(c)) =~= before.map_values(
                |c: Change| change_view(c),
            ).push(change_view(c)));
            Ok(())
        },
    }
}

/// The device must be ready.
pub open spec fn ready_step(state: DeviceState) -> Result<Option<(Seq<Key>, RequestCommand)>, Seq<char>> {
    if state.device.ready {
        Ok(None)
    } else {
        Err("The device is not ready."@)
    }
}

/// The first edited field, in field order from `n` on, that the form does not offer.
pub open spec fn first_unoffered(state: DeviceState, colors: Seq<DeviceColor>, dirty: Seq<(Key, String)>, n: int) -> Option<Key>
    decreases 16 - n,
{
    if n < 0 || n >= 16 {
        None
    } else if entered(dirty, all_keys()[n]) && !offers(state, colors, all_keys()[n]) {
        Some(all_keys()[n])
    } else {
        first_unoffered(state, colors, dirty, n + 1)
    }
}

/// Every edited field must be one that the form offers.
pub open spec fn offered_step(state: DeviceState, colors: Seq<DeviceColor>, dirty: Seq<(Key, String)>) -> Result<
    Option<(Seq<Key>, RequestCommand)>,
    Seq<char>,
> {
    match first_unoffered(state, colors, dirty, 0) {
        Some(k) => Err("This device does not support "@ + key_name(k) + "."@),
        None => Ok(None),
    }
}

fn offered_step_exec(state: &DeviceState, colors: &Vec<DeviceColor>, dirty: &Vec<(Key, String)>) -> (r: Result<Option<Change>, String>)
    ensures
        step_is(r, offered_step(*state, colors@, dirty@)),
{
    let keys = all_keys_exec();
    let mut n: usize = 0;
    while n < 16
        invariant
            n <= 16,
            keys@ == all_keys(),
            first_unoffered(*state, colors@, dirty@, 0) == first_unoffered(*state, colors@, dirty@, n as int),
        decreases 16 - n,
    {
        let k = keys[n];
        if has_exec(dirty, k) && !offers_exec(state, colors, k) {
            let mut m = owned("This device does not support ");
            crate::text::push_str(&mut m, key_name_exec(k));
            crate::text::push_str(&mut m, ".");
            return Err(m);
        }
        n += 1;
    }
    Ok(None)
}

/// The Source, the nickname or the colour.
pub open spec fn presentation_or_source(k: Key) -> bool {
    k == Key::Source || k == Key::Nickname || k == Key::Appearance
}

/// Every edited key is the Source, the nickname or the colour.
pub open spec fn only_presentation_and_source(dirty: Seq<(Key, String)>) -> bool {
    forall|i: int| 0 <= i < dirty.len() ==> presentation_or_source((#[trigger] dirty[i]).0)
}

/// The Source field: host control, or an existing onboard profile; switching
/// profiles goes alone, so later edits start from that profile's values.
pub open spec fn source_step(state: DeviceState, colors: Seq<DeviceColor>, values: Seq<(Key, String)>, dirty: Seq<(Key, String)>) -> Result<
    Option<(Seq<Key>, RequestCommand)>,
    Seq<char>,
> {
    if !entered(dirty, Key::Source) {
        Ok(None)
    } else {
        let t = text_of(values, Key::Source);
        let id = state.device.id;
        let command: Result<RequestCommand, Seq<char>> = if t == "host"@ {
            Ok(RequestCommand::UseHostSettings { device_id: id })
        } else {
            match number_of(values, Key::Source, "profile"@) {
                Err(m) => Err(m),
                Ok(p) => if p > 0 && offers(state, colors, Key::Source) && source_choice(state, t) {
                    Ok(RequestCommand::UseOnboardProfile { device_id: id, profile: p })
                } else {
                    Err("Choose a reported onboard profile."@)
                },
            }
        };
        match command {
            Err(m) => Err(m),
            Ok(c) => if t == "host"@ || only_presentation_and_source(dirty) {
                Ok(Some((seq![Key::Source], c)))
            } else {
                Err("Apply the onboard profile first, then edit its settings."@)
            },
        }
    }
}

fn is_source_choice(state: &DeviceState, t: &Vec<char>) -> (r: bool)
    ensures
        r == source_choice(*state, t@),
{
    if is_text(t, "host") {
        return true;
    }
    let count: u16 = match state.capabilities.onboard_profile_count {
        Some(n) => n as u16,
        None => 0,
    };
    let mut p: u16 = 1;
    while p <= count
        invariant
            1 <= p,
            p as int <= count as int + 1,
            count <= 255,
            count as int == (match state.capabilities.onboard_profile_count {
                Some(n) => n as int,
                None => 0,
            }),
            forall|q: int| 1 <= q < p ==> #[trigger] decimal(q as nat) != t@,
        decreases count as int + 1 - p as int,
    {
        if chars_eq(&decimal_chars(p as u128), t) {
            proof {
                let w: int = p as int;
                assert(1 <= w <= (match state.capabilities.onboard_profile_count {
                    Some(n) => n as int,
                    None => 0,
                }));
                assert(decimal(w as nat) == t@);
                assert(source_choice(*state, t@));
            }
            return true;
        }
        p += 1;
    }
    let current = match state.settings.configuration_source {
        Some(ConfigurationSource::Host) => chars_of("host"),
        Some(ConfigurationSource::Onboard { active_profile: Some(a) }) => decimal_chars(a as u128),
        _ => Vec::new(),
    };
    proof {
        assert(current@ == source_value(*state)) by {
            if !(state.settings.configuration_source matches Some(ConfigurationSource::Host))
                && !(state.settings.configuration_source matches Some(ConfigurationSource::Onboard { active_profile: Some(_) })) {
                assert(current@ =~= Seq::<char>::empty());
            }
        }
        if exists|q: int|
            1 <= q <= count && #[trigger] decimal(q as nat) == t@ {
            let q = choose|q: int| 1 <= q <= count && #[trigger] decimal(q as nat) == t@;
            assert(q < p);
        }
    }
    current.len() > 0 && chars_eq(&current, t)
}

fn source_step_exec(state: &DeviceState, colors: &Vec<DeviceColor>, values: &Vec<(Key, String)>, dirty: &Vec<(Key, String)>) -> (r: Result<Option<Change>, String>)
    ensures
        step_is(r, source_step(*state, colors@, values@, dirty@)),
{
    if !has_exec(dirty, Key::Source) {
        return Ok(None);
    }
    let t = text_exec(values, Key::Source);
    let id = state.device.id.clone();
    let host = is_text(&t, "host");
    let command = if host {
        RequestCommand::UseHostSettings { device_id: id }
    } else {
        let p = match number_exec(values, Key::Source, "profile") {
            Ok(p) => p,
            Err(e) => return Err(e),
        };
        if p > 0 && offers_exec(state, colors, Key::Source) && is_source_choice(state, &t) {
            RequestCommand::UseOnboardProfile { device_id: id, profile: p }
        } else {
            return Err(owned("Choose a reported onboard profile."));
        }
    };
    let mut only = true;
    let mut i: usize = 0;
    while i < dirty.len()
        invariant
            i <= dirty.len(),
            only == forall|j: int| 0 <= j < i ==> presentation_or_source((#[trigger] dirty@[j]).0),
        decreases dirty.len() - i,
    {
        match dirty[i].0 {
            Key::Source | Key::Nickname | Key::Appearance => {},
            _ => {
                only = false;
            },
        }
        i += 1;
    }
    if host || only {
        let mut keys: Vec<Key> = Vec::new();
        keys.push(Key::Source);
        assert(keys@ =~= seq![Key::Source]);
        Ok(Some(Change { keys, command }))
    } else {
        Err(owned("Apply the onboard profile first, then edit its settings."))
    }
}

fn single(k: Key) -> (r: Vec<Key>)
    ensures
        r@ == seq![k],
{
    let mut keys: Vec<Key> = Vec::new();
    keys.push(k);
    assert(keys@ =~= seq![k]);
    keys
}

/// The DPI field: a value the mouse reports as supported.
pub open spec fn dpi_step(state: DeviceState, values: Seq<(Key, String)>, dirty: Seq<(Key, String)>) -> Result<
    Option<(Seq<Key>, RequestCommand)>,
    Seq<char>,
> {
    if !entered(dirty, Key::Dpi) {
        Ok(None)
    } else {
        match number_of(values, Key::Dpi, "DPI"@) {
            Err(m) => Err(m),
            Ok(dpi) => if state.capabilities.supported_dpi matches Some(v) && v@.contains(dpi) {
                Ok(Some((seq![Key::Dpi], RequestCommand::SetDpi { device_id: state.device.id, dpi })))
            } else {
                Err("That DPI is not supported by this mouse. Choose a reported increment."@)
            },
        }
    }
}

pub(crate) fn contains_u16(v: &Vec<u16>, x: u16) -> (r: bool)
    ensures
        r == v@.contains(x),
{
    let mut i: usize = 0;
    while i < v.len()
        invariant
            i <= v.len(),
            forall|j: int| 0 <= j < i ==> v@[j] != x,
        decreases v.len() - i,
    {
        if v[i] == x {
            return true;
        }
        i += 1;
    }
    false
}

fn dpi_step_exec(state: &DeviceState, values: &Vec<(Key, String)>, dirty: &Vec<(Key, String)>) -> (r: Result<Option<Change>, String>)
    ensures
        step_is(r, dpi_step(*state, values@, dirty@)),
{
    if !has_exec(dirty, Key::Dpi) {
        return Ok(None);
    }
    let dpi = match number_exec(values, Key::Dpi, "DPI") {
        Ok(d) => d,
        Err(e) => return Err(e),
    };
    let supported = match &state.capabilities.supported_dpi {
        Some(v) => contains_u16(v, dpi),
        None => false,
    };
    if supported {
        Ok(Some(Change { keys: single(Key::Dpi), command: RequestCommand::SetDpi { device_id: state.device.id.clone(), dpi } }))
    } else {
        Err(owned("That DPI is not supported by this mouse. Choose a reported increment."))
    }
}

/// Whether the device reports `hz` for the connection of `key`.
pub open spec fn rate_supported(state: DeviceState, key: Key, hz: u16) -> bool {
    match state.capabilities.polling_rates {
        PollingRateCapabilities::Shared { supported_hz } => key == Key::Wired && supported_hz@.contains(hz),
        PollingRateCapabilities::PerConnection { wired_hz, wireless_hz } => if key == Key::Wired {
            wired_hz@.contains(hz)
        } else {
            wireless_hz@.contains(hz)
        },
        _ => false,
    }
}

/// A polling-rate field: a reported rate, and host control unless the same
/// plan selects it.
pub open spec fn rate_step(state: DeviceState, values: Seq<(Key, String)>, dirty: Seq<(Key, String)>, key: Key, connection: Connection) -> Result<
    Option<(Seq<Key>, RequestCommand)>,
    Seq<char>,
> {
    if !entered(dirty, key) {
        Ok(None)
    } else {
        match number_of(values, key, "polling rate"@) {
            Err(m) => Err(m),
            Ok(hz) => if !rate_supported(state, key, hz) {
                Err("That polling rate is not supported."@)
            } else if (state.settings.configuration_source matches Some(ConfigurationSource::Onboard { .. }))
                && !(entered(dirty, Key::Source) && text_of(values, Key::Source) == "host"@) {
                Err("Select Host control under Configuration to change polling rate."@)
            } else {
                Ok(Some((seq![key], RequestCommand::SetPollingRate {
                    device_id: state.device.id,
                    connection,
                    hz,
                    disable_onboard_profiles: false,
                })))
            },
        }
    }
}

fn rate_step_exec(state: &DeviceState, values: &Vec<(Key, String)>, dirty: &Vec<(Key, String)>, key: Key, connection: Connection) -> (r: Result<Option<Change>, String>)
    ensures
        step_is(r, rate_step(*state, values@, dirty@, key, connection)),
{
    if !has_exec(dirty, key) {
        return Ok(None);
    }
    let hz = match number_exec(values, key, "polling rate") {
        Ok(h) => h,
        Err(e) => return Err(e),
    };
    let supported = match &state.capabilities.polling_rates {
        PollingRateCapabilities::Shared { supported_hz } => key == Key::Wired && contains_u16(supported_hz, hz),
        PollingRateCapabilities::PerConnection { wired_hz, wireless_hz } => if key == Key::Wired {
            contains_u16(wired_hz, hz)
        } else {
            contains_u16(wireless_hz, hz)
        },
        _ => false,
    };
    if !supported {
        return Err(owned("That polling rate is not supported."));
    }
    let onboard = match state.settings.configuration_source {
        Some(ConfigurationSource::Onboard { .. }) => true,
        _ => false,
    };
    if onboard && !(has_exec(dirty, Key::Source) && is_text(&text_exec(values, Key::Source), "host")) {
        return Err(owned("Select Host control under Configuration to change polling rate."));
    }
    Ok(Some(Change {
        keys: single(key),
        command: RequestCommand::SetPollingRate {
            device_id: state.device.id.clone(),
            connection,
            hz,
            disable_onboard_profiles: false,
        },
    }))
}

/// A sensor choice field: the lift-off distance, the surface mode or the
/// operating mode, by the value its choice writes.
pub open spec fn choice_step(state: DeviceState, values: Seq<(Key, String)>, dirty: Seq<(Key, String)>, key: Key) -> Result<
    Option<(Seq<Key>, RequestCommand)>,
    Seq<char>,
> {
    let t = text_of(values, key);
    let id = state.device.id;
    if !entered(dirty, key) {
        Ok(None)
    } else if key == Key::Lod {
        if t == "low"@ {
            Ok(Some((seq![key], RequestCommand::SetLiftOffDistance { device_id: id, lod: LiftOffDistance::Low })))
        } else if t == "medium"@ {
            Ok(Some((seq![key], RequestCommand::SetLiftOffDistance { device_id: id, lod: LiftOffDistance::Medium })))
        } else if t == "high"@ {
            Ok(Some((seq![key], RequestCommand::SetLiftOffDistance { device_id: id, lod: LiftOffDistance::High })))
        } else {
            Err("Choose a lift-off distance."@)
        }
    } else if key == Key::Surface {
        if t == "on"@ {
            Ok(Some((seq![key], RequestCommand::SetSurfaceMode { device_id: id, mode: SurfaceMode::On })))
        } else if t == "automatic"@ {
            Ok(Some((seq![key], RequestCommand::SetSurfaceMode { device_id: id, mode: SurfaceMode::Automatic })))
        } else if t == "off"@ {
            Ok(Some((seq![key], RequestCommand::SetSurfaceMode { device_id: id, mode: SurfaceMode::Off })))
        } else {
            Err("Choose a surface mode."@)
        }
    } else {
        if t == "endurance"@ {
            Ok(Some((seq![key], RequestCommand::SetOperatingMode { device_id: id, mode: OperatingMode::Endurance })))
        } else if t == "performance"@ {
            Ok(Some((seq![key], RequestCommand::SetOperatingMode { device_id: id, mode: OperatingMode::Performance })))
        } else {
            Err("Choose an operating mode."@)
        }
    }
}

fn choice_step_exec(state: &DeviceState, values: &Vec<(Key, String)>, dirty: &Vec<(Key, String)>, key: Key) -> (r: Result<Option<Change>, String>)
    ensures
        step_is(r, choice_step(*state, values@, dirty@, key)),
{
    if !has_exec(dirty, key) {
        return Ok(None);
    }
    let t = text_exec(values, key);
    let id = state.device.id.clone();
    let command = if key == Key::Lod {
        if is_text(&t, "low") {
            RequestCommand::SetLiftOffDistance { device_id: id, lod: LiftOffDistance::Low }
        } else if is_text(&t, "medium") {
            RequestCommand::SetLiftOffDistance { device_id: id, lod: LiftOffDistance::Medium }
        } else if is_text(&t, "high") {
            RequestCommand::SetLiftOffDistance { device_id: id, lod: LiftOffDistance::High }
        } else {
            return Err(owned("Choose a lift-off distance."));
        }
    } else if key == Key::Surface {
        if is_text(&t, "on") {
            RequestCommand::SetSurfaceMode { device_id: id, mode: SurfaceMode::On }
        } else if is_text(&t, "automatic") {
            RequestCommand::SetSurfaceMode { device_id: id, mode: SurfaceMode::Automatic }
        } else if is_text(&t, "off") {
            RequestCommand::SetSurfaceMode { device_id: id, mode: SurfaceMode::Off }
        } else {
            return Err(owned("Choose a surface mode."));
        }
    } else {
        if is_text(&t, "endurance") {
            RequestCommand::SetOperatingMode { device_id: id, mode: OperatingMode::Endurance }
        } else if is_text(&t, "performance") {
            RequestCommand::SetOperatingMode { device_id: id, mode: OperatingMode::Performance }
        } else {
            return Err(owned("Choose an operating mode."));
        }
    };
    Ok(Some(Change { keys: single(key), command }))
}

/// The bunny-hopping fields: a mode and a timeout of 100 to 1000 ms in 100 ms steps.
pub open spec fn bhop_step(state: DeviceState, values: Seq<(Key, String)>, dirty: Seq<(Key, String)>) -> Result<
    Option<(Seq<Key>, RequestCommand)>,
    Seq<char>,
> {
    let mode = text_of(values, Key::Bhop);
    if !entered(dirty, Key::Bhop) && !entered(dirty, Key::Timeout) {
        Ok(None)
    } else if !(mode == "on"@ || mode == "off"@) {
        Err("Choose a bunny hopping mode."@)
    } else {
        match number_of(values, Key::Timeout, "timeout"@) {
            Err(m) => Err(m),
            Ok(t) => if 100 <= t <= 1000 && t % 100 == 0 {
                Ok(Some((seq![Key::Bhop, Key::Timeout], RequestCommand::SetBunnyHopping {
                    device_id: state.device.id,
                    enabled: mode == "on"@,
                    timeout_ms: t,
                })))
            } else {
                Err("Bunny hopping timeout must be 100–1000 ms in 100 ms steps."@)
            },
        }
    }
}

fn bhop_step_exec(state: &DeviceState, values: &Vec<(Key, String)>, dirty: &Vec<(Key, String)>) -> (r: Result<Option<Change>, String>)
    ensures
        step_is(r, bhop_step(*state, values@, dirty@)),
{
    if !has_exec(dirty, Key::Bhop) && !has_exec(dirty, Key::Timeout) {
        return Ok(None);
    }
    let mode = text_exec(values, Key::Bhop);
    let on = is_text(&mode, "on");
    if !(on || is_text(&mode, "off")) {
        return Err(owned("Choose a bunny hopping mode."));
    }
    let t = match number_exec(values, Key::Timeout, "timeout") {
        Ok(t) => t,
        Err(e) => return Err(e),
    };
    if !(100 <= t && t <= 1000 && t % 100 == 0) {
        return Err(owned("Bunny hopping timeout must be 100–1000 ms in 100 ms steps."));
    }
    let mut keys: Vec<Key> = Vec::new();
    keys.push(Key::Bhop);
    keys.push(Key::Timeout);
    assert(keys@ =~= seq![Key::Bhop, Key::Timeout]);
    Ok(Some(Change {
        keys,
        command: RequestCommand::SetBunnyHopping { device_id: state.device.id.clone(), enabled: on, timeout_ms: t },
    }))
}

/// `s` without every leading `#`.
pub open spec fn strip_hashes(s: Seq<char>) -> Seq<char>
    decreases s.len(),
{
    if s.len() > 0 && s[0] == '#' {
        strip_hashes(s.drop_first())
    } else {
        s
    }
}

/// The colour field: six bytes of hexadecimal after any number of `#`.
pub open spec fn color_of(values: Seq<(Key, String)>) -> Result<RgbColor, Seq<char>> {
    let hex = strip_hashes(text_of(values, Key::Color));
    if byte_len(hex) != 6 {
        Err("Enter a six-digit RGB color."@)
    } else {
        match parse_uint(hex, 16, 0xffff_ffff) {
            Err(_) => Err("Enter a valid RGB color."@),
            Ok(v) => Ok(RgbColor { red: ((v / 65536) % 256) as u8, green: ((v / 256) % 256) as u8, blue: (v % 256) as u8 }),
        }
    }
}

fn color_exec(values: &Vec<(Key, String)>) -> (r: Result<RgbColor, String>)
    ensures
        match color_of(values@) {
            Ok(c) => r == Ok::<RgbColor, String>(c),
            Err(m) => r matches Err(e) && e@ == m,
        },
{
    let t = text_exec(values, Key::Color);
    let mut i: usize = 0;
    assert(t@.skip(0) =~= t@);
    while i < t.len() && t[i] == '#'
        invariant
            i <= t.len(),
            strip_hashes(t@) == strip_hashes(t@.skip(i as int)),
        decreases t.len() - i,
    {
        assert(t@.skip(i as int).drop_first() =~= t@.skip(i as int + 1));
        i += 1;
    }
    let hex = slice(&t, i, t.len());
    assert(hex@ == t@.skip(i as int));
    let mut bytes: u128 = 0;
    let mut k: usize = 0;
    while k < hex.len()
        invariant
            k <= hex.len(),
            bytes == byte_len(hex@.take(k as int)),
            bytes <= 4 * k,
        decreases hex.len() - k,
    {
        proof {
            assert(hex@.take(k as int + 1).drop_last() =~= hex@.take(k as int));
        }
        bytes = bytes + crate::text::width_of(hex[k]) as u128;
        k += 1;
    }
    assert(hex@.take(k as int) =~= hex@);
    if bytes != 6 {
        return Err(owned("Enter a six-digit RGB color."));
    }
    match parse_u32_radix(&hex, 16) {
        Err(_) => Err(owned("Enter a valid RGB color.")),
        Ok(v) => Ok(RgbColor { red: ((v / 65536) % 256) as u8, green: ((v / 256) % 256) as u8, blue: (v % 256) as u8 }),
    }
}

/// The period and brightness fields of an animated effect.
pub open spec fn timing_of(values: Seq<(Key, String)>) -> Result<(u16, u8), Seq<char>> {
    match number_of(values, Key::Period, "period"@) {
        Err(m) => Err(m),
        Ok(period) => match number_of(values, Key::Brightness, "brightness"@) {
            Err(m) => Err(m),
            Ok(b) => if period > 0 && 1 <= b <= 100 {
                Ok((period, b as u8))
            } else {
                Err("Period must be positive and brightness must be 1–100%."@)
            },
        },
    }
}

fn timing_exec(values: &Vec<(Key, String)>) -> (r: Result<(u16, u8), String>)
    ensures
        match timing_of(values@) {
            Ok(t) => r == Ok::<(u16, u8), String>(t),
            Err(m) => r matches Err(e) && e@ == m,
        },
{
    let period = match number_exec(values, Key::Period, "period") {
        Ok(p) => p,
        Err(e) => return Err(e),
    };
    let b = match number_exec(values, Key::Brightness, "brightness") {
        Ok(b) => b,
        Err(e) => return Err(e),
    };
    if period > 0 && 1 <= b && b <= 100 {
        Ok((period, b as u8))
    } else {
        Err(owned("Period must be positive and brightness must be 1–100%."))
    }
}

/// The fields of the lighting group.
pub open spec fn lighting_keys() -> Seq<Key> {
    seq![Key::Lighting, Key::Color, Key::Period, Key::Brightness, Key::Zone]
}

/// The lighting effect the form describes.
pub open spec fn effect_of(values: Seq<(Key, String)>) -> Result<LightingEffect, Seq<char>> {
    let kind = text_of(values, Key::Lighting);
    if kind == "off"@ {
        Ok(LightingEffect::Disabled)
    } else if kind == "fixed"@ {
        match color_of(values) {
            Err(m) => Err(m),
            Ok(color) => Ok(LightingEffect::Fixed { color }),
        }
    } else if kind == "cycling"@ {
        match timing_of(values) {
            Err(m) => Err(m),
            Ok((period_ms, brightness)) => Ok(LightingEffect::Cycling { period_ms, brightness }),
        }
    } else if kind == "breathing"@ {
        match timing_of(values) {
            Err(m) => Err(m),
            Ok((period_ms, brightness)) => match color_of(values) {
                Err(m) => Err(m),
                Ok(color) => Ok(LightingEffect::Breathing { color, period_ms, brightness }),
            },
        }
    } else {
        Err("Choose a lighting effect to apply."@)
    }
}

/// The lighting group: firmware control, or an effect and a zone of 0 to 255.
pub open spec fn lighting_step(state: DeviceState, values: Seq<(Key, String)>, dirty: Seq<(Key, String)>) -> Result<
    Option<(Seq<Key>, RequestCommand)>,
    Seq<char>,
> {
    let id = state.device.id;
    if !(entered(dirty, Key::Lighting) || entered(dirty, Key::Color) || entered(dirty, Key::Period)
        || entered(dirty, Key::Brightness) || entered(dirty, Key::Zone)) {
        Ok(None)
    } else if text_of(values, Key::Lighting) == "firmware"@ {
        Ok(Some((lighting_keys(), RequestCommand::UseFirmwareLighting { device_id: id })))
    } else {
        match effect_of(values) {
            Err(m) => Err(m),
            Ok(effect) => match number_of(values, Key::Zone, "zone"@) {
                Err(m) => Err(m),
                Ok(zone) => if zone <= 255 {
                    Ok(Some((lighting_keys(), RequestCommand::SetLighting { device_id: id, zone: zone as u8, effect })))
                } else {
                    Err("Zone must be 0–255."@)
                },
            },
        }
    }
}

fn lighting_keys_exec() -> (r: Vec<Key>)
    ensures
        r@ == lighting_keys(),
{
    let keys = vec![Key::Lighting, Key::Color, Key::Period, Key::Brightness, Key::Zone];
    assert(keys@ =~= lighting_keys());
    keys
}

fn lighting_step_exec(state: &DeviceState, values: &Vec<(Key, String)>, dirty: &Vec<(Key, String)>) -> (r: Result<Option<Change>, String>)
    ensures
        step_is(r, lighting_step(*state, values@, dirty@)),
{
    if !(has_exec(dirty, Key::Lighting) || has_exec(dirty, Key::Color) || has_exec(dirty, Key::Period)
        || has_exec(dirty, Key::Brightness) || has_exec(dirty, Key::Zone)) {
        return Ok(None);
    }
    let keys = lighting_keys_exec();
    let id = state.device.id.clone();
    let kind = text_exec(values, Key::Lighting);
    if is_text(&kind, "firmware") {
        return Ok(Some(Change { keys, command: RequestCommand::UseFirmwareLighting { device_id: id } }));
    }
    let effect = if is_text(&kind, "off") {
        LightingEffect::Disabled
    } else if is_text(&kind, "fixed") {
        match color_exec(values) {
            Ok(color) => LightingEffect::Fixed { color },
            Err(e) => return Err(e),
        }
    } else if is_text(&kind, "cycling") {
        match timing_exec(values) {
            Ok((period_ms, brightness)) => LightingEffect::Cycling { period_ms, brightness },
            Err(e) => return Err(e),
        }
    } else if is_text(&kind, "breathing") {
        let (period_ms, brightness) = match timing_exec(values) {
            Ok(t) => t,
            Err(e) => return Err(e),
        };
        match color_exec(values) {
            Ok(color) => LightingEffect::Breathing { color, period_ms, brightness },
            Err(e) => return Err(e),
        }
    } else {
        return Err(owned("Choose a lighting effect to apply."));
    };
    let zone = match number_exec(values, Key::Zone, "zone") {
        Ok(z) => z,
        Err(e) => return Err(e),
    };
    if zone > 255 {
        return Err(owned("Zone must be 0–255."));
    }
    Ok(Some(Change { keys, command: RequestCommand::SetLighting { device_id: id, zone: zone as u8, effect } }))
}

/// The first colour of the list with the name `t`.
pub open spec fn named_color(colors: Seq<DeviceColor>, t: Seq<char>) -> Option<DeviceColor>
    decreases colors.len(),
{
    if colors.len() == 0 {
        None
    } else if color_text(colors[0]) == t {
        Some(colors[0])
    } else {
        named_color(colors.drop_first(), t)
    }
}

/// The colour field: one of the finishes of the mouse's model.
pub open spec fn appearance_step(state: DeviceState, colors: Seq<DeviceColor>, values: Seq<(Key, String)>, dirty: Seq<(Key, String)>) -> Result<
    Option<(Seq<Key>, RequestCommand)>,
    Seq<char>,
> {
    if !entered(dirty, Key::Appearance) {
        Ok(None)
    } else {
        match named_color(colors, text_of(values, Key::Appearance)) {
            Some(color) => Ok(Some((seq![Key::Appearance], RequestCommand::SetDeviceColor { device_id: state.device.id, color }))),
            None => Err("Choose an available mouse color."@),
        }
    }
}

fn appearance_step_exec(state: &DeviceState, colors: &Vec<DeviceColor>, values: &Vec<(Key, String)>, dirty: &Vec<(Key, String)>) -> (r: Result<Option<Change>, String>)
    ensures
        step_is(r, appearance_step(*state, colors@, values@, dirty@)),
{
    if !has_exec(dirty, Key::Appearance) {
        return Ok(None);
    }
    let t = text_exec(values, Key::Appearance);
    let mut i: usize = 0;
    assert(colors@.skip(0) =~= colors@);
    while i < colors.len()
        invariant
            i <= colors.len(),
            named_color(colors@, t@) == named_color(colors@.skip(i as int), t@),
            entered(dirty@, Key::Appearance),
            t@ == text_of(values@, Key::Appearance),
        decreases colors.len() - i,
    {
        assert(colors@.skip(i as int)[0] == colors@[i as int]);
        if is_text(&t, colors[i].as_str()) {
            assert(named_color(colors@.skip(i as int), t@) == Some(colors@[i as int]));
            let id = state.device.id.clone();
            let color = colors[i];
            let keys = single(Key::Appearance);
            return Ok(Some(Change { keys, command: RequestCommand::SetDeviceColor { device_id: id, color } }));
        }
        assert(colors@.skip(i as int).drop_first() =~= colors@.skip(i as int + 1));
        i += 1;
    }
    Err(owned("Choose an available mouse color."))
}

/// The nickname field: at most 64 characters; an empty one clears the name.
/// `nickname` stands for the text of the field.
pub open spec fn nickname_step(state: DeviceState, values: Seq<(Key, String)>, dirty: Seq<(Key, String)>, nickname: String) -> Result<
    Option<(Seq<Key>, RequestCommand)>,
    Seq<char>,
> {
    let t = text_of(values, Key::Nickname);
    if !entered(dirty, Key::Nickname) {
        Ok(None)
    } else if t.len() > 64 {
        Err("Device names must be at most 64 characters."@)
    } else {
        Ok(Some((seq![Key::Nickname], RequestCommand::SetDeviceNickname {
            device_id: state.device.id,
            nickname: if t.len() == 0 {
                None
            } else {
                Some(nickname)
            },
        })))
    }
}

/// The write plan for the edited fields `dirty`, all values of the form being
/// `values`: each step in turn, stopping at the first refusal. `colors` are the
/// finishes of the mouse's model; `nickname` stands for the nickname text.
pub open spec fn plan_of(
    state: DeviceState,
    colors: Seq<DeviceColor>,
    values: Seq<(Key, String)>,
    dirty: Seq<(Key, String)>,
    nickname: String,
) -> Result<Seq<(Seq<Key>, RequestCommand)>, Seq<char>> {
    let a0 = then(Ok(Seq::empty()), ready_step(state));
    let a1 = then(a0, offered_step(state, colors, dirty));
    let a2 = then(a1, source_step(state, colors, values, dirty));
    let a3 = then(a2, dpi_step(state, values, dirty));
    let a4 = then(a3, rate_step(state, values, dirty, Key::Wired, Connection::Wired));
    let a5 = then(a4, rate_step(state, values, dirty, Key::Wireless, Connection::Wireless));
    let a6 = then(a5, choice_step(state, values, dirty, Key::Lod));
    let a7 = then(a6, choice_step(state, values, dirty, Key::Surface));
    let a8 = then(a7, choice_step(state, values, dirty, Key::Operating));
    let a9 = then(a8, bhop_step(state, values, dirty));
    let a10 = then(a9, lighting_step(state, values, dirty));
    let a11 = then(a10, appearance_step(state, colors, values, dirty));
    then(a11, nickname_step(state, values, dirty, nickname))
}

/// The lift-off distance that a device reports, if any.
pub open spec fn shown_lod(state: DeviceState) -> Option<LiftOffDistance> {
    match state.settings.dpi {
        Some(d) => d.lift_off_distance,
        None => None,
    }
}

/// A choice field that still holds the value the form first showed for it
/// writes back exactly the setting the device reported: the form's value and
/// the planned command are inverse on the lift-off distance, the surface
/// mode and the operating mode.
pub proof fn law_choice_fields_round_trip(
    state: DeviceState,
    values: Seq<(Key, String)>,
    dirty: Seq<(Key, String)>,
    key: Key,
)
    requires
        entered(dirty, key),
        text_of(values, key) == initial_value(state, key),
    ensures
        key == Key::Lod && shown_lod(state) is Some ==> choice_step(state, values, dirty, key) == Ok::<
            Option<(Seq<Key>, RequestCommand)>,
            Seq<char>,
        >(
            Some(
                (
                    seq![key],
                    RequestCommand::SetLiftOffDistance { device_id: state.device.id, lod: shown_lod(state)->0 },
                ),
            ),
        ),
        key == Key::Surface && state.settings.surface_mode is Some ==> choice_step(state, values, dirty, key)
            == Ok::<Option<(Seq<Key>, RequestCommand)>, Seq<char>>(
            Some(
                (
                    seq![key],
                    RequestCommand::SetSurfaceMode {
                        device_id: state.device.id,
                        mode: state.settings.surface_mode->0,
                    },
                ),
            ),
        ),
        key == Key::Operating && state.settings.operating_mode is Some ==> choice_step(state, values, dirty, key)
            == Ok::<Option<(Seq<Key>, RequestCommand)>, Seq<char>>(
            Some(
                (
                    seq![key],
                    RequestCommand::SetOperatingMode {
                        device_id: state.device.id,
                        mode: state.settings.operating_mode->0,
                    },
                ),
            ),
        ),
{
    reveal_strlit("low");
    reveal_strlit("medium");
    reveal_strlit("high");
    reveal_strlit("on");
    reveal_strlit("automatic");
    reveal_strlit("off");
    reveal_strlit("endurance");
    reveal_strlit("performance");
    assert("low"@ != "medium"@ && "low"@ != "high"@ && "medium"@ != "high"@) by {
        assert("low"@.len() != "medium"@.len() && "low"@.len() != "high"@.len());
        assert("medium"@.len() != "high"@.len());
    }
    assert("on"@ != "automatic"@ && "on"@ != "off"@ && "automatic"@ != "off"@) by {
        assert("on"@.len() != "automatic"@.len() && "on"@.len() != "off"@.len());
        assert("automatic"@.len() != "off"@.len());
    }
    assert("endurance"@ != "performance"@) by {
        assert("endurance"@.len() != "performance"@.len());
    }
}

/// Whether the polling-rate capability and the reported rate are of the same
/// kind.
pub open spec fn rates_agree(state: DeviceState) -> bool {
    ||| (state.capabilities.polling_rates is Shared && state.settings.polling_rate is Shared)
    ||| (state.capabilities.polling_rates is PerConnection && state.settings.polling_rate is PerConnection)
}

/// Whether the device is under host control, so that a rate may be written.
pub open spec fn under_host_control(state: DeviceState) -> bool {
    !(state.settings.configuration_source matches Some(ConfigurationSource::Onboard { .. }))
}

/// A number field that still holds the value the form first showed for it
/// writes back exactly what the device reported, wherever that value may be
/// written: the DPI, and the polling rate over each connection.
pub proof fn law_number_fields_round_trip(
    state: DeviceState,
    values: Seq<(Key, String)>,
    dirty: Seq<(Key, String)>,
    key: Key,
)
    requires
        entered(dirty, key),
        text_of(values, key) == initial_value(state, key),
    ensures
        key == Key::Dpi && state.settings.dpi is Some && (state.capabilities.supported_dpi matches Some(v)
            && v@.contains(state.settings.dpi->0.current_x)) ==> dpi_step(state, values, dirty) == Ok::<
            Option<(Seq<Key>, RequestCommand)>,
            Seq<char>,
        >(
            Some(
                (
                    seq![Key::Dpi],
                    RequestCommand::SetDpi { device_id: state.device.id, dpi: state.settings.dpi->0.current_x },
                ),
            ),
        ),
        key == Key::Wired && rates_agree(state) && under_host_control(state) && rate_supported(
            state,
            Key::Wired,
            crate::restore::rate_over(state.settings.polling_rate, Connection::Wired)->0,
        ) ==> rate_step(state, values, dirty, Key::Wired, Connection::Wired) == Ok::<
            Option<(Seq<Key>, RequestCommand)>,
            Seq<char>,
        >(
            Some(
                (
                    seq![Key::Wired],
                    RequestCommand::SetPollingRate {
                        device_id: state.device.id,
                        connection: Connection::Wired,
                        hz: crate::restore::rate_over(state.settings.polling_rate, Connection::Wired)->0,
                        disable_onboard_profiles: false,
                    },
                ),
            ),
        ),
        key == Key::Wireless && state.settings.polling_rate is PerConnection && under_host_control(state)
            && rate_supported(
            state,
            Key::Wireless,
            crate::restore::rate_over(state.settings.polling_rate, Connection::Wireless)->0,
        ) ==> rate_step(state, values, dirty, Key::Wireless, Connection::Wireless) == Ok::<
            Option<(Seq<Key>, RequestCommand)>,
            Seq<char>,
        >(
            Some(
                (
                    seq![Key::Wireless],
                    RequestCommand::SetPollingRate {
                        device_id: state.device.id,
                        connection: Connection::Wireless,
                        hz: crate::restore::rate_over(state.settings.polling_rate, Connection::Wireless)->0,
                        disable_onboard_profiles: false,
                    },
                ),
            ),
        ),
{
    match state.settings.dpi {
        Some(d) => crate::int_parse::lemma_parse_decimal(d.current_x as nat, 0xffff),
        None => {},
    }
    match state.settings.polling_rate {
        PollingRateState::Shared { hz } => crate::int_parse::lemma_parse_decimal(hz as nat, 0xffff),
        PollingRateState::PerConnection { wired_hz, wireless_hz } => {
            crate::int_parse::lemma_parse_decimal(wired_hz as nat, 0xffff);
            crate::int_parse::lemma_parse_decimal(wireless_hz as nat, 0xffff);
        },
        PollingRateState::Unsupported => {},
    }
}

/// The bunny-hopping fields, while they still hold the values the form
/// first showed, write back the reported switch and timeout (a timeout the
/// form accepts: 100 to 1000 ms in 100 ms steps).
pub proof fn law_bunny_hopping_round_trip(state: DeviceState, values: Seq<(Key, String)>, dirty: Seq<(Key, String)>)
    requires
        entered(dirty, Key::Bhop) || entered(dirty, Key::Timeout),
        text_of(values, Key::Bhop) == initial_value(state, Key::Bhop),
        text_of(values, Key::Timeout) == initial_value(state, Key::Timeout),
        state.settings.bunny_hopping is Some,
        100 <= state.settings.bunny_hopping->0.timeout_ms <= 1000,
        state.settings.bunny_hopping->0.timeout_ms % 100 == 0,
    ensures
        bhop_step(state, values, dirty) == Ok::<Option<(Seq<Key>, RequestCommand)>, Seq<char>>(
            Some(
                (
                    seq![Key::Bhop, Key::Timeout],
                    RequestCommand::SetBunnyHopping {
                        device_id: state.device.id,
                        enabled: state.settings.bunny_hopping->0.enabled,
                        timeout_ms: state.settings.bunny_hopping->0.timeout_ms,
                    },
                ),
            ),
        ),
{
    reveal_strlit("on");
    reveal_strlit("off");
    assert("on"@ != "off"@) by {
        assert("on"@.len() != "off"@.len());
    }
    crate::int_parse::lemma_parse_decimal(state.settings.bunny_hopping->0.timeout_ms as nat, 0xffff);
}

/// Each colour has a name of its own.
pub proof fn lemma_color_names_differ(a: DeviceColor, b: DeviceColor)
    ensures
        color_text(a) == color_text(b) ==> a == b,
{
    reveal_strlit("black");
    reveal_strlit("white");
    reveal_strlit("red");
    reveal_strlit("magenta");
    reveal_strlit("cyan");
    reveal_strlit("blue");
    reveal_strlit("lilac");
    reveal_strlit("mint");
    if color_text(a) == color_text(b) {
        assert(color_text(a).len() == color_text(b).len());
        assert(color_text(a)[0] == color_text(b)[0]);
    }
}

proof fn lemma_named_color_finds(colors: Seq<DeviceColor>, c: DeviceColor)
    requires
        colors.contains(c),
    ensures
        named_color(colors, color_text(c)) == Some(c),
    decreases colors.len(),
{
    lemma_color_names_differ(colors[0], c);
    if colors[0] != c {
        let k = choose|k: int| 0 <= k < colors.len() && colors[k] == c;
        assert(colors.drop_first()[k - 1] == c);
        lemma_named_color_finds(colors.drop_first(), c);
    }
}

/// The colour field, while it still holds the colour the form first showed,
/// writes back the device's colour, when its model comes in that colour.
pub proof fn law_appearance_round_trip(
    state: DeviceState,
    colors: Seq<DeviceColor>,
    values: Seq<(Key, String)>,
    dirty: Seq<(Key, String)>,
)
    requires
        entered(dirty, Key::Appearance),
        text_of(values, Key::Appearance) == initial_value(state, Key::Appearance),
        colors.contains(state.device.color),
    ensures
        appearance_step(state, colors, values, dirty) == Ok::<Option<(Seq<Key>, RequestCommand)>, Seq<char>>(
            Some(
                (
                    seq![Key::Appearance],
                    RequestCommand::SetDeviceColor { device_id: state.device.id, color: state.device.color },
                ),
            ),
        ),
{
    lemma_named_color_finds(colors, state.device.color);
}

/// The configuration field, while it still holds the source the form first
/// showed, writes back that source: host control, or the active onboard
/// profile (a profile number above zero, with nothing but presentation
/// edited beside it).
pub proof fn law_source_round_trip(
    state: DeviceState,
    colors: Seq<DeviceColor>,
    values: Seq<(Key, String)>,
    dirty: Seq<(Key, String)>,
)
    requires
        entered(dirty, Key::Source),
        text_of(values, Key::Source) == initial_value(state, Key::Source),
    ensures
        state.settings.configuration_source == Some(ConfigurationSource::Host) ==> source_step(
            state,
            colors,
            values,
            dirty,
        ) == Ok::<Option<(Seq<Key>, RequestCommand)>, Seq<char>>(
            Some((seq![Key::Source], RequestCommand::UseHostSettings { device_id: state.device.id })),
        ),
        (state.settings.configuration_source matches Some(ConfigurationSource::Onboard { active_profile: Some(p) })
            && p > 0) && offers(state, colors, Key::Source) && only_presentation_and_source(dirty) ==> source_step(
            state,
            colors,
            values,
            dirty,
        ) == Ok::<Option<(Seq<Key>, RequestCommand)>, Seq<char>>(
            Some(
                (
                    seq![Key::Source],
                    RequestCommand::UseOnboardProfile {
                        device_id: state.device.id,
                        profile: state.settings.configuration_source->0->active_profile->0,
                    },
                ),
            ),
        ),
{
    reveal_strlit("host");
    match state.settings.configuration_source {
        Some(ConfigurationSource::Onboard { active_profile: Some(p) }) => {
            crate::int_parse::lemma_parse_decimal(p as nat, 0xffff);
            crate::int_parse::lemma_digit_text_digits(p as nat);
            crate::text::lemma_decimal_is_digit_text(p as nat);
            assert('0' <= decimal(p as nat)[0] <= '9');
            assert(decimal(p as nat) != "host"@);
        },
        _ => {},
    }
}

/// Past position `n`, no edited field is one the form leaves out.
proof fn lemma_no_unoffered_from(state: DeviceState, colors: Seq<DeviceColor>, dirty: Seq<(Key, String)>, n: int, m: int)
    requires
        0 <= n <= m < 16,
        first_unoffered(state, colors, dirty, n) is None,
    ensures
        !(entered(dirty, all_keys()[m]) && !offers(state, colors, all_keys()[m])),
    decreases m - n,
{
    if n < m {
        lemma_no_unoffered_from(state, colors, dirty, n + 1, m);
    }
}

/// Every field has its place in field order.
proof fn lemma_key_place(k: Key)
    ensures
        0 <= key_index(k) < 16,
        all_keys()[key_index(k)] == k,
{
}

/// A plan that goes through writes only fields the device offers: every
/// edited field is one the form offers for it.
pub proof fn law_plans_only_offered_fields(
    state: DeviceState,
    colors: Seq<DeviceColor>,
    values: Seq<(Key, String)>,
    dirty: Seq<(Key, String)>,
    nickname: String,
    k: Key,
)
    requires
        plan_of(state, colors, values, dirty, nickname) is Ok,
        entered(dirty, k),
    ensures
        offers(state, colors, k),
{
    assert(offered_step(state, colors, dirty) is Ok);
    lemma_key_place(k);
    lemma_no_unoffered_from(state, colors, dirty, 0, key_index(k));
}

/// Switching to an onboard profile goes alone: a plan that switches profiles
/// edits nothing else on the device; only the name and colour, which the
/// host keeps, may go with it.
pub proof fn law_profile_switch_goes_alone(
    state: DeviceState,
    colors: Seq<DeviceColor>,
    values: Seq<(Key, String)>,
    dirty: Seq<(Key, String)>,
    nickname: String,
)
    requires
        plan_of(state, colors, values, dirty, nickname) is Ok,
        entered(dirty, Key::Source),
        text_of(values, Key::Source) != "host"@,
    ensures
        only_presentation_and_source(dirty),
{
    assert(source_step(state, colors, values, dirty) is Ok);
}

/// A polling rate changes only under host control: on a device that follows
/// an onboard profile, a plan that changes a rate also takes host control.
pub proof fn law_polling_needs_host_control(
    state: DeviceState,
    colors: Seq<DeviceColor>,
    values: Seq<(Key, String)>,
    dirty: Seq<(Key, String)>,
    nickname: String,
)
    requires
        plan_of(state, colors, values, dirty, nickname) is Ok,
        entered(dirty, Key::Wired) || entered(dirty, Key::Wireless),
        state.settings.configuration_source matches Some(ConfigurationSource::Onboard { .. }),
    ensures
        entered(dirty, Key::Source),
        text_of(values, Key::Source) == "host"@,
{
    assert(rate_step(state, values, dirty, Key::Wired, Connection::Wired) is Ok);
    assert(rate_step(state, values, dirty, Key::Wireless, Connection::Wireless) is Ok);
}

/// Plans the writes for the edited fields of the settings form.
pub fn plan(state: &DeviceState, colors: &Vec<DeviceColor>, values: &Vec<(Key, String)>, dirty: &Vec<(Key, String)>) -> (r: Result<Vec<Change>, String>)
    ensures
        exists|nickname: String|
            #![trigger plan_of(*state, colors@, values@, dirty@, nickname)]
            {
                &&& nickname@ == text_of(values@, Key::Nickname)
                &&& match plan_of(*state, colors@, values@, dirty@, nickname) {
                    Ok(cs) => r matches Ok(v) && v@.map_values(|c: Change| change_view(c)) == cs,
                    Err(m) => r matches Err(e) && e@ == m,
                }
            },
{
    let nick_text = text_exec(values, Key::Nickname);
    let nickname = string_of(&nick_text);
    let ghost nick = nickname;
    let r = plan_with(state, colors, values, dirty, &nick_text, nickname);
    assert(plan_of(*state, colors@, values@, dirty@, nick) == plan_of(*state, colors@, values@, dirty@, nick));
    r
}

fn plan_with(
    state: &DeviceState,
    colors: &Vec<DeviceColor>,
    values: &Vec<(Key, String)>,
    dirty: &Vec<(Key, String)>,
    nick_text: &Vec<char>,
    nickname: String,
) -> (r: Result<Vec<Change>, String>)
    requires
        nick_text@ == text_of(values@, Key::Nickname),
        nickname@ == nick_text@,
    ensures
        match plan_of(*state, colors@, values@, dirty@, nickname) {
            Ok(cs) => r matches Ok(v) && v@.map_values(|c: Change| change_view(c)) == cs,
            Err(m) => r matches Err(e) && e@ == m,
        },
{
    let ghost nick = nickname;
    let mut changes: Vec<Change> = Vec::new();
    assert(changes@.map_values(|c: Change| change_view(c)) =~= Seq::<(Seq<Key>, RequestCommand)>::empty());
    let ready = if state.device.ready {
        Ok(None)
    } else {
        Err(owned("The device is not ready."))
    };
    let ghost a0 = then(Ok(Seq::empty()), ready_step(*state));
    if let Err(e) = absorb(&mut changes, ready, Ghost(Seq::empty()), Ghost(ready_step(*state))) {
        return Err(e);
    }
    let ghost a1 = then(a0, offered_step(*state, colors@, dirty@));
    if let Err(e) = absorb(&mut changes, offered_step_exec(state, colors, dirty), Ghost(a0->Ok_0), Ghost(offered_step(*state, colors@, dirty@))) {
        return Err(e);
    }
    let ghost a2 = then(a1, source_step(*state, colors@, values@, dirty@));
    if let Err(e) = absorb(&mut changes, source_step_exec(state, colors, values, dirty), Ghost(a1->Ok_0), Ghost(source_step(*state, colors@, values@, dirty@))) {
        return Err(e);
    }
    let ghost a3 = then(a2, dpi_step(*state, values@, dirty@));
    if let Err(e) = absorb(&mut changes, dpi_step_exec(state, values, dirty), Ghost(a2->Ok_0), Ghost(dpi_step(*state, values@, dirty@))) {
        return Err(e);
    }
    let ghost a4 = then(a3, rate_step(*state, values@, dirty@, Key::Wired, Connection::Wired));
    if let Err(e) = absorb(&mut changes, rate_step_exec(state, values, dirty, Key::Wired, Connection::Wired), Ghost(a3->Ok_0), Ghost(rate_step(*state, values@, dirty@, Key::Wired, Connection::Wired))) {
        return Err(e);
    }
    let ghost a5 = then(a4, rate_step(*state, values@, dirty@, Key::Wireless, Connection::Wireless));
    if let Err(e) = absorb(&mut changes, rate_step_exec(state, values, dirty, Key::Wireless, Connection::Wireless), Ghost(a4->Ok_0), Ghost(rate_step(*state, values@, dirty@, Key::Wireless, Connection::Wireless))) {
        return Err(e);
    }
    let ghost a6 = then(a5, choice_step(*state, values@, dirty@, Key::Lod));
    if let Err(e) = absorb(&mut changes, choice_step_exec(state, values, dirty, Key::Lod), Ghost(a5->Ok_0), Ghost(choice_step(*state, values@, dirty@, Key::Lod))) {
        return Err(e);
    }
    let ghost a7 = then(a6, choice_step(*state, values@, dirty@, Key::Surface));
    if let Err(e) = absorb(&mut changes, choice_step_exec(state, values, dirty, Key::Surface), Ghost(a6->Ok_0), Ghost(choice_step(*state, values@, dirty@, Key::Surface))) {
        return Err(e);
    }
    let ghost a8 = then(a7, choice_step(*state, values@, dirty@, Key::Operating));
    if let Err(e) = absorb(&mut changes, choice_step_exec(state, values, dirty, Key::Operating), Ghost(a7->Ok_0), Ghost(choice_step(*state, values@, dirty@, Key::Operating))) {
        return Err(e);
    }
    let ghost a9 = then(a8, bhop_step(*state, values@, dirty@));
    if let Err(e) = absorb(&mut changes, bhop_step_exec(state, values, dirty), Ghost(a8->Ok_0), Ghost(bhop_step(*state, values@, dirty@))) {
        return Err(e);
    }
    let ghost a10 = then(a9, lighting_step(*state, values@, dirty@));
    if let Err(e) = absorb(&mut changes, lighting_step_exec(state, values, dirty), Ghost(a9->Ok_0), Ghost(lighting_step(*state, values@, dirty@))) {
        return Err(e);
    }
    let ghost a11 = then(a10, appearance_step(*state, colors@, values@, dirty@));
    if let Err(e) = absorb(&mut changes, appearance_step_exec(state, colors, values, dirty), Ghost(a10->Ok_0), Ghost(appearance_step(*state, colors@, values@, dirty@))) {
        return Err(e);
    }
    let nick_step = if !has_exec(dirty, Key::Nickname) {
        Ok(None)
    } else if nick_text.len() > 64 {
        Err(owned("Device names must be at most 64 characters."))
    } else {
        Ok(Some(Change {
            keys: single(Key::Nickname),
            command: RequestCommand::SetDeviceNickname {
                device_id: state.device.id.clone(),
                nickname: if nick_text.len() == 0 {
                    None
                } else {
                    Some(nickname)
                },
            },
        }))
    };
    if let Err(e) = absorb(&mut changes, nick_step, Ghost(a11->Ok_0), Ghost(nickname_step(*state, values@, dirty@, nick))) {
        return Err(e);
    }
    Ok(changes)
}


// ---------------------------------------------------------------------------
// The values the form starts from, and drafts after a batch of writes
// ---------------------------------------------------------------------------

/// The position of a field in field order.
pub open spec fn key_index(k: Key) -> int {
    match k {
        Key::Dpi => 0,
        Key::Wired => 1,
        Key::Wireless => 2,
        Key::Lod => 3,
        Key::Surface => 4,
        Key::Operating => 5,
        Key::Bhop => 6,
        Key::Timeout => 7,
        Key::Source => 8,
        Key::Nickname => 9,
        Key::Appearance => 10,
        Key::Lighting => 11,
        Key::Color => 12,
        Key::Period => 13,
        Key::Brightness => 14,
        Key::Zone => 15,
    }
}

/// The value the form shows for `k` before any edit: the reported setting,
/// or the default of a lighting field, which the agent does not report.
pub open spec fn initial_value(state: DeviceState, k: Key) -> Seq<char> {
    let settings = state.settings;
    match k {
        Key::Dpi => match settings.dpi {
            Some(d) => decimal(d.current_x as nat),
            None => Seq::empty(),
        },
        Key::Wired => match (state.capabilities.polling_rates, settings.polling_rate) {
            (PollingRateCapabilities::Shared { .. }, PollingRateState::Shared { hz }) => decimal(hz as nat),
            (PollingRateCapabilities::PerConnection { .. }, PollingRateState::PerConnection { wired_hz, .. }) => decimal(wired_hz as nat),
            _ => Seq::empty(),
        },
        Key::Wireless => match settings.polling_rate {
            PollingRateState::PerConnection { wireless_hz, .. } => decimal(wireless_hz as nat),
            _ => Seq::empty(),
        },
        Key::Lod => match settings.dpi {
            Some(d) => match d.lift_off_distance {
                Some(LiftOffDistance::Low) => "low"@,
                Some(LiftOffDistance::Medium) => "medium"@,
                Some(LiftOffDistance::High) => "high"@,
                None => Seq::empty(),
            },
            None => Seq::empty(),
        },
        Key::Surface => match settings.surface_mode {
            Some(SurfaceMode::On) => "on"@,
            Some(SurfaceMode::Automatic) => "automatic"@,
            Some(SurfaceMode::Off) => "off"@,
            None => Seq::empty(),
        },
        Key::Operating => match settings.operating_mode {
            Some(OperatingMode::Endurance) => "endurance"@,
            Some(OperatingMode::Performance) => "performance"@,
            None => Seq::empty(),
        },
        Key::Bhop => match settings.bunny_hopping {
            Some(b) => if b.enabled { "on"@ } else { "off"@ },
            None => Seq::empty(),
        },
        Key::Timeout => match settings.bunny_hopping {
            Some(b) => decimal(b.timeout_ms as nat),
            None => Seq::empty(),
        },
        Key::Source => source_value(state),
        Key::Nickname => match state.device.nickname {
            Some(n) => n@,
            None => Seq::empty(),
        },
        Key::Appearance => color_text(state.device.color),
        Key::Lighting => "unchanged"@,
        Key::Color => "FFFFFF"@,
        Key::Period => "2000"@,
        Key::Brightness => "100"@,
        Key::Zone => "0"@,
    }
}

pub(crate) fn decimal_string(n: u16) -> (r: String)
    ensures
        r@ == decimal(n as nat),
{
    string_of(&decimal_chars(n as u128))
}

pub(crate) fn initial_value_exec(state: &DeviceState, k: Key) -> (r: String)
    ensures
        r@ == initial_value(*state, k),
{
    let settings = &state.settings;
    match k {
        Key::Dpi => match &settings.dpi {
            Some(d) => decimal_string(d.current_x),
            None => String::new(),
        },
        Key::Wired => match (&state.capabilities.polling_rates, &settings.polling_rate) {
            (PollingRateCapabilities::Shared { .. }, PollingRateState::Shared { hz }) => decimal_string(*hz),
            (PollingRateCapabilities::PerConnection { .. }, PollingRateState::PerConnection { wired_hz, .. }) => decimal_string(*wired_hz),
            _ => String::new(),
        },
        Key::Wireless => match &settings.polling_rate {
            PollingRateState::PerConnection { wireless_hz, .. } => decimal_string(*wireless_hz),
            _ => String::new(),
        },
        Key::Lod => match &settings.dpi {
            Some(d) => match d.lift_off_distance {
                Some(LiftOffDistance::Low) => owned("low"),
                Some(LiftOffDistance::Medium) => owned("medium"),
                Some(LiftOffDistance::High) => owned("high"),
                None => String::new(),
            },
            None => String::new(),
        },
        Key::Surface => match settings.surface_mode {
            Some(SurfaceMode::On) => owned("on"),
            Some(SurfaceMode::Automatic) => owned("automatic"),
            Some(SurfaceMode::Off) => owned("off"),
            None => String::new(),
        },
        Key::Operating => match settings.operating_mode {
            Some(OperatingMode::Endurance) => owned("endurance"),
            Some(OperatingMode::Performance) => owned("performance"),
            None => String::new(),
        },
        Key::Bhop => match &settings.bunny_hopping {
            Some(b) => if b.enabled { owned("on") } else { owned("off") },
            None => String::new(),
        },
        Key::Timeout => match &settings.bunny_hopping {
            Some(b) => decimal_string(b.timeout_ms),
            None => String::new(),
        },
        Key::Source => match settings.configuration_source {
            Some(ConfigurationSource::Host) => owned("host"),
            Some(ConfigurationSource::Onboard { active_profile: Some(p) }) => decimal_string(p),
            _ => String::new(),
        },
        Key::Nickname => match &state.device.nickname {
            Some(n) => n.clone(),
            None => String::new(),
        },
        Key::Appearance => owned(state.device.color.as_str()),
        Key::Lighting => owned("unchanged"),
        Key::Color => owned("FFFFFF"),
        Key::Period => owned("2000"),
        Key::Brightness => owned("100"),
        Key::Zone => owned("0"),
    }
}

/// Looking up a key after one more entry: an earlier entry for it wins.
pub proof fn lemma_lookup_push(s: Seq<(Key, String)>, x: (Key, String), k: Key)
    ensures
        lookup(s.push(x), k) == (match lookup(s, k) {
            Some(v) => Some(v),
            None => if x.0 == k {
                Some(x.1@)
            } else {
                None
            },
        }),
    decreases s.len(),
{
    if s.len() > 0 {
        assert(s.push(x)[0] == s[0]);
        assert(s.push(x).drop_first() =~= s.drop_first().push(x));
        lemma_lookup_push(s.drop_first(), x, k);
    } else {
        assert(s.push(x)[0] == x);
        assert(s.push(x).drop_first() =~= Seq::<(Key, String)>::empty());
        assert(lookup(Seq::<(Key, String)>::empty(), k) is None);
    }
}

/// Whether the entries of `s` come in strictly increasing field order.
pub open spec fn in_field_order(s: Seq<(Key, String)>) -> bool {
    forall|i: int, j: int| 0 <= i < j < s.len() ==> key_index(#[trigger] s[i].0) < key_index(#[trigger] s[j].0)
}

/// The values the form starts from: one entry for each field the device
/// offers, holding the value it reports, in field order.
pub fn initial_values(state: &DeviceState, colors: &Vec<DeviceColor>) -> (r: Vec<(Key, String)>)
    ensures
        forall|k: Key| #[trigger] lookup(r@, k) == (if offers(*state, colors@, k) {
            Some(initial_value(*state, k))
        } else {
            None
        }),
        in_field_order(r@),
{
    let keys = all_keys_exec();
    let mut r: Vec<(Key, String)> = Vec::new();
    let mut n: usize = 0;
    while n < 16
        invariant
            n <= 16,
            keys@ == all_keys(),
            forall|k: Key| #[trigger] lookup(r@, k) == (if key_index(k) < n && offers(*state, colors@, k) {
                Some(initial_value(*state, k))
            } else {
                None
            }),
            in_field_order(r@),
            forall|i: int| 0 <= i < r@.len() ==> key_index(#[trigger] r@[i].0) < n,
        decreases 16 - n,
    {
        let k = keys[n];
        assert(key_index(k) == n);
        if offers_exec(state, colors, k) {
            let v = initial_value_exec(state, k);
            let ghost before = r@;
            r.push((k, v));
            proof {
                assert forall|q: Key| #[trigger] lookup(r@, q) == (if key_index(q) < n + 1 && offers(*state, colors@, q) {
                    Some(initial_value(*state, q))
                } else {
                    None
                }) by {
                    lemma_lookup_push(before, (k, v), q);
                    assert(r@ == before.push((k, v)));
                    if key_index(q) == n {
                        assert(q == k);
                    }
                }
            }
        } else {
            proof {
                assert forall|q: Key| #[trigger] lookup(r@, q) == (if key_index(q) < n + 1 && offers(*state, colors@, q) {
                    Some(initial_value(*state, q))
                } else {
                    None
                }) by {
                    if key_index(q) == n {
                        assert(q == k);
                    }
                }
            }
        }
        n += 1;
    }
    r
}

fn contains_key(keys: &Vec<Key>, k: Key) -> (r: bool)
    ensures
        r == keys@.contains(k),
{
    let mut i: usize = 0;
    while i < keys.len()
        invariant
            i <= keys.len(),
            forall|j: int| 0 <= j < i ==> keys@[j] != k,
        decreases keys.len() - i,
    {
        if keys[i] == k {
            assert(keys@[i as int] == k);
            return true;
        }
        i += 1;
    }
    false
}

/// Whether a field belongs to the lighting group.
pub open spec fn is_lighting_key(k: Key) -> bool {
    k == Key::Lighting || k == Key::Color || k == Key::Period || k == Key::Brightness || k == Key::Zone
}

fn is_lighting_exec(k: Key) -> (r: bool)
    ensures
        r == is_lighting_key(k),
{
    match k {
        Key::Lighting | Key::Color | Key::Period | Key::Brightness | Key::Zone => true,
        _ => false,
    }
}

/// `base` with the entry of each key in `keys` replaced by the entry that
/// `from` holds for it, where it holds one.
fn overwrite(base: &Vec<(Key, String)>, from: &Vec<(Key, String)>, keys: &Vec<Key>) -> (r: Vec<(Key, String)>)
    ensures
        r@.len() == base@.len(),
        forall|i: int| 0 <= i < r@.len() ==> (#[trigger] r@[i]).0 == base@[i].0,
        forall|k: Key| #[trigger] lookup(r@, k) == (if keys@.contains(k) && lookup(from@, k) is Some {
            match lookup(base@, k) {
                Some(_) => lookup(from@, k),
                None => None,
            }
        } else {
            lookup(base@, k)
        }),
{
    let mut r: Vec<(Key, String)> = Vec::new();
    let mut i: usize = 0;
    while i < base.len()
        invariant
            i <= base.len(),
            r@.len() == i,
            forall|j: int| 0 <= j < i ==> (#[trigger] r@[j]).0 == base@[j].0,
            forall|k: Key| #[trigger] lookup(r@, k) == (if keys@.contains(k) && lookup(from@, k) is Some {
                match lookup(base@.take(i as int), k) {
                    Some(_) => lookup(from@, k),
                    None => None,
                }
            } else {
                lookup(base@.take(i as int), k)
            }),
        decreases base.len() - i,
    {
        let k = base[i].0;
        let v = if contains_key(keys, k) {
            match lookup_exec(from, k) {
                Some(s) => s.clone(),
                None => base[i].1.clone(),
            }
        } else {
            base[i].1.clone()
        };
        let ghost before = r@;
        r.push((k, v));
        proof {
            assert(base@.take(i as int + 1) =~= base@.take(i as int).push(base@[i as int]));
            assert forall|q: Key| #[trigger] lookup(r@, q) == (if keys@.contains(q) && lookup(from@, q) is Some {
                match lookup(base@.take(i as int + 1), q) {
                    Some(_) => lookup(from@, q),
                    None => None,
                }
            } else {
                lookup(base@.take(i as int + 1), q)
            }) by {
                lemma_lookup_push(before, (k, v), q);
                lemma_lookup_push(base@.take(i as int), base@[i as int], q);
                assert(r@ == before.push((k, v)));
            }
        }
        i += 1;
    }
    assert(base@.take(base@.len() as int) =~= base@);
    r
}

/// After a batch of writes: the values the form now starts from, and the
/// drafts that remain. Confirmed values win for the fields that were applied;
/// lighting, which the agent does not report, keeps what was submitted; edits
/// that failed or were never attempted survive.
pub fn reconcile(
    state: &DeviceState,
    colors: &Vec<DeviceColor>,
    submitted: &Vec<(Key, String)>,
    pending: &Vec<(Key, String)>,
    applied: &Vec<Key>,
) -> (r: (Vec<(Key, String)>, Vec<(Key, String)>))
    ensures
        forall|k: Key| #[trigger] lookup(r.0@, k) == (if !offers(*state, colors@, k) {
            None
        } else if is_lighting_key(k) && applied@.contains(k) && lookup(submitted@, k) is Some {
            lookup(submitted@, k)
        } else {
            Some(initial_value(*state, k))
        }),
        forall|k: Key| #[trigger] lookup(r.1@, k) == (if !offers(*state, colors@, k) {
            None
        } else if !applied@.contains(k) && lookup(pending@, k) is Some {
            lookup(pending@, k)
        } else {
            lookup(r.0@, k)
        }),
        in_field_order(r.0@),
        in_field_order(r.1@),
{
    let base = initial_values(state, colors);
    let keys = all_keys_exec();
    let mut confirmed: Vec<Key> = Vec::new();
    let mut open_keys: Vec<Key> = Vec::new();
    let mut n: usize = 0;
    while n < 16
        invariant
            n <= 16,
            keys@ == all_keys(),
            forall|k: Key| #[trigger] confirmed@.contains(k) == (key_index(k) < n && is_lighting_key(k) && applied@.contains(k)),
            forall|k: Key| #[trigger] open_keys@.contains(k) == (key_index(k) < n && !applied@.contains(k)),
        decreases 16 - n,
    {
        let k = keys[n];
        assert(key_index(k) == n);
        let ghost before_c = confirmed@;
        let ghost before_o = open_keys@;
        let was_applied = contains_key(applied, k);
        if was_applied && is_lighting_exec(k) {
            confirmed.push(k);
        }
        if !was_applied {
            open_keys.push(k);
        }
        proof {
            assert forall|q: Key| #[trigger] confirmed@.contains(q) == (key_index(q) < n + 1 && is_lighting_key(q) && applied@.contains(q)) by {
                if key_index(q) == n {
                    assert(q == k);
                }
                if confirmed@.contains(q) && !before_c.contains(q) {
                    let w = choose|w: int| 0 <= w < confirmed@.len() && confirmed@[w] == q;
                    assert(w == before_c.len());
                }
                if before_c.contains(q) {
                    let w = choose|w: int| 0 <= w < before_c.len() && before_c[w] == q;
                    assert(confirmed@[w] == q);
                }
                if q == k && was_applied && is_lighting_key(k) {
                    assert(confirmed@[before_c.len() as int] == k);
                }
            }
            assert forall|q: Key| #[trigger] open_keys@.contains(q) == (key_index(q) < n + 1 && !applied@.contains(q)) by {
                if key_index(q) == n {
                    assert(q == k);
                }
                if open_keys@.contains(q) && !before_o.contains(q) {
                    let w = choose|w: int| 0 <= w < open_keys@.len() && open_keys@[w] == q;
                    assert(w == before_o.len());
                }
                if before_o.contains(q) {
                    let w = choose|w: int| 0 <= w < before_o.len() && before_o[w] == q;
                    assert(open_keys@[w] == q);
                }
                if q == k && !was_applied {
                    assert(open_keys@[before_o.len() as int] == k);
                }
            }
        }
        n += 1;
    }
    proof {
        assert forall|k: Key| #[trigger] open_keys@.contains(k) == !applied@.contains(k) by {
            assert(key_index(k) < 16);
        }
        assert forall|k: Key| #[trigger] confirmed@.contains(k) == (is_lighting_key(k) && applied@.contains(k)) by {
            assert(key_index(k) < 16);
        }
    }
    let initial = overwrite(&base, submitted, &confirmed);
    let draft = overwrite(&initial, pending, &open_keys);
    proof {
        assert forall|i: int, j: int| 0 <= i < j < initial@.len() implies key_index(#[trigger] initial@[i].0) < key_index(#[trigger] initial@[j].0) by {
            assert(initial@[i].0 == base@[i].0);
            assert(initial@[j].0 == base@[j].0);
        }
        assert forall|i: int, j: int| 0 <= i < j < draft@.len() implies key_index(#[trigger] draft@[i].0) < key_index(#[trigger] draft@[j].0) by {
            assert(draft@[i].0 == initial@[i].0);
            assert(draft@[j].0 == initial@[j].0);
            assert(initial@[i].0 == base@[i].0);
            assert(initial@[j].0 == base@[j].0);
        }
    }
    (initial, draft)
}

/// Whether a field's current text differs from the value the form started from.
pub open spec fn edited_in(initial: Seq<(Key, String)>) -> spec_fn((Key, String)) -> bool {
    |p: (Key, String)| lookup(initial, p.0) != Some(p.1@)
}

/// The fields whose text differs from the value the form started from, in
/// the order of `current`.
pub fn edited_fields(initial: &Vec<(Key, String)>, current: &Vec<(Key, String)>) -> (r: Vec<(Key, String)>)
    ensures
        r@.map_values(|p: (Key, String)| (p.0, p.1@)) == current@.filter(edited_in(initial@)).map_values(
            |p: (Key, String)| (p.0, p.1@),
        ),
{
    let mut r: Vec<(Key, String)> = Vec::new();
    let mut i: usize = 0;
    proof {
        reveal(Seq::filter);
        assert(current@.take(0) =~= Seq::<(Key, String)>::empty());
        assert(r@.map_values(|p: (Key, String)| (p.0, p.1@)) =~= current@.take(0).filter(edited_in(initial@)).map_values(
            |p: (Key, String)| (p.0, p.1@),
        ));
    }
    while i < current.len()
        invariant
            i <= current.len(),
            r@.map_values(|p: (Key, String)| (p.0, p.1@)) == current@.take(i as int).filter(edited_in(initial@)).map_values(
                |p: (Key, String)| (p.0, p.1@),
            ),
        decreases current.len() - i,
    {
        let k = current[i].0;
        let same = match lookup_exec(initial, k) {
            Some(v) => crate::text::str_eq(v.as_str(), current[i].1.as_str()),
            None => false,
        };
        let ghost before = r@;
        proof {
            reveal(Seq::filter);
            assert(current@.take(i as int + 1).drop_last() =~= current@.take(i as int));
            assert(current@.take(i as int + 1).last() == current@[i as int]);
        }
        if !same {
            r.push((k, current[i].1.clone()));
            proof {
                assert(r@.map_values(|p: (Key, String)| (p.0, p.1@)) =~= before.map_values(|p: (Key, String)| (p.0, p.1@)).push(
                    (current@[i as int].0, current@[i as int].1@),
                ));
                assert(current@.take(i as int + 1).filter(edited_in(initial@)) == current@.take(i as int).filter(
                    edited_in(initial@),
                ).push(current@[i as int]));
                assert(current@.take(i as int + 1).filter(edited_in(initial@)).map_values(|p: (Key, String)| (p.0, p.1@))
                    =~= current@.take(i as int).filter(edited_in(initial@)).map_values(|p: (Key, String)| (p.0, p.1@)).push(
                    (current@[i as int].0, current@[i as int].1@),
                ));
            }
        }
        i += 1;
    }
    proof {
        assert(current@.take(current@.len() as int) =~= current@);
    }
    r
}

/// Whether applying the edits writes to an onboard profile: the Source field
/// names a profile, and some edit other than the name or colour goes to the
/// device. Such writes may ask for their own confirmation.
pub open spec fn onboard_write(values: Seq<(Key, String)>, dirty: Seq<(Key, String)>) -> bool {
    &&& lookup(values, Key::Source) matches Some(v) && v.len() > 0 && v != "host"@
    &&& exists|i: int| 0 <= i < dirty.len() && !(#[trigger] dirty[i]).0.is_presentation()
}

impl Key {
    /// The fields the host keeps rather than the device: the name and colour.
    pub open spec fn is_presentation(self) -> bool {
        self == Key::Appearance || self == Key::Nickname
    }
}

/// Whether applying the edits writes to an onboard profile.
pub fn writes_onboard_profile(values: &Vec<(Key, String)>, dirty: &Vec<(Key, String)>) -> (r: bool)
    ensures
        r == onboard_write(values@, dirty@),
{
    let names_profile = match lookup_exec(values, Key::Source) {
        Some(v) => {
            let text = chars_of(v.as_str());
            text.len() > 0 && !chars_eq(&text, &chars_of("host"))
        },
        None => false,
    };
    if !names_profile {
        return false;
    }
    let mut i: usize = 0;
    while i < dirty.len()
        invariant
            i <= dirty.len(),
            lookup(values@, Key::Source) matches Some(v) && v.len() > 0 && v != "host"@,
            forall|j: int| 0 <= j < i ==> (#[trigger] dirty@[j]).0.is_presentation(),
        decreases dirty.len() - i,
    {
        match dirty[i].0 {
            Key::Appearance | Key::Nickname => {},
            _ => {
                assert(!dirty@[i as int].0.is_presentation());
                return true;
            },
        }
        i += 1;
    }
    false
}

} // verus!
