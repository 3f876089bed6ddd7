//! What the settings form shows for each field a device offers: its group,
//! label, help, unit, current value and choices, in the order the form lays
//! them out.
use vstd::prelude::*;

use crate::protocol::{color_text, DeviceColor, DeviceState, PollingRateCapabilities};
use crate::settings_form::{
    contains_u16, decimal_string, initial_value, initial_value_exec, lookup, lookup_exec, offers,
    offers_exec, source_value, Key,
};
use crate::text::{decimal, owned, push_str, str_eq};

verus! {

/// One field of the form.
pub struct Spec {
    pub key: Key,
    pub group: &'static str,
    pub label: &'static str,
    pub help: String,
    /// Shown inside the input rather than in the label.
    pub unit: &'static str,
    pub value: String,
    /// The values on offer, each with the words shown for it.
    pub choices: Vec<(String, String)>,
    /// Whether the field is typed into rather than picked from its choices.
    pub text: bool,
}

/// What a field says, by its characters.
pub struct FieldView {
    pub key: Key,
    pub group: Seq<char>,
    pub label: Seq<char>,
    pub help: Seq<char>,
    pub unit: Seq<char>,
    pub value: Seq<char>,
    pub choices: Seq<(Seq<char>, Seq<char>)>,
    pub text: bool,
}

/// The choices of a field, by their characters.
pub open spec fn choices_view(c: Seq<(String, String)>) -> Seq<(Seq<char>, Seq<char>)> {
    c.map_values(|p: (String, String)| (p.0@, p.1@))
}

/// What a field says.
pub open spec fn field_view(s: Spec) -> FieldView {
    FieldView {
        key: s.key,
        group: s.group@,
        label: s.label@,
        help: s.help@,
        unit: s.unit@,
        value: s.value@,
        choices: choices_view(s.choices@),
        text: s.text,
    }
}

/// A field with its parts.
pub open spec fn field(
    key: Key,
    group: Seq<char>,
    label: Seq<char>,
    help: Seq<char>,
    unit: Seq<char>,
    value: Seq<char>,
    choices: Seq<(Seq<char>, Seq<char>)>,
    text: bool,
) -> FieldView {
    FieldView { key, group, label, help, unit, value, choices, text }
}

/// The order in which the form lays its fields out.
pub open spec fn layout_order() -> Seq<Key> {
    seq![
        Key::Dpi,
        Key::Wired,
        Key::Wireless,
        Key::Lod,
        Key::Surface,
        Key::Operating,
        Key::Bhop,
        Key::Timeout,
        Key::Source,
        Key::Lighting,
        Key::Color,
        Key::Period,
        Key::Brightness,
        Key::Zone,
        Key::Nickname,
        Key::Appearance,
    ]
}

fn layout_order_exec() -> (r: Vec<Key>)
    ensures
        r@ == layout_order(),
{
    let r = vec![
        Key::Dpi,
        Key::Wired,
        Key::Wireless,
        Key::Lod,
        Key::Surface,
        Key::Operating,
        Key::Bhop,
        Key::Timeout,
        Key::Source,
        Key::Lighting,
        Key::Color,
        Key::Period,
        Key::Brightness,
        Key::Zone,
        Key::Nickname,
        Key::Appearance,
    ];
    assert(r@ =~= layout_order());
    r
}

/// The smallest of some values.
pub open spec fn least(s: Seq<u16>) -> u16
    decreases s.len(),
{
    if s.len() <= 1 {
        s[0]
    } else if s.last() < least(s.drop_last()) {
        s.last()
    } else {
        least(s.drop_last())
    }
}

/// The largest of some values.
pub open spec fn greatest(s: Seq<u16>) -> u16
    decreases s.len(),
{
    if s.len() <= 1 {
        s[0]
    } else if s.last() > greatest(s.drop_last()) {
        s.last()
    } else {
        greatest(s.drop_last())
    }
}

/// The presets of the sensitivity field: the common settings the sensor has.
pub open spec fn dpi_presets(supported: Seq<u16>) -> Seq<(Seq<char>, Seq<char>)> {
    seq![400u16, 800u16, 1200u16, 1600u16, 3200u16].filter(|v: u16| supported.contains(v)).map_values(
        |v: u16| (decimal(v as nat), decimal(v as nat)),
    )
}

/// The choices of a polling-rate field: each rate, labelled in hertz.
pub open spec fn rate_choices(rates: Seq<u16>) -> Seq<(Seq<char>, Seq<char>)> {
    rates.map_values(|v: u16| (decimal(v as nat), decimal(v as nat) + " Hz"@))
}

/// Host control, then each onboard profile the mouse describes.
pub open spec fn profile_choices(count: nat) -> Seq<(Seq<char>, Seq<char>)>
    decreases count,
{
    if count == 0 {
        seq![("host"@, "Host control"@)]
    } else {
        profile_choices((count - 1) as nat).push((decimal(count), "Profile "@ + decimal(count)))
    }
}

/// Whether a value is among the choices.
pub open spec fn offered_value(choices: Seq<(Seq<char>, Seq<char>)>, v: Seq<char>) -> bool {
    exists|i: int| 0 <= i < choices.len() && (#[trigger] choices[i]).0 == v
}

/// The choices of the Source field: host control and the described profiles,
/// and the active profile as well when the description leaves it out.
pub open spec fn source_choices(state: DeviceState) -> Seq<(Seq<char>, Seq<char>)> {
    let base = profile_choices(
        match state.capabilities.onboard_profile_count {
            Some(n) => n as nat,
            None => 0,
        },
    );
    let v = source_value(state);
    if v.len() > 0 && !offered_value(base, v) {
        base.push((v, "Profile "@ + v))
    } else {
        base
    }
}

/// The words shown for a finish.
pub open spec fn color_label(c: DeviceColor) -> Seq<char> {
    match c {
        DeviceColor::White => "White"@,
        DeviceColor::Black => "Black"@,
        DeviceColor::Red => "Red"@,
        DeviceColor::Magenta => "Magenta"@,
        DeviceColor::Cyan => "Cyan"@,
        DeviceColor::Blue => "Blue"@,
        DeviceColor::Lilac => "Lilac"@,
        DeviceColor::Mint => "Mint"@,
    }
}

/// The choices of the colour field: the finishes of the model.
pub open spec fn color_choices(colors: Seq<DeviceColor>) -> Seq<(Seq<char>, Seq<char>)> {
    colors.map_values(|c: DeviceColor| (color_text(c), color_label(c)))
}

/// A polling-rate field.
pub open spec fn rates_field(key: Key, label: Seq<char>, value: Seq<char>, rates: Seq<u16>) -> FieldView {
    field(key, "Polling rate"@, label, ""@, ""@, value, rate_choices(rates), false)
}

/// The field the form shows for `k`, for a device that offers it.
#[verifier::opaque]
pub open spec fn spec_of(state: DeviceState, colors: Seq<DeviceColor>, k: Key) -> FieldView {
    let v = initial_value(state, k);
    match k {
        Key::Dpi => {
            let supported = match state.capabilities.supported_dpi {
                Some(s) => s@,
                None => Seq::empty(),
            };
            field(
                k,
                "Sensitivity"@,
                "DPI"@,
                "Applies to both axes. Supported range "@ + decimal(least(supported) as nat) + "–"@ + decimal(
                    greatest(supported) as nat,
                ) + "."@,
                "DPI"@,
                v,
                dpi_presets(supported),
                true,
            )
        },
        Key::Wired => match state.capabilities.polling_rates {
            PollingRateCapabilities::Shared { supported_hz } => rates_field(k, "Report rate"@, v, supported_hz@),
            PollingRateCapabilities::PerConnection { wired_hz, .. } => rates_field(k, "Wired"@, v, wired_hz@),
            PollingRateCapabilities::Unsupported => rates_field(k, "Wired"@, v, Seq::empty()),
        },
        Key::Wireless => match state.capabilities.polling_rates {
            PollingRateCapabilities::PerConnection { wireless_hz, .. } => rates_field(k, "Wireless"@, v, wireless_hz@),
            _ => rates_field(k, "Wireless"@, v, Seq::empty()),
        },
        Key::Lod => field(
            k,
            "Sensor"@,
            "Lift-off distance"@,
            "How far the mouse can leave the pad before it stops tracking. Low cuts out soonest."@,
            ""@,
            v,
            seq![("low"@, "Low"@), ("medium"@, "Medium"@), ("high"@, "High"@)],
            false,
        ),
        Key::Surface => field(
            k,
            "Sensor"@,
            "Surface mode"@,
            "Whether the sensor tunes itself to the surface under it. Automatic leaves that to the mouse."@,
            ""@,
            v,
            seq![("on"@, "On"@), ("automatic"@, "Automatic"@), ("off"@, "Off"@)],
            false,
        ),
        Key::Operating => field(
            k,
            "Sensor"@,
            "Operating mode"@,
            "Performance runs the sensor at full speed. Endurance trades some of that for battery life."@,
            ""@,
            v,
            seq![("endurance"@, "Endurance"@), ("performance"@, "Performance"@)],
            false,
        ),
        Key::Bhop => field(
            k,
            "Bunny hopping"@,
            "Bunny hopping"@,
            "Runs for the timeout below. Switching it off clears that timeout on the device."@,
            ""@,
            v,
            seq![("off"@, "Off"@), ("on"@, "On"@)],
            false,
        ),
        Key::Timeout => field(
            k,
            "Bunny hopping"@,
            "Timeout"@,
            "100–1000 ms, in 100 ms steps. Choose a timeout before enabling bunny hopping."@,
            "ms"@,
            v,
            Seq::empty(),
            true,
        ),
        Key::Source => field(
            k,
            "Configuration"@,
            "Settings source"@,
            "Polling changes require Host control. Select it explicitly before applying. Profile selection activates an existing profile; it does not rewrite it."@,
            ""@,
            v,
            source_choices(state),
            false,
        ),
        Key::Lighting => field(
            k,
            "Lighting"@,
            "Effect"@,
            "Choose an effect to apply. Current lighting values are not reported by the agent."@,
            ""@,
            v,
            seq![
                ("unchanged"@, "Unchanged"@),
                ("firmware"@, "Firmware"@),
                ("off"@, "Off"@),
                ("fixed"@, "Fixed"@),
                ("cycling"@, "Cycling"@),
                ("breathing"@, "Breathing"@),
            ],
            false,
        ),
        Key::Color => field(k, "Lighting"@, "Color"@, "Six hexadecimal digits, as RRGGBB."@, "hex"@, v, Seq::empty(), true),
        Key::Period => field(
            k,
            "Lighting"@,
            "Period"@,
            "One full cycle of the breathing or cycling effect."@,
            "ms"@,
            v,
            Seq::empty(),
            true,
        ),
        Key::Brightness => field(k, "Lighting"@, "Brightness"@, ""@, "%"@, v, Seq::empty(), true),
        Key::Zone => field(
            k,
            "Lighting"@,
            "Zone"@,
            "The lighting zone to write. Most mice expose a single zone."@,
            ""@,
            v,
            Seq::empty(),
            true,
        ),
        Key::Nickname => field(
            k,
            "Presentation"@,
            "Nickname"@,
            "Leave empty to use the reported device name."@,
            ""@,
            v,
            Seq::empty(),
            true,
        ),
        Key::Appearance => field(
            k,
            "Presentation"@,
            "Mouse color"@,
            "Choose your mouse’s finish. Saved for this mouse when you select Apply."@,
            ""@,
            v,
            color_choices(colors),
            colors.len() == 0,
        ),
    }
}

/// The fields from position `n` of the layout on, each one the device offers.
pub open spec fn specs_from(state: DeviceState, colors: Seq<DeviceColor>, n: int) -> Seq<FieldView>
    decreases 16 - n,
{
    if n < 0 || n >= 16 {
        Seq::empty()
    } else {
        (if offers(state, colors, layout_order()[n]) {
            seq![spec_of(state, colors, layout_order()[n])]
        } else {
            Seq::empty()
        }) + specs_from(state, colors, n + 1)
    }
}

fn pair(a: &str, b: &str) -> (r: (String, String))
    ensures
        r.0@ == a@,
        r.1@ == b@,
{
    (owned(a), owned(b))
}

fn build(
    key: Key,
    group: &'static str,
    label: &'static str,
    help: &str,
    unit: &'static str,
    value: String,
    choices: Vec<(String, String)>,
    text: bool,
) -> (r: Spec)
    ensures
        field_view(r) == field(key, group@, label@, help@, unit@, value@, choices_view(choices@), text),
{
    Spec { key, group, label, help: owned(help), unit, value, choices, text }
}

fn least_exec(v: &Vec<u16>) -> (r: u16)
    requires
        v@.len() > 0,
    ensures
        r == least(v@),
{
    let mut m = v[0];
    let mut i: usize = 1;
    assert(v@.take(1).len() == 1);
    while i < v.len()
        invariant
            1 <= i <= v.len(),
            m == least(v@.take(i as int)),
        decreases v.len() - i,
    {
        assert(v@.take(i as int + 1).drop_last() =~= v@.take(i as int));
        if v[i] < m {
            m = v[i];
        }
        i += 1;
    }
    assert(v@.take(v@.len() as int) =~= v@);
    m
}

fn greatest_exec(v: &Vec<u16>) -> (r: u16)
    requires
        v@.len() > 0,
    ensures
        r == greatest(v@),
{
    let mut m = v[0];
    let mut i: usize = 1;
    assert(v@.take(1).len() == 1);
    while i < v.len()
        invariant
            1 <= i <= v.len(),
            m == greatest(v@.take(i as int)),
        decreases v.len() - i,
    {
        assert(v@.take(i as int + 1).drop_last() =~= v@.take(i as int));
        if v[i] > m {
            m = v[i];
        }
        i += 1;
    }
    assert(v@.take(v@.len() as int) =~= v@);
    m
}

fn dpi_presets_exec(supported: &Vec<u16>) -> (r: Vec<(String, String)>)
    ensures
        choices_view(r@) == dpi_presets(supported@),
{
    let presets: Vec<u16> = vec![400, 800, 1200, 1600, 3200];
    let ghost all = seq![400u16, 800u16, 1200u16, 1600u16, 3200u16];
    assert(presets@ =~= all);
    let ghost keep = |v: u16| supported@.contains(v);
    let mut r: Vec<(String, String)> = Vec::new();
    let mut i: usize = 0;
    proof {
        reveal(Seq::filter);
        assert(all.take(0) =~= Seq::<u16>::empty());
        assert(choices_view(r@) =~= all.take(0).filter(keep).map_values(|v: u16| (decimal(v as nat), decimal(v as nat))));
    }
    while i < presets.len()
        invariant
            i <= presets.len(),
            presets@ == all,
            keep == (|v: u16| supported@.contains(v)),
            choices_view(r@) == all.take(i as int).filter(keep).map_values(|v: u16| (decimal(v as nat), decimal(v as nat))),
        decreases presets.len() - i,
    {
        let v = presets[i];
        let ghost before = r@;
        proof {
            reveal(Seq::filter);
            assert(all.take(i as int + 1).drop_last() =~= all.take(i as int));
            assert(all.take(i as int + 1).last() == v);
        }
        if contains_u16(supported, v) {
            r.push((decimal_string(v), decimal_string(v)));
            proof {
                assert(choices_view(r@) =~= choices_view(before).push((decimal(v as nat), decimal(v as nat))));
                assert(all.take(i as int + 1).filter(keep).map_values(|v: u16| (decimal(v as nat), decimal(v as nat)))
                    =~= all.take(i as int).filter(keep).map_values(|v: u16| (decimal(v as nat), decimal(v as nat))).push(
                    (decimal(v as nat), decimal(v as nat)),
                ));
            }
        }
        i += 1;
    }
    assert(all.take(5) =~= all);
    r
}

fn rate_choices_exec(rates: &Vec<u16>) -> (r: Vec<(String, String)>)
    ensures
        choices_view(r@) == rate_choices(rates@),
{
    let mut r: Vec<(String, String)> = Vec::new();
    let mut i: usize = 0;
    while i < rates.len()
        invariant
            i <= rates.len(),
            choices_view(r@) == rate_choices(rates@.take(i as int)),
        decreases rates.len() - i,
    {
        let v = rates[i];
        let mut label = decimal_string(v);
        push_str(&mut label, " Hz");
        let ghost before = r@;
        r.push((decimal_string(v), label));
        proof {
            assert(choices_view(r@) =~= choices_view(before).push((decimal(v as nat), decimal(v as nat) + " Hz"@)));
            assert(rate_choices(rates@.take(i as int + 1)) =~= rate_choices(rates@.take(i as int)).push(
                (decimal(v as nat), decimal(v as nat) + " Hz"@),
            ));
        }
        i += 1;
    }
    assert(rates@.take(rates@.len() as int) =~= rates@);
    r
}

fn source_choices_exec(state: &DeviceState) -> (r: Vec<(String, String)>)
    ensures
        choices_view(r@) == source_choices(*state),
{
    let count: u16 = match state.capabilities.onboard_profile_count {
        Some(n) => n as u16,
        None => 0,
    };
    let mut r: Vec<(String, String)> = Vec::new();
    r.push(pair("host", "Host control"));
    let mut p: u16 = 1;
    assert(choices_view(r@) =~= profile_choices(0));
    while p <= count
        invariant
            1 <= p <= count + 1,
            count <= 255,
            choices_view(r@) == profile_choices((p - 1) as nat),
        decreases count + 1 - p,
    {
        let mut label = owned("Profile ");
        let number = decimal_string(p);
        push_str(&mut label, number.as_str());
        let ghost before = r@;
        r.push((decimal_string(p), label));
        proof {
            assert(choices_view(r@) =~= choices_view(before).push((decimal(p as nat), "Profile "@ + decimal(p as nat))));
        }
        p += 1;
    }
    let ghost base = r@;
    let v = initial_value_exec(state, Key::Source);
    assert(v@ == source_value(*state));
    let vc = crate::text::chars_of(v.as_str());
    if vc.len() > 0 {
        let mut found = false;
        let mut i: usize = 0;
        while i < r.len()
            invariant
                i <= r.len(),
                r@ == base,
                vc@ == v@,
                found == exists|j: int| 0 <= j < i && (#[trigger] choices_view(base)[j]).0 == v@,
            decreases r.len() - i,
        {
            let same = crate::text::chars_eq(&crate::text::chars_of(r[i].0.as_str()), &vc);
            proof {
                assert(choices_view(base)[i as int].0 == base[i as int].0@);
                if found {
                    let j = choose|j: int| 0 <= j < i && (#[trigger] choices_view(base)[j]).0 == v@;
                    assert(0 <= j < i + 1 && choices_view(base)[j].0 == v@);
                }
            }
            found = found || same;
            i += 1;
        }
        proof {
            assert(offered_value(choices_view(base), v@) == found);
        }
        if !found {
            let mut label = owned("Profile ");
            push_str(&mut label, v.as_str());
            let value = owned(v.as_str());
            r.push((value, label));
            assert(choices_view(r@) =~= choices_view(base).push((v@, "Profile "@ + v@)));
        }
    }
    r
}

fn color_choices_exec(colors: &Vec<DeviceColor>) -> (r: Vec<(String, String)>)
    ensures
        choices_view(r@) == color_choices(colors@),
{
    let mut r: Vec<(String, String)> = Vec::new();
    let mut i: usize = 0;
    while i < colors.len()
        invariant
            i <= colors.len(),
            choices_view(r@) == color_choices(colors@.take(i as int)),
        decreases colors.len() - i,
    {
        let c = colors[i];
        let label = match c {
            DeviceColor::White => "White",
            DeviceColor::Black => "Black",
            DeviceColor::Red => "Red",
            DeviceColor::Magenta => "Magenta",
            DeviceColor::Cyan => "Cyan",
            DeviceColor::Blue => "Blue",
            DeviceColor::Lilac => "Lilac",
            DeviceColor::Mint => "Mint",
        };
        let ghost before = r@;
        r.push(pair(c.as_str(), label));
        proof {
            assert(choices_view(r@) =~= choices_view(before).push((color_text(c), color_label(c))));
            assert(color_choices(colors@.take(i as int + 1)) =~= color_choices(colors@.take(i as int)).push(
                (color_text(c), color_label(c)),
            ));
        }
        i += 1;
    }
    assert(colors@.take(colors@.len() as int) =~= colors@);
    r
}

fn fixed_choices(items: &[(&'static str, &'static str)]) -> (r: Vec<(String, String)>)
    ensures
        choices_view(r@) == items@.map_values(|p: (&'static str, &'static str)| (p.0@, p.1@)),
{
    let mut r: Vec<(String, String)> = Vec::new();
    let mut i: usize = 0;
    while i < items.len()
        invariant
            i <= items@.len(),
            choices_view(r@) == items@.take(i as int).map_values(|p: (&'static str, &'static str)| (p.0@, p.1@)),
        decreases items@.len() - i,
    {
        let (a, b) = items[i];
        let ghost before = r@;
        r.push(pair(a, b));
        proof {
            assert(choices_view(r@) =~= choices_view(before).push((a@, b@)));
            assert(items@.take(i as int + 1).map_values(|p: (&'static str, &'static str)| (p.0@, p.1@))
                =~= items@.take(i as int).map_values(|p: (&'static str, &'static str)| (p.0@, p.1@)).push((a@, b@)));
        }
        i += 1;
    }
    assert(items@.take(items@.len() as int) =~= items@);
    r
}

/// The field the form shows for `k`.
fn spec_exec(state: &DeviceState, colors: &Vec<DeviceColor>, k: Key) -> (r: Spec)
    requires
        offers(*state, colors@, k),
    ensures
        field_view(r) == spec_of(*state, colors@, k),
{
    reveal(spec_of);
    let v = initial_value_exec(state, k);
    let none: Vec<(String, String)> = Vec::new();
    assert(choices_view(none@) =~= Seq::<(Seq<char>, Seq<char>)>::empty());
    match k {
        Key::Dpi => {
            let supported = match &state.capabilities.supported_dpi {
                Some(s) => s,
                None => {
                    assert(false);
                    return build(k, "", "", "", "", v, none, true);
                },
            };
            let mut help = owned("Applies to both axes. Supported range ");
            push_str(&mut help, decimal_string(least_exec(supported)).as_str());
            push_str(&mut help, "–");
            push_str(&mut help, decimal_string(greatest_exec(supported)).as_str());
            push_str(&mut help, ".");
            build(k, "Sensitivity", "DPI", help.as_str(), "DPI", v, dpi_presets_exec(supported), true)
        },
        Key::Wired => match &state.capabilities.polling_rates {
            PollingRateCapabilities::Shared { supported_hz } => build(
                k,
                "Polling rate",
                "Report rate",
                "",
                "",
                v,
                rate_choices_exec(supported_hz),
                false,
            ),
            PollingRateCapabilities::PerConnection { wired_hz, .. } => build(
                k,
                "Polling rate",
                "Wired",
                "",
                "",
                v,
                rate_choices_exec(wired_hz),
                false,
            ),
            PollingRateCapabilities::Unsupported => build(k, "Polling rate", "Wired", "", "", v, none, false),
        },
        Key::Wireless => match &state.capabilities.polling_rates {
            PollingRateCapabilities::PerConnection { wireless_hz, .. } => build(
                k,
                "Polling rate",
                "Wireless",
                "",
                "",
                v,
                rate_choices_exec(wireless_hz),
                false,
            ),
            _ => build(k, "Polling rate", "Wireless", "", "", v, none, false),
        },
        Key::Lod => {
            let items = [("low", "Low"), ("medium", "Medium"), ("high", "High")];
            let c = fixed_choices(&items);
            assert(choices_view(c@) =~= seq![("low"@, "Low"@), ("medium"@, "Medium"@), ("high"@, "High"@)]);
            build(
                k,
                "Sensor",
                "Lift-off distance",
                "How far the mouse can leave the pad before it stops tracking. Low cuts out soonest.",
                "",
                v,
                c,
                false,
            )
        },
        Key::Surface => {
            let items = [("on", "On"), ("automatic", "Automatic"), ("off", "Off")];
            let c = fixed_choices(&items);
            assert(choices_view(c@) =~= seq![("on"@, "On"@), ("automatic"@, "Automatic"@), ("off"@, "Off"@)]);
            build(
                k,
                "Sensor",
                "Surface mode",
                "Whether the sensor tunes itself to the surface under it. Automatic leaves that to the mouse.",
                "",
                v,
                c,
                false,
            )
        },
        Key::Operating => {
            let items = [("endurance", "Endurance"), ("performance", "Performance")];
            let c = fixed_choices(&items);
            assert(choices_view(c@) =~= seq![("endurance"@, "Endurance"@), ("performance"@, "Performance"@)]);
            build(
                k,
                "Sensor",
                "Operating mode",
                "Performance runs the sensor at full speed. Endurance trades some of that for battery life.",
                "",
                v,
                c,
                false,
            )
        },
        Key::Bhop => {
            let items = [("off", "Off"), ("on", "On")];
            let c = fixed_choices(&items);
            assert(choices_view(c@) =~= seq![("off"@, "Off"@), ("on"@, "On"@)]);
            build(
                k,
                "Bunny hopping",
                "Bunny hopping",
                "Runs for the timeout below. Switching it off clears that timeout on the device.",
                "",
                v,
                c,
                false,
            )
        },
        Key::Timeout => build(
            k,
            "Bunny hopping",
            "Timeout",
            "100–1000 ms, in 100 ms steps. Choose a timeout before enabling bunny hopping.",
            "ms",
            v,
            none,
            true,
        ),
        Key::Source => build(
            k,
            "Configuration",
            "Settings source",
            "Polling changes require Host control. Select it explicitly before applying. Profile selection activates an existing profile; it does not rewrite it.",
            "",
            v,
            source_choices_exec(state),
            false,
        ),
        Key::Lighting => {
            let items = [
                ("unchanged", "Unchanged"),
                ("firmware", "Firmware"),
                ("off", "Off"),
                ("fixed", "Fixed"),
                ("cycling", "Cycling"),
                ("breathing", "Breathing"),
            ];
            let c = fixed_choices(&items);
            assert(choices_view(c@) =~= seq![
                ("unchanged"@, "Unchanged"@),
                ("firmware"@, "Firmware"@),
                ("off"@, "Off"@),
                ("fixed"@, "Fixed"@),
                ("cycling"@, "Cycling"@),
                ("breathing"@, "Breathing"@),
            ]);
            build(
                k,
                "Lighting",
                "Effect",
                "Choose an effect to apply. Current lighting values are not reported by the agent.",
                "",
                v,
                c,
                false,
            )
        },
        Key::Color => build(k, "Lighting", "Color", "Six hexadecimal digits, as RRGGBB.", "hex", v, none, true),
        Key::Period => build(
            k,
            "Lighting",
            "Period",
            "One full cycle of the breathing or cycling effect.",
            "ms",
            v,
            none,
            true,
        ),
        Key::Brightness => build(k, "Lighting", "Brightness", "", "%", v, none, true),
        Key::Zone => build(
            k,
            "Lighting",
            "Zone",
            "The lighting zone to write. Most mice expose a single zone.",
            "",
            v,
            none,
            true,
        ),
        Key::Nickname => build(
            k,
            "Presentation",
            "Nickname",
            "Leave empty to use the reported device name.",
            "",
            v,
            none,
            true,
        ),
        Key::Appearance => build(
            k,
            "Presentation",
            "Mouse color",
            "Choose your mouse’s finish. Saved for this mouse when you select Apply.",
            "",
            v,
            color_choices_exec(colors),
            colors.len() == 0,
        ),
    }
}

/// The fields of the form for `state`, in layout order: one for each field
/// the device offers, with the value it reports and the choices it has.
/// `colors` are the finishes the device's model comes in.
pub fn specs(state: &DeviceState, colors: &Vec<DeviceColor>) -> (r: Vec<Spec>)
    ensures
        r@.map_values(|s: Spec| field_view(s)) == specs_from(*state, colors@, 0),
{
    let order = layout_order_exec();
    let mut r: Vec<Spec> = Vec::new();
    let mut n: usize = 0;
    assert(r@.map_values(|s: Spec| field_view(s)) + specs_from(*state, colors@, 0) =~= specs_from(*state, colors@, 0));
    while n < 16
        invariant
            n <= 16,
            order@ == layout_order(),
            r@.map_values(|s: Spec| field_view(s)) + specs_from(*state, colors@, n as int) == specs_from(*state, colors@, 0),
        decreases 16 - n,
    {
        let k = order[n];
        let ghost before = r@;
        if offers_exec(state, colors, k) {
            let s = spec_exec(state, colors, k);
            r.push(s);
            proof {
                assert(r@.map_values(|s: Spec| field_view(s)) =~= before.map_values(|s: Spec| field_view(s)).push(
                    spec_of(*state, colors@, k),
                ));
            }
        }
        proof {
            assert(r@.map_values(|s: Spec| field_view(s)) + specs_from(*state, colors@, n as int + 1)
                =~= before.map_values(|s: Spec| field_view(s)) + specs_from(*state, colors@, n as int));
        }
        n += 1;
    }
    assert(specs_from(*state, colors@, 16) =~= Seq::<FieldView>::empty());
    assert(r@.map_values(|s: Spec| field_view(s)) =~= specs_from(*state, colors@, 0));
    r
}

/// A field is shown under its own key, with the value the form starts from.
pub proof fn lemma_field_key_and_value(state: DeviceState, colors: Seq<DeviceColor>, k: Key)
    ensures
        spec_of(state, colors, k).key == k,
        spec_of(state, colors, k).value == initial_value(state, k),
{
    reveal(spec_of);
}

/// Every field from position `n` on is the field of an offered key, and
/// every offered key from there on has its field.
proof fn lemma_specs_from(state: DeviceState, colors: Seq<DeviceColor>, n: int)
    requires
        0 <= n <= 16,
    ensures
        forall|i: int|
            0 <= i < specs_from(state, colors, n).len() ==> #[trigger] specs_from(state, colors, n)[i]
                == spec_of(state, colors, specs_from(state, colors, n)[i].key) && offers(
                state,
                colors,
                specs_from(state, colors, n)[i].key,
            ),
        forall|m: int|
            n <= m < 16 && offers(state, colors, #[trigger] layout_order()[m]) ==> exists|i: int|
                0 <= i < specs_from(state, colors, n).len() && specs_from(state, colors, n)[i].key
                    == layout_order()[m],
    decreases 16 - n,
{
    if n < 16 {
        lemma_specs_from(state, colors, n + 1);
        let k = layout_order()[n];
        lemma_field_key_and_value(state, colors, k);
        let head = if offers(state, colors, k) {
            seq![spec_of(state, colors, k)]
        } else {
            Seq::<FieldView>::empty()
        };
        let tail = specs_from(state, colors, n + 1);
        let whole = specs_from(state, colors, n);
        assert(whole == head + tail);
        assert forall|i: int| 0 <= i < whole.len() implies #[trigger] whole[i] == spec_of(state, colors, whole[i].key)
            && offers(state, colors, whole[i].key) by {
            if i >= head.len() {
                assert(whole[i] == tail[i - head.len()]);
            }
        }
        assert forall|m: int| n <= m < 16 && offers(state, colors, #[trigger] layout_order()[m]) implies exists|i: int|
            0 <= i < whole.len() && whole[i].key == layout_order()[m] by {
            if m == n {
                assert(whole[0].key == layout_order()[m]);
            } else {
                let j = choose|j: int| 0 <= j < tail.len() && tail[j].key == layout_order()[m];
                assert(whole[j + head.len()] == tail[j]);
            }
        }
    }
}

/// The form shows exactly the fields the device offers, each with the value
/// the form starts from.
pub proof fn law_form_shows_the_offered_fields(state: DeviceState, colors: Seq<DeviceColor>, k: Key)
    ensures
        offers(state, colors, k) <==> exists|i: int|
            0 <= i < specs_from(state, colors, 0).len() && (#[trigger] specs_from(state, colors, 0)[i]).key == k,
        forall|i: int|
            0 <= i < specs_from(state, colors, 0).len() ==> (#[trigger] specs_from(state, colors, 0)[i]).value
                == initial_value(state, specs_from(state, colors, 0)[i].key),
{
    lemma_specs_from(state, colors, 0);
    let m = match k {
        Key::Dpi => 0int,
        Key::Wired => 1,
        Key::Wireless => 2,
        Key::Lod => 3,
        Key::Surface => 4,
        Key::Operating => 5,
        Key::Bhop => 6,
        Key::Timeout => 7,
        Key::Source => 8,
        Key::Lighting => 9,
        Key::Color => 10,
        Key::Period => 11,
        Key::Brightness => 12,
        Key::Zone => 13,
        Key::Nickname => 14,
        Key::Appearance => 15,
    };
    assert(layout_order()[m] == k);
    let all = specs_from(state, colors, 0);
    if exists|i: int| 0 <= i < all.len() && (#[trigger] all[i]).key == k {
        let i = choose|i: int| 0 <= i < all.len() && (#[trigger] all[i]).key == k;
        assert(offers(state, colors, all[i].key));
    }
    assert forall|i: int| 0 <= i < all.len() implies (#[trigger] all[i]).value == initial_value(state, all[i].key) by {
        lemma_field_key_and_value(state, colors, all[i].key);
        assert(all[i] == spec_of(state, colors, all[i].key));
    }
}

// ---------------------------------------------------------------------------
// Recap of pending changes
// ---------------------------------------------------------------------------

/// The words shown for the first choice whose value is `value`.
pub open spec fn choice_label(choices: Seq<(String, String)>, value: Seq<char>) -> Option<Seq<char>>
    decreases choices.len(),
{
    if choices.len() == 0 {
        None
    } else if choices[0].0@ == value {
        Some(choices[0].1@)
    } else {
        choice_label(choices.drop_first(), value)
    }
}

/// A value as the page shows it: `Default` for an empty entry, the words of
/// its choice where there is one, the entry itself where there is not.
pub open spec fn shown_value(choices: Seq<(String, String)>, value: Seq<char>) -> Seq<char> {
    if value.len() == 0 {
        "Default"@
    } else {
        match choice_label(choices, value) {
            Some(label) => label,
            None => value,
        }
    }
}

/// One row of the recap of a changed field: its label, the value it has, and
/// the value that replaces it, with the unit shown once, on the replacement.
pub open spec fn recap_row(spec: Spec, replacement: Seq<char>) -> (Seq<char>, Seq<char>, Seq<char>) {
    (
        spec.label@,
        shown_value(spec.choices@, spec.value@),
        if spec.unit@.len() == 0 || replacement.len() == 0 {
            shown_value(spec.choices@, replacement)
        } else {
            shown_value(spec.choices@, replacement) + " "@ + spec.unit@
        },
    )
}

/// The recap of the changed fields: a row for each field with a pending
/// value, in the form's order.
pub open spec fn recap_rows(specs: Seq<Spec>, dirty: Seq<(Key, String)>) -> Seq<
    (Seq<char>, Seq<char>, Seq<char>),
>
    decreases specs.len(),
{
    if specs.len() == 0 {
        Seq::empty()
    } else {
        recap_rows(specs.drop_last(), dirty) + match lookup(dirty, specs.last().key) {
            Some(v) => seq![recap_row(specs.last(), v)],
            None => Seq::empty(),
        }
    }
}

/// Rows of text by their characters.
pub open spec fn rows_view(rows: Seq<(String, String, String)>) -> Seq<(Seq<char>, Seq<char>, Seq<char>)> {
    rows.map_values(|r: (String, String, String)| (r.0@, r.1@, r.2@))
}

fn shown_value_exec(choices: &Vec<(String, String)>, value: &str) -> (r: String)
    ensures
        r@ == shown_value(choices@, value@),
{
    if value.is_empty() {
        return owned("Default");
    }
    let mut i: usize = 0;
    assert(choices@.skip(0) =~= choices@);
    while i < choices.len()
        invariant
            i <= choices.len(),
            value@.len() != 0,
            choice_label(choices@, value@) == choice_label(choices@.skip(i as int), value@),
        decreases choices.len() - i,
    {
        assert(choices@.skip(i as int)[0] == choices@[i as int]);
        if str_eq(choices[i].0.as_str(), value) {
            assert(choice_label(choices@.skip(i as int), value@) == Some(choices@[i as int].1@));
            return owned(choices[i].1.as_str());
        }
        assert(choices@.skip(i as int).drop_first() =~= choices@.skip(i as int + 1));
        i += 1;
    }
    owned(value)
}

/// The recap of pending changes that a confirmation shows: for each field
/// of `specs` that `dirty` changes, its label, its value now, and the value
/// that replaces it.
pub fn change_recap(specs: &Vec<Spec>, dirty: &Vec<(Key, String)>) -> (r: Vec<(String, String, String)>)
    ensures
        rows_view(r@) == recap_rows(specs@, dirty@),
{
    let mut rows: Vec<(String, String, String)> = Vec::new();
    let mut i: usize = 0;
    while i < specs.len()
        invariant
            i <= specs.len(),
            rows_view(rows@) == recap_rows(specs@.take(i as int), dirty@),
        decreases specs.len() - i,
    {
        proof {
            assert(specs@.take(i as int + 1).drop_last() =~= specs@.take(i as int));
            assert(specs@.take(i as int + 1).last() == specs@[i as int]);
        }
        let spec = &specs[i];
        let ghost before = rows@;
        match lookup_exec(dirty, spec.key) {
            Some(value) => {
                let label = owned(spec.label);
                let now = shown_value_exec(&spec.choices, spec.value.as_str());
                let mut to = shown_value_exec(&spec.choices, value.as_str());
                if !spec.unit.is_empty() && !value.as_str().is_empty() {
                    push_str(&mut to, " ");
                    push_str(&mut to, spec.unit);
                }
                rows.push((label, now, to));
                proof {
                    assert(rows_view(rows@) =~= rows_view(before).push(recap_row(*spec, value@)));
                }
            },
            None => {},
        }
        proof {
            assert(rows_view(rows@) =~= recap_rows(specs@.take(i as int + 1), dirty@));
        }
        i += 1;
    }
    assert(specs@.take(specs.len() as int) =~= specs@);
    rows
}

/// What a confirmation says will happen to the device: it keeps its values
/// when the changes are discarded, and gets them as soon as it is confirmed
/// otherwise.
pub open spec fn confirmation_text(device: Seq<char>, discard: bool) -> Seq<char> {
    if discard {
        device + " keeps the values it has now."@
    } else {
        "Written to "@ + device + " as soon as you confirm."@
    }
}

/// The sentence of a confirmation, for the device labelled `device`.
pub fn confirmation_description(device: &str, discard: bool) -> (r: String)
    ensures
        r@ == confirmation_text(device@, discard),
{
    if discard {
        let mut text = owned(device);
        push_str(&mut text, " keeps the values it has now.");
        text
    } else {
        let mut text = owned("Written to ");
        push_str(&mut text, device);
        push_str(&mut text, " as soon as you confirm.");
        text
    }
}

} // verus!
