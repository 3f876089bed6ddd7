//! Which device a command-line selector names, and how devices are named.
use vstd::prelude::*;

use crate::protocol::{DeviceAvailability, DeviceSummary};
use crate::text::{
    chars_of, chars_eq, has_prefix, hex_fixed, lower_chars, lower_seq, owned, push_chars,
    push_hex_fixed, push_str, starts_with, string_of,
};

verus! {

/// The name shown for a device: its reported name, else its USB product name,
/// else its `vvvv:pppp` USB identifiers.
pub open spec fn name_text(device: DeviceSummary) -> Seq<char> {
    match device.display_name {
        Some(name) => name@,
        None => match device.product_name {
            Some(name) => name@,
            None => hex_fixed(device.vendor_id as nat, 4) + seq![':'] + hex_fixed(
                device.product_id as nat,
                4,
            ),
        },
    }
}

/// The selector that keeps naming the device across reconnects: its hardware
/// identity when known, else its session identifier.
pub open spec fn stable_text(device: DeviceSummary) -> Seq<char> {
    match device.hardware_id {
        Some(id) => id@,
        None => device.id@,
    }
}

/// The readiness word shown for a device.
pub open spec fn status_text(device: DeviceSummary) -> Seq<char> {
    match device.availability {
        Some(DeviceAvailability::Initializing) => "initializing"@,
        Some(DeviceAvailability::Ready) => "ready"@,
        Some(DeviceAvailability::Unavailable { detail, .. }) => "unavailable: "@ + detail@,
        None => if device.ready {
            "ready"@
        } else {
            "initializing"@
        },
    }
}

/// One line of the candidate list.
pub open spec fn candidate_line(device: DeviceSummary) -> Seq<char> {
    "  "@ + name_text(device) + " ("@ + stable_text(device) + ")"@
}

/// The candidate lines joined by new lines.
pub open spec fn candidates_text(devices: Seq<DeviceSummary>) -> Seq<char>
    decreases devices.len(),
{
    if devices.len() == 0 {
        seq![]
    } else if devices.len() == 1 {
        candidate_line(devices[0])
    } else {
        candidates_text(devices.drop_last()) + seq!['\n'] + candidate_line(devices.last())
    }
}

/// The device's name.
pub fn device_name(device: &DeviceSummary) -> (r: String)
    ensures
        r@ == name_text(*device),
{
    match &device.display_name {
        Some(name) => name.clone(),
        None => match &device.product_name {
            Some(name) => name.clone(),
            None => {
                let mut v: Vec<char> = Vec::new();
                push_hex_fixed(&mut v, device.vendor_id as u64, 4);
                v.push(':');
                push_hex_fixed(&mut v, device.product_id as u64, 4);
                assert(v@ =~= name_text(*device));
                string_of(&v)
            },
        },
    }
}

/// The device's stable selector.
pub fn stable_selector(device: &DeviceSummary) -> (r: &String)
    ensures
        r@ == stable_text(*device),
{
    match &device.hardware_id {
        Some(id) => id,
        None => &device.id,
    }
}

/// The device's readiness.
pub fn device_status(device: &DeviceSummary) -> (r: String)
    ensures
        r@ == status_text(*device),
{
    match &device.availability {
        Some(DeviceAvailability::Initializing) => owned("initializing"),
        Some(DeviceAvailability::Ready) => owned("ready"),
        Some(DeviceAvailability::Unavailable { detail, .. }) => {
            let mut s = owned("unavailable: ");
            push_str(&mut s, detail.as_str());
            s
        },
        None => if device.ready {
            owned("ready")
        } else {
            owned("initializing")
        },
    }
}

/// The list of candidates offered when a selector does not settle on one device.
pub fn candidates(devices: &Vec<DeviceSummary>) -> (r: String)
    ensures
        r@ == candidates_text(devices@),
{
    let mut s = String::new();
    let mut i: usize = 0;
    while i < devices.len()
        invariant
            i <= devices.len(),
            s@ == candidates_text(devices@.take(i as int)),
        decreases devices.len() - i,
    {
        let ghost before = s@;
        let d = &devices[i];
        if i > 0 {
            crate::text::push_char(&mut s, '\n');
        }
        push_str(&mut s, "  ");
        let name = device_name(d);
        push_str(&mut s, name.as_str());
        push_str(&mut s, " (");
        push_str(&mut s, stable_selector(d).as_str());
        push_str(&mut s, ")");
        proof {
            reveal_strlit("  ");
            reveal_strlit(" (");
            reveal_strlit(")");
            let t = devices@.take(i as int + 1);
            assert(t.drop_last() =~= devices@.take(i as int));
            assert(t.last() == devices@[i as int]);
            if i == 0 {
                assert(s@ =~= candidate_line(devices@[0]));
            } else {
                assert(s@ =~= before + seq!['\n'] + candidate_line(devices@[i as int]));
            }
        }
        i += 1;
    }
    assert(devices@.take(devices.len() as int) =~= devices@);
    s
}

/// Whether `selector` is the device's session identifier.
pub open spec fn names_session(device: DeviceSummary, selector: Seq<char>) -> bool {
    device.id@ == selector
}

/// Whether `selector` is the device's hardware identity.
pub open spec fn names_hardware(device: DeviceSummary, selector: Seq<char>) -> bool {
    device.hardware_id matches Some(id) && id@ == selector
}

/// Whether the lower-cased `selector` begins the lower-cased session identifier
/// or hardware identity.
pub open spec fn prefixes(device: DeviceSummary, selector: Seq<char>) -> bool {
    ||| has_prefix(lower_seq(device.id@), lower_seq(selector))
    ||| (device.hardware_id matches Some(id) && has_prefix(lower_seq(id@), lower_seq(selector)))
}

/// The devices, in order, that `selector` prefixes.
pub open spec fn prefix_matches(devices: Seq<DeviceSummary>, selector: Seq<char>) -> Seq<
    DeviceSummary,
>
    decreases devices.len(),
{
    if devices.len() == 0 {
        seq![]
    } else if prefixes(devices.last(), selector) {
        prefix_matches(devices.drop_last(), selector).push(devices.last())
    } else {
        prefix_matches(devices.drop_last(), selector)
    }
}

/// What an explicit selector resolves to: an exact session identifier first, then
/// an exact hardware identity, then a unique case-insensitive prefix of either.
pub open spec fn explicit_choice(devices: Seq<DeviceSummary>, selector: Seq<char>) -> Result<
    DeviceSummary,
    Seq<char>,
> {
    if exists|i: int| 0 <= i < devices.len() && names_session(#[trigger] devices[i], selector) {
        let i = choose|i: int|
            0 <= i < devices.len() && names_session(#[trigger] devices[i], selector) && forall|j: int|
                0 <= j < i ==> !names_session(#[trigger] devices[j], selector);
        Ok(devices[i])
    } else if exists|i: int| 0 <= i < devices.len() && names_hardware(#[trigger] devices[i], selector) {
        let i = choose|i: int|
            0 <= i < devices.len() && names_hardware(#[trigger] devices[i], selector) && forall|j: int|
                0 <= j < i ==> !names_hardware(#[trigger] devices[j], selector);
        Ok(devices[i])
    } else {
        let found = prefix_matches(devices, selector);
        if found.len() == 1 {
            Ok(found[0])
        } else if found.len() == 0 {
            Err("no device matches `"@ + lower_seq(selector) + "`; available devices:\n"@
                + candidates_text(devices))
        } else {
            Err("selector `"@ + lower_seq(selector) + "` is ambiguous; available devices:\n"@
                + candidates_text(devices))
        }
    }
}

/// What a selector, or its absence, resolves to.
pub open spec fn choice(devices: Seq<DeviceSummary>, selector: Option<Seq<char>>) -> Result<
    DeviceSummary,
    Seq<char>,
> {
    match selector {
        None => if devices.len() == 0 {
            Err("no devices are available from the background agent"@)
        } else if devices.len() == 1 {
            Ok(devices[0])
        } else {
            Err("multiple devices are available; specify a selector:\n"@ + candidates_text(
                devices,
            ))
        },
        Some(selector) => explicit_choice(devices, selector),
    }
}

/// Whether `r` is the result that `expected` describes.
pub open spec fn result_is(r: Result<DeviceSummary, String>, expected: Result<DeviceSummary, Seq<char>>) -> bool {
    match expected {
        Ok(d) => r == Ok::<DeviceSummary, String>(d),
        Err(m) => r matches Err(e) && e@ == m,
    }
}

/// Resolves a selector against the listed devices. Without a selector, the only
/// device is chosen.
pub fn select_device(devices: &Vec<DeviceSummary>, selector: Option<&str>) -> (r: Result<
    DeviceSummary,
    String,
>)
    ensures
        result_is(
            r,
            choice(
                devices@,
                match selector {
                    Some(s) => Some(s@),
                    None => None,
                },
            ),
        ),
{
    match selector {
        None => {
            if devices.len() == 0 {
                Err(owned("no devices are available from the background agent"))
            } else if devices.len() == 1 {
                Ok(devices[0].copy())
            } else {
                let mut s = owned("multiple devices are available; specify a selector:\n");
                let list = candidates(devices);
                push_str(&mut s, list.as_str());
                Err(s)
            }
        },
        Some(selector) => select_explicit(devices, selector),
    }
}

fn select_explicit(devices: &Vec<DeviceSummary>, selector: &str) -> (r: Result<
    DeviceSummary,
    String,
>)
    ensures
        result_is(r, explicit_choice(devices@, selector@)),
{
    let sel = chars_of(selector);
    let mut i: usize = 0;
    while i < devices.len()
        invariant
            i <= devices.len(),
            sel@ == selector@,
            forall|j: int| 0 <= j < i ==> !names_session(#[trigger] devices@[j], selector@),
        decreases devices.len() - i,
    {
        let id = chars_of(devices[i].id.as_str());
        if chars_eq(&id, &sel) {
            assert(names_session(devices@[i as int], selector@));
            return Ok(devices[i].copy());
        }
        i += 1;
    }
    let mut i: usize = 0;
    while i < devices.len()
        invariant
            i <= devices.len(),
            sel@ == selector@,
            forall|j: int| 0 <= j < devices.len() ==> !names_session(#[trigger] devices@[j], selector@),
            forall|j: int| 0 <= j < i ==> !names_hardware(#[trigger] devices@[j], selector@),
        decreases devices.len() - i,
    {
        match &devices[i].hardware_id {
            Some(h) => {
                let id = chars_of(h.as_str());
                if chars_eq(&id, &sel) {
                    assert(names_hardware(devices@[i as int], selector@));
                    return Ok(devices[i].copy());
                }
            },
            None => {},
        }
        i += 1;
    }
    let lowered = lower_chars(&sel);
    let mut found: Vec<usize> = Vec::new();
    let ghost mut found_devices: Seq<DeviceSummary> = seq![];
    let mut i: usize = 0;
    assert(devices@.take(0) =~= Seq::<DeviceSummary>::empty());
    while i < devices.len()
        invariant
            i <= devices.len(),
            lowered@ == lower_seq(selector@),
            found_devices == prefix_matches(devices@.take(i as int), selector@),
            found@.len() == found_devices.len(),
            forall|k: int| 0 <= k < found@.len() ==> found@[k] < i && devices@[#[trigger] found@[k] as int] == found_devices[k],
        decreases devices.len() - i,
    {
        let hit = prefixed_by(&devices[i], &lowered);
        let ghost t = devices@.take(i as int + 1);
        assert(t.drop_last() =~= devices@.take(i as int));
        assert(t.last() == devices@[i as int]);
        if hit {
            found.push(i);
            proof {
                found_devices = found_devices.push(devices@[i as int]);
            }
        }
        i += 1;
    }
    assert(devices@.take(devices.len() as int) =~= devices@);
    if found.len() == 1 {
        Ok(devices[found[0]].copy())
    } else if found.len() == 0 {
        let mut s = owned("no device matches `");
        push_chars(&mut s, &lowered);
        push_str(&mut s, "`; available devices:\n");
        let list = candidates(devices);
        push_str(&mut s, list.as_str());
        Err(s)
    } else {
        let mut s = owned("selector `");
        push_chars(&mut s, &lowered);
        push_str(&mut s, "` is ambiguous; available devices:\n");
        let list = candidates(devices);
        push_str(&mut s, list.as_str());
        Err(s)
    }
}

/// Whether the lower-cased selector begins either identifier of the device.
fn prefixed_by(device: &DeviceSummary, lowered: &Vec<char>) -> (r: bool)
    ensures
        r == (has_prefix(lower_seq(device.id@), lowered@) || (device.hardware_id matches Some(
            id,
        ) && has_prefix(lower_seq(id@), lowered@))),
{
    let id = lower_chars(&chars_of(device.id.as_str()));
    if starts_with(&id, lowered) {
        return true;
    }
    match &device.hardware_id {
        Some(h) => {
            let hw = lower_chars(&chars_of(h.as_str()));
            starts_with(&hw, lowered)
        },
        None => false,
    }
}

} // verus!
