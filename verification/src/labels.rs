//! The words and numbers the settings application shows about a mouse: its
//! names, its link, its charge, and how DPI and report rates are written.
use vstd::prelude::*;

use crate::protocol::{
    BatteryState, ConfigurationSource, DeviceAvailability, DeviceConnection, DeviceSummary,
    DeviceUnavailableReason,
};
use crate::text::{decimal, decimal_chars, owned, string_of};

verus! {

/// Charge below this is worth pointing at rather than just reporting.
pub const LOW_BATTERY: u8 = 30;

/// The one thing about the charge worth a glyph of its own.
#[derive(Clone, Copy, Debug, PartialEq, Eq, Structural)]
pub enum Charge {
    /// On the cable and filling up.
    Charging,
    /// Running down, and close enough to empty to say so.
    Low,
    /// Running down with room to spare: the level itself is the whole story.
    Steady,
}

/// What the charge comes to. Every status other than discharging is one a
/// mouse can only be in on the cable, a full charge included.
pub open spec fn charge_of(battery: Option<BatteryState>) -> Charge {
    match battery {
        None => Charge::Steady,
        Some(b) => if 1 <= b.status_code <= 4 {
            Charge::Charging
        } else if b.percentage < LOW_BATTERY {
            Charge::Low
        } else {
            Charge::Steady
        },
    }
}

/// What the charge comes to.
pub fn charge(battery: Option<&BatteryState>) -> (r: Charge)
    ensures
        r == charge_of(match battery {
            Some(b) => Some(*b),
            None => None,
        }),
{
    match battery {
        None => Charge::Steady,
        Some(b) => if 1 <= b.status_code && b.status_code <= 4 {
            Charge::Charging
        } else if b.percentage < LOW_BATTERY {
            Charge::Low
        } else {
            Charge::Steady
        },
    }
}

/// How a charge reading is coloured: healthy, running out, or nothing to say.
#[derive(Clone, Copy, Debug, PartialEq, Eq, Structural)]
pub enum Tone {
    Muted,
    Success,
    Danger,
}

/// The tone of a charge reading. A mouse that is not ready has no charge to
/// report; charging reads as healthy; a low charge, or any level of 20% or
/// less, reads as running out.
pub open spec fn tone_of(battery: Option<BatteryState>, ready: bool) -> Tone {
    if !ready {
        Tone::Muted
    } else {
        match charge_of(battery) {
            Charge::Charging => Tone::Success,
            Charge::Low => Tone::Danger,
            Charge::Steady => match battery {
                Some(b) => if b.percentage <= 20 {
                    Tone::Danger
                } else {
                    Tone::Success
                },
                None => Tone::Muted,
            },
        }
    }
}

/// The tone of a charge reading for `device`.
pub fn battery_tone(battery: Option<&BatteryState>, device: &DeviceSummary) -> (r: Tone)
    ensures
        r == tone_of(
            match battery {
                Some(b) => Some(*b),
                None => None,
            },
            device.ready,
        ),
{
    if !device.ready {
        return Tone::Muted;
    }
    match charge(battery) {
        Charge::Charging => Tone::Success,
        Charge::Low => Tone::Danger,
        Charge::Steady => match battery {
            Some(b) => if b.percentage <= 20 {
                Tone::Danger
            } else {
                Tone::Success
            },
            None => Tone::Muted,
        },
    }
}

/// The name a mouse goes by: its nickname, else its reported name, else its
/// USB product name, else a generic one.
pub open spec fn label_of(device: DeviceSummary) -> Seq<char> {
    match device.nickname {
        Some(n) => n@,
        None => match device.display_name {
            Some(n) => n@,
            None => match device.product_name {
                Some(n) => n@,
                None => "Logitech mouse"@,
            },
        },
    }
}

/// The name a mouse goes by.
pub fn device_label(device: &DeviceSummary) -> (r: String)
    ensures
        r@ == label_of(*device),
{
    match &device.nickname {
        Some(n) => n.clone(),
        None => match &device.display_name {
            Some(n) => n.clone(),
            None => match &device.product_name {
                Some(n) => n.clone(),
                None => owned("Logitech mouse"),
            },
        },
    }
}

/// The name the mouse reports for itself, whatever the user calls it.
pub open spec fn reported_of(device: DeviceSummary) -> Seq<char> {
    match device.display_name {
        Some(n) => n@,
        None => match device.product_name {
            Some(n) => n@,
            None => "Not reported"@,
        },
    }
}

/// The name the mouse reports for itself.
pub fn reported_label(device: &DeviceSummary) -> (r: String)
    ensures
        r@ == reported_of(*device),
{
    match &device.display_name {
        Some(n) => n.clone(),
        None => match &device.product_name {
            Some(n) => n.clone(),
            None => owned("Not reported"),
        },
    }
}

/// How the mouse is linked.
pub fn connection_label(device: &DeviceSummary) -> (r: &'static str)
    ensures
        r@ == (match device.connection {
            DeviceConnection::DirectUsb => "DIRECT USB"@,
            DeviceConnection::Receiver => "WIRELESS RECEIVER"@,
        }),
{
    match device.connection {
        DeviceConnection::DirectUsb => "DIRECT USB",
        DeviceConnection::Receiver => "WIRELESS RECEIVER",
    }
}

/// Who the configuration follows.
pub fn source_label(source: Option<ConfigurationSource>) -> (r: &'static str)
    ensures
        r@ == (match source {
            Some(ConfigurationSource::Host) => "HOST CONTROL"@,
            Some(ConfigurationSource::Onboard { .. }) => "ONBOARD PROFILE"@,
            Some(ConfigurationSource::Unknown { .. }) => "UNKNOWN MODE"@,
            None => "SOURCE UNAVAILABLE"@,
        }),
{
    match source {
        Some(ConfigurationSource::Host) => "HOST CONTROL",
        Some(ConfigurationSource::Onboard { .. }) => "ONBOARD PROFILE",
        Some(ConfigurationSource::Unknown { .. }) => "UNKNOWN MODE",
        None => "SOURCE UNAVAILABLE",
    }
}

/// The digits of `d` from position `i` on, with a comma before each digit
/// that starts a group of three counted from the right.
pub open spec fn grouped_from(d: Seq<char>, i: int) -> Seq<char>
    decreases d.len() - i,
{
    if i < 0 || i >= d.len() {
        Seq::empty()
    } else {
        (if i > 0 && (d.len() - i) % 3 == 0 {
            seq![',']
        } else {
            Seq::empty()
        }) + seq![d[i]] + grouped_from(d, i + 1)
    }
}

/// A sensitivity as it is written down. Four digits read as one number here,
/// so only five or more carry a separator.
pub open spec fn dpi_text_of(value: u16) -> Seq<char> {
    let d = decimal(value as nat);
    if d.len() < 5 {
        d
    } else {
        grouped_from(d, 0)
    }
}

/// A sensitivity as it is written down.
pub fn dpi_text(value: u16) -> (r: String)
    ensures
        r@ == dpi_text_of(value),
{
    let digits = decimal_chars(value as u128);
    if digits.len() < 5 {
        return string_of(&digits);
    }
    let mut out: Vec<char> = Vec::new();
    let mut i: usize = 0;
    assert(out@ + grouped_from(digits@, 0) =~= grouped_from(digits@, 0));
    while i < digits.len()
        invariant
            i <= digits.len(),
            out@ + grouped_from(digits@, i as int) == grouped_from(digits@, 0),
        decreases digits.len() - i,
    {
        let ghost before = out@;
        if i > 0 && (digits.len() - i) % 3 == 0 {
            out.push(',');
        }
        out.push(digits[i]);
        assert(out@ + grouped_from(digits@, i as int + 1) =~= before + grouped_from(digits@, i as int));
        i += 1;
    }
    assert(grouped_from(digits@, digits@.len() as int) =~= Seq::<char>::empty());
    assert(out@ =~= grouped_from(digits@, 0));
    string_of(&out)
}

/// A rate as a person says it: whole kilohertz as "8K", anything else in hertz.
pub open spec fn rate_name_of(hz: u32) -> Seq<char> {
    if hz >= 1000 && hz % 1000 == 0 {
        decimal((hz / 1000) as nat) + "K"@
    } else {
        decimal(hz as nat)
    }
}

/// A rate as a person says it.
pub fn rate_name(hz: u32) -> (r: String)
    ensures
        r@ == rate_name_of(hz),
{
    if hz >= 1000 && hz % 1000 == 0 {
        let mut v = decimal_chars((hz / 1000) as u128);
        v.push('K');
        proof {
            reveal_strlit("K");
        }
        assert(v@ =~= rate_name_of(hz));
        string_of(&v)
    } else {
        string_of(&decimal_chars(hz as u128))
    }
}

/// Where a group of settings stands on the page: in the order a person tunes
/// a mouse, unknown groups last.
pub fn group_order(group: &str) -> (r: usize)
    ensures
        r == (if group@ == "Sensitivity"@ {
            0
        } else if group@ == "Polling rate"@ {
            1
        } else if group@ == "Sensor"@ {
            2
        } else if group@ == "Bunny hopping"@ {
            3
        } else if group@ == "Configuration"@ {
            4
        } else if group@ == "Lighting"@ {
            5
        } else if group@ == "Presentation"@ {
            6
        } else if group@ == "Buttons"@ {
            7
        } else {
            8usize
        }),
{
    if crate::text::str_eq(group, "Sensitivity") {
        0
    } else if crate::text::str_eq(group, "Polling rate") {
        1
    } else if crate::text::str_eq(group, "Sensor") {
        2
    } else if crate::text::str_eq(group, "Bunny hopping") {
        3
    } else if crate::text::str_eq(group, "Configuration") {
        4
    } else if crate::text::str_eq(group, "Lighting") {
        5
    } else if crate::text::str_eq(group, "Presentation") {
        6
    } else if crate::text::str_eq(group, "Buttons") {
        7
    } else {
        8
    }
}

/// What can be said of a mouse's link.
#[derive(Clone, Copy, Debug, PartialEq, Eq, Structural)]
pub enum LinkState {
    Ready,
    Offline,
    Disconnected,
    Checking,
    Unknown,
    Error,
}

impl LinkState {
    /// The state of a link: a USB cable that is gone comes first, then a
    /// device still being set up, then a failed read; otherwise a ready mouse
    /// is ready and any other is offline.
    pub open spec fn spec_of(device: DeviceSummary, disconnected: bool) -> LinkState {
        if disconnected {
            LinkState::Disconnected
        } else {
            match device.availability {
                Some(DeviceAvailability::Initializing) => LinkState::Checking,
                Some(DeviceAvailability::Unavailable { reason: DeviceUnavailableReason::CommunicationError, .. }) => LinkState::Error,
                _ => if device.ready {
                    LinkState::Ready
                } else {
                    LinkState::Offline
                },
            }
        }
    }

    /// The state of a device's link; `disconnected` says that its USB cable
    /// is known to be unplugged.
    pub fn of(device: &DeviceSummary, disconnected: bool) -> (r: LinkState)
        ensures
            r == LinkState::spec_of(*device, disconnected),
    {
        if disconnected {
            return LinkState::Disconnected;
        }
        match &device.availability {
            Some(DeviceAvailability::Initializing) => LinkState::Checking,
            Some(DeviceAvailability::Unavailable { reason: DeviceUnavailableReason::CommunicationError, .. }) => LinkState::Error,
            _ => if device.ready {
                LinkState::Ready
            } else {
                LinkState::Offline
            },
        }
    }
}

} // verus!
