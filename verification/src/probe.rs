//! The argument parsers, device selection and value labels of the hardware probe.
use vstd::prelude::*;

use crate::cli::strip_hash;
use crate::int_parse::{
    digit_of, digit_value, int_error_message, int_error_text, parse_u16_radix, parse_u8_radix,
    parse_uint, parse_usize,
};
use crate::protocol::RgbColor;
use crate::text::{
    chars_of, contains, contains_chars, decimal, decimal_chars, has_prefix, hex_fixed,
    lower_chars, lower_seq, one, owned, push_chars, push_hex_fixed, push_str, slice,
    strip_prefix, trim, trim_chars,
};

verus! {

// ---------------------------------------------------------------------------
// Device selectors
// ---------------------------------------------------------------------------

/// How a device is chosen: by its position in the listing, or by USB IDs.
#[derive(Clone, Copy, Debug, PartialEq, Eq, Structural)]
pub enum DeviceSelector {
    ListIndex(usize),
    UsbId { vendor_id: u16, product_id: u16 },
}

/// The message for a selector that is neither an index nor a USB ID pair.
pub open spec fn selector_usage_text() -> Seq<char> {
    "expected a list index or VID:PID such as 9 or 046d:c54d"@
}

/// The first position of `c` in `s`.
pub open spec fn first_index_of(s: Seq<char>, c: char) -> Option<int> {
    if exists|i: int| 0 <= i < s.len() && s[i] == c {
        Some(choose|i: int| 0 <= i < s.len() && s[i] == c && forall|j: int| 0 <= j < i ==> s[j] != c)
    } else {
        None
    }
}

/// What a selector argument stands for, or the message for it.
pub open spec fn selector_of(value: Seq<char>) -> Result<DeviceSelector, Seq<char>> {
    match first_index_of(value, ':') {
        Some(i) => {
            let vendor = value.take(i);
            let product = value.skip(i + 1);
            if product.contains(':') {
                Err(selector_usage_text())
            } else {
                match parse_uint(vendor, 16, 0xffff) {
                    Err(_) => Err("invalid hexadecimal vendor ID `"@ + vendor + "`"@),
                    Ok(v) => match parse_uint(product, 16, 0xffff) {
                        Err(_) => Err("invalid hexadecimal product ID `"@ + product + "`"@),
                        Ok(p) => Ok(DeviceSelector::UsbId { vendor_id: v as u16, product_id: p as u16 }),
                    },
                }
            }
        },
        None => match parse_uint(value, 10, usize::MAX as nat) {
            Ok(n) => Ok(DeviceSelector::ListIndex(n as usize)),
            Err(_) => Err(selector_usage_text()),
        },
    }
}

proof fn lemma_first_index(s: Seq<char>, c: char, i: int)
    requires
        0 <= i < s.len(),
        s[i] == c,
        forall|j: int| 0 <= j < i ==> s[j] != c,
    ensures
        first_index_of(s, c) == Some(i),
{
    let k = choose|k: int| 0 <= k < s.len() && s[k] == c && forall|j: int| 0 <= j < k ==> s[j] != c;
    assert(0 <= k < s.len() && s[k] == c && forall|j: int| 0 <= j < k ==> s[j] != c);
    if k < i {
        assert(s[k] != c);
    }
    if k > i {
        assert(s[i] != c);
    }
}

/// Parses a device selector: a list index such as `9`, or a USB ID pair such
/// as `046d:c54d`.
pub fn parse_device_selector(value: &str) -> (r: Result<DeviceSelector, String>)
    ensures
        match selector_of(value@) {
            Ok(s) => r == Ok::<DeviceSelector, String>(s),
            Err(m) => r matches Err(e) && e@ == m,
        },
{
    let chars = chars_of(value);
    let mut i: usize = 0;
    while i < chars.len() && chars[i] != ':'
        invariant
            i <= chars.len(),
            chars@ == value@,
            forall|j: int| 0 <= j < i ==> chars@[j] != ':',
        decreases chars.len() - i,
    {
        i += 1;
    }
    if i < chars.len() {
        proof {
            lemma_first_index(value@, ':', i as int);
        }
        let vendor = slice(&chars, 0, i);
        let product = slice(&chars, i + 1, chars.len());
        assert(vendor@ == value@.take(i as int));
        assert(product@ == value@.skip(i as int + 1));
        let mut k: usize = 0;
        while k < product.len()
            invariant
                k <= product.len(),
                i < chars.len(),
                chars@ == value@,
                first_index_of(value@, ':') == Some(i as int),
                product@ == value@.skip(i as int + 1),
                forall|j: int| 0 <= j < k ==> product@[j] != ':',
            decreases product.len() - k,
        {
            if product[k] == ':' {
                assert(product@[k as int] == ':');
                return Err(owned("expected a list index or VID:PID such as 9 or 046d:c54d"));
            }
            k += 1;
        }
        let vendor_id = match parse_u16_radix(&vendor, 16) {
            Ok(v) => v,
            Err(_) => {
                let mut m = owned("invalid hexadecimal vendor ID `");
                push_chars(&mut m, &vendor);
                push_str(&mut m, "`");
                return Err(m);
            },
        };
        let product_id = match parse_u16_radix(&product, 16) {
            Ok(p) => p,
            Err(_) => {
                let mut m = owned("invalid hexadecimal product ID `");
                push_chars(&mut m, &product);
                push_str(&mut m, "`");
                return Err(m);
            },
        };
        Ok(DeviceSelector::UsbId { vendor_id, product_id })
    } else {
        proof {
            if exists|j: int| 0 <= j < value@.len() && value@[j] == ':' {
                let j = choose|j: int| 0 <= j < value@.len() && value@[j] == ':';
                assert(chars@[j] != ':');
            }
        }
        match parse_usize(&chars) {
            Ok(n) => Ok(DeviceSelector::ListIndex(n)),
            Err(_) => Err(owned("expected a list index or VID:PID such as 9 or 046d:c54d")),
        }
    }
}

impl core::str::FromStr for DeviceSelector {
    type Err = String;

    fn from_str(value: &str) -> (r: Result<DeviceSelector, String>)
        ensures
            match selector_of(value@) {
                Ok(s) => r == Ok::<DeviceSelector, String>(s),
                Err(m) => r matches Err(e) && e@ == m,
            },
    {
        parse_device_selector(value)
    }
}

/// What the probe knows of one HID collection in the device listing.
#[derive(Clone, Debug, PartialEq, Eq)]
pub struct HidCollection {
    pub vendor_id: u16,
    pub product_id: u16,
    pub interface_number: i32,
    pub serial_number: Option<String>,
    pub usage_page: u16,
    pub usage: u16,
    /// The operating system's path of the collection, as bytes.
    pub path: Vec<u8>,
}

/// The collection is the HID++ short-report collection of the USB ID pair.
pub open spec fn is_short_report(d: HidCollection, vendor_id: u16, product_id: u16) -> bool {
    d.vendor_id == vendor_id && d.product_id == product_id && d.usage_page >= 0xff00 && d.usage
        == 0x0001
}

/// `vid:pid` in four lower-case hexadecimal digits each.
pub open spec fn usb_id_text(vendor_id: u16, product_id: u16) -> Seq<char> {
    hex_fixed(vendor_id as nat, 4) + ":"@ + hex_fixed(product_id as nat, 4)
}

/// The collection a selector picks from the listing, or the message for it:
/// an index must exist; a USB ID pair must match exactly one HID++ collection.
pub open spec fn selection(devices: Seq<HidCollection>, selector: DeviceSelector) -> Result<usize, Seq<char>> {
    match selector {
        DeviceSelector::ListIndex(index) => if index < devices.len() {
            Ok(index)
        } else {
            Err("device index "@ + decimal(index as nat) + " does not exist; run `open-hub-probe list` again"@)
        },
        DeviceSelector::UsbId { vendor_id, product_id } => {
            if !exists|i: int| 0 <= i < devices.len() && is_short_report(#[trigger] devices[i], vendor_id, product_id) {
                Err("no HID++ short-report collection found for "@ + usb_id_text(vendor_id, product_id)
                    + "; run `open-hub-probe list`"@)
            } else if exists|i: int, j: int|
                0 <= i < j < devices.len() && is_short_report(#[trigger] devices[i], vendor_id, product_id)
                    && is_short_report(#[trigger] devices[j], vendor_id, product_id) {
                Err("more than one HID++ device matches "@ + usb_id_text(vendor_id, product_id)
                    + "; use its numeric list index"@)
            } else {
                Ok(
                    (choose|i: int|
                        0 <= i < devices.len() && is_short_report(devices[i], vendor_id, product_id)) as usize,
                )
            }
        },
    }
}

fn push_usb_id(m: &mut String, vendor_id: u16, product_id: u16)
    ensures
        final(m)@ == old(m)@ + usb_id_text(vendor_id, product_id),
{
    let mut v: Vec<char> = Vec::new();
    push_hex_fixed(&mut v, vendor_id as u64, 4);
    v.push(':');
    push_hex_fixed(&mut v, product_id as u64, 4);
    assert(v@ =~= hex_fixed(vendor_id as nat, 4) + ":"@ + hex_fixed(product_id as nat, 4)) by {
        reveal_strlit(":");
    }
    push_chars(m, &v);
}

/// Picks a collection from the listing.
pub fn select_device(devices: &Vec<HidCollection>, selector: DeviceSelector) -> (r: Result<usize, String>)
    ensures
        match selection(devices@, selector) {
            Ok(i) => r == Ok::<usize, String>(i),
            Err(m) => r matches Err(e) && e@ == m,
        },
{
    match selector {
        DeviceSelector::ListIndex(index) => {
            if index < devices.len() {
                Ok(index)
            } else {
                let mut m = owned("device index ");
                push_chars(&mut m, &decimal_chars(index as u128));
                push_str(&mut m, " does not exist; run `open-hub-probe list` again");
                Err(m)
            }
        },
        DeviceSelector::UsbId { vendor_id, product_id } => {
            let mut first: Option<usize> = None;
            let mut i: usize = 0;
            while i < devices.len()
                invariant
                    i <= devices.len(),
                    selector == (DeviceSelector::UsbId { vendor_id, product_id }),
                    first is None ==> forall|j: int| 0 <= j < i ==> !is_short_report(#[trigger] devices@[j], vendor_id, product_id),
                    first matches Some(a) ==> a < i && is_short_report(devices@[a as int], vendor_id, product_id)
                        && forall|j: int| 0 <= j < i && j != a ==> !is_short_report(#[trigger] devices@[j], vendor_id, product_id),
                decreases devices.len() - i,
            {
                let d = &devices[i];
                if d.vendor_id == vendor_id && d.product_id == product_id && d.usage_page >= 0xff00
                    && d.usage == 0x0001 {
                    match first {
                        Some(a) => {
                            assert(is_short_report(devices@[a as int], vendor_id, product_id));
                            assert(is_short_report(devices@[i as int], vendor_id, product_id));
                            let mut m = owned("more than one HID++ device matches ");
                            push_usb_id(&mut m, vendor_id, product_id);
                            push_str(&mut m, "; use its numeric list index");
                            return Err(m);
                        },
                        None => {
                            first = Some(i);
                        },
                    }
                }
                i += 1;
            }
            match first {
                Some(a) => {
                    proof {
                        let c = choose|i: int| 0 <= i < devices@.len() && is_short_report(devices@[i], vendor_id, product_id);
                        assert(c == a);
                    }
                    Ok(a)
                },
                None => {
                    let mut m = owned("no HID++ short-report collection found for ");
                    push_usb_id(&mut m, vendor_id, product_id);
                    push_str(&mut m, "; run `open-hub-probe list`");
                    Err(m)
                },
            }
        },
    }
}

/// The first collection of the same interface as `selected` with another usage.
pub open spec fn same_interface(candidate: HidCollection, selected: HidCollection, usage: u16) -> bool {
    &&& candidate.vendor_id == selected.vendor_id
    &&& candidate.product_id == selected.product_id
    &&& candidate.interface_number == selected.interface_number
    &&& crate::store::opt_view(candidate.serial_number) == crate::store::opt_view(selected.serial_number)
    &&& candidate.usage_page == selected.usage_page
    &&& candidate.usage == usage
}

/// Finds the collection of the same interface as `selected` with `usage`.
pub fn find_report_collection(devices: &Vec<HidCollection>, selected: &HidCollection, usage: u16) -> (r: Option<usize>)
    ensures
        match r {
            Some(i) => i < devices.len() && same_interface(devices@[i as int], *selected, usage)
                && forall|j: int| 0 <= j < i ==> !same_interface(#[trigger] devices@[j], *selected, usage),
            None => forall|j: int| 0 <= j < devices.len() ==> !same_interface(#[trigger] devices@[j], *selected, usage),
        },
{
    let mut i: usize = 0;
    while i < devices.len()
        invariant
            i <= devices.len(),
            forall|j: int| 0 <= j < i ==> !same_interface(#[trigger] devices@[j], *selected, usage),
        decreases devices.len() - i,
    {
        let c = &devices[i];
        let serials_match = match (&c.serial_number, &selected.serial_number) {
            (None, None) => true,
            (Some(a), Some(b)) => crate::text::str_eq(a.as_str(), b.as_str()),
            _ => false,
        };
        if c.vendor_id == selected.vendor_id && c.product_id == selected.product_id
            && c.interface_number == selected.interface_number && serials_match && c.usage_page
            == selected.usage_page && c.usage == usage {
            return Some(i);
        }
        i += 1;
    }
    None
}

/// The HID++ device index to use by default: 1 behind a receiver, 0xff for a
/// mouse on direct USB.
pub open spec fn default_index_for(product: Option<Seq<char>>) -> u8 {
    match product {
        Some(p) => if contains(lower_seq(p), "receiver"@) {
            0x01
        } else {
            0xff
        },
        None => 0xff,
    }
}

/// The default HID++ device index of a device with product string `product`.
pub fn default_device_index(product: Option<&str>) -> (r: u8)
    ensures
        r == default_index_for(crate::agent::opt_str_view(product)),
{
    match product {
        Some(p) => {
            let lowered = lower_chars(&chars_of(p));
            let receiver = chars_of("receiver");
            if contains_chars(&lowered, &receiver) {
                0x01
            } else {
                0xff
            }
        },
        None => 0xff,
    }
}

// ---------------------------------------------------------------------------
// Number arguments
// ---------------------------------------------------------------------------

/// `s` without a leading `0x` or `0X`, and whether it had one.
pub open spec fn strip_hex_prefix(s: Seq<char>) -> (Seq<char>, bool) {
    if has_prefix(s, "0x"@) || has_prefix(s, "0X"@) {
        (s.skip(2), true)
    } else {
        (s, false)
    }
}

fn strip_hex_prefix_chars(s: &Vec<char>) -> (r: (Vec<char>, bool))
    ensures
        (r.0@, r.1) == strip_hex_prefix(s@),
{
    let lower = chars_of("0x");
    let upper = chars_of("0X");
    proof {
        reveal_strlit("0x");
        reveal_strlit("0X");
    }
    match strip_prefix(s, &lower) {
        Some(rest) => (rest, true),
        None => match strip_prefix(s, &upper) {
            Some(rest) => (rest, true),
            None => (slice(s, 0, s.len()), false),
        },
    }
}

/// A byte written in hexadecimal, with or without `0x`, or the message for it.
pub open spec fn hex_byte_of(value: Seq<char>) -> Result<u8, Seq<char>> {
    match parse_uint(strip_hex_prefix(trim(value)).0, 16, 0xff) {
        Ok(v) => Ok(v as u8),
        Err(e) => Err("expected a hex byte: "@ + int_error_text(e)),
    }
}

/// Parses a byte written in hexadecimal, with or without `0x`.
pub fn parse_u8(value: &str) -> (r: Result<u8, String>)
    ensures
        match hex_byte_of(value@) {
            Ok(v) => r == Ok::<u8, String>(v),
            Err(m) => r matches Err(e) && e@ == m,
        },
{
    let t = trim_chars(&chars_of(value));
    let (digits, _) = strip_hex_prefix_chars(&t);
    match parse_u8_radix(&digits, 16) {
        Ok(v) => Ok(v),
        Err(e) => {
            let mut m = owned("expected a hex byte: ");
            let text = int_error_message(e);
            push_str(&mut m, text.as_str());
            Err(m)
        },
    }
}

/// A profile sector: hexadecimal after `0x` or `0X`, decimal otherwise, or the
/// message for it.
pub open spec fn profile_sector_of(value: Seq<char>) -> Result<u16, Seq<char>> {
    let (digits, hex) = strip_hex_prefix(trim(value));
    match parse_uint(digits, if hex { 16 } else { 10 }, 0xffff) {
        Ok(v) => Ok(v as u16),
        Err(e) => Err("expected a profile sector: "@ + int_error_text(e)),
    }
}

/// Parses a profile sector, decimal or `0x`-prefixed hexadecimal.
pub fn parse_u16(value: &str) -> (r: Result<u16, String>)
    ensures
        match profile_sector_of(value@) {
            Ok(v) => r == Ok::<u16, String>(v),
            Err(m) => r matches Err(e) && e@ == m,
        },
{
    let t = trim_chars(&chars_of(value));
    let (digits, hex) = strip_hex_prefix_chars(&t);
    let radix: u32 = if hex {
        16
    } else {
        10
    };
    match parse_u16_radix(&digits, radix) {
        Ok(v) => Ok(v),
        Err(e) => {
            let mut m = owned("expected a profile sector: ");
            let text = int_error_message(e);
            push_str(&mut m, text.as_str());
            Err(m)
        },
    }
}

/// Whether `c` is an ASCII hexadecimal digit.
pub open spec fn is_hex_digit(c: char) -> bool {
    digit_value(c, 16) is Some
}

/// The value of two hexadecimal digits.
pub open spec fn hex_pair(a: char, b: char) -> u8 {
    (digit_value(a, 16)->0 * 16 + digit_value(b, 16)->0) as u8
}

/// A colour as `RRGGBB` or `#RRGGBB`, or the message for anything else.
pub open spec fn probe_rgb_of(value: Seq<char>) -> Result<RgbColor, Seq<char>> {
    let h = strip_hash(trim(value));
    if h.len() == 6 && forall|i: int| 0 <= i < 6 ==> is_hex_digit(#[trigger] h[i]) {
        Ok(RgbColor { red: hex_pair(h[0], h[1]), green: hex_pair(h[2], h[3]), blue: hex_pair(h[4], h[5]) })
    } else {
        Err("expected an RGB color as RRGGBB or #RRGGBB"@)
    }
}

/// Parses a colour as `RRGGBB` or `#RRGGBB`, surrounding white space allowed.
pub fn parse_rgb(value: &str) -> (r: Result<RgbColor, String>)
    ensures
        match probe_rgb_of(value@) {
            Ok(c) => r == Ok::<RgbColor, String>(c),
            Err(m) => r matches Err(e) && e@ == m,
        },
{
    let t = trim_chars(&chars_of(value));
    let h = if t.len() > 0 && t[0] == '#' {
        slice(&t, 1, t.len())
    } else {
        slice(&t, 0, t.len())
    };
    assert(h@ == strip_hash(t@)) by {
        if t@.len() > 0 && t@[0] == '#' {
            assert(t@.subrange(1, t@.len() as int) =~= t@.drop_first());
        } else {
            assert(t@.subrange(0, t@.len() as int) =~= t@);
        }
    }
    if h.len() != 6 {
        return Err(owned("expected an RGB color as RRGGBB or #RRGGBB"));
    }
    let mut digits: Vec<u32> = Vec::new();
    let mut i: usize = 0;
    while i < 6
        invariant
            i <= 6,
            h.len() == 6,
            h@ == strip_hash(trim(value@)),
            digits.len() == i,
            forall|j: int| 0 <= j < i ==> is_hex_digit(#[trigger] h@[j]) && digit_value(h@[j], 16) == Some(digits@[j] as nat),
        decreases 6 - i,
    {
        match digit_of(h[i], 16) {
            Some(d) => {
                digits.push(d);
            },
            None => {
                assert(!is_hex_digit(h@[i as int]));
                return Err(owned("expected an RGB color as RRGGBB or #RRGGBB"));
            },
        }
        i += 1;
    }
    let red = (digits[0] * 16 + digits[1]) as u8;
    let green = (digits[2] * 16 + digits[3]) as u8;
    let blue = (digits[4] * 16 + digits[5]) as u8;
    Ok(RgbColor { red, green, blue })
}

// ---------------------------------------------------------------------------
// Labels
// ---------------------------------------------------------------------------

/// Whether a profile command may rewrite onboard flash.
pub struct ProfileTargetArgs {
    pub profile: u8,
    pub confirm_flash_write: bool,
}

/// Refuses a profile write that was not confirmed.
pub fn confirm_profile_write(target: &ProfileTargetArgs) -> (r: Result<(), String>)
    ensures
        target.confirm_flash_write <==> r is Ok,
        r matches Err(m) ==> m@ == "this command rewrites onboard flash; retry with `--confirm-flash-write` after reviewing the selected profile"@,
{
    if !target.confirm_flash_write {
        return Err(
            owned(
                "this command rewrites onboard flash; retry with `--confirm-flash-write` after reviewing the selected profile",
            ),
        );
    }
    Ok(())
}

/// The text, or `<default>` without one.
pub fn optional_text(value: Option<&str>) -> (r: &str)
    ensures
        r@ == (match value {
            Some(v) => v@,
            None => "<default>"@,
        }),
{
    match value {
        Some(v) => v,
        None => "<default>",
    }
}

/// `off`, or `on/` and the timeout in milliseconds.
pub fn profile_bhop_label(timeout_ms: Option<u16>) -> (r: String)
    ensures
        r@ == (match timeout_ms {
            Some(t) => "on/"@ + decimal(t as nat) + " ms"@,
            None => "off"@,
        }),
{
    match timeout_ms {
        Some(t) => {
            let mut m = owned("on/");
            push_chars(&mut m, &decimal_chars(t as u128));
            push_str(&mut m, " ms");
            m
        },
        None => owned("off"),
    }
}

/// The number in decimal, or `n/a`.
pub fn optional_number(value: Option<u64>) -> (r: String)
    ensures
        r@ == (match value {
            Some(v) => decimal(v as nat),
            None => "n/a"@,
        }),
{
    match value {
        Some(v) => {
            let mut m = String::new();
            push_chars(&mut m, &decimal_chars(v as u128));
            m
        },
        None => owned("n/a"),
    }
}

/// The rate in hertz, or `n/a`.
pub fn optional_hz(value: Option<u16>) -> (r: String)
    ensures
        r@ == (match value {
            Some(v) => decimal(v as nat) + " Hz"@,
            None => "n/a"@,
        }),
{
    match value {
        Some(v) => {
            let mut m = String::new();
            push_chars(&mut m, &decimal_chars(v as u128));
            push_str(&mut m, " Hz");
            m
        },
        None => owned("n/a"),
    }
}

/// The values with their suffix, separated by commas.
pub open spec fn listed_values(values: Seq<u16>, suffix: Seq<char>) -> Seq<char>
    decreases values.len(),
{
    if values.len() == 0 {
        Seq::empty()
    } else if values.len() == 1 {
        decimal(values[0] as nat) + suffix
    } else {
        listed_values(values.drop_last(), suffix) + ", "@ + decimal(values.last() as nat) + suffix
    }
}

/// A list of values: `<none>`, all of them up to ten, or else the first and the
/// last with their count.
pub open spec fn values_summary(values: Seq<u16>, suffix: Seq<char>) -> Seq<char> {
    if values.len() == 0 {
        "<none>"@
    } else if values.len() <= 10 {
        listed_values(values, suffix)
    } else {
        decimal(values[0] as nat) + suffix + ".."@ + decimal(values.last() as nat) + suffix + " ("@
            + decimal(values.len()) + " values)"@
    }
}

/// Summarizes a list of values.
pub fn summarize_values(values: &Vec<u16>, suffix: &str) -> (r: String)
    ensures
        r@ == values_summary(values@, suffix@),
{
    if values.len() == 0 {
        return owned("<none>");
    }
    if values.len() <= 10 {
        let mut out = String::new();
        let mut i: usize = 0;
        while i < values.len()
            invariant
                i <= values.len(),
                out@ == listed_values(values@.take(i as int), suffix@),
            decreases values.len() - i,
        {
            proof {
                assert(values@.take(i as int + 1).drop_last() =~= values@.take(i as int));
            }
            if i > 0 {
                push_str(&mut out, ", ");
            }
            push_chars(&mut out, &decimal_chars(values[i] as u128));
            push_str(&mut out, suffix);
            proof {
                if i == 0 {
                    assert(values@.take(0) =~= Seq::<u16>::empty());
                }
            }
            i += 1;
        }
        assert(values@.take(i as int) =~= values@);
        return out;
    }
    let mut out = String::new();
    push_chars(&mut out, &decimal_chars(values[0] as u128));
    push_str(&mut out, suffix);
    push_str(&mut out, "..");
    push_chars(&mut out, &decimal_chars(values[values.len() - 1] as u128));
    push_str(&mut out, suffix);
    push_str(&mut out, " (");
    push_chars(&mut out, &decimal_chars(values.len() as u128));
    push_str(&mut out, " values)");
    out
}

} // verus!
