//! Per-device preferences that the agent keeps, keyed by persistent hardware
//! identity, and the rules for finding them again.
use vstd::prelude::*;

use crate::protocol::{
    copy_opt_string, DeviceColor, LiftOffDistance, LightingEffect, OperatingMode, SurfaceMode,
};
use crate::text::{
    all_space, chars_of, decimal, decimal_chars, lemma_trim_empty, owned, push_chars, push_str, str_eq,
    trim_chars,
};

verus! {

/// The version of the settings document this library reads and writes.
pub const SETTINGS_VERSION: u32 = 1;

/// Who should own the configuration when the mouse is set up again.
#[derive(Clone, Copy, Debug, PartialEq, Eq, Structural)]
pub enum ControlPreference {
    Host,
    Onboard { profile: u16 },
}

#[derive(Clone, Copy, Debug, PartialEq, Eq, Structural)]
pub enum PollingPreference {
    Shared { hz: u16 },
    PerConnection { wired_hz: u16, wireless_hz: u16 },
}

#[derive(Clone, Copy, Debug, PartialEq, Eq, Structural)]
pub struct BunnyHoppingPreference {
    pub enabled: bool,
    pub timeout_ms: u16,
}

#[derive(Clone, Copy, Debug, PartialEq, Eq, Structural)]
pub enum LightingPreference {
    Firmware,
    Software { zone: u8, effect: LightingEffect },
}

/// Host-controlled settings to restore.
#[derive(Clone, Debug, PartialEq, Eq)]
pub struct HostPreferences {
    pub dpi: Option<u16>,
    pub dpi_y: Option<u16>,
    pub button_mapping: Option<Vec<u8>>,
    pub polling_rate: Option<PollingPreference>,
    pub lift_off_distance: Option<LiftOffDistance>,
    pub surface_mode: Option<SurfaceMode>,
    pub operating_mode: Option<OperatingMode>,
    pub bunny_hopping: Option<BunnyHoppingPreference>,
}

/// Pre-HID++ identity of a device. A receiver's vendor/product pair is shared by
/// every mouse paired to it, so `device_index` is part of the match.
#[derive(Clone, Debug, PartialEq, Eq)]
pub struct UsbIdentity {
    pub vendor_id: u16,
    pub product_id: u16,
    pub device_index: u8,
    pub serial_number: Option<String>,
}

/// Everything stored for one mouse.
#[derive(Clone, Debug, PartialEq, Eq)]
pub struct DevicePreferences {
    pub control: Option<ControlPreference>,
    pub onboard_dpi_stage: Option<u8>,
    pub host: HostPreferences,
    pub lighting: Option<LightingPreference>,
    /// Host-side display name. Never written to the device.
    pub nickname: Option<String>,
    /// Host-side finish of the mouse shell.
    pub color: DeviceColor,
    /// Host-side list position; `None` sorts after every ordered device.
    pub sort_order: Option<u32>,
    /// Model name the mouse reported, cached for when it sleeps.
    pub cached_model_name: Option<String>,
    /// USB identity last seen for this hardware.
    pub usb_identity: Option<UsbIdentity>,
}

impl HostPreferences {
    /// No host setting recorded.
    pub open spec fn spec_empty() -> HostPreferences {
        HostPreferences {
            dpi: None,
            dpi_y: None,
            button_mapping: None,
            polling_rate: None,
            lift_off_distance: None,
            surface_mode: None,
            operating_mode: None,
            bunny_hopping: None,
        }
    }

    pub fn empty() -> (r: HostPreferences)
        ensures
            r == HostPreferences::spec_empty(),
    {
        HostPreferences {
            dpi: None,
            dpi_y: None,
            button_mapping: None,
            polling_rate: None,
            lift_off_distance: None,
            surface_mode: None,
            operating_mode: None,
            bunny_hopping: None,
        }
    }
}

/// The colour that a mouse has before the user chooses one.
pub open spec fn default_color() -> DeviceColor {
    DeviceColor::Black
}

impl DevicePreferences {
    /// Preferences with nothing recorded.
    pub open spec fn spec_empty() -> DevicePreferences {
        DevicePreferences {
            control: None,
            onboard_dpi_stage: None,
            host: HostPreferences::spec_empty(),
            lighting: None,
            nickname: None,
            color: default_color(),
            sort_order: None,
            cached_model_name: None,
            usb_identity: None,
        }
    }

    pub fn empty() -> (r: DevicePreferences)
        ensures
            r == DevicePreferences::spec_empty(),
    {
        DevicePreferences {
            control: None,
            onboard_dpi_stage: None,
            host: HostPreferences::empty(),
            lighting: None,
            nickname: None,
            color: DeviceColor::Black,
            sort_order: None,
            cached_model_name: None,
            usb_identity: None,
        }
    }
}

// ---------------------------------------------------------------------------
// USB identities
// ---------------------------------------------------------------------------

/// A serial number that is missing or blank counts as missing.
pub open spec fn canonical_serial(serial_number: Option<String>) -> Option<String> {
    match serial_number {
        Some(s) => if all_space(s@) {
            None
        } else {
            Some(s)
        },
        None => None,
    }
}

/// Drops a serial number that is empty or only white space.
pub fn canonical_serial_number(serial_number: Option<String>) -> (r: Option<String>)
    ensures
        r == canonical_serial(serial_number),
{
    match serial_number {
        Some(s) => {
            let chars = chars_of(s.as_str());
            let t = trim_chars(&chars);
            proof {
                lemma_trim_empty(s@);
            }
            if t.len() == 0 {
                None
            } else {
                Some(s)
            }
        },
        None => None,
    }
}

/// The characters of an optional string.
pub open spec fn opt_view(o: Option<String>) -> Option<Seq<char>> {
    match o {
        Some(s) => Some(s@),
        None => None,
    }
}

impl UsbIdentity {
    /// What an identity says, with the serial number taken by its characters.
    pub open spec fn key(self) -> (u16, u16, u8, Option<Seq<char>>) {
        (self.vendor_id, self.product_id, self.device_index, opt_view(self.serial_number))
    }

    /// The canonical form of an identity.
    pub open spec fn canonical(self) -> UsbIdentity {
        UsbIdentity {
            vendor_id: self.vendor_id,
            product_id: self.product_id,
            device_index: self.device_index,
            serial_number: canonical_serial(self.serial_number),
        }
    }

    /// An identity, with a blank serial number recorded as missing.
    pub fn new(vendor_id: u16, product_id: u16, device_index: u8, serial_number: Option<String>) -> (r:
        UsbIdentity)
        ensures
            r == (UsbIdentity {
                vendor_id,
                product_id,
                device_index,
                serial_number: canonical_serial(serial_number),
            }),
    {
        UsbIdentity {
            vendor_id,
            product_id,
            device_index,
            serial_number: canonical_serial_number(serial_number),
        }
    }

    /// A copy of the identity.
    pub fn copy(&self) -> (r: UsbIdentity)
        ensures
            r == *self,
    {
        UsbIdentity {
            vendor_id: self.vendor_id,
            product_id: self.product_id,
            device_index: self.device_index,
            serial_number: copy_opt_string(&self.serial_number),
        }
    }

    /// The identity in canonical form.
    pub fn canonicalized(&self) -> (r: UsbIdentity)
        ensures
            r == self.canonical(),
    {
        UsbIdentity::new(
            self.vendor_id,
            self.product_id,
            self.device_index,
            copy_opt_string(&self.serial_number),
        )
    }

    /// Whether both identities name the same receiver slot.
    pub open spec fn spec_same_usb_slot(self, other: UsbIdentity) -> bool {
        self.vendor_id == other.vendor_id && self.product_id == other.product_id
            && self.device_index == other.device_index
    }

    /// Whether both identities name the same receiver slot.
    pub fn same_usb_slot(&self, other: &UsbIdentity) -> (r: bool)
        ensures
            r == self.spec_same_usb_slot(*other),
    {
        self.vendor_id == other.vendor_id && self.product_id == other.product_id
            && self.device_index == other.device_index
    }
}

/// Whether two identities say the same thing.
pub fn identities_equal(a: &UsbIdentity, b: &UsbIdentity) -> (r: bool)
    ensures
        r == (a.key() == b.key()),
{
    if a.vendor_id != b.vendor_id || a.product_id != b.product_id || a.device_index
        != b.device_index {
        return false;
    }
    match (&a.serial_number, &b.serial_number) {
        (None, None) => true,
        (Some(x), Some(y)) => str_eq(x.as_str(), y.as_str()),
        _ => false,
    }
}

// ---------------------------------------------------------------------------
// Matching a stored identity against one that was just seen
// ---------------------------------------------------------------------------

/// The stored identity is, once both are in canonical form, the wanted one.
pub open spec fn exact_match(stored: Option<UsbIdentity>, wanted: UsbIdentity) -> bool {
    match stored {
        Some(s) => s.canonical().key() == wanted.canonical().key(),
        None => false,
    }
}

/// The stored identity names the same receiver slot, and one of the two has no
/// serial number to compare.
pub open spec fn relaxed_match(stored: Option<UsbIdentity>, wanted: UsbIdentity) -> bool {
    match stored {
        Some(s) => s.spec_same_usb_slot(wanted) && (canonical_serial(s.serial_number) is None
            || canonical_serial(wanted.serial_number) is None),
        None => false,
    }
}

/// The stored identity of the entry for `id`.
pub open spec fn stored_identity(m: Map<Seq<char>, DevicePreferences>, id: Seq<char>) -> Option<
    UsbIdentity,
> {
    m[id].usb_identity
}

/// `id` is the only stored device whose identity matches exactly.
pub open spec fn sole_exact(m: Map<Seq<char>, DevicePreferences>, w: UsbIdentity, id: Seq<char>) -> bool {
    &&& m.contains_key(id)
    &&& exact_match(stored_identity(m, id), w)
    &&& forall|j: Seq<char>|
        m.contains_key(j) && exact_match(#[trigger] stored_identity(m, j), w) ==> j == id
}

/// No stored device matches exactly.
pub open spec fn no_exact(m: Map<Seq<char>, DevicePreferences>, w: UsbIdentity) -> bool {
    forall|j: Seq<char>| m.contains_key(j) ==> !exact_match(#[trigger] stored_identity(m, j), w)
}

/// `id` is the only stored device that matches in the relaxed sense.
pub open spec fn sole_relaxed(m: Map<Seq<char>, DevicePreferences>, w: UsbIdentity, id: Seq<char>) -> bool {
    &&& m.contains_key(id)
    &&& relaxed_match(stored_identity(m, id), w)
    &&& forall|j: Seq<char>|
        m.contains_key(j) && relaxed_match(#[trigger] stored_identity(m, j), w) ==> j == id
}

/// The device that a USB identity resolves to: the sole exact match; failing
/// any exact match, the sole relaxed match. Two candidates resolve to nothing.
pub open spec fn resolves_to(m: Map<Seq<char>, DevicePreferences>, w: UsbIdentity, id: Seq<char>) -> bool {
    sole_exact(m, w, id) || (no_exact(m, w) && sole_relaxed(m, w, id))
}

// ---------------------------------------------------------------------------
// The store
// ---------------------------------------------------------------------------

/// Why a change to the store was refused.
#[derive(Clone, Copy, Debug, PartialEq, Eq, Structural)]
pub enum StoreError {
    DuplicateHardwareId,
    UnknownHardwareId,
    OrderOutOfRange,
}

/// The text of a refusal.
pub open spec fn store_error_text(e: StoreError) -> Seq<char> {
    match e {
        StoreError::DuplicateHardwareId => "duplicate hardware ID in reorder request"@,
        StoreError::UnknownHardwareId => "unknown hardware ID in reorder request"@,
        StoreError::OrderOutOfRange => "device order is out of range"@,
    }
}

impl StoreError {
    /// The text of the refusal.
    pub fn message(&self) -> (r: String)
        ensures
            r@ == store_error_text(*self),
    {
        match self {
            StoreError::DuplicateHardwareId => owned("duplicate hardware ID in reorder request"),
            StoreError::UnknownHardwareId => owned("unknown hardware ID in reorder request"),
            StoreError::OrderOutOfRange => owned("device order is out of range"),
        }
    }
}

/// The hardware IDs of a list of entries, by their characters.
pub open spec fn entry_ids(s: Seq<(String, DevicePreferences)>) -> Seq<Seq<char>> {
    s.map_values(|e: (String, DevicePreferences)| e.0@)
}

/// The preferences that a list of entries records; a later entry for the same
/// hardware ID replaces an earlier one.
pub open spec fn keyed(s: Seq<(String, DevicePreferences)>) -> Map<Seq<char>, DevicePreferences>
    decreases s.len(),
{
    if s.len() == 0 {
        Map::empty()
    } else {
        keyed(s.drop_last()).insert(s.last().0@, s.last().1)
    }
}

proof fn lemma_entry_ids_drop_last(s: Seq<(String, DevicePreferences)>)
    requires
        s.len() > 0,
    ensures
        entry_ids(s.drop_last()) == entry_ids(s).drop_last(),
        entry_ids(s).no_duplicates() ==> entry_ids(s.drop_last()).no_duplicates(),
{
    assert(entry_ids(s.drop_last()) =~= entry_ids(s).drop_last());
}

proof fn lemma_keyed_dom(s: Seq<(String, DevicePreferences)>, k: Seq<char>)
    ensures
        keyed(s).contains_key(k) <==> entry_ids(s).contains(k),
    decreases s.len(),
{
    if s.len() > 0 {
        let t = s.drop_last();
        lemma_keyed_dom(t, k);
        lemma_entry_ids_drop_last(s);
        let ids = entry_ids(s);
        assert(ids[ids.len() - 1] == s.last().0@);
        if entry_ids(t).contains(k) {
            let i = choose|i: int| 0 <= i < entry_ids(t).len() && entry_ids(t)[i] == k;
            assert(ids[i] == k);
        }
        if ids.contains(k) {
            let i = choose|i: int| 0 <= i < ids.len() && ids[i] == k;
            if i < ids.len() - 1 {
                assert(entry_ids(t)[i] == k);
            }
        }
    }
}

proof fn lemma_keyed_at(s: Seq<(String, DevicePreferences)>, i: int)
    requires
        entry_ids(s).no_duplicates(),
        0 <= i < s.len(),
    ensures
        keyed(s).contains_key(s[i].0@),
        keyed(s)[s[i].0@] == s[i].1,
    decreases s.len(),
{
    lemma_entry_ids_drop_last(s);
    if i < s.len() - 1 {
        lemma_keyed_at(s.drop_last(), i);
        assert(entry_ids(s)[i] == s[i].0@);
        assert(entry_ids(s)[s.len() - 1] == s.last().0@);
    }
}

proof fn lemma_keyed_update(s: Seq<(String, DevicePreferences)>, i: int, v: DevicePreferences)
    requires
        entry_ids(s).no_duplicates(),
        0 <= i < s.len(),
    ensures
        keyed(s.update(i, (s[i].0, v))) == keyed(s).insert(s[i].0@, v),
        entry_ids(s.update(i, (s[i].0, v))) == entry_ids(s),
    decreases s.len(),
{
    let t = s.update(i, (s[i].0, v));
    assert(entry_ids(t) =~= entry_ids(s));
    lemma_entry_ids_drop_last(s);
    if i == s.len() - 1 {
        assert(t.drop_last() =~= s.drop_last());
        assert(keyed(t) =~= keyed(s).insert(s[i].0@, v));
    } else {
        lemma_keyed_update(s.drop_last(), i, v);
        assert(t.drop_last() =~= s.drop_last().update(i, (s[i].0, v)));
        assert(entry_ids(s)[i] == s[i].0@);
        assert(entry_ids(s)[s.len() - 1] == s.last().0@);
        assert(keyed(t) =~= keyed(s).insert(s[i].0@, v));
    }
}

/// The preferences with another list position.
pub open spec fn with_sort_order(p: DevicePreferences, order: Option<u32>) -> DevicePreferences {
    DevicePreferences { sort_order: order, ..p }
}

/// The first position of `k` in `ids`.
pub open spec fn first_position(ids: Seq<Seq<char>>, k: Seq<char>) -> int {
    choose|p: int| 0 <= p < ids.len() && ids[p] == k && forall|q: int| 0 <= q < p ==> ids[q] != k
}

/// The list position that a reorder request gives to `k`.
pub open spec fn requested_order(ids: Seq<Seq<char>>, k: Seq<char>) -> Option<u32> {
    if ids.contains(k) {
        Some(first_position(ids, k) as u32)
    } else {
        None
    }
}

/// The preferences after a reorder request was applied in full.
pub open spec fn reordered(m: Map<Seq<char>, DevicePreferences>, ids: Seq<Seq<char>>) -> Map<
    Seq<char>,
    DevicePreferences,
> {
    m.map_entries(|k: Seq<char>, p: DevicePreferences| with_sort_order(p, requested_order(ids, k)))
}

/// What is wrong with position `p` of a reorder request, if anything.
pub open spec fn order_fault(m: Map<Seq<char>, DevicePreferences>, ids: Seq<Seq<char>>, p: int) -> Option<
    StoreError,
> {
    if ids.take(p).contains(ids[p]) {
        Some(StoreError::DuplicateHardwareId)
    } else if !m.contains_key(ids[p]) {
        Some(StoreError::UnknownHardwareId)
    } else if p > u32::MAX {
        Some(StoreError::OrderOutOfRange)
    } else {
        None
    }
}

/// The first fault among the first `n` positions of a reorder request.
pub open spec fn first_order_fault(m: Map<Seq<char>, DevicePreferences>, ids: Seq<Seq<char>>, n: int) -> Option<
    StoreError,
>
    decreases n,
{
    if n <= 0 {
        None
    } else {
        match first_order_fault(m, ids, n - 1) {
            Some(e) => Some(e),
            None => order_fault(m, ids, n - 1),
        }
    }
}

/// The characters of each requested hardware ID.
pub open spec fn string_views(v: Seq<String>) -> Seq<Seq<char>> {
    v.map_values(|s: String| s@)
}

proof fn lemma_no_fault_before(
    m: Map<Seq<char>, DevicePreferences>,
    ids: Seq<Seq<char>>,
    n: int,
    p: int,
)
    requires
        first_order_fault(m, ids, n) is None,
        0 <= p < n,
    ensures
        order_fault(m, ids, p) is None,
    decreases n,
{
    if p < n - 1 {
        lemma_no_fault_before(m, ids, n - 1, p);
    }
}

proof fn lemma_fault_stays(m: Map<Seq<char>, DevicePreferences>, ids: Seq<Seq<char>>, k: int, n: int)
    requires
        0 <= k <= n,
        first_order_fault(m, ids, k) is Some,
    ensures
        first_order_fault(m, ids, n) == first_order_fault(m, ids, k),
    decreases n - k,
{
    if k < n {
        lemma_fault_stays(m, ids, k, n - 1);
    }
}

proof fn lemma_index_of_key(s: Seq<(String, DevicePreferences)>, k: Seq<char>) -> (b: int)
    requires
        entry_ids(s).no_duplicates(),
        keyed(s).contains_key(k),
    ensures
        0 <= b < s.len(),
        s[b].0@ == k,
        keyed(s)[k] == s[b].1,
{
    lemma_keyed_dom(s, k);
    let b = choose|b: int| 0 <= b < entry_ids(s).len() && entry_ids(s)[b] == k;
    lemma_keyed_at(s, b);
    b
}

/// The stored identity of entry `i` matches exactly.
spec fn exact_at(s: Seq<(String, DevicePreferences)>, w: UsbIdentity, i: int) -> bool {
    exact_match(s[i].1.usb_identity, w)
}

/// The stored identity of entry `i` matches in the relaxed sense.
spec fn relaxed_at(s: Seq<(String, DevicePreferences)>, w: UsbIdentity, i: int) -> bool {
    relaxed_match(s[i].1.usb_identity, w)
}

proof fn lemma_sole_exact(s: Seq<(String, DevicePreferences)>, w: UsbIdentity, a: int)
    requires
        entry_ids(s).no_duplicates(),
        0 <= a < s.len(),
        exact_at(s, w, a),
        forall|j: int| 0 <= j < s.len() && #[trigger] exact_at(s, w, j) ==> j == a,
    ensures
        sole_exact(keyed(s), w, s[a].0@),
{
    lemma_keyed_at(s, a);
    assert forall|k: Seq<char>|
        keyed(s).contains_key(k) && exact_match(
            #[trigger] stored_identity(keyed(s), k),
            w,
        ) implies k == s[a].0@ by {
        let b = lemma_index_of_key(s, k);
        assert(exact_at(s, w, b));
    }
}

proof fn lemma_sole_relaxed(s: Seq<(String, DevicePreferences)>, w: UsbIdentity, a: int)
    requires
        entry_ids(s).no_duplicates(),
        0 <= a < s.len(),
        relaxed_at(s, w, a),
        forall|j: int| 0 <= j < s.len() && #[trigger] relaxed_at(s, w, j) ==> j == a,
    ensures
        sole_relaxed(keyed(s), w, s[a].0@),
{
    lemma_keyed_at(s, a);
    assert forall|k: Seq<char>|
        keyed(s).contains_key(k) && relaxed_match(
            #[trigger] stored_identity(keyed(s), k),
            w,
        ) implies k == s[a].0@ by {
        let b = lemma_index_of_key(s, k);
        assert(relaxed_at(s, w, b));
    }
}

proof fn lemma_no_exact(s: Seq<(String, DevicePreferences)>, w: UsbIdentity)
    requires
        entry_ids(s).no_duplicates(),
        forall|j: int| 0 <= j < s.len() ==> !#[trigger] exact_at(s, w, j),
    ensures
        no_exact(keyed(s), w),
{
    assert forall|k: Seq<char>| keyed(s).contains_key(k) implies !exact_match(
        #[trigger] stored_identity(keyed(s), k),
        w,
    ) by {
        let b = lemma_index_of_key(s, k);
        assert(!exact_at(s, w, b));
    }
}

proof fn lemma_two_keys(s: Seq<(String, DevicePreferences)>, a: int, b: int)
    requires
        entry_ids(s).no_duplicates(),
        0 <= a < s.len(),
        0 <= b < s.len(),
        a != b,
    ensures
        s[a].0@ != s[b].0@,
        keyed(s).contains_key(s[a].0@),
        keyed(s).contains_key(s[b].0@),
        keyed(s)[s[a].0@] == s[a].1,
        keyed(s)[s[b].0@] == s[b].1,
{
    lemma_keyed_at(s, a);
    lemma_keyed_at(s, b);
    assert(entry_ids(s)[a] != entry_ids(s)[b]);
}

proof fn lemma_first_position(ids: Seq<Seq<char>>, k: Seq<char>, p: int)
    requires
        0 <= p < ids.len(),
        ids[p] == k,
        forall|q: int| 0 <= q < p ==> ids[q] != k,
    ensures
        first_position(ids, k) == p,
        ids.contains(k),
{
    let c = first_position(ids, k);
    assert(0 <= c < ids.len() && ids[c] == k && forall|q: int| 0 <= q < c ==> ids[q] != k);
    if c < p {
        assert(ids[c] != k);
    }
    if c > p {
        assert(ids[p] != k);
    }
}

proof fn lemma_keyed_reordered(
    s: Seq<(String, DevicePreferences)>,
    t: Seq<(String, DevicePreferences)>,
    ids: Seq<Seq<char>>,
)
    requires
        t.len() == s.len(),
        forall|i: int|
            0 <= i < s.len() ==> (#[trigger] t[i]).0@ == s[i].0@ && t[i].1 == with_sort_order(
                s[i].1,
                requested_order(ids, s[i].0@),
            ),
    ensures
        keyed(t) == reordered(keyed(s), ids),
        entry_ids(t) == entry_ids(s),
    decreases s.len(),
{
    assert(entry_ids(t) =~= entry_ids(s));
    if s.len() > 0 {
        let n = s.len() - 1;
        assert(t[n].0@ == s[n].0@);
        lemma_keyed_reordered(s.drop_last(), t.drop_last(), ids);
        assert(keyed(t) =~= reordered(keyed(s), ids));
    } else {
        assert(keyed(t) =~= reordered(keyed(s), ids));
    }
}

/// Per-device preferences, keyed by persistent hardware identity, together
/// with the file they are saved to.
#[derive(Clone, Debug)]
pub struct SettingsStore {
    path: String,
    devices: Vec<(String, DevicePreferences)>,
}

impl View for SettingsStore {
    type V = Map<Seq<char>, DevicePreferences>;

    closed spec fn view(&self) -> Map<Seq<char>, DevicePreferences> {
        keyed(self.devices@)
    }
}

impl SettingsStore {
    /// No hardware ID is recorded twice.
    pub closed spec fn wf(&self) -> bool {
        entry_ids(self.devices@).no_duplicates()
    }

    /// The file the preferences are saved to.
    pub closed spec fn spec_path(&self) -> Seq<char> {
        self.path@
    }

    /// A store with no device, saved to `path`.
    pub fn new(path: String) -> (r: SettingsStore)
        ensures
            r.wf(),
            r@ == Map::<Seq<char>, DevicePreferences>::empty(),
            r.spec_path() == path@,
    {
        let r = SettingsStore { path, devices: Vec::new() };
        assert(entry_ids(r.devices@) =~= Seq::<Seq<char>>::empty());
        r
    }

    /// A store holding `entries`; a later entry for a hardware ID replaces an
    /// earlier one.
    pub fn from_entries(path: String, entries: Vec<(String, DevicePreferences)>) -> (r: SettingsStore)
        ensures
            r.wf(),
            r@ == keyed(entries@),
            r.spec_path() == path@,
    {
        let mut store = SettingsStore::new(path);
        let ghost all = entries@;
        assert(all.len() == entries.len());
        let mut rest = entries;
        let mut i: usize = 0;
        while rest.len() > 0
            invariant
                store.wf(),
                store.spec_path() == path@,
                i + rest.len() == all.len(),
                i <= all.len(),
                all.len() <= usize::MAX,
                rest@ == all.skip(i as int),
                store@ == keyed(all.take(i as int)),
            decreases rest.len(),
        {
            let (id, prefs) = rest.remove(0);
            proof {
                assert(all[i as int] == (id, prefs));
                assert(all.take(i as int + 1).drop_last() =~= all.take(i as int));
                assert(rest@ =~= all.skip(i as int + 1));
            }
            store.set_device(id.as_str(), prefs);
            i += 1;
        }
        assert(all.take(i as int) =~= all);
        store
    }

    /// Every stored device with its preferences, handing the store over.
    pub fn into_entries(self) -> (r: Vec<(String, DevicePreferences)>)
        requires
            self.wf(),
        ensures
            entry_ids(r@).no_duplicates(),
            keyed(r@) == self@,
    {
        self.devices
    }

    /// The file the preferences are saved to.
    pub fn path(&self) -> (r: &str)
        ensures
            r@ == self.spec_path(),
    {
        self.path.as_str()
    }

    /// The position of `hardware_id` among the entries.
    fn position(&self, hardware_id: &str) -> (r: Option<usize>)
        ensures
            match r {
                Some(i) => i < self.devices.len() && self.devices@[i as int].0@ == hardware_id@,
                None => !entry_ids(self.devices@).contains(hardware_id@),
            },
    {
        let mut i: usize = 0;
        while i < self.devices.len()
            invariant
                i <= self.devices.len(),
                forall|j: int| 0 <= j < i ==> self.devices@[j].0@ != hardware_id@,
            decreases self.devices.len() - i,
        {
            if str_eq(self.devices[i].0.as_str(), hardware_id) {
                return Some(i);
            }
            i += 1;
        }
        proof {
            if entry_ids(self.devices@).contains(hardware_id@) {
                let j = choose|j: int|
                    0 <= j < entry_ids(self.devices@).len() && entry_ids(self.devices@)[j]
                        == hardware_id@;
                assert(self.devices@[j].0@ == hardware_id@);
            }
        }
        None
    }

    /// The preferences stored for `hardware_id`.
    pub fn device(&self, hardware_id: &str) -> (r: Option<&DevicePreferences>)
        requires
            self.wf(),
        ensures
            r == (if self@.contains_key(hardware_id@) {
                Some(&self@[hardware_id@])
            } else {
                None
            }),
    {
        proof {
            lemma_keyed_dom(self.devices@, hardware_id@);
        }
        match self.position(hardware_id) {
            Some(i) => {
                proof {
                    lemma_keyed_at(self.devices@, i as int);
                }
                Some(&self.devices[i].1)
            },
            None => None,
        }
    }

    /// Records `preferences` for `hardware_id`, replacing what was there.
    pub fn set_device(&mut self, hardware_id: &str, preferences: DevicePreferences)
        requires
            old(self).wf(),
        ensures
            final(self).wf(),
            final(self)@ == old(self)@.insert(hardware_id@, preferences),
            final(self).spec_path() == old(self).spec_path(),
    {
        match self.position(hardware_id) {
            Some(i) => {
                let ghost s = self.devices@;
                let id = self.devices[i].0.clone();
                self.devices.set(i, (id, preferences));
                proof {
                    lemma_keyed_update(s, i as int, preferences);
                    assert(self.devices@ == s.update(i as int, (s[i as int].0, preferences)));
                }
            },
            None => {
                let ghost s = self.devices@;
                self.devices.push((owned(hardware_id), preferences));
                proof {
                    assert(self.devices@.drop_last() =~= s);
                    assert(entry_ids(self.devices@) =~= entry_ids(s).push(hardware_id@));
                }
            },
        }
    }

    /// The preferences stored for `hardware_id`, to change in place; an entry
    /// with nothing recorded is created first when there is none.
    pub fn device_mut(&mut self, hardware_id: &str) -> (r: &mut DevicePreferences)
        requires
            old(self).wf(),
        ensures
            *r == (if old(self)@.contains_key(hardware_id@) {
                old(self)@[hardware_id@]
            } else {
                DevicePreferences::spec_empty()
            }),
            final(self).wf(),
            final(self)@ == old(self)@.insert(hardware_id@, *final(r)),
            final(self).spec_path() == old(self).spec_path(),
    {
        proof {
            lemma_keyed_dom(self.devices@, hardware_id@);
        }
        let i = match self.position(hardware_id) {
            Some(i) => {
                proof {
                    lemma_keyed_at(self.devices@, i as int);
                }
                i
            },
            None => {
                self.set_device(hardware_id, DevicePreferences::empty());
                let ghost s = self.devices@;
                proof {
                    lemma_keyed_dom(s, hardware_id@);
                }
                let j = self.position(hardware_id).unwrap();
                proof {
                    lemma_keyed_at(s, j as int);
                }
                j
            },
        };
        let ghost s = self.devices@;
        let entry = &mut self.devices[i];
        proof {
            lemma_keyed_update(s, i as int, final(entry).1);
        }
        &mut entry.1
    }

    /// Replaces the complete user-defined device order: the device at position
    /// `p` of `hardware_ids` gets order `p`, and every device left out becomes
    /// unordered. A request that names a hardware ID twice, or one with no stored
    /// preferences, is refused at its first such position and changes nothing.
    pub fn replace_device_order(&mut self, hardware_ids: &[String]) -> (r: Result<(), StoreError>)
        requires
            old(self).wf(),
        ensures
            final(self).wf(),
            final(self).spec_path() == old(self).spec_path(),
            match r {
                Ok(()) => {
                    &&& first_order_fault(
                        old(self)@,
                        string_views(hardware_ids@),
                        hardware_ids@.len() as int,
                    ) is None
                    &&& final(self)@ == reordered(old(self)@, string_views(hardware_ids@))
                },
                Err(e) => {
                    &&& first_order_fault(
                        old(self)@,
                        string_views(hardware_ids@),
                        hardware_ids@.len() as int,
                    ) == Some(e)
                    &&& *final(self) == *old(self)
                },
            },
    {
        let ghost m = self@;
        let ghost ids = string_views(hardware_ids@);
        let mut p: usize = 0;
        while p < hardware_ids.len()
            invariant
                p <= hardware_ids.len(),
                self.wf(),
                *self == *old(self),
                m == self@,
                ids == string_views(hardware_ids@),
                first_order_fault(m, ids, p as int) is None,
            decreases hardware_ids.len() - p,
        {
            let mut q: usize = 0;
            while q < p
                invariant
                    q <= p < hardware_ids.len(),
                    self.wf(),
                    *self == *old(self),
                    m == self@,
                    first_order_fault(m, ids, p as int) is None,
                    ids == string_views(hardware_ids@),
                    forall|j: int| 0 <= j < q ==> ids[j] != ids[p as int],
                decreases p - q,
            {
                if str_eq(hardware_ids[q].as_str(), hardware_ids[p].as_str()) {
                    proof {
                        assert(ids.take(p as int)[q as int] == ids[p as int]);
                        lemma_fault_stays(m, ids, p as int + 1, hardware_ids@.len() as int);
                    }
                    return Err(StoreError::DuplicateHardwareId);
                }
                q += 1;
            }
            proof {
                if ids.take(p as int).contains(ids[p as int]) {
                    let j = choose|j: int|
                        0 <= j < ids.take(p as int).len() && ids.take(p as int)[j] == ids[p as int];
                    assert(ids[j] == ids[p as int]);
                }
                lemma_keyed_dom(self.devices@, ids[p as int]);
            }
            let found = self.position(hardware_ids[p].as_str());
            if found.is_none() {
                proof {
                    lemma_fault_stays(m, ids, p as int + 1, hardware_ids@.len() as int);
                }
                return Err(StoreError::UnknownHardwareId);
            }
            proof {
                let i = found.unwrap();
                assert(entry_ids(self.devices@)[i as int] == ids[p as int]);
            }
            if p > 4294967295usize {
                proof {
                    lemma_fault_stays(m, ids, p as int + 1, hardware_ids@.len() as int);
                }
                return Err(StoreError::OrderOutOfRange);
            }
            p += 1;
        }
        let ghost s = self.devices@;
        let mut i: usize = 0;
        while i < self.devices.len()
            invariant
                i <= self.devices.len(),
                s.len() == self.devices@.len(),
                ids == string_views(hardware_ids@),
                first_order_fault(m, ids, hardware_ids@.len() as int) is None,
                forall|j: int|
                    i <= j < s.len() ==> #[trigger] self.devices@[j] == s[j],
                forall|j: int|
                    0 <= j < i ==> (#[trigger] self.devices@[j]).0 == s[j].0
                        && self.devices@[j].1 == with_sort_order(
                        s[j].1,
                        requested_order(ids, s[j].0@),
                    ),
                self.path == old(self).path,
            decreases self.devices.len() - i,
        {
            let mut found: Option<usize> = None;
            let mut q: usize = 0;
            while q < hardware_ids.len()
                invariant
                    q <= hardware_ids.len(),
                    i < self.devices.len(),
                    ids == string_views(hardware_ids@),
                    found is None ==> forall|j: int| 0 <= j < q ==> ids[j] != self.devices@[i as int].0@,
                    found matches Some(f) ==> f < hardware_ids.len() && ids[f as int]
                        == self.devices@[i as int].0@ && forall|j: int|
                        0 <= j < f ==> ids[j] != self.devices@[i as int].0@,
                decreases hardware_ids.len() - q,
            {
                if found.is_none() && str_eq(hardware_ids[q].as_str(), self.devices[i].0.as_str()) {
                    found = Some(q);
                }
                q += 1;
            }
            let ghost key = self.devices@[i as int].0@;
            let order = match found {
                Some(f) => {
                    proof {
                        lemma_first_position(ids, key, f as int);
                        lemma_no_fault_before(m, ids, hardware_ids@.len() as int, f as int);
                    }
                    Some(f as u32)
                },
                None => {
                    proof {
                        if ids.contains(key) {
                            let j = choose|j: int| 0 <= j < ids.len() && ids[j] == key;
                            assert(ids[j] != key);
                        }
                    }
                    None
                },
            };
            let entry = &mut self.devices[i];
            entry.1.sort_order = order;
            i += 1;
        }
        proof {
            lemma_keyed_reordered(s, self.devices@, ids);
        }
        Ok(())
    }

    /// Resolves stored preferences for a device that has not been opened yet by
    /// the USB identity recorded the last time it was ready. Exact identities
    /// win; a missing serial number falls back to the same USB slot only when
    /// that match is unique, and an ambiguous match resolves to nothing.
    pub fn resolve_device_by_usb_identity(&self, identity: &UsbIdentity) -> (r: Option<
        (&str, &DevicePreferences),
    >)
        requires
            self.wf(),
        ensures
            match r {
                Some((id, p)) => resolves_to(self@, *identity, id@) && *p == self@[id@],
                None => forall|id: Seq<char>| !resolves_to(self@, *identity, id),
            },
    {
        let ghost s = self.devices@;
        let ghost w = *identity;
        let wanted = identity.canonicalized();
        let mut exact: Option<usize> = None;
        let mut exact_many = false;
        let mut relaxed: Option<usize> = None;
        let mut relaxed_many = false;
        let mut i: usize = 0;
        while i < self.devices.len()
            invariant
                i <= self.devices.len(),
                s == self.devices@,
                w == *identity,
                wanted == identity.canonical(),
                exact is None ==> !exact_many,
                exact is None ==> forall|j: int| 0 <= j < i ==> !#[trigger] exact_at(s, w, j),
                exact matches Some(a) ==> {
                    &&& a < i
                    &&& exact_at(s, w, a as int)
                    &&& !exact_many ==> forall|j: int|
                        0 <= j < i && #[trigger] exact_at(s, w, j) ==> j == a
                    &&& exact_many ==> exists|b: int|
                        0 <= b < i && b != a && #[trigger] exact_at(s, w, b)
                },
                relaxed is None ==> !relaxed_many,
                relaxed is None ==> forall|j: int| 0 <= j < i ==> !#[trigger] relaxed_at(s, w, j),
                relaxed matches Some(a) ==> {
                    &&& a < i
                    &&& relaxed_at(s, w, a as int)
                    &&& !relaxed_many ==> forall|j: int|
                        0 <= j < i && #[trigger] relaxed_at(s, w, j) ==> j == a
                    &&& relaxed_many ==> exists|b: int|
                        0 <= b < i && b != a && #[trigger] relaxed_at(s, w, b)
                },
            decreases self.devices.len() - i,
        {
            match &self.devices[i].1.usb_identity {
                Some(stored) => {
                    let c = stored.canonicalized();
                    if identities_equal(&c, &wanted) {
                        assert(exact_at(s, w, i as int));
                        match exact {
                            Some(_) => {
                                exact_many = true;
                            },
                            None => {
                                exact = Some(i);
                            },
                        }
                    } else {
                        assert(!exact_at(s, w, i as int));
                    }
                    if c.same_usb_slot(&wanted) && (c.serial_number.is_none()
                        || wanted.serial_number.is_none()) {
                        assert(relaxed_at(s, w, i as int));
                        match relaxed {
                            Some(_) => {
                                relaxed_many = true;
                            },
                            None => {
                                relaxed = Some(i);
                            },
                        }
                    } else {
                        assert(!relaxed_at(s, w, i as int));
                    }
                },
                None => {
                    assert(!exact_at(s, w, i as int));
                    assert(!relaxed_at(s, w, i as int));
                },
            }
            i += 1;
        }
        match exact {
            Some(a) => {
                if exact_many {
                    proof {
                        let b = choose|b: int| 0 <= b < s.len() && b != a && #[trigger] exact_at(s, w, b);
                        lemma_two_keys(s, a as int, b);
                        assert forall|id: Seq<char>| !resolves_to(self@, w, id) by {
                            if sole_exact(self@, w, id) {
                                assert(exact_match(stored_identity(self@, s[a as int].0@), w));
                                assert(exact_match(stored_identity(self@, s[b].0@), w));
                            }
                            if no_exact(self@, w) {
                                assert(exact_match(stored_identity(self@, s[a as int].0@), w));
                            }
                        }
                    }
                    None
                } else {
                    proof {
                        lemma_sole_exact(s, w, a as int);
                        lemma_keyed_at(s, a as int);
                    }
                    Some((self.devices[a].0.as_str(), &self.devices[a].1))
                }
            },
            None => {
                proof {
                    lemma_no_exact(s, w);
                }
                match relaxed {
                    Some(a) => {
                        if relaxed_many {
                            proof {
                                let b = choose|b: int|
                                    0 <= b < s.len() && b != a && #[trigger] relaxed_at(s, w, b);
                                lemma_two_keys(s, a as int, b);
                                assert forall|id: Seq<char>| !resolves_to(self@, w, id) by {
                                    if sole_relaxed(self@, w, id) {
                                        assert(relaxed_match(
                                            stored_identity(self@, s[a as int].0@),
                                            w,
                                        ));
                                        assert(relaxed_match(stored_identity(self@, s[b].0@), w));
                                    }
                                    if sole_exact(self@, w, id) {
                                        assert(!exact_match(stored_identity(self@, id), w));
                                    }
                                }
                            }
                            None
                        } else {
                            proof {
                                lemma_sole_relaxed(s, w, a as int);
                                lemma_keyed_at(s, a as int);
                            }
                            Some((self.devices[a].0.as_str(), &self.devices[a].1))
                        }
                    },
                    None => {
                        proof {
                            assert forall|id: Seq<char>| !resolves_to(self@, w, id) by {
                                if sole_relaxed(self@, w, id) {
                                    let b = lemma_index_of_key(s, id);
                                    assert(relaxed_at(s, w, b));
                                }
                                if sole_exact(self@, w, id) {
                                    assert(!exact_match(stored_identity(self@, id), w));
                                }
                            }
                        }
                        None
                    },
                }
            },
        }
    }

    /// Records `preferences` for `hardware_id` unless something is stored for
    /// it already; says whether it did.
    pub fn insert_if_missing(&mut self, hardware_id: &str, preferences: DevicePreferences) -> (r: bool)
        requires
            old(self).wf(),
        ensures
            final(self).wf(),
            r == !old(self)@.contains_key(hardware_id@),
            final(self)@ == (if r {
                old(self)@.insert(hardware_id@, preferences)
            } else {
                old(self)@
            }),
            final(self).spec_path() == old(self).spec_path(),
    {
        proof {
            lemma_keyed_dom(self.devices@, hardware_id@);
        }
        match self.position(hardware_id) {
            Some(i) => {
                assert(entry_ids(self.devices@)[i as int] == hardware_id@);
                false
            },
            None => {
                self.set_device(hardware_id, preferences);
                true
            },
        }
    }
}

// ---------------------------------------------------------------------------
// Loading
// ---------------------------------------------------------------------------

/// Accepts a settings document of the version this library reads; any other
/// version is handed back.
pub fn check_version(version: u32) -> (r: Result<(), u32>)
    ensures
        r == (if version == SETTINGS_VERSION {
            Ok::<(), u32>(())
        } else {
            Err::<(), u32>(version)
        }),
{
    if version == SETTINGS_VERSION {
        Ok(())
    } else {
        Err(version)
    }
}

/// The text of the refusal of a settings file with another schema version.
pub open spec fn unsupported_version_text(path: Seq<char>, version: nat) -> Seq<char> {
    "settings `"@ + path + "` use unsupported schema version "@ + decimal(version)
        + "; this agent supports version "@ + decimal(SETTINGS_VERSION as nat)
}

/// Says that the settings at `path` use a schema version this library cannot read.
pub fn unsupported_version_message(path: &str, version: u32) -> (r: String)
    ensures
        r@ == unsupported_version_text(path@, version as nat),
{
    let mut out = owned("settings `");
    push_str(&mut out, path);
    push_str(&mut out, "` use unsupported schema version ");
    push_chars(&mut out, &decimal_chars(version as u128));
    push_str(&mut out, "; this agent supports version ");
    push_chars(&mut out, &decimal_chars(SETTINGS_VERSION as u128));
    out
}

/// The file name under which an unreadable settings file is kept.
pub open spec fn quarantine_name(file_name: Seq<char>, timestamp_nanos: nat) -> Seq<char> {
    file_name + ".corrupt-"@ + decimal(timestamp_nanos)
}

/// The name under which an unreadable settings file called `file_name` is
/// kept, given the time in nanoseconds since the Unix epoch.
pub fn quarantine_file_name(file_name: &str, timestamp_nanos: u128) -> (r: String)
    ensures
        r@ == quarantine_name(file_name@, timestamp_nanos as nat),
{
    let mut out = owned(file_name);
    push_str(&mut out, ".corrupt-");
    push_chars(&mut out, &decimal_chars(timestamp_nanos));
    out
}

// ---------------------------------------------------------------------------
// Laws
// ---------------------------------------------------------------------------

/// An accepted reorder request gives the device at position `p` the order `p`,
/// leaves every device it does not name unordered, and changes nothing else.
pub proof fn law_reorder_assigns_positions(m: Map<Seq<char>, DevicePreferences>, ids: Seq<Seq<char>>)
    requires
        first_order_fault(m, ids, ids.len() as int) is None,
    ensures
        reordered(m, ids).dom() == m.dom(),
        forall|p: int|
            0 <= p < ids.len() ==> reordered(m, ids).contains_key(#[trigger] ids[p])
                && reordered(m, ids)[ids[p]].sort_order == Some(p as u32),
        forall|k: Seq<char>|
            m.contains_key(k) && !ids.contains(k) ==> (#[trigger] reordered(m, ids)[k]).sort_order
                is None,
        forall|k: Seq<char>|
            m.contains_key(k) ==> with_sort_order(#[trigger] reordered(m, ids)[k], m[k].sort_order)
                == m[k],
{
    assert(reordered(m, ids).dom() =~= m.dom());
    assert forall|p: int| 0 <= p < ids.len() implies reordered(m, ids).contains_key(
        #[trigger] ids[p],
    ) && reordered(m, ids)[ids[p]].sort_order == Some(p as u32) by {
        lemma_no_fault_before(m, ids, ids.len() as int, p);
        assert forall|q: int| 0 <= q < p implies ids[q] != ids[p] by {
            assert(ids.take(p)[q] == ids[q]);
        }
        lemma_first_position(ids, ids[p], p);
    }
}

/// Two stored devices that both match an identity exactly leave it unresolved.
pub proof fn law_ambiguous_exact_match_fails_closed(
    m: Map<Seq<char>, DevicePreferences>,
    w: UsbIdentity,
    a: Seq<char>,
    b: Seq<char>,
)
    requires
        a != b,
        m.contains_key(a),
        m.contains_key(b),
        exact_match(stored_identity(m, a), w),
        exact_match(stored_identity(m, b), w),
    ensures
        forall|id: Seq<char>| !resolves_to(m, w, id),
{
}

/// Two real serial numbers that differ never match, not even in the relaxed
/// sense.
pub proof fn law_distinct_serials_never_match(
    m: Map<Seq<char>, DevicePreferences>,
    w: UsbIdentity,
    id: Seq<char>,
)
    requires
        m.contains_key(id),
        stored_identity(m, id) is Some,
        canonical_serial(stored_identity(m, id)->0.serial_number) is Some,
        canonical_serial(w.serial_number) is Some,
        opt_view(canonical_serial(stored_identity(m, id)->0.serial_number)) != opt_view(
            canonical_serial(w.serial_number),
        ),
    ensures
        !resolves_to(m, w, id),
{
}

/// An identity resolves to at most one device.
pub proof fn law_resolution_is_unique(
    m: Map<Seq<char>, DevicePreferences>,
    w: UsbIdentity,
    a: Seq<char>,
    b: Seq<char>,
)
    requires
        resolves_to(m, w, a),
        resolves_to(m, w, b),
    ensures
        a == b,
{
}

/// Putting an identity in canonical form twice changes nothing the second time.
pub proof fn law_canonical_is_idempotent(x: UsbIdentity)
    ensures
        x.canonical().canonical() == x.canonical(),
{
}

} // verus!
