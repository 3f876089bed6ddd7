//! How the settings application keeps its device list current: agent events
//! update availability and telemetry, never the editable hardware settings, and
//! a saved device list is merged with the present USB enumeration.
use vstd::prelude::*;

use crate::keyed::KeyedMap;
use crate::protocol::{
    AgentEvent, BatteryState, DeviceAvailability, DeviceState, DeviceSummary,
    DeviceUnavailableReason,
};
use crate::store::opt_view;
use crate::text::{owned, push_str, str_eq};

verus! {

// ---------------------------------------------------------------------------
// Listing order
// ---------------------------------------------------------------------------

/// The listing key of a device: its stored position, devices without one last.
pub open spec fn position_key(d: DeviceSummary) -> u32 {
    match d.sort_order {
        Some(n) => n,
        None => u32::MAX,
    }
}

/// Where a device goes in a list ordered by listing key: after the last device
/// whose key is not greater.
pub open spec fn key_insert_position(s: Seq<DeviceSummary>, x: DeviceSummary) -> int
    decreases s.len(),
{
    if s.len() == 0 {
        0
    } else if position_key(s.last()) <= position_key(x) {
        s.len() as int
    } else {
        key_insert_position(s.drop_last(), x)
    }
}

/// The devices ordered by listing key, keeping their order among equal keys.
pub open spec fn by_position(s: Seq<DeviceSummary>) -> Seq<DeviceSummary>
    decreases s.len(),
{
    if s.len() == 0 {
        s
    } else {
        let t = by_position(s.drop_last());
        t.insert(key_insert_position(t, s.last()), s.last())
    }
}

proof fn lemma_key_insert_position_bounds(s: Seq<DeviceSummary>, x: DeviceSummary)
    ensures
        0 <= key_insert_position(s, x) <= s.len(),
    decreases s.len(),
{
    if s.len() > 0 {
        lemma_key_insert_position_bounds(s.drop_last(), x);
    }
}

fn key_of(d: &DeviceSummary) -> (r: u32)
    ensures
        r == position_key(*d),
{
    match d.sort_order {
        Some(n) => n,
        None => u32::MAX,
    }
}

/// Orders devices by listing key, a stable sort.
pub fn sort_by_position(devices: &mut Vec<DeviceSummary>)
    ensures
        final(devices)@ == by_position(old(devices)@),
{
    let mut rest: Vec<DeviceSummary> = Vec::new();
    std::mem::swap(devices, &mut rest);
    let ghost all = rest@;
    assert(all.len() == rest.len());
    let mut i: usize = 0;
    assert(all.take(0) =~= Seq::<DeviceSummary>::empty());
    while rest.len() > 0
        invariant
            i + rest.len() == all.len(),
            i <= all.len(),
            all.len() <= usize::MAX,
            rest@ == all.skip(i as int),
            devices@ == by_position(all.take(i as int)),
            all == old(devices)@,
        decreases rest.len(),
    {
        let x = rest.remove(0);
        proof {
            assert(all[i as int] == x);
            assert(all.take(i as int + 1).drop_last() =~= all.take(i as int));
            assert(rest@ =~= all.skip(i as int + 1));
        }
        let key = key_of(&x);
        let mut j: usize = devices.len();
        assert(devices@.take(j as int) =~= devices@);
        while j > 0 && !(key_of(&devices[j - 1]) <= key)
            invariant
                j <= devices.len(),
                key == position_key(x),
                key_insert_position(devices@, x) == key_insert_position(devices@.take(j as int), x),
            decreases j,
        {
            assert(devices@.take(j as int).drop_last() =~= devices@.take(j as int - 1));
            j -= 1;
        }
        proof {
            if j == 0 {
                assert(devices@.take(0) =~= Seq::<DeviceSummary>::empty());
            } else {
                assert(devices@.take(j as int).last() == devices@[j as int - 1]);
            }
        }
        devices.insert(j, x);
        i += 1;
    }
    assert(all.take(i as int) =~= all);
}

// ---------------------------------------------------------------------------
// Searching the lists
// ---------------------------------------------------------------------------

/// The first position below `n` where `p` holds.
pub open spec fn first_where(n: int, p: spec_fn(int) -> bool) -> Option<int> {
    if exists|i: int| 0 <= i < n && #[trigger] p(i) {
        Some(
            choose|i: int|
                #![trigger p(i)]
                0 <= i < n && p(i) && forall|j: int| 0 <= j < i ==> !#[trigger] p(j),
        )
    } else {
        None
    }
}

proof fn lemma_first_where_found(n: int, p: spec_fn(int) -> bool, i: int)
    requires
        0 <= i < n,
        p(i),
        forall|j: int| 0 <= j < i ==> !#[trigger] p(j),
    ensures
        first_where(n, p) == Some(i),
{
    let k = choose|k: int|
        #![trigger p(k)]
        0 <= k < n && p(k) && forall|j: int| 0 <= j < k ==> !#[trigger] p(j);
    assert(0 <= k < n && p(k) && forall|j: int| 0 <= j < k ==> !#[trigger] p(j));
    if k < i {
        assert(!p(k));
    }
    if k > i {
        assert(!p(i));
    }
}

proof fn lemma_first_where_none(n: int, p: spec_fn(int) -> bool)
    requires
        forall|j: int| 0 <= j < n ==> !#[trigger] p(j),
    ensures
        first_where(n, p) is None,
{
}

/// The first device with identifier `id`.
pub open spec fn device_index(devs: Seq<DeviceSummary>, id: Seq<char>) -> Option<int> {
    first_where(devs.len() as int, |i: int| devs[i].id@ == id)
}

fn find_device(devices: &Vec<DeviceSummary>, id: &str) -> (r: Option<usize>)
    ensures
        r matches Some(i) ==> device_index(devices@, id@) == Some(i as int),
        r is None ==> device_index(devices@, id@) is None,
        r matches Some(i) ==> i < devices.len(),
{
    let ghost p = |i: int| devices@[i].id@ == id@;
    let mut i: usize = 0;
    while i < devices.len()
        invariant
            i <= devices.len(),
            p == (|i: int| devices@[i].id@ == id@),
            forall|j: int| 0 <= j < i ==> !#[trigger] p(j),
        decreases devices.len() - i,
    {
        if str_eq(devices[i].id.as_str(), id) {
            proof {
                lemma_first_where_found(devices@.len() as int, p, i as int);
            }
            return Some(i);
        }
        i += 1;
    }
    proof {
        lemma_first_where_none(devices@.len() as int, p);
    }
    None
}

/// The first state of the device with identifier `id`.
pub open spec fn state_index(states: Seq<DeviceState>, id: Seq<char>) -> Option<int> {
    first_where(states.len() as int, |i: int| states[i].device.id@ == id)
}

fn find_state(states: &Vec<DeviceState>, id: &str) -> (r: Option<usize>)
    ensures
        r matches Some(i) ==> state_index(states@, id@) == Some(i as int),
        r is None ==> state_index(states@, id@) is None,
        r matches Some(i) ==> i < states.len(),
{
    let ghost p = |i: int| states@[i].device.id@ == id@;
    let mut i: usize = 0;
    while i < states.len()
        invariant
            i <= states.len(),
            p == (|i: int| states@[i].device.id@ == id@),
            forall|j: int| 0 <= j < i ==> !#[trigger] p(j),
        decreases states.len() - i,
    {
        if str_eq(states[i].device.id.as_str(), id) {
            proof {
                lemma_first_where_found(states@.len() as int, p, i as int);
            }
            return Some(i);
        }
        i += 1;
    }
    proof {
        lemma_first_where_none(states@.len() as int, p);
    }
    None
}

/// The states without those of the device with identifier `id`.
pub open spec fn without_states(s: Seq<DeviceState>, id: Seq<char>) -> Seq<DeviceState>
    decreases s.len(),
{
    if s.len() == 0 {
        s
    } else if s.last().device.id@ == id {
        without_states(s.drop_last(), id)
    } else {
        without_states(s.drop_last(), id).push(s.last())
    }
}

/// Drops the states of the device with identifier `id`.
fn retain_other_states(states: &mut Vec<DeviceState>, id: &str)
    ensures
        final(states)@ == without_states(old(states)@, id@),
{
    let mut rest: Vec<DeviceState> = Vec::new();
    std::mem::swap(states, &mut rest);
    let ghost all = rest@;
    assert(all.len() == rest.len());
    let mut i: usize = 0;
    assert(all.take(0) =~= Seq::<DeviceState>::empty());
    while rest.len() > 0
        invariant
            i + rest.len() == all.len(),
            i <= all.len(),
            all.len() <= usize::MAX,
            rest@ == all.skip(i as int),
            states@ == without_states(all.take(i as int), id@),
            all == old(states)@,
        decreases rest.len(),
    {
        let s = rest.remove(0);
        proof {
            assert(all[i as int] == s);
            assert(all.take(i as int + 1).drop_last() =~= all.take(i as int));
            assert(rest@ =~= all.skip(i as int + 1));
        }
        if !str_eq(s.device.id.as_str(), id) {
            states.push(s);
        }
        i += 1;
    }
    assert(all.take(i as int) =~= all);
}

// ---------------------------------------------------------------------------
// Merging a new summary into the list
// ---------------------------------------------------------------------------

/// The list holds another physical mouse under the identifier of `device`:
/// both have a hardware identity and the two differ.
pub open spec fn displaced_by(old: DeviceSummary, device: DeviceSummary) -> bool {
    &&& old.id@ == device.id@
    &&& old.hardware_id is Some
    &&& device.hardware_id is Some
    &&& opt_view(old.hardware_id) != opt_view(device.hardware_id)
}

/// The first device that `device` displaces.
pub open spec fn displaced_index(devs: Seq<DeviceSummary>, device: DeviceSummary) -> Option<int> {
    first_where(devs.len() as int, |i: int| displaced_by(devs[i], device))
}

/// The summary is the row of `device`: the same identifier, or the same
/// hardware identity when `device` has one.
pub open spec fn row_of(old: DeviceSummary, device: DeviceSummary) -> bool {
    old.id@ == device.id@ || (device.hardware_id is Some && opt_view(old.hardware_id) == opt_view(
        device.hardware_id,
    ))
}

/// The first row of `device`.
pub open spec fn row_index(devs: Seq<DeviceSummary>, device: DeviceSummary) -> Option<int> {
    first_where(devs.len() as int, |i: int| row_of(devs[i], device))
}

/// A displaced mouse kept as a saved row under the identifier `id`.
pub open spec fn retired(old: DeviceSummary, id: String) -> DeviceSummary {
    DeviceSummary { id, ready: false, availability: None, ..old }
}

/// The identifier under which a displaced mouse is kept.
pub open spec fn saved_id(old: DeviceSummary) -> Seq<char> {
    "saved:"@ + match old.hardware_id {
        Some(h) => h@,
        None => Seq::empty(),
    }
}

/// The list after a displaced mouse, if any, became a saved row called `renamed`.
pub open spec fn after_displacement(devs: Seq<DeviceSummary>, device: DeviceSummary, renamed: String) -> Seq<
    DeviceSummary,
> {
    match displaced_index(devs, device) {
        Some(i) => devs.update(i, retired(devs[i], renamed)),
        None => devs,
    }
}

/// The device list after `device` was merged in, before ordering.
pub open spec fn merged_devices(devs: Seq<DeviceSummary>, device: DeviceSummary, renamed: String) -> Seq<
    DeviceSummary,
> {
    let d1 = after_displacement(devs, device, renamed);
    match row_index(d1, device) {
        Some(j) => d1.update(j, device),
        None => d1.push(device),
    }
}

/// The states after `device` was merged in: a displaced mouse and a row that
/// changes identifier lose their states.
pub open spec fn merged_states(
    devs: Seq<DeviceSummary>,
    states: Seq<DeviceState>,
    device: DeviceSummary,
    renamed: String,
) -> Seq<DeviceState> {
    let s1 = match displaced_index(devs, device) {
        Some(i) => without_states(states, devs[i].id@),
        None => states,
    };
    let d1 = after_displacement(devs, device, renamed);
    match row_index(d1, device) {
        Some(j) => if d1[j].id@ != device.id@ {
            without_states(s1, d1[j].id@)
        } else {
            s1
        },
        None => s1,
    }
}

/// The identifiers of disconnected devices after `device` was merged in.
pub open spec fn merged_disconnected(
    devs: Seq<DeviceSummary>,
    disconnected: Map<Seq<char>, ()>,
    device: DeviceSummary,
    renamed: String,
) -> Map<Seq<char>, ()> {
    let m1 = match displaced_index(devs, device) {
        Some(i) => disconnected.remove(devs[i].id@).insert(renamed@, ()),
        None => disconnected,
    };
    let m2 = m1.remove(device.id@);
    let d1 = after_displacement(devs, device, renamed);
    match row_index(d1, device) {
        Some(j) => m2.remove(d1[j].id@),
        None => m2,
    }
}

fn find_displaced(devices: &Vec<DeviceSummary>, device: &DeviceSummary) -> (r: Option<usize>)
    ensures
        r matches Some(i) ==> displaced_index(devices@, *device) == Some(i as int),
        r is None ==> displaced_index(devices@, *device) is None,
        r matches Some(i) ==> i < devices.len(),
{
    let ghost p = |i: int| displaced_by(devices@[i], *device);
    let mut i: usize = 0;
    while i < devices.len()
        invariant
            i <= devices.len(),
            p == (|i: int| displaced_by(devices@[i], *device)),
            forall|j: int| 0 <= j < i ==> !#[trigger] p(j),
        decreases devices.len() - i,
    {
        let old = &devices[i];
        let differs = match (&old.hardware_id, &device.hardware_id) {
            (Some(a), Some(b)) => !str_eq(a.as_str(), b.as_str()),
            _ => false,
        };
        if str_eq(old.id.as_str(), device.id.as_str()) && differs {
            proof {
                lemma_first_where_found(devices@.len() as int, p, i as int);
            }
            return Some(i);
        }
        i += 1;
    }
    proof {
        lemma_first_where_none(devices@.len() as int, p);
    }
    None
}

fn find_row(devices: &Vec<DeviceSummary>, device: &DeviceSummary) -> (r: Option<usize>)
    ensures
        r matches Some(i) ==> row_index(devices@, *device) == Some(i as int),
        r is None ==> row_index(devices@, *device) is None,
        r matches Some(i) ==> i < devices.len(),
{
    let ghost p = |i: int| row_of(devices@[i], *device);
    let mut i: usize = 0;
    while i < devices.len()
        invariant
            i <= devices.len(),
            p == (|i: int| row_of(devices@[i], *device)),
            forall|j: int| 0 <= j < i ==> !#[trigger] p(j),
        decreases devices.len() - i,
    {
        let old = &devices[i];
        let same_hardware = match (&old.hardware_id, &device.hardware_id) {
            (Some(a), Some(b)) => str_eq(a.as_str(), b.as_str()),
            (None, Some(_)) => false,
            _ => false,
        };
        if str_eq(old.id.as_str(), device.id.as_str()) || same_hardware {
            proof {
                lemma_first_where_found(devices@.len() as int, p, i as int);
            }
            return Some(i);
        }
        i += 1;
    }
    proof {
        lemma_first_where_none(devices@.len() as int, p);
    }
    None
}

/// The states left once a displaced mouse lost its own.
pub open spec fn states_after_displacement(
    devs: Seq<DeviceSummary>,
    states: Seq<DeviceState>,
    device: DeviceSummary,
) -> Seq<DeviceState> {
    match displaced_index(devs, device) {
        Some(i) => without_states(states, devs[i].id@),
        None => states,
    }
}

/// The disconnected identifiers once a displaced mouse became a saved row.
pub open spec fn disconnected_after_displacement(
    devs: Seq<DeviceSummary>,
    disconnected: Map<Seq<char>, ()>,
    device: DeviceSummary,
    renamed: String,
) -> Map<Seq<char>, ()> {
    match displaced_index(devs, device) {
        Some(i) => disconnected.remove(devs[i].id@).insert(renamed@, ()),
        None => disconnected,
    }
}

fn retire_displaced(
    devices: &mut Vec<DeviceSummary>,
    states: &mut Vec<DeviceState>,
    disconnected: &mut KeyedMap<()>,
    device: &DeviceSummary,
) -> (renamed: String)
    requires
        old(disconnected).wf(),
    ensures
        final(disconnected).wf(),
        displaced_index(old(devices)@, *device) matches Some(i) ==> renamed@ == saved_id(
            old(devices)@[i],
        ),
        final(devices)@ == after_displacement(old(devices)@, *device, renamed),
        final(states)@ == states_after_displacement(old(devices)@, old(states)@, *device),
        final(disconnected)@ == disconnected_after_displacement(
            old(devices)@,
            old(disconnected)@,
            *device,
            renamed,
        ),
{
    let ghost devs0 = devices@;
    match find_displaced(devices, device) {
        Some(i) => {
            let old_id = devices[i].id.clone();
            retain_other_states(states, old_id.as_str());
            disconnected.remove(old_id.as_str());
            let mut id = owned("saved:");
            match &devices[i].hardware_id {
                Some(h) => push_str(&mut id, h.as_str()),
                None => {},
            }
            assert(id@ == saved_id(devs0[i as int])) by {
                if devs0[i as int].hardware_id is None {
                    assert(id@ =~= "saved:"@ + Seq::<char>::empty());
                }
            }
            let renamed = id.clone();
            let entry = &mut devices[i];
            entry.id = id;
            entry.ready = false;
            entry.availability = None;
            assert(devices@[i as int] == retired(devs0[i as int], renamed));
            assert(devices@ =~= devs0.update(i as int, retired(devs0[i as int], renamed)));
            disconnected.insert(renamed.as_str(), ());
            renamed
        },
        None => String::new(),
    }
}

/// The states once the row of `device` took it in.
pub open spec fn states_after_row(
    devs: Seq<DeviceSummary>,
    states: Seq<DeviceState>,
    device: DeviceSummary,
) -> Seq<DeviceState> {
    match row_index(devs, device) {
        Some(j) => if devs[j].id@ != device.id@ {
            without_states(states, devs[j].id@)
        } else {
            states
        },
        None => states,
    }
}

/// The disconnected identifiers once the row of `device` took it in.
pub open spec fn disconnected_after_row(
    devs: Seq<DeviceSummary>,
    disconnected: Map<Seq<char>, ()>,
    device: DeviceSummary,
) -> Map<Seq<char>, ()> {
    match row_index(devs, device) {
        Some(j) => disconnected.remove(device.id@).remove(devs[j].id@),
        None => disconnected.remove(device.id@),
    }
}

fn take_into_row(
    devices: &mut Vec<DeviceSummary>,
    states: &mut Vec<DeviceState>,
    disconnected: &mut KeyedMap<()>,
    device: DeviceSummary,
)
    requires
        old(disconnected).wf(),
    ensures
        final(disconnected).wf(),
        final(devices)@ == (match row_index(old(devices)@, device) {
            Some(j) => old(devices)@.update(j, device),
            None => old(devices)@.push(device),
        }),
        final(states)@ == states_after_row(old(devices)@, old(states)@, device),
        final(disconnected)@ == disconnected_after_row(old(devices)@, old(disconnected)@, device),
{
    let existing = find_row(devices, &device);
    disconnected.remove(device.id.as_str());
    match existing {
        Some(index) => {
            let old_id = devices[index].id.clone();
            disconnected.remove(old_id.as_str());
            if !str_eq(old_id.as_str(), device.id.as_str()) {
                retain_other_states(states, old_id.as_str());
            }
            devices.set(index, device);
        },
        None => {
            devices.push(device);
        },
    }
}

/// Merges a new summary into the list. A receiver or USB path reused by another
/// physical mouse keeps the old mouse as a disconnected saved row instead of
/// replacing it; the row of the device is replaced, or the device appended; the
/// list is then ordered by listing key.
pub fn upsert(
    devices: &mut Vec<DeviceSummary>,
    states: &mut Vec<DeviceState>,
    disconnected: &mut KeyedMap<()>,
    device: DeviceSummary,
)
    requires
        old(disconnected).wf(),
    ensures
        final(disconnected).wf(),
        exists|renamed: String|
            #![trigger merged_devices(old(devices)@, device, renamed)]
            {
                &&& (displaced_index(old(devices)@, device) matches Some(i) ==> renamed@ == saved_id(
                    old(devices)@[i],
                ))
                &&& final(devices)@ == by_position(merged_devices(old(devices)@, device, renamed))
                &&& final(states)@ == merged_states(old(devices)@, old(states)@, device, renamed)
                &&& final(disconnected)@ == merged_disconnected(
                    old(devices)@,
                    old(disconnected)@,
                    device,
                    renamed,
                )
            },
{
    let ghost devs0 = devices@;
    let ghost states0 = states@;
    let ghost disc0 = disconnected@;
    let renamed = retire_displaced(devices, states, disconnected, &device);
    take_into_row(devices, states, disconnected, device);
    assert(devices@ == merged_devices(devs0, device, renamed));
    assert(states@ == merged_states(devs0, states0, device, renamed));
    assert(disconnected@ == merged_disconnected(devs0, disc0, device, renamed));
    sort_by_position(devices);
}

// ---------------------------------------------------------------------------
// Agent events
// ---------------------------------------------------------------------------

/// A battery reading reaches a device that is listed ready, is not
/// disconnected and has a state.
pub open spec fn battery_applies(
    devs: Seq<DeviceSummary>,
    states: Seq<DeviceState>,
    disconnected: Map<Seq<char>, ()>,
    id: Seq<char>,
) -> bool {
    &&& exists|i: int| 0 <= i < devs.len() && devs[i].id@ == id && #[trigger] devs[i].ready
    &&& !disconnected.contains_key(id)
    &&& state_index(states, id) is Some
}

/// The state with another battery reading.
pub open spec fn with_battery(s: DeviceState, battery: Option<BatteryState>) -> DeviceState {
    DeviceState { settings: crate::protocol::SettingsState { battery, ..s.settings }, ..s }
}

/// The state of a device that became ready, taking its summary and battery.
pub open spec fn refreshed(s: DeviceState, ready: DeviceState) -> DeviceState {
    DeviceState {
        device: ready.device,
        settings: crate::protocol::SettingsState { battery: ready.settings.battery, ..s.settings },
        ..s
    }
}

/// The summary of a device that became unavailable.
pub open spec fn marked_unavailable(
    d: DeviceSummary,
    reason: Option<DeviceUnavailableReason>,
    detail: String,
) -> DeviceSummary {
    DeviceSummary {
        ready: false,
        availability: Some(
            DeviceAvailability::Unavailable {
                reason: match reason {
                    Some(r) => r,
                    None => DeviceUnavailableReason::NotResponding,
                },
                detail,
            },
        ),
        ..d
    }
}

/// The summary of a device that was unplugged.
pub open spec fn marked_disconnected(d: DeviceSummary) -> DeviceSummary {
    DeviceSummary { ready: false, availability: None, ..d }
}

/// Applies one agent event. Battery readings update only a ready, connected
/// device and never revive one; new and ready devices are merged in;
/// unavailable and unplugged devices lose their states. Setting and metadata
/// changes stay manual, so a local draft is never overwritten.
pub fn apply(
    devices: &mut Vec<DeviceSummary>,
    states: &mut Vec<DeviceState>,
    disconnected: &mut KeyedMap<()>,
    event: AgentEvent,
)
    requires
        old(disconnected).wf(),
    ensures
        final(disconnected).wf(),
        match event {
            AgentEvent::BatteryChanged { device_id, battery } => {
                &&& final(devices)@ == old(devices)@
                &&& final(disconnected)@ == old(disconnected)@
                &&& final(states)@ == if battery_applies(
                    old(devices)@,
                    old(states)@,
                    old(disconnected)@,
                    device_id@,
                ) {
                    old(states)@.update(
                        state_index(old(states)@, device_id@)->0,
                        with_battery(old(states)@[state_index(old(states)@, device_id@)->0], battery),
                    )
                } else {
                    old(states)@
                }
            },
            AgentEvent::DeviceConnected { device } => exists|renamed: String|
                #![trigger merged_devices(old(devices)@, device, renamed)]
                {
                    &&& (displaced_index(old(devices)@, device) matches Some(i) ==> renamed@
                        == saved_id(old(devices)@[i]))
                    &&& final(devices)@ == by_position(merged_devices(old(devices)@, device, renamed))
                    &&& final(states)@ == merged_states(
                        old(devices)@,
                        without_states(old(states)@, device.id@),
                        device,
                        renamed,
                    )
                    &&& final(disconnected)@ == merged_disconnected(
                        old(devices)@,
                        old(disconnected)@,
                        device,
                        renamed,
                    )
                },
            AgentEvent::DeviceReady { device } => exists|renamed: String|
                #![trigger merged_devices(old(devices)@, device.device, renamed)]
                {
                    let s1 = merged_states(old(devices)@, old(states)@, device.device, renamed);
                    &&& (displaced_index(old(devices)@, device.device) matches Some(i) ==> renamed@
                        == saved_id(old(devices)@[i]))
                    &&& final(devices)@ == by_position(
                        merged_devices(old(devices)@, device.device, renamed),
                    )
                    &&& final(states)@ == match state_index(s1, device.device.id@) {
                        Some(k) => s1.update(k, refreshed(s1[k], *device)),
                        None => s1.push(*device),
                    }
                    &&& final(disconnected)@ == merged_disconnected(
                        old(devices)@,
                        old(disconnected)@,
                        device.device,
                        renamed,
                    )
                },
            AgentEvent::DeviceUnavailable { device_id, reason_code, reason } => {
                &&& final(states)@ == without_states(old(states)@, device_id@)
                &&& match device_index(old(devices)@, device_id@) {
                    Some(i) => {
                        &&& final(devices)@ == old(devices)@.update(
                            i,
                            marked_unavailable(old(devices)@[i], reason_code, reason),
                        )
                        &&& final(disconnected)@ == old(disconnected)@.remove(device_id@)
                    },
                    None => {
                        &&& final(devices)@ == old(devices)@
                        &&& final(disconnected)@ == old(disconnected)@
                    },
                }
            },
            AgentEvent::DeviceDisconnected { device_id } => {
                &&& final(states)@ == without_states(old(states)@, device_id@)
                &&& match device_index(old(devices)@, device_id@) {
                    Some(i) => {
                        &&& final(devices)@ == old(devices)@.update(
                            i,
                            marked_disconnected(old(devices)@[i]),
                        )
                        &&& final(disconnected)@ == old(disconnected)@.insert(device_id@, ())
                    },
                    None => {
                        &&& final(devices)@ == old(devices)@
                        &&& final(disconnected)@ == old(disconnected)@
                    },
                }
            },
            _ => {
                &&& final(devices)@ == old(devices)@
                &&& final(states)@ == old(states)@
                &&& final(disconnected)@ == old(disconnected)@
            },
        },
{
    match event {
        AgentEvent::BatteryChanged { device_id, battery } => {
            let ghost states0 = states@;
            let mut listed_ready = false;
            let mut i: usize = 0;
            while i < devices.len()
                invariant
                    i <= devices.len(),
                    listed_ready == exists|j: int|
                        0 <= j < i && devices@[j].id@ == device_id@ && #[trigger] devices@[j].ready,
                decreases devices.len() - i,
            {
                if devices[i].ready && str_eq(devices[i].id.as_str(), device_id.as_str()) {
                    listed_ready = true;
                }
                i += 1;
            }
            if listed_ready && !disconnected.contains_key(device_id.as_str()) {
                match find_state(states, device_id.as_str()) {
                    Some(k) => {
                        let entry = &mut states[k];
                        entry.settings.battery = battery;
                        assert(states@[k as int] == with_battery(states0[k as int], battery));
                        assert(states@ =~= states0.update(
                            k as int,
                            with_battery(states0[k as int], battery),
                        ));
                    },
                    None => {},
                }
            }
        },
        AgentEvent::DeviceConnected { device } => {
            retain_other_states(states, device.id.as_str());
            upsert(devices, states, disconnected, device);
        },
        AgentEvent::DeviceReady { device } => {
            let summary = device.device.copy();
            upsert(devices, states, disconnected, summary);
            let ghost s1 = states@;
            match find_state(states, device.device.id.as_str()) {
                Some(k) => {
                    let ghost ready = *device;
                    let DeviceState { device: summary, settings, .. } = *device;
                    let entry = &mut states[k];
                    entry.device = summary;
                    entry.settings.battery = settings.battery;
                    assert(states@ == s1.update(k as int, refreshed(s1[k as int], ready)));
                },
                None => {
                    states.push(*device);
                },
            }
        },
        AgentEvent::DeviceUnavailable { device_id, reason_code, reason } => {
            match find_device(devices, device_id.as_str()) {
                Some(i) => {
                    let entry = &mut devices[i];
                    entry.ready = false;
                    entry.availability = Some(
                        DeviceAvailability::Unavailable {
                            reason: match reason_code {
                                Some(r) => r,
                                None => DeviceUnavailableReason::NotResponding,
                            },
                            detail: reason,
                        },
                    );
                    disconnected.remove(device_id.as_str());
                },
                None => {},
            }
            retain_other_states(states, device_id.as_str());
        },
        AgentEvent::DeviceDisconnected { device_id } => {
            match find_device(devices, device_id.as_str()) {
                Some(i) => {
                    let entry = &mut devices[i];
                    entry.ready = false;
                    entry.availability = None;
                    disconnected.insert(device_id.as_str(), ());
                },
                None => {},
            }
            retain_other_states(states, device_id.as_str());
        },
        _ => {},
    }
}

// ---------------------------------------------------------------------------
// Saved devices and the present USB enumeration
// ---------------------------------------------------------------------------

/// Two summaries are the same mouse: the same hardware identity where both
/// have one, the same identifier otherwise.
pub open spec fn same_mouse(a: DeviceSummary, b: DeviceSummary) -> bool {
    match (a.hardware_id, b.hardware_id) {
        (Some(x), Some(y)) => x@ == y@,
        _ => a.id@ == b.id@,
    }
}

/// The identifier under which a remembered mouse is kept when its identifier
/// now belongs to another.
pub open spec fn remembered_id(old: DeviceSummary) -> Seq<char> {
    "remembered:"@ + match old.hardware_id {
        Some(h) => h@,
        None => old.id@,
    }
}

/// The list and the disconnected identifiers after the first `known` saved
/// devices were merged into `current`: a saved mouse that the enumeration no
/// longer shows is kept, not ready, under `names[k]` when its identifier was
/// taken.
pub open spec fn history(known: Seq<DeviceSummary>, current: Seq<DeviceSummary>, names: Seq<String>) -> (
    Seq<DeviceSummary>,
    Map<Seq<char>, ()>,
)
    decreases known.len(),
{
    if known.len() == 0 {
        (current, Map::empty())
    } else {
        let (devs, disc) = history(known.drop_last(), current, names);
        let old = known.last();
        if exists|j: int| 0 <= j < devs.len() && same_mouse(old, #[trigger] devs[j]) {
            (devs, disc)
        } else {
            let id = if exists|j: int| 0 <= j < devs.len() && #[trigger] devs[j].id@ == old.id@ {
                names[known.len() - 1]
            } else {
                old.id
            };
            (devs.push(DeviceSummary { id, ready: false, availability: None, ..old }), disc.insert(id@, ()))
        }
    }
}

impl KeyedMap<()> {
    /// Whether nothing is kept.
    pub fn is_empty(&self) -> (r: bool)
        requires
            self.wf(),
        ensures
            r == (self@.dom().len() == 0),
    {
        self.len() == 0
    }
}

/// Merges the saved devices with the present enumeration. Only absence from a
/// successful enumeration means disconnected; a saved mouse whose identifier
/// now routes to another mouse is kept under a separate identifier. The list
/// is then ordered by listing key.
pub fn merge(known: &Vec<DeviceSummary>, current: Vec<DeviceSummary>) -> (r: (
    Vec<DeviceSummary>,
    KeyedMap<()>,
))
    ensures
        r.1.wf(),
        exists|names: Seq<String>|
            #![trigger history(known@, current@, names)]
            {
                &&& names.len() == known.len()
                &&& forall|k: int| 0 <= k < known.len() ==> (#[trigger] names[k])@ == remembered_id(known@[k])
                &&& r.0@ == by_position(history(known@, current@, names).0)
                &&& r.1@ == history(known@, current@, names).1
            },
{
    let ghost current0 = current@;
    let mut devices = current;
    let mut disconnected: KeyedMap<()> = KeyedMap::new();
    let ghost mut names: Seq<String> = Seq::empty();
    let mut k: usize = 0;
    assert(known@.take(0) =~= Seq::<DeviceSummary>::empty());
    while k < known.len()
        invariant
            k <= known.len(),
            disconnected.wf(),
            names.len() == k,
            forall|q: int| 0 <= q < k ==> (#[trigger] names[q])@ == remembered_id(known@[q]),
            (devices@, disconnected@) == history(known@.take(k as int), current0, names),
        decreases known.len() - k,
    {
        let old = &known[k];
        let mut name = owned("remembered:");
        match &old.hardware_id {
            Some(h) => push_str(&mut name, h.as_str()),
            None => push_str(&mut name, old.id.as_str()),
        }
        let ghost devs = devices@;
        let ghost names1 = names.push(name);
        proof {
            assert(known@.take(k as int + 1).drop_last() =~= known@.take(k as int));
            assert(known@.take(k as int + 1).last() == known@[k as int]);
            lemma_history_names(known@.take(k as int), current0, names, names1);
        }
        let mut seen = false;
        let mut taken = false;
        let mut j: usize = 0;
        while j < devices.len()
            invariant
                j <= devices.len(),
                devices@ == devs,
                seen == exists|q: int| 0 <= q < j && same_mouse(known@[k as int], #[trigger] devs[q]),
                taken == exists|q: int| 0 <= q < j && #[trigger] devs[q].id@ == known@[k as int].id@,
                k < known.len(),
                *old == known@[k as int],
            decreases devices.len() - j,
        {
            let d = &devices[j];
            let same = match (&old.hardware_id, &d.hardware_id) {
                (Some(a), Some(b)) => str_eq(a.as_str(), b.as_str()),
                _ => str_eq(old.id.as_str(), d.id.as_str()),
            };
            if same {
                seen = true;
            }
            if str_eq(d.id.as_str(), old.id.as_str()) {
                taken = true;
            }
            j += 1;
        }
        proof {
            names = names1;
        }
        if !seen {
            let mut entry = old.copy();
            if taken {
                entry.id = name;
            }
            entry.ready = false;
            entry.availability = None;
            disconnected.insert(entry.id.as_str(), ());
            devices.push(entry);
        }
        k += 1;
    }
    assert(known@.take(k as int) =~= known@);
    sort_by_position(&mut devices);
    (devices, disconnected)
}

/// A history over the first saved devices depends only on their own names.
proof fn lemma_history_names(
    known: Seq<DeviceSummary>,
    current: Seq<DeviceSummary>,
    names: Seq<String>,
    longer: Seq<String>,
)
    requires
        names.len() >= known.len(),
        longer.len() >= known.len(),
        forall|q: int| 0 <= q < known.len() ==> names[q] == longer[q],
    ensures
        history(known, current, names) == history(known, current, longer),
    decreases known.len(),
{
    if known.len() > 0 {
        lemma_history_names(known.drop_last(), current, names, longer);
    }
}

// ---------------------------------------------------------------------------
// Laws
// ---------------------------------------------------------------------------

/// Merging saved devices keeps the present enumeration as it is, in front of
/// every saved row.
pub proof fn law_merge_keeps_enumeration(
    known: Seq<DeviceSummary>,
    current: Seq<DeviceSummary>,
    names: Seq<String>,
)
    ensures
        history(known, current, names).0.len() >= current.len(),
        history(known, current, names).0.take(current.len() as int) == current,
    decreases known.len(),
{
    if known.len() > 0 {
        law_merge_keeps_enumeration(known.drop_last(), current, names);
        let devs = history(known.drop_last(), current, names).0;
        let h = history(known, current, names).0;
        assert(h.take(current.len() as int) =~= devs.take(current.len() as int));
    }
}

/// Every saved row that merging adds is shown as not ready and not available.
pub proof fn law_saved_rows_are_offline(
    known: Seq<DeviceSummary>,
    current: Seq<DeviceSummary>,
    names: Seq<String>,
)
    ensures
        forall|j: int|
            current.len() <= j < history(known, current, names).0.len() ==> !(#[trigger] history(
                known,
                current,
                names,
            ).0[j]).ready && history(known, current, names).0[j].availability is None,
    decreases known.len(),
{
    if known.len() > 0 {
        law_saved_rows_are_offline(known.drop_last(), current, names);
        law_merge_keeps_enumeration(known.drop_last(), current, names);
    }
}

/// Ordering by listing key keeps every device, each as often as before.
pub proof fn law_by_position_is_permutation(s: Seq<DeviceSummary>)
    ensures
        by_position(s).to_multiset() == s.to_multiset(),
    decreases s.len(),
{
    broadcast use vstd::seq_lib::group_to_multiset_ensures;

    if s.len() > 0 {
        law_by_position_is_permutation(s.drop_last());
        lemma_key_insert_position_bounds(by_position(s.drop_last()), s.last());
        assert(s.drop_last().push(s.last()) =~= s);
    }
}

} // verus!
