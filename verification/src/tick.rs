//! The decisions of the agent's periodic pass over its mice: a mouse whose
//! wireless link dropped, a present mouse that is opened again or refuses to
//! be, and the battery check that is due on a ready mouse. The agent makes the
//! device calls and hands each outcome to these functions, which say how its
//! records change and what clients are told.
use vstd::prelude::*;

use crate::agent::{
    battery_outcome, battery_query_outcome, entry_of, kept_hardware_id, record_unavailable,
    unavailable_event_due, UnavailableDevice, BATTERY_FAILURE_LIMIT,
};
use crate::keyed::KeyedMap;
use crate::protocol::{AgentEvent, BatteryState, DeviceState, DeviceUnavailableReason};
use crate::text::{owned, push_str, str_eq};

verus! {

// ---------------------------------------------------------------------------
// Unavailability
// ---------------------------------------------------------------------------

/// `after` is `before` once `device_id` was recorded unavailable for `reason`
/// with `detail`, and `event` is what clients hear of it: only a new
/// unavailability, or a change of its reason, is published.
pub open spec fn recorded_unavailable(
    before: Map<Seq<char>, UnavailableDevice>,
    after: Map<Seq<char>, UnavailableDevice>,
    device_id: Seq<char>,
    reason: DeviceUnavailableReason,
    detail: Seq<char>,
    hardware_id: Option<String>,
    event: Option<AgentEvent>,
) -> bool {
    &&& after.dom() == before.dom().insert(device_id)
    &&& after.remove(device_id) == before.remove(device_id)
    &&& after[device_id].reason == reason
    &&& after[device_id].detail@ == detail
    &&& after[device_id].hardware_id == kept_hardware_id(entry_of(before, device_id), hardware_id)
    &&& unavailable_event_due(entry_of(before, device_id), reason) <==> event is Some
    &&& event matches Some(e) ==> e matches AgentEvent::DeviceUnavailable {
        device_id: id,
        reason_code,
        reason: text,
    } && id@ == device_id && reason_code == Some(reason) && text@ == detail
}

fn mark_unavailable(
    unavailable: &mut KeyedMap<UnavailableDevice>,
    device_id: &str,
    reason: DeviceUnavailableReason,
    detail: String,
    hardware_id: Option<String>,
) -> (r: Option<AgentEvent>)
    requires
        old(unavailable).wf(),
    ensures
        final(unavailable).wf(),
        recorded_unavailable(
            old(unavailable)@,
            final(unavailable)@,
            device_id@,
            reason,
            detail@,
            hardware_id,
            r,
        ),
{
    let ghost before = unavailable@;
    let r = record_unavailable(unavailable, device_id, reason, detail, hardware_id);
    proof {
        assert(unavailable@.dom() =~= before.dom().insert(device_id@));
        assert(unavailable@.remove(device_id@) =~= before.remove(device_id@));
    }
    r
}

/// Why a mouse whose wireless link dropped is unavailable.
pub open spec fn link_lost_text() -> Seq<char> {
    "wireless link disconnected; mouse may be asleep, switched off, or out of range"@
}

/// Records that the wireless link of a ready mouse dropped: it no longer
/// responds.
pub fn link_lost(
    unavailable: &mut KeyedMap<UnavailableDevice>,
    device_id: &str,
    hardware_id: Option<String>,
) -> (r: Option<AgentEvent>)
    requires
        old(unavailable).wf(),
    ensures
        final(unavailable).wf(),
        recorded_unavailable(
            old(unavailable)@,
            final(unavailable)@,
            device_id@,
            DeviceUnavailableReason::NotResponding,
            link_lost_text(),
            hardware_id,
            r,
        ),
{
    let detail = owned(
        "wireless link disconnected; mouse may be asleep, switched off, or out of range",
    );
    mark_unavailable(unavailable, device_id, DeviceUnavailableReason::NotResponding, detail, hardware_id)
}

/// Forgets a device that was unplugged: it is no longer unavailable, and
/// clients hear that it is gone.
pub fn forget_disconnected(unavailable: &mut KeyedMap<UnavailableDevice>, device_id: &str) -> (r:
    AgentEvent)
    requires
        old(unavailable).wf(),
    ensures
        final(unavailable).wf(),
        final(unavailable)@ == old(unavailable)@.remove(device_id@),
        r matches AgentEvent::DeviceDisconnected { device_id: id } && id@ == device_id@,
{
    unavailable.remove(device_id);
    AgentEvent::DeviceDisconnected { device_id: owned(device_id) }
}

// ---------------------------------------------------------------------------
// Reopening present mice
// ---------------------------------------------------------------------------

/// Whether a present device is tried again: it is not ready, and its link did
/// not just drop.
pub open spec fn retried(device_id: Seq<char>, ready: Seq<Seq<char>>, link_dropped: Seq<Seq<char>>) -> bool {
    &&& !ready.contains(device_id)
    &&& !link_dropped.contains(device_id)
}

fn listed(ids: &Vec<String>, device_id: &str) -> (r: bool)
    ensures
        r == ids@.map_values(|s: String| s@).contains(device_id@),
{
    let ghost views = ids@.map_values(|s: String| s@);
    let mut i: usize = 0;
    while i < ids.len()
        invariant
            i <= ids.len(),
            views == ids@.map_values(|s: String| s@),
            forall|j: int| 0 <= j < i ==> views[j] != device_id@,
        decreases ids.len() - i,
    {
        if str_eq(ids[i].as_str(), device_id) {
            assert(views[i as int] == device_id@);
            return true;
        }
        i += 1;
    }
    false
}

/// Whether the present device `device_id` is tried again, given the ready
/// devices and those whose link just dropped.
pub fn should_retry(device_id: &str, ready: &Vec<String>, link_dropped: &Vec<String>) -> (r: bool)
    ensures
        r == retried(
            device_id@,
            ready@.map_values(|s: String| s@),
            link_dropped@.map_values(|s: String| s@),
        ),
{
    !listed(ready, device_id) && !listed(link_dropped, device_id)
}

/// Why opening a present mouse again came to nothing, with the error's text.
#[derive(Clone, Debug, PartialEq, Eq)]
pub enum ReopenFailure {
    /// The mouse could not be opened.
    NotOpened(String),
    /// It opened, but its state could not be read.
    NotRead(String),
}

/// Why a present mouse that could not be opened is unavailable.
pub open spec fn not_opened_text(error: Seq<char>) -> Seq<char> {
    "mouse is present but not responding; it may be asleep or switched off: "@ + error
}

/// Why a mouse whose state could not be read is unavailable.
pub open spec fn not_read_text(error: Seq<char>) -> Seq<char> {
    "could not read mouse state: "@ + error
}

/// Takes the outcome of opening a present mouse again: a mouse that came back
/// is no longer unavailable and is announced ready with its state; one that
/// did not is recorded unavailable, as not responding when it could not be
/// opened and as a communication error when its state could not be read.
/// `hardware_id` is the identity resolved for it before the attempt.
pub fn after_reopen(
    unavailable: &mut KeyedMap<UnavailableDevice>,
    device_id: &str,
    attempt: Result<DeviceState, ReopenFailure>,
    hardware_id: Option<String>,
) -> (r: Option<AgentEvent>)
    requires
        old(unavailable).wf(),
    ensures
        final(unavailable).wf(),
        match attempt {
            Ok(state) => {
                &&& final(unavailable)@ == old(unavailable)@.remove(device_id@)
                &&& r == Some(AgentEvent::DeviceReady { device: Box::new(state) })
            },
            Err(ReopenFailure::NotOpened(e)) => recorded_unavailable(
                old(unavailable)@,
                final(unavailable)@,
                device_id@,
                DeviceUnavailableReason::NotResponding,
                not_opened_text(e@),
                hardware_id,
                r,
            ),
            Err(ReopenFailure::NotRead(e)) => recorded_unavailable(
                old(unavailable)@,
                final(unavailable)@,
                device_id@,
                DeviceUnavailableReason::CommunicationError,
                not_read_text(e@),
                hardware_id,
                r,
            ),
        },
{
    match attempt {
        Ok(state) => {
            unavailable.remove(device_id);
            Some(AgentEvent::DeviceReady { device: Box::new(state) })
        },
        Err(ReopenFailure::NotOpened(e)) => {
            let mut detail = owned(
                "mouse is present but not responding; it may be asleep or switched off: ",
            );
            push_str(&mut detail, e.as_str());
            mark_unavailable(
                unavailable,
                device_id,
                DeviceUnavailableReason::NotResponding,
                detail,
                hardware_id,
            )
        },
        Err(ReopenFailure::NotRead(e)) => {
            let mut detail = owned("could not read mouse state: ");
            push_str(&mut detail, e.as_str());
            mark_unavailable(
                unavailable,
                device_id,
                DeviceUnavailableReason::CommunicationError,
                detail,
                hardware_id,
            )
        },
    }
}

// ---------------------------------------------------------------------------
// Battery checks
// ---------------------------------------------------------------------------

/// What the agent keeps of a ready mouse for its battery checks.
#[derive(Clone, Debug, PartialEq, Eq)]
pub struct BatteryWatch {
    /// The last reading published.
    pub battery: Option<BatteryState>,
    /// When the next check is due, in nanoseconds on a monotonic clock.
    pub check_after: u64,
    /// The number of consecutive failed queries.
    pub failures: u8,
}

/// A battery reading by its values.
pub open spec fn battery_view(b: Option<BatteryState>) -> Option<(u8, u8, u8, Seq<char>)> {
    match b {
        Some(s) => Some((s.percentage, s.level_code, s.status_code, s.status@)),
        None => None,
    }
}

fn same_battery(a: &Option<BatteryState>, b: &Option<BatteryState>) -> (r: bool)
    ensures
        r == (battery_view(*a) == battery_view(*b)),
{
    match (a, b) {
        (Some(x), Some(y)) => x.percentage == y.percentage && x.level_code == y.level_code
            && x.status_code == y.status_code && str_eq(x.status.as_str(), y.status.as_str()),
        (None, None) => true,
        _ => false,
    }
}

fn copy_battery(b: &Option<BatteryState>) -> (r: Option<BatteryState>)
    ensures
        r == *b,
{
    match b {
        Some(x) => Some(
            BatteryState {
                percentage: x.percentage,
                level_code: x.level_code,
                status_code: x.status_code,
                status: x.status.clone(),
            },
        ),
        None => None,
    }
}

/// Whether the battery of a ready mouse is to be queried at `now`.
pub fn battery_check_due(watch: &BatteryWatch, now: u64) -> (r: bool)
    ensures
        r == (now >= watch.check_after),
{
    now >= watch.check_after
}

/// Why a mouse that failed its battery queries is unavailable.
pub open spec fn battery_failed_text(error: Seq<char>) -> Seq<char> {
    "mouse stopped responding during a battery query: "@ + error
}

/// Takes the outcome of a due battery query on the mouse `device_id`: the
/// next check is due one `interval` after `now`; a reading resets the count
/// of failures and is published when it differs from the last one; a failure
/// is counted, and at the limit the mouse is given up, with the text that
/// says why (second part of the result).
pub fn after_battery_query(
    watch: &mut BatteryWatch,
    device_id: &str,
    reading: Result<Option<BatteryState>, String>,
    now: u64,
    interval: u64,
) -> (r: (Option<AgentEvent>, Option<String>))
    requires
        now + interval <= u64::MAX,
    ensures
        final(watch).check_after == now + interval,
        match reading {
            Ok(b) => {
                &&& final(watch).failures == 0
                &&& r.1 is None
                &&& if battery_view(b) == battery_view(old(watch).battery) {
                    &&& final(watch).battery == old(watch).battery
                    &&& r.0 is None
                } else {
                    &&& final(watch).battery == b
                    &&& r.0 matches Some(AgentEvent::BatteryChanged { device_id: id, battery })
                        && id@ == device_id@ && battery == b
                }
            },
            Err(e) => {
                &&& final(watch).battery == old(watch).battery
                &&& final(watch).failures == battery_outcome(old(watch).failures, false, false).0
                &&& r.0 is None
                &&& (r.1 is Some <==> final(watch).failures >= BATTERY_FAILURE_LIMIT)
                &&& r.1 matches Some(d) ==> d@ == battery_failed_text(e@)
            },
        },
{
    watch.check_after = now + interval;
    match reading {
        Ok(b) => {
            let changed = !same_battery(&b, &watch.battery);
            let (failures, publish, _) = battery_query_outcome(watch.failures, true, changed);
            watch.failures = failures;
            if publish {
                let event = AgentEvent::BatteryChanged { device_id: owned(device_id), battery: copy_battery(&b) };
                watch.battery = b;
                (Some(event), None)
            } else {
                (None, None)
            }
        },
        Err(e) => {
            let (failures, _, give_up) = battery_query_outcome(watch.failures, false, false);
            watch.failures = failures;
            if give_up {
                let mut detail = owned("mouse stopped responding during a battery query: ");
                push_str(&mut detail, e.as_str());
                (None, Some(detail))
            } else {
                (None, None)
            }
        },
    }
}

/// Records that a mouse which failed its battery queries is given up, with
/// the text `after_battery_query` gave: a communication error.
pub fn battery_given_up(
    unavailable: &mut KeyedMap<UnavailableDevice>,
    device_id: &str,
    detail: String,
    hardware_id: Option<String>,
) -> (r: Option<AgentEvent>)
    requires
        old(unavailable).wf(),
    ensures
        final(unavailable).wf(),
        recorded_unavailable(
            old(unavailable)@,
            final(unavailable)@,
            device_id@,
            DeviceUnavailableReason::CommunicationError,
            detail@,
            hardware_id,
            r,
        ),
{
    mark_unavailable(unavailable, device_id, DeviceUnavailableReason::CommunicationError, detail, hardware_id)
}

} // verus!
