//! Applying a write plan through the agent: check that the device is still the
//! one the plan was made for, send the writes in order, stop at the first
//! failure, and always read the device back afterwards.
use vstd::prelude::*;

use crate::agent::bytes_view;
use crate::protocol::{
    BatteryState, DeviceCapabilities, DeviceState, DeviceSummary, PollingRateCapabilities, RequestCommand,
    ResponseData, SettingsState,
};
use crate::settings_form::{Change, Key};
use crate::store::opt_view;
use crate::text::{owned, push_str, str_eq};
use crate::transport::Transport;

verus! {

/// The rates a capability lists, by connection kind.
pub open spec fn rates_view(p: PollingRateCapabilities) -> (int, Seq<u16>, Seq<u16>) {
    match p {
        PollingRateCapabilities::Unsupported => (0, Seq::empty(), Seq::empty()),
        PollingRateCapabilities::Shared { supported_hz } => (1, supported_hz@, Seq::empty()),
        PollingRateCapabilities::PerConnection { wired_hz, wireless_hz } => (2, wired_hz@, wireless_hz@),
    }
}

/// The DPI list a device reports, by its values.
pub open spec fn dpi_list_view(o: Option<Vec<u16>>) -> Option<Seq<u16>> {
    match o {
        Some(v) => Some(v@),
        None => None,
    }
}

/// Whether two capability reports say the same.
pub open spec fn same_capabilities(a: DeviceCapabilities, b: DeviceCapabilities) -> bool {
    &&& a.battery == b.battery
    &&& dpi_list_view(a.supported_dpi) == dpi_list_view(b.supported_dpi)
    &&& rates_view(a.polling_rates) == rates_view(b.polling_rates)
    &&& a.onboard_profiles == b.onboard_profiles
    &&& a.onboard_profile_count == b.onboard_profile_count
    &&& a.lift_off_distance == b.lift_off_distance
    &&& a.surface_mode == b.surface_mode
    &&& a.operating_mode_switch == b.operating_mode_switch
    &&& a.color_led_effects == b.color_led_effects
    &&& a.bunny_hopping == b.bunny_hopping
    &&& a.mouse_button_filter == b.mouse_button_filter
}

/// Whether two settings reports say the same, the battery aside: the charge
/// moves on its own and does not make a plan stale.
pub open spec fn same_settings(a: SettingsState, b: SettingsState) -> bool {
    &&& a.onboard_dpi_stage == b.onboard_dpi_stage
    &&& bytes_view(a.mouse_button_mapping) == bytes_view(b.mouse_button_mapping)
    &&& a.dpi == b.dpi
    &&& a.polling_rate == b.polling_rate
    &&& a.configuration_source == b.configuration_source
    &&& a.operating_mode == b.operating_mode
    &&& a.surface_mode == b.surface_mode
    &&& a.bunny_hopping == b.bunny_hopping
}

/// Whether the device read before writing is no longer the one the plan was
/// made from: not ready, another mouse, other settings, other capabilities,
/// or another name or colour.
pub open spec fn device_changed(baseline: DeviceState, current: DeviceState) -> bool {
    ||| !current.device.ready
    ||| opt_view(baseline.device.hardware_id) != opt_view(current.device.hardware_id)
    ||| !same_settings(baseline.settings, current.settings)
    ||| !same_capabilities(baseline.capabilities, current.capabilities)
    ||| opt_view(baseline.device.nickname) != opt_view(current.device.nickname)
    ||| baseline.device.color != current.device.color
}

/// A settings report without its battery reading and its button mapping.
pub open spec fn without_battery_and_mapping(s: SettingsState) -> SettingsState {
    SettingsState { battery: None, mouse_button_mapping: None, ..s }
}

/// A device report with another battery reading.
pub open spec fn with_battery(d: DeviceState, battery: Option<BatteryState>) -> DeviceState {
    DeviceState { settings: SettingsState { battery, ..d.settings }, ..d }
}

/// The check before writing sees every change of the settings but the
/// battery: a device read that is not taken as a change reports the same
/// settings as the baseline in everything but the battery, the button
/// mapping by its bytes.
pub proof fn law_unchanged_means_same_settings(baseline: DeviceState, current: DeviceState)
    requires
        !device_changed(baseline, current),
    ensures
        without_battery_and_mapping(baseline.settings) == without_battery_and_mapping(current.settings),
        bytes_view(baseline.settings.mouse_button_mapping) == bytes_view(current.settings.mouse_button_mapping),
{
}

/// A capability report without its lists of DPI values and polling rates.
pub open spec fn without_lists(c: DeviceCapabilities) -> DeviceCapabilities {
    DeviceCapabilities { supported_dpi: None, polling_rates: PollingRateCapabilities::Unsupported, ..c }
}

/// A device read that is not taken as a change is the same mouse as the
/// baseline, ready, with the same name and colour, and with the same
/// capabilities, the lists compared by their values.
pub proof fn law_unchanged_means_same_device(baseline: DeviceState, current: DeviceState)
    requires
        !device_changed(baseline, current),
    ensures
        current.device.ready,
        opt_view(baseline.device.hardware_id) == opt_view(current.device.hardware_id),
        opt_view(baseline.device.nickname) == opt_view(current.device.nickname),
        baseline.device.color == current.device.color,
        without_lists(baseline.capabilities) == without_lists(current.capabilities),
        dpi_list_view(baseline.capabilities.supported_dpi) == dpi_list_view(current.capabilities.supported_dpi),
        rates_view(baseline.capabilities.polling_rates) == rates_view(current.capabilities.polling_rates),
{
}

/// A battery reading that moved on its own does not make a plan stale: a
/// ready device that reports just what the baseline did, but for its
/// battery, counts as unchanged.
pub proof fn law_battery_alone_is_no_change(baseline: DeviceState, battery: Option<BatteryState>)
    requires
        baseline.device.ready,
    ensures
        !device_changed(baseline, with_battery(baseline, battery)),
{
}

fn opt_string_eq(a: &Option<String>, b: &Option<String>) -> (r: bool)
    ensures
        r == (opt_view(*a) == opt_view(*b)),
{
    match (a, b) {
        (Some(x), Some(y)) => str_eq(x.as_str(), y.as_str()),
        (None, None) => true,
        _ => false,
    }
}

fn u16s_eq(a: &Vec<u16>, b: &Vec<u16>) -> (r: bool)
    ensures
        r == (a@ == b@),
{
    if a.len() != b.len() {
        return false;
    }
    let mut i: usize = 0;
    while i < a.len()
        invariant
            i <= a.len(),
            a.len() == b.len(),
            forall|j: int| 0 <= j < i ==> a@[j] == b@[j],
        decreases a.len() - i,
    {
        if a[i] != b[i] {
            assert(a@[i as int] != b@[i as int]);
            return false;
        }
        i += 1;
    }
    assert(a@ =~= b@);
    true
}

fn bytes_eq(a: &Option<Vec<u8>>, b: &Option<Vec<u8>>) -> (r: bool)
    ensures
        r == (bytes_view(*a) == bytes_view(*b)),
{
    match a {
        Some(x) => match b {
            Some(y) => {
                let same = crate::restore::bytes_equal(x, y);
                same
            },
            None => false,
        },
        None => b.is_none(),
    }
}

fn same_capabilities_exec(a: &DeviceCapabilities, b: &DeviceCapabilities) -> (r: bool)
    ensures
        r == same_capabilities(*a, *b),
{
    let dpi_same = match (&a.supported_dpi, &b.supported_dpi) {
        (Some(x), Some(y)) => u16s_eq(x, y),
        (None, None) => true,
        _ => false,
    };
    let rates_same = match (&a.polling_rates, &b.polling_rates) {
        (PollingRateCapabilities::Unsupported, PollingRateCapabilities::Unsupported) => true,
        (
            PollingRateCapabilities::Shared { supported_hz: x },
            PollingRateCapabilities::Shared { supported_hz: y },
        ) => u16s_eq(x, y),
        (
            PollingRateCapabilities::PerConnection { wired_hz: xw, wireless_hz: xl },
            PollingRateCapabilities::PerConnection { wired_hz: yw, wireless_hz: yl },
        ) => u16s_eq(xw, yw) && u16s_eq(xl, yl),
        _ => false,
    };
    a.battery == b.battery && dpi_same && rates_same && a.onboard_profiles == b.onboard_profiles
        && a.onboard_profile_count == b.onboard_profile_count && a.lift_off_distance
        == b.lift_off_distance && a.surface_mode == b.surface_mode && a.operating_mode_switch
        == b.operating_mode_switch && a.color_led_effects == b.color_led_effects && a.bunny_hopping
        == b.bunny_hopping && a.mouse_button_filter == b.mouse_button_filter
}

fn same_settings_exec(a: &SettingsState, b: &SettingsState) -> (r: bool)
    ensures
        r == same_settings(*a, *b),
{
    a.onboard_dpi_stage == b.onboard_dpi_stage && bytes_eq(&a.mouse_button_mapping, &b.mouse_button_mapping)
        && a.dpi == b.dpi && a.polling_rate == b.polling_rate && a.configuration_source
        == b.configuration_source && a.operating_mode == b.operating_mode && a.surface_mode
        == b.surface_mode && a.bunny_hopping == b.bunny_hopping
}

/// Whether the device changed since the plan was made.
pub fn changed_since(baseline: &DeviceState, current: &DeviceState) -> (r: bool)
    ensures
        r == device_changed(*baseline, *current),
{
    !current.device.ready || !opt_string_eq(&baseline.device.hardware_id, &current.device.hardware_id)
        || !same_settings_exec(&baseline.settings, &current.settings) || !same_capabilities_exec(
        &baseline.capabilities,
        &current.capabilities,
    ) || !opt_string_eq(&baseline.device.nickname, &current.device.nickname)
        || baseline.device.color != current.device.color
}

/// What applying a plan came to: the last device state the agent reported,
/// the fields whose writes succeeded, and what went wrong, if anything.
pub struct ApplyOutcome {
    pub state: Option<DeviceState>,
    pub applied: Vec<Key>,
    pub error: Option<String>,
}

/// Where an application of a plan stands.
#[derive(Clone, Copy, Debug, PartialEq, Eq, Structural)]
pub enum ApplyPhase {
    /// Waiting for the read that checks the device is unchanged.
    Check,
    /// Waiting for the answer to a write.
    Write,
    /// Waiting for the final read.
    ReadBack,
    /// Finished.
    Done,
}

/// An application of a write plan in progress. Each answer of the agent is
/// handed to `step`, which says what to send next.
pub struct ApplyRun {
    pub baseline: DeviceState,
    /// The writes not sent yet.
    pub remaining: Vec<Change>,
    /// The fields of the write in flight, and whether it only changes what
    /// the host stores (a name or a colour), which the agent acknowledges.
    pub in_flight: Vec<Key>,
    pub in_flight_metadata: bool,
    pub phase: ApplyPhase,
    pub outcome: ApplyOutcome,
}

/// The message when the device changed since the plan was made.
pub open spec fn changed_message() -> Seq<char> {
    "The device changed since it was read. Review the updated values, then apply again."@
}

/// The message when the checking read does not return a device.
pub open spec fn no_state_message() -> Seq<char> {
    "agent returned no device state"@
}

/// The message when a write gets an answer that fits no write.
pub open spec fn unexpected_write_message() -> Seq<char> {
    "agent returned an unexpected write response"@
}

/// The message when the final read fails, after any earlier error.
pub open spec fn read_back_message(earlier: Option<Seq<char>>, detail: Seq<char>) -> Seq<char> {
    (match earlier {
        Some(e) => e + " "@,
        None => Seq::empty(),
    }) + "Device read-back failed: "@ + detail + ". Refresh before making more changes."@
}

/// Whether a write only changes what the host stores about the device.
pub open spec fn is_metadata_write(command: RequestCommand) -> bool {
    command is SetDeviceNickname || command is SetDeviceColor
}

/// The read of the device the plan is for.
pub open spec fn read_of(baseline: DeviceState) -> RequestCommand {
    RequestCommand::GetDevice { device_id: baseline.device.id }
}

/// The fields that a list of writes settles, in order.
pub open spec fn keys_of(changes: Seq<Change>) -> Seq<Key>
    decreases changes.len(),
{
    if changes.len() == 0 {
        Seq::empty()
    } else {
        keys_of(changes.drop_last()) + changes.last().keys@
    }
}

/// What one step of an application does: from `before`, on the agent's
/// answer `reply`, the run becomes `after` and `next` is sent next.
pub open spec fn steps_to(
    before: ApplyRun,
    reply: Result<ResponseData, String>,
    after: ApplyRun,
    next: Option<RequestCommand>,
) -> bool {
    &&& after.baseline == before.baseline
    &&& after.phase != ApplyPhase::Write ==> after.remaining == before.remaining
    &&& match before.phase {
        ApplyPhase::Check => match reply {
            Ok(ResponseData::Device { device }) => {
                &&& after.outcome.state == Some(*device)
                &&& after.outcome.applied == before.outcome.applied
                &&& if device_changed(before.baseline, *device) {
                    &&& after.outcome.error matches Some(e) && e@ == changed_message()
                    &&& after.phase == ApplyPhase::ReadBack
                    &&& after.remaining == before.remaining
                    &&& next == Some(read_of(before.baseline))
                } else {
                    &&& after.outcome.error == before.outcome.error
                    &&& if before.remaining@.len() > 0 {
                        &&& next == Some(before.remaining@[0].command)
                        &&& after.remaining@ == before.remaining@.drop_first()
                        &&& after.in_flight@ == before.remaining@[0].keys@
                        &&& after.in_flight_metadata == is_metadata_write(
                            before.remaining@[0].command,
                        )
                        &&& after.phase == ApplyPhase::Write
                    } else {
                        &&& next == Some(read_of(before.baseline))
                        &&& after.phase == ApplyPhase::ReadBack
                    }
                }
            },
            Ok(_) => {
                &&& after.outcome.state == before.outcome.state
                &&& after.outcome.applied == before.outcome.applied
                &&& after.outcome.error matches Some(e) && e@ == no_state_message()
                &&& after.phase == ApplyPhase::ReadBack
                &&& next == Some(read_of(before.baseline))
            },
            Err(e) => {
                &&& after.outcome.state == before.outcome.state
                &&& after.outcome.applied == before.outcome.applied
                &&& after.outcome.error == Some(e)
                &&& after.phase == ApplyPhase::ReadBack
                &&& next == Some(read_of(before.baseline))
            },
        },
        ApplyPhase::Write => {
            let accepted = match reply {
                Ok(ResponseData::Device { .. }) => true,
                Ok(ResponseData::Acknowledged) => before.in_flight_metadata,
                _ => false,
            };
            if accepted {
                &&& after.outcome.state == (match reply {
                    Ok(ResponseData::Device { device }) => Some(*device),
                    _ => before.outcome.state,
                })
                &&& after.outcome.applied@ == before.outcome.applied@ + before.in_flight@
                &&& after.outcome.error == before.outcome.error
                &&& if before.remaining@.len() > 0 {
                    &&& next == Some(before.remaining@[0].command)
                    &&& after.remaining@ == before.remaining@.drop_first()
                    &&& after.in_flight@ == before.remaining@[0].keys@
                    &&& after.in_flight_metadata == is_metadata_write(
                        before.remaining@[0].command,
                    )
                    &&& after.phase == ApplyPhase::Write
                } else {
                    &&& next == Some(read_of(before.baseline))
                    &&& after.phase == ApplyPhase::ReadBack
                }
            } else {
                &&& after.outcome.state == before.outcome.state
                &&& after.outcome.applied == before.outcome.applied
                &&& match reply {
                    Err(e) => after.outcome.error == Some(e),
                    _ => after.outcome.error matches Some(m) && m@ == unexpected_write_message(),
                }
                &&& after.phase == ApplyPhase::ReadBack
                &&& after.remaining == before.remaining
                &&& next == Some(read_of(before.baseline))
            }
        },
        ApplyPhase::ReadBack => {
            &&& next is None
            &&& after.phase == ApplyPhase::Done
            &&& after.outcome.applied == before.outcome.applied
            &&& match reply {
                Ok(ResponseData::Device { device }) => {
                    &&& after.outcome.state == Some(*device)
                    &&& after.outcome.error == before.outcome.error
                },
                _ => {
                    &&& after.outcome.state == before.outcome.state
                    &&& after.outcome.error matches Some(e) && e@ == read_back_message(
                        opt_view(before.outcome.error),
                        match reply {
                            Err(d) => d@,
                            _ => "unexpected agent response"@,
                        },
                    )
                },
            }
        },
        ApplyPhase::Done => {
            &&& next is None
            &&& after.phase == ApplyPhase::Done
            &&& after.outcome == before.outcome
        },
    }
}

/// A run that starts applying `changes`, planned from `baseline`, before any
/// answer: it waits for the checking read, with nothing applied.
pub open spec fn started(baseline: DeviceState, changes: Seq<Change>, run: ApplyRun) -> bool {
    &&& run.baseline == baseline
    &&& run.remaining@ == changes
    &&& run.phase == ApplyPhase::Check
    &&& run.outcome.state is None
    &&& run.outcome.applied@ == Seq::<Key>::empty()
    &&& run.outcome.error is None
}

/// The `i`-th turn of an application through `send`: the run `runs[i]` had
/// said to send `requests[i]`, `send` may answer it with `replies[i]`, and
/// that answer takes the run one `step` further, to `runs[i + 1]` and the
/// request `requests[i + 1]`, or to none.
pub open spec fn turn<F: FnMut(RequestCommand) -> Result<ResponseData, String>>(
    send: F,
    runs: Seq<ApplyRun>,
    requests: Seq<Option<RequestCommand>>,
    replies: Seq<Result<ResponseData, String>>,
    i: int,
) -> bool {
    &&& requests[i] is Some
    &&& call_ensures(send, (requests[i]->0,), replies[i])
    &&& steps_to(runs[i], replies[i], runs[i + 1], requests[i + 1])
}

/// The course of an application through `send`: it starts as `start` does,
/// with the read it asks for, and each answer is one turn.
pub open spec fn applies_through<F: FnMut(RequestCommand) -> Result<ResponseData, String>>(
    send: F,
    baseline: DeviceState,
    changes: Seq<Change>,
    runs: Seq<ApplyRun>,
    requests: Seq<Option<RequestCommand>>,
    replies: Seq<Result<ResponseData, String>>,
) -> bool {
    &&& runs.len() == replies.len() + 1
    &&& requests.len() == replies.len() + 1
    &&& started(baseline, changes, runs[0])
    &&& requests[0] == Some(read_of(baseline))
    &&& forall|i: int| 0 <= i < replies.len() ==> #[trigger] turn(send, runs, requests, replies, i)
}

/// The requests of a course, in the order they are sent: each run's request
/// but the last, which is none.
pub open spec fn sent_requests(requests: Seq<Option<RequestCommand>>) -> Seq<RequestCommand> {
    Seq::new((requests.len() - 1) as nat, |i: int| requests[i]->0)
}

impl ApplyRun {
    /// Starts applying `changes`, planned from `baseline`: the first request
    /// is a read of the device.
    pub fn start(baseline: DeviceState, changes: Vec<Change>) -> (r: (ApplyRun, RequestCommand))
        ensures
            started(baseline, changes@, r.0),
            r.1 == read_of(baseline),
    {
        let read = RequestCommand::GetDevice { device_id: baseline.device.id.clone() };
        let run = ApplyRun {
            baseline,
            remaining: changes,
            in_flight: Vec::new(),
            in_flight_metadata: false,
            phase: ApplyPhase::Check,
            outcome: ApplyOutcome { state: None, applied: Vec::new(), error: None },
        };
        (run, read)
    }

    fn read(&self) -> (r: RequestCommand)
        ensures
            r == read_of(self.baseline),
    {
        RequestCommand::GetDevice { device_id: self.baseline.device.id.clone() }
    }

    /// Sends the next write, or the final read when no write is left.
    fn send_next(&mut self) -> (r: Option<RequestCommand>)
        ensures
            final(self).baseline == old(self).baseline,
            final(self).outcome == old(self).outcome,
            old(self).remaining@.len() > 0 ==> {
                &&& r == Some(old(self).remaining@[0].command)
                &&& final(self).remaining@ == old(self).remaining@.drop_first()
                &&& final(self).in_flight@ == old(self).remaining@[0].keys@
                &&& final(self).in_flight_metadata == is_metadata_write(old(self).remaining@[0].command)
                &&& final(self).phase == ApplyPhase::Write
            },
            old(self).remaining@.len() == 0 ==> {
                &&& r == Some(read_of(old(self).baseline))
                &&& final(self).remaining == old(self).remaining
                &&& final(self).phase == ApplyPhase::ReadBack
            },
    {
        if self.remaining.len() == 0 {
            self.phase = ApplyPhase::ReadBack;
            return Some(self.read());
        }
        let change = self.remaining.remove(0);
        let metadata = match &change.command {
            RequestCommand::SetDeviceNickname { .. } | RequestCommand::SetDeviceColor { .. } => true,
            _ => false,
        };
        self.in_flight = change.keys;
        self.in_flight_metadata = metadata;
        self.phase = ApplyPhase::Write;
        Some(change.command)
    }

    /// Records a failure and moves on to the final read.
    fn fail(&mut self, message: String) -> (r: Option<RequestCommand>)
        ensures
            final(self).baseline == old(self).baseline,
            final(self).remaining == old(self).remaining,
            final(self).outcome.state == old(self).outcome.state,
            final(self).outcome.applied == old(self).outcome.applied,
            final(self).outcome.error == Some(message),
            final(self).phase == ApplyPhase::ReadBack,
            r == Some(read_of(old(self).baseline)),
    {
        self.outcome.error = Some(message);
        self.phase = ApplyPhase::ReadBack;
        Some(self.read())
    }

    /// Takes the agent's answer to the last request and says what to send
    /// next; `None` once the final read is answered.
    pub fn step(&mut self, reply: Result<ResponseData, String>) -> (r: Option<RequestCommand>)
        ensures
            steps_to(*old(self), reply, *final(self), r),
    {
        match self.phase {
            ApplyPhase::Check => match reply {
                Ok(ResponseData::Device { device }) => {
                    let changed = changed_since(&self.baseline, &device);
                    self.outcome.state = Some(*device);
                    if changed {
                        self.fail(owned(
                            "The device changed since it was read. Review the updated values, then apply again.",
                        ))
                    } else {
                        self.send_next()
                    }
                },
                Ok(_) => self.fail(owned("agent returned no device state")),
                Err(e) => self.fail(e),
            },
            ApplyPhase::Write => {
                let accepted = match &reply {
                    Ok(ResponseData::Device { .. }) => true,
                    Ok(ResponseData::Acknowledged) => self.in_flight_metadata,
                    _ => false,
                };
                if accepted {
                    if let Ok(ResponseData::Device { device }) = reply {
                        self.outcome.state = Some(*device);
                    }
                    let ghost before = self.outcome.applied@;
                    let mut keys = Vec::new();
                    std::mem::swap(&mut keys, &mut self.in_flight);
                    self.outcome.applied.append(&mut keys);
                    assert(self.outcome.applied@ == before + old(self).in_flight@);
                    self.send_next()
                } else {
                    match reply {
                        Err(e) => self.fail(e),
                        Ok(_) => self.fail(owned("agent returned an unexpected write response")),
                    }
                }
            },
            ApplyPhase::ReadBack => {
                self.phase = ApplyPhase::Done;
                match reply {
                    Ok(ResponseData::Device { device }) => {
                        self.outcome.state = Some(*device);
                    },
                    other => {
                        let mut message = match &self.outcome.error {
                            Some(e) => {
                                let mut m = e.clone();
                                push_str(&mut m, " ");
                                m
                            },
                            None => String::new(),
                        };
                        push_str(&mut message, "Device read-back failed: ");
                        match &other {
                            Err(d) => push_str(&mut message, d.as_str()),
                            Ok(_) => push_str(&mut message, "unexpected agent response"),
                        }
                        push_str(&mut message, ". Refresh before making more changes.");
                        proof {
                            let earlier = opt_view(old(self).outcome.error);
                            let detail = match other {
                                Err(d) => d@,
                                _ => "unexpected agent response"@,
                            };
                            assert(message@ =~= read_back_message(earlier, detail));
                        }
                        self.outcome.error = Some(message);
                    },
                }
                None
            },
            ApplyPhase::Done => None,
        }
    }

    /// What the application came to.
    pub fn finish(self) -> (r: ApplyOutcome)
        ensures
            r == self.outcome,
    {
        self.outcome
    }
}

/// Applies `changes`, planned from `baseline`, through `transport`: a read that
/// checks the device is unchanged, the writes in order until one fails, and a
/// final read whatever happened. Writes are no transaction: what succeeded is
/// reported as applied, and an error never rolls the state back to one the
/// agent did not report. The outcome is that of the last run of a course of
/// turns in which every request is what the run said to send and every
/// answer is one that the transport's function may give; the requests of that
/// course, and no others, are what is sent.
pub fn apply_with<F: FnMut(RequestCommand) -> Result<ResponseData, String>>(
    baseline: DeviceState,
    changes: Vec<Change>,
    transport: &mut Transport<F>,
) -> (r: ApplyOutcome)
    requires
        forall|c: RequestCommand| old(transport).sender().requires((c,)),
    ensures
        final(transport).sender() == old(transport).sender(),
        exists|k: int| 0 <= k <= changes@.len() && r.applied@ == keys_of(#[trigger] changes@.take(k)),
        r.error is None ==> r.applied@ == keys_of(changes@),
        exists|
            runs: Seq<ApplyRun>,
            requests: Seq<Option<RequestCommand>>,
            replies: Seq<Result<ResponseData, String>>,
        |
            #[trigger] applies_through(old(transport).sender(), baseline, changes@, runs, requests, replies)
                && requests.last() is None && r == runs.last().outcome && final(transport).sent() == old(
                transport,
            ).sent() + sent_requests(requests),
{
    let ghost all = changes@;
    let ghost entry = transport.sender();
    let ghost log = transport.sent();
    let ghost base = baseline;
    let (mut run, first) = ApplyRun::start(baseline, changes);
    let mut next = Some(first);
    let ghost mut runs: Seq<ApplyRun> = seq![run];
    let ghost mut requests: Seq<Option<RequestCommand>> = seq![next];
    let ghost mut replies: Seq<Result<ResponseData, String>> = Seq::empty();
    let ghost mut sent: int = 0;
    let ghost mut done: int = 0;
    proof {
        assert(all.take(0) =~= Seq::<Change>::empty());
        assert(all.skip(0) =~= all);
    }
    while next.is_some()
        invariant
            forall|c: RequestCommand| entry.requires((c,)),
            transport.sender() == entry,
            transport.sent() == log + sent_requests(requests),
            applies_through(entry, base, all, runs, requests, replies),
            runs.last() == run,
            requests.last() == next,
            0 <= done <= sent <= all.len(),
            run.remaining@ == all.skip(sent),
            run.outcome.applied@ == keys_of(all.take(done)),
            run.phase == ApplyPhase::Write ==> done == sent - 1 && run.in_flight@ == all[sent - 1].keys@,
            run.phase == ApplyPhase::Check ==> sent == 0 && run.outcome.error is None,
            (run.phase == ApplyPhase::ReadBack || run.phase == ApplyPhase::Done) && run.outcome.error is None
                ==> done == all.len(),
            next is None <==> run.phase == ApplyPhase::Done,
        decreases 2 * (all.len() - sent) + match run.phase {
            ApplyPhase::Check => 3int,
            ApplyPhase::Write => 2int,
            ApplyPhase::ReadBack => 1int,
            ApplyPhase::Done => 0int,
        },
    {
        let command = next.unwrap();
        let ghost gc = command;
        let reply = transport.send(command);
        let ghost gr = reply;
        let ghost before = run;
        next = run.step(reply);
        proof {
            assert(call_ensures(entry, (gc,), gr));
            let old_runs = runs;
            let old_requests = requests;
            let old_replies = replies;
            runs = runs.push(run);
            requests = requests.push(next);
            replies = replies.push(gr);
            assert forall|i: int| 0 <= i < replies.len() implies #[trigger] turn(
                entry,
                runs,
                requests,
                replies,
                i,
            ) by {
                if i < old_replies.len() {
                    assert(turn(entry, old_runs, old_requests, old_replies, i));
                } else {
                    assert(requests[i] == old_requests.last());
                    assert(runs[i] == before);
                }
            }
            assert(runs[0] == old_runs[0]);
            assert(requests[0] == old_requests[0]);
            assert(sent_requests(requests) =~= sent_requests(old_requests).push(gc));
            let accepted = match gr {
                Ok(ResponseData::Device { .. }) => true,
                Ok(ResponseData::Acknowledged) => before.in_flight_metadata,
                _ => false,
            };
            if before.phase == ApplyPhase::Write && accepted {
                assert(all.take(sent).drop_last() =~= all.take(sent - 1));
                assert(all.take(sent).last() == all[sent - 1]);
                done = sent;
            }
            if run.phase == ApplyPhase::Write {
                assert(before.remaining@.len() > 0);
                assert(before.remaining@[0] == all[sent]);
                assert(all.skip(sent).drop_first() =~= all.skip(sent + 1));
                sent = sent + 1;
            }
            if before.remaining@.len() == 0 {
                assert(all.skip(sent).len() == 0);
            }
        }
    }
    assert(all.take(all.len() as int) =~= all);
    assert(applies_through(entry, base, all, runs, requests, replies));
    run.finish()
}

/// The device list and the full state of every ready mouse.
pub struct Snapshot {
    pub devices: Vec<DeviceSummary>,
    pub states: Vec<DeviceState>,
}

/// The devices listed in an answer to a list request; any other answer is refused.
pub fn devices_of(reply: Result<ResponseData, String>) -> (r: Result<Vec<DeviceSummary>, String>)
    ensures
        match reply {
            Ok(ResponseData::Devices { devices }) => r == Ok::<Vec<DeviceSummary>, String>(devices),
            Ok(_) => r matches Err(e) && e@ == "agent returned an unexpected response to list_devices"@,
            Err(e) => r == Err::<Vec<DeviceSummary>, String>(e),
        },
{
    match reply {
        Ok(ResponseData::Devices { devices }) => Ok(devices),
        Ok(_) => Err(owned("agent returned an unexpected response to list_devices")),
        Err(e) => Err(e),
    }
}

/// The device state in an answer to a read; any other answer is refused.
pub fn state_of(reply: Result<ResponseData, String>) -> (r: Result<DeviceState, String>)
    ensures
        match reply {
            Ok(ResponseData::Device { device }) => r == Ok::<DeviceState, String>(*device),
            Ok(_) => r matches Err(e) && e@ == "agent returned an unexpected response to get_device"@,
            Err(e) => r == Err::<DeviceState, String>(e),
        },
{
    match reply {
        Ok(ResponseData::Device { device }) => Ok(*device),
        Ok(_) => Err(owned("agent returned an unexpected response to get_device")),
        Err(e) => Err(e),
    }
}

/// The ready devices of a list, in list order.
pub open spec fn ready_devices(devices: Seq<DeviceSummary>) -> Seq<DeviceSummary>
    decreases devices.len(),
{
    if devices.len() == 0 {
        Seq::empty()
    } else {
        ready_devices(devices.drop_last()) + if devices.last().ready {
            seq![devices.last()]
        } else {
            Seq::empty()
        }
    }
}

/// Whether `send` may answer the read of `device` with `state`.
pub open spec fn reads_as<F: FnMut(RequestCommand) -> Result<ResponseData, String>>(
    send: F,
    device: DeviceSummary,
    state: DeviceState,
) -> bool {
    exists|a: Result<ResponseData, String>|
        #[trigger] call_ensures(send, (RequestCommand::GetDevice { device_id: device.id },), a)
            && a == Ok::<ResponseData, String>(ResponseData::Device { device: Box::new(state) })
}

/// Whether an answer has the shape its request calls for: a device list for
/// the list request, a device state for a read.
pub open spec fn answer_fits(request: RequestCommand, reply: Result<ResponseData, String>) -> bool {
    match request {
        RequestCommand::ListDevices => reply matches Ok(ResponseData::Devices { .. }),
        RequestCommand::GetDevice { .. } => reply matches Ok(ResponseData::Device { .. }),
        _ => true,
    }
}

/// The refusal of an answer to the list request, or none when it lists
/// devices: the agent's own error, or the text for an answer of another kind.
pub open spec fn list_refusal(reply: Result<ResponseData, String>) -> Option<Seq<char>> {
    match reply {
        Ok(ResponseData::Devices { .. }) => None,
        Ok(_) => Some("agent returned an unexpected response to list_devices"@),
        Err(e) => Some(e@),
    }
}

/// The refusal of an answer to a read, or none when it holds a device.
pub open spec fn read_refusal(reply: Result<ResponseData, String>) -> Option<Seq<char>> {
    match reply {
        Ok(ResponseData::Device { .. }) => None,
        Ok(_) => Some("agent returned an unexpected response to get_device"@),
        Err(e) => Some(e@),
    }
}

/// `send` may answer the read of the `j`-th ready device before position `k`
/// of `devices` with a state.
pub open spec fn read_before<F: FnMut(RequestCommand) -> Result<ResponseData, String>>(
    send: F,
    devices: Seq<DeviceSummary>,
    k: int,
    j: int,
) -> bool {
    exists|state: DeviceState| reads_as(send, ready_devices(devices.take(k))[j], state)
}

/// A snapshot read through `send` was refused with `message`, the log of
/// requests going from `before` to `after`: either the answer to the list
/// request was refused, and nothing else was sent, or the read stopped at a
/// ready device after the reads before it.
pub open spec fn snapshot_refused<F: FnMut(RequestCommand) -> Result<ResponseData, String>>(
    send: F,
    before: Seq<RequestCommand>,
    after: Seq<RequestCommand>,
    message: Seq<char>,
) -> bool {
    ||| (exists|a: Result<ResponseData, String>|
        #[trigger] call_ensures(send, (RequestCommand::ListDevices,), a) && list_refusal(a) == Some(message))
        && after == before.push(RequestCommand::ListDevices)
    ||| exists|devices: Vec<DeviceSummary>, k: int|
        #[trigger] stops_at(send, devices, k, message) && after == before + stopped_reads(devices@, k)
}

/// The reads of `devices`, in order.
pub open spec fn reads_of(devices: Seq<DeviceSummary>) -> Seq<RequestCommand> {
    devices.map_values(|d: DeviceSummary| RequestCommand::GetDevice { device_id: d.id })
}

/// The requests of a snapshot read that stops at position `k` of `devices`:
/// the list request, the reads of the ready devices before `k`, and the read
/// of the device at `k`.
pub open spec fn stopped_reads(devices: Seq<DeviceSummary>, k: int) -> Seq<RequestCommand> {
    seq![RequestCommand::ListDevices] + reads_of(ready_devices(devices.take(k))).push(
        RequestCommand::GetDevice { device_id: devices[k].id },
    )
}

/// A snapshot read through `send` stops at the ready device at position `k`
/// of `devices` with `message`: `send` may answer the list request with
/// `devices`, every ready device before `k` with a state, and the read of
/// the device at `k` with an answer refused with `message`.
pub open spec fn stops_at<F: FnMut(RequestCommand) -> Result<ResponseData, String>>(
    send: F,
    devices: Vec<DeviceSummary>,
    k: int,
    message: Seq<char>,
) -> bool {
    &&& call_ensures(send, (RequestCommand::ListDevices,), Ok::<ResponseData, String>(ResponseData::Devices { devices }))
    &&& 0 <= k < devices@.len()
    &&& devices@[k].ready
    &&& forall|j: int| 0 <= j < ready_devices(devices@.take(k)).len() ==> #[trigger] read_before(send, devices@, k, j)
    &&& exists|a: Result<ResponseData, String>|
        #[trigger] call_ensures(send, (RequestCommand::GetDevice { device_id: devices@[k].id },), a)
            && read_refusal(a) == Some(message)
}

/// Reads the device list through `transport`, then the state of every ready
/// mouse, in list order; the first failure ends the read. Only these reads
/// are sent. The snapshot holds the list that was answered, and for each
/// ready mouse the state answered to its read. The read succeeds whenever
/// every answer the transport's function can give has the shape its request
/// calls for, and fails only on an answer that does not.
pub fn load_snapshot_with<F: FnMut(RequestCommand) -> Result<ResponseData, String>>(
    transport: &mut Transport<F>,
) -> (r: Result<Snapshot, String>)
    requires
        forall|c: RequestCommand| old(transport).sender().requires((c,)),
    ensures
        final(transport).sender() == old(transport).sender(),
        r matches Ok(s) ==> final(transport).sent() == old(transport).sent() + seq![RequestCommand::ListDevices]
            + reads_of(ready_devices(s.devices@)),
        r matches Ok(s) ==> {
            &&& call_ensures(
                old(transport).sender(),
                (RequestCommand::ListDevices,),
                Ok::<ResponseData, String>(ResponseData::Devices { devices: s.devices }),
            )
            &&& s.states@.len() == ready_devices(s.devices@).len()
            &&& forall|i: int|
                0 <= i < s.states@.len() ==> reads_as(old(transport).sender(), ready_devices(s.devices@)[i], #[trigger] s.states@[i])
        },
        (forall|c: RequestCommand, a: Result<ResponseData, String>| call_ensures(old(transport).sender(), (c,), a) ==> answer_fits(c, a))
            ==> r is Ok,
        r is Err ==> exists|c: RequestCommand, a: Result<ResponseData, String>| call_ensures(old(transport).sender(), (c,), a) && !answer_fits(c, a),
        r matches Err(e) ==> snapshot_refused(old(transport).sender(), old(transport).sent(), final(transport).sent(), e@),
{
    let ghost entry = transport.sender();
    let ghost log = transport.sent();
    let list = transport.send(RequestCommand::ListDevices);
    proof {
        assert(call_ensures(entry, (RequestCommand::ListDevices,), list));
    }
    let ghost first = list;
    let devices = match devices_of(list) {
        Ok(d) => {
            assert(first == Ok::<ResponseData, String>(ResponseData::Devices { devices: d }));
            d
        },
        Err(e) => {
            assert(!answer_fits(RequestCommand::ListDevices, first));
            assert(list_refusal(first) == Some(e@));
            assert(transport.sent() =~= log.push(RequestCommand::ListDevices));
            assert(snapshot_refused(entry, log, transport.sent(), e@));
            return Err(e);
        },
    };
    let mut states: Vec<DeviceState> = Vec::new();
    let mut failure: Option<String> = None;
    let mut i: usize = 0;
    while i < devices.len() && failure.is_none()
        invariant
            forall|c: RequestCommand| entry.requires((c,)),
            transport.sender() == entry,
            i <= devices.len(),
            failure is None ==> transport.sent() == log + seq![RequestCommand::ListDevices] + reads_of(
                ready_devices(devices@.take(i as int)),
            ),
            call_ensures(
                entry,
                (RequestCommand::ListDevices,),
                Ok::<ResponseData, String>(ResponseData::Devices { devices }),
            ),
            failure is None ==> states@.len() == ready_devices(devices@.take(i as int)).len(),
            failure is None ==> forall|j: int|
                0 <= j < states@.len() ==> reads_as(
                    entry,
                    ready_devices(devices@.take(i as int))[j],
                    #[trigger] states@[j],
                ),
            failure is Some ==> exists|c: RequestCommand, a: Result<ResponseData, String>|
                call_ensures(entry, (c,), a) && !answer_fits(c, a),
            failure matches Some(e) ==> exists|k: int| #[trigger] stops_at(entry, devices, k, e@)
                && transport.sent() == log + stopped_reads(devices@, k),
        decreases devices.len() - i,
    {
        proof {
            assert(devices@.take(i as int + 1).drop_last() =~= devices@.take(i as int));
            assert(devices@.take(i as int + 1).last() == devices@[i as int]);
        }
        if devices[i].ready {
            let read = RequestCommand::GetDevice { device_id: devices[i].id.clone() };
            let ghost g = read;
            let ghost log_before = transport.sent();
            let answer = transport.send(read);
            let ghost reply = answer;
            proof {
                assert(call_ensures(entry, (g,), reply));
                assert(reads_of(ready_devices(devices@.take(i as int + 1))) =~= reads_of(
                    ready_devices(devices@.take(i as int)),
                ).push(g));
            }
            match state_of(answer) {
                Ok(state) => {
                    proof {
                        assert(reply == Ok::<ResponseData, String>(
                            ResponseData::Device { device: Box::new(state) },
                        ));
                        assert(g == RequestCommand::GetDevice { device_id: devices@[i as int].id });
                        assert(reads_as(entry, devices@[i as int], state));
                    }
                    states.push(state);
                },
                Err(e) => {
                    assert(!answer_fits(g, reply));
                    proof {
                        assert(g == RequestCommand::GetDevice { device_id: devices@[i as int].id });
                        assert(read_refusal(reply) == Some(e@));
                        assert forall|j: int|
                            0 <= j < ready_devices(devices@.take(i as int)).len() implies #[trigger] read_before(
                                entry,
                                devices@,
                                i as int,
                                j,
                            ) by {
                            assert(reads_as(entry, ready_devices(devices@.take(i as int))[j], states@[j]));
                        }
                        assert(call_ensures(
                            entry,
                            (RequestCommand::GetDevice { device_id: devices@[i as int].id },),
                            reply,
                        ));
                        assert(devices@[i as int].ready);
                        assert(stops_at(entry, devices, i as int, e@));
                    }
                    let ghost message = e@;
                    failure = Some(e);
                    assert(failure matches Some(f) && f@ == message);
                    assert(stops_at(entry, devices, i as int, message));
                    assert(transport.sent() =~= log + stopped_reads(devices@, i as int));
                },
            }
        }
        i += 1;
    }
    if let Some(e) = failure {
        proof {
            let k = choose|k: int| #[trigger] stops_at(entry, devices, k, e@) && transport.sent() == log
                + stopped_reads(devices@, k);
            assert(stops_at(entry, devices, k, e@) && transport.sent() == log + stopped_reads(devices@, k));
            assert(snapshot_refused(entry, log, transport.sent(), e@));
        }
        return Err(e);
    }
    assert(devices@.take(devices@.len() as int) =~= devices@);
    Ok(Snapshot { devices, states })
}

/// Whether an answer acknowledges a saved order; any other answer is refused.
pub fn reorder_acknowledged(reply: Result<ResponseData, String>) -> (r: Result<(), String>)
    ensures
        match reply {
            Ok(ResponseData::Acknowledged) => r is Ok,
            Ok(_) => r matches Err(e) && e@ == "agent returned an unexpected response to reorder_devices"@,
            Err(e) => r == Err::<(), String>(e),
        },
{
    match reply {
        Ok(ResponseData::Acknowledged) => Ok(()),
        Ok(_) => Err(owned("agent returned an unexpected response to reorder_devices")),
        Err(e) => Err(e),
    }
}

} // verus!
