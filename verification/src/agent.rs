//! The decisions of the background agent: when to check batteries again, when a
//! device counts as newly unavailable, which stored preferences belong to a
//! device, what a command changes in them and which events it publishes.
use vstd::prelude::*;

use crate::keyed::KeyedMap;
use crate::protocol::{
    copy_opt_string, copy_string, AgentEvent, BunnyHoppingState, ConfigurationSource,
    DeviceAvailability, DeviceCapabilities, DeviceColor, DeviceConnection, DeviceState, DeviceSummary,
    ErrorCode, DeviceUnavailableReason, PollingRateState, RequestCommand,
    ResponseData, ResponseResult, ServerMessage, SettingsState,
};
use crate::protocol::Connection;
use crate::restore::{current_lod, rate_over, stored_rate_over};
use crate::store::{
    opt_view, resolves_to, BunnyHoppingPreference, ControlPreference, DevicePreferences,
    HostPreferences, LightingPreference, PollingPreference, SettingsStore, UsbIdentity,
    canonical_serial, default_color,
};
use crate::text::{
    chars_of, decimal, decimal_chars, owned, push_chars, push_str, string_of, trim, trim_chars,
};

verus! {

/// Bounds what a client can write into the settings file as a display name.
pub const MAX_NICKNAME_CHARS: usize = 64;

// ---------------------------------------------------------------------------
// Battery checks
// ---------------------------------------------------------------------------

/// When the next battery check is due after the interval changed from
/// `previous` to `next`: the last check was `previous` before `deadline`, or,
/// when that moment is not representable, `now`. Times are nanoseconds on a
/// monotonic clock.
pub open spec fn rescheduled_check(deadline: nat, previous: nat, next: nat, now: nat) -> int {
    (if deadline >= previous {
        deadline - previous
    } else {
        now as int
    }) + next
}

/// Moves a battery deadline so that it counts from the last check with the new
/// interval.
pub fn reschedule_battery_check(deadline: u64, previous: u64, next: u64, now: u64) -> (r: u64)
    requires
        rescheduled_check(deadline as nat, previous as nat, next as nat, now as nat) <= u64::MAX,
    ensures
        r == rescheduled_check(deadline as nat, previous as nat, next as nat, now as nat),
{
    let base = match deadline.checked_sub(previous) {
        Some(last) => last,
        None => now,
    };
    base + next
}

// ---------------------------------------------------------------------------
// Unavailable devices
// ---------------------------------------------------------------------------

/// A device that is present but cannot be used, and why.
#[derive(Clone, Debug, PartialEq, Eq)]
pub struct UnavailableDevice {
    pub reason: DeviceUnavailableReason,
    pub detail: String,
    pub hardware_id: Option<String>,
}

impl UnavailableDevice {
    /// The availability that clients are shown.
    pub fn availability(&self) -> (r: DeviceAvailability)
        ensures
            r matches DeviceAvailability::Unavailable { reason, detail } && reason == self.reason
                && detail == self.detail,
    {
        DeviceAvailability::Unavailable { reason: self.reason, detail: self.detail.clone() }
    }
}

/// An unavailable event is due when the device was not unavailable before, or
/// was so for another reason.
pub open spec fn unavailable_event_due(
    previous: Option<UnavailableDevice>,
    reason: DeviceUnavailableReason,
) -> bool {
    match previous {
        Some(p) => p.reason != reason,
        None => true,
    }
}

/// The hardware identity kept for an unavailable device: the new one, or the
/// one recorded before.
pub open spec fn kept_hardware_id(
    previous: Option<UnavailableDevice>,
    hardware_id: Option<String>,
) -> Option<String> {
    match hardware_id {
        Some(h) => Some(h),
        None => match previous {
            Some(p) => p.hardware_id,
            None => None,
        },
    }
}

/// The entry kept for `id` in a map, if there is one.
pub open spec fn entry_of<V>(m: Map<Seq<char>, V>, id: Seq<char>) -> Option<V> {
    if m.contains_key(id) {
        Some(m[id])
    } else {
        None
    }
}

/// Records that a device is unavailable, and says whether clients must hear of
/// it: only a new unavailability, or a change of its reason, is published.
pub fn record_unavailable(
    unavailable: &mut KeyedMap<UnavailableDevice>,
    device_id: &str,
    reason: DeviceUnavailableReason,
    detail: String,
    hardware_id: Option<String>,
) -> (r: Option<AgentEvent>)
    requires
        old(unavailable).wf(),
    ensures
        final(unavailable).wf(),
        final(unavailable)@ == old(unavailable)@.insert(
            device_id@,
            UnavailableDevice {
                reason,
                detail,
                hardware_id: kept_hardware_id(entry_of(old(unavailable)@, device_id@), hardware_id),
            },
        ),
        unavailable_event_due(entry_of(old(unavailable)@, device_id@), reason) <==> r is Some,
        r matches Some(e) ==> e matches AgentEvent::DeviceUnavailable {
            device_id: id,
            reason_code,
            reason: text,
        } && id@ == device_id@ && reason_code == Some(reason) && text == detail,
{
    let previous = unavailable.get(device_id);
    let changed = match previous {
        Some(p) => p.reason != reason,
        None => true,
    };
    let kept = match hardware_id {
        Some(h) => Some(h),
        None => match previous {
            Some(p) => copy_opt_string(&p.hardware_id),
            None => None,
        },
    };
    let event_detail = detail.clone();
    unavailable.insert(device_id, UnavailableDevice { reason, detail, hardware_id: kept });
    if changed {
        Some(
            AgentEvent::DeviceUnavailable {
                device_id: owned(device_id),
                reason_code: Some(reason),
                reason: event_detail,
            },
        )
    } else {
        None
    }
}

// ---------------------------------------------------------------------------
// Stored metadata of a device
// ---------------------------------------------------------------------------

/// The persistent identity of a device and what is stored for it.
pub struct ResolvedDeviceMetadata<'a> {
    pub hardware_id: Option<String>,
    pub preferences: Option<&'a DevicePreferences>,
}

/// Resolves the stored metadata of a device: a live hardware identity wins;
/// without one, the USB identity must resolve to exactly one stored device.
pub fn resolve_device_metadata<'a>(
    settings: &'a SettingsStore,
    usb_identity: &UsbIdentity,
    session_hardware_id: Option<&str>,
) -> (r: ResolvedDeviceMetadata<'a>)
    requires
        settings.wf(),
    ensures
        match session_hardware_id {
            Some(h) => {
                &&& opt_view(r.hardware_id) == Some(h@)
                &&& r.preferences == (if settings@.contains_key(h@) {
                    Some(&settings@[h@])
                } else {
                    None
                })
            },
            None => match r.hardware_id {
                Some(id) => resolves_to(settings@, *usb_identity, id@) && r.preferences == Some(
                    &settings@[id@],
                ),
                None => (forall|id: Seq<char>| !resolves_to(settings@, *usb_identity, id))
                    && r.preferences is None,
            },
        },
{
    match session_hardware_id {
        Some(hardware_id) => ResolvedDeviceMetadata {
            hardware_id: Some(owned(hardware_id)),
            preferences: settings.device(hardware_id),
        },
        None => match settings.resolve_device_by_usb_identity(usb_identity) {
            Some((hardware_id, preferences)) => ResolvedDeviceMetadata {
                hardware_id: Some(owned(hardware_id)),
                preferences: Some(preferences),
            },
            None => ResolvedDeviceMetadata { hardware_id: None, preferences: None },
        },
    }
}

/// Why a nickname was refused.
#[derive(Clone, Copy, Debug, PartialEq, Eq, Structural)]
pub enum NicknameError {
    TooLong,
}

impl NicknameError {
    /// The text of the refusal.
    pub fn message(&self) -> (r: String)
        ensures
            r@ == "nickname must be at most 64 characters"@,
    {
        owned("nickname must be at most 64 characters")
    }
}

/// The nickname to store for a request: blank names clear it, others are kept
/// without their surrounding white space.
pub open spec fn requested_nickname(nickname: Option<String>) -> Option<Seq<char>> {
    match nickname {
        Some(n) => if trim(n@).len() == 0 {
            None
        } else {
            Some(trim(n@))
        },
        None => None,
    }
}

/// The request names a nickname longer than the limit.
pub open spec fn nickname_too_long(nickname: Option<String>) -> bool {
    match nickname {
        Some(n) => trim(n@).len() > MAX_NICKNAME_CHARS,
        None => false,
    }
}

/// The preferences with another nickname.
pub open spec fn with_nickname(p: DevicePreferences, nickname: Option<String>) -> DevicePreferences {
    DevicePreferences { nickname, ..p }
}

/// What is stored for `id`, or nothing recorded.
pub open spec fn stored_or_empty(m: Map<Seq<char>, DevicePreferences>, id: Seq<char>) -> DevicePreferences {
    if m.contains_key(id) {
        m[id]
    } else {
        DevicePreferences::spec_empty()
    }
}

/// Stores a host-side display name for `hardware_id`; nothing is sent to the
/// device. A name over the limit is refused and changes nothing.
pub fn update_nickname(settings: &mut SettingsStore, hardware_id: &str, nickname: Option<String>) -> (r:
    Result<(), NicknameError>)
    requires
        old(settings).wf(),
    ensures
        final(settings).wf(),
        final(settings).spec_path() == old(settings).spec_path(),
        r is Err <==> nickname_too_long(nickname),
        r is Err ==> final(settings)@ == old(settings)@,
        r is Ok ==> {
            &&& final(settings)@.contains_key(hardware_id@)
            &&& opt_view(final(settings)@[hardware_id@].nickname) == requested_nickname(nickname)
            &&& final(settings)@ == old(settings)@.insert(
                hardware_id@,
                with_nickname(
                    stored_or_empty(old(settings)@, hardware_id@),
                    final(settings)@[hardware_id@].nickname,
                ),
            )
        },
{
    let value = match nickname {
        Some(name) => {
            let trimmed = trim_chars(&chars_of(name.as_str()));
            if trimmed.len() == 0 {
                None
            } else if trimmed.len() > MAX_NICKNAME_CHARS {
                return Err(NicknameError::TooLong);
            } else {
                Some(string_of(&trimmed))
            }
        },
        None => None,
    };
    let preferences = settings.device_mut(hardware_id);
    preferences.nickname = value;
    Ok(())
}

// ---------------------------------------------------------------------------
// Commands and what they publish
// ---------------------------------------------------------------------------

/// The device that a command addresses; host-side metadata commands address
/// none, so that a device can be renamed while it is still initializing.
pub open spec fn spec_command_device_id(c: RequestCommand) -> Option<Seq<char>> {
    match c {
        RequestCommand::GetDevice { device_id } => Some(device_id@),
        RequestCommand::SetDpi { device_id, .. } => Some(device_id@),
        RequestCommand::SetDpiAxes { device_id, .. } => Some(device_id@),
        RequestCommand::SetOnboardDpiStage { device_id, .. } => Some(device_id@),
        RequestCommand::SetMouseButtonMapping { device_id, .. } => Some(device_id@),
        RequestCommand::SetPollingRate { device_id, .. } => Some(device_id@),
        RequestCommand::SetLiftOffDistance { device_id, .. } => Some(device_id@),
        RequestCommand::SetSurfaceMode { device_id, .. } => Some(device_id@),
        RequestCommand::SetOperatingMode { device_id, .. } => Some(device_id@),
        RequestCommand::SetBunnyHopping { device_id, .. } => Some(device_id@),
        RequestCommand::SetLighting { device_id, .. } => Some(device_id@),
        RequestCommand::UseFirmwareLighting { device_id } => Some(device_id@),
        RequestCommand::UseHostSettings { device_id } => Some(device_id@),
        RequestCommand::UseOnboardProfile { device_id, .. } => Some(device_id@),
        _ => None,
    }
}

/// The device that a command addresses.
pub fn command_device_id(command: &RequestCommand) -> (r: Option<&str>)
    ensures
        match r {
            Some(id) => spec_command_device_id(*command) == Some(id@),
            None => spec_command_device_id(*command) is None,
        },
{
    match command {
        RequestCommand::GetDevice { device_id } => Some(device_id.as_str()),
        RequestCommand::SetDpi { device_id, .. } => Some(device_id.as_str()),
        RequestCommand::SetDpiAxes { device_id, .. } => Some(device_id.as_str()),
        RequestCommand::SetOnboardDpiStage { device_id, .. } => Some(device_id.as_str()),
        RequestCommand::SetMouseButtonMapping { device_id, .. } => Some(device_id.as_str()),
        RequestCommand::SetPollingRate { device_id, .. } => Some(device_id.as_str()),
        RequestCommand::SetLiftOffDistance { device_id, .. } => Some(device_id.as_str()),
        RequestCommand::SetSurfaceMode { device_id, .. } => Some(device_id.as_str()),
        RequestCommand::SetOperatingMode { device_id, .. } => Some(device_id.as_str()),
        RequestCommand::SetBunnyHopping { device_id, .. } => Some(device_id.as_str()),
        RequestCommand::SetLighting { device_id, .. } => Some(device_id.as_str()),
        RequestCommand::UseFirmwareLighting { device_id } => Some(device_id.as_str()),
        RequestCommand::UseHostSettings { device_id } => Some(device_id.as_str()),
        RequestCommand::UseOnboardProfile { device_id, .. } => Some(device_id.as_str()),
        _ => None,
    }
}

/// Commands that change a hardware setting and answer with a device snapshot.
pub open spec fn spec_changes_settings(c: RequestCommand) -> bool {
    match c {
        RequestCommand::Ping | RequestCommand::Shutdown | RequestCommand::ListDevices
        | RequestCommand::ListSavedDevices | RequestCommand::GetAppPreferences
        | RequestCommand::SetAppPreferences { .. } | RequestCommand::GetDevice { .. }
        | RequestCommand::Subscribe | RequestCommand::SubscribeSettings
        | RequestCommand::SetDeviceColor { .. } | RequestCommand::SetDeviceNickname { .. }
        | RequestCommand::ReorderDevices { .. } => false,
        _ => true,
    }
}

/// Whether a command changes a hardware setting.
pub fn command_changes_settings(command: &RequestCommand) -> (r: bool)
    ensures
        r == spec_changes_settings(*command),
{
    match command {
        RequestCommand::Ping | RequestCommand::Shutdown | RequestCommand::ListDevices
        | RequestCommand::ListSavedDevices | RequestCommand::GetAppPreferences
        | RequestCommand::SetAppPreferences { .. } | RequestCommand::GetDevice { .. }
        | RequestCommand::Subscribe | RequestCommand::SubscribeSettings
        | RequestCommand::SetDeviceColor { .. } | RequestCommand::SetDeviceNickname { .. }
        | RequestCommand::ReorderDevices { .. } => false,
        _ => true,
    }
}

/// Commands that change host-side metadata: colour, nickname or order.
pub open spec fn spec_changes_metadata(c: RequestCommand) -> bool {
    match c {
        RequestCommand::SetDeviceColor { .. } | RequestCommand::SetDeviceNickname { .. }
        | RequestCommand::ReorderDevices { .. } => true,
        _ => false,
    }
}

/// Whether a command changes host-side metadata.
pub fn command_changes_metadata(command: &RequestCommand) -> (r: bool)
    ensures
        r == spec_changes_metadata(*command),
{
    match command {
        RequestCommand::SetDeviceColor { .. } | RequestCommand::SetDeviceNickname { .. }
        | RequestCommand::ReorderDevices { .. } => true,
        _ => false,
    }
}

/// The response acknowledges a request.
pub open spec fn is_acknowledgement(response: ServerMessage) -> bool {
    response matches ServerMessage::Response {
        result: ResponseResult::Success { data: ResponseData::Acknowledged },
        ..
    }
}

/// A metadata command that the agent acknowledged.
pub fn metadata_change_acknowledged(command: &RequestCommand, response: &ServerMessage) -> (r: bool)
    ensures
        r == (spec_changes_metadata(*command) && is_acknowledgement(*response)),
{
    command_changes_metadata(command) && match response {
        ServerMessage::Response {
            result: ResponseResult::Success { data: ResponseData::Acknowledged },
            ..
        } => true,
        _ => false,
    }
}

/// The event that announces new host-side metadata for every device.
pub fn device_metadata_event(devices: Vec<DeviceSummary>) -> (r: AgentEvent)
    ensures
        r == (AgentEvent::DeviceMetadataChanged { devices }),
{
    AgentEvent::DeviceMetadataChanged { devices }
}

/// The settings event that a successful device response stands for.
pub open spec fn spec_settings_event(response: ServerMessage) -> Option<AgentEvent> {
    match response {
        ServerMessage::Response {
            result: ResponseResult::Success { data: ResponseData::Device { device } },
            ..
        } => Some(AgentEvent::SettingsChanged { device }),
        _ => None,
    }
}

/// Turns a successful device response into a settings event.
pub fn settings_event_from_response(response: ServerMessage) -> (r: Option<AgentEvent>)
    ensures
        r == spec_settings_event(response),
{
    match response {
        ServerMessage::Response {
            result: ResponseResult::Success { data: ResponseData::Device { device } },
            ..
        } => Some(AgentEvent::SettingsChanged { device }),
        _ => None,
    }
}

/// Maps a completed command to its events: a hardware change publishes its
/// settings event, an acknowledged metadata change one metadata event, built
/// only then, and anything else nothing.
pub fn response_publication_events<F: FnOnce() -> AgentEvent>(
    command: &RequestCommand,
    response: ServerMessage,
    build_metadata_event: F,
) -> (r: Vec<AgentEvent>)
    requires
        !spec_changes_settings(*command) && spec_changes_metadata(*command) && is_acknowledgement(response)
            ==> call_requires(build_metadata_event, ()),
    ensures
        spec_changes_settings(*command) ==> r@ == (match spec_settings_event(response) {
            Some(e) => seq![e],
            None => Seq::<AgentEvent>::empty(),
        }),
        !spec_changes_settings(*command) && spec_changes_metadata(*command) && is_acknowledgement(
            response,
        ) ==> r.len() == 1 && call_ensures(build_metadata_event, (), r@[0]),
        !spec_changes_settings(*command) && !(spec_changes_metadata(*command)
            && is_acknowledgement(response)) ==> r.len() == 0,
{
    if command_changes_settings(command) {
        let mut events: Vec<AgentEvent> = Vec::new();
        match settings_event_from_response(response) {
            Some(e) => {
                events.push(e);
            },
            None => {},
        }
        assert(events@ =~= (match spec_settings_event(response) {
            Some(e) => seq![e],
            None => Seq::<AgentEvent>::empty(),
        }));
        return events;
    }
    if metadata_change_acknowledged(command, &response) {
        let event = build_metadata_event();
        let mut events: Vec<AgentEvent> = Vec::new();
        events.push(event);
        return events;
    }
    Vec::new()
}

// ---------------------------------------------------------------------------
// What is stored after a command
// ---------------------------------------------------------------------------

/// The bytes of an optional byte list.
pub open spec fn bytes_view(o: Option<Vec<u8>>) -> Option<Seq<u8>> {
    match o {
        Some(v) => Some(v@),
        None => None,
    }
}

/// A copy of an optional byte list.
pub fn copy_opt_bytes(o: &Option<Vec<u8>>) -> (r: Option<Vec<u8>>)
    ensures
        bytes_view(r) == bytes_view(*o),
{
    match o {
        Some(v) => {
            let c = v.clone();
            assert(c@ =~= v@);
            Some(c)
        },
        None => None,
    }
}

/// The control that a device reports, or the recorded one when it reports none.
pub open spec fn synced_control(control: Option<ControlPreference>, settings: SettingsState) -> Option<
    ControlPreference,
> {
    match settings.configuration_source {
        Some(ConfigurationSource::Host) => Some(ControlPreference::Host),
        Some(ConfigurationSource::Onboard { active_profile: Some(profile) }) => Some(
            ControlPreference::Onboard { profile },
        ),
        _ => control,
    }
}

/// Records which side controls the configuration, as the device reports it.
pub fn sync_control_preference(preferences: &mut DevicePreferences, settings: &SettingsState)
    ensures
        *final(preferences) == (DevicePreferences {
            control: synced_control(old(preferences).control, *settings),
            ..*old(preferences)
        }),
{
    match settings.configuration_source {
        Some(ConfigurationSource::Host) => {
            preferences.control = Some(ControlPreference::Host);
        },
        Some(ConfigurationSource::Onboard { active_profile: Some(profile) }) => {
            preferences.control = Some(ControlPreference::Onboard { profile });
        },
        _ => {},
    }
}

/// The polling preference that a reported polling state stands for.
pub open spec fn polling_preference(polling: PollingRateState) -> Option<PollingPreference> {
    match polling {
        PollingRateState::Unsupported => None,
        PollingRateState::Shared { hz } => Some(PollingPreference::Shared { hz }),
        PollingRateState::PerConnection { wired_hz, wireless_hz } => Some(
            PollingPreference::PerConnection { wired_hz, wireless_hz },
        ),
    }
}

/// The polling preference that a reported polling state stands for.
pub fn polling_preference_from_protocol(polling: PollingRateState) -> (r: Option<PollingPreference>)
    ensures
        r == polling_preference(polling),
{
    match polling {
        PollingRateState::Unsupported => None,
        PollingRateState::Shared { hz } => Some(PollingPreference::Shared { hz }),
        PollingRateState::PerConnection { wired_hz, wireless_hz } => Some(
            PollingPreference::PerConnection { wired_hz, wireless_hz },
        ),
    }
}

/// The bunny-hopping preference that a reported state stands for.
pub open spec fn bunny_preference(state: Option<BunnyHoppingState>) -> Option<BunnyHoppingPreference> {
    match state {
        Some(b) => Some(BunnyHoppingPreference { enabled: b.enabled, timeout_ms: b.timeout_ms }),
        None => None,
    }
}

fn bunny_preference_of(state: Option<BunnyHoppingState>) -> (r: Option<BunnyHoppingPreference>)
    ensures
        r == bunny_preference(state),
{
    match state {
        Some(b) => Some(BunnyHoppingPreference { enabled: b.enabled, timeout_ms: b.timeout_ms }),
        None => None,
    }
}

/// The horizontal DPI that a device reports.
pub open spec fn reported_dpi_x(settings: SettingsState) -> Option<u16> {
    match settings.dpi {
        Some(d) => Some(d.current_x),
        None => None,
    }
}

/// The vertical DPI that a device reports.
pub open spec fn reported_dpi_y(settings: SettingsState) -> Option<u16> {
    match settings.dpi {
        Some(d) => d.current_y,
        None => None,
    }
}

/// The lift-off distance that a device reports.
pub open spec fn reported_lod(settings: SettingsState) -> Option<crate::protocol::LiftOffDistance> {
    match settings.dpi {
        Some(d) => d.lift_off_distance,
        None => None,
    }
}

/// The host settings worth restoring, out of what a device reports and supports;
/// `button_mapping` stands for the reported button mapping.
pub open spec fn supported_host_preferences(
    capabilities: DeviceCapabilities,
    settings: SettingsState,
    button_mapping: Option<Vec<u8>>,
) -> HostPreferences {
    HostPreferences {
        dpi: if capabilities.supported_dpi is Some {
            reported_dpi_x(settings)
        } else {
            None
        },
        dpi_y: reported_dpi_y(settings),
        button_mapping,
        polling_rate: polling_preference(settings.polling_rate),
        lift_off_distance: if capabilities.lift_off_distance {
            reported_lod(settings)
        } else {
            None
        },
        surface_mode: if capabilities.surface_mode {
            settings.surface_mode
        } else {
            None
        },
        operating_mode: if capabilities.operating_mode_switch {
            settings.operating_mode
        } else {
            None
        },
        bunny_hopping: if capabilities.bunny_hopping {
            bunny_preference(settings.bunny_hopping)
        } else {
            None
        },
    }
}

/// The host settings of a device snapshot, the reported button mapping included.
pub fn capture_protocol_host_preferences(device: &DeviceState) -> (r: HostPreferences)
    ensures
        r == supported_host_preferences(device.capabilities, device.settings, r.button_mapping),
        bytes_view(r.button_mapping) == bytes_view(device.settings.mouse_button_mapping),
{
    capture_host_preferences_with(
        &device.capabilities,
        &device.settings,
        copy_opt_bytes(&device.settings.mouse_button_mapping),
    )
}

/// The host settings of a freshly opened device; the button mapping is
/// recorded only once the user changes it.
pub fn capture_host_preferences(capabilities: &DeviceCapabilities, settings: &SettingsState) -> (r:
    HostPreferences)
    ensures
        r == supported_host_preferences(*capabilities, *settings, None),
{
    capture_host_preferences_with(capabilities, settings, None)
}

fn capture_host_preferences_with(
    capabilities: &DeviceCapabilities,
    settings: &SettingsState,
    button_mapping: Option<Vec<u8>>,
) -> (r: HostPreferences)
    ensures
        r == supported_host_preferences(*capabilities, *settings, button_mapping),
{
    let (dpi_x, dpi_y, lod) = match settings.dpi {
        Some(d) => (Some(d.current_x), d.current_y, d.lift_off_distance),
        None => (None, None, None),
    };
    HostPreferences {
        dpi: if capabilities.supported_dpi.is_some() {
            dpi_x
        } else {
            None
        },
        dpi_y,
        button_mapping,
        polling_rate: polling_preference_from_protocol(settings.polling_rate),
        lift_off_distance: if capabilities.lift_off_distance {
            lod
        } else {
            None
        },
        surface_mode: if capabilities.surface_mode {
            settings.surface_mode
        } else {
            None
        },
        operating_mode: if capabilities.operating_mode_switch {
            settings.operating_mode
        } else {
            None
        },
        bunny_hopping: if capabilities.bunny_hopping {
            bunny_preference_of(settings.bunny_hopping)
        } else {
            None
        },
    }
}

/// The control that a freshly opened device reports.
pub open spec fn reported_control(settings: SettingsState) -> Option<ControlPreference> {
    synced_control(None, settings)
}

/// What is first stored for a device that has nothing stored yet: who controls
/// it, and, under host control, the host settings it supports.
pub open spec fn initial_preferences(capabilities: DeviceCapabilities, settings: SettingsState) -> DevicePreferences {
    DevicePreferences {
        control: reported_control(settings),
        host: if reported_control(settings) == Some(ControlPreference::Host) {
            supported_host_preferences(capabilities, settings, None)
        } else {
            HostPreferences::spec_empty()
        },
        ..DevicePreferences::spec_empty()
    }
}

/// The preferences first stored for a device.
pub fn capture_device_preferences(capabilities: &DeviceCapabilities, settings: &SettingsState) -> (r:
    DevicePreferences)
    ensures
        r == initial_preferences(*capabilities, *settings),
{
    let control = match settings.configuration_source {
        Some(ConfigurationSource::Host) => Some(ControlPreference::Host),
        Some(ConfigurationSource::Onboard { active_profile: Some(profile) }) => Some(
            ControlPreference::Onboard { profile },
        ),
        _ => None,
    };
    let host = match control {
        Some(ControlPreference::Host) => capture_host_preferences(capabilities, settings),
        _ => HostPreferences::empty(),
    };
    let mut r = DevicePreferences::empty();
    r.control = control;
    r.host = host;
    r
}

/// The preferences after `command` succeeded with `device` as the verified
/// result; `button_mapping` stands for the reported button mapping.
pub open spec fn updated_preferences(
    p: DevicePreferences,
    command: RequestCommand,
    device: DeviceState,
    button_mapping: Option<Vec<u8>>,
) -> DevicePreferences {
    let synced = DevicePreferences { control: synced_control(p.control, device.settings), ..p };
    match command {
        RequestCommand::SetDpi { .. } | RequestCommand::SetDpiAxes { .. } => DevicePreferences {
            host: HostPreferences {
                dpi: reported_dpi_x(device.settings),
                dpi_y: reported_dpi_y(device.settings),
                ..p.host
            },
            ..synced
        },
        RequestCommand::SetOnboardDpiStage { .. } => DevicePreferences {
            onboard_dpi_stage: device.settings.onboard_dpi_stage,
            ..synced
        },
        RequestCommand::SetMouseButtonMapping { .. } => DevicePreferences {
            host: HostPreferences { button_mapping, ..p.host },
            ..synced
        },
        RequestCommand::SetPollingRate { .. } => DevicePreferences {
            host: HostPreferences {
                polling_rate: polling_preference(device.settings.polling_rate),
                ..p.host
            },
            ..synced
        },
        RequestCommand::SetLiftOffDistance { .. } => DevicePreferences {
            host: HostPreferences { lift_off_distance: reported_lod(device.settings), ..p.host },
            ..synced
        },
        RequestCommand::SetSurfaceMode { .. } => DevicePreferences {
            host: HostPreferences { surface_mode: device.settings.surface_mode, ..p.host },
            ..synced
        },
        RequestCommand::SetOperatingMode { .. } => DevicePreferences {
            host: HostPreferences { operating_mode: device.settings.operating_mode, ..p.host },
            ..synced
        },
        RequestCommand::SetBunnyHopping { .. } => DevicePreferences {
            host: HostPreferences {
                bunny_hopping: bunny_preference(device.settings.bunny_hopping),
                ..p.host
            },
            ..synced
        },
        RequestCommand::SetLighting { zone, effect, .. } => DevicePreferences {
            lighting: Some(LightingPreference::Software { zone, effect }),
            ..p
        },
        RequestCommand::UseFirmwareLighting { .. } => DevicePreferences {
            lighting: Some(LightingPreference::Firmware),
            ..p
        },
        RequestCommand::UseHostSettings { .. } => DevicePreferences {
            control: Some(ControlPreference::Host),
            host: supported_host_preferences(device.capabilities, device.settings, button_mapping),
            ..p
        },
        RequestCommand::UseOnboardProfile { profile, .. } => DevicePreferences {
            control: Some(ControlPreference::Onboard { profile }),
            onboard_dpi_stage: device.settings.onboard_dpi_stage,
            ..p
        },
        _ => p,
    }
}

/// The commands that record the reported button mapping.
pub open spec fn records_button_mapping(command: RequestCommand) -> bool {
    command is SetMouseButtonMapping || command is UseHostSettings
}

/// Records in `preferences` what a successful `command` changed, as `device`
/// reports it after the change. Host settings survive a switch to an onboard
/// profile, and host-side metadata is never touched.
pub fn update_preferences(
    preferences: &mut DevicePreferences,
    command: &RequestCommand,
    device: &DeviceState,
)
    ensures
        *final(preferences) == updated_preferences(
            *old(preferences),
            *command,
            *device,
            final(preferences).host.button_mapping,
        ),
        records_button_mapping(*command) ==> bytes_view(final(preferences).host.button_mapping)
            == bytes_view(device.settings.mouse_button_mapping),
{
    match command {
        RequestCommand::SetDpi { .. } | RequestCommand::SetDpiAxes { .. } => {
            sync_control_preference(preferences, &device.settings);
            let (x, y) = match device.settings.dpi {
                Some(d) => (Some(d.current_x), d.current_y),
                None => (None, None),
            };
            preferences.host.dpi = x;
            preferences.host.dpi_y = y;
        },
        RequestCommand::SetOnboardDpiStage { .. } => {
            sync_control_preference(preferences, &device.settings);
            preferences.onboard_dpi_stage = device.settings.onboard_dpi_stage;
        },
        RequestCommand::SetMouseButtonMapping { .. } => {
            sync_control_preference(preferences, &device.settings);
            preferences.host.button_mapping = copy_opt_bytes(&device.settings.mouse_button_mapping);
        },
        RequestCommand::SetPollingRate { .. } => {
            sync_control_preference(preferences, &device.settings);
            preferences.host.polling_rate = polling_preference_from_protocol(
                device.settings.polling_rate,
            );
        },
        RequestCommand::SetLiftOffDistance { .. } => {
            sync_control_preference(preferences, &device.settings);
            preferences.host.lift_off_distance = match device.settings.dpi {
                Some(d) => d.lift_off_distance,
                None => None,
            };
        },
        RequestCommand::SetSurfaceMode { .. } => {
            sync_control_preference(preferences, &device.settings);
            preferences.host.surface_mode = device.settings.surface_mode;
        },
        RequestCommand::SetOperatingMode { .. } => {
            sync_control_preference(preferences, &device.settings);
            preferences.host.operating_mode = device.settings.operating_mode;
        },
        RequestCommand::SetBunnyHopping { .. } => {
            sync_control_preference(preferences, &device.settings);
            preferences.host.bunny_hopping = bunny_preference_of(device.settings.bunny_hopping);
        },
        RequestCommand::SetLighting { zone, effect, .. } => {
            preferences.lighting = Some(LightingPreference::Software { zone: *zone, effect: *effect });
        },
        RequestCommand::UseFirmwareLighting { .. } => {
            preferences.lighting = Some(LightingPreference::Firmware);
        },
        RequestCommand::UseHostSettings { .. } => {
            preferences.control = Some(ControlPreference::Host);
            preferences.host = capture_protocol_host_preferences(device);
        },
        RequestCommand::UseOnboardProfile { profile, .. } => {
            preferences.control = Some(ControlPreference::Onboard { profile: *profile });
            preferences.onboard_dpi_stage = device.settings.onboard_dpi_stage;
        },
        _ => {},
    }
}

/// The refusal when a setting command is answered without a device.
pub open spec fn no_snapshot_text() -> Seq<char> {
    "a setting command returned no device snapshot"@
}

/// The refusal when a device has no identity to store settings under.
pub open spec fn no_identity_text() -> Seq<char> {
    "the device has no persistent HID++ hardware identity"@
}

/// Records in `settings` what a successful command changed, under the
/// device's hardware identity, and says whether anything was recorded (and
/// so is to be saved). Commands that change no hardware setting record
/// nothing; a setting command must be answered with the device, and the
/// device must have an identity.
pub fn remember_command(settings: &mut SettingsStore, command: &RequestCommand, response: &ResponseData) -> (r:
    Result<bool, String>)
    requires
        old(settings).wf(),
    ensures
        final(settings).wf(),
        final(settings).spec_path() == old(settings).spec_path(),
        !spec_changes_settings(*command) ==> r == Ok::<bool, String>(false) && final(settings)@ == old(settings)@,
        spec_changes_settings(*command) ==> match *response {
            ResponseData::Device { device } => match device.device.hardware_id {
                None => r matches Err(e) && e@ == no_identity_text() && final(settings)@ == old(settings)@,
                Some(h) => {
                    &&& r == Ok::<bool, String>(true)
                    &&& final(settings)@ == old(settings)@.insert(h@, final(settings)@[h@])
                    &&& final(settings)@[h@] == updated_preferences(
                        stored_or_empty(old(settings)@, h@),
                        *command,
                        *device,
                        final(settings)@[h@].host.button_mapping,
                    )
                    &&& (records_button_mapping(*command) ==> bytes_view(final(settings)@[h@].host.button_mapping)
                        == bytes_view(device.settings.mouse_button_mapping))
                },
            },
            _ => r matches Err(e) && e@ == no_snapshot_text() && final(settings)@ == old(settings)@,
        },
{
    if !command_changes_settings(command) {
        return Ok(false);
    }
    let device = match response {
        ResponseData::Device { device } => device,
        _ => return Err(owned("a setting command returned no device snapshot")),
    };
    let hardware_id = match &device.device.hardware_id {
        Some(h) => h,
        None => return Err(owned("the device has no persistent HID++ hardware identity")),
    };
    let preferences = settings.device_mut(hardware_id.as_str());
    update_preferences(preferences, command, device);
    Ok(true)
}

/// The refusal of a polling-rate write while an onboard profile is in charge.
pub open spec fn onboard_polling_text() -> Seq<char> {
    "an onboard profile controls polling; set disable_onboard_profiles=true to switch to host control"@
}

/// Whether a polling-rate write must first take host control: under an
/// onboard profile it must, and only when the request allows it; otherwise
/// the request is refused.
pub fn polling_takes_host_control(source: Option<ConfigurationSource>, disable_onboard_profiles: bool) -> (r:
    Result<bool, String>)
    ensures
        match source {
            Some(ConfigurationSource::Onboard { .. }) => if disable_onboard_profiles {
                r == Ok::<bool, String>(true)
            } else {
                r matches Err(e) && e@ == onboard_polling_text()
            },
            _ => r == Ok::<bool, String>(false),
        },
{
    match source {
        Some(ConfigurationSource::Onboard { .. }) => if disable_onboard_profiles {
            Ok(true)
        } else {
            Err(owned(
                "an onboard profile controls polling; set disable_onboard_profiles=true to switch to host control",
            ))
        },
        _ => Ok(false),
    }
}

/// Whether what is cached for a device already names this model and USB
/// identity: no name reported, or the same one, and the same identity.
pub open spec fn identity_known(preferences: DevicePreferences, display_name: Option<Seq<char>>, identity: UsbIdentity) -> bool {
    &&& (display_name is None || opt_view(preferences.cached_model_name) == display_name)
    &&& preferences.usb_identity matches Some(i) && i.key() == identity.key()
}

/// Caches the model name a device reported and the USB identity it was seen
/// with, to recognise it while it sleeps; says whether anything changed (and
/// so is to be saved).
pub fn remember_identity(preferences: &mut DevicePreferences, display_name: Option<&str>, identity: UsbIdentity) -> (r:
    bool)
    ensures
        r == !identity_known(*old(preferences), opt_str_view(display_name), identity),
        r ==> {
            &&& opt_view(final(preferences).cached_model_name) == (match display_name {
                Some(n) => Some(n@),
                None => opt_view(old(preferences).cached_model_name),
            })
            &&& final(preferences).usb_identity == Some(identity)
            &&& final(preferences).control == old(preferences).control
            &&& final(preferences).onboard_dpi_stage == old(preferences).onboard_dpi_stage
            &&& final(preferences).host == old(preferences).host
            &&& final(preferences).lighting == old(preferences).lighting
            &&& final(preferences).nickname == old(preferences).nickname
            &&& final(preferences).color == old(preferences).color
            &&& final(preferences).sort_order == old(preferences).sort_order
        },
        !r ==> *final(preferences) == *old(preferences),
{
    let name_matches = match display_name {
        None => true,
        Some(n) => match &preferences.cached_model_name {
            Some(cached) => crate::text::str_eq(cached.as_str(), n),
            None => false,
        },
    };
    let same_identity = match &preferences.usb_identity {
        Some(i) => crate::store::identities_equal(i, &identity),
        None => false,
    };
    if name_matches && same_identity {
        return false;
    }
    if let Some(n) = display_name {
        preferences.cached_model_name = Some(owned(n));
    }
    preferences.usb_identity = Some(identity);
    true
}

// ---------------------------------------------------------------------------
// The order in which devices are listed
// ---------------------------------------------------------------------------

/// Stored positions in listing order: every position comes before no position.
pub open spec fn order_le(a: Option<u32>, b: Option<u32>) -> bool {
    match (a, b) {
        (Some(x), Some(y)) => x <= y,
        (Some(_), None) => true,
        (None, Some(_)) => false,
        (None, None) => true,
    }
}

fn order_le_exec(a: Option<u32>, b: Option<u32>) -> (r: bool)
    ensures
        r == order_le(a, b),
{
    match (a, b) {
        (Some(x), Some(y)) => x <= y,
        (Some(_), None) => true,
        (None, Some(_)) => false,
        (None, None) => true,
    }
}

/// Where a device goes in an ordered list: after the last device whose
/// position does not come after its own.
pub open spec fn insert_position(s: Seq<DeviceSummary>, x: DeviceSummary) -> int
    decreases s.len(),
{
    if s.len() == 0 {
        0
    } else if order_le(s.last().sort_order, x.sort_order) {
        s.len() as int
    } else {
        insert_position(s.drop_last(), x)
    }
}

/// The devices in user order: by stored position, and in discovery order among
/// equal positions and among the devices without one (a stable sort).
pub open spec fn user_ordered(s: Seq<DeviceSummary>) -> Seq<DeviceSummary>
    decreases s.len(),
{
    if s.len() == 0 {
        s
    } else {
        let t = user_ordered(s.drop_last());
        t.insert(insert_position(t, s.last()), s.last())
    }
}

proof fn lemma_insert_position_bounds(s: Seq<DeviceSummary>, x: DeviceSummary)
    ensures
        0 <= insert_position(s, x) <= s.len(),
    decreases s.len(),
{
    if s.len() > 0 {
        lemma_insert_position_bounds(s.drop_last(), x);
    }
}

/// Orders devices by their stored position; devices without one keep
/// discovery order behind the ordered ones.
pub fn sort_by_user_order(devices: &mut Vec<DeviceSummary>)
    ensures
        final(devices)@ == user_ordered(old(devices)@),
{
    let mut rest: Vec<DeviceSummary> = Vec::new();
    std::mem::swap(devices, &mut rest);
    let ghost all = rest@;
    assert(all.len() == rest.len());
    let mut i: usize = 0;
    assert(all.take(0) =~= Seq::<DeviceSummary>::empty());
    while rest.len() > 0
        invariant
            i + rest.len() == all.len(),
            i <= all.len(),
            all.len() <= usize::MAX,
            rest@ == all.skip(i as int),
            devices@ == user_ordered(all.take(i as int)),
            all == old(devices)@,
        decreases rest.len(),
    {
        let x = rest.remove(0);
        proof {
            assert(all[i as int] == x);
            assert(all.take(i as int + 1).drop_last() =~= all.take(i as int));
            assert(rest@ =~= all.skip(i as int + 1));
        }
        let mut j: usize = devices.len();
        assert(devices@.take(j as int) =~= devices@);
        while j > 0 && !order_le_exec(devices[j - 1].sort_order, x.sort_order)
            invariant
                j <= devices.len(),
                insert_position(devices@, x) == insert_position(devices@.take(j as int), x),
            decreases j,
        {
            assert(devices@.take(j as int).drop_last() =~= devices@.take(j as int - 1));
            j -= 1;
        }
        proof {
            if j == 0 {
                assert(devices@.take(0) =~= Seq::<DeviceSummary>::empty());
            } else {
                assert(devices@.take(j as int).last() == devices@[j as int - 1]);
            }
        }
        devices.insert(j, x);
        i += 1;
    }
    assert(all.take(i as int) =~= all);
}

// ---------------------------------------------------------------------------
// Laws of the user order
// ---------------------------------------------------------------------------

/// The list is in listing order of the stored positions.
pub open spec fn is_user_ordered(s: Seq<DeviceSummary>) -> bool {
    forall|i: int, j: int|
        0 <= i < j < s.len() ==> order_le(#[trigger] s[i].sort_order, #[trigger] s[j].sort_order)
}

proof fn lemma_insert_position_split(t: Seq<DeviceSummary>, x: DeviceSummary)
    requires
        is_user_ordered(t),
    ensures
        forall|i: int|
            0 <= i < insert_position(t, x) ==> order_le(#[trigger] t[i].sort_order, x.sort_order),
        forall|i: int|
            insert_position(t, x) <= i < t.len() ==> !order_le(#[trigger] t[i].sort_order, x.sort_order),
    decreases t.len(),
{
    if t.len() > 0 {
        let u = t.drop_last();
        assert(is_user_ordered(u)) by {
            assert forall|i: int, j: int| 0 <= i < j < u.len() implies order_le(
                #[trigger] u[i].sort_order,
                #[trigger] u[j].sort_order,
            ) by {
                assert(u[i] == t[i] && u[j] == t[j]);
            }
        }
        lemma_insert_position_split(u, x);
        lemma_insert_position_bounds(u, x);
        if order_le(t.last().sort_order, x.sort_order) {
            assert forall|i: int| 0 <= i < t.len() implies order_le(
                #[trigger] t[i].sort_order,
                x.sort_order,
            ) by {
                if i < t.len() - 1 {
                    assert(order_le(t[i].sort_order, t[t.len() - 1].sort_order));
                }
            }
        } else {
            assert forall|i: int| 0 <= i < insert_position(t, x) implies order_le(
                #[trigger] t[i].sort_order,
                x.sort_order,
            ) by {
                assert(t[i] == u[i]);
            }
            assert forall|i: int| insert_position(t, x) <= i < t.len() implies !order_le(
                #[trigger] t[i].sort_order,
                x.sort_order,
            ) by {
                if i < t.len() - 1 {
                    assert(t[i] == u[i]);
                }
            }
        }
    }
}

/// Listing in user order gives a list in listing order of the stored positions.
pub proof fn law_user_order_is_sorted(s: Seq<DeviceSummary>)
    ensures
        is_user_ordered(user_ordered(s)),
    decreases s.len(),
{
    if s.len() > 0 {
        let t = user_ordered(s.drop_last());
        let x = s.last();
        law_user_order_is_sorted(s.drop_last());
        lemma_insert_position_split(t, x);
        lemma_insert_position_bounds(t, x);
        let p = insert_position(t, x);
        let r = t.insert(p, x);
        assert forall|i: int, j: int| 0 <= i < j < r.len() implies order_le(
            #[trigger] r[i].sort_order,
            #[trigger] r[j].sort_order,
        ) by {
            if j < p {
                assert(r[i] == t[i] && r[j] == t[j]);
            } else if j == p {
                assert(r[i] == t[i]);
            } else if i < p {
                assert(r[i] == t[i] && r[j] == t[j - 1]);
                assert(order_le(t[i].sort_order, x.sort_order));
                assert(!order_le(t[j - 1].sort_order, x.sort_order));
            } else if i == p {
                assert(r[j] == t[j - 1]);
                assert(!order_le(t[j - 1].sort_order, x.sort_order));
            } else {
                assert(r[i] == t[i - 1] && r[j] == t[j - 1]);
            }
        }
    }
}

/// Listing in user order keeps every device, each as often as before.
pub proof fn law_user_order_is_permutation(s: Seq<DeviceSummary>)
    ensures
        user_ordered(s).to_multiset() == s.to_multiset(),
    decreases s.len(),
{
    broadcast use vstd::seq_lib::group_to_multiset_ensures;

    if s.len() == 0 {
    } else {
        let t = user_ordered(s.drop_last());
        law_user_order_is_permutation(s.drop_last());
        lemma_insert_position_bounds(t, s.last());
        assert(s.drop_last().push(s.last()) =~= s);
    }
}

/// The devices without a stored position.
pub open spec fn unordered_devices() -> spec_fn(DeviceSummary) -> bool {
    |d: DeviceSummary| d.sort_order is None
}

/// Devices without a stored position keep their discovery order.
pub proof fn law_unordered_devices_keep_discovery_order(s: Seq<DeviceSummary>)
    ensures
        user_ordered(s).filter(unordered_devices()) == s.filter(unordered_devices()),
    decreases s.len(),
{
    reveal_with_fuel(Seq::filter, 2);
    if s.len() > 0 {
        let u = s.drop_last();
        let t = user_ordered(u);
        let x = s.last();
        law_unordered_devices_keep_discovery_order(u);
        lemma_insert_position_bounds(t, x);
        let p = insert_position(t, x);
        if x.sort_order is None {
            if t.len() > 0 {
                assert(order_le(t.last().sort_order, x.sort_order));
            }
            assert(t.insert(p, x) =~= t.push(x));
            assert(t.push(x).drop_last() =~= t);
        } else {
            assert(t.insert(p, x) =~= t.take(p) + seq![x] + t.skip(p));
            assert(t =~= t.take(p) + t.skip(p));
            Seq::filter_distributes_over_add(t.take(p) + seq![x], t.skip(p), unordered_devices());
            Seq::filter_distributes_over_add(t.take(p), seq![x], unordered_devices());
            Seq::filter_distributes_over_add(t.take(p), t.skip(p), unordered_devices());
            assert(seq![x].drop_last() =~= Seq::<DeviceSummary>::empty());
            assert(seq![x].filter(unordered_devices()) =~= Seq::<DeviceSummary>::empty());
            assert(t.take(p).filter(unordered_devices()) + Seq::<DeviceSummary>::empty()
                =~= t.take(p).filter(unordered_devices()));
        }
    }
}

// ---------------------------------------------------------------------------
// Device summaries
// ---------------------------------------------------------------------------

/// What the device manager knows of a device before it is opened.
#[derive(Clone, Debug, PartialEq, Eq)]
pub struct ManagedDevice {
    pub id: String,
    pub vendor_id: u16,
    pub product_id: u16,
    pub product_name: Option<String>,
    pub serial_number: Option<String>,
    pub connection: DeviceConnection,
    pub device_index: u8,
}

/// The USB identity of a managed device.
pub fn usb_identity(device: &ManagedDevice) -> (r: UsbIdentity)
    ensures
        r == (UsbIdentity {
            vendor_id: device.vendor_id,
            product_id: device.product_id,
            device_index: device.device_index,
            serial_number: canonical_serial(device.serial_number),
        }),
{
    UsbIdentity::new(
        device.vendor_id,
        device.product_id,
        device.device_index,
        copy_opt_string(&device.serial_number),
    )
}

/// The characters of an optional borrowed string.
pub open spec fn opt_str_view(o: Option<&str>) -> Option<Seq<char>> {
    match o {
        Some(s) => Some(s@),
        None => None,
    }
}

fn owned_opt(o: Option<&str>) -> (r: Option<String>)
    ensures
        opt_view(r) == opt_str_view(o),
{
    match o {
        Some(s) => Some(owned(s)),
        None => None,
    }
}

/// The name shown for a device: a live name wins; the cached model name keeps a
/// sleeping mouse identifiable.
pub open spec fn shown_name(display_name: Option<&str>, preferences: Option<&DevicePreferences>) -> Option<
    Seq<char>,
> {
    match display_name {
        Some(n) => Some(n@),
        None => match preferences {
            Some(p) => opt_view(p.cached_model_name),
            None => None,
        },
    }
}

/// The summary of a device that clients are shown.
pub fn device_summary(
    device: &ManagedDevice,
    availability: DeviceAvailability,
    hardware_id: Option<&str>,
    display_name: Option<&str>,
    preferences: Option<&DevicePreferences>,
) -> (r: DeviceSummary)
    ensures
        r.id == device.id,
        opt_view(r.hardware_id) == opt_str_view(hardware_id),
        r.vendor_id == device.vendor_id,
        r.product_id == device.product_id,
        r.product_name == device.product_name,
        opt_view(r.display_name) == shown_name(display_name, preferences),
        r.serial_number == device.serial_number,
        r.nickname == (match preferences {
            Some(p) => p.nickname,
            None => None,
        }),
        r.color == (match preferences {
            Some(p) => p.color,
            None => default_color(),
        }),
        r.sort_order == (match preferences {
            Some(p) => p.sort_order,
            None => None,
        }),
        r.connection == device.connection,
        r.device_index == device.device_index,
        r.availability == Some(availability),
        r.ready == (availability is Ready),
{
    let ready = match availability {
        DeviceAvailability::Ready => true,
        _ => false,
    };
    let shown = match display_name {
        Some(n) => Some(owned(n)),
        None => match preferences {
            Some(p) => copy_opt_string(&p.cached_model_name),
            None => None,
        },
    };
    DeviceSummary {
        id: copy_string(&device.id),
        hardware_id: owned_opt(hardware_id),
        vendor_id: device.vendor_id,
        product_id: device.product_id,
        product_name: copy_opt_string(&device.product_name),
        display_name: shown,
        serial_number: copy_opt_string(&device.serial_number),
        nickname: match preferences {
            Some(p) => copy_opt_string(&p.nickname),
            None => None,
        },
        color: match preferences {
            Some(p) => p.color,
            None => DeviceColor::Black,
        },
        sort_order: match preferences {
            Some(p) => p.sort_order,
            None => None,
        },
        connection: device.connection,
        device_index: device.device_index,
        availability: Some(availability),
        ready,
    }
}

// ---------------------------------------------------------------------------
// Requests the agent refuses before running them
// ---------------------------------------------------------------------------

/// The text of a refusal for a client of another protocol version.
pub open spec fn version_mismatch_text(client: nat, agent: nat) -> Seq<char> {
    "client protocol version "@ + decimal(client) + " is incompatible with agent version "@
        + decimal(agent)
}

/// The text of a refusal for a device that is not connected.
pub open spec fn not_connected_text(device_id: Seq<char>) -> Seq<char> {
    "device `"@ + device_id + "` is not connected"@
}

/// The text of a refusal for a device that is present but not ready.
pub open spec fn not_ready_text(device_id: Seq<char>, detail: Option<Seq<char>>) -> Seq<char> {
    "device `"@ + device_id + "` is present but not ready: "@ + match detail {
        Some(d) => d,
        None => "device is still initializing"@,
    }
}

/// Why a request is refused before it runs, if it is: another protocol
/// version, then a device that is not connected, then one that is not ready.
pub open spec fn refusal(
    client_version: u32,
    agent_version: u32,
    command: RequestCommand,
    connected: bool,
    ready: bool,
    unavailable_detail: Option<Seq<char>>,
) -> Option<(ErrorCode, Seq<char>)> {
    if client_version != agent_version {
        Some((ErrorCode::VersionMismatch, version_mismatch_text(client_version as nat, agent_version as nat)))
    } else {
        match spec_command_device_id(command) {
            Some(id) => if !connected {
                Some((ErrorCode::DeviceNotFound, not_connected_text(id)))
            } else if !ready {
                Some((ErrorCode::DeviceUnavailable, not_ready_text(id, unavailable_detail)))
            } else {
                None
            },
            None => None,
        }
    }
}

/// The answer to a request that is refused before it runs, or nothing when it
/// may run. `connected` and `ready` say how things stand with the device that
/// the command addresses, and `unavailable_detail` why it is unavailable.
pub fn request_refusal(
    id: u64,
    client_version: u32,
    agent_version: u32,
    command: &RequestCommand,
    connected: bool,
    ready: bool,
    unavailable_detail: Option<&str>,
) -> (r: Option<ServerMessage>)
    ensures
        match refusal(
            client_version,
            agent_version,
            *command,
            connected,
            ready,
            opt_str_view(unavailable_detail),
        ) {
            Some((code, text)) => r matches Some(ServerMessage::Response {
                id: rid,
                result: ResponseResult::Error { code: c, message },
            }) && rid == id && c == code && message@ == text,
            None => r is None,
        },
{
    if client_version != agent_version {
        let mut message = owned("client protocol version ");
        push_chars(&mut message, &decimal_chars(client_version as u128));
        push_str(&mut message, " is incompatible with agent version ");
        push_chars(&mut message, &decimal_chars(agent_version as u128));
        return Some(ServerMessage::error(id, ErrorCode::VersionMismatch, message));
    }
    match command_device_id(command) {
        Some(device_id) => {
            if !connected {
                let mut message = owned("device `");
                push_str(&mut message, device_id);
                push_str(&mut message, "` is not connected");
                return Some(ServerMessage::error(id, ErrorCode::DeviceNotFound, message));
            }
            if !ready {
                let mut message = owned("device `");
                push_str(&mut message, device_id);
                push_str(&mut message, "` is present but not ready: ");
                match unavailable_detail {
                    Some(d) => push_str(&mut message, d),
                    None => push_str(&mut message, "device is still initializing"),
                }
                return Some(ServerMessage::error(id, ErrorCode::DeviceUnavailable, message));
            }
            None
        },
        None => None,
    }
}

/// The refusal when a command ran but what it changed could not be saved.
pub open spec fn not_persisted_text(error: Seq<char>) -> Seq<char> {
    "the setting was applied and verified, but could not be persisted: "@ + error
}

/// The answer to a command that was allowed to run: its result, once what it
/// changed was recorded (`persisted`); a command that failed is answered with
/// its error and records nothing, so `persisted` does not count then.
pub fn command_answer(id: u64, executed: Result<ResponseData, String>, persisted: Result<(), String>) -> (r:
    ServerMessage)
    ensures
        match executed {
            Ok(data) => match persisted {
                Ok(()) => r == (ServerMessage::Response { id, result: ResponseResult::Success { data } }),
                Err(e) => r matches ServerMessage::Response {
                    id: rid,
                    result: ResponseResult::Error { code, message },
                } && rid == id && code == ErrorCode::PersistenceFailed && message@ == not_persisted_text(e@),
            },
            Err(e) => r == (ServerMessage::Response {
                id,
                result: ResponseResult::Error { code: ErrorCode::OperationFailed, message: e },
            }),
        },
{
    match executed {
        Ok(data) => match persisted {
            Ok(()) => ServerMessage::success(id, data),
            Err(e) => {
                let mut message = owned("the setting was applied and verified, but could not be persisted: ");
                push_str(&mut message, e.as_str());
                ServerMessage::error(id, ErrorCode::PersistenceFailed, message)
            },
        },
        Err(e) => ServerMessage::error(id, ErrorCode::OperationFailed, e),
    }
}

// ---------------------------------------------------------------------------
// Battery queries
// ---------------------------------------------------------------------------

/// Consecutive failed battery queries after which a mouse counts as no longer
/// responding.
pub const BATTERY_FAILURE_LIMIT: u8 = 3;

/// What follows from one battery query: the new count of consecutive failures,
/// whether a changed reading is published, and whether the mouse is given up
/// as unavailable.
pub open spec fn battery_outcome(failures: u8, query_succeeded: bool, reading_changed: bool) -> (
    u8,
    bool,
    bool,
) {
    if query_succeeded {
        (0, reading_changed, false)
    } else {
        let n: u8 = if failures == 255 {
            255
        } else {
            (failures + 1) as u8
        };
        (n, false, n >= BATTERY_FAILURE_LIMIT)
    }
}

/// Decides what follows from one battery query.
pub fn battery_query_outcome(failures: u8, query_succeeded: bool, reading_changed: bool) -> (r: (
    u8,
    bool,
    bool,
))
    ensures
        r == battery_outcome(failures, query_succeeded, reading_changed),
{
    if query_succeeded {
        (0, reading_changed, false)
    } else {
        let n = failures.saturating_add(1);
        (n, false, n >= BATTERY_FAILURE_LIMIT)
    }
}

// ---------------------------------------------------------------------------
// Laws
// ---------------------------------------------------------------------------

/// A device that is still unavailable for the same reason is not announced
/// again; once it recovered (its record is dropped), it is.
pub proof fn law_unavailability_is_announced_once(
    m: Map<Seq<char>, UnavailableDevice>,
    id: Seq<char>,
    first: UnavailableDevice,
    reason: DeviceUnavailableReason,
)
    requires
        first.reason == reason,
    ensures
        !unavailable_event_due(entry_of(m.insert(id, first), id), reason),
        unavailable_event_due(entry_of(m.insert(id, first).remove(id), id), reason),
{
}

/// A command never changes the host-side metadata of a device: colour,
/// nickname, list position, cached model name and USB identity stay.
pub proof fn law_commands_keep_host_metadata(
    p: DevicePreferences,
    command: RequestCommand,
    device: DeviceState,
    button_mapping: Option<Vec<u8>>,
)
    ensures
        updated_preferences(p, command, device, button_mapping).color == p.color,
        updated_preferences(p, command, device, button_mapping).nickname == p.nickname,
        updated_preferences(p, command, device, button_mapping).sort_order == p.sort_order,
        updated_preferences(p, command, device, button_mapping).cached_model_name
            == p.cached_model_name,
        updated_preferences(p, command, device, button_mapping).usb_identity == p.usb_identity,
{
}

/// Choosing an onboard profile or stage, or changing the lighting, keeps the
/// saved host settings for a later return to host control.
pub proof fn law_onboard_and_lighting_keep_host_settings(
    p: DevicePreferences,
    command: RequestCommand,
    device: DeviceState,
    button_mapping: Option<Vec<u8>>,
)
    requires
        command is UseOnboardProfile || command is SetOnboardDpiStage || command is SetLighting
            || command is UseFirmwareLighting,
    ensures
        updated_preferences(p, command, device, button_mapping).host == p.host,
{
}

/// Commands that only read or that change host-side metadata record nothing in
/// the device's preferences.
pub proof fn law_non_setting_commands_change_nothing(
    p: DevicePreferences,
    command: RequestCommand,
    device: DeviceState,
    button_mapping: Option<Vec<u8>>,
)
    requires
        !spec_changes_settings(command),
    ensures
        updated_preferences(p, command, device, button_mapping) == p,
{
}

/// A setting command that succeeded leaves the stored host preference for
/// that setting equal to what the device reports after it: the DPI on both
/// axes, the polling rate over every connection, the lift-off distance, the
/// surface mode, the operating mode and bunny hopping.
pub proof fn law_setting_commands_record_the_reported_setting(
    p: DevicePreferences,
    command: RequestCommand,
    device: DeviceState,
    button_mapping: Option<Vec<u8>>,
)
    ensures
        (command is SetDpi || command is SetDpiAxes) ==> match device.settings.dpi {
            Some(d) => updated_preferences(p, command, device, button_mapping).host.dpi == Some(d.current_x)
                && updated_preferences(p, command, device, button_mapping).host.dpi_y == d.current_y,
            None => updated_preferences(p, command, device, button_mapping).host.dpi is None
                && updated_preferences(p, command, device, button_mapping).host.dpi_y is None,
        },
        command is SetPollingRate ==> forall|connection: Connection|
            #[trigger] stored_rate_over(
                updated_preferences(p, command, device, button_mapping).host.polling_rate,
                connection,
            ) == rate_over(device.settings.polling_rate, connection),
        command is SetPollingRate && device.settings.polling_rate is Shared ==> updated_preferences(
            p,
            command,
            device,
            button_mapping,
        ).host.polling_rate matches Some(PollingPreference::Shared { .. }),
        command is SetPollingRate && device.settings.polling_rate is PerConnection ==> updated_preferences(
            p,
            command,
            device,
            button_mapping,
        ).host.polling_rate matches Some(PollingPreference::PerConnection { .. }),
        command is SetLiftOffDistance ==> updated_preferences(p, command, device, button_mapping).host.lift_off_distance
            == current_lod(device.settings),
        command is SetSurfaceMode ==> updated_preferences(p, command, device, button_mapping).host.surface_mode
            == device.settings.surface_mode,
        command is SetOperatingMode ==> updated_preferences(p, command, device, button_mapping).host.operating_mode
            == device.settings.operating_mode,
        command is SetBunnyHopping ==> match device.settings.bunny_hopping {
            Some(b) => updated_preferences(p, command, device, button_mapping).host.bunny_hopping == Some(
                BunnyHoppingPreference { enabled: b.enabled, timeout_ms: b.timeout_ms },
            ),
            None => updated_preferences(p, command, device, button_mapping).host.bunny_hopping is None,
        },
{
}

/// A command that chooses lighting, control or a DPI stage is remembered as
/// that choice: software lighting with its zone and effect, firmware
/// lighting, host control, the onboard profile with the stage the device
/// then reports, a DPI stage as reported, and a written button mapping.
pub proof fn law_choices_are_remembered(
    p: DevicePreferences,
    command: RequestCommand,
    device: DeviceState,
    button_mapping: Option<Vec<u8>>,
)
    ensures
        (command matches RequestCommand::SetLighting { zone, effect, .. }) ==> updated_preferences(
            p,
            command,
            device,
            button_mapping,
        ).lighting == Some(LightingPreference::Software { zone: command->zone, effect: command->effect }),
        command is UseFirmwareLighting ==> updated_preferences(p, command, device, button_mapping).lighting
            == Some(LightingPreference::Firmware),
        command is UseHostSettings ==> updated_preferences(p, command, device, button_mapping).control == Some(
            ControlPreference::Host,
        ),
        command is UseOnboardProfile ==> {
            &&& updated_preferences(p, command, device, button_mapping).control == Some(
                ControlPreference::Onboard { profile: command->UseOnboardProfile_profile },
            )
            &&& updated_preferences(p, command, device, button_mapping).onboard_dpi_stage
                == device.settings.onboard_dpi_stage
        },
        command is SetOnboardDpiStage ==> updated_preferences(p, command, device, button_mapping).onboard_dpi_stage
            == device.settings.onboard_dpi_stage,
        command is SetMouseButtonMapping ==> updated_preferences(p, command, device, button_mapping).host.button_mapping
            == button_mapping,
{
}

/// Rescheduling to a new interval and back again restores the deadline, as long
/// as the last check lies at or after the clock's origin.
pub proof fn law_reschedule_round_trip(deadline: nat, previous: nat, next: nat, now: nat)
    requires
        deadline >= previous,
    ensures
        rescheduled_check(
            rescheduled_check(deadline, previous, next, now) as nat,
            next,
            previous,
            now,
        ) == deadline,
{
}

} // verus!
