//! The values that the agent and its clients exchange: device summaries and
//! states, requests, responses and events.
use vstd::prelude::*;

verus! {

/// A 24-bit colour.
#[derive(Clone, Copy, Debug, PartialEq, Eq, Structural)]
pub struct RgbColor {
    pub red: u8,
    pub green: u8,
    pub blue: u8,
}

#[derive(Clone, Copy, Debug, PartialEq, Eq, Structural)]
pub enum LiftOffDistance {
    Low,
    Medium,
    High,
}

#[derive(Clone, Copy, Debug, PartialEq, Eq, Structural)]
pub enum SurfaceMode {
    On,
    Automatic,
    Off,
}

#[derive(Clone, Copy, Debug, PartialEq, Eq, Structural)]
pub enum OperatingMode {
    Endurance,
    Performance,
}

/// The link that a polling-rate request addresses.
#[derive(Clone, Copy, Debug, PartialEq, Eq, Structural)]
pub enum Connection {
    Wired,
    Wireless,
}

/// A software-driven LED effect.
#[derive(Clone, Copy, Debug, PartialEq, Eq, Structural)]
pub enum LightingEffect {
    Disabled,
    Fixed { color: RgbColor },
    Cycling { period_ms: u16, brightness: u8 },
    Breathing { color: RgbColor, period_ms: u16, brightness: u8 },
}

/// Which side currently owns the mouse configuration.
#[derive(Clone, Copy, Debug, PartialEq, Eq, Structural)]
pub enum ConfigurationSource {
    Host,
    Onboard { active_profile: Option<u16> },
    Unknown { raw_mode: u8 },
}

#[derive(Clone, Copy, Debug, PartialEq, Eq, Structural)]
pub enum PollingRateState {
    Unsupported,
    Shared { hz: u16 },
    PerConnection { wired_hz: u16, wireless_hz: u16 },
}

#[derive(Clone, Copy, Debug, PartialEq, Eq, Structural)]
pub struct DpiState {
    pub current_x: u16,
    pub default_x: u16,
    pub current_y: Option<u16>,
    pub default_y: Option<u16>,
    pub lift_off_distance: Option<LiftOffDistance>,
}

#[derive(Clone, Copy, Debug, PartialEq, Eq, Structural)]
pub struct BunnyHoppingState {
    pub enabled: bool,
    pub timeout_ms: u16,
}

/// The finish of a mouse shell, kept as host-side metadata.
#[derive(Clone, Copy, Debug, PartialEq, Eq, Structural)]
pub enum DeviceColor {
    Black,
    White,
    Red,
    Magenta,
    Cyan,
    Blue,
    Lilac,
    Mint,
}

#[derive(Clone, Copy, Debug, PartialEq, Eq, Structural)]
pub enum DeviceUnavailableReason {
    NotResponding,
    CommunicationError,
}

#[derive(Clone, Copy, Debug, PartialEq, Eq, Structural)]
pub enum DeviceConnection {
    DirectUsb,
    Receiver,
}

#[derive(Clone, Debug, PartialEq, Eq)]
pub struct BatteryState {
    pub percentage: u8,
    pub level_code: u8,
    pub status_code: u8,
    pub status: String,
}

#[derive(Clone, Debug, PartialEq, Eq)]
pub enum DeviceAvailability {
    Initializing,
    Ready,
    Unavailable { reason: DeviceUnavailableReason, detail: String },
}

/// One mouse as the agent lists it.
#[derive(Clone, Debug, PartialEq, Eq)]
pub struct DeviceSummary {
    /// Session identifier of the USB route; routable while the device is present.
    pub id: String,
    /// Persistent HID++ identity, when the mouse has reported it.
    pub hardware_id: Option<String>,
    pub vendor_id: u16,
    pub product_id: u16,
    pub product_name: Option<String>,
    pub display_name: Option<String>,
    pub serial_number: Option<String>,
    pub nickname: Option<String>,
    pub color: DeviceColor,
    pub sort_order: Option<u32>,
    pub connection: DeviceConnection,
    pub device_index: u8,
    pub availability: Option<DeviceAvailability>,
    pub ready: bool,
}

#[derive(Clone, Debug, PartialEq, Eq)]
pub enum PollingRateCapabilities {
    Unsupported,
    Shared { supported_hz: Vec<u16> },
    PerConnection { wired_hz: Vec<u16>, wireless_hz: Vec<u16> },
}

#[derive(Clone, Debug, PartialEq, Eq)]
pub struct DeviceCapabilities {
    pub battery: bool,
    pub supported_dpi: Option<Vec<u16>>,
    pub polling_rates: PollingRateCapabilities,
    pub onboard_profiles: bool,
    /// Profile count of the onboard profile description, when the mouse reports one.
    pub onboard_profile_count: Option<u8>,
    pub lift_off_distance: bool,
    pub surface_mode: bool,
    pub operating_mode_switch: bool,
    pub color_led_effects: bool,
    pub bunny_hopping: bool,
    pub mouse_button_filter: bool,
}

#[derive(Clone, Debug, PartialEq, Eq)]
pub struct SettingsState {
    pub onboard_dpi_stage: Option<u8>,
    pub mouse_button_mapping: Option<Vec<u8>>,
    pub battery: Option<BatteryState>,
    pub dpi: Option<DpiState>,
    pub polling_rate: PollingRateState,
    pub configuration_source: Option<ConfigurationSource>,
    pub operating_mode: Option<OperatingMode>,
    pub surface_mode: Option<SurfaceMode>,
    pub bunny_hopping: Option<BunnyHoppingState>,
}

/// A ready mouse with its capabilities and verified settings.
#[derive(Clone, Debug, PartialEq, Eq)]
pub struct DeviceState {
    pub device: DeviceSummary,
    pub capabilities: DeviceCapabilities,
    pub settings: SettingsState,
}

/// Confirmation preferences of the settings application.
#[derive(Clone, Copy, Debug, PartialEq, Eq, Structural)]
pub struct AppPreferences {
    pub confirm_apply: bool,
    pub confirm_discard: bool,
    pub confirm_profile_writes: bool,
}

impl AppPreferences {
    /// Whether a discard (`discard`) or an apply, possibly rewriting onboard
    /// profiles (`profile_write`), asks the user first.
    pub open spec fn spec_needs_confirmation(self, discard: bool, profile_write: bool) -> bool {
        if discard {
            self.confirm_discard
        } else {
            self.confirm_apply || (self.confirm_profile_writes && profile_write)
        }
    }

    /// Whether the action asks for confirmation.
    pub fn needs_confirmation(&self, discard: bool, profile_write: bool) -> (r: bool)
        ensures
            r == self.spec_needs_confirmation(discard, profile_write),
    {
        if discard {
            self.confirm_discard
        } else {
            self.confirm_apply || (self.confirm_profile_writes && profile_write)
        }
    }
}

/// What a client asks the agent to do.
#[derive(Clone, Debug, PartialEq, Eq)]
pub enum RequestCommand {
    Ping,
    Shutdown,
    ListDevices,
    ListSavedDevices,
    GetAppPreferences,
    SetAppPreferences { preferences: AppPreferences },
    GetDevice { device_id: String },
    Subscribe,
    SubscribeSettings,
    SetDeviceColor { device_id: String, color: DeviceColor },
    SetDeviceNickname { device_id: String, nickname: Option<String> },
    ReorderDevices { hardware_ids: Vec<String> },
    SetOnboardDpiStage { device_id: String, index: u8 },
    SetDpiAxes { device_id: String, x: u16, y: u16 },
    SetMouseButtonMapping { device_id: String, mapping: Vec<u8> },
    SetDpi { device_id: String, dpi: u16 },
    SetPollingRate {
        device_id: String,
        connection: Connection,
        hz: u16,
        disable_onboard_profiles: bool,
    },
    SetLiftOffDistance { device_id: String, lod: LiftOffDistance },
    SetSurfaceMode { device_id: String, mode: SurfaceMode },
    SetOperatingMode { device_id: String, mode: OperatingMode },
    SetBunnyHopping { device_id: String, enabled: bool, timeout_ms: u16 },
    SetLighting { device_id: String, zone: u8, effect: LightingEffect },
    UseFirmwareLighting { device_id: String },
    UseHostSettings { device_id: String },
    UseOnboardProfile { device_id: String, profile: u16 },
}

/// The payload of a successful response.
/// A request as a client sends it: an identifier the answer repeats, the
/// protocol version the client speaks, and the command.
#[derive(Clone, Debug, PartialEq, Eq)]
pub struct ClientRequest {
    pub id: u64,
    pub protocol_version: u32,
    pub command: RequestCommand,
}

#[derive(Clone, Debug, PartialEq, Eq)]
pub enum ResponseData {
    Pong,
    Acknowledged,
    Subscribed,
    Devices { devices: Vec<DeviceSummary> },
    Device { device: Box<DeviceState> },
    AppPreferences { preferences: AppPreferences },
}

#[derive(Clone, Copy, Debug, PartialEq, Eq, Structural)]
pub enum ErrorCode {
    InvalidRequest,
    VersionMismatch,
    DeviceNotFound,
    DeviceUnavailable,
    OperationFailed,
    PersistenceFailed,
    Internal,
}

#[derive(Clone, Debug, PartialEq, Eq)]
pub enum ResponseResult {
    Success { data: ResponseData },
    Error { code: ErrorCode, message: String },
}

/// What the agent pushes to subscribers.
#[derive(Clone, Debug, PartialEq, Eq)]
pub enum AgentEvent {
    ApplicationShuttingDown,
    DeviceConnected { device: DeviceSummary },
    DeviceReady { device: Box<DeviceState> },
    DeviceUnavailable {
        device_id: String,
        reason_code: Option<DeviceUnavailableReason>,
        reason: String,
    },
    SettingsChanged { device: Box<DeviceState> },
    DeviceMetadataChanged { devices: Vec<DeviceSummary> },
    DeviceDisconnected { device_id: String },
    BatteryChanged { device_id: String, battery: Option<BatteryState> },
}

/// One line that the agent writes to a client.
#[derive(Clone, Debug, PartialEq, Eq)]
pub enum ServerMessage {
    Response { id: u64, result: ResponseResult },
    Event { event: AgentEvent },
}

impl ServerMessage {
    /// A successful response.
    pub fn success(id: u64, data: ResponseData) -> (r: ServerMessage)
        ensures
            r == (ServerMessage::Response { id, result: ResponseResult::Success { data } }),
    {
        ServerMessage::Response { id, result: ResponseResult::Success { data } }
    }

    /// A failed response.
    pub fn error(id: u64, code: ErrorCode, message: String) -> (r: ServerMessage)
        ensures
            r == (ServerMessage::Response { id, result: ResponseResult::Error { code, message } }),
    {
        ServerMessage::Response { id, result: ResponseResult::Error { code, message } }
    }
}

/// A copy of a string.
pub fn copy_string(s: &String) -> (r: String)
    ensures
        r == *s,
{
    s.clone()
}

/// A copy of an optional string.
pub fn copy_opt_string(o: &Option<String>) -> (r: Option<String>)
    ensures
        r == *o,
{
    match o {
        Some(s) => Some(s.clone()),
        None => None,
    }
}

/// The name of a colour as the settings form writes it.
pub open spec fn color_text(c: DeviceColor) -> Seq<char> {
    match c {
        DeviceColor::Black => "black"@,
        DeviceColor::White => "white"@,
        DeviceColor::Red => "red"@,
        DeviceColor::Magenta => "magenta"@,
        DeviceColor::Cyan => "cyan"@,
        DeviceColor::Blue => "blue"@,
        DeviceColor::Lilac => "lilac"@,
        DeviceColor::Mint => "mint"@,
    }
}

impl DeviceColor {
    /// The name of the colour.
    pub fn as_str(&self) -> (r: &'static str)
        ensures
            r@ == color_text(*self),
    {
        match self {
            DeviceColor::Black => "black",
            DeviceColor::White => "white",
            DeviceColor::Red => "red",
            DeviceColor::Magenta => "magenta",
            DeviceColor::Cyan => "cyan",
            DeviceColor::Blue => "blue",
            DeviceColor::Lilac => "lilac",
            DeviceColor::Mint => "mint",
        }
    }
}

impl DeviceAvailability {
    /// A copy of the availability.
    pub fn copy(&self) -> (r: DeviceAvailability)
        ensures
            r == *self,
    {
        match self {
            DeviceAvailability::Initializing => DeviceAvailability::Initializing,
            DeviceAvailability::Ready => DeviceAvailability::Ready,
            DeviceAvailability::Unavailable { reason, detail } => DeviceAvailability::Unavailable {
                reason: *reason,
                detail: detail.clone(),
            },
        }
    }
}

/// A copy of an optional availability.
pub fn copy_opt_availability(o: &Option<DeviceAvailability>) -> (r: Option<DeviceAvailability>)
    ensures
        r == *o,
{
    match o {
        Some(a) => Some(a.copy()),
        None => None,
    }
}

impl DeviceSummary {
    /// A copy of the summary.
    pub fn copy(&self) -> (r: DeviceSummary)
        ensures
            r == *self,
    {
        DeviceSummary {
            id: self.id.clone(),
            hardware_id: copy_opt_string(&self.hardware_id),
            vendor_id: self.vendor_id,
            product_id: self.product_id,
            product_name: copy_opt_string(&self.product_name),
            display_name: copy_opt_string(&self.display_name),
            serial_number: copy_opt_string(&self.serial_number),
            nickname: copy_opt_string(&self.nickname),
            color: self.color,
            sort_order: self.sort_order,
            connection: self.connection,
            device_index: self.device_index,
            availability: copy_opt_availability(&self.availability),
            ready: self.ready,
        }
    }
}

} // verus!
