//! Running a command of the command-line client against the agent: which
//! requests it sends, in what order, and what it makes of the answers. The
//! requests go through a function that the caller hands in; what is printed,
//! and in which format, is the caller's part.
use vstd::prelude::*;

use crate::cli::{
    setting_command, setting_request, use_command, use_request, DeviceSetArgs, DeviceUseArgs,
};
use crate::protocol::{DeviceState, DeviceSummary, RequestCommand, ResponseData};
use crate::selector::{choice, select_device};
use crate::text::{owned, push_str};
use crate::transport::Transport;

verus! {

/// `device ...`.
#[derive(Clone, Debug, PartialEq, Eq)]
pub enum DeviceCommand {
    /// `device list`.
    List,
    /// `device show [selector]`.
    Show { selector: Option<String> },
    /// `device set [selector] <setting>`.
    SetSetting(DeviceSetArgs),
    /// `device use [selector] <mode>`.
    Use(DeviceUseArgs),
}

/// A command that talks to the agent.
#[derive(Clone, Debug, PartialEq, Eq)]
pub enum AgentCommand {
    /// `status`.
    Status,
    /// `device ...`.
    Device { command: DeviceCommand },
}

/// What a command brings back to be written out.
#[derive(Clone, Debug, PartialEq, Eq)]
pub enum CommandOutput {
    /// The agent answered the ping.
    Status,
    /// The devices the agent lists.
    Devices(Vec<DeviceSummary>),
    /// The state of the selected device.
    Device(DeviceState),
}

/// Why a command failed.
#[derive(Clone, Debug, PartialEq, Eq)]
pub enum CommandFailure {
    /// A request failed, with its error.
    Request(String),
    /// The ping was answered with something else.
    UnexpectedPing(ResponseData),
    /// The list request was answered with something else.
    UnexpectedList(ResponseData),
    /// A device request was answered without a device.
    UnexpectedDevice(ResponseData),
    /// No device fits the selector, with why.
    Selection(String),
}

/// The message of a failure; `response_text` is how the unexpected answer is
/// written, where there is one.
pub open spec fn failure_text(failure: CommandFailure, response_text: Seq<char>) -> Seq<char> {
    match failure {
        CommandFailure::Request(e) => e@,
        CommandFailure::UnexpectedPing(_) => "agent returned an unexpected ping response: "@ + response_text,
        CommandFailure::UnexpectedList(_) => "agent returned an unexpected device-list response: "@
            + response_text,
        CommandFailure::UnexpectedDevice(_) => "agent returned an unexpected device response: "@
            + response_text,
        CommandFailure::Selection(m) => m@,
    }
}

impl CommandFailure {
    /// The message that reports this failure.
    pub fn message(&self, response_text: &str) -> (r: String)
        ensures
            r@ == failure_text(*self, response_text@),
    {
        match self {
            CommandFailure::Request(e) => owned(e.as_str()),
            CommandFailure::UnexpectedPing(_) => {
                let mut m = owned("agent returned an unexpected ping response: ");
                push_str(&mut m, response_text);
                m
            },
            CommandFailure::UnexpectedList(_) => {
                let mut m = owned("agent returned an unexpected device-list response: ");
                push_str(&mut m, response_text);
                m
            },
            CommandFailure::UnexpectedDevice(_) => {
                let mut m = owned("agent returned an unexpected device response: ");
                push_str(&mut m, response_text);
                m
            },
            CommandFailure::Selection(m) => owned(m.as_str()),
        }
    }
}

/// The selector that a device command names, if any.
pub open spec fn command_selector(command: DeviceCommand) -> Option<Seq<char>> {
    match command {
        DeviceCommand::List => None,
        DeviceCommand::Show { selector } => match selector {
            Some(s) => Some(s@),
            None => None,
        },
        DeviceCommand::SetSetting(args) => match args.selector {
            Some(s) => Some(s@),
            None => None,
        },
        DeviceCommand::Use(args) => match args.selector {
            Some(s) => Some(s@),
            None => None,
        },
    }
}

/// The request that a device command sends to the device it selected.
pub open spec fn device_request(command: DeviceCommand, device: DeviceSummary) -> RequestCommand {
    match command {
        DeviceCommand::SetSetting(args) => setting_command(args.setting, device.id),
        DeviceCommand::Use(args) => use_command(args.mode, device.id),
        _ => RequestCommand::GetDevice { device_id: device.id },
    }
}

/// What an answer to a device request comes to.
pub open spec fn device_outcome(
    reply: Result<ResponseData, String>,
    r: Result<CommandOutput, CommandFailure>,
) -> bool {
    match reply {
        Ok(ResponseData::Device { device }) => r == Ok::<CommandOutput, CommandFailure>(
            CommandOutput::Device(*device),
        ),
        Ok(other) => r == Err::<CommandOutput, CommandFailure>(CommandFailure::UnexpectedDevice(other)),
        Err(e) => r == Err::<CommandOutput, CommandFailure>(CommandFailure::Request(e)),
    }
}

/// What the answer to the list request comes to for a device command that
/// then selects a device, given what `send` may answer the device request;
/// the log of requests goes from `before` to `after`: the device request is
/// sent only to the selected device, and nothing is sent when none is.
pub open spec fn selected_outcome<F: FnMut(RequestCommand) -> Result<ResponseData, String>>(
    send: F,
    command: DeviceCommand,
    devices: Seq<DeviceSummary>,
    before: Seq<RequestCommand>,
    after: Seq<RequestCommand>,
    r: Result<CommandOutput, CommandFailure>,
) -> bool {
    match choice(devices, command_selector(command)) {
        Err(m) => after == before && (r matches Err(CommandFailure::Selection(t)) && t@ == m),
        Ok(d) => after == before.push(device_request(command, d)) && exists|b: Result<ResponseData, String>|
            #[trigger] call_ensures(send, (device_request(command, d),), b) && device_outcome(b, r),
    }
}

/// What the answer to the list request comes to, the log of requests going
/// from `before` to `after`.
pub open spec fn list_outcome<F: FnMut(RequestCommand) -> Result<ResponseData, String>>(
    send: F,
    command: DeviceCommand,
    reply: Result<ResponseData, String>,
    before: Seq<RequestCommand>,
    after: Seq<RequestCommand>,
    r: Result<CommandOutput, CommandFailure>,
) -> bool {
    match reply {
        Ok(ResponseData::Devices { devices }) => match command {
            DeviceCommand::List => after == before && r == Ok::<CommandOutput, CommandFailure>(
                CommandOutput::Devices(devices),
            ),
            _ => selected_outcome(send, command, devices@, before, after, r),
        },
        Ok(other) => after == before && r == Err::<CommandOutput, CommandFailure>(
            CommandFailure::UnexpectedList(other),
        ),
        Err(e) => after == before && r == Err::<CommandOutput, CommandFailure>(CommandFailure::Request(e)),
    }
}

/// The course of `command` through `send`, the log of requests going from
/// `before` to `after`: `status` sends the ping alone; a device command sends
/// the list request, then at most the request to the device it selected.
pub open spec fn command_course<F: FnMut(RequestCommand) -> Result<ResponseData, String>>(
    send: F,
    command: AgentCommand,
    before: Seq<RequestCommand>,
    after: Seq<RequestCommand>,
    r: Result<CommandOutput, CommandFailure>,
) -> bool {
    match command {
        AgentCommand::Status => after == before.push(RequestCommand::Ping) && exists|
            a: Result<ResponseData, String>,
        | #[trigger] call_ensures(send, (RequestCommand::Ping,), a) && ping_outcome(a, r),
        AgentCommand::Device { command: c } => exists|a: Result<ResponseData, String>|
            #[trigger] call_ensures(send, (RequestCommand::ListDevices,), a) && list_outcome(
                send,
                c,
                a,
                before.push(RequestCommand::ListDevices),
                after,
                r,
            ),
    }
}

/// What the answer to the ping comes to.
pub open spec fn ping_outcome(reply: Result<ResponseData, String>, r: Result<CommandOutput, CommandFailure>) -> bool {
    match reply {
        Ok(ResponseData::Pong) => r == Ok::<CommandOutput, CommandFailure>(CommandOutput::Status),
        Ok(other) => r == Err::<CommandOutput, CommandFailure>(CommandFailure::UnexpectedPing(other)),
        Err(e) => r == Err::<CommandOutput, CommandFailure>(CommandFailure::Request(e)),
    }
}

fn expect_device(reply: Result<ResponseData, String>) -> (r: Result<CommandOutput, CommandFailure>)
    ensures
        device_outcome(reply, r),
{
    match reply {
        Ok(ResponseData::Device { device }) => Ok(CommandOutput::Device(*device)),
        Ok(other) => Err(CommandFailure::UnexpectedDevice(other)),
        Err(e) => Err(CommandFailure::Request(e)),
    }
}

fn selector_str(selector: &Option<String>) -> (r: Option<&str>)
    ensures
        match *selector {
            Some(s) => r matches Some(t) && t@ == s@,
            None => r is None,
        },
{
    match selector {
        Some(s) => Some(s.as_str()),
        None => None,
    }
}

/// Runs a command against the agent through `transport`. `status` pings the
/// agent; `device list` asks for the devices; the other device commands ask
/// for the devices, select one by the command's selector, and send it their
/// request: a read, a setting or a mode. Nothing else is sent. Each answer of
/// the wrong kind, and each failed request, ends the command with that
/// failure.
pub fn execute_with<F: FnMut(RequestCommand) -> Result<ResponseData, String>>(
    transport: &mut Transport<F>,
    command: AgentCommand,
) -> (r: Result<CommandOutput, CommandFailure>)
    requires
        forall|c: RequestCommand| old(transport).sender().requires((c,)),
    ensures
        final(transport).sender() == old(transport).sender(),
        command_course(old(transport).sender(), command, old(transport).sent(), final(transport).sent(), r),
{
    let ghost entry = transport.sender();
    let ghost log = transport.sent();
    let ghost whole = command;
    match command {
        AgentCommand::Status => {
            let reply = transport.send(RequestCommand::Ping);
            let ghost a = reply;
            let r = match reply {
                Ok(ResponseData::Pong) => Ok(CommandOutput::Status),
                Ok(other) => Err(CommandFailure::UnexpectedPing(other)),
                Err(e) => Err(CommandFailure::Request(e)),
            };
            assert(call_ensures(entry, (RequestCommand::Ping,), a) && ping_outcome(a, r));
            assert(command_course(entry, whole, log, transport.sent(), r));
            r
        },
        AgentCommand::Device { command: c } => {
            let ghost gc = c;
            let reply = transport.send(RequestCommand::ListDevices);
            let ghost a = reply;
            let ghost listed = transport.sent();
            assert(call_ensures(entry, (RequestCommand::ListDevices,), a));
            let devices = match reply {
                Ok(ResponseData::Devices { devices }) => devices,
                Ok(other) => {
                    let r = Err(CommandFailure::UnexpectedList(other));
                    assert(list_outcome(entry, gc, a, listed, transport.sent(), r));
                    assert(command_course(entry, whole, log, transport.sent(), r));
                    return r;
                },
                Err(e) => {
                    let r = Err(CommandFailure::Request(e));
                    assert(list_outcome(entry, gc, a, listed, transport.sent(), r));
                    assert(command_course(entry, whole, log, transport.sent(), r));
                    return r;
                },
            };
            let selector = match &c {
                DeviceCommand::List => {
                    let r = Ok(CommandOutput::Devices(devices));
                    assert(list_outcome(entry, gc, a, listed, transport.sent(), r));
                    assert(command_course(entry, whole, log, transport.sent(), r));
                    return r;
                },
                DeviceCommand::Show { selector } => selector_str(selector),
                DeviceCommand::SetSetting(args) => selector_str(&args.selector),
                DeviceCommand::Use(args) => selector_str(&args.selector),
            };
            let device = match select_device(&devices, selector) {
                Ok(d) => d,
                Err(m) => {
                    let r = Err(CommandFailure::Selection(m));
                    assert(list_outcome(entry, gc, a, listed, transport.sent(), r));
                    assert(command_course(entry, whole, log, transport.sent(), r));
                    return r;
                },
            };
            let request = match c {
                DeviceCommand::SetSetting(args) => setting_request(args, device.id),
                DeviceCommand::Use(args) => use_request(args, device.id),
                _ => RequestCommand::GetDevice { device_id: device.id },
            };
            let ghost q = request;
            let answer = transport.send(request);
            let ghost b = answer;
            let r = expect_device(answer);
            assert(call_ensures(entry, (q,), b));
            assert(list_outcome(entry, gc, a, listed, transport.sent(), r));
            assert(command_course(entry, whole, log, transport.sent(), r));
            r
        },
    }
}

} // verus!
