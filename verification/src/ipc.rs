//! The agent's side of the local socket: one request per line, bounded in
//! size; which failures only mean that a client went away; what is answered
//! at once and what goes on to the agent; and the list of event subscribers.
use vstd::prelude::*;
use vstd::utf8::{decode_utf8, valid_utf8};

use crate::protocol::{ClientRequest, ErrorCode, RequestCommand, ResponseResult, ServerMessage};
use crate::text::{decimal, decimal_chars, owned, push_chars, push_str};

verus! {

// ---------------------------------------------------------------------------
// Subscribers
// ---------------------------------------------------------------------------

/// One client that receives events, with the channel its events go to.
pub struct Subscriber<T> {
    pub id: u64,
    pub events: T,
}

/// Whether a subscriber is not the one being removed.
pub open spec fn keeps<T>(subscriber_id: u64) -> spec_fn(Subscriber<T>) -> bool {
    |s: Subscriber<T>| s.id != subscriber_id
}

/// Removes the subscriber with this identifier; the others stay, in order.
/// Removing one that is already gone changes nothing.
pub fn remove_subscriber<T>(subscribers: &mut Vec<Subscriber<T>>, subscriber_id: u64)
    ensures
        final(subscribers)@ == old(subscribers)@.filter(keeps::<T>(subscriber_id)),
{
    let ghost orig = subscribers@;
    let mut rest: Vec<Subscriber<T>> = Vec::new();
    std::mem::swap(&mut rest, subscribers);
    let ghost mut k: int = 0;
    proof {
        reveal(Seq::filter);
        assert(orig.take(0) =~= Seq::<Subscriber<T>>::empty());
        assert(orig.take(0).filter(keeps::<T>(subscriber_id)) =~= Seq::<Subscriber<T>>::empty());
        assert(orig.skip(0) =~= orig);
    }
    while rest.len() > 0
        invariant
            0 <= k <= orig.len(),
            rest@ == orig.skip(k),
            subscribers@ == orig.take(k).filter(keeps::<T>(subscriber_id)),
        decreases rest.len(),
    {
        let s = rest.remove(0);
        proof {
            reveal(Seq::filter);
            assert(orig.take(k + 1).drop_last() =~= orig.take(k));
            assert(orig.take(k + 1).last() == orig[k]);
            assert(orig.skip(k).drop_first() =~= orig.skip(k + 1));
        }
        if s.id != subscriber_id {
            subscribers.push(s);
        }
        proof {
            k = k + 1;
        }
    }
    proof {
        assert(orig.take(orig.len() as int) =~= orig);
    }
}

/// Removing a subscriber a second time is harmless: the list stays as the
/// first removal left it.
pub proof fn law_removing_twice_is_harmless<T>(subscribers: Seq<Subscriber<T>>, subscriber_id: u64)
    ensures
        subscribers.filter(keeps::<T>(subscriber_id)).filter(keeps::<T>(subscriber_id)) == subscribers.filter(
            keeps::<T>(subscriber_id),
        ),
    decreases subscribers.len(),
{
    reveal(Seq::filter);
    let p = keeps::<T>(subscriber_id);
    if subscribers.len() > 0 {
        law_removing_twice_is_harmless(subscribers.drop_last(), subscriber_id);
        let once = subscribers.filter(p);
        if p(subscribers.last()) {
            assert(once == subscribers.drop_last().filter(p).push(subscribers.last()));
            assert(once.drop_last() =~= subscribers.drop_last().filter(p));
            assert(once.last() == subscribers.last());
        } else {
            assert(once == subscribers.drop_last().filter(p));
        }
    }
}

/// Adds a subscriber at the end of the list.
pub fn register_subscriber<T>(subscribers: &mut Vec<Subscriber<T>>, subscriber_id: u64, events: T)
    ensures
        final(subscribers)@ == old(subscribers)@.push(Subscriber { id: subscriber_id, events }),
{
    subscribers.push(Subscriber { id: subscriber_id, events });
}

/// Completes the registration of a subscriber that was just added: the
/// subscription is acknowledged to the client, then the watcher that
/// removes the subscriber when the client hangs up is started. Only once
/// both succeeded does the subscriber stay; if either fails, the first
/// failure is returned and the subscriber is taken out again, and the
/// watcher is not started after a failed acknowledgement.
pub fn complete_subscription_registration<T, A, W>(
    subscribers: &mut Vec<Subscriber<T>>,
    subscriber_id: u64,
    acknowledge: A,
    start_watcher: W,
) -> (r: Result<(), String>) where A: FnOnce() -> Result<(), String>, W: FnOnce() -> Result<(), String>
    requires
        acknowledge.requires(()),
        forall|a: Result<(), String>| #[trigger] call_ensures(acknowledge, (), a) && a is Ok ==> start_watcher.requires(()),
    ensures
        r is Ok ==> {
            &&& final(subscribers)@ == old(subscribers)@
            &&& exists|a: Result<(), String>| #[trigger] call_ensures(acknowledge, (), a) && a is Ok
            &&& call_ensures(start_watcher, (), r)
        },
        r is Err ==> {
            &&& final(subscribers)@ == old(subscribers)@.filter(keeps::<T>(subscriber_id))
            &&& call_ensures(acknowledge, (), r) || ((exists|a: Result<(), String>|
                #[trigger] call_ensures(acknowledge, (), a) && a is Ok) && call_ensures(start_watcher, (), r))
        },
{
    let acknowledged = acknowledge();
    if acknowledged.is_err() {
        remove_subscriber(subscribers, subscriber_id);
        return acknowledged;
    }
    let started = start_watcher();
    if started.is_err() {
        remove_subscriber(subscribers, subscriber_id);
    }
    started
}

// ---------------------------------------------------------------------------
// Hangups
// ---------------------------------------------------------------------------

/// The kinds of I/O failure that matter here.
#[derive(Clone, Copy, Debug, PartialEq, Eq, Structural)]
pub enum IoKind {
    BrokenPipe,
    ConnectionReset,
    ConnectionAborted,
    UnexpectedEof,
    Other,
}

/// One I/O failure in the chain of causes of an error: its kind and the
/// operating system's code, when it gave one.
#[derive(Clone, Copy, Debug, PartialEq, Eq, Structural)]
pub struct IoCause {
    pub kind: IoKind,
    pub raw_os_error: Option<i32>,
}

/// The code Windows gives a pipe that the other side half-closed, in place
/// of a broken pipe.
pub const ERROR_NO_DATA: i32 = 232;

/// Whether an I/O failure just means that the peer hung up.
pub open spec fn is_hangup_cause(cause: IoCause) -> bool {
    cause.kind != IoKind::Other || cause.raw_os_error == Some(ERROR_NO_DATA)
}

/// Whether an error only means that the client hung up: some cause in its
/// chain (`None` for a cause that is no I/O failure) is a peer's hangup.
pub fn is_client_hangup(chain: &Vec<Option<IoCause>>) -> (r: bool)
    ensures
        r == exists|i: int| 0 <= i < chain@.len() && (#[trigger] chain@[i] matches Some(c) && is_hangup_cause(c)),
{
    let mut i: usize = 0;
    while i < chain.len()
        invariant
            i <= chain.len(),
            forall|j: int| 0 <= j < i ==> !(#[trigger] chain@[j] matches Some(c) && is_hangup_cause(c)),
        decreases chain.len() - i,
    {
        match chain[i] {
            Some(c) => {
                let hangup = match c.kind {
                    IoKind::Other => match c.raw_os_error {
                        Some(code) => code == ERROR_NO_DATA,
                        None => false,
                    },
                    _ => true,
                };
                if hangup {
                    assert(chain@[i as int] matches Some(c) && is_hangup_cause(c));
                    return true;
                }
            },
            None => {},
        }
        i += 1;
    }
    false
}

// ---------------------------------------------------------------------------
// Lines
// ---------------------------------------------------------------------------

/// Why a request line was refused.
#[derive(Clone, Copy, Debug, PartialEq, Eq, Structural)]
pub enum LineError {
    /// More than `limit` bytes came before the end of the line.
    TooLong { limit: usize },
    /// The line is not UTF-8.
    NotUtf8,
}

impl LineError {
    /// What is reported for the refusal.
    pub open spec fn text(self) -> Seq<char> {
        match self {
            LineError::TooLong { limit } => "IPC message exceeds the "@ + decimal(limit as nat) + "-byte limit"@,
            LineError::NotUtf8 => "IPC request is not valid UTF-8"@,
        }
    }

    /// What is reported for the refusal.
    pub fn message(&self) -> (r: String)
        ensures
            r@ == self.text(),
    {
        match self {
            LineError::TooLong { limit } => {
                let mut s = owned("IPC message exceeds the ");
                push_chars(&mut s, &decimal_chars(*limit as u128));
                push_str(&mut s, "-byte limit");
                s
            },
            LineError::NotUtf8 => owned("IPC request is not valid UTF-8"),
        }
    }
}

/// Where the line that starts at or before `i` ends: just after the first
/// line feed from `i` on, or at the end of `s`.
pub open spec fn line_end(s: Seq<u8>, i: int) -> int
    decreases s.len() - i,
{
    if i < 0 || i >= s.len() {
        s.len() as int
    } else if s[i] == 10u8 {
        i + 1
    } else {
        line_end(s, i + 1)
    }
}

/// A line ends after its start and within the bytes.
pub proof fn lemma_line_end_bounds(s: Seq<u8>, i: int)
    requires
        0 <= i < s.len(),
    ensures
        i < line_end(s, i) <= s.len(),
    decreases s.len() - i,
{
    if s[i] != 10u8 {
        if i + 1 < s.len() {
            lemma_line_end_bounds(s, i + 1);
        } else {
            assert(line_end(s, i + 1) == s.len());
        }
    }
}

/// How many bytes one bounded read of a line takes from `input`: up to and
/// including the first line feed, but never more than `limit + 1`, so an
/// endless line is caught without reading it all.
pub open spec fn read_len(input: Seq<u8>, limit: nat) -> int {
    let end = line_end(input, 0);
    if end <= limit + 1 {
        end
    } else {
        limit as int + 1
    }
}

/// A line without its line feed, and without the carriage return before it.
pub open spec fn line_body(bytes: Seq<u8>) -> Seq<u8> {
    if bytes.len() > 0 && bytes.last() == 10u8 {
        let b = bytes.drop_last();
        if b.len() > 0 && b.last() == 13u8 {
            b.drop_last()
        } else {
            b
        }
    } else {
        bytes
    }
}

/// What one read line stands for: nothing at the end of the stream, a
/// refusal when it is too long or not UTF-8, else its text.
pub open spec fn frame_of(bytes: Seq<u8>, limit: nat) -> Result<Option<Seq<char>>, LineError> {
    if bytes.len() == 0 {
        Ok(None)
    } else if bytes.len() > limit {
        Err(LineError::TooLong { limit: limit as usize })
    } else if !valid_utf8(line_body(bytes)) {
        Err(LineError::NotUtf8)
    } else {
        Ok(Some(decode_utf8(line_body(bytes))))
    }
}

/// `String::from_utf8`: claimed to succeed exactly when the bytes are
/// well-formed UTF-8, and then to hold the characters they encode; the error
/// value is dropped.
#[verifier::external_body]
fn utf8_text(bytes: Vec<u8>) -> (r: Option<String>)
    ensures
        r is Some == valid_utf8(bytes@),
        r matches Some(s) ==> s@ == decode_utf8(bytes@),
{
    String::from_utf8(bytes).ok()
}

/// Turns the bytes of one bounded read into a request line.
pub fn frame_line(bytes: Vec<u8>, limit: usize) -> (r: Result<Option<String>, LineError>)
    ensures
        match frame_of(bytes@, limit as nat) {
            Ok(None) => r matches Ok(None),
            Ok(Some(t)) => r matches Ok(Some(s)) && s@ == t,
            Err(e) => r == Err::<Option<String>, LineError>(e),
        },
{
    if bytes.len() == 0 {
        return Ok(None);
    }
    if bytes.len() > limit {
        return Err(LineError::TooLong { limit });
    }
    let mut body = bytes;
    let ghost whole = body@;
    if body[body.len() - 1] == 10u8 {
        body.pop();
        if body.len() > 0 && body[body.len() - 1] == 13u8 {
            body.pop();
        }
    }
    assert(body@ =~= line_body(whole));
    match utf8_text(body) {
        Some(s) => Ok(Some(s)),
        None => Err(LineError::NotUtf8),
    }
}

/// How many bytes one bounded read of a line takes from `input`.
pub fn bounded_line_len(input: &Vec<u8>, limit: usize) -> (r: usize)
    requires
        limit < usize::MAX,
    ensures
        r == read_len(input@, limit as nat),
        r <= input@.len(),
{
    let mut i: usize = 0;
    proof {
        if input@.len() > 0 {
            lemma_line_end_bounds(input@, 0);
        }
    }
    while i < input.len() && i <= limit
        invariant
            i <= input.len(),
            i <= limit + 1,
            line_end(input@, 0) == line_end(input@, i as int),
            input@.len() > 0 ==> line_end(input@, 0) <= input@.len(),
        decreases input.len() - i,
    {
        if input[i] == 10u8 {
            return i + 1;
        }
        i += 1;
    }
    proof {
        if i < input.len() {
            lemma_line_end_bounds(input@, i as int);
        }
    }
    i
}

/// Reads one request line from buffered `input`, as a bounded read would.
pub fn read_line_limited(input: &Vec<u8>, limit: usize) -> (r: Result<Option<String>, LineError>)
    requires
        limit < usize::MAX,
    ensures
        match frame_of(input@.take(read_len(input@, limit as nat)), limit as nat) {
            Ok(None) => r matches Ok(None),
            Ok(Some(t)) => r matches Ok(Some(s)) && s@ == t,
            Err(e) => r == Err::<Option<String>, LineError>(e),
        },
{
    let n = bounded_line_len(input, limit);
    let mut bytes: Vec<u8> = Vec::new();
    let mut i: usize = 0;
    while i < n
        invariant
            i <= n,
            n <= input.len(),
            bytes@ == input@.take(i as int),
        decreases n - i,
    {
        bytes.push(input[i]);
        assert(input@.take(i as int + 1) =~= input@.take(i as int).push(input@[i as int]));
        i += 1;
    }
    frame_line(bytes, limit)
}

// ---------------------------------------------------------------------------
// Requests
// ---------------------------------------------------------------------------

/// What becomes of one request line.
pub enum Route {
    /// Answer at once and go on reading.
    Reply(ServerMessage),
    /// Acknowledge a subscription with this identifier, then stream events.
    Subscribe { id: u64 },
    /// Hand the request to the agent and wait for its answer.
    Forward(ClientRequest),
}

/// The refusal of a client that speaks another protocol version.
pub open spec fn mismatch_text(client: u32, agent: u32) -> Seq<char> {
    "client protocol version "@ + decimal(client as nat) + " is incompatible with agent version "@ + decimal(
        agent as nat,
    )
}

/// What becomes of a request line, given what parsing it gave: a line that is
/// no request is answered as invalid under identifier 0; a request in another
/// protocol version is refused; a subscription is set up here; anything else
/// goes on to the agent.
pub fn route_request(parsed: Result<ClientRequest, String>, agent_version: u32) -> (r: Route)
    ensures
        match parsed {
            Err(e) => r matches Route::Reply(ServerMessage::Response {
                id,
                result: ResponseResult::Error { code, message },
            }) && id == 0 && code == ErrorCode::InvalidRequest && message@ == e@,
            Ok(request) => if request.protocol_version != agent_version {
                r matches Route::Reply(ServerMessage::Response {
                    id,
                    result: ResponseResult::Error { code, message },
                }) && id == request.id && code == ErrorCode::VersionMismatch && message@ == mismatch_text(
                    request.protocol_version,
                    agent_version,
                )
            } else if request.command is Subscribe {
                r == (Route::Subscribe { id: request.id })
            } else {
                r == Route::Forward(request)
            },
        },
{
    match parsed {
        Err(e) => Route::Reply(ServerMessage::error(0, ErrorCode::InvalidRequest, e)),
        Ok(request) => {
            if request.protocol_version != agent_version {
                let mut m = owned("client protocol version ");
                push_chars(&mut m, &decimal_chars(request.protocol_version as u128));
                push_str(&mut m, " is incompatible with agent version ");
                push_chars(&mut m, &decimal_chars(agent_version as u128));
                Route::Reply(ServerMessage::error(request.id, ErrorCode::VersionMismatch, m))
            } else {
                match request.command {
                    RequestCommand::Subscribe => Route::Subscribe { id: request.id },
                    _ => Route::Forward(request),
                }
            }
        },
    }
}

} // verus!
