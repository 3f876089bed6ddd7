use std::sync::mpsc;

use gflick::ipc::{
    bounded_line_len, complete_subscription_registration, frame_line, is_client_hangup,
    read_line_limited, register_subscriber, remove_subscriber,
    route_request, IoCause, IoKind, LineError, Route, Subscriber,
};
use gflick::protocol::{
    AgentEvent, ClientRequest, ErrorCode, RequestCommand, ResponseResult, ServerMessage,
};

const LIMIT: usize = 1024;

fn io(kind: IoKind) -> Option<IoCause> {
    Some(IoCause { kind, raw_os_error: None })
}

#[test]
fn reads_one_bounded_json_line() {
    let input = b"{\"id\":1}\r\nremaining".to_vec();
    assert_eq!(read_line_limited(&input, LIMIT).unwrap(), Some("{\"id\":1}".to_owned()));
    assert_eq!(bounded_line_len(&input, LIMIT), 10);
}

#[test]
fn rejects_an_oversized_line() {
    let input = vec![b'x'; LIMIT + 1];
    assert!(read_line_limited(&input, LIMIT).is_err());
    assert_eq!(
        read_line_limited(&input, LIMIT).unwrap_err().message(),
        "IPC message exceeds the 1024-byte limit"
    );
}

#[test]
fn a_line_at_the_limit_still_fits() {
    let mut input = vec![b'a'; LIMIT - 1];
    input.push(b'\n');
    input.extend_from_slice(b"next");
    assert_eq!(read_line_limited(&input, LIMIT).unwrap().unwrap().len(), LIMIT - 1);
}

#[test]
fn end_of_stream_and_bare_lines() {
    assert_eq!(read_line_limited(&vec![], LIMIT).unwrap(), None);
    assert_eq!(read_line_limited(&b"\n".to_vec(), LIMIT).unwrap(), Some(String::new()));
    assert_eq!(read_line_limited(&b"tail".to_vec(), LIMIT).unwrap(), Some("tail".to_owned()));
    assert_eq!(frame_line(b"a\rb\n".to_vec(), LIMIT).unwrap(), Some("a\rb".to_owned()));
}

#[test]
fn invalid_utf8_is_refused() {
    let refusal = frame_line(vec![0xff, 0xfe, b'\n'], LIMIT).unwrap_err();
    assert_eq!(refusal, LineError::NotUtf8);
    assert_eq!(refusal.message(), "IPC request is not valid UTF-8");
    assert_eq!(frame_line("é\n".as_bytes().to_vec(), LIMIT).unwrap(), Some("é".to_owned()));
}

#[test]
fn treats_peer_closure_as_a_hangup() {
    for kind in [IoKind::BrokenPipe, IoKind::ConnectionReset, IoKind::ConnectionAborted, IoKind::UnexpectedEof] {
        assert!(is_client_hangup(&vec![io(kind)]), "{kind:?} should be a hangup");
    }
}

#[test]
fn treats_windows_pipe_closing_as_a_hangup() {
    assert!(is_client_hangup(&vec![Some(IoCause { kind: IoKind::Other, raw_os_error: Some(232) })]));
}

#[test]
fn finds_a_hangup_through_added_context() {
    assert!(is_client_hangup(&vec![None, io(IoKind::BrokenPipe)]));
}

#[test]
fn keeps_reporting_real_faults() {
    assert!(!is_client_hangup(&vec![None]));
    assert!(!is_client_hangup(&vec![io(IoKind::Other)]));
    assert!(!is_client_hangup(&vec![Some(IoCause { kind: IoKind::Other, raw_os_error: Some(5) })]));
}

#[test]
fn dropping_a_subscriber_ends_its_parked_recv() {
    let (event_tx, event_rx) = mpsc::channel::<AgentEvent>();
    let mut subscribers = vec![Subscriber { id: 7, events: event_tx }];
    remove_subscriber(&mut subscribers, 7);
    assert!(subscribers.is_empty());
    assert!(matches!(event_rx.recv(), Err(mpsc::RecvError)));
}

#[test]
fn pruning_one_subscriber_leaves_the_others_connected() {
    let (first_tx, first_rx) = mpsc::channel();
    let (second_tx, second_rx) = mpsc::channel();
    let mut subscribers = vec![Subscriber { id: 1, events: first_tx }, Subscriber { id: 2, events: second_tx }];
    remove_subscriber(&mut subscribers, 1);
    assert!(matches!(first_rx.recv(), Err(mpsc::RecvError)));
    assert_eq!(subscribers.len(), 1);
    assert!(subscribers[0].events.send(AgentEvent::ApplicationShuttingDown).is_ok());
    assert!(second_rx.recv().is_ok());
}

#[test]
fn removing_a_subscriber_twice_is_harmless() {
    let (event_tx, event_rx) = mpsc::channel::<AgentEvent>();
    let (survivor_tx, _survivor_rx) = mpsc::channel::<AgentEvent>();
    let mut subscribers = vec![Subscriber { id: 8, events: survivor_tx }, Subscriber { id: 7, events: event_tx }];
    remove_subscriber(&mut subscribers, 7);
    remove_subscriber(&mut subscribers, 7);
    remove_subscriber(&mut subscribers, 999);
    assert_eq!(subscribers.len(), 1);
    assert_eq!(subscribers[0].id, 8);
    assert!(matches!(event_rx.recv(), Err(mpsc::RecvError)));
}

fn request(version: u32, command: RequestCommand) -> ClientRequest {
    ClientRequest { id: 9, protocol_version: version, command }
}

#[test]
fn unparsable_line_is_answered_as_invalid() {
    match route_request(Err("expected value".to_owned()), 3) {
        Route::Reply(ServerMessage::Response { id: 0, result: ResponseResult::Error { code, message } }) => {
            assert_eq!(code, ErrorCode::InvalidRequest);
            assert_eq!(message, "expected value");
        }
        _ => panic!("an invalid line must be answered"),
    }
}

#[test]
fn other_protocol_version_is_refused() {
    match route_request(Ok(request(2, RequestCommand::Ping)), 3) {
        Route::Reply(ServerMessage::Response { id: 9, result: ResponseResult::Error { code, message } }) => {
            assert_eq!(code, ErrorCode::VersionMismatch);
            assert_eq!(message, "client protocol version 2 is incompatible with agent version 3");
        }
        _ => panic!("a version mismatch must be answered"),
    }
}

#[test]
fn subscriptions_stay_here_and_requests_go_on() {
    assert!(matches!(route_request(Ok(request(3, RequestCommand::Subscribe)), 3), Route::Subscribe { id: 9 }));
    match route_request(Ok(request(3, RequestCommand::ListDevices)), 3) {
        Route::Forward(r) => assert_eq!(r, request(3, RequestCommand::ListDevices)),
        _ => panic!("a request must reach the agent"),
    }
}

#[test]
fn acknowledgement_failure_rolls_back_subscription() {
    let (event_tx, event_rx) = mpsc::channel::<AgentEvent>();
    let mut subscribers = Vec::new();
    register_subscriber(&mut subscribers, 7, event_tx);

    let error = complete_subscription_registration(
        &mut subscribers,
        7,
        || Err("acknowledgement failed".to_owned()),
        || Ok(()),
    )
    .unwrap_err();

    assert_eq!(error, "acknowledgement failed");
    assert!(subscribers.is_empty());
    assert!(matches!(event_rx.recv(), Err(mpsc::RecvError)));
}

#[test]
fn watcher_spawn_failure_rolls_back_subscription() {
    let (event_tx, event_rx) = mpsc::channel::<AgentEvent>();
    let mut subscribers = Vec::new();
    register_subscriber(&mut subscribers, 7, event_tx);

    let error =
        complete_subscription_registration(&mut subscribers, 7, || Ok(()), || Err("watcher failed".to_owned()))
            .unwrap_err();

    assert_eq!(error, "watcher failed");
    assert!(subscribers.is_empty());
    assert!(matches!(event_rx.recv(), Err(mpsc::RecvError)));
}

#[test]
fn a_completed_subscription_stays() {
    let (event_tx, event_rx) = mpsc::channel::<AgentEvent>();
    let mut subscribers = Vec::new();
    register_subscriber(&mut subscribers, 7, event_tx);
    assert!(complete_subscription_registration(&mut subscribers, 7, || Ok(()), || Ok(())).is_ok());
    assert_eq!(subscribers.len(), 1);
    assert!(subscribers[0].events.send(AgentEvent::ApplicationShuttingDown).is_ok());
    assert!(event_rx.recv().is_ok());
}
