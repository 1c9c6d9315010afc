use dora_event_stream::messages::{DaemonData, DaemonReply, DaemonRequest, DropToken, NodeEvent};
use dora_event_stream::pump::{
    AckAction, AckOutcome, EventAction, EventPump, PumpPhase, ReplyAction, TerminalAction, TransportError,
};
use dora_event_stream::stream::{Data, Event, EventItem, EventStreamState};

fn token(id: u128) -> DropToken {
    DropToken { id }
}

fn inline_input(id: &str, bytes: &[u8]) -> NodeEvent {
    NodeEvent::Input { id: id.to_string(), metadata: Vec::new(), data: Some(DaemonData::Vec(bytes.to_vec())) }
}

fn shared_input(id: &str, shm: &str, len: usize, t: DropToken) -> NodeEvent {
    NodeEvent::Input {
        id: id.to_string(),
        metadata: Vec::new(),
        data: Some(DaemonData::SharedMemory { shared_memory_id: shm.to_string(), len, drop_token: t }),
    }
}

fn request_tokens(req: DaemonRequest) -> Vec<DropToken> {
    match req {
        DaemonRequest::NextEvent { drop_tokens } => drop_tokens,
        other => panic!("unexpected request {other:?}"),
    }
}

/// Sends a request and answers it with `batch`; returns the events to process.
fn exchange(pump: &mut EventPump, batch: Vec<NodeEvent>) -> (Vec<DropToken>, ReplyAction) {
    let tokens = request_tokens(pump.next_request());
    let action = pump.handle_reply(Ok(DaemonReply::NextEvents(batch)));
    (tokens, action)
}

fn batch_of(action: ReplyAction) -> Vec<NodeEvent> {
    match action {
        ReplyAction::Process(events) => events,
        other => panic!("expected a batch, got {other:?}"),
    }
}

fn delivered(action: EventAction) -> NodeEvent {
    match action {
        EventAction::Deliver(event) => event,
        other => panic!("expected a delivery, got {other:?}"),
    }
}

#[test]
fn happy_inline() {
    let mut pump = EventPump::new();
    let mut stream = EventStreamState::new();
    let (tokens, action) = exchange(&mut pump, vec![inline_input("a", b"hello")]);
    assert!(tokens.is_empty());
    let mut events = batch_of(action);
    let event = delivered(pump.handle_event(events.remove(0)));
    pump.handoff_result(true);
    let user = stream.recv_common(Some(EventItem::NodeEvent(event)), Ok(()));
    match user {
        Some(Event::Input { id, data: Some(Data::Vec(bytes)), .. }) => {
            assert_eq!(id, "a");
            assert_eq!(bytes, b"hello".to_vec());
        }
        other => panic!("unexpected {other:?}"),
    }
    assert!(matches!(pump.handle_ack(AckOutcome::Disconnected), AckAction::Released(None)));
    pump.finish_batch();
    let (tokens, action) = exchange(&mut pump, vec![]);
    assert!(tokens.is_empty());
    assert!(matches!(action, ReplyAction::Finish));
    assert!(matches!(pump.phase, PumpPhase::Drained));
    assert!(matches!(pump.terminal_action(), TerminalAction::Done));
    assert!(stream.recv_common(None, Ok(())).is_none());
}

#[test]
fn shared_release() {
    let t1 = token(1);
    let mut pump = EventPump::new();
    let mut stream = EventStreamState::new();
    let (_, action) = exchange(&mut pump, vec![shared_input("x", "seg1", 16, t1)]);
    let mut events = batch_of(action);
    let event = delivered(pump.handle_event(events.remove(0)));
    pump.handoff_result(true);
    match stream.recv_common(Some(EventItem::NodeEvent(event)), Ok(())) {
        Some(Event::Input { id, data: Some(Data::SharedMemory { shared_memory_id, len }), .. }) => {
            assert_eq!(id, "x");
            assert_eq!(shared_memory_id, "seg1");
            assert_eq!(len, 16);
        }
        other => panic!("unexpected {other:?}"),
    }
    assert!(matches!(pump.handle_ack(AckOutcome::Disconnected), AckAction::Released(Some(t)) if t == t1));
    pump.finish_batch();
    let (tokens, action) = exchange(&mut pump, vec![]);
    assert_eq!(tokens, vec![t1]);
    assert!(matches!(action, ReplyAction::Finish));
}

#[test]
fn backpressure() {
    let (t1, t2) = (token(1), token(2));
    let mut pump = EventPump::new();
    let (_, action) = exchange(&mut pump, vec![shared_input("in", "s1", 4, t1), shared_input("in", "s2", 4, t2)]);
    let mut events = batch_of(action);
    let first = delivered(pump.handle_event(events.remove(0)));
    pump.handoff_result(true);
    assert!(matches!(first, NodeEvent::Input { .. }));
    // the first event is still held: no new request may go out
    assert!(matches!(pump.phase, PumpPhase::AwaitingAck { drop_token: Some(t) } if t == t1));
    assert!(matches!(pump.handle_ack(AckOutcome::Disconnected), AckAction::Released(Some(t)) if t == t1));
    let second = delivered(pump.handle_event(events.remove(0)));
    assert!(matches!(second, NodeEvent::Input { data: Some(DaemonData::SharedMemory { drop_token, .. }), .. } if drop_token == t2));
    assert!(matches!(pump.phase, PumpPhase::Handoff { drop_token: Some(t) } if t == t2));
}

#[test]
fn leak_after_timeout() {
    let t1 = token(1);
    let mut pump = EventPump::new();
    let (_, action) = exchange(&mut pump, vec![shared_input("in", "s1", 4, t1)]);
    let mut events = batch_of(action);
    delivered(pump.handle_event(events.remove(0)));
    pump.handoff_result(true);
    assert!(matches!(pump.handle_ack(AckOutcome::Timeout), AckAction::Leak(Some(t)) if t == t1));
    pump.finish_batch();
    let (tokens, _) = exchange(&mut pump, vec![]);
    assert!(!tokens.contains(&t1));
}

#[test]
fn all_inputs_closed_discards_rest() {
    let mut pump = EventPump::new();
    let mut stream = EventStreamState::new();
    let (_, action) = exchange(&mut pump, vec![NodeEvent::AllInputsClosed, inline_input("z", b"late")]);
    let mut events = batch_of(action);
    assert!(matches!(pump.handle_event(events.remove(0)), EventAction::CloseStream));
    assert!(!pump.stream_open);
    assert!(matches!(pump.handle_event(events.remove(0)), EventAction::Discard(NodeEvent::Input { .. })));
    pump.finish_batch();
    let (_, action) = exchange(&mut pump, vec![]);
    assert!(matches!(action, ReplyAction::Finish));
    // the pump dropped its sender: the next receive sees the disconnection
    assert!(stream.recv_common(None, Ok(())).is_none());
}

#[test]
fn mapping_failure() {
    let t3 = token(3);
    let mut pump = EventPump::new();
    let mut stream = EventStreamState::new();
    let (_, action) = exchange(&mut pump, vec![shared_input("q", "missing", 8, t3)]);
    let mut events = batch_of(action);
    let event = delivered(pump.handle_event(events.remove(0)));
    pump.handoff_result(true);
    let user = stream.recv_common(Some(EventItem::NodeEvent(event)), Err("no shared memory segment `missing`".to_string()));
    match user {
        Some(Event::Error(message)) => assert_eq!(message, "no shared memory segment `missing`"),
        other => panic!("unexpected {other:?}"),
    }
    assert!(!stream.closed);
    pump.handle_ack(AckOutcome::Disconnected);
    pump.finish_batch();
    let (_, action) = exchange(&mut pump, vec![]);
    assert!(matches!(action, ReplyAction::Finish));
    assert!(stream.recv_common(None, Ok(())).is_none());
}

#[test]
fn mapping_failure_does_not_halt_stream() {
    let mut stream = EventStreamState::new();
    let failed = stream.recv_common(
        Some(EventItem::NodeEvent(shared_input("q", "missing", 8, token(3)))),
        Err("missing".to_string()),
    );
    assert!(matches!(failed, Some(Event::Error(_))));
    let next = stream.recv_common(Some(EventItem::NodeEvent(inline_input("r", b"ok"))), Ok(()));
    assert!(matches!(next, Some(Event::Input { id, .. }) if id == "r"));
}

#[test]
fn empty_initial_batch_closes_stream() {
    let mut pump = EventPump::new();
    let mut stream = EventStreamState::new();
    let (tokens, action) = exchange(&mut pump, vec![]);
    assert!(tokens.is_empty());
    assert!(matches!(action, ReplyAction::Finish));
    assert!(matches!(pump.terminal_action(), TerminalAction::Done));
    assert!(stream.recv_common(None, Ok(())).is_none());
}

#[test]
fn nothing_after_end_of_stream() {
    let mut stream = EventStreamState::new();
    assert!(stream.recv_common(None, Ok(())).is_none());
    assert!(stream.recv_common(None, Ok(())).is_none());
    assert!(stream.recv_common(Some(EventItem::NodeEvent(NodeEvent::Stop)), Ok(())).is_none());
    assert!(stream.closed);
}

#[test]
fn output_dropped_is_reported_not_delivered() {
    let mut pump = EventPump::new();
    let (_, action) = exchange(&mut pump, vec![NodeEvent::OutputDropped { drop_token: token(9) }, NodeEvent::Stop]);
    let mut events = batch_of(action);
    assert!(matches!(pump.handle_event(events.remove(0)), EventAction::ReportDropped(t) if t == token(9)));
    assert!(matches!(delivered(pump.handle_event(events.remove(0))), NodeEvent::Stop));
}

#[test]
fn tokens_returned_once_in_order() {
    let (t1, t2) = (token(1), token(2));
    let mut pump = EventPump::new();
    let (_, action) = exchange(&mut pump, vec![shared_input("a", "s1", 1, t1), inline_input("b", b"x"), shared_input("c", "s2", 1, t2)]);
    for event in batch_of(action) {
        delivered(pump.handle_event(event));
        pump.handoff_result(true);
        pump.handle_ack(AckOutcome::Disconnected);
    }
    pump.finish_batch();
    let (tokens, _) = exchange(&mut pump, vec![NodeEvent::Stop]);
    assert_eq!(tokens, vec![t1, t2]);
    pump.finish_batch();
    let (tokens, _) = exchange(&mut pump, vec![]);
    assert!(tokens.is_empty());
}

#[test]
fn transport_error_keeps_tokens() {
    let t1 = token(1);
    let mut pump = EventPump::new();
    let (_, action) = exchange(&mut pump, vec![shared_input("a", "s1", 1, t1)]);
    for event in batch_of(action) {
        delivered(pump.handle_event(event));
        pump.handoff_result(true);
        pump.handle_ack(AckOutcome::Disconnected);
    }
    pump.finish_batch();
    assert_eq!(request_tokens(pump.next_request()), vec![t1]);
    match pump.handle_reply(Err(TransportError::Transient("connection reset".to_string()))) {
        ReplyAction::Retry { reason } => assert_eq!(reason, "connection reset"),
        other => panic!("unexpected {other:?}"),
    }
    assert_eq!(request_tokens(pump.next_request()), vec![t1]);
}

#[test]
fn unexpected_reply_is_retried() {
    let mut pump = EventPump::new();
    pump.next_request();
    assert!(matches!(pump.handle_reply(Ok(DaemonReply::Result(Ok(())))), ReplyAction::Retry { .. }));
    assert!(matches!(pump.phase, PumpPhase::Ready));
}

#[test]
fn receiver_gone_cancels() {
    let mut pump = EventPump::new();
    let (_, action) = exchange(&mut pump, vec![NodeEvent::Stop]);
    for event in batch_of(action) {
        delivered(pump.handle_event(event));
        pump.handoff_result(false);
    }
    assert!(matches!(pump.phase, PumpPhase::Cancelled));
    assert!(matches!(pump.terminal_action(), TerminalAction::Done));
}

#[test]
fn value_on_ack_channel_is_fatal() {
    let mut pump = EventPump::new();
    let mut stream = EventStreamState::new();
    let (_, action) = exchange(&mut pump, vec![NodeEvent::Stop]);
    for event in batch_of(action) {
        delivered(pump.handle_event(event));
        pump.handoff_result(true);
        assert!(matches!(pump.handle_ack(AckOutcome::Received), AckAction::Fail));
    }
    let report = match pump.terminal_action() {
        TerminalAction::ReportFatal(report) => report,
        other => panic!("unexpected {other:?}"),
    };
    assert_eq!(report, "Node API should not send anything on ACK channel");
    match stream.recv_common(Some(EventItem::FatalError(report)), Ok(())) {
        Some(Event::Error(message)) => {
            assert_eq!(message, "fatal event stream error: Node API should not send anything on ACK channel")
        }
        other => panic!("unexpected {other:?}"),
    }
}

#[test]
fn internal_events_become_errors() {
    let mut stream = EventStreamState::new();
    let e = stream.recv_common(Some(EventItem::NodeEvent(NodeEvent::AllInputsClosed)), Ok(()));
    assert!(matches!(e, Some(Event::Error(m)) if m == "internal: unexpected event"));
    let e = stream.recv_common(Some(EventItem::NodeEvent(NodeEvent::OutputDropped { drop_token: token(1) })), Ok(()));
    assert!(matches!(e, Some(Event::Error(m)) if m == "internal: unexpected event"));
}

#[test]
fn plain_events_translate() {
    let mut stream = EventStreamState::new();
    assert!(matches!(stream.recv_common(Some(EventItem::NodeEvent(NodeEvent::Stop)), Ok(())), Some(Event::Stop)));
    let reload = NodeEvent::Reload { operator_id: Some("op".to_string()) };
    assert!(matches!(stream.recv_common(Some(EventItem::NodeEvent(reload)), Ok(())), Some(Event::Reload { operator_id: Some(o) }) if o == "op"));
    let closed = NodeEvent::InputClosed { id: "in".to_string() };
    assert!(matches!(stream.recv_common(Some(EventItem::NodeEvent(closed)), Ok(())), Some(Event::InputClosed { id }) if id == "in"));
    let empty = NodeEvent::Input { id: "e".to_string(), metadata: vec![1, 2], data: None };
    assert!(matches!(stream.recv_common(Some(EventItem::NodeEvent(empty)), Ok(())), Some(Event::Input { data: None, metadata, .. }) if metadata == vec![1, 2]));
}

#[test]
fn one_request_at_a_time() {
    let mut pump = EventPump::new();
    assert!(matches!(pump.phase, PumpPhase::Ready));
    pump.next_request();
    assert!(matches!(pump.phase, PumpPhase::AwaitingReply));
    let action = pump.handle_reply(Ok(DaemonReply::NextEvents(vec![NodeEvent::Stop])));
    assert!(matches!(pump.phase, PumpPhase::Processing));
    for event in batch_of(action) {
        delivered(pump.handle_event(event));
        assert!(matches!(pump.phase, PumpPhase::Handoff { drop_token: None }));
        pump.handoff_result(true);
        pump.handle_ack(AckOutcome::Disconnected);
    }
    pump.finish_batch();
    assert!(matches!(pump.phase, PumpPhase::Ready));
}

#[test]
fn delivered_events_keep_daemon_order() {
    let mut pump = EventPump::new();
    let mut stream = EventStreamState::new();
    let batch = vec![
        inline_input("a", b"1"),
        NodeEvent::OutputDropped { drop_token: token(5) },
        NodeEvent::InputClosed { id: "a".to_string() },
        inline_input("b", b"2"),
    ];
    let (_, action) = exchange(&mut pump, batch);
    let mut seen = Vec::new();
    for event in batch_of(action) {
        if let EventAction::Deliver(event) = pump.handle_event(event) {
            pump.handoff_result(true);
            match stream.recv_common(Some(EventItem::NodeEvent(event)), Ok(())) {
                Some(Event::Input { id, .. }) => seen.push(format!("input {id}")),
                Some(Event::InputClosed { id }) => seen.push(format!("closed {id}")),
                other => panic!("unexpected {other:?}"),
            }
            pump.handle_ack(AckOutcome::Disconnected);
        }
    }
    assert_eq!(seen, vec!["input a", "closed a", "input b"]);
}

#[test]
fn subscription_acknowledgement() {
    assert_eq!(DaemonReply::Result(Ok(())).into_ack(), Ok(()));
    assert_eq!(DaemonReply::Result(Err("no such node".to_string())).into_ack(), Err("no such node".to_string()));
    assert_eq!(DaemonReply::NextEvents(vec![]).into_ack(), Err("unexpected reply".to_string()));
}

#[test]
fn discarded_shared_input_returns_its_token() {
    let t = token(7);
    let mut pump = EventPump::new();
    let (_, action) = exchange(&mut pump, vec![NodeEvent::AllInputsClosed, shared_input("z", "seg", 4, t)]);
    for event in batch_of(action) {
        pump.handle_event(event);
    }
    pump.finish_batch();
    let (tokens, action) = exchange(&mut pump, vec![]);
    assert_eq!(tokens, vec![t]);
    assert!(matches!(action, ReplyAction::Finish));
}

#[test]
fn disconnected_daemon_ends_the_loop() {
    let t1 = token(1);
    let mut pump = EventPump::new();
    let (_, action) = exchange(&mut pump, vec![shared_input("a", "s1", 1, t1)]);
    for event in batch_of(action) {
        delivered(pump.handle_event(event));
        pump.handoff_result(true);
        pump.handle_ack(AckOutcome::Disconnected);
    }
    pump.finish_batch();
    pump.next_request();
    assert!(matches!(pump.handle_reply(Err(TransportError::Disconnected)), ReplyAction::Finish));
    assert!(matches!(pump.phase, PumpPhase::Disconnected));
    assert!(matches!(pump.terminal_action(), TerminalAction::Done));
    let mut stream = EventStreamState::new();
    assert!(stream.recv_common(None, Ok(())).is_none());
}

