use chat_mio::chat::{ChatLoop, LoopState, Mode};
use chat_mio::effect::{Effect, LoopError};
use chat_mio::endpoint::{EndpointRole, ReadinessEvent, CONNECTION_ID, LISTENER_ID, TERMINAL_ID};
use chat_mio::event::{LoopEvent, ReadOutcome};
use chat_mio::notice::Notice;
use chat_mio::readiness::observe;
use chat_mio::registry::RegisteredSource;

fn ready(source: usize) -> LoopEvent {
    LoopEvent::Ready(ReadinessEvent { source, readable: true })
}

fn bytes(text: &str) -> ReadOutcome {
    ReadOutcome::Bytes(text.as_bytes().to_vec())
}

#[test]
fn server_echoes_one_message_after_the_accept_notice() {
    let (mut chat, opening) = ChatLoop::start(Mode::Serve, 5, 0);
    assert_eq!(
        opening,
        vec![
            Effect::Register { id: LISTENER_ID, role: EndpointRole::Listener, handle: 5 },
            Effect::Register { id: TERMINAL_ID, role: EndpointRole::Terminal, handle: 0 },
        ]
    );
    assert!(chat.should_continue());

    let mut shown: Vec<Effect> = Vec::new();
    assert_eq!(chat.step(ready(LISTENER_ID)), Ok(vec![Effect::Accept]));
    let accepted = chat
        .step(LoopEvent::Accepted { handle: 9, peer: String::from("127.0.0.1:40000") })
        .unwrap();
    assert_eq!(
        accepted,
        vec![
            Effect::Deregister { id: LISTENER_ID },
            Effect::Notify {
                notice: Notice::PeerAccepted { peer: String::from("127.0.0.1:40000") }
            },
            Effect::Register { id: CONNECTION_ID, role: EndpointRole::Connection, handle: 9 },
        ]
    );
    shown.extend(accepted);
    assert_eq!(
        chat.state(),
        LoopState { listener: None, connection: Some(9), terminal_at_eof: false }
    );

    assert_eq!(chat.step(ready(CONNECTION_ID)), Ok(vec![Effect::ReadConnection]));
    assert_eq!(
        chat.step(LoopEvent::ConnectionRead(bytes("hi\n"))),
        Ok(vec![Effect::ReadConnection])
    );
    assert_eq!(chat.gathered(), 3);
    let printed = chat.step(LoopEvent::ConnectionRead(ReadOutcome::WouldBlock)).unwrap();
    assert_eq!(printed, vec![Effect::Print { bytes: vec![7, b'h', b'i', b'\n'] }]);
    shown.extend(printed);
    assert_eq!(chat.gathered(), 0);
    assert!(chat.should_continue());

    let notice_at = shown.iter().position(|e| matches!(e, Effect::Notify { .. })).unwrap();
    let print_at = shown.iter().position(|e| matches!(e, Effect::Print { .. })).unwrap();
    assert!(notice_at < print_at);
}

#[test]
fn client_leaves_on_terminal_eof_without_writing() {
    let (mut chat, opening) = ChatLoop::start(Mode::Connect, 4, 0);
    assert_eq!(
        opening,
        vec![
            Effect::Register { id: CONNECTION_ID, role: EndpointRole::Connection, handle: 4 },
            Effect::Register { id: TERMINAL_ID, role: EndpointRole::Terminal, handle: 0 },
        ]
    );
    assert!(chat.should_continue());
    assert_eq!(chat.step(ready(TERMINAL_ID)), Ok(vec![Effect::ReadTerminal { limit: 512 }]));
    let effects = chat.step(LoopEvent::TerminalRead(ReadOutcome::Bytes(Vec::new()))).unwrap();
    assert_eq!(effects, vec![Effect::Notify { notice: Notice::TerminalEof }]);
    assert!(!effects.iter().any(|e| matches!(e, Effect::SendToPeer { .. } | Effect::Print { .. })));
    assert_eq!(
        chat.state(),
        LoopState { listener: None, connection: Some(4), terminal_at_eof: true }
    );
    assert!(!chat.should_continue());
}

#[test]
fn peer_disconnect_ends_the_client_though_the_terminal_is_open() {
    let (mut chat, _) = ChatLoop::start(Mode::Connect, 4, 0);
    assert_eq!(chat.step(ready(CONNECTION_ID)), Ok(vec![Effect::ReadConnection]));
    assert_eq!(
        chat.step(LoopEvent::ConnectionRead(ReadOutcome::Bytes(Vec::new()))),
        Ok(vec![
            Effect::Notify { notice: Notice::PeerClosed },
            Effect::Deregister { id: CONNECTION_ID },
            Effect::Print { bytes: vec![7] },
        ])
    );
    assert_eq!(
        chat.state(),
        LoopState { listener: None, connection: None, terminal_at_eof: false }
    );
    assert_eq!(chat.registered(CONNECTION_ID), None);
    assert!(!chat.should_continue());
}

#[test]
fn server_drops_input_typed_before_a_peer_connects() {
    let (mut chat, _) = ChatLoop::start(Mode::Serve, 5, 0);
    let before = chat.state();
    assert_eq!(chat.step(ready(TERMINAL_ID)), Ok(vec![Effect::ReadTerminal { limit: 512 }]));
    assert_eq!(
        chat.step(LoopEvent::TerminalRead(bytes("hello\n"))),
        Ok(vec![Effect::Notify { notice: Notice::InputDropped }])
    );
    assert_eq!(chat.state(), before);
    assert_eq!(chat.gathered(), 0);
    assert!(chat.should_continue());
    assert_eq!(chat.step(ready(LISTENER_ID)), Ok(vec![Effect::Accept]));
    let after_accept =
        chat.step(LoopEvent::Accepted { handle: 9, peer: String::from("peer") }).unwrap();
    assert!(!after_accept.iter().any(|e| matches!(e, Effect::SendToPeer { .. })));
}

#[test]
fn terminal_input_goes_to_the_peer_unchanged() {
    let (mut chat, _) = ChatLoop::start(Mode::Connect, 4, 0);
    let line: Vec<u8> = vec![0, 255, b'a', b'\n', 7, 0];
    assert_eq!(
        chat.step(LoopEvent::TerminalRead(ReadOutcome::Bytes(line.clone()))),
        Ok(vec![Effect::SendToPeer { bytes: line }])
    );
    assert_eq!(
        chat.state(),
        LoopState { listener: None, connection: Some(4), terminal_at_eof: false }
    );
}

#[test]
fn terminal_is_not_read_again_after_its_eof() {
    let (mut chat, _) = ChatLoop::start(Mode::Serve, 5, 0);
    chat.step(LoopEvent::TerminalRead(ReadOutcome::Bytes(Vec::new()))).unwrap();
    assert!(chat.state().terminal_at_eof);
    assert_eq!(chat.step(ready(TERMINAL_ID)), Ok(vec![]));
    assert_eq!(chat.step(ready(LISTENER_ID)), Ok(vec![Effect::Accept]));
    chat.step(LoopEvent::Accepted { handle: 9, peer: String::from("peer") }).unwrap();
    assert_eq!(chat.step(ready(TERMINAL_ID)), Ok(vec![]));
    assert!(chat.state().terminal_at_eof);
    assert!(!chat.should_continue());
}

#[test]
fn zero_length_terminal_read_never_writes_to_the_peer() {
    for mode in [Mode::Serve, Mode::Connect] {
        let (mut chat, _) = ChatLoop::start(mode, 4, 0);
        let effects = chat.terminal_read(ReadOutcome::Bytes(Vec::new())).unwrap();
        assert_eq!(effects, vec![Effect::Notify { notice: Notice::TerminalEof }]);
        assert!(chat.state().terminal_at_eof);
    }
}

#[test]
fn accept_happens_once() {
    let (mut chat, _) = ChatLoop::start(Mode::Serve, 5, 0);
    chat.step(LoopEvent::Accepted { handle: 9, peer: String::from("first") }).unwrap();
    assert_eq!(chat.registered(LISTENER_ID), None);
    assert_eq!(
        chat.registered(CONNECTION_ID),
        Some(RegisteredSource { id: CONNECTION_ID, role: EndpointRole::Connection, handle: 9 })
    );
    assert_eq!(chat.step(ready(LISTENER_ID)), Err(LoopError::NoListener));
    assert_eq!(
        chat.step(LoopEvent::Accepted { handle: 10, peer: String::from("second") }),
        Err(LoopError::NoListener)
    );
    assert_eq!(
        chat.state(),
        LoopState { listener: None, connection: Some(9), terminal_at_eof: false }
    );
    chat.step(LoopEvent::ConnectionRead(ReadOutcome::Bytes(Vec::new()))).unwrap();
    assert_eq!(
        chat.step(LoopEvent::Accepted { handle: 11, peer: String::from("third") }),
        Err(LoopError::NoListener)
    );
    assert_eq!(chat.registered(LISTENER_ID), None);
}

#[test]
fn peer_eof_does_not_recur() {
    let (mut chat, _) = ChatLoop::start(Mode::Connect, 4, 0);
    chat.step(LoopEvent::ConnectionRead(ReadOutcome::Bytes(Vec::new()))).unwrap();
    assert_eq!(chat.state().connection, None);
    assert_eq!(chat.step(ready(CONNECTION_ID)), Err(LoopError::NotConnected));
    assert_eq!(
        chat.step(LoopEvent::ConnectionRead(ReadOutcome::Bytes(Vec::new()))),
        Err(LoopError::NotConnected)
    );
    assert_eq!(
        chat.step(LoopEvent::ConnectionRead(bytes("late"))),
        Err(LoopError::NotConnected)
    );
    assert_eq!(chat.gathered(), 0);
    assert_eq!(
        chat.step(LoopEvent::TerminalRead(bytes("anyone?"))),
        Ok(vec![Effect::Notify { notice: Notice::InputDropped }])
    );
}

#[test]
fn drain_gathers_chunks_in_order_until_it_would_block() {
    let (mut chat, _) = ChatLoop::start(Mode::Connect, 4, 0);
    assert_eq!(chat.connection_read(bytes("ab")), Ok(vec![Effect::ReadConnection]));
    assert_eq!(chat.connection_read(bytes("c")), Ok(vec![Effect::ReadConnection]));
    assert_eq!(chat.connection_read(bytes("def")), Ok(vec![Effect::ReadConnection]));
    assert_eq!(chat.gathered(), 6);
    assert_eq!(
        chat.connection_read(ReadOutcome::WouldBlock),
        Ok(vec![Effect::Print { bytes: b"\x07abcdef".to_vec() }])
    );
    assert_eq!(chat.gathered(), 0);
    assert_eq!(chat.state().connection, Some(4));
}

#[test]
fn empty_drain_still_prints_the_bell() {
    let (mut chat, _) = ChatLoop::start(Mode::Connect, 4, 0);
    assert_eq!(
        chat.connection_read(ReadOutcome::WouldBlock),
        Ok(vec![Effect::Print { bytes: vec![7] }])
    );
    assert!(chat.should_continue());
}

#[test]
fn bytes_gathered_before_the_peer_closes_are_printed_first() {
    let (mut chat, _) = ChatLoop::start(Mode::Connect, 4, 0);
    chat.connection_read(bytes("bye")).unwrap();
    assert_eq!(
        chat.connection_read(ReadOutcome::Bytes(Vec::new())),
        Ok(vec![
            Effect::Print { bytes: b"\x07bye".to_vec() },
            Effect::Notify { notice: Notice::PeerClosed },
            Effect::Deregister { id: CONNECTION_ID },
            Effect::Print { bytes: vec![7] },
        ])
    );
    assert_eq!(chat.gathered(), 0);
    assert_eq!(chat.state().connection, None);
}

#[test]
fn every_fatal_condition_is_reported_and_changes_nothing() {
    let (mut chat, _) = ChatLoop::start(Mode::Serve, 5, 0);
    let before = chat.state();
    assert_eq!(chat.step(ready(3)), Err(LoopError::UnknownSource));
    assert_eq!(chat.step(ready(usize::MAX)), Err(LoopError::UnknownSource));
    assert_eq!(chat.step(ready(CONNECTION_ID)), Err(LoopError::NotConnected));
    assert_eq!(
        chat.step(LoopEvent::ConnectionRead(ReadOutcome::WouldBlock)),
        Err(LoopError::NotConnected)
    );
    assert_eq!(chat.step(LoopEvent::AcceptFailed), Err(LoopError::AcceptFailed));
    assert_eq!(
        chat.step(LoopEvent::TerminalRead(ReadOutcome::Failed)),
        Err(LoopError::TerminalReadFailed)
    );
    assert_eq!(chat.state(), before);
    assert_eq!(
        chat.registered(LISTENER_ID),
        Some(RegisteredSource { id: LISTENER_ID, role: EndpointRole::Listener, handle: 5 })
    );

    let (mut client, _) = ChatLoop::start(Mode::Connect, 4, 0);
    client.connection_read(bytes("kept")).unwrap();
    assert_eq!(
        client.step(LoopEvent::ConnectionRead(ReadOutcome::Failed)),
        Err(LoopError::ConnectionReadFailed)
    );
    assert_eq!(client.gathered(), 4);
    assert_eq!(client.step(ready(LISTENER_ID)), Err(LoopError::NoListener));
    assert_eq!(client.state().connection, Some(4));
}

#[test]
fn would_block_on_the_terminal_is_no_error() {
    let (mut chat, _) = ChatLoop::start(Mode::Connect, 4, 0);
    assert_eq!(chat.step(LoopEvent::TerminalRead(ReadOutcome::WouldBlock)), Ok(vec![]));
    assert!(!chat.state().terminal_at_eof);
    assert!(chat.should_continue());
}

#[test]
fn reports_are_told_apart_by_source_alone() {
    let (chat, _) = ChatLoop::start(Mode::Connect, 4, 0);
    let quiet = ReadinessEvent { source: CONNECTION_ID, readable: false };
    assert_eq!(chat.ready(quiet), Ok(vec![Effect::ReadConnection]));
    let loud = ReadinessEvent { source: CONNECTION_ID, readable: true };
    assert_eq!(chat.ready(loud), Ok(vec![Effect::ReadConnection]));
}

#[test]
fn poll_events_drive_the_loop() {
    let (mut chat, _) = ChatLoop::start(Mode::Serve, 5, 0);
    let from_poll = mio::event::Event::new(mio::Ready::readable(), mio::Token(LISTENER_ID));
    assert_eq!(chat.step(LoopEvent::Ready(observe(&from_poll))), Ok(vec![Effect::Accept]));
    let terminal = mio::event::Event::new(mio::Ready::readable(), mio::Token(TERMINAL_ID));
    assert_eq!(
        chat.step(LoopEvent::Ready(observe(&terminal))),
        Ok(vec![Effect::ReadTerminal { limit: 512 }])
    );
    let stray = mio::event::Event::new(mio::Ready::readable(), mio::Token(40));
    assert_eq!(chat.step(LoopEvent::Ready(observe(&stray))), Err(LoopError::UnknownSource));
}

#[test]
fn loop_goes_on_exactly_while_input_is_open_and_a_peer_slot_is_used() {
    let cases = [
        (None, None, false, false),
        (Some(1), None, false, true),
        (None, Some(2), false, true),
        (Some(1), Some(2), false, true),
        (None, None, true, false),
        (Some(1), None, true, false),
        (None, Some(2), true, false),
        (Some(1), Some(2), true, false),
    ];
    for (listener, connection, terminal_at_eof, expected) in cases {
        let state = LoopState { listener, connection, terminal_at_eof };
        assert_eq!(state.should_continue(), expected);
    }
}

#[test]
fn startup_registers_the_terminal_and_one_peer_source() {
    let (server, _) = ChatLoop::start(Mode::Serve, 5, 0);
    assert_eq!(
        server.state(),
        LoopState { listener: Some(5), connection: None, terminal_at_eof: false }
    );
    assert_eq!(
        server.registered(TERMINAL_ID),
        Some(RegisteredSource { id: TERMINAL_ID, role: EndpointRole::Terminal, handle: 0 })
    );
    assert_eq!(server.registered(CONNECTION_ID), None);
    let (client, _) = ChatLoop::start(Mode::Connect, -1, 3);
    assert_eq!(
        client.state(),
        LoopState { listener: None, connection: Some(-1), terminal_at_eof: false }
    );
    assert_eq!(
        client.registered(TERMINAL_ID),
        Some(RegisteredSource { id: TERMINAL_ID, role: EndpointRole::Terminal, handle: 3 })
    );
    assert_eq!(client.registered(LISTENER_ID), None);
}
