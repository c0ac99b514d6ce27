use chat_mio::endpoint::{EndpointRole, ReadinessEvent, CONNECTION_ID, LISTENER_ID, TERMINAL_ID};
use chat_mio::readiness::observe;
use mio::event::Event;
use mio::{Ready, Token};

#[test]
fn observe_reads_token_and_readable_bit() {
    let seen = observe(&Event::new(Ready::readable(), Token(2)));
    assert_eq!(seen, ReadinessEvent { source: 2, readable: true });
}

#[test]
fn observe_tells_sources_apart() {
    let a = observe(&Event::new(Ready::readable(), Token(0)));
    let b = observe(&Event::new(Ready::readable(), Token(1)));
    let c = observe(&Event::new(Ready::readable(), Token(77)));
    assert_eq!(a.source, TERMINAL_ID);
    assert_eq!(b.source, LISTENER_ID);
    assert_eq!(c.source, 77);
}

#[test]
fn observe_reports_missing_readable_bit() {
    let seen = observe(&Event::new(Ready::writable(), Token(1)));
    assert_eq!(seen, ReadinessEvent { source: 1, readable: false });
    let both = observe(&Event::new(Ready::readable() | Ready::writable(), Token(1)));
    assert!(both.readable);
    let none = observe(&Event::new(Ready::empty(), Token(0)));
    assert!(!none.readable);
}

#[test]
fn identifiers_match_roles() {
    assert_eq!(EndpointRole::Terminal.identifier(), TERMINAL_ID);
    assert_eq!(EndpointRole::Listener.identifier(), LISTENER_ID);
    assert_eq!(EndpointRole::Connection.identifier(), CONNECTION_ID);
    assert_eq!(TERMINAL_ID, 0);
    assert_eq!(LISTENER_ID, 1);
    assert_eq!(CONNECTION_ID, 2);
}

#[test]
fn identifiers_read_back_into_roles() {
    assert_eq!(EndpointRole::of_identifier(0), Some(EndpointRole::Terminal));
    assert_eq!(EndpointRole::of_identifier(1), Some(EndpointRole::Listener));
    assert_eq!(EndpointRole::of_identifier(2), Some(EndpointRole::Connection));
    assert_eq!(EndpointRole::of_identifier(3), None);
    assert_eq!(EndpointRole::of_identifier(usize::MAX), None);
}
