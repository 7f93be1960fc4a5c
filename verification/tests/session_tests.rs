use chat_relay::messages::Income;
use chat_relay::registry::AddrMap;
use chat_relay::session::{FrameAction, FrameEvent, Session};

#[test]
fn successful_auth_registers_and_authenticates() {
    let mut addrs = AddrMap::new();
    let (session, status) = Session::open(Some("alice".to_string()), 7, &mut addrs);
    assert!(status.is_none());
    assert!(matches!(session, Session::Authenticated { .. }));
    assert_eq!(addrs.get_addr(&"alice".to_string()), Some(7));
}

#[test]
fn failed_auth_never_registers() {
    let mut addrs = AddrMap::new();
    let (session, status) = Session::open(None, 7, &mut addrs);
    assert_eq!(status, Some(403));
    assert!(matches!(session, Session::Closed));
    assert_eq!(addrs.get_addr(&"alice".to_string()), None);
}

#[test]
fn ping_is_answered_with_pong() {
    let mut addrs = AddrMap::new();
    let (mut session, _) = Session::open(Some("alice".to_string()), 7, &mut addrs);
    let actions = session.on_frame(FrameEvent::Ping(vec![1, 2, 3]));
    assert_eq!(actions.len(), 1);
    match &actions[0] {
        FrameAction::Pong(bytes) => assert_eq!(bytes, &vec![1, 2, 3]),
        other => panic!("expected a pong, got {:?}", other),
    }
}

#[test]
fn decoded_frame_is_dispatched_for_the_authenticated_user() {
    let mut addrs = AddrMap::new();
    let (mut session, _) = Session::open(Some("alice".to_string()), 7, &mut addrs);
    let actions = session.on_frame(FrameEvent::Text(Income::ChatMessage {
        to: "bob".to_string(),
        content: "hello".to_string(),
    }));
    assert_eq!(actions.len(), 1);
    match &actions[0] {
        FrameAction::Dispatch { user_id, income } => {
            assert_eq!(user_id, "alice");
            assert!(matches!(income, Income::ChatMessage { .. }));
        },
        other => panic!("expected a dispatch, got {:?}", other),
    }
}

#[test]
fn malformed_frame_is_nonfatal() {
    let mut addrs = AddrMap::new();
    let (mut session, _) = Session::open(Some("alice".to_string()), 7, &mut addrs);
    let actions = session.on_frame(FrameEvent::Malformed("bad json".to_string()));
    assert_eq!(actions.len(), 1);
    match &actions[0] {
        FrameAction::ReplyError { status, reason } => {
            assert_eq!(*status, 400);
            assert_eq!(reason, "bad json");
        },
        other => panic!("expected an error reply, got {:?}", other),
    }
    // The session stays open: the next frame is still processed.
    let actions = session.on_frame(FrameEvent::Ping(vec![9]));
    assert!(matches!(actions[0], FrameAction::Pong(_)));
}

#[test]
fn unsupported_frame_kind_gets_a_400_reply() {
    let mut addrs = AddrMap::new();
    let (mut session, _) = Session::open(Some("alice".to_string()), 7, &mut addrs);
    let actions = session.on_frame(FrameEvent::Unsupported);
    assert!(matches!(actions[0], FrameAction::ReplyError { status: 400, .. }));
}

#[test]
fn close_deregisters_exactly_once() {
    let mut addrs = AddrMap::new();
    let (mut session, _) = Session::open(Some("alice".to_string()), 7, &mut addrs);
    let actions = session.on_frame(FrameEvent::Close);
    assert_eq!(actions.len(), 1);
    match &actions[0] {
        FrameAction::Deregister { user_id } => assert_eq!(user_id, "alice"),
        other => panic!("expected a deregistration, got {:?}", other),
    }
    // Once closed, nothing more is answered — no second deregistration.
    let actions = session.on_frame(FrameEvent::Close);
    assert!(actions.is_empty());
    let actions = session.on_frame(FrameEvent::Ping(vec![1]));
    assert!(actions.is_empty());
}

#[test]
fn transport_error_closes_and_hands_back_the_user() {
    let mut addrs = AddrMap::new();
    let (mut session, _) = Session::open(Some("alice".to_string()), 7, &mut addrs);
    assert_eq!(session.on_close(), Some("alice".to_string()));
    assert_eq!(session.on_close(), None);
}
