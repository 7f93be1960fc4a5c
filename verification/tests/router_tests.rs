use chat_relay::messages::{Message, SystemMessage};
use chat_relay::registry::AddrMap;
use chat_relay::repository::FriendRequestStatus;
use chat_relay::router::{
    accept_request, add_friend, num_of_friend_requests, reject_request, relay_message,
    send_chat_message, send_rtc_message, Dispatch,
};
use chat_relay::store::MemoryStore;

fn setup() -> (MemoryStore, AddrMap) {
    let mut store = MemoryStore::new();
    store.add_user(&"alice".to_string(), &"111".to_string()).unwrap();
    store.add_user(&"bob".to_string(), &"222".to_string()).unwrap();
    store.add_user(&"carol".to_string(), &"333".to_string()).unwrap();
    (store, AddrMap::new())
}

#[test]
fn relay_delivers_exactly_one_message_to_registered_peer() {
    let (_, mut addrs) = setup();
    addrs.add_addr(&"bob".to_string(), 42);
    let (handle, out) =
        relay_message(&addrs, &"alice".to_string(), &"bob".to_string(), &"ping".to_string())
            .unwrap();
    assert_eq!(handle, 42);
    assert_eq!(out.from, "alice");
    assert_eq!(out.content, "ping");
}

#[test]
fn relay_to_unregistered_peer_is_not_found() {
    let (_, addrs) = setup();
    let e = relay_message(&addrs, &"alice".to_string(), &"bob".to_string(), &"ping".to_string())
        .unwrap_err();
    assert_eq!(e.status_code, 404);
}

#[test]
fn chat_to_online_peer_is_persisted_and_delivered() {
    let (mut store, mut addrs) = setup();
    addrs.add_addr(&"alice".to_string(), 1);
    addrs.add_addr(&"bob".to_string(), 2);
    let (row, dispatch) = send_chat_message(
        &mut store,
        &addrs,
        &"alice".to_string(),
        &"bob".to_string(),
        &"text/plain".to_string(),
        &"hello".to_string(),
    )
    .unwrap();
    assert_eq!(row.content, "hello");
    assert!(!row.has_read);
    match dispatch {
        Dispatch::Deliver { handle, message } => {
            assert_eq!(handle, 2);
            match message {
                Message::Chat { from, phone, payload } => {
                    assert_eq!(from, "alice");
                    assert_eq!(phone, "111");
                    assert_eq!(payload.id, row.id);
                    assert_eq!(payload.content, "hello");
                },
                other => panic!("expected a chat message, got {:?}", other),
            }
        },
        other => panic!("expected live delivery, got {:?}", other),
    }
    // Exactly one persisted row, still unread until Bob fetches history.
    let page = store
        .chat_message_history(&"alice".to_string(), &"bob".to_string(), 20, None)
        .unwrap();
    assert_eq!(page.len(), 1);
    assert!(!page[0].has_read);
}

#[test]
fn chat_to_offline_peer_with_token_falls_back_to_push() {
    let (mut store, addrs) = setup();
    store.update_token(&"carol".to_string(), &"device-token-7".to_string()).unwrap();
    let (row, dispatch) = send_chat_message(
        &mut store,
        &addrs,
        &"alice".to_string(),
        &"carol".to_string(),
        &"text/plain".to_string(),
        &"psst".to_string(),
    )
    .unwrap();
    match dispatch {
        Dispatch::Notify { token, message } => {
            assert_eq!(token, "device-token-7");
            assert!(matches!(message, Message::Chat { .. }));
        },
        other => panic!("expected a push fallback, got {:?}", other),
    }
    // The row was persisted before any delivery decision.
    let page = store
        .chat_message_history(&"alice".to_string(), &"carol".to_string(), 20, None)
        .unwrap();
    assert_eq!(page.len(), 1);
    assert_eq!(page[0].id, row.id);
}

#[test]
fn chat_to_offline_peer_without_token_is_still_persisted() {
    let (mut store, addrs) = setup();
    let (_, dispatch) = send_chat_message(
        &mut store,
        &addrs,
        &"alice".to_string(),
        &"carol".to_string(),
        &"text/plain".to_string(),
        &"psst".to_string(),
    )
    .unwrap();
    assert!(matches!(dispatch, Dispatch::Offline));
    let page = store
        .chat_message_history(&"alice".to_string(), &"carol".to_string(), 20, None)
        .unwrap();
    assert_eq!(page.len(), 1);
}

#[test]
fn rtc_answer_to_offline_peer_is_an_error_and_never_notifies() {
    let (mut store, addrs) = setup();
    store.update_token(&"carol".to_string(), &"device-token-7".to_string()).unwrap();
    let e = send_rtc_message(
        &store,
        &addrs,
        &"alice".to_string(),
        &"carol".to_string(),
        &"Answer".to_string(),
        &"sdp".to_string(),
    )
    .unwrap_err();
    assert_eq!(e.status_code, 422);
}

#[test]
fn rtc_offer_to_offline_peer_with_token_notifies() {
    let (mut store, addrs) = setup();
    store.update_token(&"carol".to_string(), &"device-token-7".to_string()).unwrap();
    let dispatch = send_rtc_message(
        &store,
        &addrs,
        &"alice".to_string(),
        &"carol".to_string(),
        &"Offer".to_string(),
        &"sdp".to_string(),
    )
    .unwrap();
    match dispatch {
        Dispatch::Notify { token, message } => {
            assert_eq!(token, "device-token-7");
            match message {
                Message::RTC { from, phone, payload } => {
                    assert_eq!(from, "alice");
                    assert_eq!(phone, "111");
                    assert_eq!(payload, "sdp");
                },
                other => panic!("expected an rtc message, got {:?}", other),
            }
        },
        other => panic!("expected a push fallback, got {:?}", other),
    }
}

#[test]
fn rtc_to_online_peer_is_relayed() {
    let (store, mut addrs) = setup();
    addrs.add_addr(&"bob".to_string(), 5);
    let dispatch = send_rtc_message(
        &store,
        &addrs,
        &"alice".to_string(),
        &"bob".to_string(),
        &"Answer".to_string(),
        &"sdp".to_string(),
    )
    .unwrap();
    assert!(matches!(dispatch, Dispatch::Deliver { handle: 5, .. }));
}

#[test]
fn add_friend_notifies_online_friend_and_stores_one_pending_row() {
    let (mut store, mut addrs) = setup();
    addrs.add_addr(&"bob".to_string(), 9);
    let (id, dispatch) =
        add_friend(&mut store, &addrs, &"alice".to_string(), &"bob".to_string()).unwrap();
    match dispatch {
        Dispatch::Deliver { handle, message } => {
            assert_eq!(handle, 9);
            match message {
                Message::System(SystemMessage::FriendRequest { id: nid, phone, avatar }) => {
                    assert_eq!(nid, id);
                    assert_eq!(phone, "111");
                    assert!(avatar.is_none());
                },
                other => panic!("expected a friend-request notification, got {:?}", other),
            }
        },
        other => panic!("expected live delivery, got {:?}", other),
    }
    let pending = store.pending_friend_requests(&"bob".to_string()).unwrap();
    assert_eq!(pending.len(), 1);
    assert_eq!(pending[0].from, "alice");
    assert!(matches!(pending[0].status, FriendRequestStatus::Pending));
    assert_eq!(num_of_friend_requests(&store, &"bob".to_string()).unwrap(), 1);
}

#[test]
fn accept_notifies_online_requester_and_flips_status() {
    let (mut store, mut addrs) = setup();
    addrs.add_addr(&"alice".to_string(), 3);
    let (id, _) = add_friend(&mut store, &addrs, &"alice".to_string(), &"bob".to_string()).unwrap();
    let dispatch = accept_request(&mut store, &addrs, &"bob".to_string(), id).unwrap();
    match dispatch {
        Dispatch::Deliver { handle, message } => {
            assert_eq!(handle, 3);
            match message {
                Message::System(SystemMessage::FriendAccept { id: nid }) => assert_eq!(nid, id),
                other => panic!("expected a friend-accept notification, got {:?}", other),
            }
        },
        other => panic!("expected live delivery, got {:?}", other),
    }
    assert!(matches!(
        store.get_friend_request(id).unwrap().status,
        FriendRequestStatus::Accepted
    ));
}

#[test]
fn accept_by_someone_else_is_refused_and_changes_nothing() {
    let (mut store, addrs) = setup();
    let (id, _) = add_friend(&mut store, &addrs, &"alice".to_string(), &"bob".to_string()).unwrap();
    let e = accept_request(&mut store, &addrs, &"carol".to_string(), id).unwrap_err();
    assert_eq!(e.status_code, 403);
    assert!(matches!(
        store.get_friend_request(id).unwrap().status,
        FriendRequestStatus::Pending
    ));
}

#[test]
fn accepting_twice_fails_without_a_second_notification() {
    let (mut store, addrs) = setup();
    let (id, _) = add_friend(&mut store, &addrs, &"alice".to_string(), &"bob".to_string()).unwrap();
    accept_request(&mut store, &addrs, &"bob".to_string(), id).unwrap();
    let e = accept_request(&mut store, &addrs, &"bob".to_string(), id).unwrap_err();
    assert_eq!(e.status_code, 400);
    assert!(matches!(
        store.get_friend_request(id).unwrap().status,
        FriendRequestStatus::Accepted
    ));
}

#[test]
fn reject_follows_the_same_authorization_rule() {
    let (mut store, addrs) = setup();
    let (id, _) = add_friend(&mut store, &addrs, &"alice".to_string(), &"bob".to_string()).unwrap();
    let e = reject_request(&mut store, &"alice".to_string(), id).unwrap_err();
    assert_eq!(e.status_code, 403);
    reject_request(&mut store, &"bob".to_string(), id).unwrap();
    assert!(matches!(
        store.get_friend_request(id).unwrap().status,
        FriendRequestStatus::Rejected
    ));
    assert_eq!(reject_request(&mut store, &"bob".to_string(), 999).unwrap_err().status_code, 404);
}

#[test]
fn unknown_sender_is_refused_without_side_effects() {
    let (mut store, addrs) = setup();
    let e = send_chat_message(
        &mut store,
        &addrs,
        &"nobody".to_string(),
        &"bob".to_string(),
        &"text/plain".to_string(),
        &"hi".to_string(),
    )
    .unwrap_err();
    assert_eq!(e.status_code, 404);
    let page = store
        .chat_message_history(&"nobody".to_string(), &"bob".to_string(), 20, None)
        .unwrap();
    assert_eq!(page.len(), 0);
}
