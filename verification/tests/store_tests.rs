use chat_relay::repository::{FriendRequestStatus, InsertChatMessage, UserType};
use chat_relay::store::MemoryStore;

fn store_with_users() -> MemoryStore {
    let mut store = MemoryStore::new();
    store.add_user(&"alice".to_string(), &"111".to_string()).unwrap();
    store.add_user(&"bob".to_string(), &"222".to_string()).unwrap();
    store.add_user(&"carol".to_string(), &"333".to_string()).unwrap();
    store
}

fn insert(store: &mut MemoryStore, from: &str, to: &str, content: &str) -> u64 {
    store
        .insert_chat_message(&InsertChatMessage {
            from: from.to_string(),
            to: to.to_string(),
            mime_type: "text/plain".to_string(),
            content: content.to_string(),
        })
        .unwrap()
        .id
}

#[test]
fn add_user_rejects_taken_id() {
    let mut store = store_with_users();
    let e = store.add_user(&"alice".to_string(), &"999".to_string()).unwrap_err();
    assert_eq!(e.status_code, 500);
}

#[test]
fn get_user_and_phone() {
    let store = store_with_users();
    let u = store.get_user(&"bob".to_string()).unwrap();
    assert_eq!(u.id, "bob");
    assert_eq!(u.phone, "222");
    assert!(u.avatar.is_none());
    assert!(u.typ.is_none());
    assert_eq!(store.get_phone(&"bob".to_string()).unwrap(), "222");
    assert_eq!(store.get_user(&"nobody".to_string()).unwrap_err().status_code, 404);
}

#[test]
fn avatar_and_token_updates() {
    let mut store = store_with_users();
    assert_eq!(store.get_avatar(&"alice".to_string()).unwrap(), None);
    store.update_avatar(&"alice".to_string(), &"upload-9".to_string()).unwrap();
    assert_eq!(store.get_avatar(&"alice".to_string()).unwrap(), Some("upload-9".to_string()));
    assert_eq!(store.get_token(&"alice".to_string()).unwrap(), None);
    store.update_token(&"alice".to_string(), &"tok".to_string()).unwrap();
    assert_eq!(store.get_token(&"alice".to_string()).unwrap(), Some("tok".to_string()));
}

#[test]
fn friend_request_upsert_is_idempotent() {
    let mut store = store_with_users();
    let a = "alice".to_string();
    let b = "bob".to_string();
    let id1 = store.add_friend_request(&a, &b).unwrap();
    let id2 = store.add_friend_request(&a, &b).unwrap();
    assert_eq!(id1, id2);
    let pending = store.pending_friend_requests(&b).unwrap();
    assert_eq!(pending.len(), 1);
    assert_eq!(pending[0].id, id1);
    assert_eq!(pending[0].from, "alice");
    assert_eq!(pending[0].to, "bob");
    assert!(matches!(pending[0].status, FriendRequestStatus::Pending));
    assert_eq!(pending[0].phone, "111");
}

#[test]
fn rerequest_resets_terminal_row_to_pending() {
    let mut store = store_with_users();
    let a = "alice".to_string();
    let b = "bob".to_string();
    let id = store.add_friend_request(&a, &b).unwrap();
    store.reject_friend_request(id).unwrap();
    let id_again = store.add_friend_request(&a, &b).unwrap();
    assert_eq!(id, id_again);
    let row = store.get_friend_request(id).unwrap();
    assert!(matches!(row.status, FriendRequestStatus::Pending));
}

#[test]
fn accept_and_reject_set_status() {
    let mut store = store_with_users();
    let id_ab = store.add_friend_request(&"alice".to_string(), &"bob".to_string()).unwrap();
    let id_cb = store.add_friend_request(&"carol".to_string(), &"bob".to_string()).unwrap();
    store.accept_friend_request(id_ab).unwrap();
    store.reject_friend_request(id_cb).unwrap();
    assert!(matches!(
        store.get_friend_request(id_ab).unwrap().status,
        FriendRequestStatus::Accepted
    ));
    assert!(matches!(
        store.get_friend_request(id_cb).unwrap().status,
        FriendRequestStatus::Rejected
    ));
    assert_eq!(store.get_friend_request(999).unwrap_err().status_code, 404);
}

#[test]
fn is_friend_needs_accepted_row() {
    let mut store = store_with_users();
    let a = "alice".to_string();
    let b = "bob".to_string();
    let id = store.add_friend_request(&a, &b).unwrap();
    assert!(!store.is_friend(&a, &b).unwrap());
    store.accept_friend_request(id).unwrap();
    assert!(store.is_friend(&a, &b).unwrap());
    assert!(store.is_friend(&b, &a).unwrap());
    assert!(!store.is_friend(&a, &"carol".to_string()).unwrap());
}

#[test]
fn insert_chat_message_returns_full_row() {
    let mut store = store_with_users();
    store.set_clock(12345);
    let row = store
        .insert_chat_message(&InsertChatMessage {
            from: "alice".to_string(),
            to: "bob".to_string(),
            mime_type: "text/plain".to_string(),
            content: "hello".to_string(),
        })
        .unwrap();
    assert_eq!(row.from, "alice");
    assert_eq!(row.to, "bob");
    assert_eq!(row.content, "hello");
    assert_eq!(row.sent_at, 12345);
    assert!(!row.has_read);
    let second = insert(&mut store, "alice", "bob", "again");
    assert!(second > row.id);
}

#[test]
fn history_marks_counterpart_messages_read() {
    let mut store = store_with_users();
    let a = "alice".to_string();
    let b = "bob".to_string();
    insert(&mut store, "alice", "bob", "hi");
    let page = store.chat_message_history(&b, &a, 20, None).unwrap();
    assert_eq!(page.len(), 1);
    assert_eq!(page[0].content, "hi");
    assert!(page[0].has_read);
    // A second identical call returns the same already-read message and
    // mutates nothing further.
    let page2 = store.chat_message_history(&b, &a, 20, None).unwrap();
    assert_eq!(page2.len(), 1);
    assert_eq!(page2[0].id, page[0].id);
    assert!(page2[0].has_read);
}

#[test]
fn history_does_not_mark_own_messages() {
    let mut store = store_with_users();
    let a = "alice".to_string();
    let b = "bob".to_string();
    insert(&mut store, "alice", "bob", "hi");
    // Alice fetching the conversation does not mark her own message read.
    let page = store.chat_message_history(&a, &b, 20, None).unwrap();
    assert_eq!(page.len(), 1);
    assert!(!page[0].has_read);
}

#[test]
fn history_pages_newest_messages_oldest_first() {
    let mut store = store_with_users();
    let a = "alice".to_string();
    let b = "bob".to_string();
    let id1 = insert(&mut store, "alice", "bob", "one");
    let id2 = insert(&mut store, "bob", "alice", "two");
    let id3 = insert(&mut store, "alice", "bob", "three");
    insert(&mut store, "alice", "carol", "elsewhere");
    let page = store.chat_message_history(&b, &a, 2, None).unwrap();
    assert_eq!(page.len(), 2);
    assert_eq!(page[0].id, id2);
    assert_eq!(page[1].id, id3);
    // An exclusive upper-bound cursor pages backwards.
    let earlier = store.chat_message_history(&b, &a, 2, Some(id2)).unwrap();
    assert_eq!(earlier.len(), 1);
    assert_eq!(earlier[0].id, id1);
}

#[test]
fn history_cursor_bounds_read_marking() {
    let mut store = store_with_users();
    let a = "alice".to_string();
    let b = "bob".to_string();
    let id1 = insert(&mut store, "alice", "bob", "one");
    let id2 = insert(&mut store, "alice", "bob", "two");
    // Fetching strictly below id2 marks only the older message.
    store.chat_message_history(&b, &a, 20, Some(id2)).unwrap();
    let page = store.chat_message_history(&b, &a, 20, None).unwrap();
    assert_eq!(page.len(), 2);
    assert_eq!(page[0].id, id1);
    assert!(page[0].has_read);
    assert_eq!(page[1].id, id2);
    assert!(page[1].has_read); // marked by the second (unbounded) fetch
}

#[test]
fn mark_as_read_is_author_scoped() {
    let mut store = store_with_users();
    let id = insert(&mut store, "alice", "bob", "hi");
    // Only the author's id matches the row.
    store.mark_as_read(&"bob".to_string(), id).unwrap();
    let page = store.chat_message_history(&"alice".to_string(), &"bob".to_string(), 20, None).unwrap();
    assert!(!page[0].has_read);
    store.mark_as_read(&"alice".to_string(), id).unwrap();
    let page = store.chat_message_history(&"alice".to_string(), &"bob".to_string(), 20, None).unwrap();
    assert!(page[0].has_read);
}

#[test]
fn search_user_computes_relation() {
    let mut store = store_with_users();
    let a = "alice".to_string();
    // Nobody has this phone.
    assert!(store.search_user(&a, &"000".to_string()).unwrap().is_none());
    // Myself.
    let me = store.search_user(&a, &"111".to_string()).unwrap().unwrap();
    assert_eq!(me.id, "alice");
    assert_eq!(me.typ, Some(UserType::Myself));
    // A stranger.
    let s = store.search_user(&a, &"222".to_string()).unwrap().unwrap();
    assert_eq!(s.typ, Some(UserType::Stranger));
    // Alice asks Bob: from Alice's side Bob is `Requesting`; from Bob's
    // side Alice is `Requested`.
    let id = store.add_friend_request(&a, &"bob".to_string()).unwrap();
    let s = store.search_user(&a, &"222".to_string()).unwrap().unwrap();
    assert_eq!(s.typ, Some(UserType::Requesting));
    let s = store.search_user(&"bob".to_string(), &"111".to_string()).unwrap().unwrap();
    assert_eq!(s.typ, Some(UserType::Requested));
    store.accept_friend_request(id).unwrap();
    let s = store.search_user(&a, &"222".to_string()).unwrap().unwrap();
    assert_eq!(s.typ, Some(UserType::Friend));
}

#[test]
fn friends_lists_each_accepted_peer_once() {
    let mut store = store_with_users();
    let a = "alice".to_string();
    let id_b = store.add_friend_request(&a, &"bob".to_string()).unwrap();
    let id_c = store.add_friend_request(&"carol".to_string(), &a).unwrap();
    store.accept_friend_request(id_b).unwrap();
    store.accept_friend_request(id_c).unwrap();
    let mut names: Vec<String> = store
        .friends(&a)
        .unwrap()
        .into_iter()
        .map(|u| u.id)
        .collect();
    names.sort();
    assert_eq!(names, vec!["bob".to_string(), "carol".to_string()]);
    let all = store.friends(&a).unwrap();
    for u in &all {
        assert_eq!(u.typ, Some(UserType::Friend));
    }
}

#[test]
fn sessions_aggregates_per_peer() {
    let mut store = store_with_users();
    let a = "alice".to_string();
    insert(&mut store, "bob", "alice", "one");
    insert(&mut store, "bob", "alice", "two");
    insert(&mut store, "alice", "carol", "hey");
    let sessions = store.sessions(&a).unwrap();
    assert_eq!(sessions.len(), 2);
    let bob = sessions.iter().find(|s| s.peer_id == "bob").unwrap();
    assert_eq!(bob.peer_phone, "222");
    assert_eq!(bob.unread_count, 2);
    assert_eq!(bob.latest_content, Some("two".to_string()));
    assert_eq!(bob.latest_mime_type, Some("text/plain".to_string()));
    let carol = sessions.iter().find(|s| s.peer_id == "carol").unwrap();
    assert_eq!(carol.unread_count, 0);
    assert_eq!(carol.latest_content, Some("hey".to_string()));
    // Reading the conversation clears the unread count.
    store.chat_message_history(&a, &"bob".to_string(), 20, None).unwrap();
    let sessions = store.sessions(&a).unwrap();
    let bob = sessions.iter().find(|s| s.peer_id == "bob").unwrap();
    assert_eq!(bob.unread_count, 0);
}
