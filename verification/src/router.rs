//! The message router: given a destination and a message, decide between
//! live delivery through the registry and the persist-and/or-notify
//! fallback, and run the friend workflow with its live notifications.
//!
//! Every function here returns a [`Dispatch`]: the one outward action the
//! transport layer still has to perform. Deciding and acting are separate
//! so the decisions can be verified.

use vstd::prelude::*;

use crate::error::Error;
use crate::messages::{ChatPayload, ChatPayloadV, Message, MessageV, OutMessage, SystemMessage,
    SystemMessageV};
use crate::registry::AddrMap;
use crate::repository::{ChatMessage, FriendRequestStatus, InsertChatMessage, MsgV};
use crate::store::{
    MemoryStore, StoreV, has_pair, has_req_id, has_user, pending_for, req_of, set_request_status,
    upsert_request, user_of,
};

verus! {

/// The outward action a routing decision asks of the transport layer:
/// hand the message to a live peer's mailbox, push a notification to a
/// device token, or nothing (the peer is offline and no fallback applies).
#[derive(Debug)]
pub enum Dispatch {
    Deliver { handle: u64, message: Message },
    Notify { token: String, message: Message },
    Offline,
}

/// Ghost image of a [`Dispatch`].
pub ghost enum DispatchV {
    Deliver { handle: u64, message: MessageV },
    Notify { token: Seq<char>, message: MessageV },
    Offline,
}

impl View for Dispatch {
    type V = DispatchV;

    open spec fn view(&self) -> DispatchV {
        match self {
            Dispatch::Deliver { handle, message } => DispatchV::Deliver {
                handle: *handle,
                message: message@,
            },
            Dispatch::Notify { token, message } => DispatchV::Notify {
                token: token@,
                message: message@,
            },
            Dispatch::Offline => DispatchV::Offline,
        }
    }
}

/// The device token stored for `p`, if `p` has a record and a token.
pub open spec fn token_of(users: Seq<crate::repository::UserRecV>, p: Seq<char>) -> Option<
    Seq<char>,
> {
    if has_user(users, p) {
        user_of(users, p).fcm_token
    } else {
        None
    }
}

/// Relay a generic payload to `to`: a registered peer gets exactly one
/// message carrying the content; an unregistered one is a not-found
/// failure with no side effect anywhere.
pub fn relay_message(addrs: &AddrMap, from: &String, to: &String, content: &String) -> (r: Result<
    (u64, OutMessage),
    Error,
>)
    requires
        addrs.inv(),
    ensures
        addrs@.contains_key(to@) ==> r is Ok && ({
            let (handle, out) = r.unwrap();
            handle == addrs@[to@] && out.from@ == from@ && out.content@ == content@
        }),
        !addrs@.contains_key(to@) ==> r is Err && r.unwrap_err().status_code == 404,
{
    match addrs.get_addr(to) {
        Some(handle) => Ok(
            (handle, OutMessage { from: from.clone(), content: content.clone() }),
        ),
        None => Err(Error::new(String::from_str("destination not found"), 404)),
    }
}

/// Send a chat message: always persist first (an unpersisted message is
/// never forwarded), then deliver live when `to` is registered, otherwise
/// fall back to a push notification when `to` has a device token, and to
/// nothing when not. Fails without any side effect when the sender has no
/// user record or the id space is exhausted.
pub fn send_chat_message(
    store: &mut MemoryStore,
    addrs: &AddrMap,
    from: &String,
    to: &String,
    mime_type: &String,
    content: &String,
) -> (r: Result<(ChatMessage, Dispatch), Error>)
    requires
        old(store)@.wf(),
        addrs.inv(),
    ensures
        final(store)@.wf(),
        !has_user(old(store)@.users, from@) ==> r is Err && r.unwrap_err().status_code == 404
            && final(store)@ == old(store)@,
        has_user(old(store)@.users, from@) && old(store)@.next_message_id == u64::MAX ==> r is Err
            && r.unwrap_err().status_code == 500 && final(store)@ == old(store)@,
        has_user(old(store)@.users, from@) && old(store)@.next_message_id < u64::MAX ==> ({
            let m = MsgV {
                id: old(store)@.next_message_id,
                from: from@,
                to: to@,
                mime_type: mime_type@,
                content: content@,
                sent_at: old(store)@.clock,
                has_read: false,
            };
            let phone = user_of(old(store)@.users, from@).phone;
            let sent = MessageV::Chat {
                from: from@,
                phone: phone,
                payload: ChatPayloadV { id: m.id, mime_type: mime_type@, content: content@ },
            };
            &&& r is Ok
            &&& r.unwrap().0@ == m
            &&& final(store)@ == (StoreV {
                messages: old(store)@.messages.push(m),
                next_message_id: (old(store)@.next_message_id + 1) as u64,
                ..old(store)@
            })
            &&& (addrs@.contains_key(to@) ==> r.unwrap().1@ == DispatchV::Deliver {
                handle: addrs@[to@],
                message: sent,
            })
            &&& (!addrs@.contains_key(to@) && token_of(old(store)@.users, to@) is Some
                ==> r.unwrap().1@ == DispatchV::Notify {
                token: token_of(old(store)@.users, to@).unwrap(),
                message: sent,
            })
            &&& (!addrs@.contains_key(to@) && token_of(old(store)@.users, to@) is None
                ==> r.unwrap().1@ == DispatchV::Offline)
        }),
{
    let sender = match store.get_user(from) {
        Ok(u) => u,
        Err(e) => {
            return Err(e);
        },
    };
    let inserted = match store.insert_chat_message(
        &InsertChatMessage {
            from: from.clone(),
            to: to.clone(),
            mime_type: mime_type.clone(),
            content: content.clone(),
        },
    ) {
        Ok(m) => m,
        Err(e) => {
            return Err(e);
        },
    };
    let message = Message::Chat {
        from: from.clone(),
        phone: sender.phone,
        payload: ChatPayload {
            id: inserted.id,
            mime_type: mime_type.clone(),
            content: content.clone(),
        },
    };
    match addrs.get_addr(to) {
        Some(handle) => Ok((inserted, Dispatch::Deliver { handle, message })),
        None => {
            match store.get_token(to) {
                Ok(Some(token)) => Ok((inserted, Dispatch::Notify { token, message })),
                Ok(None) => Ok((inserted, Dispatch::Offline)),
                Err(_) => Ok((inserted, Dispatch::Offline)),
            }
        },
    }
}

/// Relay WebRTC signaling: never persisted. A registered peer gets the
/// message; an absent peer is only worth a push notification for an
/// `"Offer"` (a session could start later) — any other subtype is an
/// unforwardable failure, and an `"Offer"` without a stored device token a
/// not-found one. The store is never changed.
pub fn send_rtc_message(
    store: &MemoryStore,
    addrs: &AddrMap,
    from: &String,
    to: &String,
    typ: &String,
    payload: &String,
) -> (r: Result<Dispatch, Error>)
    requires
        store@.wf(),
        addrs.inv(),
    ensures
        !has_user(store@.users, from@) ==> r is Err && r.unwrap_err().status_code == 404,
        has_user(store@.users, from@) ==> ({
            let sent = MessageV::RTC {
                from: from@,
                phone: user_of(store@.users, from@).phone,
                payload: payload@,
            };
            &&& (addrs@.contains_key(to@) ==> r is Ok && r.unwrap()@ == DispatchV::Deliver {
                handle: addrs@[to@],
                message: sent,
            })
            &&& (!addrs@.contains_key(to@) && typ@ != "Offer"@ ==> r is Err
                && r.unwrap_err().status_code == 422)
            &&& (!addrs@.contains_key(to@) && typ@ == "Offer"@ && token_of(store@.users, to@)
                is Some ==> r is Ok && r.unwrap()@ == DispatchV::Notify {
                token: token_of(store@.users, to@).unwrap(),
                message: sent,
            })
            &&& (!addrs@.contains_key(to@) && typ@ == "Offer"@ && token_of(store@.users, to@)
                is None ==> r is Err && r.unwrap_err().status_code == 404)
        }),
{
    let sender = match store.get_user(from) {
        Ok(u) => u,
        Err(e) => {
            return Err(e);
        },
    };
    let message = Message::RTC { from: from.clone(), phone: sender.phone, payload: payload.clone() };
    match addrs.get_addr(to) {
        Some(handle) => Ok(Dispatch::Deliver { handle, message }),
        None => {
            if !(*typ == String::from_str("Offer")) {
                return Err(Error::new(String::from_str("could not forward to user"), 422));
            }
            match store.get_token(to) {
                Ok(Some(token)) => Ok(Dispatch::Notify { token, message }),
                Ok(None) => Err(Error::new(String::from_str("no device token"), 404)),
                Err(_) => Err(Error::new(String::from_str("no device token"), 404)),
            }
        },
    }
}

/// The add-friend workflow: upsert the `(uid, friend_id)` row to `Pending`
/// (one live row per pair, re-requesting resets it) and, when the friend is
/// registered, push a `FriendRequest` notification with the requester's
/// phone and avatar to their handle. Returns the row id.
pub fn add_friend(
    store: &mut MemoryStore,
    addrs: &AddrMap,
    uid: &String,
    friend_id: &String,
) -> (r: Result<(u64, Dispatch), Error>)
    requires
        old(store)@.wf(),
        addrs.inv(),
    ensures
        final(store)@.wf(),
        !has_user(old(store)@.users, uid@) ==> r is Err && r.unwrap_err().status_code == 404
            && final(store)@ == old(store)@,
        has_user(old(store)@.users, uid@) && !has_pair(old(store)@.requests, uid@, friend_id@)
            && old(store)@.next_request_id == u64::MAX ==> r is Err && r.unwrap_err().status_code
            == 500 && final(store)@ == old(store)@,
        has_user(old(store)@.users, uid@) && (has_pair(old(store)@.requests, uid@, friend_id@)
            || old(store)@.next_request_id < u64::MAX) ==> ({
            let requester = user_of(old(store)@.users, uid@);
            let outcome = upsert_request(old(store)@, uid@, friend_id@, requester.phone);
            let note = MessageV::System(
                SystemMessageV::FriendRequest {
                    id: outcome.1,
                    phone: requester.phone,
                    avatar: requester.avatar,
                },
            );
            &&& r is Ok
            &&& r.unwrap().0 == outcome.1
            &&& final(store)@ == outcome.0
            &&& (addrs@.contains_key(friend_id@) ==> r.unwrap().1@ == DispatchV::Deliver {
                handle: addrs@[friend_id@],
                message: note,
            })
            &&& (!addrs@.contains_key(friend_id@) ==> r.unwrap().1@ == DispatchV::Offline)
        }),
{
    let requester = match store.get_user(uid) {
        Ok(u) => u,
        Err(e) => {
            return Err(e);
        },
    };
    let id = match store.add_friend_request(uid, friend_id) {
        Ok(id) => id,
        Err(e) => {
            return Err(e);
        },
    };
    match addrs.get_addr(friend_id) {
        Some(handle) => Ok(
            (
                id,
                Dispatch::Deliver {
                    handle,
                    message: Message::System(
                        SystemMessage::FriendRequest {
                            id,
                            phone: requester.phone,
                            avatar: requester.avatar,
                        },
                    ),
                },
            ),
        ),
        None => Ok((id, Dispatch::Offline)),
    }
}

/// Accept a friend request on behalf of `uid`. Only the addressee may do
/// so: anyone else is an authorization failure and the state is untouched.
/// Only a `Pending` row can be accepted — repeating an accept fails and
/// cannot duplicate the notification. On success the row turns `Accepted`
/// and a registered requester gets a `FriendAccept` notification.
pub fn accept_request(
    store: &mut MemoryStore,
    addrs: &AddrMap,
    uid: &String,
    id: u64,
) -> (r: Result<Dispatch, Error>)
    requires
        old(store)@.wf(),
        addrs.inv(),
    ensures
        final(store)@.wf(),
        !has_req_id(old(store)@.requests, id) ==> r is Err && r.unwrap_err().status_code == 404
            && final(store)@ == old(store)@,
        has_req_id(old(store)@.requests, id) && req_of(old(store)@.requests, id).to != uid@ ==> r
            is Err && r.unwrap_err().status_code == 403 && final(store)@ == old(store)@,
        has_req_id(old(store)@.requests, id) && req_of(old(store)@.requests, id).to == uid@
            && req_of(old(store)@.requests, id).status != FriendRequestStatus::Pending ==> r
            is Err && r.unwrap_err().status_code == 400 && final(store)@ == old(store)@,
        has_req_id(old(store)@.requests, id) && req_of(old(store)@.requests, id).to == uid@
            && req_of(old(store)@.requests, id).status == FriendRequestStatus::Pending ==> ({
            let requester = req_of(old(store)@.requests, id).from;
            &&& r is Ok
            &&& final(store)@ == set_request_status(
                old(store)@,
                id,
                FriendRequestStatus::Accepted,
            )
            &&& (addrs@.contains_key(requester) ==> r.unwrap()@ == DispatchV::Deliver {
                handle: addrs@[requester],
                message: MessageV::System(SystemMessageV::FriendAccept { id: id }),
            })
            &&& (!addrs@.contains_key(requester) ==> r.unwrap()@ == DispatchV::Offline)
        }),
{
    let req = match store.get_friend_request(id) {
        Ok(req) => req,
        Err(e) => {
            return Err(e);
        },
    };
    if !(req.to == *uid) {
        return Err(Error::new(String::from_str("not your request"), 403));
    }
    if !(req.status == FriendRequestStatus::Pending) {
        return Err(Error::new(String::from_str("request is not pending"), 400));
    }
    match store.accept_friend_request(id) {
        Ok(_) => {
        },
        Err(e) => {
            return Err(e);
        },
    }
    match addrs.get_addr(&req.from) {
        Some(handle) => Ok(
            Dispatch::Deliver {
                handle,
                message: Message::System(SystemMessage::FriendAccept { id }),
            },
        ),
        None => Ok(Dispatch::Offline),
    }
}

/// Reject a friend request on behalf of `uid`: the same authorization rule
/// as accepting, the row turns `Rejected`, and nobody is notified.
pub fn reject_request(store: &mut MemoryStore, uid: &String, id: u64) -> (r: Result<(), Error>)
    requires
        old(store)@.wf(),
    ensures
        final(store)@.wf(),
        !has_req_id(old(store)@.requests, id) ==> r is Err && r.unwrap_err().status_code == 404
            && final(store)@ == old(store)@,
        has_req_id(old(store)@.requests, id) && req_of(old(store)@.requests, id).to != uid@ ==> r
            is Err && r.unwrap_err().status_code == 403 && final(store)@ == old(store)@,
        has_req_id(old(store)@.requests, id) && req_of(old(store)@.requests, id).to == uid@
            && req_of(old(store)@.requests, id).status != FriendRequestStatus::Pending ==> r
            is Err && r.unwrap_err().status_code == 400 && final(store)@ == old(store)@,
        has_req_id(old(store)@.requests, id) && req_of(old(store)@.requests, id).to == uid@
            && req_of(old(store)@.requests, id).status == FriendRequestStatus::Pending ==> r is Ok
            && final(store)@ == set_request_status(old(store)@, id, FriendRequestStatus::Rejected),
{
    let req = match store.get_friend_request(id) {
        Ok(req) => req,
        Err(e) => {
            return Err(e);
        },
    };
    if !(req.to == *uid) {
        return Err(Error::new(String::from_str("not your request"), 403));
    }
    if !(req.status == FriendRequestStatus::Pending) {
        return Err(Error::new(String::from_str("request is not pending"), 400));
    }
    match store.reject_friend_request(id) {
        Ok(_) => Ok(()),
        Err(e) => Err(e),
    }
}

/// How many friend requests await `uid`'s answer.
pub fn num_of_friend_requests(store: &MemoryStore, uid: &String) -> (r: Result<usize, Error>)
    ensures
        r is Ok,
        r.unwrap() == pending_for(store@.requests, uid@).len(),
{
    match store.pending_friend_requests(uid) {
        Ok(reqs) => Ok(reqs.len()),
        Err(e) => Err(e),
    }
}

} // verus!
