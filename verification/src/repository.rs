//! The data the relay works over: friend requests, chat messages, user
//! records and the values derived from them.
//!
//! Each stored type has a ghost view holding the same data over `Seq<char>`
//! strings, so contracts and laws can be stated mathematically.

use vstd::prelude::*;

verus! {

/// The friend-request state machine's states: `Pending` can move to
/// `Accepted` or `Rejected`; a fresh request resets a row to `Pending`.
#[derive(Clone, Copy, PartialEq, Eq, Structural, Debug)]
pub enum FriendRequestStatus {
    Pending,
    Accepted,
    Rejected,
}

/// One friend-request row: at most one live row exists per ordered
/// `(from, to)` pair. `phone` is the requester's phone, denormalised for
/// client display.
#[derive(Debug)]
pub struct FriendRequest {
    pub id: u64,
    pub from: String,
    pub to: String,
    pub status: FriendRequestStatus,
    pub phone: String,
}

/// Ghost image of a [`FriendRequest`].
pub ghost struct ReqV {
    pub id: u64,
    pub from: Seq<char>,
    pub to: Seq<char>,
    pub status: FriendRequestStatus,
    pub phone: Seq<char>,
}

impl View for FriendRequest {
    type V = ReqV;

    open spec fn view(&self) -> ReqV {
        ReqV {
            id: self.id,
            from: self.from@,
            to: self.to@,
            status: self.status,
            phone: self.phone@,
        }
    }
}

impl FriendRequest {
    /// A field-by-field copy (String fields keep their contents).
    pub fn duplicate(&self) -> (r: FriendRequest)
        ensures
            r@ == self@,
    {
        FriendRequest {
            id: self.id,
            from: self.from.clone(),
            to: self.to.clone(),
            status: self.status,
            phone: self.phone.clone(),
        }
    }
}

/// One chat message row. Immutable once created except `has_read`, which
/// only ever moves from `false` to `true`. Ids are strictly monotonic and
/// double as the pagination cursor.
#[derive(Debug)]
pub struct ChatMessage {
    pub id: u64,
    pub from: String,
    pub to: String,
    pub mime_type: String,
    pub content: String,
    pub sent_at: i64,
    pub has_read: bool,
}

/// Ghost image of a [`ChatMessage`].
pub ghost struct MsgV {
    pub id: u64,
    pub from: Seq<char>,
    pub to: Seq<char>,
    pub mime_type: Seq<char>,
    pub content: Seq<char>,
    pub sent_at: i64,
    pub has_read: bool,
}

impl View for ChatMessage {
    type V = MsgV;

    open spec fn view(&self) -> MsgV {
        MsgV {
            id: self.id,
            from: self.from@,
            to: self.to@,
            mime_type: self.mime_type@,
            content: self.content@,
            sent_at: self.sent_at,
            has_read: self.has_read,
        }
    }
}

impl ChatMessage {
    /// A field-by-field copy (String fields keep their contents).
    pub fn duplicate(&self) -> (r: ChatMessage)
        ensures
            r@ == self@,
    {
        ChatMessage {
            id: self.id,
            from: self.from.clone(),
            to: self.to.clone(),
            mime_type: self.mime_type.clone(),
            content: self.content.clone(),
            sent_at: self.sent_at,
            has_read: self.has_read,
        }
    }
}

/// What a caller supplies to create a chat message; the store generates the
/// id and the timestamp.
#[derive(Debug)]
pub struct InsertChatMessage {
    pub from: String,
    pub to: String,
    pub mime_type: String,
    pub content: String,
}

/// How a found user relates to the searcher.
#[derive(Clone, Copy, PartialEq, Eq, Structural, Debug)]
pub enum UserType {
    Myself,
    Friend,
    Requesting,
    Requested,
    Stranger,
}

/// One user record as the store keeps it. `fcm_token` is the device token
/// push notifications go to when the user is offline.
#[derive(Debug)]
pub struct UserRecord {
    pub id: String,
    pub phone: String,
    pub avatar: Option<String>,
    pub fcm_token: Option<String>,
}

/// Ghost image of a [`UserRecord`].
pub ghost struct UserRecV {
    pub id: Seq<char>,
    pub phone: Seq<char>,
    pub avatar: Option<Seq<char>>,
    pub fcm_token: Option<Seq<char>>,
}

impl View for UserRecord {
    type V = UserRecV;

    open spec fn view(&self) -> UserRecV {
        UserRecV {
            id: self.id@,
            phone: self.phone@,
            avatar: opt_str_view(self.avatar),
            fcm_token: opt_str_view(self.fcm_token),
        }
    }
}

/// The view of an optional string.
pub open spec fn opt_str_view(o: Option<String>) -> Option<Seq<char>> {
    match o {
        Some(s) => Some(s@),
        None => None,
    }
}

/// A user as handed to clients: no device token, but a relation to the
/// asking user when a search computed one.
#[derive(Debug)]
pub struct User {
    pub id: String,
    pub phone: String,
    pub avatar: Option<String>,
    pub typ: Option<UserType>,
}

/// A confirmed friend as handed to clients.
#[derive(Debug)]
pub struct Friend {
    pub id: String,
    pub phone: String,
    pub avatar: Option<String>,
}

/// One conversation in a user's conversation list: the peer, how many of
/// the peer's messages are unread, and a preview of the newest message.
#[derive(Debug)]
pub struct Session {
    pub peer_id: String,
    pub peer_phone: String,
    pub unread_count: u64,
    pub latest_mime_type: Option<String>,
    pub latest_content: Option<String>,
}

/// A user search query: the exact phone number to look up.
#[derive(Debug)]
pub struct SearchUser {
    pub phone: String,
}

/// A copy of an optional string.
pub fn dup_opt_string(o: &Option<String>) -> (r: Option<String>)
    ensures
        opt_str_view(r) == opt_str_view(*o),
{
    match o {
        Some(s) => Some(s.clone()),
        None => None,
    }
}

} // verus!
