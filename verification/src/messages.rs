//! The wire shapes: what arrives on a connection, what the relay forwards
//! to a peer's handle, and the uniform envelope every reply travels in.

use vstd::prelude::*;

verus! {

/// One inbound text frame after decoding: the discriminated union a client
/// may send while authenticated.
#[derive(Debug)]
pub enum Income {
    /// A generic point-to-point relay payload.
    Message { to: String, content: String },
    /// Ask to befriend `user_id`.
    AddFriend { user_id: String },
    /// Accept the friend request with this row id.
    Accept { id: u64 },
    /// A chat message to persist and deliver.
    ChatMessage { to: String, content: String },
}

/// Ghost image of an [`Income`] frame.
pub ghost enum IncomeV {
    Message { to: Seq<char>, content: Seq<char> },
    AddFriend { user_id: Seq<char> },
    Accept { id: u64 },
    ChatMessage { to: Seq<char>, content: Seq<char> },
}

impl View for Income {
    type V = IncomeV;

    open spec fn view(&self) -> IncomeV {
        match self {
            Income::Message { to, content } => IncomeV::Message { to: to@, content: content@ },
            Income::AddFriend { user_id } => IncomeV::AddFriend { user_id: user_id@ },
            Income::Accept { id } => IncomeV::Accept { id: *id },
            Income::ChatMessage { to, content } => IncomeV::ChatMessage {
                to: to@,
                content: content@,
            },
        }
    }
}

/// The payload of a delivered chat message.
#[derive(Debug)]
pub struct ChatPayload {
    pub id: u64,
    pub mime_type: String,
    pub content: String,
}

/// Ghost image of a [`ChatPayload`].
pub ghost struct ChatPayloadV {
    pub id: u64,
    pub mime_type: Seq<char>,
    pub content: Seq<char>,
}

impl View for ChatPayload {
    type V = ChatPayloadV;

    open spec fn view(&self) -> ChatPayloadV {
        ChatPayloadV { id: self.id, mime_type: self.mime_type@, content: self.content@ }
    }
}

/// A workflow notification pushed to a live peer.
#[derive(Debug)]
pub enum SystemMessage {
    /// Someone asked to befriend the recipient.
    FriendRequest { id: u64, phone: String, avatar: Option<String> },
    /// A request the recipient made was accepted.
    FriendAccept { id: u64 },
}

/// Ghost image of a [`SystemMessage`].
pub ghost enum SystemMessageV {
    FriendRequest { id: u64, phone: Seq<char>, avatar: Option<Seq<char>> },
    FriendAccept { id: u64 },
}

impl View for SystemMessage {
    type V = SystemMessageV;

    open spec fn view(&self) -> SystemMessageV {
        match self {
            SystemMessage::FriendRequest { id, phone, avatar } => SystemMessageV::FriendRequest {
                id: *id,
                phone: phone@,
                avatar: crate::repository::opt_str_view(*avatar),
            },
            SystemMessage::FriendAccept { id } => SystemMessageV::FriendAccept { id: *id },
        }
    }
}

/// What the relay hands to a recipient's live connection.
#[derive(Debug)]
pub enum Message {
    /// WebRTC signaling: latency-sensitive, never persisted.
    RTC { from: String, phone: String, payload: String },
    /// A chat message, already persisted.
    Chat { from: String, phone: String, payload: ChatPayload },
    /// A workflow notification.
    System(SystemMessage),
}

/// Ghost image of a [`Message`].
pub ghost enum MessageV {
    RTC { from: Seq<char>, phone: Seq<char>, payload: Seq<char> },
    Chat { from: Seq<char>, phone: Seq<char>, payload: ChatPayloadV },
    System(SystemMessageV),
}

impl View for Message {
    type V = MessageV;

    open spec fn view(&self) -> MessageV {
        match self {
            Message::RTC { from, phone, payload } => MessageV::RTC {
                from: from@,
                phone: phone@,
                payload: payload@,
            },
            Message::Chat { from, phone, payload } => MessageV::Chat {
                from: from@,
                phone: phone@,
                payload: payload@,
            },
            Message::System(s) => MessageV::System(s@),
        }
    }
}

/// A generic relayed payload as the recipient sees it.
#[derive(Debug)]
pub struct OutMessage {
    pub from: String,
    pub content: String,
}

/// What kind of operation an envelope answers.
#[derive(Clone, Copy, PartialEq, Eq, Structural, Debug)]
pub enum OutcomeType {
    Message,
    ChatMessage,
    AddFriend,
    FriendRequests,
    Accept,
    Other,
}

/// The uniform reply envelope: a kind, an HTTP-like status, a reason on
/// failure and a payload on success.
pub struct Outcome<T> {
    pub typ: OutcomeType,
    pub status: u16,
    pub reason: Option<String>,
    pub data: Option<T>,
}

impl<T> Outcome<T> {
    /// A success envelope carrying `data`.
    pub fn success(typ: OutcomeType, data: T) -> (r: Outcome<T>)
        ensures
            r.typ == typ,
            r.status == 200,
            r.reason is None,
            r.data == Some(data),
    {
        Outcome { typ, status: 200, reason: None, data: Some(data) }
    }

    /// A failure envelope: a status and a reason, no payload.
    pub fn error(typ: OutcomeType, status: u16, reason: String) -> (r: Outcome<T>)
        ensures
            r.typ == typ,
            r.status == status,
            r.reason == Some(reason),
            r.data is None,
    {
        Outcome { typ, status, reason: Some(reason), data: None }
    }
}

} // verus!
