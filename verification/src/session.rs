//! The per-connection protocol state machine.
//!
//! One session exists per open socket and owns its own state exclusively:
//! `Connecting` until the supplied token is verified, `Authenticated` while
//! frames are processed in arrival order, `Closed` after a close frame or
//! transport error. Registration happens only on successful authentication
//! and deregistration exactly once, on the transition to `Closed`.

use vstd::prelude::*;

use crate::messages::{Income, IncomeV};
use crate::registry::AddrMap;

verus! {

/// The protocol state of one connection.
pub enum Session {
    Connecting,
    Authenticated { user_id: String },
    Closed,
}

/// Ghost image of a [`Session`].
pub ghost enum SessionV {
    Connecting,
    Authenticated { user_id: Seq<char> },
    Closed,
}

impl View for Session {
    type V = SessionV;

    open spec fn view(&self) -> SessionV {
        match self {
            Session::Connecting => SessionV::Connecting,
            Session::Authenticated { user_id } => SessionV::Authenticated { user_id: user_id@ },
            Session::Closed => SessionV::Closed,
        }
    }
}

/// One inbound frame, as the transport hands it over: a ping, a decoded
/// text frame, a text frame that did not decode (with the decoder's
/// reason), a close frame, or some frame kind the protocol does not carry.
#[derive(Debug)]
pub enum FrameEvent {
    Ping(Vec<u8>),
    Text(Income),
    Malformed(String),
    Close,
    Unsupported,
}

/// Ghost image of a [`FrameEvent`].
pub ghost enum FrameEventV {
    Ping(Seq<u8>),
    Text(IncomeV),
    Malformed(Seq<char>),
    Close,
    Unsupported,
}

impl View for FrameEvent {
    type V = FrameEventV;

    open spec fn view(&self) -> FrameEventV {
        match self {
            FrameEvent::Ping(b) => FrameEventV::Ping(b@),
            FrameEvent::Text(inc) => FrameEventV::Text(inc@),
            FrameEvent::Malformed(reason) => FrameEventV::Malformed(reason@),
            FrameEvent::Close => FrameEventV::Close,
            FrameEvent::Unsupported => FrameEventV::Unsupported,
        }
    }
}

/// What the session asks of the transport in answer to one frame: answer a
/// ping, hand a decoded frame to the router on the user's behalf, report an
/// error envelope on this same connection, or drop the registry entry while
/// closing.
#[derive(Debug)]
pub enum FrameAction {
    Pong(Vec<u8>),
    Dispatch { user_id: String, income: Income },
    ReplyError { status: u16, reason: String },
    Deregister { user_id: String },
}

/// Ghost image of a [`FrameAction`].
pub ghost enum FrameActionV {
    Pong(Seq<u8>),
    Dispatch { user_id: Seq<char>, income: IncomeV },
    ReplyError { status: u16, reason: Seq<char> },
    Deregister { user_id: Seq<char> },
}

impl View for FrameAction {
    type V = FrameActionV;

    open spec fn view(&self) -> FrameActionV {
        match self {
            FrameAction::Pong(b) => FrameActionV::Pong(b@),
            FrameAction::Dispatch { user_id, income } => FrameActionV::Dispatch {
                user_id: user_id@,
                income: income@,
            },
            FrameAction::ReplyError { status, reason } => FrameActionV::ReplyError {
                status: *status,
                reason: reason@,
            },
            FrameAction::Deregister { user_id } => FrameActionV::Deregister { user_id: user_id@ },
        }
    }
}

/// The whole per-frame behaviour of a session, as one function from state
/// and frame to next state and actions. A closed session does nothing; a
/// ping is answered at once; a decoded frame is dispatched only while
/// authenticated and otherwise refused with a 401 envelope; a frame that
/// did not decode gets a 400 envelope and the session stays open; a close
/// frame closes the session and deregisters it exactly when it was
/// authenticated.
pub open spec fn frame_transition(s: SessionV, e: FrameEventV) -> (SessionV, Seq<FrameActionV>) {
    if s is Closed {
        (SessionV::Closed, Seq::empty())
    } else {
        match e {
            FrameEventV::Ping(b) => (s, seq![FrameActionV::Pong(b)]),
            FrameEventV::Text(inc) => match s {
                SessionV::Authenticated { user_id } => (
                    s,
                    seq![FrameActionV::Dispatch { user_id: user_id, income: inc }],
                ),
                _ => (
                    s,
                    seq![
                        FrameActionV::ReplyError {
                            status: 401u16,
                            reason: "not authenticated"@,
                        },
                    ],
                ),
            },
            FrameEventV::Malformed(reason) => (
                s,
                seq![FrameActionV::ReplyError { status: 400u16, reason: reason }],
            ),
            FrameEventV::Unsupported => (
                s,
                seq![
                    FrameActionV::ReplyError {
                        status: 400u16,
                        reason: "unsupported websocket message type"@,
                    },
                ],
            ),
            FrameEventV::Close => match s {
                SessionV::Authenticated { user_id } => (
                    SessionV::Closed,
                    seq![FrameActionV::Deregister { user_id: user_id }],
                ),
                _ => (SessionV::Closed, Seq::empty()),
            },
        }
    }
}

impl Session {
    /// Open a connection with the result of token verification. Success
    /// registers the handle and enters `Authenticated`; failure never
    /// registers and yields a closed session with a 403-equivalent status
    /// for the transport to end the connection with.
    pub fn open(auth: Option<String>, handle: u64, addrs: &mut AddrMap) -> (r: (
        Session,
        Option<u16>,
    ))
        requires
            old(addrs).inv(),
        ensures
            final(addrs).inv(),
            match auth {
                Some(uid) => final(addrs)@ == old(addrs)@.insert(uid@, handle) && r.0@
                    == (SessionV::Authenticated { user_id: uid@ }) && r.1 is None,
                None => final(addrs)@ == old(addrs)@ && r.0@ == SessionV::Closed && r.1 == Some(
                    403u16,
                ),
            },
    {
        match auth {
            Some(uid) => {
                addrs.add_addr(&uid, handle);
                (Session::Authenticated { user_id: uid }, None)
            },
            None => (Session::Closed, Some(403)),
        }
    }

    /// Process one inbound frame, in arrival order, per [`frame_transition`].
    pub fn on_frame(&mut self, event: FrameEvent) -> (actions: Vec<FrameAction>)
        ensures
            final(self)@ == frame_transition(old(self)@, event@).0,
            actions@.map_values(|a: FrameAction| a@) == frame_transition(old(self)@, event@).1,
    {
        let mut actions: Vec<FrameAction> = Vec::new();
        let ghost spec_actions = frame_transition(old(self)@, event@).1;
        match self {
            Session::Closed => {
                proof {
                    assert(actions@.map_values(|a: FrameAction| a@) =~= spec_actions);
                }
                actions
            },
            Session::Connecting => {
                match event {
                    FrameEvent::Ping(b) => {
                        actions.push(FrameAction::Pong(b));
                    },
                    FrameEvent::Text(_) => {
                        actions.push(
                            FrameAction::ReplyError {
                                status: 401,
                                reason: String::from_str("not authenticated"),
                            },
                        );
                    },
                    FrameEvent::Malformed(reason) => {
                        actions.push(FrameAction::ReplyError { status: 400, reason });
                    },
                    FrameEvent::Unsupported => {
                        actions.push(
                            FrameAction::ReplyError {
                                status: 400,
                                reason: String::from_str("unsupported websocket message type"),
                            },
                        );
                    },
                    FrameEvent::Close => {
                        *self = Session::Closed;
                    },
                }
                proof {
                    assert(actions@.map_values(|a: FrameAction| a@) =~= spec_actions);
                }
                actions
            },
            Session::Authenticated { user_id } => {
                match event {
                    FrameEvent::Ping(b) => {
                        actions.push(FrameAction::Pong(b));
                    },
                    FrameEvent::Text(inc) => {
                        actions.push(
                            FrameAction::Dispatch { user_id: user_id.clone(), income: inc },
                        );
                    },
                    FrameEvent::Malformed(reason) => {
                        actions.push(FrameAction::ReplyError { status: 400, reason });
                    },
                    FrameEvent::Unsupported => {
                        actions.push(
                            FrameAction::ReplyError {
                                status: 400,
                                reason: String::from_str("unsupported websocket message type"),
                            },
                        );
                    },
                    FrameEvent::Close => {
                        actions.push(FrameAction::Deregister { user_id: user_id.clone() });
                        *self = Session::Closed;
                    },
                }
                proof {
                    assert(actions@.map_values(|a: FrameAction| a@) =~= spec_actions);
                }
                actions
            },
        }
    }

    /// A transport error tears the connection down: the session closes and
    /// must be deregistered exactly when it was authenticated — the caller
    /// gets the user id to deregister, exactly once.
    pub fn on_close(&mut self) -> (r: Option<String>)
        ensures
            final(self)@ == SessionV::Closed,
            match old(self)@ {
                SessionV::Authenticated { user_id } => r is Some && r.unwrap()@ == user_id,
                _ => r is None,
            },
    {
        let mut taken = Session::Closed;
        core::mem::swap(self, &mut taken);
        match taken {
            Session::Authenticated { user_id } => Some(user_id),
            _ => None,
        }
    }
}

} // verus!
