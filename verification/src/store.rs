//! The in-memory repository: user records, friend-request rows and chat
//! messages, with the invariants the rest of the relay leans on.
//!
//! Durable storage is a collaborator behind this same interface; this store
//! is the verified implementation the core logic and the tests run against.

use vstd::prelude::*;

use crate::error::Error;
use crate::repository::{
    ChatMessage, FriendRequest, FriendRequestStatus, InsertChatMessage, MsgV, ReqV, Session,
    User, UserRecV, UserRecord, UserType, dup_opt_string, opt_str_view,
};

verus! {

/// Ghost image of the whole store.
pub ghost struct StoreV {
    pub users: Seq<UserRecV>,
    pub requests: Seq<ReqV>,
    pub messages: Seq<MsgV>,
    pub next_request_id: u64,
    pub next_message_id: u64,
    pub clock: i64,
}

/// User ids are unique.
pub open spec fn wf_users(users: Seq<UserRecV>) -> bool {
    forall|i: int, j: int| 0 <= i < j < users.len() ==> users[i].id != users[j].id
}

/// Request ids are unique and below the id counter, and at most one live
/// row exists per ordered `(from, to)` pair.
pub open spec fn wf_requests(reqs: Seq<ReqV>, next_id: u64) -> bool {
    &&& forall|i: int| 0 <= i < reqs.len() ==> #[trigger] reqs[i].id < next_id
    &&& forall|i: int, j: int| 0 <= i < j < reqs.len() ==> reqs[i].id != reqs[j].id
    &&& forall|i: int, j: int|
        0 <= i < j < reqs.len() ==> !(reqs[i].from == reqs[j].from && reqs[i].to == reqs[j].to)
}

/// Message ids grow strictly with position and stay below the id counter,
/// so a message id is a pagination cursor.
pub open spec fn wf_messages(msgs: Seq<MsgV>, next_id: u64) -> bool {
    &&& forall|i: int| 0 <= i < msgs.len() ==> #[trigger] msgs[i].id < next_id
    &&& forall|i: int, j: int| 0 <= i < j < msgs.len() ==> msgs[i].id < msgs[j].id
}

impl StoreV {
    /// Well-formedness of the whole store; constructors establish it and
    /// every operation preserves it.
    pub open spec fn wf(self) -> bool {
        wf_users(self.users) && wf_requests(self.requests, self.next_request_id) && wf_messages(
            self.messages,
            self.next_message_id,
        )
    }
}

/// Position `i` holds the user record with this id.
pub open spec fn user_at(users: Seq<UserRecV>, id: Seq<char>, i: int) -> bool {
    0 <= i < users.len() && users[i].id == id
}

/// Some record has this user id.
pub open spec fn has_user(users: Seq<UserRecV>, id: Seq<char>) -> bool {
    exists|i: int| user_at(users, id, i)
}

/// The record with this user id (meaningful when `has_user` holds; under
/// `wf_users` it is the only one).
pub open spec fn user_of(users: Seq<UserRecV>, id: Seq<char>) -> UserRecV {
    users[choose|i: int| user_at(users, id, i)]
}

/// The in-memory store. `clock` is the time the next inserted message is
/// stamped with; the embedding sets it from the real clock.
pub struct MemoryStore {
    users: Vec<UserRecord>,
    requests: Vec<FriendRequest>,
    messages: Vec<ChatMessage>,
    next_request_id: u64,
    next_message_id: u64,
    clock: i64,
}

impl View for MemoryStore {
    type V = StoreV;

    closed spec fn view(&self) -> StoreV {
        StoreV {
            users: self.users@.map_values(|u: UserRecord| u@),
            requests: self.requests@.map_values(|r: FriendRequest| r@),
            messages: self.messages@.map_values(|m: ChatMessage| m@),
            next_request_id: self.next_request_id,
            next_message_id: self.next_message_id,
            clock: self.clock,
        }
    }
}

impl MemoryStore {
    /// An empty store.
    pub fn new() -> (r: MemoryStore)
        ensures
            r@.wf(),
            r@.users == Seq::<UserRecV>::empty(),
            r@.requests == Seq::<ReqV>::empty(),
            r@.messages == Seq::<MsgV>::empty(),
            r@.next_request_id == 0u64,
            r@.next_message_id == 0u64,
            r@.clock == 0i64,
    {
        let r = MemoryStore {
            users: Vec::new(),
            requests: Vec::new(),
            messages: Vec::new(),
            next_request_id: 0,
            next_message_id: 0,
            clock: 0,
        };
        proof {
            assert(r@.users =~= Seq::<UserRecV>::empty());
            assert(r@.requests =~= Seq::<ReqV>::empty());
            assert(r@.messages =~= Seq::<MsgV>::empty());
        }
        r
    }

    /// Set the timestamp the next inserted message will carry.
    pub fn set_clock(&mut self, now: i64)
        ensures
            final(self)@ == (StoreV { clock: now, ..old(self)@ }),
    {
        self.clock = now;
    }

    /// The index of the user record with this id, if any.
    fn find_user(&self, id: &String) -> (r: Option<usize>)
        ensures
            match r {
                Some(i) => user_at(self@.users, id@, i as int),
                None => !has_user(self@.users, id@),
            },
    {
        let mut i: usize = 0;
        while i < self.users.len()
            invariant
                i <= self.users@.len(),
                self@.users.len() == self.users@.len(),
                forall|j: int| 0 <= j < i ==> self@.users[j].id != id@,
            decreases self.users@.len() - i,
        {
            if self.users[i].id == *id {
                return Some(i);
            }
            i = i + 1;
        }
        None
    }

    /// Create a user record. Fails when the id is already taken.
    pub fn add_user(&mut self, id: &String, phone: &String) -> (r: Result<(), Error>)
        requires
            old(self)@.wf(),
        ensures
            final(self)@.wf(),
            has_user(old(self)@.users, id@) ==> r is Err && r.unwrap_err().status_code == 500
                && final(self)@ == old(self)@,
            !has_user(old(self)@.users, id@) ==> r is Ok && final(self)@ == (StoreV {
                users: old(self)@.users.push(
                    UserRecV { id: id@, phone: phone@, avatar: None, fcm_token: None },
                ),
                ..old(self)@
            }),
    {
        if self.find_user(id).is_some() {
            return Err(Error::new(String::from_str("user id already taken"), 500));
        }
        let rec = UserRecord { id: id.clone(), phone: phone.clone(), avatar: None, fcm_token: None };
        let ghost recv = rec@;
        self.users.push(rec);
        proof {
            assert(self@.users =~= old(self)@.users.push(recv));
            assert(self@ == (StoreV { users: old(self)@.users.push(recv), ..old(self)@ }));
            assert forall|i: int, j: int|
                0 <= i < j < self@.users.len() implies self@.users[i].id != self@.users[j].id by {
                if j == self@.users.len() - 1 {
                    if self@.users[i].id == recv.id {
                        assert(user_at(old(self)@.users, id@, i));
                    }
                }
            }
        }
        Ok(())
    }

    /// The user with this id, as handed to clients (no relation computed).
    pub fn get_user(&self, id: &String) -> (r: Result<User, Error>)
        requires
            self@.wf(),
        ensures
            has_user(self@.users, id@) ==> r is Ok && ({
                let u = user_of(self@.users, id@);
                let got = r.unwrap();
                got.id@ == u.id && got.phone@ == u.phone && opt_str_view(got.avatar) == u.avatar
                    && got.typ is None
            }),
            !has_user(self@.users, id@) ==> r is Err && r.unwrap_err().status_code == 404,
    {
        match self.find_user(id) {
            Some(i) => {
                let u = &self.users[i];
                proof {
                    lemma_user_of_unique(self@.users, id@, i as int);
                }
                Ok(User {
                    id: u.id.clone(),
                    phone: u.phone.clone(),
                    avatar: dup_opt_string(&u.avatar),
                    typ: None,
                })
            },
            None => Err(Error::new(String::from_str("user not found"), 404)),
        }
    }

    /// The phone number of the user with this id.
    pub fn get_phone(&self, id: &String) -> (r: Result<String, Error>)
        requires
            self@.wf(),
        ensures
            has_user(self@.users, id@) ==> r is Ok && r.unwrap()@ == user_of(
                self@.users,
                id@,
            ).phone,
            !has_user(self@.users, id@) ==> r is Err && r.unwrap_err().status_code == 404,
    {
        match self.find_user(id) {
            Some(i) => {
                proof {
                    lemma_user_of_unique(self@.users, id@, i as int);
                }
                Ok(self.users[i].phone.clone())
            },
            None => Err(Error::new(String::from_str("user not found"), 404)),
        }
    }

    /// The avatar reference of the user with this id.
    pub fn get_avatar(&self, id: &String) -> (r: Result<Option<String>, Error>)
        requires
            self@.wf(),
        ensures
            has_user(self@.users, id@) ==> r is Ok && opt_str_view(r.unwrap()) == user_of(
                self@.users,
                id@,
            ).avatar,
            !has_user(self@.users, id@) ==> r is Err && r.unwrap_err().status_code == 404,
    {
        match self.find_user(id) {
            Some(i) => {
                proof {
                    lemma_user_of_unique(self@.users, id@, i as int);
                }
                Ok(dup_opt_string(&self.users[i].avatar))
            },
            None => Err(Error::new(String::from_str("user not found"), 404)),
        }
    }

    /// The stored device token of the user with this id.
    pub fn get_token(&self, id: &String) -> (r: Result<Option<String>, Error>)
        requires
            self@.wf(),
        ensures
            has_user(self@.users, id@) ==> r is Ok && opt_str_view(r.unwrap()) == user_of(
                self@.users,
                id@,
            ).fcm_token,
            !has_user(self@.users, id@) ==> r is Err && r.unwrap_err().status_code == 404,
    {
        match self.find_user(id) {
            Some(i) => {
                proof {
                    lemma_user_of_unique(self@.users, id@, i as int);
                }
                Ok(dup_opt_string(&self.users[i].fcm_token))
            },
            None => Err(Error::new(String::from_str("user not found"), 404)),
        }
    }

    /// Point this user's avatar at an upload. A missing user is left as a
    /// silent no-op, as a row-matching update is.
    pub fn update_avatar(&mut self, self_id: &String, upload_id: &String) -> (r: Result<
        (),
        Error,
    >)
        requires
            old(self)@.wf(),
        ensures
            final(self)@.wf(),
            r is Ok,
            has_user(old(self)@.users, self_id@) ==> final(self)@ == (StoreV {
                users: old(self)@.users.update(
                    choose|i: int| user_at(old(self)@.users, self_id@, i),
                    UserRecV {
                        avatar: Some(upload_id@),
                        ..user_of(old(self)@.users, self_id@)
                    },
                ),
                ..old(self)@
            }),
            !has_user(old(self)@.users, self_id@) ==> final(self)@ == old(self)@,
    {
        match self.find_user(self_id) {
            Some(i) => {
                proof {
                    lemma_user_of_unique(self@.users, self_id@, i as int);
                }
                let old_rec = self.users.remove(i);
                let new_rec = UserRecord { avatar: Some(upload_id.clone()), ..old_rec };
                let ghost newv = new_rec@;
                self.users.insert(i, new_rec);
                proof {
                    assert(self@.users =~= old(self)@.users.update(i as int, newv));
                    lemma_wf_users_update(old(self)@.users, i as int, newv);
                }
                Ok(())
            },
            None => Ok(()),
        }
    }

    /// Replace this user's device token. A missing user is a silent no-op.
    pub fn update_token(&mut self, self_id: &String, token: &String) -> (r: Result<(), Error>)
        requires
            old(self)@.wf(),
        ensures
            final(self)@.wf(),
            r is Ok,
            has_user(old(self)@.users, self_id@) ==> final(self)@ == (StoreV {
                users: old(self)@.users.update(
                    choose|i: int| user_at(old(self)@.users, self_id@, i),
                    UserRecV {
                        fcm_token: Some(token@),
                        ..user_of(old(self)@.users, self_id@)
                    },
                ),
                ..old(self)@
            }),
            !has_user(old(self)@.users, self_id@) ==> final(self)@ == old(self)@,
    {
        match self.find_user(self_id) {
            Some(i) => {
                proof {
                    lemma_user_of_unique(self@.users, self_id@, i as int);
                }
                let old_rec = self.users.remove(i);
                let new_rec = UserRecord { fcm_token: Some(token.clone()), ..old_rec };
                let ghost newv = new_rec@;
                self.users.insert(i, new_rec);
                proof {
                    assert(self@.users =~= old(self)@.users.update(i as int, newv));
                    lemma_wf_users_update(old(self)@.users, i as int, newv);
                }
                Ok(())
            },
            None => Ok(()),
        }
    }
}

/// Under unique user ids, any index holding `id` is the `choose`n one.
proof fn lemma_user_of_unique(users: Seq<UserRecV>, id: Seq<char>, i: int)
    requires
        wf_users(users),
        user_at(users, id, i),
    ensures
        user_of(users, id) == users[i],
        has_user(users, id),
        (choose|j: int| user_at(users, id, j)) == i,
{
    let j = choose|j: int| user_at(users, id, j);
    if i != j {
        if i < j {
            assert(users[i].id != users[j].id);
        } else {
            assert(users[j].id != users[i].id);
        }
    }
}

/// Updating one record in place (same id) keeps user ids unique.
proof fn lemma_wf_users_update(users: Seq<UserRecV>, i: int, newv: UserRecV)
    requires
        wf_users(users),
        0 <= i < users.len(),
        newv.id == users[i].id,
    ensures
        wf_users(users.update(i, newv)),
{
}

/// Position `i` holds the request row for the ordered pair `(from, to)`.
pub open spec fn req_pair_at(reqs: Seq<ReqV>, from: Seq<char>, to: Seq<char>, i: int) -> bool {
    0 <= i < reqs.len() && reqs[i].from == from && reqs[i].to == to
}

/// Some row exists for the ordered pair `(from, to)`.
pub open spec fn has_pair(reqs: Seq<ReqV>, from: Seq<char>, to: Seq<char>) -> bool {
    exists|i: int| req_pair_at(reqs, from, to, i)
}

/// The position of the `(from, to)` row (meaningful when `has_pair` holds;
/// under `wf_requests` it is the only one).
pub open spec fn pair_index(reqs: Seq<ReqV>, from: Seq<char>, to: Seq<char>) -> int {
    choose|i: int| req_pair_at(reqs, from, to, i)
}

/// Position `i` holds the request row with this id.
pub open spec fn req_id_at(reqs: Seq<ReqV>, id: u64, i: int) -> bool {
    0 <= i < reqs.len() && reqs[i].id == id
}

/// Some row has this request id.
pub open spec fn has_req_id(reqs: Seq<ReqV>, id: u64) -> bool {
    exists|i: int| req_id_at(reqs, id, i)
}

/// The position of the row with this id (meaningful when `has_req_id`
/// holds; under `wf_requests` it is the only one).
pub open spec fn req_index(reqs: Seq<ReqV>, id: u64) -> int {
    choose|i: int| req_id_at(reqs, id, i)
}

/// The row with this request id.
pub open spec fn req_of(reqs: Seq<ReqV>, id: u64) -> ReqV {
    reqs[req_index(reqs, id)]
}

/// The friend-request upsert: an existing `(from, to)` row is reset to
/// `Pending` and keeps its id; otherwise a fresh `Pending` row is appended
/// under the next id. Returns the new store and the row id.
pub open spec fn upsert_request(s: StoreV, from: Seq<char>, to: Seq<char>, phone: Seq<char>) -> (
    StoreV,
    u64,
) {
    if has_pair(s.requests, from, to) {
        let i = pair_index(s.requests, from, to);
        (
            StoreV {
                requests: s.requests.update(
                    i,
                    ReqV { status: FriendRequestStatus::Pending, ..s.requests[i] },
                ),
                ..s
            },
            s.requests[i].id,
        )
    } else {
        (
            StoreV {
                requests: s.requests.push(
                    ReqV {
                        id: s.next_request_id,
                        from: from,
                        to: to,
                        status: FriendRequestStatus::Pending,
                        phone: phone,
                    },
                ),
                next_request_id: (s.next_request_id + 1) as u64,
                ..s
            },
            s.next_request_id,
        )
    }
}

/// Setting the status of the row with this id; a store without such a row
/// is left unchanged.
pub open spec fn set_request_status(s: StoreV, id: u64, st: FriendRequestStatus) -> StoreV {
    if has_req_id(s.requests, id) {
        let i = req_index(s.requests, id);
        StoreV { requests: s.requests.update(i, ReqV { status: st, ..s.requests[i] }), ..s }
    } else {
        s
    }
}

/// The `Pending` rows addressed to `to`, in store order.
pub open spec fn pending_for(reqs: Seq<ReqV>, to: Seq<char>) -> Seq<ReqV>
    decreases reqs.len(),
{
    if reqs.len() == 0 {
        Seq::empty()
    } else if reqs.last().to == to && reqs.last().status == FriendRequestStatus::Pending {
        pending_for(reqs.drop_last(), to).push(reqs.last())
    } else {
        pending_for(reqs.drop_last(), to)
    }
}

/// Under pair uniqueness, any index holding `(from, to)` is the `choose`n one.
proof fn lemma_pair_unique(reqs: Seq<ReqV>, from: Seq<char>, to: Seq<char>, i: int)
    requires
        forall|a: int, b: int|
            0 <= a < b < reqs.len() ==> !(reqs[a].from == reqs[b].from && reqs[a].to
                == reqs[b].to),
        req_pair_at(reqs, from, to, i),
    ensures
        has_pair(reqs, from, to),
        pair_index(reqs, from, to) == i,
{
    let j = pair_index(reqs, from, to);
    if i != j {
        if i < j {
            assert(!(reqs[i].from == reqs[j].from && reqs[i].to == reqs[j].to));
        } else {
            assert(!(reqs[j].from == reqs[i].from && reqs[j].to == reqs[i].to));
        }
    }
}

/// Under id uniqueness, any index holding `id` is the `choose`n one.
proof fn lemma_req_id_unique(reqs: Seq<ReqV>, id: u64, i: int)
    requires
        forall|a: int, b: int| 0 <= a < b < reqs.len() ==> reqs[a].id != reqs[b].id,
        req_id_at(reqs, id, i),
    ensures
        has_req_id(reqs, id),
        req_index(reqs, id) == i,
        req_of(reqs, id) == reqs[i],
{
    let j = req_index(reqs, id);
    if i != j {
        if i < j {
            assert(reqs[i].id != reqs[j].id);
        } else {
            assert(reqs[j].id != reqs[i].id);
        }
    }
}

/// A status-only update of one row keeps the request invariants.
proof fn lemma_wf_requests_update(reqs: Seq<ReqV>, next_id: u64, i: int, newv: ReqV)
    requires
        wf_requests(reqs, next_id),
        0 <= i < reqs.len(),
        newv.id == reqs[i].id,
        newv.from == reqs[i].from,
        newv.to == reqs[i].to,
    ensures
        wf_requests(reqs.update(i, newv), next_id),
{
    let upd = reqs.update(i, newv);
    assert forall|a: int| 0 <= a < upd.len() implies #[trigger] upd[a].id < next_id by {
        assert(reqs[a].id < next_id);
    }
}

impl MemoryStore {
    /// The index of the row for the ordered pair `(from, to)`, if any.
    fn find_request_by_pair(&self, from: &String, to: &String) -> (r: Option<usize>)
        ensures
            match r {
                Some(i) => req_pair_at(self@.requests, from@, to@, i as int),
                None => !has_pair(self@.requests, from@, to@),
            },
    {
        let mut i: usize = 0;
        while i < self.requests.len()
            invariant
                i <= self.requests@.len(),
                self@.requests.len() == self.requests@.len(),
                forall|j: int|
                    0 <= j < i ==> !(self@.requests[j].from == from@ && self@.requests[j].to
                        == to@),
            decreases self.requests@.len() - i,
        {
            if self.requests[i].from == *from && self.requests[i].to == *to {
                return Some(i);
            }
            i = i + 1;
        }
        None
    }

    /// The index of the row with this id, if any.
    fn find_request_by_id(&self, id: u64) -> (r: Option<usize>)
        ensures
            match r {
                Some(i) => req_id_at(self@.requests, id, i as int),
                None => !has_req_id(self@.requests, id),
            },
    {
        let mut i: usize = 0;
        while i < self.requests.len()
            invariant
                i <= self.requests@.len(),
                self@.requests.len() == self.requests@.len(),
                forall|j: int| 0 <= j < i ==> self@.requests[j].id != id,
            decreases self.requests@.len() - i,
        {
            if self.requests[i].id == id {
                return Some(i);
            }
            i = i + 1;
        }
        None
    }

    /// The friend-request upsert of the workflow: re-requesting an existing
    /// `(from, to)` row resets it to `Pending` instead of duplicating it.
    /// Returns the row id. Fails when the requester has no user record (the
    /// row's phone comes from it) or, for a fresh row, when the id space is
    /// exhausted.
    pub fn add_friend_request(&mut self, from: &String, to: &String) -> (r: Result<u64, Error>)
        requires
            old(self)@.wf(),
        ensures
            final(self)@.wf(),
            !has_user(old(self)@.users, from@) ==> r is Err && r.unwrap_err().status_code == 404
                && final(self)@ == old(self)@,
            has_user(old(self)@.users, from@) && !has_pair(old(self)@.requests, from@, to@)
                && old(self)@.next_request_id == u64::MAX ==> r is Err
                && r.unwrap_err().status_code == 500 && final(self)@ == old(self)@,
            has_user(old(self)@.users, from@) && (has_pair(old(self)@.requests, from@, to@) || old(
                self,
            )@.next_request_id < u64::MAX) ==> {
                let outcome = upsert_request(
                    old(self)@,
                    from@,
                    to@,
                    user_of(old(self)@.users, from@).phone,
                );
                r == Ok::<u64, Error>(outcome.1) && final(self)@ == outcome.0
            },
    {
        let phone = match self.get_phone(from) {
            Ok(p) => p,
            Err(e) => {
                return Err(e);
            },
        };
        match self.find_request_by_pair(from, to) {
            Some(i) => {
                proof {
                    lemma_pair_unique(self@.requests, from@, to@, i as int);
                }
                let old_row = self.requests.remove(i);
                let rid = old_row.id;
                let new_row = FriendRequest { status: FriendRequestStatus::Pending, ..old_row };
                let ghost newv = new_row@;
                self.requests.insert(i, new_row);
                proof {
                    assert(self@.requests =~= old(self)@.requests.update(i as int, newv));
                    lemma_wf_requests_update(
                        old(self)@.requests,
                        old(self)@.next_request_id,
                        i as int,
                        newv,
                    );
                    assert(final(self)@ == upsert_request(
                        old(self)@,
                        from@,
                        to@,
                        user_of(old(self)@.users, from@).phone,
                    ).0);
                }
                Ok(rid)
            },
            None => {
                if self.next_request_id == u64::MAX {
                    return Err(Error::new(String::from_str("request id space exhausted"), 500));
                }
                let rid = self.next_request_id;
                let row = FriendRequest {
                    id: rid,
                    from: from.clone(),
                    to: to.clone(),
                    status: FriendRequestStatus::Pending,
                    phone,
                };
                let ghost rowv = row@;
                self.requests.push(row);
                self.next_request_id = self.next_request_id + 1;
                proof {
                    assert(self@.requests =~= old(self)@.requests.push(rowv));
                    assert forall|a: int, b: int|
                        0 <= a < b < self@.requests.len() implies self@.requests[a].id
                        != self@.requests[b].id && !(self@.requests[a].from
                        == self@.requests[b].from && self@.requests[a].to
                        == self@.requests[b].to) by {
                        if b == self@.requests.len() - 1 {
                            assert(old(self)@.requests[a].id < old(self)@.next_request_id);
                            assert(!req_pair_at(old(self)@.requests, from@, to@, a));
                        }
                    }
                    assert(final(self)@ == upsert_request(
                        old(self)@,
                        from@,
                        to@,
                        user_of(old(self)@.users, from@).phone,
                    ).0);
                }
                Ok(rid)
            },
        }
    }

    /// The row with this request id, or a not-found failure.
    pub fn get_friend_request(&self, id: u64) -> (r: Result<FriendRequest, Error>)
        requires
            self@.wf(),
        ensures
            has_req_id(self@.requests, id) ==> r is Ok && r.unwrap()@ == req_of(
                self@.requests,
                id,
            ),
            !has_req_id(self@.requests, id) ==> r is Err && r.unwrap_err().status_code == 404,
    {
        match self.find_request_by_id(id) {
            Some(i) => {
                proof {
                    lemma_req_id_unique(self@.requests, id, i as int);
                }
                Ok(self.requests[i].duplicate())
            },
            None => Err(Error::new(String::from_str("friend request not found"), 404)),
        }
    }

    /// Set the row with this id to `Accepted`; without such a row the store
    /// is unchanged, as a row-matching update is.
    pub fn accept_friend_request(&mut self, id: u64) -> (r: Result<(), Error>)
        requires
            old(self)@.wf(),
        ensures
            final(self)@.wf(),
            r is Ok,
            final(self)@ == set_request_status(old(self)@, id, FriendRequestStatus::Accepted),
    {
        self.set_status(id, FriendRequestStatus::Accepted);
        Ok(())
    }

    /// Set the row with this id to `Rejected`; without such a row the store
    /// is unchanged.
    pub fn reject_friend_request(&mut self, id: u64) -> (r: Result<(), Error>)
        requires
            old(self)@.wf(),
        ensures
            final(self)@.wf(),
            r is Ok,
            final(self)@ == set_request_status(old(self)@, id, FriendRequestStatus::Rejected),
    {
        self.set_status(id, FriendRequestStatus::Rejected);
        Ok(())
    }

    /// The shared body of accept and reject.
    fn set_status(&mut self, id: u64, st: FriendRequestStatus)
        requires
            old(self)@.wf(),
        ensures
            final(self)@.wf(),
            final(self)@ == set_request_status(old(self)@, id, st),
    {
        match self.find_request_by_id(id) {
            Some(i) => {
                proof {
                    lemma_req_id_unique(self@.requests, id, i as int);
                }
                let old_row = self.requests.remove(i);
                let new_row = FriendRequest { status: st, ..old_row };
                let ghost newv = new_row@;
                self.requests.insert(i, new_row);
                proof {
                    assert(self@.requests =~= old(self)@.requests.update(i as int, newv));
                    lemma_wf_requests_update(
                        old(self)@.requests,
                        old(self)@.next_request_id,
                        i as int,
                        newv,
                    );
                    assert(final(self)@ == set_request_status(old(self)@, id, st));
                }
            },
            None => {
            },
        }
    }

    /// All `Pending` rows addressed to `to`, in store order.
    pub fn pending_friend_requests(&self, to: &String) -> (r: Result<Vec<FriendRequest>, Error>)
        ensures
            r is Ok,
            r.unwrap()@.map_values(|fr: FriendRequest| fr@) == pending_for(self@.requests, to@),
    {
        let mut out: Vec<FriendRequest> = Vec::new();
        let mut i: usize = 0;
        while i < self.requests.len()
            invariant
                i <= self.requests@.len(),
                self@.requests.len() == self.requests@.len(),
                out@.map_values(|fr: FriendRequest| fr@) == pending_for(
                    self@.requests.take(i as int),
                    to@,
                ),
            decreases self.requests@.len() - i,
        {
            let ghost prefix = self@.requests.take(i as int);
            let ghost next_prefix = self@.requests.take(i as int + 1);
            proof {
                assert(next_prefix.drop_last() =~= prefix);
                assert(next_prefix.last() == self@.requests[i as int]);
            }
            let row = &self.requests[i];
            if row.to == *to && row.status == FriendRequestStatus::Pending {
                let ghost before = out@.map_values(|fr: FriendRequest| fr@);
                out.push(row.duplicate());
                proof {
                    assert(pending_for(next_prefix, to@) == pending_for(prefix, to@).push(
                        self@.requests[i as int],
                    ));
                    assert(out@.map_values(|fr: FriendRequest| fr@) =~= before.push(
                        self@.requests[i as int],
                    ));
                }
            } else {
                proof {
                    assert(pending_for(next_prefix, to@) == pending_for(prefix, to@));
                }
            }
            i = i + 1;
        }
        proof {
            assert(self@.requests.take(self.requests@.len() as int) =~= self@.requests);
        }
        Ok(out)
    }
}

/// The message travels between `a` and `b`, in either direction.
pub open spec fn msg_between(m: MsgV, a: Seq<char>, b: Seq<char>) -> bool {
    (m.from == a && m.to == b) || (m.from == b && m.to == a)
}

/// The id lies below the exclusive pagination cursor; without a cursor
/// every id is admitted.
pub open spec fn below_cursor(id: u64, before: Option<u64>) -> bool {
    match before {
        None => true,
        Some(c) => id < c,
    }
}

/// The read-marking of one message when `reader` fetches history with
/// `author`: messages authored by `author` for `reader` up to the cursor
/// become read; every other message is untouched.
pub open spec fn mark_one(m: MsgV, reader: Seq<char>, author: Seq<char>, before: Option<u64>) -> MsgV {
    if m.from == author && m.to == reader && below_cursor(m.id, before) {
        MsgV { has_read: true, ..m }
    } else {
        m
    }
}

/// The read-marking side effect of a history fetch, applied pointwise.
pub open spec fn mark_read_v(
    msgs: Seq<MsgV>,
    reader: Seq<char>,
    author: Seq<char>,
    before: Option<u64>,
) -> Seq<MsgV> {
    Seq::new(msgs.len(), |i: int| mark_one(msgs[i], reader, author, before))
}

/// The single-message acknowledgement: the message with this id becomes
/// read, provided `author` wrote it.
pub open spec fn mark_msg_v(msgs: Seq<MsgV>, author: Seq<char>, msg_id: u64) -> Seq<MsgV> {
    Seq::new(
        msgs.len(),
        |i: int|
            if msgs[i].id == msg_id && msgs[i].from == author {
                MsgV { has_read: true, ..msgs[i] }
            } else {
                msgs[i]
            },
    )
}

/// The whole conversation between `a` and `b` below the cursor, in store
/// order (oldest first, since ids grow with position).
pub open spec fn conversation_v(
    msgs: Seq<MsgV>,
    a: Seq<char>,
    b: Seq<char>,
    before: Option<u64>,
) -> Seq<MsgV>
    decreases msgs.len(),
{
    if msgs.len() == 0 {
        Seq::empty()
    } else if msg_between(msgs.last(), a, b) && below_cursor(msgs.last().id, before) {
        conversation_v(msgs.drop_last(), a, b, before).push(msgs.last())
    } else {
        conversation_v(msgs.drop_last(), a, b, before)
    }
}

/// The page a history fetch returns: the newest `limit` messages of the
/// conversation below the cursor, oldest first.
pub open spec fn history_page_v(
    msgs: Seq<MsgV>,
    a: Seq<char>,
    b: Seq<char>,
    limit: int,
    before: Option<u64>,
) -> Seq<MsgV> {
    let conv = conversation_v(msgs, a, b, before);
    if conv.len() <= limit {
        conv
    } else {
        conv.subrange(conv.len() - limit, conv.len() as int)
    }
}

/// Pointwise rewrites keep ids in place, so the message invariants survive.
proof fn lemma_wf_messages_pointwise(msgs: Seq<MsgV>, next_id: u64, marked: Seq<MsgV>)
    requires
        wf_messages(msgs, next_id),
        marked.len() == msgs.len(),
        forall|i: int| 0 <= i < msgs.len() ==> #[trigger] marked[i].id == msgs[i].id,
    ensures
        wf_messages(marked, next_id),
{
    assert forall|i: int| 0 <= i < marked.len() implies #[trigger] marked[i].id < next_id by {
        assert(msgs[i].id < next_id);
    }
}

impl MemoryStore {
    /// Persist one chat message: it gets the next id, the clock's stamp and
    /// an unread flag, and returns as the full stored row. Fails only when
    /// the id space is exhausted.
    pub fn insert_chat_message(&mut self, create: &InsertChatMessage) -> (r: Result<
        ChatMessage,
        Error,
    >)
        requires
            old(self)@.wf(),
        ensures
            final(self)@.wf(),
            old(self)@.next_message_id == u64::MAX ==> r is Err && r.unwrap_err().status_code
                == 500 && final(self)@ == old(self)@,
            old(self)@.next_message_id < u64::MAX ==> {
                let m = MsgV {
                    id: old(self)@.next_message_id,
                    from: create.from@,
                    to: create.to@,
                    mime_type: create.mime_type@,
                    content: create.content@,
                    sent_at: old(self)@.clock,
                    has_read: false,
                };
                r is Ok && r.unwrap()@ == m && final(self)@ == (StoreV {
                    messages: old(self)@.messages.push(m),
                    next_message_id: (old(self)@.next_message_id + 1) as u64,
                    ..old(self)@
                })
            },
    {
        if self.next_message_id == u64::MAX {
            return Err(Error::new(String::from_str("message id space exhausted"), 500));
        }
        let row = ChatMessage {
            id: self.next_message_id,
            from: create.from.clone(),
            to: create.to.clone(),
            mime_type: create.mime_type.clone(),
            content: create.content.clone(),
            sent_at: self.clock,
            has_read: false,
        };
        let result = row.duplicate();
        let ghost rowv = row@;
        self.messages.push(row);
        self.next_message_id = self.next_message_id + 1;
        proof {
            assert(self@.messages =~= old(self)@.messages.push(rowv));
            assert forall|a: int, b: int|
                0 <= a < b < self@.messages.len() implies self@.messages[a].id
                < self@.messages[b].id by {
                if b == self@.messages.len() - 1 {
                    assert(old(self)@.messages[a].id < old(self)@.next_message_id);
                }
            }
        }
        Ok(result)
    }

    /// Acknowledge one delivered message: it becomes read, provided
    /// `user_id` wrote it. A missing or foreign row is a silent no-op.
    pub fn mark_as_read(&mut self, user_id: &String, msg_id: u64) -> (r: Result<(), Error>)
        requires
            old(self)@.wf(),
        ensures
            final(self)@.wf(),
            r is Ok,
            final(self)@ == (StoreV {
                messages: mark_msg_v(old(self)@.messages, user_id@, msg_id),
                ..old(self)@
            }),
    {
        let mut rewritten: Vec<ChatMessage> = Vec::new();
        let mut i: usize = 0;
        let ghost target = mark_msg_v(old(self)@.messages, user_id@, msg_id);
        while i < self.messages.len()
            invariant
                i <= self.messages@.len(),
                self@ == old(self)@,
                target == mark_msg_v(old(self)@.messages, user_id@, msg_id),
                rewritten@.len() == i,
                forall|j: int| 0 <= j < i ==> #[trigger] rewritten@[j]@ == target[j],
            decreases self.messages@.len() - i,
        {
            let m = &self.messages[i];
            if m.id == msg_id && m.from == *user_id {
                let mut d = m.duplicate();
                d.has_read = true;
                rewritten.push(d);
            } else {
                rewritten.push(m.duplicate());
            }
            i = i + 1;
        }
        self.messages = rewritten;
        proof {
            assert(self@.messages =~= target);
            lemma_wf_messages_pointwise(
                old(self)@.messages,
                old(self)@.next_message_id,
                self@.messages,
            );
        }
        Ok(())
    }

    /// A page of the conversation with `other_id`, oldest first, at most
    /// `limit` long, strictly below the `before` cursor when one is given.
    /// Side effect: every message `other_id` wrote to `self_id` up to the
    /// cursor becomes read — fetching history is what produces bulk read
    /// receipts. The page reflects the store after that marking.
    pub fn chat_message_history(
        &mut self,
        self_id: &String,
        other_id: &String,
        limit: usize,
        before: Option<u64>,
    ) -> (r: Result<Vec<ChatMessage>, Error>)
        requires
            old(self)@.wf(),
        ensures
            final(self)@.wf(),
            final(self)@ == (StoreV {
                messages: mark_read_v(old(self)@.messages, self_id@, other_id@, before),
                ..old(self)@
            }),
            r is Ok,
            r.unwrap()@.map_values(|m: ChatMessage| m@) == history_page_v(
                final(self)@.messages,
                self_id@,
                other_id@,
                limit as int,
                before,
            ),
    {
        let ghost target = mark_read_v(old(self)@.messages, self_id@, other_id@, before);
        let mut rewritten: Vec<ChatMessage> = Vec::new();
        let mut i: usize = 0;
        while i < self.messages.len()
            invariant
                i <= self.messages@.len(),
                self@ == old(self)@,
                target == mark_read_v(old(self)@.messages, self_id@, other_id@, before),
                rewritten@.len() == i,
                forall|j: int| 0 <= j < i ==> #[trigger] rewritten@[j]@ == target[j],
            decreases self.messages@.len() - i,
        {
            let m = &self.messages[i];
            let in_cursor = match before {
                None => true,
                Some(c) => m.id < c,
            };
            if m.from == *other_id && m.to == *self_id && in_cursor {
                let mut d = m.duplicate();
                d.has_read = true;
                rewritten.push(d);
            } else {
                rewritten.push(m.duplicate());
            }
            i = i + 1;
        }
        self.messages = rewritten;
        proof {
            assert(self@.messages =~= target);
            lemma_wf_messages_pointwise(
                old(self)@.messages,
                old(self)@.next_message_id,
                self@.messages,
            );
        }
        // Collect the whole conversation below the cursor, oldest first.
        let mut conv: Vec<ChatMessage> = Vec::new();
        let mut i: usize = 0;
        while i < self.messages.len()
            invariant
                i <= self.messages@.len(),
                self@.messages == target,
                self@.messages.len() == self.messages@.len(),
                conv@.map_values(|m: ChatMessage| m@) == conversation_v(
                    self@.messages.take(i as int),
                    self_id@,
                    other_id@,
                    before,
                ),
            decreases self.messages@.len() - i,
        {
            let ghost prefix = self@.messages.take(i as int);
            let ghost next_prefix = self@.messages.take(i as int + 1);
            proof {
                assert(next_prefix.drop_last() =~= prefix);
                assert(next_prefix.last() == self@.messages[i as int]);
            }
            let m = &self.messages[i];
            let in_cursor = match before {
                None => true,
                Some(c) => m.id < c,
            };
            let related = (m.from == *self_id && m.to == *other_id) || (m.from == *other_id
                && m.to == *self_id);
            if related && in_cursor {
                let ghost before_view = conv@.map_values(|m: ChatMessage| m@);
                conv.push(m.duplicate());
                proof {
                    assert(conv@.map_values(|m: ChatMessage| m@) =~= before_view.push(
                        self@.messages[i as int],
                    ));
                }
            } else {
                proof {
                    assert(conversation_v(next_prefix, self_id@, other_id@, before)
                        == conversation_v(prefix, self_id@, other_id@, before));
                }
            }
            i = i + 1;
        }
        proof {
            assert(self@.messages.take(self.messages@.len() as int) =~= self@.messages);
        }
        // Keep only the newest `limit` entries, order preserved.
        if conv.len() <= limit {
            return Ok(conv);
        }
        let start = conv.len() - limit;
        let mut page: Vec<ChatMessage> = Vec::new();
        let mut k: usize = start;
        while k < conv.len()
            invariant
                start <= k <= conv@.len(),
                start == conv@.len() - limit,
                limit <= conv@.len(),
                page@.map_values(|m: ChatMessage| m@) == conv@.map_values(
                    |m: ChatMessage| m@,
                ).subrange(start as int, k as int),
            decreases conv@.len() - k,
        {
            let ghost before_view = page@.map_values(|m: ChatMessage| m@);
            page.push(conv[k].duplicate());
            proof {
                assert(page@.map_values(|m: ChatMessage| m@) =~= before_view.push(
                    conv@.map_values(|m: ChatMessage| m@)[k as int],
                ));
                assert(conv@.map_values(|m: ChatMessage| m@).subrange(
                    start as int,
                    k as int + 1,
                ) =~= conv@.map_values(|m: ChatMessage| m@).subrange(start as int, k as int).push(
                    conv@.map_values(|m: ChatMessage| m@)[k as int],
                ));
            }
            k = k + 1;
        }
        proof {
            assert(conv@.map_values(|m: ChatMessage| m@).subrange(
                start as int,
                conv@.len() as int,
            ) == history_page_v(self@.messages, self_id@, other_id@, limit as int, before));
        }
        Ok(page)
    }
}

/// Both directions of friendship: some `Accepted` row joins `a` and `b`.
pub open spec fn are_friends(reqs: Seq<ReqV>, a: Seq<char>, b: Seq<char>) -> bool {
    exists|i: int|
        0 <= i < reqs.len() && reqs[i].status == FriendRequestStatus::Accepted && (msg_pair(
            reqs[i],
            a,
            b,
        ))
}

/// The row joins `a` and `b` in either direction.
pub open spec fn msg_pair(r: ReqV, a: Seq<char>, b: Seq<char>) -> bool {
    (r.from == a && r.to == b) || (r.from == b && r.to == a)
}

/// The status of the `(from, to)` row, if one exists.
pub open spec fn status_of_pair(reqs: Seq<ReqV>, from: Seq<char>, to: Seq<char>) -> Option<
    FriendRequestStatus,
> {
    if has_pair(reqs, from, to) {
        Some(reqs[pair_index(reqs, from, to)].status)
    } else {
        None
    }
}

/// How `other` relates to `me`, given the request rows: a pending row from
/// `other` means they asked `me` (`Requested`); a pending row to `other`
/// means `me` asked them (`Requesting`); an accepted row either way makes a
/// `Friend`; then `Myself`, then `Stranger`.
pub open spec fn relation_of(reqs: Seq<ReqV>, me: Seq<char>, other: Seq<char>) -> UserType {
    let f = status_of_pair(reqs, other, me);
    let t = status_of_pair(reqs, me, other);
    if f == Some(FriendRequestStatus::Pending) {
        UserType::Requested
    } else if t == Some(FriendRequestStatus::Pending) {
        UserType::Requesting
    } else if f == Some(FriendRequestStatus::Accepted) || t == Some(
        FriendRequestStatus::Accepted,
    ) {
        UserType::Friend
    } else if other == me {
        UserType::Myself
    } else {
        UserType::Stranger
    }
}

/// Position `i` holds a record with this phone.
pub open spec fn phone_at(users: Seq<UserRecV>, phone: Seq<char>, i: int) -> bool {
    0 <= i < users.len() && users[i].phone == phone
}

/// Some record has this phone.
pub open spec fn has_phone(users: Seq<UserRecV>, phone: Seq<char>) -> bool {
    exists|i: int| phone_at(users, phone, i)
}

/// The first position holding this phone (meaningful when `has_phone`
/// holds). Phones are not required to be unique; a search returns the
/// earliest record.
pub open spec fn first_phone_index(users: Seq<UserRecV>, phone: Seq<char>) -> int {
    choose|i: int|
        phone_at(users, phone, i) && forall|j: int| 0 <= j < i ==> !phone_at(users, phone, j)
}

/// The first-index property determines the index.
proof fn lemma_first_phone_unique(users: Seq<UserRecV>, phone: Seq<char>, i: int)
    requires
        phone_at(users, phone, i),
        forall|j: int| 0 <= j < i ==> !phone_at(users, phone, j),
    ensures
        first_phone_index(users, phone) == i,
{
    let k = first_phone_index(users, phone);
    assert(phone_at(users, phone, i) && forall|j: int| 0 <= j < i ==> !phone_at(users, phone, j));
    assert(phone_at(users, phone, k) && forall|j: int| 0 <= j < k ==> !phone_at(users, phone, j));
    if k < i {
        assert(!phone_at(users, phone, k));
    } else if i < k {
        assert(!phone_at(users, phone, i));
    }
}

impl MemoryStore {
    /// Whether some `Accepted` row joins the two users, in either direction.
    pub fn is_friend(&self, user_id: &String, friend_id: &String) -> (r: Result<bool, Error>)
        ensures
            r is Ok,
            r.unwrap() == are_friends(self@.requests, user_id@, friend_id@),
    {
        let mut i: usize = 0;
        while i < self.requests.len()
            invariant
                i <= self.requests@.len(),
                self@.requests.len() == self.requests@.len(),
                forall|j: int|
                    0 <= j < i ==> !(self@.requests[j].status == FriendRequestStatus::Accepted
                        && msg_pair(self@.requests[j], user_id@, friend_id@)),
            decreases self.requests@.len() - i,
        {
            let row = &self.requests[i];
            if row.status == FriendRequestStatus::Accepted && ((row.from == *user_id && row.to
                == *friend_id) || (row.from == *friend_id && row.to == *user_id)) {
                proof {
                    assert(msg_pair(self@.requests[i as int], user_id@, friend_id@));
                    assert(are_friends(self@.requests, user_id@, friend_id@));
                }
                return Ok(true);
            }
            i = i + 1;
        }
        Ok(false)
    }

    /// The status of the `(from, to)` row, if one exists.
    fn pair_status(&self, from: &String, to: &String) -> (r: Option<FriendRequestStatus>)
        requires
            self@.wf(),
        ensures
            r == status_of_pair(self@.requests, from@, to@),
    {
        match self.find_request_by_pair(from, to) {
            Some(i) => {
                proof {
                    lemma_pair_unique(self@.requests, from@, to@, i as int);
                }
                Some(self.requests[i].status)
            },
            None => None,
        }
    }

    /// Look a user up by exact phone number and say how they relate to the
    /// asking user. `None` when no record has that phone; with duplicate
    /// phones the earliest record wins.
    pub fn search_user(&self, user_id: &String, phone: &String) -> (r: Result<
        Option<User>,
        Error,
    >)
        requires
            self@.wf(),
        ensures
            r is Ok,
            !has_phone(self@.users, phone@) ==> r == Ok::<Option<User>, Error>(None),
            has_phone(self@.users, phone@) ==> ({
                let u = self@.users[first_phone_index(self@.users, phone@)];
                let got = r.unwrap();
                got is Some && got.unwrap().id@ == u.id && got.unwrap().phone@ == u.phone
                    && opt_str_view(got.unwrap().avatar) == u.avatar && got.unwrap().typ == Some(
                    relation_of(self@.requests, user_id@, u.id),
                )
            }),
    {
        let mut i: usize = 0;
        while i < self.users.len()
            invariant
                self@.wf(),
                i <= self.users@.len(),
                self@.users.len() == self.users@.len(),
                forall|j: int| 0 <= j < i ==> !phone_at(self@.users, phone@, j),
            decreases self.users@.len() - i,
        {
            if self.users[i].phone == *phone {
                proof {
                    assert(phone_at(self@.users, phone@, i as int));
                    assert(has_phone(self@.users, phone@));
                    lemma_first_phone_unique(self@.users, phone@, i as int);
                }
                let uid = self.users[i].id.clone();
                let f = self.pair_status(&uid, user_id);
                let t = self.pair_status(user_id, &uid);
                let typ = if matches!(f, Some(FriendRequestStatus::Pending)) {
                    UserType::Requested
                } else if matches!(t, Some(FriendRequestStatus::Pending)) {
                    UserType::Requesting
                } else if matches!(f, Some(FriendRequestStatus::Accepted)) || matches!(
                    t,
                    Some(FriendRequestStatus::Accepted),
                ) {
                    UserType::Friend
                } else if uid == *user_id {
                    UserType::Myself
                } else {
                    UserType::Stranger
                };
                let u = &self.users[i];
                return Ok(
                    Some(
                        User {
                            id: uid,
                            phone: u.phone.clone(),
                            avatar: dup_opt_string(&u.avatar),
                            typ: Some(typ),
                        },
                    ),
                );
            }
            i = i + 1;
        }
        proof {
            if has_phone(self@.users, phone@) {
                let w = choose|j: int| phone_at(self@.users, phone@, j);
                assert(!phone_at(self@.users, phone@, w));
            }
        }
        Ok(None)
    }
}

/// The other end of a row that involves `user`.
pub open spec fn req_peer_of(r: ReqV, user: Seq<char>) -> Seq<char> {
    if r.from == user {
        r.to
    } else {
        r.from
    }
}

/// Some user in the list of returned `User` values has this id.
pub open spec fn out_has_id(out: Seq<User>, p: Seq<char>) -> bool {
    exists|k: int| 0 <= k < out.len() && out[k].id@ == p
}

/// The other end of a message that involves `user`.
pub open spec fn msg_peer_of(m: MsgV, user: Seq<char>) -> Seq<char> {
    if m.from == user {
        m.to
    } else {
        m.from
    }
}

/// Some message travels between `user` and `p`.
pub open spec fn is_peer(msgs: Seq<MsgV>, user: Seq<char>, p: Seq<char>) -> bool {
    exists|i: int| 0 <= i < msgs.len() && msg_between(#[trigger] msgs[i], user, p)
}

/// Some session in the returned list names this peer.
pub open spec fn out_has_peer(out: Seq<Session>, p: Seq<char>) -> bool {
    exists|k: int| 0 <= k < out.len() && out[k].peer_id@ == p
}

/// How many messages from `p` to `user` are still unread.
pub open spec fn unread_count_v(msgs: Seq<MsgV>, user: Seq<char>, p: Seq<char>) -> nat
    decreases msgs.len(),
{
    if msgs.len() == 0 {
        0
    } else {
        unread_count_v(msgs.drop_last(), user, p) + (
        if msgs.last().from == p && msgs.last().to == user && !msgs.last().has_read {
            1nat
        } else {
            0nat
        })
    }
}

/// A conversation is inhabited exactly when the two users share a message.
proof fn lemma_conversation_nonempty(msgs: Seq<MsgV>, a: Seq<char>, b: Seq<char>)
    ensures
        conversation_v(msgs, a, b, None).len() > 0 <==> is_peer(msgs, a, b),
    decreases msgs.len(),
{
    if msgs.len() > 0 {
        lemma_conversation_nonempty(msgs.drop_last(), a, b);
        if msg_between(msgs.last(), a, b) {
            assert(msg_between(msgs[msgs.len() - 1], a, b));
        } else {
            if is_peer(msgs, a, b) {
                let i = choose|i: int| 0 <= i < msgs.len() && msg_between(#[trigger] msgs[i], a, b);
                if i < msgs.len() - 1 {
                    assert(msg_between(msgs.drop_last()[i], a, b));
                }
            }
            if is_peer(msgs.drop_last(), a, b) {
                let i = choose|i: int|
                    0 <= i < msgs.drop_last().len() && msg_between(
                        #[trigger] msgs.drop_last()[i],
                        a,
                        b,
                    );
                assert(msg_between(msgs[i], a, b));
            }
        }
    } else {
        if is_peer(msgs, a, b) {
            let i = choose|i: int| 0 <= i < msgs.len() && msg_between(#[trigger] msgs[i], a, b);
        }
    }
}

/// The newest message of a conversation is the last matching row.
proof fn lemma_conversation_last(msgs: Seq<MsgV>, a: Seq<char>, b: Seq<char>, i: int)
    requires
        0 <= i < msgs.len(),
        msg_between(msgs[i], a, b),
        forall|j: int| i < j < msgs.len() ==> !msg_between(#[trigger] msgs[j], a, b),
    ensures
        conversation_v(msgs, a, b, None).len() > 0,
        conversation_v(msgs, a, b, None).last() == msgs[i],
    decreases msgs.len(),
{
    if i == msgs.len() - 1 {
    } else {
        assert(!msg_between(msgs.last(), a, b));
        assert forall|j: int|
            i < j < msgs.drop_last().len() implies !msg_between(
            #[trigger] msgs.drop_last()[j],
            a,
            b,
        ) by {
            assert(msgs.drop_last()[j] == msgs[j]);
        }
        lemma_conversation_last(msgs.drop_last(), a, b, i);
    }
}

impl MemoryStore {
    /// Whether the list already names this user id.
    fn out_contains_id(out: &Vec<User>, id: &String) -> (r: bool)
        ensures
            r == out_has_id(out@, id@),
    {
        let mut k: usize = 0;
        while k < out.len()
            invariant
                k <= out@.len(),
                forall|j: int| 0 <= j < k ==> out@[j].id@ != id@,
            decreases out@.len() - k,
        {
            if out[k].id == *id {
                proof {
                    assert(out@[k as int].id@ == id@);
                }
                return true;
            }
            k = k + 1;
        }
        proof {
            if out_has_id(out@, id@) {
                let w = choose|j: int| 0 <= j < out@.len() && out@[j].id@ == id@;
            }
        }
        false
    }

    /// Everyone an `Accepted` row joins to `user_id` and who still has a
    /// user record, each once, marked `Friend`. Order is not pinned down;
    /// the backing query leaves it open too.
    pub fn friends(&self, user_id: &String) -> (r: Result<Vec<User>, Error>)
        requires
            self@.wf(),
        ensures
            r is Ok,
            ({
                let out = r.unwrap()@;
                &&& forall|k: int, l: int| 0 <= k < l < out.len() ==> out[k].id@ != out[l].id@
                &&& forall|k: int|
                    0 <= k < out.len() ==> {
                        let p = #[trigger] out[k].id@;
                        &&& are_friends(self@.requests, user_id@, p)
                        &&& has_user(self@.users, p)
                        &&& out[k].phone@ == user_of(self@.users, p).phone
                        &&& opt_str_view(out[k].avatar) == user_of(self@.users, p).avatar
                        &&& out[k].typ == Some(UserType::Friend)
                    }
                &&& forall|p: Seq<char>|
                    #[trigger] are_friends(self@.requests, user_id@, p) && has_user(
                        self@.users,
                        p,
                    ) ==> out_has_id(out, p)
            }),
    {
        let mut out: Vec<User> = Vec::new();
        let mut i: usize = 0;
        while i < self.requests.len()
            invariant
                self@.wf(),
                i <= self.requests@.len(),
                self@.requests.len() == self.requests@.len(),
                forall|k: int, l: int| 0 <= k < l < out@.len() ==> out@[k].id@ != out@[l].id@,
                forall|k: int|
                    0 <= k < out@.len() ==> {
                        let p = #[trigger] out@[k].id@;
                        &&& are_friends(self@.requests, user_id@, p)
                        &&& has_user(self@.users, p)
                        &&& out@[k].phone@ == user_of(self@.users, p).phone
                        &&& opt_str_view(out@[k].avatar) == user_of(self@.users, p).avatar
                        &&& out@[k].typ == Some(UserType::Friend)
                    },
                forall|j: int|
                    0 <= j < i && (#[trigger] self@.requests[j]).status
                        == FriendRequestStatus::Accepted && (self@.requests[j].from == user_id@
                        || self@.requests[j].to == user_id@) && has_user(
                        self@.users,
                        req_peer_of(self@.requests[j], user_id@),
                    ) ==> out_has_id(out@, req_peer_of(self@.requests[j], user_id@)),
            decreases self.requests@.len() - i,
        {
            let row = &self.requests[i];
            if row.status == FriendRequestStatus::Accepted && (row.from == *user_id || row.to
                == *user_id) {
                let peer = if row.from == *user_id {
                    row.to.clone()
                } else {
                    row.from.clone()
                };
                proof {
                    assert(peer@ == req_peer_of(self@.requests[i as int], user_id@));
                }
                if !Self::out_contains_id(&out, &peer) {
                    match self.find_user(&peer) {
                        Some(ui) => {
                            proof {
                                lemma_user_of_unique(self@.users, peer@, ui as int);
                                assert(msg_pair(self@.requests[i as int], user_id@, peer@));
                                assert(are_friends(self@.requests, user_id@, peer@));
                            }
                            let ghost out0 = out@;
                            let u = &self.users[ui];
                            out.push(
                                User {
                                    id: peer,
                                    phone: u.phone.clone(),
                                    avatar: dup_opt_string(&u.avatar),
                                    typ: Some(UserType::Friend),
                                },
                            );
                            proof {
                                assert(out@[out@.len() - 1].id@ == req_peer_of(
                                    self@.requests[i as int],
                                    user_id@,
                                ));
                                assert forall|p: Seq<char>| out_has_id(out0, p) implies out_has_id(
                                    out@,
                                    p,
                                ) by {
                                    let k = choose|k: int|
                                        0 <= k < out0.len() && out0[k].id@ == p;
                                    assert(out@[k].id@ == p);
                                }
                            }
                        },
                        None => {
                        },
                    }
                }
            }
            i = i + 1;
        }
        proof {
            assert forall|p: Seq<char>|
                #[trigger] are_friends(self@.requests, user_id@, p) && has_user(
                    self@.users,
                    p,
                ) implies out_has_id(out@, p) by {
                let j = choose|j: int|
                    0 <= j < self@.requests.len() && self@.requests[j].status
                        == FriendRequestStatus::Accepted && msg_pair(
                        self@.requests[j],
                        user_id@,
                        p,
                    );
                assert(req_peer_of(self@.requests[j], user_id@) == p || (self@.requests[j].from
                    == user_id@ && self@.requests[j].to == user_id@ && p == user_id@));
            }
        }
        Ok(out)
    }

    /// How many messages from `p` to `user` are unread.
    fn count_unread(&self, user: &String, p: &String) -> (r: usize)
        ensures
            r as nat == unread_count_v(self@.messages, user@, p@),
    {
        let mut count: usize = 0;
        let mut i: usize = 0;
        while i < self.messages.len()
            invariant
                i <= self.messages@.len(),
                self@.messages.len() == self.messages@.len(),
                count <= i,
                count as nat == unread_count_v(self@.messages.take(i as int), user@, p@),
            decreases self.messages@.len() - i,
        {
            let ghost prefix = self@.messages.take(i as int);
            let ghost next_prefix = self@.messages.take(i as int + 1);
            proof {
                assert(next_prefix.drop_last() =~= prefix);
                assert(next_prefix.last() == self@.messages[i as int]);
            }
            let m = &self.messages[i];
            if m.from == *p && m.to == *user && !m.has_read {
                count = count + 1;
            }
            i = i + 1;
        }
        proof {
            assert(self@.messages.take(self.messages@.len() as int) =~= self@.messages);
        }
        count
    }

    /// The index of the newest message between the two users, if any.
    fn last_between(&self, a: &String, b: &String) -> (r: Option<usize>)
        ensures
            match r {
                Some(i) => i < self@.messages.len() && self@.messages[i as int] == conversation_v(
                    self@.messages,
                    a@,
                    b@,
                    None,
                ).last() && conversation_v(self@.messages, a@, b@, None).len() > 0,
                None => !is_peer(self@.messages, a@, b@),
            },
    {
        let mut found: Option<usize> = None;
        let mut i: usize = 0;
        while i < self.messages.len()
            invariant
                i <= self.messages@.len(),
                self@.messages.len() == self.messages@.len(),
                match found {
                    Some(k) => k < i && msg_between(self@.messages[k as int], a@, b@) && forall|
                        j: int,
                    |
                        k < j < i ==> !msg_between(#[trigger] self@.messages[j], a@, b@),
                    None => forall|j: int|
                        0 <= j < i ==> !msg_between(#[trigger] self@.messages[j], a@, b@),
                },
            decreases self.messages@.len() - i,
        {
            let m = &self.messages[i];
            if (m.from == *a && m.to == *b) || (m.from == *b && m.to == *a) {
                found = Some(i);
            }
            i = i + 1;
        }
        proof {
            match found {
                Some(k) => {
                    lemma_conversation_last(self@.messages, a@, b@, k as int);
                },
                None => {
                    lemma_conversation_nonempty(self@.messages, a@, b@);
                },
            }
        }
        found
    }

    /// The conversation list: one entry per distinct peer the user shares a
    /// message with (and who has a user record), carrying the unread count
    /// and the newest message's preview. Order is not pinned down; the
    /// backing query leaves it open too.
    pub fn sessions(&self, user_id: &String) -> (r: Result<Vec<Session>, Error>)
        requires
            self@.wf(),
        ensures
            r is Ok,
            ({
                let out = r.unwrap()@;
                &&& forall|k: int, l: int|
                    0 <= k < l < out.len() ==> out[k].peer_id@ != out[l].peer_id@
                &&& forall|k: int|
                    0 <= k < out.len() ==> {
                        let p = #[trigger] out[k].peer_id@;
                        let latest = conversation_v(self@.messages, user_id@, p, None).last();
                        &&& is_peer(self@.messages, user_id@, p)
                        &&& has_user(self@.users, p)
                        &&& out[k].peer_phone@ == user_of(self@.users, p).phone
                        &&& out[k].unread_count as nat == unread_count_v(
                            self@.messages,
                            user_id@,
                            p,
                        )
                        &&& conversation_v(self@.messages, user_id@, p, None).len() > 0
                        &&& opt_str_view(out[k].latest_mime_type) == Some(latest.mime_type)
                        &&& opt_str_view(out[k].latest_content) == Some(latest.content)
                    }
                &&& forall|p: Seq<char>|
                    #[trigger] is_peer(self@.messages, user_id@, p) && has_user(
                        self@.users,
                        p,
                    ) ==> out_has_peer(out, p)
            }),
    {
        let mut out: Vec<Session> = Vec::new();
        let mut i: usize = 0;
        while i < self.messages.len()
            invariant
                self@.wf(),
                i <= self.messages@.len(),
                self@.messages.len() == self.messages@.len(),
                forall|k: int, l: int|
                    0 <= k < l < out@.len() ==> out@[k].peer_id@ != out@[l].peer_id@,
                forall|k: int|
                    0 <= k < out@.len() ==> {
                        let p = #[trigger] out@[k].peer_id@;
                        let latest = conversation_v(self@.messages, user_id@, p, None).last();
                        &&& is_peer(self@.messages, user_id@, p)
                        &&& has_user(self@.users, p)
                        &&& out@[k].peer_phone@ == user_of(self@.users, p).phone
                        &&& out@[k].unread_count as nat == unread_count_v(
                            self@.messages,
                            user_id@,
                            p,
                        )
                        &&& conversation_v(self@.messages, user_id@, p, None).len() > 0
                        &&& opt_str_view(out@[k].latest_mime_type) == Some(latest.mime_type)
                        &&& opt_str_view(out@[k].latest_content) == Some(latest.content)
                    },
                forall|j: int|
                    0 <= j < i && (self@.messages[j].from == user_id@ || (
                    #[trigger] self@.messages[j]).to == user_id@) && has_user(
                        self@.users,
                        msg_peer_of(self@.messages[j], user_id@),
                    ) ==> out_has_peer(out@, msg_peer_of(self@.messages[j], user_id@)),
            decreases self.messages@.len() - i,
        {
            let m = &self.messages[i];
            if m.from == *user_id || m.to == *user_id {
                let peer = if m.from == *user_id {
                    m.to.clone()
                } else {
                    m.from.clone()
                };
                proof {
                    assert(peer@ == msg_peer_of(self@.messages[i as int], user_id@));
                }
                if !Self::out_contains_peer(&out, &peer) {
                    match self.find_user(&peer) {
                        Some(ui) => {
                            proof {
                                lemma_user_of_unique(self@.users, peer@, ui as int);
                                assert(msg_between(self@.messages[i as int], user_id@, peer@));
                                assert(is_peer(self@.messages, user_id@, peer@));
                            }
                            let unread = self.count_unread(user_id, &peer);
                            let latest = self.last_between(user_id, &peer);
                            match latest {
                                Some(li) => {
                                    let ghost out0 = out@;
                                    let lm = &self.messages[li];
                                    let phone = self.users[ui].phone.clone();
                                    out.push(
                                        Session {
                                            peer_id: peer,
                                            peer_phone: phone,
                                            unread_count: unread as u64,
                                            latest_mime_type: Some(lm.mime_type.clone()),
                                            latest_content: Some(lm.content.clone()),
                                        },
                                    );
                                    proof {
                                        assert(out@[out@.len() - 1].peer_id@ == msg_peer_of(
                                            self@.messages[i as int],
                                            user_id@,
                                        ));
                                        assert forall|p: Seq<char>|
                                            out_has_peer(out0, p) implies out_has_peer(
                                            out@,
                                            p,
                                        ) by {
                                            let k = choose|k: int|
                                                0 <= k < out0.len() && out0[k].peer_id@ == p;
                                            assert(out@[k].peer_id@ == p);
                                        }
                                    }
                                },
                                None => {
                                },
                            }
                        },
                        None => {
                        },
                    }
                }
            }
            i = i + 1;
        }
        proof {
            assert forall|p: Seq<char>|
                #[trigger] is_peer(self@.messages, user_id@, p) && has_user(
                    self@.users,
                    p,
                ) implies out_has_peer(out@, p) by {
                let j = choose|j: int|
                    0 <= j < self@.messages.len() && msg_between(
                        #[trigger] self@.messages[j],
                        user_id@,
                        p,
                    );
                assert(msg_peer_of(self@.messages[j], user_id@) == p || (self@.messages[j].from
                    == user_id@ && self@.messages[j].to == user_id@ && p == user_id@));
            }
        }
        Ok(out)
    }

    /// Whether the list already names this peer.
    fn out_contains_peer(out: &Vec<Session>, id: &String) -> (r: bool)
        ensures
            r == out_has_peer(out@, id@),
    {
        let mut k: usize = 0;
        while k < out.len()
            invariant
                k <= out@.len(),
                forall|j: int| 0 <= j < k ==> out@[j].peer_id@ != id@,
            decreases out@.len() - k,
        {
            if out[k].peer_id == *id {
                proof {
                    assert(out@[k as int].peer_id@ == id@);
                }
                return true;
            }
            k = k + 1;
        }
        proof {
            if out_has_peer(out@, id@) {
                let w = choose|j: int| 0 <= j < out@.len() && out@[j].peer_id@ == id@;
            }
        }
        false
    }
}

/// The friend-request upsert keeps the store well-formed and leaves a
/// `Pending` row for the pair, under the id it returns.
pub proof fn lemma_upsert_preserves_wf(s: StoreV, from: Seq<char>, to: Seq<char>, phone: Seq<char>)
    requires
        s.wf(),
        has_pair(s.requests, from, to) || s.next_request_id < u64::MAX,
    ensures
        ({
            let (s1, rid) = upsert_request(s, from, to, phone);
            &&& s1.wf()
            &&& has_pair(s1.requests, from, to)
            &&& req_pair_at(s1.requests, from, to, pair_index(s1.requests, from, to))
            &&& s1.requests[pair_index(s1.requests, from, to)].status
                == FriendRequestStatus::Pending
            &&& s1.requests[pair_index(s1.requests, from, to)].id == rid
        }),
{
    let (s1, rid) = upsert_request(s, from, to, phone);
    if has_pair(s.requests, from, to) {
        let i = pair_index(s.requests, from, to);
        assert(req_pair_at(s.requests, from, to, i));
        assert forall|a: int| 0 <= a < s1.requests.len() implies #[trigger] s1.requests[a].id
            < s1.next_request_id by {
            assert(s.requests[a].id < s.next_request_id);
        }
        assert(req_pair_at(s1.requests, from, to, i));
        lemma_pair_unique(s1.requests, from, to, i);
    } else {
        let i = s.requests.len() as int;
        assert forall|a: int| 0 <= a < s1.requests.len() implies #[trigger] s1.requests[a].id
            < s1.next_request_id by {
            if a < i {
                assert(s.requests[a].id < s.next_request_id);
            }
        }
        assert forall|a: int, b: int| 0 <= a < b < s1.requests.len() implies s1.requests[a].id
            != s1.requests[b].id && !(s1.requests[a].from == s1.requests[b].from
            && s1.requests[a].to == s1.requests[b].to) by {
            if b == i {
                assert(s.requests[a].id < s.next_request_id);
                assert(!req_pair_at(s.requests, from, to, a));
            }
        }
        assert(req_pair_at(s1.requests, from, to, i));
        lemma_pair_unique(s1.requests, from, to, i);
    }
}

/// Law: asking for the same friendship twice leaves exactly one row for
/// the ordered pair, and it is `Pending`. Holds whatever phone the
/// requester carries on either occasion.
pub proof fn lemma_friend_request_idempotent(
    s: StoreV,
    from: Seq<char>,
    to: Seq<char>,
    phone1: Seq<char>,
    phone2: Seq<char>,
)
    requires
        s.wf(),
        has_pair(s.requests, from, to) || s.next_request_id < u64::MAX,
    ensures
        ({
            let s1 = upsert_request(s, from, to, phone1).0;
            let s2 = upsert_request(s1, from, to, phone2).0;
            &&& s2.wf()
            &&& exists|i: int|
                req_pair_at(s2.requests, from, to, i) && #[trigger] s2.requests[i].status
                    == FriendRequestStatus::Pending && forall|j: int|
                    req_pair_at(s2.requests, from, to, j) ==> j == i
        }),
{
    lemma_upsert_preserves_wf(s, from, to, phone1);
    let s1 = upsert_request(s, from, to, phone1).0;
    lemma_upsert_preserves_wf(s1, from, to, phone2);
    let s2 = upsert_request(s1, from, to, phone2).0;
    let i = pair_index(s2.requests, from, to);
    assert(req_pair_at(s2.requests, from, to, i) && s2.requests[i].status
        == FriendRequestStatus::Pending && forall|j: int|
        req_pair_at(s2.requests, from, to, j) ==> j == i) by {
        assert forall|j: int| req_pair_at(s2.requests, from, to, j) implies j == i by {
            lemma_pair_unique(s2.requests, from, to, j);
        }
    }
}

/// Law: a single-message acknowledgement touches nothing but `has_read`,
/// only on the acknowledged row and only from `false` to `true`: a chat
/// message is immutable once created except for that one flag.
pub proof fn lemma_single_ack(msgs: Seq<MsgV>, author: Seq<char>, msg_id: u64)
    ensures
        ({
            let marked = mark_msg_v(msgs, author, msg_id);
            &&& marked.len() == msgs.len()
            &&& forall|i: int|
                0 <= i < msgs.len() ==> (#[trigger] marked[i]).id == msgs[i].id && marked[i].from
                    == msgs[i].from && marked[i].to == msgs[i].to && marked[i].mime_type
                    == msgs[i].mime_type && marked[i].content == msgs[i].content
                    && marked[i].sent_at == msgs[i].sent_at
            &&& forall|i: int|
                0 <= i < msgs.len() ==> ((#[trigger] marked[i]).has_read <==> (msgs[i].has_read
                    || (msgs[i].id == msg_id && msgs[i].from == author)))
        }),
{
}

/// Law: the read-marking of a history fetch touches nothing but `has_read`
/// and only ever turns it on; every message the counterpart wrote up to
/// the cursor is read afterwards; and a second identical fetch is a no-op,
/// so it returns the same already-read page without further mutation.
pub proof fn lemma_read_marking(
    msgs: Seq<MsgV>,
    reader: Seq<char>,
    author: Seq<char>,
    before: Option<u64>,
)
    ensures
        ({
            let marked = mark_read_v(msgs, reader, author, before);
            &&& marked.len() == msgs.len()
            &&& forall|i: int|
                0 <= i < msgs.len() ==> (#[trigger] marked[i]).id == msgs[i].id && marked[i].from
                    == msgs[i].from && marked[i].to == msgs[i].to && marked[i].mime_type
                    == msgs[i].mime_type && marked[i].content == msgs[i].content
                    && marked[i].sent_at == msgs[i].sent_at
            &&& forall|i: int|
                0 <= i < msgs.len() ==> ((#[trigger] marked[i]).has_read <==> (msgs[i].has_read
                    || (msgs[i].from == author && msgs[i].to == reader && below_cursor(
                    msgs[i].id,
                    before,
                ))))
            &&& mark_read_v(marked, reader, author, before) =~= marked
        }),
{
}

} // verus!
