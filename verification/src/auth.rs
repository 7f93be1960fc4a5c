//! The login and signup wire shapes. Credential verification and token
//! issuance belong to the auth collaborator; the relay only carries these
//! values to and from it.

use vstd::prelude::*;

verus! {

/// A login attempt: the phone number is the account name.
#[derive(Debug)]
pub struct Login {
    pub phone: String,
    pub password: String,
}

/// A successful login: the bearer token for this session.
#[derive(Debug)]
pub struct LoginResp {
    pub token: String,
}

/// An account creation request.
#[derive(Debug)]
pub struct Signup {
    pub phone: String,
    pub password: String,
}

/// A successful signup: the account is immediately logged in.
#[derive(Debug)]
pub struct SignupResp {
    pub token: String,
}

} // verus!
