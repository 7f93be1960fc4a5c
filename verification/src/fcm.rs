//! Push-notification support: the service-account JWT a push sender
//! authenticates with, and the notification body it posts.
//!
//! The JWT assembly — JSON header and claim, their base64 encoding and the
//! dot-joined signing input — is verified character by character; only the
//! base64 alphabet, the RSA signature and the clock come from outside.

use vstd::prelude::*;
use vstd::utf8::encode_utf8;

use crate::error::Error;
use base64::Engine;
use rsa::signature::{SignatureEncoding, Signer};
use rsa::pkcs8::DecodePrivateKey;

verus! {

/// The fields of a service-account credential file, already parsed.
#[derive(Debug)]
pub struct ServiceAccount {
    pub typ: String,
    pub project_id: String,
    pub private_key_id: String,
    pub private_key: String,
    pub client_email: String,
    pub client_id: String,
    pub auth_uri: String,
    pub token_uri: String,
    pub auth_provider_x509_cert_url: String,
    pub client_x509_cert_url: String,
    pub universe_domain: String,
}

/// What the standard base64 engine (RFC 4648 alphabet, padded) produces
/// for these bytes.
pub uninterp spec fn base64_std_of(bytes: Seq<u8>) -> Seq<char>;

/// Relies on base64's `Engine::encode` with the `STANDARD` engine: the
/// output is a function of the input bytes alone, four characters for
/// every started three-byte group.
#[verifier::external_body]
fn encode_base64(bytes: &[u8]) -> (r: String)
    ensures
        r@ == base64_std_of(bytes@),
        r@.len() == 4 * ((bytes@.len() + 2) / 3),
{
    base64::engine::general_purpose::STANDARD.encode(bytes)
}

/// The PKCS#1 v1.5 signature over SHA-256 that this PEM-encoded key puts
/// on these bytes. Such signing is deterministic: a function of the key
/// and the message alone.
pub uninterp spec fn rsa_pkcs1_sha256_sign_of(key_pem: Seq<char>, msg: Seq<u8>) -> Seq<u8>;

/// Relies on rsa's `RsaPrivateKey::from_pkcs8_pem` and its pkcs1v15
/// `SigningKey` over `sha2::Sha256`: deterministic PKCS#1 v1.5 signing.
/// `None` when the PEM does not parse or the key cannot sign the digest.
#[verifier::external_body]
fn rsa_sha256_sign(key_pem: &str, msg: &[u8]) -> (r: Option<Vec<u8>>)
    ensures
        r is Some ==> r.unwrap()@ == rsa_pkcs1_sha256_sign_of(key_pem@, msg@),
{
    let key = match rsa::RsaPrivateKey::from_pkcs8_pem(key_pem) {
        Ok(k) => k,
        Err(_) => return None,
    };
    let signing_key: rsa::pkcs1v15::SigningKey<sha2::Sha256> = rsa::pkcs1v15::SigningKey::new(key);
    match signing_key.try_sign(msg) {
        Ok(sig) => Some(sig.to_vec()),
        Err(_) => None,
    }
}

/// Relies on chrono's `Utc::now`: the current Unix timestamp in seconds.
/// Nothing is promised of the value; callers validate its range.
#[verifier::external_body]
fn now_unix_seconds() -> (t: i64) {
    chrono::Utc::now().timestamp()
}

/// Relies on `String::push`: appends the one character.
#[verifier::external_body]
fn push_char(out: &mut String, c: char)
    ensures
        final(out)@ == old(out)@.push(c),
{
    out.push(c);
}

/// The decimal digit characters of `n`, most significant first.
pub open spec fn dec_digits(n: nat) -> Seq<char>
    decreases n,
{
    if n < 10 {
        seq![digit_char_spec(n)]
    } else {
        dec_digits(n / 10).push(digit_char_spec(n % 10))
    }
}

/// The character for one decimal or hexadecimal digit value.
pub open spec fn digit_char_spec(d: nat) -> char {
    if d == 0 {
        '0'
    } else if d == 1 {
        '1'
    } else if d == 2 {
        '2'
    } else if d == 3 {
        '3'
    } else if d == 4 {
        '4'
    } else if d == 5 {
        '5'
    } else if d == 6 {
        '6'
    } else if d == 7 {
        '7'
    } else if d == 8 {
        '8'
    } else if d == 9 {
        '9'
    } else if d == 10 {
        'a'
    } else if d == 11 {
        'b'
    } else if d == 12 {
        'c'
    } else if d == 13 {
        'd'
    } else if d == 14 {
        'e'
    } else if d == 15 {
        'f'
    } else {
        '?'
    }
}

/// The character for a digit value below sixteen.
fn digit_char(d: u8) -> (c: char)
    requires
        d < 16,
    ensures
        c == digit_char_spec(d as nat),
{
    match d {
        0 => '0',
        1 => '1',
        2 => '2',
        3 => '3',
        4 => '4',
        5 => '5',
        6 => '6',
        7 => '7',
        8 => '8',
        9 => '9',
        10 => 'a',
        11 => 'b',
        12 => 'c',
        13 => 'd',
        14 => 'e',
        _ => 'f',
    }
}

/// Append the decimal digits of `n`.
fn append_u64(out: &mut String, n: u64)
    ensures
        final(out)@ == old(out)@ + dec_digits(n as nat),
    decreases n,
{
    if n >= 10 {
        append_u64(out, n / 10);
        push_char(out, digit_char((n % 10) as u8));
        proof {
            assert(final(out)@ =~= old(out)@ + dec_digits(n as nat));
        }
    } else {
        push_char(out, digit_char(n as u8));
        proof {
            assert(final(out)@ =~= old(out)@ + dec_digits(n as nat));
        }
    }
}

/// How one character appears inside a JSON string literal: quote and
/// backslash are escaped, the common control characters take their short
/// escapes, the remaining control characters the `\u00XX` form, and every
/// other character stands for itself.
pub open spec fn escape_char(c: char) -> Seq<char> {
    if c == '"' {
        seq!['\\', '"']
    } else if c == '\\' {
        seq!['\\', '\\']
    } else if c == '\n' {
        seq!['\\', 'n']
    } else if c == '\r' {
        seq!['\\', 'r']
    } else if c == '\t' {
        seq!['\\', 't']
    } else if (c as u32) < 32 {
        seq!['\\', 'u', '0', '0', digit_char_spec((c as u32 / 16) as nat), digit_char_spec(
            (c as u32 % 16) as nat,
        )]
    } else {
        seq![c]
    }
}

/// A sequence of characters as it appears inside a JSON string literal.
pub open spec fn json_escaped(s: Seq<char>) -> Seq<char>
    decreases s.len(),
{
    if s.len() == 0 {
        Seq::empty()
    } else {
        json_escaped(s.drop_last()) + escape_char(s.last())
    }
}

/// Append `s`, escaped for a JSON string literal.
fn append_escaped(out: &mut String, s: &str)
    ensures
        final(out)@ == old(out)@ + json_escaped(s@),
{
    let n = s.unicode_len();
    let mut i: usize = 0;
    while i < n
        invariant
            i <= n,
            n == s@.len(),
            out@ == old(out)@ + json_escaped(s@.take(i as int)),
        decreases n - i,
    {
        let ghost prefix = s@.take(i as int);
        let ghost next_prefix = s@.take(i as int + 1);
        proof {
            assert(next_prefix.drop_last() =~= prefix);
            assert(next_prefix.last() == s@[i as int]);
        }
        let c = s.get_char(i);
        if c == '"' {
            push_char(out, '\\');
            push_char(out, '"');
        } else if c == '\\' {
            push_char(out, '\\');
            push_char(out, '\\');
        } else if c == '\n' {
            push_char(out, '\\');
            push_char(out, 'n');
        } else if c == '\r' {
            push_char(out, '\\');
            push_char(out, 'r');
        } else if c == '\t' {
            push_char(out, '\\');
            push_char(out, 't');
        } else if (c as u32) < 32 {
            let code = c as u32;
            push_char(out, '\\');
            push_char(out, 'u');
            push_char(out, '0');
            push_char(out, '0');
            push_char(out, digit_char((code / 16) as u8));
            push_char(out, digit_char((code % 16) as u8));
        } else {
            push_char(out, c);
        }
        proof {
            assert(out@ =~= old(out)@ + json_escaped(next_prefix));
        }
        i = i + 1;
    }
    proof {
        assert(s@.take(n as int) =~= s@);
    }
}

/// The JWT header naming the signing key: RS256 over this key id.
pub open spec fn jwt_header_json(kid: Seq<char>) -> Seq<char> {
    "{\"alg\":\"RS256\",\"typ\":\"JWT\",\"kid\":\""@ + json_escaped(kid) + "\"}"@
}

/// The JWT claim: the issuing account, the push-messaging scope, the token
/// endpoint as audience, and a one-hour validity from `iat`.
pub open spec fn jwt_claim_json(iss: Seq<char>, iat: nat) -> Seq<char> {
    "{\"iss\":\""@ + json_escaped(iss)
        + "\",\"scope\":\"https://www.googleapis.com/auth/firebase.messaging\",\"aud\":\"https://oauth2.googleapis.com/token\",\"iat\":"@
        + dec_digits(iat) + ",\"exp\":"@ + dec_digits(iat + 3600) + "}"@
}

/// The signed JWT: base64 of the header, a dot, base64 of the claim, a
/// dot, and base64 of the RSA signature over everything before it.
pub open spec fn jwt_of(kid: Seq<char>, iss: Seq<char>, key_pem: Seq<char>, iat: nat) -> Seq<
    char,
> {
    let signing_input = base64_std_of(encode_utf8(jwt_header_json(kid))) + "."@ + base64_std_of(
        encode_utf8(jwt_claim_json(iss, iat)),
    );
    signing_input + "."@ + base64_std_of(
        rsa_pkcs1_sha256_sign_of(key_pem, encode_utf8(signing_input)),
    )
}

/// Build the JWT for this service account as of `now`. Fails only when the
/// account's private key cannot sign (a bad PEM), with nothing else done.
pub fn generate_jwt_token(sa: &ServiceAccount, now: i64) -> (r: Result<String, Error>)
    requires
        0 <= now <= i64::MAX - 3600,
    ensures
        r is Ok ==> r.unwrap()@ == jwt_of(
            sa.private_key_id@,
            sa.client_email@,
            sa.private_key@,
            now as nat,
        ),
        r is Err ==> r.unwrap_err().status_code == 500,
{
    let mut header = String::from_str("{\"alg\":\"RS256\",\"typ\":\"JWT\",\"kid\":\"");
    append_escaped(&mut header, sa.private_key_id.as_str());
    header.append("\"}");
    proof {
        assert(header@ =~= jwt_header_json(sa.private_key_id@));
    }
    let mut claim = String::from_str("{\"iss\":\"");
    append_escaped(&mut claim, sa.client_email.as_str());
    claim.append(
        "\",\"scope\":\"https://www.googleapis.com/auth/firebase.messaging\",\"aud\":\"https://oauth2.googleapis.com/token\",\"iat\":",
    );
    append_u64(&mut claim, now as u64);
    claim.append(",\"exp\":");
    append_u64(&mut claim, (now + 3600) as u64);
    claim.append("}");
    proof {
        assert((now + 3600) as u64 as nat == now as nat + 3600);
        assert(claim@ =~= jwt_claim_json(sa.client_email@, now as nat));
    }
    let header_b64 = encode_base64(header.as_str().as_bytes());
    let claim_b64 = encode_base64(claim.as_str().as_bytes());
    let mut signing_input = header_b64;
    signing_input.append(".");
    signing_input.append(claim_b64.as_str());
    proof {
        assert(signing_input@ =~= base64_std_of(encode_utf8(jwt_header_json(sa.private_key_id@)))
            + "."@ + base64_std_of(encode_utf8(jwt_claim_json(sa.client_email@, now as nat))));
    }
    match rsa_sha256_sign(sa.private_key.as_str(), signing_input.as_str().as_bytes()) {
        Some(signature) => {
            let signature_b64 = encode_base64(signature.as_slice());
            let mut token = signing_input;
            token.append(".");
            token.append(signature_b64.as_str());
            proof {
                assert(token@ =~= jwt_of(
                    sa.private_key_id@,
                    sa.client_email@,
                    sa.private_key@,
                    now as nat,
                ));
            }
            Ok(token)
        },
        None => Err(Error::new(String::from_str("failed to load private key"), 500)),
    }
}

/// Build the JWT for this service account as of the real clock.
pub fn mint_jwt(sa: &ServiceAccount) -> (r: Result<String, Error>)
    ensures
        r is Ok ==> exists|iat: nat|
            r.unwrap()@ == jwt_of(sa.private_key_id@, sa.client_email@, sa.private_key@, iat),
        r is Err ==> r.unwrap_err().status_code == 500,
{
    let now = now_unix_seconds();
    if now < 0 || now > i64::MAX - 3600 {
        return Err(Error::new(String::from_str("clock out of range"), 500));
    }
    match generate_jwt_token(sa, now) {
        Ok(token) => {
            proof {
                assert(token@ == jwt_of(
                    sa.private_key_id@,
                    sa.client_email@,
                    sa.private_key@,
                    now as nat,
                ));
            }
            Ok(token)
        },
        Err(e) => Err(e),
    }
}

/// The FCM request body announcing one chat message: the recipient's
/// device token, a fixed title and body, and a data map carrying the
/// sender's phone and the `Chat` kind.
pub open spec fn chat_notification_json(
    token: Seq<char>,
    title: Seq<char>,
    body: Seq<char>,
    phone: Seq<char>,
) -> Seq<char> {
    "{\"message\":{\"token\":\""@ + json_escaped(token) + "\",\"notification\":{\"title\":\""@
        + json_escaped(title) + "\",\"body\":\""@ + json_escaped(body)
        + "\"},\"data\":{\"phone\":\""@ + json_escaped(phone) + "\",\"typ\":\"Chat\"}}}"@
}

/// Build the FCM request body announcing one chat message.
pub fn chat_notification_body(token: &str, title: &str, body: &str, phone: &str) -> (r: String)
    ensures
        r@ == chat_notification_json(token@, title@, body@, phone@),
{
    let mut out = String::from_str("{\"message\":{\"token\":\"");
    append_escaped(&mut out, token);
    out.append("\",\"notification\":{\"title\":\"");
    append_escaped(&mut out, title);
    out.append("\",\"body\":\"");
    append_escaped(&mut out, body);
    out.append("\"},\"data\":{\"phone\":\"");
    append_escaped(&mut out, phone);
    out.append("\",\"typ\":\"Chat\"}}}");
    proof {
        assert(out@ =~= chat_notification_json(token@, title@, body@, phone@));
    }
    out
}

} // verus!
