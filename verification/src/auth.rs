//! Device-flow credential manager: the decisions of the
//! authenticate-or-handshake flow as pure functions over the stored
//! credential and the clock. Reading and writing the store, the network
//! calls and the polling sleep live outside the library.

use vstd::prelude::*;

verus! {

/// The persisted OAuth2 state for the API source. A credential is valid
/// only while the current time is strictly before `expires_at`.
#[derive(Clone, Debug)]
pub struct Credential {
    pub access_token: String,
    pub refresh_token: String,
    /// Token lifetime in seconds, as the token endpoint reported it.
    pub expires_in: i64,
    /// Absolute Unix timestamp after which the token no longer counts.
    pub expires_at: i64,
    /// Caller-supplied application identity.
    pub client_id: String,
    pub client_secret: String,
}

pub open spec fn credential_valid(c: Credential, now: i64) -> bool {
    now < c.expires_at
}

/// What the stored credential allows right now: reuse of its token, or a
/// fresh device-flow handshake.
#[derive(Debug)]
pub enum CredentialCheck {
    /// The stored token is still valid: return it, make no network call.
    Reusable(String),
    /// Absent, malformed or expired credential: run the full handshake.
    NeedsHandshake,
}

/// One token document as the token endpoint returns it.
#[derive(Clone, Debug)]
pub struct TokenDoc {
    pub access_token: String,
    pub refresh_token: String,
    pub expires_in: i64,
}

/// What the polling loop does after one poll of the token endpoint.
#[derive(Debug)]
pub enum PollStep {
    /// Pending or error response: block for the server-specified interval,
    /// then poll again. There is no attempt ceiling.
    Wait { seconds: u64 },
    /// The endpoint answered with a token document: the handshake is done.
    Done { token: TokenDoc },
}

/// Decides between reusing the stored token and starting a handshake:
/// a credential present and unexpired is reused as it is; an absent one —
/// which is also how an unreadable or malformed store is treated — or an
/// expired one forces the device-flow handshake.
pub fn evaluate_credential(cred: &Option<Credential>, now: i64) -> (r: CredentialCheck)
    ensures
        r is Reusable <==> ((*cred) matches Some(c) && credential_valid(c, now)),
        r matches CredentialCheck::Reusable(t) ==> ((*cred) matches Some(c) && t@
            == c.access_token@),
{
    match cred {
        Some(c) => {
            if now < c.expires_at {
                CredentialCheck::Reusable(c.access_token.clone())
            } else {
                CredentialCheck::NeedsHandshake
            }
        },
        None => CredentialCheck::NeedsHandshake,
    }
}

/// Relies on chrono::Utc::now for the clock, read as Unix seconds. Nothing
/// is promised of its value: every caller must hold for any reading.
#[verifier::external_body]
pub fn now_timestamp() -> i64 {
    chrono::Utc::now().timestamp()
}

/// The authenticate-or-handshake branch against the real clock: whatever
/// the clock read, a reused token is the stored one.
pub fn check_credential(cred: &Option<Credential>) -> (r: CredentialCheck)
    ensures
        r matches CredentialCheck::Reusable(t) ==> ((*cred) matches Some(c) && t@
            == c.access_token@),
        (*cred) is None ==> r is NeedsHandshake,
{
    let now = now_timestamp();
    evaluate_credential(cred, now)
}

/// Decides what one poll of the token endpoint leads to: a pending or
/// undecodable answer means blocking for the server-specified interval and
/// polling again; a token document ends the handshake.
pub fn poll_decision(response: Option<TokenDoc>, interval: u64) -> (r: PollStep)
    ensures
        response is None <==> r == (PollStep::Wait { seconds: interval }),
        response matches Some(t) ==> r == (PollStep::Done { token: t }),
{
    match response {
        Some(t) => PollStep::Done { token: t },
        None => PollStep::Wait { seconds: interval },
    }
}

/// When a token obtained now stops counting: its reported lifetime less a
/// 100-second safety margin before the actual expiry.
pub fn token_expiry(now: i64, expires_in: i64) -> (r: i64)
    requires
        i64::MIN + 100 <= expires_in,
        i64::MIN <= now + expires_in - 100 <= i64::MAX,
    ensures
        r == now + expires_in - 100,
{
    now + (expires_in - 100)
}

/// The credential to persist after a successful handshake: the fresh token
/// document under the same application identity, expiring a 100-second
/// safety margin before the token itself.
pub fn apply_token(client_id: String, client_secret: String, token: TokenDoc, now: i64) -> (c:
    Credential)
    requires
        i64::MIN + 100 <= token.expires_in,
        i64::MIN <= now + token.expires_in - 100 <= i64::MAX,
    ensures
        c.access_token == token.access_token,
        c.refresh_token == token.refresh_token,
        c.expires_in == token.expires_in,
        c.expires_at == now + token.expires_in - 100,
        c.client_id == client_id,
        c.client_secret == client_secret,
{
    let expires_at = token_expiry(now, token.expires_in);
    Credential {
        access_token: token.access_token,
        refresh_token: token.refresh_token,
        expires_in: token.expires_in,
        expires_at,
        client_id,
        client_secret,
    }
}

} // verus!
