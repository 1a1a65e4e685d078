//! Session acquisition against the platform: the decisions of the login flow
//! as a state machine, and the time-based one-time code of its second factor.
use totp_rs::{Algorithm, Secret, TOTP};
use vstd::prelude::*;

verus! {

/// Why a session could not be had.
#[derive(Clone, Copy, Debug, PartialEq, Eq, Structural)]
pub enum AuthError {
    /// The service refused the account's credentials.
    Rejected,
    /// The service refused the one-time code; a new code comes with the next
    /// 30-second step.
    SecondFactorFailed,
    /// The service could not be reached.
    TransientNetwork,
    /// The stored one-time-code seed is not base32 text.
    InvalidSeed,
    /// The stored one-time-code seed decodes to fewer than 16 bytes.
    SeedTooShort,
}

/// Where the login flow stands.
#[derive(Clone, Copy, Debug, PartialEq, Eq, Structural)]
pub enum SessionState {
    Unauthenticated,
    /// A saved session is being tried with the service.
    Probing,
    /// Credentials have been sent.
    LoggingIn,
    /// The service asked for a one-time code.
    AwaitingSecondFactor,
    Authenticated,
    /// The credentials were refused: nothing more is tried with them.
    Rejected,
}

/// What the service answered, or what happened outside the flow.
#[derive(Clone, Copy, Debug, PartialEq, Eq, Structural)]
pub enum SessionEvent {
    /// Acquisition begins; `saved` tells whether a persisted session exists.
    Start { saved: bool },
    ProbeAccepted,
    ProbeRefused,
    LoginSucceeded,
    LoginNeedsSecondFactor,
    LoginRefused,
    SecondFactorVerified,
    SecondFactorRefused,
    NetworkFailed,
    /// A call made with the session was refused as unauthorised.
    AuthorizationExpired,
}

/// What the caller is to do next.
#[derive(Clone, Copy, Debug, PartialEq, Eq, Structural)]
pub enum SessionAction {
    /// Try the saved session with the service.
    Probe,
    /// Log in with the account's identifier and secret.
    Login,
    /// Compute the current one-time code and submit it.
    SubmitCode,
    /// Save the session's tokens; the session is ready for use.
    Persist,
    /// Report the error.
    Fail(AuthError),
    /// Nothing to do.
    Wait,
}

/// The next state and action of the login flow.
pub open spec fn transition(s: SessionState, e: SessionEvent) -> (SessionState, SessionAction) {
    match (s, e) {
        (SessionState::Rejected, _) => (SessionState::Rejected, SessionAction::Fail(AuthError::Rejected)),
        (SessionState::Unauthenticated, SessionEvent::Start { saved }) => if saved {
            (SessionState::Probing, SessionAction::Probe)
        } else {
            (SessionState::LoggingIn, SessionAction::Login)
        },
        (SessionState::Probing, SessionEvent::ProbeAccepted) => (
            SessionState::Authenticated,
            SessionAction::Persist,
        ),
        (SessionState::Probing, SessionEvent::ProbeRefused) => (
            SessionState::LoggingIn,
            SessionAction::Login,
        ),
        (SessionState::LoggingIn, SessionEvent::LoginSucceeded) => (
            SessionState::Authenticated,
            SessionAction::Persist,
        ),
        (SessionState::LoggingIn, SessionEvent::LoginNeedsSecondFactor) => (
            SessionState::AwaitingSecondFactor,
            SessionAction::SubmitCode,
        ),
        (SessionState::LoggingIn, SessionEvent::LoginRefused) => (
            SessionState::Rejected,
            SessionAction::Fail(AuthError::Rejected),
        ),
        (SessionState::AwaitingSecondFactor, SessionEvent::SecondFactorVerified) => (
            SessionState::Authenticated,
            SessionAction::Persist,
        ),
        (SessionState::AwaitingSecondFactor, SessionEvent::SecondFactorRefused) => (
            SessionState::Unauthenticated,
            SessionAction::Fail(AuthError::SecondFactorFailed),
        ),
        (SessionState::Probing, SessionEvent::NetworkFailed)
        | (SessionState::LoggingIn, SessionEvent::NetworkFailed)
        | (SessionState::AwaitingSecondFactor, SessionEvent::NetworkFailed) => (
            SessionState::Unauthenticated,
            SessionAction::Fail(AuthError::TransientNetwork),
        ),
        (SessionState::Authenticated, SessionEvent::AuthorizationExpired) => (
            SessionState::LoggingIn,
            SessionAction::Login,
        ),
        _ => (s, SessionAction::Wait),
    }
}

/// The login flow of one process: at most one session, renewed lazily.
pub struct SessionManager {
    pub state: SessionState,
}

impl SessionManager {
    /// A manager that holds no session.
    pub fn new() -> (r: SessionManager)
        ensures
            r.state == SessionState::Unauthenticated,
    {
        SessionManager { state: SessionState::Unauthenticated }
    }

    /// Take in `event` and return what to do next.
    pub fn step(&mut self, event: SessionEvent) -> (r: SessionAction)
        ensures
            (final(self).state, r) == transition(old(self).state, event),
    {
        let (next, action) = match (self.state, event) {
            (SessionState::Rejected, _) => (SessionState::Rejected, SessionAction::Fail(AuthError::Rejected)),
            (SessionState::Unauthenticated, SessionEvent::Start { saved }) => if saved {
                (SessionState::Probing, SessionAction::Probe)
            } else {
                (SessionState::LoggingIn, SessionAction::Login)
            },
            (SessionState::Probing, SessionEvent::ProbeAccepted) => (
                SessionState::Authenticated,
                SessionAction::Persist,
            ),
            (SessionState::Probing, SessionEvent::ProbeRefused) => (
                SessionState::LoggingIn,
                SessionAction::Login,
            ),
            (SessionState::LoggingIn, SessionEvent::LoginSucceeded) => (
                SessionState::Authenticated,
                SessionAction::Persist,
            ),
            (SessionState::LoggingIn, SessionEvent::LoginNeedsSecondFactor) => (
                SessionState::AwaitingSecondFactor,
                SessionAction::SubmitCode,
            ),
            (SessionState::LoggingIn, SessionEvent::LoginRefused) => (
                SessionState::Rejected,
                SessionAction::Fail(AuthError::Rejected),
            ),
            (SessionState::AwaitingSecondFactor, SessionEvent::SecondFactorVerified) => (
                SessionState::Authenticated,
                SessionAction::Persist,
            ),
            (SessionState::AwaitingSecondFactor, SessionEvent::SecondFactorRefused) => (
                SessionState::Unauthenticated,
                SessionAction::Fail(AuthError::SecondFactorFailed),
            ),
            (SessionState::Probing, SessionEvent::NetworkFailed)
            | (SessionState::LoggingIn, SessionEvent::NetworkFailed)
            | (SessionState::AwaitingSecondFactor, SessionEvent::NetworkFailed) => (
                SessionState::Unauthenticated,
                SessionAction::Fail(AuthError::TransientNetwork),
            ),
            (SessionState::Authenticated, SessionEvent::AuthorizationExpired) => (
                SessionState::LoggingIn,
                SessionAction::Login,
            ),
            _ => (self.state, SessionAction::Wait),
        };
        self.state = next;
        action
    }

    /// Whether the session is ready for use.
    pub fn is_authenticated(&self) -> (r: bool)
        ensures
            r == (self.state == SessionState::Authenticated),
    {
        self.state == SessionState::Authenticated
    }
}

/// The flow reaches a session only by saving it, and once the credentials are
/// refused it stays refused.
pub proof fn lemma_flow_invariants(s: SessionState, e: SessionEvent)
    ensures
        transition(s, e).0 == SessionState::Authenticated && s != SessionState::Authenticated
            ==> transition(s, e).1 == SessionAction::Persist,
        s == SessionState::Rejected ==> transition(s, e).0 == SessionState::Rejected,
{
}

/// The bytes a base32 text (RFC 4648 alphabet, no padding) decodes to;
/// `None` where it is not such a text.
pub uninterp spec fn base32_decoded(s: Seq<char>) -> Option<Seq<u8>>;

/// The six-digit HMAC-SHA1 one-time code with a 30-second step of `secret` at
/// Unix time `time` (RFC 6238).
pub uninterp spec fn totp_sha1_code(secret: Seq<u8>, time: int) -> Seq<char>;

/// The view of optional bytes.
pub open spec fn opt_bytes(o: Option<Vec<u8>>) -> Option<Seq<u8>> {
    match o {
        Some(v) => Some(v@),
        None => None,
    }
}

/// Relies on `totp_rs::Secret::to_bytes` of `Secret::Encoded`: base32 decoding
/// of the seed with the RFC 4648 alphabet and no padding.
#[verifier::external_body]
fn decode_seed(seed: &str) -> (r: Option<Vec<u8>>)
    ensures
        opt_bytes(r) == base32_decoded(seed@),
{
    Secret::Encoded(seed.to_string()).to_bytes().ok()
}

/// Relies on `totp_rs::TOTP::new` with SHA-1, 6 digits, skew 1 and a 30-second
/// step, which accepts any secret of 16 bytes or more, and on `TOTP::generate`,
/// which formats the code as exactly 6 decimal digits.
#[verifier::external_body]
fn totp_code(secret: Vec<u8>, time: u64) -> (r: String)
    requires
        secret@.len() >= 16,
    ensures
        r@ == totp_sha1_code(secret@, time as int),
        r@.len() == 6,
        forall|i: int| 0 <= i < 6 ==> '0' <= #[trigger] r@[i] <= '9',
{
    match TOTP::new(Algorithm::SHA1, 6, 1, 30, secret) {
        Ok(t) => t.generate(time),
        Err(_) => String::new(),
    }
}

/// The secret that a decoded seed gives: the seed must be base32 text of at
/// least 16 bytes.
pub fn secret_from_decoded(decoded: Option<Vec<u8>>) -> (r: Result<Vec<u8>, AuthError>)
    ensures
        decoded is None ==> r == Err::<Vec<u8>, AuthError>(AuthError::InvalidSeed),
        decoded is Some && decoded->0@.len() < 16 ==> r == Err::<Vec<u8>, AuthError>(
            AuthError::SeedTooShort,
        ),
        decoded is Some && decoded->0@.len() >= 16 ==> r is Ok && r->Ok_0@ == decoded->0@,
{
    match decoded {
        None => Err(AuthError::InvalidSeed),
        Some(bytes) => if bytes.len() < 16 {
            Err(AuthError::SeedTooShort)
        } else {
            Ok(bytes)
        },
    }
}

/// The one-time code for the base32 `seed` at Unix time `now`.
pub fn second_factor_code(seed: &str, now: u64) -> (r: Result<String, AuthError>)
    ensures
        base32_decoded(seed@) is None ==> r == Err::<String, AuthError>(AuthError::InvalidSeed),
        base32_decoded(seed@) is Some && base32_decoded(seed@)->0.len() < 16 ==> r == Err::<
            String,
            AuthError,
        >(AuthError::SeedTooShort),
        base32_decoded(seed@) is Some && base32_decoded(seed@)->0.len() >= 16 ==> r is Ok
            && r->Ok_0@ == totp_sha1_code(base32_decoded(seed@)->0, now as int),
{
    let secret = match secret_from_decoded(decode_seed(seed)) {
        Ok(s) => s,
        Err(e) => return Err(e),
    };
    Ok(totp_code(secret, now))
}

/// How a call to the service failed.
#[derive(Clone, Copy, Debug, PartialEq, Eq, Structural)]
pub enum CallError {
    Unauthorized,
    TransientNetwork,
    NotFound,
    Other,
}

/// Whether an operator's call that failed with `error`, after `retries`
/// re-authentications, is worth one more after logging in again: only an
/// expired session or a network failure, and only once.
pub fn should_reauthenticate(error: CallError, retries: u32) -> (r: bool)
    ensures
        r == ((error == CallError::Unauthorized || error == CallError::TransientNetwork) && retries
            == 0),
{
    (error == CallError::Unauthorized || error == CallError::TransientNetwork) && retries == 0
}

} // verus!
