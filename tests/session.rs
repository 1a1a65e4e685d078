use vrc_ban::config::{default_user_agent, is_default};
use vrc_ban::session::{
    secret_from_decoded, second_factor_code, should_reauthenticate, AuthError, CallError, SessionAction,
    SessionEvent, SessionManager, SessionState,
};

const RFC_SEED: &str = "GEZDGNBVGY3TQOJQGEZDGNBVGY3TQOJQ";

#[test]
fn one_time_code_matches_reference_values() {
    assert_eq!(second_factor_code(RFC_SEED, 59), Ok("287082".to_string()));
    assert_eq!(second_factor_code(RFC_SEED, 1_111_111_109), Ok("081804".to_string()));
    assert_eq!(second_factor_code(RFC_SEED, 1_234_567_890), Ok("005924".to_string()));
}

#[test]
fn bad_seeds_are_reported() {
    assert_eq!(second_factor_code("not base32!", 59), Err(AuthError::InvalidSeed));
    assert_eq!(second_factor_code("GEZDGNBV", 59), Err(AuthError::SeedTooShort));
    assert_eq!(secret_from_decoded(None), Err(AuthError::InvalidSeed));
    assert_eq!(secret_from_decoded(Some(vec![1u8; 15])), Err(AuthError::SeedTooShort));
    assert_eq!(secret_from_decoded(Some(vec![1u8; 16])), Ok(vec![1u8; 16]));
}

#[test]
fn saved_session_is_probed_first() {
    let mut m = SessionManager::new();
    assert_eq!(m.step(SessionEvent::Start { saved: true }), SessionAction::Probe);
    assert_eq!(m.step(SessionEvent::ProbeAccepted), SessionAction::Persist);
    assert!(m.is_authenticated());
}

#[test]
fn refused_probe_falls_back_to_login_with_code() {
    let mut m = SessionManager::new();
    m.step(SessionEvent::Start { saved: true });
    assert_eq!(m.step(SessionEvent::ProbeRefused), SessionAction::Login);
    assert_eq!(m.step(SessionEvent::LoginNeedsSecondFactor), SessionAction::SubmitCode);
    assert_eq!(m.state, SessionState::AwaitingSecondFactor);
    assert_eq!(m.step(SessionEvent::SecondFactorVerified), SessionAction::Persist);
    assert_eq!(m.state, SessionState::Authenticated);
}

#[test]
fn refused_credentials_are_final() {
    let mut m = SessionManager::new();
    assert_eq!(m.step(SessionEvent::Start { saved: false }), SessionAction::Login);
    assert_eq!(m.step(SessionEvent::LoginRefused), SessionAction::Fail(AuthError::Rejected));
    assert_eq!(m.state, SessionState::Rejected);
    assert_eq!(m.step(SessionEvent::Start { saved: false }), SessionAction::Fail(AuthError::Rejected));
    assert_eq!(m.state, SessionState::Rejected);
}

#[test]
fn refused_code_and_network_failures() {
    let mut m = SessionManager::new();
    m.step(SessionEvent::Start { saved: false });
    m.step(SessionEvent::LoginNeedsSecondFactor);
    assert_eq!(m.step(SessionEvent::SecondFactorRefused), SessionAction::Fail(AuthError::SecondFactorFailed));
    assert_eq!(m.state, SessionState::Unauthenticated);
    m.step(SessionEvent::Start { saved: false });
    assert_eq!(m.step(SessionEvent::NetworkFailed), SessionAction::Fail(AuthError::TransientNetwork));
    assert_eq!(m.state, SessionState::Unauthenticated);
}

#[test]
fn expired_session_logs_in_again() {
    let mut m = SessionManager::new();
    m.step(SessionEvent::Start { saved: false });
    m.step(SessionEvent::LoginSucceeded);
    assert_eq!(m.step(SessionEvent::AuthorizationExpired), SessionAction::Login);
    assert_eq!(m.state, SessionState::LoggingIn);
    assert_eq!(m.step(SessionEvent::ProbeAccepted), SessionAction::Wait);
    assert_eq!(m.state, SessionState::LoggingIn);
}

#[test]
fn reauthentication_is_tried_once() {
    assert!(should_reauthenticate(CallError::Unauthorized, 0));
    assert!(should_reauthenticate(CallError::TransientNetwork, 0));
    assert!(!should_reauthenticate(CallError::Unauthorized, 1));
    assert!(!should_reauthenticate(CallError::NotFound, 0));
    assert!(!should_reauthenticate(CallError::Other, 0));
}

#[test]
fn default_user_agent_is_recognised() {
    let ua = default_user_agent();
    assert_eq!(ua, "vrc-ban/0.1.0 Shayne Hartford (ShayBox)");
    assert!(is_default(&ua));
    assert!(!is_default("curl/8.0"));
    assert!(!is_default("vrc-ban/0.1.0 someone else"));
    assert!(!is_default(""));
}
