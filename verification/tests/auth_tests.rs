use alx::auth::apply_token;
use alx::auth::check_credential;
use alx::auth::evaluate_credential;
use alx::auth::poll_decision;
use alx::auth::Credential;
use alx::auth::CredentialCheck;
use alx::auth::PollStep;
use alx::auth::TokenDoc;
use alx::allegro_client::setup;

fn stored(expires_at: i64) -> Credential {
    Credential {
        access_token: "tok".to_owned(),
        refresh_token: "ref".to_owned(),
        expires_in: 3600,
        expires_at,
        client_id: "cid".to_owned(),
        client_secret: "SECRET-REDACTED".to_owned(),
    }
}

#[test]
fn expired_credential_forces_handshake() {
    let r = evaluate_credential(&Some(stored(100)), 200);
    assert!(matches!(r, CredentialCheck::NeedsHandshake));
}

#[test]
fn future_credential_is_reused_without_network() {
    let r = evaluate_credential(&Some(stored(1_000)), 200);
    match r {
        CredentialCheck::Reusable(t) => assert_eq!(t, "tok"),
        CredentialCheck::NeedsHandshake => panic!("valid credential must be reused"),
    }
}

#[test]
fn credential_expiring_exactly_now_is_not_valid() {
    let r = evaluate_credential(&Some(stored(200)), 200);
    assert!(matches!(r, CredentialCheck::NeedsHandshake));
}

#[test]
fn absent_credential_forces_handshake() {
    let r = evaluate_credential(&None, 0);
    assert!(matches!(r, CredentialCheck::NeedsHandshake));
}

#[test]
fn check_against_real_clock_handles_absence() {
    let r = check_credential(&None);
    assert!(matches!(r, CredentialCheck::NeedsHandshake));
}

#[test]
fn fresh_token_expires_with_safety_margin() {
    let token = TokenDoc {
        access_token: "new".to_owned(),
        refresh_token: "newref".to_owned(),
        expires_in: 3600,
    };
    let c = apply_token("cid".to_owned(), "SECRET-REDACTED".to_owned(), token, 1_000);
    assert_eq!(c.expires_at, 1_000 + 3600 - 100);
    assert_eq!(c.access_token, "new");
    assert_eq!(c.refresh_token, "newref");
    assert_eq!(c.expires_in, 3600);
    assert_eq!(c.client_id, "cid");
}

#[test]
fn setup_record_needs_refreshing_right_away() {
    let c = setup("cid", "SECRET-REDACTED", 500);
    assert_eq!(c.access_token, "");
    assert_eq!(c.refresh_token, "");
    assert_eq!(c.expires_in, -100);
    assert_eq!(c.expires_at, 500);
    let r = evaluate_credential(&Some(c), 500);
    assert!(matches!(r, CredentialCheck::NeedsHandshake));
}

#[test]
fn pending_poll_waits_for_the_server_interval() {
    let r = poll_decision(None, 5);
    match r {
        PollStep::Wait { seconds } => assert_eq!(seconds, 5),
        PollStep::Done { .. } => panic!("pending response must wait"),
    }
}

#[test]
fn token_document_ends_the_polling() {
    let token = TokenDoc {
        access_token: "a".to_owned(),
        refresh_token: "r".to_owned(),
        expires_in: 60,
    };
    let r = poll_decision(Some(token), 5);
    match r {
        PollStep::Done { token } => assert_eq!(token.access_token, "a"),
        PollStep::Wait { .. } => panic!("token document must end the handshake"),
    }
}
