use base64::Engine;
use base64::engine::general_purpose::URL_SAFE_NO_PAD;
use fleetgate::auth::AuthOutcome;
use fleetgate::auth::CredentialStore;
use fleetgate::auth::authenticate;
use fleetgate::auth::denial_message;
use fleetgate::auth::login;
use fleetgate::codec::b64url_encode;
use fleetgate::data::UserLogin;
use fleetgate::gate::GateDecision;
use fleetgate::gate::authenticator;
use fleetgate::password::password_digest;
use fleetgate::token::issue;
use fleetgate::token::verify;
use hmac::Hmac;
use hmac::KeyInit;
use hmac::Mac;
use sha2::Sha256;

const SECRET: &[u8] = b"top-secret-key";

#[test]
fn issued_token_is_the_reference_jwt() {
    let t = issue(b"a@b.com", SECRET);
    assert_eq!(
        String::from_utf8(t).unwrap(),
        "eyJhbGciOiJIUzI1NiIsInR5cCI6IkpXVCJ9.eyJzdWIiOiJhQGIuY29tIn0.\
         Pmb9u2IF-KUwCDHKCaKEdEw5iC9eadbYburHQqOVxys"
    );
}

#[test]
fn issued_token_signature_matches_reference_hmac() {
    let t = issue(b"somebody", SECRET);
    let s = String::from_utf8(t).unwrap();
    let cut = s.rfind('.').unwrap();
    let mut mac = Hmac::<Sha256>::new_from_slice(SECRET).unwrap();
    mac.update(s[..cut].as_bytes());
    let digest = mac.finalize().into_bytes().to_vec();
    let expected = String::from_utf8(b64url_encode(&digest)).unwrap();
    assert_eq!(&s[cut + 1..], expected);
}

#[test]
fn verify_accepts_issued_token_same_secret() {
    let t = issue(b"bob", SECRET);
    assert!(verify(&t, SECRET));
}

#[test]
fn verify_rejects_other_secret() {
    let t = issue(b"bob", SECRET);
    assert!(!verify(&t, b"another-secret"));
}

#[test]
fn verify_rejects_flipped_signature_character() {
    let mut t = issue(b"bob", SECRET);
    let last = t.len() - 1;
    t[last] = if t[last] == b'A' { b'B' } else { b'A' };
    assert!(!verify(&t, SECRET));
}

#[test]
fn verify_rejects_structural_corruption() {
    assert!(!verify(b"", SECRET));
    assert!(!verify(b"onlyonesegment", SECRET));
    assert!(!verify(b"two.segments", SECRET));
    assert!(!verify(b"a.b.c.d", SECRET));
    let t = issue(b"bob", SECRET);
    let truncated = &t[..t.len() - 5];
    assert!(!verify(truncated, SECRET));
}

#[test]
fn verify_rejects_malformed_segment_encoding() {
    // Three dot-separated segments whose header and claims bytes lie
    // outside the base64url alphabet must be rejected even when the
    // signature segment is the correctly computed digest over them.
    let msg = b"!.!";
    let mut mac = Hmac::<Sha256>::new_from_slice(SECRET).unwrap();
    mac.update(msg);
    let sig = b64url_encode(&mac.finalize().into_bytes().to_vec());
    let mut forged = msg.to_vec();
    forged.push(b'.');
    forged.extend_from_slice(&sig);
    assert!(!verify(&forged, SECRET));
    let mut header = b"Bearer ".to_vec();
    header.extend_from_slice(&forged);
    assert_eq!(
        authenticator(b"POST", b"/positions/new", Some(header.as_slice()), SECRET),
        GateDecision::AccessDenied
    );
}

#[test]
fn password_digest_known_vector() {
    let d = password_digest(b"abc");
    assert_eq!(String::from_utf8(d).unwrap(), "a9993e364706816aba3e25717850c26c9cd0d89d");
}

#[test]
fn login_success_returns_token_with_subject_claim() {
    let mut store = CredentialStore::new();
    store.add_row(
        b"a@b.com".to_vec(),
        b"e5e9fa1ba31ecd1ae84f75caaa474f3a663f05f4".to_vec(),
    );
    match authenticate(&store, b"a@b.com", b"secret", SECRET) {
        AuthOutcome::Token(t) => {
            assert!(!t.is_empty());
            let s = String::from_utf8(t).unwrap();
            let parts: Vec<&str> = s.split('.').collect();
            assert_eq!(parts.len(), 3);
            let claims = URL_SAFE_NO_PAD.decode(parts[1]).unwrap();
            assert_eq!(String::from_utf8(claims).unwrap(), "{\"sub\":\"a@b.com\"}");
            assert!(verify(s.as_bytes(), SECRET));
        },
        AuthOutcome::Denied => panic!("expected a token for a matching credential row"),
    }
}

#[test]
fn login_wrong_password_is_generic_denial() {
    let mut store = CredentialStore::new();
    store.add_row(
        b"a@b.com".to_vec(),
        b"e5e9fa1ba31ecd1ae84f75caaa474f3a663f05f4".to_vec(),
    );
    assert!(matches!(
        authenticate(&store, b"a@b.com", b"wrong", SECRET),
        AuthOutcome::Denied
    ));
    assert_eq!(denial_message(), "Incorrect username or password");
}

#[test]
fn login_body_flows_through_as_utf8_bytes() {
    let mut store = CredentialStore::new();
    store.add_row(
        b"a@b.com".to_vec(),
        b"e5e9fa1ba31ecd1ae84f75caaa474f3a663f05f4".to_vec(),
    );
    let body = UserLogin {
        email: "a@b.com".to_string(),
        password: "secret".to_string(),
    };
    match login(&store, &body, SECRET) {
        AuthOutcome::Token(t) => assert!(verify(&t, SECRET)),
        AuthOutcome::Denied => panic!("expected a token for a matching credential row"),
    }
    let wrong = UserLogin {
        email: "a@b.com".to_string(),
        password: "Secret".to_string(),
    };
    assert!(matches!(login(&store, &wrong, SECRET), AuthOutcome::Denied));
}

#[test]
fn login_unknown_user_is_generic_denial() {
    let store = CredentialStore::new();
    assert!(matches!(
        authenticate(&store, b"nobody@b.com", b"secret", SECRET),
        AuthOutcome::Denied
    ));
}

#[test]
fn gate_allows_options_probe_without_credential() {
    assert_eq!(
        authenticator(b"OPTIONS", b"/positions/new", None, SECRET),
        GateDecision::Allow
    );
    assert_eq!(
        authenticator(b"OPTIONS", b"/positions/new", Some(b"garbage".as_slice()), SECRET),
        GateDecision::Allow
    );
}

#[test]
fn gate_allows_login_target_regardless_of_credential() {
    assert_eq!(authenticator(b"POST", b"/login", None, SECRET), GateDecision::Allow);
    assert_eq!(
        authenticator(b"POST", b"/login", Some(b"Bearer not-a-token".as_slice()), SECRET),
        GateDecision::Allow
    );
}

#[test]
fn gate_denies_missing_header_before_any_handler() {
    assert_eq!(
        authenticator(b"POST", b"/positions/new", None, SECRET),
        GateDecision::MissingAuthorization
    );
    assert_eq!(
        authenticator(b"GET", b"/users", None, SECRET),
        GateDecision::MissingAuthorization
    );
}

#[test]
fn gate_denies_non_bearer_header() {
    assert_eq!(
        authenticator(b"POST", b"/positions/new", Some(b"Basic abc".as_slice()), SECRET),
        GateDecision::MissingAuthorization
    );
    assert_eq!(
        authenticator(b"POST", b"/positions/new", Some(b"Bear".as_slice()), SECRET),
        GateDecision::MissingAuthorization
    );
}

#[test]
fn gate_allows_valid_bearer_and_denies_tampered() {
    let token = issue(b"a@b.com", SECRET);
    let mut header = b"Bearer ".to_vec();
    header.extend_from_slice(&token);
    assert_eq!(
        authenticator(b"POST", b"/positions/new", Some(header.as_slice()), SECRET),
        GateDecision::Allow
    );
    let last = header.len() - 1;
    header[last] = if header[last] == b'A' { b'B' } else { b'A' };
    assert_eq!(
        authenticator(b"POST", b"/positions/new", Some(header.as_slice()), SECRET),
        GateDecision::AccessDenied
    );
    assert_eq!(
        authenticator(b"POST", b"/positions/new", Some(token.as_slice()), SECRET),
        GateDecision::MissingAuthorization
    );
}
