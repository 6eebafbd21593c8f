use base64::Engine;
use base64::engine::general_purpose::STANDARD;
use orca::authorized::Access;
use orca::authorized::decide;
use orca::authorized::lookup_record;
use orca::authorized::verify_credentials;
use orca::config::Authentication;
use orca::hash::hash;
use orca::pattern::Pattern;

fn basic_header(credentials: &str) -> String {
    format!("Basic {}", STANDARD.encode(credentials))
}

fn test_config() -> Authentication {
    let record = hash("alice", "correct").unwrap();
    Authentication {
        login: vec![("alice".to_string(), record)],
        public: vec![
            Pattern::new("/health").unwrap(),
            Pattern::new("/static/**").unwrap(),
        ],
    }
}

#[test]
fn public_path_is_allowed_without_credentials() {
    let auth = test_config();
    assert!(matches!(decide(&auth, "/health", None), Access::Allowed));
    assert!(matches!(
        decide(&auth, "/static/css/site.css", None),
        Access::Allowed
    ));
}

#[test]
fn non_public_path_without_header_is_rejected() {
    let auth = test_config();
    assert!(matches!(decide(&auth, "/library", None), Access::Rejected));
}

#[test]
fn correct_credentials_authenticate_the_login() {
    let auth = test_config();
    let header = basic_header("alice:correct");
    match decide(&auth, "/library", Some(header.as_str())) {
        Access::Authenticated(a) => assert_eq!(a.login, "alice"),
        _ => panic!("expected Authenticated"),
    }
}

#[test]
fn wrong_password_is_rejected() {
    let auth = test_config();
    let header = basic_header("alice:wrong");
    assert!(matches!(
        decide(&auth, "/library", Some(header.as_str())),
        Access::Rejected
    ));
}

#[test]
fn unknown_login_is_rejected() {
    let auth = test_config();
    let header = basic_header("mallory:correct");
    assert!(matches!(
        decide(&auth, "/library", Some(header.as_str())),
        Access::Rejected
    ));
}

#[test]
fn wrong_scheme_is_rejected() {
    let auth = test_config();
    let header = format!("Bearer {}", STANDARD.encode("alice:correct"));
    assert!(matches!(
        decide(&auth, "/library", Some(header.as_str())),
        Access::Rejected
    ));
}

#[test]
fn bad_base64_is_rejected() {
    let auth = test_config();
    assert!(matches!(
        decide(&auth, "/library", Some("Basic %%%not-base64%%%")),
        Access::Rejected
    ));
}

#[test]
fn missing_colon_is_rejected() {
    let auth = test_config();
    let header = basic_header("alicecorrect");
    assert!(matches!(
        decide(&auth, "/library", Some(header.as_str())),
        Access::Rejected
    ));
}

#[test]
fn password_may_contain_colons() {
    let record = hash("dave", "with:colon").unwrap();
    let auth = Authentication {
        login: vec![("dave".to_string(), record)],
        public: vec![],
    };
    let header = basic_header("dave:with:colon");
    match decide(&auth, "/library", Some(header.as_str())) {
        Access::Authenticated(a) => assert_eq!(a.login, "dave"),
        _ => panic!("expected Authenticated"),
    }
}

#[test]
fn malformed_stored_record_cannot_authenticate() {
    let auth = Authentication {
        login: vec![("erin".to_string(), "garbage-record".to_string())],
        public: vec![],
    };
    let header = basic_header("erin:anything");
    assert!(matches!(
        decide(&auth, "/library", Some(header.as_str())),
        Access::Rejected
    ));
}

#[test]
fn credentials_on_public_path_are_not_consulted() {
    let auth = test_config();
    let header = basic_header("mallory:wrong");
    assert!(matches!(
        decide(&auth, "/health", Some(header.as_str())),
        Access::Allowed
    ));
}

#[test]
fn verify_credentials_returns_the_identity() {
    let auth = test_config();
    let header = basic_header("alice:correct");
    let authorized = verify_credentials(header.as_str(), &auth).unwrap();
    assert_eq!(authorized.login, "alice");
    assert!(verify_credentials("Basic ", &auth).is_none());
    assert!(verify_credentials("", &auth).is_none());
}

#[test]
fn lookup_finds_first_matching_login() {
    let entries = vec![
        ("alice".to_string(), "record-a".to_string()),
        ("bob".to_string(), "record-b".to_string()),
    ];
    assert_eq!(lookup_record(&entries, "bob").unwrap().as_str(), "record-b");
    assert!(lookup_record(&entries, "carol").is_none());
    assert!(lookup_record(&entries, "Alice").is_none());
}
