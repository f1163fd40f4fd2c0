use alynxis::admin::{AdminCredentialStore, AdminIdentity, AdminSession, AlynxisError};
use alynxis::config::{default_config_path, resolve_default_data_dir, Config};
use alynxis::ids::AlynxisId;
use std::time::{Duration, Instant};

fn wait(ms: u64) {
    let start = Instant::now();
    while start.elapsed() < Duration::from_millis(ms) {}
}

fn dummy_identity() -> AdminIdentity {
    AdminIdentity {
        id: AlynxisId::new(),
        created_at_unix: 0,
    }
}

#[test]
fn defaults_match_spec() {
    let cfg = Config::default_with_home(None);
    assert!(
        cfg.require_zone_b_review,
        "Section 9a requires this to default true"
    );
    assert_eq!(cfg.admin_inactivity_timeout_secs, 1800);
}

#[test]
fn default_paths_follow_home() {
    let cfg = Config::default_with_home(Some("/home/lynx"));
    assert_eq!(cfg.data_dir, "/home/lynx/.alynxis");
    assert_eq!(cfg.logs_dir(), "/home/lynx/.alynxis/logs");
    assert_eq!(cfg.state_dir(), "/home/lynx/.alynxis/state");
    assert_eq!(cfg.log_level, "info");
    assert_eq!(resolve_default_data_dir(None), "./alynxis_data");
    assert_eq!(resolve_default_data_dir(Some("/root/")), "/root/.alynxis");
    assert_eq!(default_config_path(Some("/home/lynx")), "/home/lynx/.alynxis/alynxis.toml");
    assert_eq!(default_config_path(None), "./alynxis_data/alynxis.toml");
    let rel = Config::default_with_home(Some(""));
    assert_eq!(rel.data_dir, ".alynxis");
}

#[test]
fn new_ids_are_unique() {
    let a = AlynxisId::new();
    let b = AlynxisId::new();
    assert_ne!(a, b);
}

#[test]
fn round_trips_through_uuid() {
    let id = AlynxisId::new();
    let uuid = id.as_uuid();
    let rebuilt = AlynxisId::from_uuid(uuid);
    assert_eq!(id, rebuilt);
}

#[test]
fn id_text_is_hyphenated_uuid() {
    let id = AlynxisId::from_u128(0x0123456789abcdef0123456789abcdef);
    assert_eq!(id.to_string(), "01234567-89ab-cdef-0123-456789abcdef");
    assert_eq!(id.as_u128(), 0x0123456789abcdef0123456789abcdef);
}

#[test]
fn argon2id_round_trip() {
    let stored = AdminCredentialStore::new_credential(
        "correct-horse-battery-staple-but-longer-and-random",
    )
    .unwrap();
    assert!(AdminCredentialStore::verify(
        "correct-horse-battery-staple-but-longer-and-random",
        &stored
    )
    .unwrap());
    assert!(!AdminCredentialStore::verify("wrong-secret", &stored).unwrap());
}

#[test]
fn two_hashes_of_same_secret_differ_due_to_random_salt() {
    let c1 = AdminCredentialStore::new_credential("same-secret-value").unwrap();
    let c2 = AdminCredentialStore::new_credential("same-secret-value").unwrap();
    assert_ne!(
        c1.hash, c2.hash,
        "salts should differ between two independent hashings of the same secret"
    );
}

#[test]
fn unparsable_stored_hash_is_an_error() {
    let stored = alynxis::admin::StoredCredential {
        hash: "not a phc string".to_string(),
        created_at_unix: 0,
    };
    let result = AdminCredentialStore::verify("anything", &stored);
    match result {
        Err(AlynxisError::AdminCredential(m)) => {
            assert!(m.starts_with("stored argon2 hash unparsable: "))
        }
        other => panic!("unexpected {other:?}"),
    }
}

#[test]
fn authenticate_fails_when_nothing_configured() {
    let result = AdminSession::authenticate(
        "anything",
        None,
        dummy_identity(),
        Duration::from_secs(1800).as_nanos(),
    );
    match result {
        Err(AlynxisError::AdminCredential(m)) => assert_eq!(m, "no admin credential configured"),
        _ => panic!("expected an error"),
    }
}

#[test]
fn authenticate_wrong_secret_fails_and_no_session_created() {
    let stored = AdminCredentialStore::new_credential("right-secret-value-long").unwrap();
    let result = AdminSession::authenticate(
        "wrong-secret-value-long",
        Some(&stored),
        dummy_identity(),
        Duration::from_secs(1800).as_nanos(),
    );
    match result {
        Err(AlynxisError::AdminCredential(m)) => assert_eq!(m, "incorrect credential"),
        _ => panic!("expected an error"),
    }
}

#[test]
fn authenticate_success_then_session_valid_until_expiry() {
    let stored = AdminCredentialStore::new_credential("session-test-secret-value").unwrap();

    let session = AdminSession::authenticate(
        "session-test-secret-value",
        Some(&stored),
        dummy_identity(),
        Duration::from_millis(50).as_nanos(),
    )
    .unwrap();
    assert!(session.is_valid());

    wait(120);
    assert!(
        !session.is_valid(),
        "session should have expired after inactivity timeout"
    );

    let mut session2 = AdminSession::authenticate(
        "session-test-secret-value",
        Some(&stored),
        dummy_identity(),
        Duration::from_millis(300).as_nanos(),
    )
    .unwrap();
    wait(150);
    session2.record_activity();
    wait(150);
    assert!(
        session2.is_valid(),
        "record_activity should have reset the inactivity clock"
    );
}

#[test]
fn end_immediately_invalidates_session() {
    let stored = AdminCredentialStore::new_credential("end-test-secret-value").unwrap();
    let mut session = AdminSession::authenticate(
        "end-test-secret-value",
        Some(&stored),
        dummy_identity(),
        Duration::from_secs(1800).as_nanos(),
    )
    .unwrap();
    assert!(session.is_valid());
    session.end();
    assert!(!session.is_valid());
}

#[test]
fn set_inactivity_timeout_requires_valid_session() {
    let stored = AdminCredentialStore::new_credential("timeout-test-secret-value").unwrap();
    let mut session = AdminSession::authenticate(
        "timeout-test-secret-value",
        Some(&stored),
        dummy_identity(),
        Duration::from_secs(1800).as_nanos(),
    )
    .unwrap();
    session.end();
    let result = session.set_inactivity_timeout(Duration::from_secs(60).as_nanos());
    assert!(matches!(result, Err(AlynxisError::AdminSessionInvalid)));
}

#[test]
fn set_inactivity_timeout_succeeds_on_valid_session() {
    let stored = AdminCredentialStore::new_credential("timeout-test-2-secret-value").unwrap();
    let mut session = AdminSession::authenticate(
        "timeout-test-2-secret-value",
        Some(&stored),
        dummy_identity(),
        Duration::from_millis(50).as_nanos(),
    )
    .unwrap();
    session
        .set_inactivity_timeout(Duration::from_secs(60).as_nanos())
        .unwrap();
    wait(100);
    assert!(
        session.is_valid(),
        "new, longer timeout should apply and keep the session valid"
    );
}

#[test]
fn session_keeps_its_identity() {
    let stored = AdminCredentialStore::new_credential("identity-secret-value").unwrap();
    let identity = dummy_identity();
    let session = AdminSession::authenticate(
        "identity-secret-value",
        Some(&stored),
        identity,
        Duration::from_secs(60).as_nanos(),
    )
    .unwrap();
    assert_eq!(*session.identity(), identity);
    let fresh = AdminIdentity::generate();
    assert_ne!(fresh.id, identity.id);
}

#[test]
fn new_ids_are_version_4_uuids() {
    for _ in 0..100 {
        let bits = AlynxisId::new().as_u128();
        assert_eq!((bits >> 76) & 0xf, 4);
        assert_eq!((bits >> 62) & 0x3, 2);
        assert_eq!(AlynxisId::new().as_uuid().get_version_num(), 4);
    }
    let identity = AdminIdentity::generate();
    assert_eq!((identity.id.as_u128() >> 76) & 0xf, 4);
}

#[test]
fn validity_is_decided_by_elapsed_time_against_the_timeout() {
    let stored = AdminCredentialStore::new_credential("window-secret-value").unwrap();
    let mut session = AdminSession::authenticate(
        "window-secret-value",
        Some(&stored),
        dummy_identity(),
        Duration::from_millis(50).as_nanos(),
    )
    .unwrap();
    assert!(session.valid_after(0));
    assert!(session.valid_after(50_000_000));
    assert!(!session.valid_after(50_000_001));
    session.end();
    assert!(!session.valid_after(0));
}

#[test]
fn timeout_change_is_decided_by_elapsed_time() {
    let stored = AdminCredentialStore::new_credential("window-2-secret-value").unwrap();
    let mut session = AdminSession::authenticate(
        "window-2-secret-value",
        Some(&stored),
        dummy_identity(),
        1_000,
    )
    .unwrap();
    let refused = session.set_inactivity_timeout_at(5_000, 1_001, Instant::now());
    assert!(matches!(refused, Err(AlynxisError::AdminSessionInvalid)));
    assert!(!session.valid_after(1_001));
    session.set_inactivity_timeout_at(5_000, 1_000, Instant::now()).unwrap();
    assert!(session.valid_after(5_000));
    assert!(!session.valid_after(5_001));
    session.record_activity_at(Instant::now());
    assert!(session.valid_after(5_000));
}

#[test]
fn stored_credential_is_an_argon2id_phc_string() {
    let stored = AdminCredentialStore::new_credential("prefix-secret-value").unwrap();
    assert!(stored.hash.starts_with("$argon2id$v=19$"));
}
