use alynxis::admin::{AdminCredentialStore, AdminIdentity, AdminSession};
use alynxis::ids::AlynxisId;
use alynxis::values::{check_ceiling_lift, check_ceiling_lift_at, parse_value_kind, ValueKind, ValuesError};
use std::time::Duration;

#[test]
fn parse_value_kind_accepts_every_name() {
    assert_eq!(parse_value_kind("help"), Some(ValueKind::Help));
    assert_eq!(parse_value_kind("curiosity"), Some(ValueKind::Curiosity));
    assert_eq!(parse_value_kind("social-connection"), Some(ValueKind::SocialConnection));
    assert_eq!(
        parse_value_kind("self-capability-enhancement"),
        Some(ValueKind::SelfCapabilityEnhancement)
    );
    assert_eq!(parse_value_kind("wellbeing-of-others"), Some(ValueKind::WellbeingOfOthers));
}

#[test]
fn parse_value_kind_ignores_ascii_case_and_underscores() {
    assert_eq!(parse_value_kind("HELP"), Some(ValueKind::Help));
    assert_eq!(parse_value_kind("Wellbeing_Of_Others"), Some(ValueKind::WellbeingOfOthers));
    assert_eq!(parse_value_kind("SOCIAL_connection"), Some(ValueKind::SocialConnection));
}

#[test]
fn parse_value_kind_rejects_other_text() {
    assert_eq!(parse_value_kind("helpful"), None);
    assert_eq!(parse_value_kind(""), None);
    assert_eq!(parse_value_kind("wellbeing of others"), None);
    assert_eq!(parse_value_kind(" help"), None);
}

fn open_session(secret: &str) -> AdminSession {
    let stored = AdminCredentialStore::new_credential(secret).unwrap();
    let identity = AdminIdentity {
        id: AlynxisId::new(),
        created_at_unix: 0,
    };
    AdminSession::authenticate(secret, Some(&stored), identity, Duration::from_secs(60).as_nanos()).unwrap()
}

#[test]
fn ceiling_lift_check_follows_the_admin_session() {
    let mut session = open_session("test-secret-value-long-enough");
    assert_eq!(check_ceiling_lift(&session, true), Ok(()));
    session.end();
    assert_eq!(check_ceiling_lift(&session, true), Err(ValuesError::AdminAuthRequired));
    assert_eq!(check_ceiling_lift(&session, false), Err(ValuesError::AdminAuthRequired));
}

#[test]
fn ceiling_lift_check_needs_the_value() {
    let session = open_session("another-secret-value-long-enough");
    assert_eq!(check_ceiling_lift(&session, false), Err(ValuesError::UnknownValue));
}

#[test]
fn ceiling_lift_check_follows_elapsed_time() {
    let stored = AdminCredentialStore::new_credential("elapsed-secret-value-long").unwrap();
    let identity = AdminIdentity {
        id: AlynxisId::new(),
        created_at_unix: 0,
    };
    let session = AdminSession::authenticate("elapsed-secret-value-long", Some(&stored), identity, 100).unwrap();
    assert_eq!(check_ceiling_lift_at(&session, true, 100), Ok(()));
    assert_eq!(check_ceiling_lift_at(&session, false, 100), Err(ValuesError::UnknownValue));
    assert_eq!(check_ceiling_lift_at(&session, true, 101), Err(ValuesError::AdminAuthRequired));
    assert_eq!(check_ceiling_lift_at(&session, false, 101), Err(ValuesError::AdminAuthRequired));
}
