use huginn_profiler::ja4::{
    extract_application_from_lowered, JA4Database, JA4LoadError, VerificationStatus,
};

const CHROME_JA4: &str = "t13d1517h2_8daaf6152771_b0da82dd1658";
const CHROME_UA: &str =
    "Mozilla/5.0 (Windows NT 10.0; Win64; x64) AppleWebKit/537.36 (KHTML, like Gecko) Chrome/125.0.0.0 Safari/537.36";
const FIREFOX_JA4: &str = "t13d1715h2_5b57614c22b0_3d5424432f57";
const FIREFOX_UA: &str =
    "Mozilla/5.0 (Windows NT 10.0; Win64; x64; rv:126.0) Gecko/20100101 Firefox/126.0";

fn chrome_entry(verified: bool) -> String {
    format!(
        r#"{{"ja4_fingerprint":"{CHROME_JA4}","user_agent_string":"{CHROME_UA}","application":"Chromium Browser","verified":{verified}}}"#
    )
}

fn firefox_entry() -> String {
    format!(
        r#"{{"ja4_fingerprint":"{FIREFOX_JA4}","user_agent_string":"{FIREFOX_UA}","application":"Firefox","verified":true,"observation_count":12}}"#
    )
}

fn db_of(entries: &[String]) -> JA4Database {
    JA4Database::from_json(&format!("[{}]", entries.join(","))).unwrap()
}

#[test]
fn test_parse_empty_json() {
    let result = JA4Database::from_json("[]");
    assert!(result.is_ok());
    let db = result.unwrap();
    assert_eq!(db.total_entries, 0);
}

#[test]
fn test_extract_application_from_ua() {
    let db = JA4Database::from_json("[]").unwrap();

    assert_eq!(
        db.extract_application_from_ua("Mozilla/5.0 (Windows NT 10.0; Win64; x64) AppleWebKit/537.36 (KHTML, like Gecko) Chrome/91.0.4472.124 Safari/537.36"),
        Some("Chrome".to_string())
    );

    assert_eq!(
        db.extract_application_from_ua("Mozilla/5.0 (Macintosh; Intel Mac OS X 10.15; rv:89.0) Gecko/20100101 Firefox/89.0"),
        Some("Firefox".to_string())
    );
}

#[test]
fn application_detection_priority_and_case() {
    let db = JA4Database::from_json("[]").unwrap();
    let safari = "Mozilla/5.0 (Macintosh) AppleWebKit/605.1.15 Version/17.0 SAFARI/605.1.15";
    assert_eq!(db.extract_application_from_ua(safari), Some("Safari".to_string()));
    assert_eq!(db.extract_application_from_ua("Mozilla/5.0 Edge/18.19041"), Some("Edge".to_string()));
    assert_eq!(db.extract_application_from_ua("Opera/9.80 (X11; Linux)"), Some("Opera".to_string()));
    assert_eq!(db.extract_application_from_ua("curl/8.0"), None);
    assert_eq!(db.extract_application_from_ua(""), None);
}

#[test]
fn exact_match_verified_pair() {
    let db = db_of(&[chrome_entry(true)]);
    let r = db.validate_consistency(CHROME_JA4, CHROME_UA);
    assert!(r.is_consistent);
    assert_eq!(r.confidence_percent, 95);
    assert_eq!(r.expected_applications, vec!["Chromium Browser".to_string()]);
    assert_eq!(r.detected_application, Some("Chrome".to_string()));
    assert!(r.anomalies.is_empty());
    assert!(matches!(
        r.verification_status,
        VerificationStatus::ExactMatch { verified: true, observation_count: None }
    ));
}

#[test]
fn exact_match_unverified_pair() {
    let db = db_of(&[chrome_entry(false)]);
    let r = db.validate_consistency(CHROME_JA4, CHROME_UA);
    assert!(r.is_consistent);
    assert_eq!(r.confidence_percent, 80);
    assert!(matches!(r.verification_status, VerificationStatus::ExactMatch { verified: false, .. }));
}

#[test]
fn exact_match_carries_observation_count() {
    let db = db_of(&[firefox_entry()]);
    let r = db.validate_consistency(FIREFOX_JA4, FIREFOX_UA);
    assert!(matches!(
        r.verification_status,
        VerificationStatus::ExactMatch { verified: true, observation_count: Some(12) }
    ));
    assert_eq!(r.detected_application, Some("Firefox".to_string()));
}

#[test]
fn chrome_ja4_with_firefox_user_agent_is_mismatch() {
    let db = db_of(&[chrome_entry(true), firefox_entry()]);
    let r = db.validate_consistency(CHROME_JA4, FIREFOX_UA);
    assert!(!r.is_consistent);
    assert_eq!(r.confidence_percent, 20);
    assert!(matches!(r.verification_status, VerificationStatus::NoMatch));
    assert_eq!(r.anomalies.len(), 1);
    assert!(r.anomalies[0].contains("Application mismatch"));
    assert_eq!(
        r.anomalies[0],
        "Application mismatch: JA4 suggests [\"Chromium Browser\"], User-Agent suggests [\"Firefox\"]"
    );
    assert_eq!(r.expected_applications, vec!["Chromium Browser".to_string()]);
    assert_eq!(r.detected_application, Some("Firefox".to_string()));
}

#[test]
fn unknown_pair_in_empty_database() {
    let db = JA4Database::from_json("[]").unwrap();
    let r = db.validate_consistency("anything", "whatever");
    assert!(!r.is_consistent);
    assert_eq!(r.confidence_percent, 10);
    assert_eq!(r.anomalies, vec!["Unknown JA4 and User-Agent combination".to_string()]);
    assert!(matches!(r.verification_status, VerificationStatus::NoMatch));
    assert!(r.expected_applications.is_empty());
}

#[test]
fn known_ja4_with_unknown_user_agent() {
    let db = db_of(&[chrome_entry(true)]);
    let r = db.validate_consistency(CHROME_JA4, "curl/8.0");
    assert!(!r.is_consistent);
    assert_eq!(r.confidence_percent, 30);
    assert_eq!(r.anomalies, vec!["JA4 fingerprint known but User-Agent not expected".to_string()]);
    match r.verification_status {
        VerificationStatus::JA4Match { expected_ua } => assert_eq!(expected_ua, vec![CHROME_UA.to_string()]),
        other => panic!("unexpected status {other:?}"),
    }
    assert_eq!(r.expected_applications, vec!["Chromium Browser".to_string()]);
    assert_eq!(r.detected_application, None);
}

#[test]
fn known_user_agent_with_unknown_ja4() {
    let db = db_of(&[chrome_entry(true)]);
    let r = db.validate_consistency("t13d0000h2_000000000000_000000000000", CHROME_UA);
    assert!(!r.is_consistent);
    assert_eq!(r.confidence_percent, 30);
    assert_eq!(r.anomalies, vec!["User-Agent known but JA4 fingerprint not expected".to_string()]);
    match r.verification_status {
        VerificationStatus::UserAgentMatch { expected_ja4 } => {
            assert_eq!(expected_ja4, vec![CHROME_JA4.to_string()])
        }
        other => panic!("unexpected status {other:?}"),
    }
    assert!(r.expected_applications.is_empty());
}

#[test]
fn shared_application_without_exact_pair_is_consistent() {
    let other_ua = "Mozilla/5.0 (X11; Linux x86_64) Chrome/124.0.0.0";
    let second = format!(
        r#"{{"ja4_fingerprint":"t13d9999h2_aaaaaaaaaaaa_bbbbbbbbbbbb","user_agent_string":"{other_ua}","application":"Chromium Browser","verified":true}}"#
    );
    let db = db_of(&[chrome_entry(true), second]);
    let r = db.validate_consistency(CHROME_JA4, other_ua);
    assert!(r.is_consistent);
    assert_eq!(r.confidence_percent, 70);
    assert!(r.anomalies.is_empty());
    assert!(matches!(r.verification_status, VerificationStatus::NoMatch));
}

#[test]
fn repeated_validation_gives_equal_verdicts() {
    let db = db_of(&[chrome_entry(true), firefox_entry()]);
    let a = db.validate_consistency(CHROME_JA4, FIREFOX_UA);
    let b = db.validate_consistency(CHROME_JA4, FIREFOX_UA);
    assert_eq!(format!("{a:?}"), format!("{b:?}"));
}

#[test]
fn exact_match_applications_come_from_the_ja4_entries() {
    let db = db_of(&[chrome_entry(true), firefox_entry()]);
    let r = db.validate_consistency(CHROME_JA4, CHROME_UA);
    let known: Vec<String> = db
        .entries
        .iter()
        .filter(|e| e.ja4_fingerprint.as_deref() == Some(CHROME_JA4))
        .filter_map(|e| e.application.clone())
        .collect();
    for app in &r.expected_applications {
        assert!(known.contains(app));
    }
}

#[test]
fn total_entries_counts_every_array_element() {
    let db = db_of(&[chrome_entry(true), firefox_entry(), r#"{"verified":false}"#.to_string()]);
    assert_eq!(db.total_entries, 3);
    assert_eq!(db.entries.len(), 3);
}

#[test]
fn unknown_and_null_members_are_tolerated() {
    let db = JA4Database::from_json(
        r#"[{"verified":true,"application":null,"extra":[1,2],"nested":{"a":1},"os":"Linux"}]"#,
    )
    .unwrap();
    assert_eq!(db.total_entries, 1);
    assert_eq!(db.entries[0].application, None);
    assert_eq!(db.entries[0].os, Some("Linux".to_string()));
}

#[test]
fn text_that_is_not_an_array_of_objects_is_rejected() {
    assert!(matches!(JA4Database::from_json("not json"), Err(JA4LoadError::InvalidJson)));
    assert!(matches!(JA4Database::from_json("{}"), Err(JA4LoadError::InvalidJson)));
    assert!(matches!(JA4Database::from_json("[1, 2]"), Err(JA4LoadError::InvalidJson)));
}

#[test]
fn entry_with_wrong_member_kind_is_rejected() {
    assert!(matches!(
        JA4Database::from_json(r#"[{"verified":"yes"}]"#),
        Err(JA4LoadError::InvalidEntry { index: 0 })
    ));
    assert!(matches!(
        JA4Database::from_json(r#"[{"verified":true},{"application":"x"}]"#),
        Err(JA4LoadError::InvalidEntry { index: 1 })
    ));
    assert!(matches!(
        JA4Database::from_json(r#"[{"verified":true,"application":7}]"#),
        Err(JA4LoadError::InvalidEntry { index: 0 })
    ));
    assert!(matches!(
        JA4Database::from_json(r#"[{"verified":true,"observation_count":-1}]"#),
        Err(JA4LoadError::InvalidEntry { index: 0 })
    ));
    assert!(matches!(
        JA4Database::from_json(r#"[{"verified":true,"observation_count":4294967296}]"#),
        Err(JA4LoadError::InvalidEntry { index: 0 })
    ));
}

#[test]
fn largest_observation_count_is_accepted() {
    let db = JA4Database::from_json(r#"[{"verified":true,"observation_count":4294967295}]"#).unwrap();
    assert_eq!(db.entries[0].observation_count, Some(u32::MAX));
}

#[test]
fn empty_strings_are_not_indexed() {
    let db = JA4Database::from_json(
        r#"[{"verified":true,"ja4_fingerprint":"","user_agent_string":"","application":""}]"#,
    )
    .unwrap();
    let stats = db.get_stats();
    assert_eq!(stats.total_entries, 1);
    assert_eq!(stats.unique_ja4_fingerprints, 0);
    assert_eq!(stats.unique_user_agents, 0);
    assert_eq!(stats.unique_applications, 0);
    assert_eq!(stats.verified_entries, 0);
    let r = db.validate_consistency("", "");
    assert_eq!(r.confidence_percent, 10);
}

#[test]
fn stats_count_keys_and_verified_entries() {
    let db = db_of(&[chrome_entry(true), chrome_entry(false), firefox_entry()]);
    let stats = db.get_stats();
    assert_eq!(stats.total_entries, 3);
    assert_eq!(stats.unique_ja4_fingerprints, 2);
    assert_eq!(stats.unique_user_agents, 2);
    assert_eq!(stats.unique_applications, 2);
    assert_eq!(stats.verified_entries, 2);
    assert_eq!(db.ja4_to_entries[0].entries.len(), 2);
}

#[test]
fn lowered_user_agent_detection_is_case_sensitive() {
    assert_eq!(extract_application_from_lowered("mozilla chrome/1"), Some("Chrome".to_string()));
    assert_eq!(extract_application_from_lowered("Mozilla Chrome/1"), None);
    assert_eq!(extract_application_from_lowered("safari and chrome"), Some("Chrome".to_string()));
}
