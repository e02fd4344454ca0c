use calbot::commands::{is_owner, latency_ms};
use calbot::config::{default_status, parse_status, Config, Discord, General};
use calbot::events::{can_cleanup, parse_cleanup_id};
use serenity::model::gateway::ActivityType;

#[test]
fn owner_membership_is_exact() {
    let owners = vec![3, 99, 12];
    assert!(is_owner(&owners, 99));
    assert!(is_owner(&owners, 3));
    assert!(!is_owner(&owners, 4));
    let empty: Vec<u64> = Vec::new();
    assert!(!is_owner(&empty, 3));
}

#[test]
fn latency_is_the_difference() {
    assert_eq!(latency_ms(100, 350), 250);
    assert_eq!(latency_ms(350, 100), -250);
    assert_eq!(latency_ms(0, 0), 0);
}

#[test]
fn default_status_is_playing_with_the_expected_name() {
    let a = default_status();
    assert_eq!(a.name, "\u{1fa90}\u{2728}");
    assert!(matches!(a.kind, ActivityType::Playing));
}

#[test]
fn status_accepts_activity_json() {
    let a = parse_status("{\"type\": 0, \"name\": \"with the lads\"}").unwrap();
    assert_eq!(a.name, "with the lads");
    assert!(matches!(a.kind, ActivityType::Playing));
}

#[test]
fn status_rejects_text_that_is_not_json() {
    let e = parse_status("definitely not json").unwrap_err();
    assert!(e.starts_with("Bad parse: `"));
    assert!(e.ends_with("`"));
}

#[test]
fn config_sections_hold_their_values() {
    let cfg = Config {
        discord: Discord {
            token: "not-a-real-token".to_string(),
            appid: 42,
            status: default_status(),
        },
        general: General::default(),
    };
    assert_eq!(cfg.discord.appid, 42);
    assert_eq!(cfg.general.log, "");
}

#[test]
fn cleanup_key_parses_the_issuer_id() {
    assert_eq!(parse_cleanup_id("clean;123"), Some(123));
    assert_eq!(parse_cleanup_id("clean;0"), Some(0));
    assert_eq!(parse_cleanup_id("clean;123;extra"), Some(123));
    assert_eq!(
        parse_cleanup_id("clean;18446744073709551615"),
        Some(u64::MAX)
    );
}

#[test]
fn cleanup_key_refuses_malformed_keys() {
    assert_eq!(parse_cleanup_id("clean"), None);
    assert_eq!(parse_cleanup_id("clean;"), None);
    assert_eq!(parse_cleanup_id("clean;12a"), None);
    assert_eq!(parse_cleanup_id("cleanx;12"), None);
    assert_eq!(parse_cleanup_id("clea;12"), None);
    assert_eq!(parse_cleanup_id(""), None);
    assert_eq!(parse_cleanup_id("clean;18446744073709551616"), None);
    assert_eq!(parse_cleanup_id("other;12"), None);
}

#[test]
fn cleanup_permission_rule() {
    // the original issuer may
    assert!(can_cleanup(5, 5, false, false));
    // message-management authority may
    assert!(can_cleanup(6, 5, true, false));
    // a process operator may
    assert!(can_cleanup(6, 5, false, true));
    // nobody else may
    assert!(!can_cleanup(6, 5, false, false));
}
