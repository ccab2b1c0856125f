use svnpush_core::settings::{cache_is_fresh, lookup_plan, parse_version_check, AppSettings};

#[test]
fn parses_the_version_check_offer() {
    let json = r#"{ "offers": [{ "response": "upgrade", "current": "7.1" }] }"#;
    assert_eq!(parse_version_check(json).as_deref(), Some("7.1"));
    assert!(parse_version_check("{}").is_none());
    assert!(parse_version_check("not json").is_none());
    assert!(parse_version_check(r#"{ "offers": [{ "current": 7 }] }"#).is_none());
}

#[test]
fn uses_a_fresh_cache_and_skips_when_off() {
    let on = AppSettings::default();
    assert_eq!(lookup_plan(&on, 1_000_000, Some(1_000_000 - 60)), Some(true));
    assert_eq!(lookup_plan(&on, 1_000_000, Some(1_000_000 - 86_400)), Some(false));
    assert_eq!(lookup_plan(&on, 1_000_000, None), Some(false));
    let off = AppSettings { wordpress_version_lookup: false, ..AppSettings::default() };
    assert_eq!(lookup_plan(&off, 1_000_000, Some(1_000_000)), None);
    assert!(cache_is_fresh(5, 10));
}
