use svnpush_core::secret::Secret;

#[test]
fn never_prints_the_value() {
    let s = Secret::new("hunter2");
    assert_eq!(s.debug_text(), "Secret([redacted])");
    assert_eq!(s.display_text(), "[redacted]");
    assert_eq!(s.expose(), "hunter2");
}

#[test]
fn redacts_occurrences() {
    let s = Secret::new("pw123");
    assert_eq!(s.redact("login pw123 failed pw123"), "login [redacted] failed [redacted]");
    assert_eq!(Secret::new("").redact("text"), "text");
}

#[test]
fn redacted_text_no_longer_holds_the_secret() {
    let s = Secret::new("xyz");
    let out = s.redact("axyzxyzbxy");
    assert_eq!(out, "a[redacted][redacted]bxy");
    assert!(!out.contains("xyz"));
    assert!(s.is_empty() == false);
    assert!(Secret::new("").is_empty());
}
