use svnpush_core::vault::{ai_key, resolve_account, svn_host, svn_key, SvnAccount, VaultError};

#[test]
fn keys_and_hosts() {
    assert_eq!(svn_key("plugins.svn.wordpress.org", "bob"), "svn:plugins.svn.wordpress.org:bob");
    assert_eq!(ai_key("prov_1"), "ai:prov_1");
    assert_eq!(svn_host("https://Plugins.svn.wordpress.org/demo"), "plugins.svn.wordpress.org");
    assert_eq!(svn_host("file:///C:/repos/demo"), "file");
}

#[test]
fn resolves_the_only_account_or_the_chosen_one() {
    let accounts = vec![
        SvnAccount { host: "a".into(), username: "one".into() },
        SvnAccount { host: "b".into(), username: "two".into() },
        SvnAccount { host: "b".into(), username: "three".into() },
    ];
    assert_eq!(resolve_account(&accounts, "a", None).unwrap().username, "one");
    assert!(resolve_account(&accounts, "b", None).is_none());
    assert_eq!(resolve_account(&accounts, "b", Some("three")).unwrap().username, "three");
    assert!(resolve_account(&accounts, "c", None).is_none());
}

#[test]
fn account_keys_and_errors() {
    let a = SvnAccount { host: "h".into(), username: "u".into() };
    assert_eq!(a.key(), "svn:h:u");
    assert_eq!(svn_host("no-scheme/path"), "no-scheme");
    let e = VaultError::Backend { action: "read".into(), detail: "locked".into() };
    assert_eq!(e.code(), "VAULT_BACKEND");
    assert_eq!(e.message(), "the keychain could not read the secret: locked");
    assert_eq!(e.fix(), "Unlock your keychain and try again.");
    let u = VaultError::Unavailable { detail: "none".into() };
    assert_eq!(u.code(), "VAULT_UNAVAILABLE");
}
