use svnpush_core::version::sources::{
    check_groups, custom_sources, header_source, readme_sources, rewrite_location, validate_location,
};
use svnpush_core::version::{extract_leading, newest, Version, VersionError, VersionLocation, VersionSourceKind};

fn v(s: &str) -> Version {
    match Version::parse(s) {
        Ok(v) => v,
        Err(_) => panic!("{s} should parse"),
    }
}

#[test]
fn extracts_versions_from_titles() {
    assert_eq!(extract_leading("1.2.3").as_deref(), Some("1.2.3"));
    assert_eq!(extract_leading("v2.0 - 2026-01-01").as_deref(), Some("2.0"));
    assert_eq!(extract_leading("1.3.0-beta1 (preview)").as_deref(), Some("1.3.0-beta1"));
    assert_eq!(extract_leading("Version 1.0"), None);
    assert_eq!(extract_leading("1.0."), Some("1.0".to_owned()));
}

#[test]
fn accepts_the_v02_formats() {
    for ok in ["1.0", "1.2.3", "10.20.30", "1.2.0-beta1", "2.0-rc.1"] {
        assert!(Version::parse(ok).is_ok(), "{ok}");
    }
    for bad in ["1", "1.2.3.4", "v1.2", "1.a", "1.2.", "", "1.2-", "1.2-be_ta", "trunk"] {
        assert!(Version::parse(bad).is_err(), "{bad}");
    }
}

#[test]
fn leading_zeros_in_numeric_prerelease_identifiers_are_refused() {
    assert!(Version::parse("1.0.0-01").is_err());
    assert!(Version::parse("1.0.0-0").is_ok());
    assert!(Version::parse("1.0.0-0a").is_ok());
    assert!(Version::parse("99999999999999999999.0").is_err());
}

#[test]
fn compares_with_normalisation() {
    assert!(v("1.0").equals(&v("1.0.0")));
    assert!(v("1.0.1").is_newer_than(&v("1.0")));
    assert_eq!(v("1.2.0-beta1").order(&v("1.2.0")), -1);
    assert!(v("1.10").is_newer_than(&v("1.9.9")));
    assert_eq!(v("1.0").as_str(), "1.0");
    assert_eq!(v("1.0.0-alpha").order(&v("1.0.0-alpha.1")), -1);
    assert_eq!(v("1.0.0-alpha.1").order(&v("1.0.0-alpha.beta")), -1);
    assert_eq!(v("1.0.0-beta.2").order(&v("1.0.0-beta.11")), -1);
    assert_eq!(v("1.0.0-rc.1").order(&v("1.0.0-beta.11")), 1);
    assert_eq!(v("2.0").order(&v("2.0.0")), 0);
}

#[test]
fn next_patch() {
    assert_eq!(v("1.2").next_patch().as_str(), "1.2.1");
    assert_eq!(v("1.2.3").next_patch().as_str(), "1.2.4");
    assert_eq!(v("1.3.0-beta1").next_patch().as_str(), "1.3.0");
    assert!(!v("1.3.0-beta1").next_patch().is_prerelease());
    assert!(v("1.3.0-beta1").is_prerelease());
}

#[test]
fn newest_ignores_non_versions() {
    let tags = ["1.0/", "1.10/", "1.9", "beta/", "2.0-rc1"];
    assert_eq!(newest(&tags).map(|v| v.as_str().to_owned()).as_deref(), Some("2.0-rc1"));
    assert!(newest(&["trunk"]).is_none());
    let same = ["1.0", "1.0.0"];
    assert_eq!(newest(&same).map(|v| v.as_str().to_owned()).as_deref(), Some("1.0.0"));
}

#[test]
fn version_errors_have_codes_and_fixes() {
    let e = match Version::parse("nope") {
        Err(e) => e,
        Ok(_) => panic!("nope should not parse"),
    };
    assert_eq!(e.code(), "VERSION_INVALID");
    assert_eq!(e.message(), "\"nope\" is not a valid version");
    assert!(e.fix().contains("-beta1"));
    let missing = VersionError::NotFound { path: "a.php".into() };
    assert_eq!(missing.code(), "VERSION_NOT_FOUND");
    assert!(missing.fix().starts_with("Check that a.php still contains the version"));
}

#[test]
fn locations_need_exactly_one_capture_group() {
    let good = VersionLocation { path: "a.php".into(), pattern: r"define\(\s*'V',\s*'([^']+)'".into() };
    assert!(validate_location(&good).is_ok());
    let none = VersionLocation { path: "a.php".into(), pattern: "define".into() };
    match validate_location(&none) {
        Err(VersionError::BadPattern { path, reason }) => {
            assert_eq!(path, "a.php");
            assert_eq!(reason, "it has 0 capture groups, expected 1");
        }
        _ => panic!("expected a bad pattern"),
    }
    let broken = VersionLocation { path: "b.php".into(), pattern: "(".into() };
    assert!(matches!(validate_location(&broken), Err(VersionError::BadPattern { .. })));
    assert!(check_groups("x", 2).is_ok());
    assert!(check_groups("x", 3).is_err());
}

#[test]
fn rejects_patterns_without_exactly_one_group() {
    let loc = VersionLocation { path: "x".into(), pattern: "(a)(b)".into() };
    assert_eq!(validate_location(&loc).unwrap_err().code(), "VERSION_BAD_PATTERN");
    let loc = VersionLocation { path: "x".into(), pattern: "([".into() };
    assert!(validate_location(&loc).is_err());
}

const MAIN: &str = "<?php\n/*\n * Plugin Name: P\n * Version: 1.0.0\n */\ndefine( 'P_VERSION', '1.0.0' );\n";
const PACKAGE: &str = "{\n  \"version\": \"0.9.0\"\n}\n";

#[test]
fn custom_locations_read_their_values_with_lines() {
    let main = VersionLocation { path: "p.php".into(), pattern: r"define\(\s*'P_VERSION',\s*'([^']+)'".into() };
    let sources = custom_sources(&main, MAIN).ok().unwrap();
    assert_eq!(sources.len(), 1);
    assert_eq!((sources[0].value.as_str(), sources[0].kind, sources[0].line), ("1.0.0", VersionSourceKind::Custom, Some(6)));
    assert_eq!(sources[0].label, "p.php");

    let package = VersionLocation { path: "package.json".into(), pattern: r#""version":\s*"([^"]+)""#.into() };
    let sources = custom_sources(&package, PACKAGE).ok().unwrap();
    assert_eq!((sources[0].value.as_str(), sources[0].line), ("0.9.0", Some(2)));
}

#[test]
fn a_location_that_matches_nothing_reads_empty() {
    let loc = VersionLocation { path: "package.json".into(), pattern: r#""release":\s*"([^"]+)""#.into() };
    let sources = custom_sources(&loc, PACKAGE).ok().unwrap();
    assert_eq!(sources.len(), 1);
    assert_eq!(sources[0].value, "");
    assert_eq!(sources[0].line, None);
}

#[test]
fn several_matches_are_numbered() {
    let loc = VersionLocation { path: "v.txt".into(), pattern: r"v=(\d+)".into() };
    let sources = custom_sources(&loc, "v=1\nx\nv=22\n").ok().unwrap();
    let seen: Vec<(&str, &str, Option<u32>)> =
        sources.iter().map(|s| (s.label.as_str(), s.value.as_str(), s.line)).collect();
    assert_eq!(seen, [("v.txt (match 1)", "1", Some(1)), ("v.txt (match 2)", "22", Some(3))]);
    let bad = VersionLocation { path: "v.txt".into(), pattern: "(".into() };
    assert!(matches!(custom_sources(&bad, "x"), Err(VersionError::BadPattern { .. })));
}

#[test]
fn header_and_readme_sources() {
    let s = header_source("p.php", Some(("1.0.0".into(), 3)));
    assert_eq!((s.label.as_str(), s.value.as_str(), s.kind, s.line), ("Plugin header", "1.0.0", VersionSourceKind::Header, Some(4)));
    let s = header_source("p.php", None);
    assert_eq!((s.value.as_str(), s.line), ("", None));
    let v = readme_sources(Some(("1.0.0".into(), 2)), Some((Some("1.0.0".into()), 8)));
    assert_eq!((v[0].kind, v[0].line, v[0].label.as_str()), (VersionSourceKind::StableTag, Some(2), "Readme stable tag"));
    assert_eq!((v[1].kind, v[1].line, v[1].value.as_str()), (VersionSourceKind::Changelog, Some(8), "1.0.0"));
    let v = readme_sources(None, Some((None, 5)));
    assert_eq!((v[0].value.as_str(), v[0].line), ("", None));
    assert_eq!((v[1].value.as_str(), v[1].line), ("", Some(5)));
}

#[test]
fn custom_locations_are_rewritten_in_place() {
    let main = VersionLocation { path: "p.php".into(), pattern: r"define\(\s*'P_VERSION',\s*'([^']+)'".into() };
    let out = rewrite_location(&main, MAIN, "1.1.0").ok().unwrap();
    assert!(out.contains("'P_VERSION', '1.1.0'"));
    assert!(out.contains(" * Version: 1.0.0"));
    assert_eq!(out.len(), MAIN.len());

    let many = VersionLocation { path: "v.txt".into(), pattern: r"v=(\d+)".into() };
    assert_eq!(rewrite_location(&many, "v=1\nx\nv=22 é\n", "3").ok().unwrap(), "v=3\nx\nv=3 é\n");
}

#[test]
fn a_location_that_captures_nothing_cannot_be_written() {
    let loc = VersionLocation { path: "package.json".into(), pattern: r#""release":\s*"([^"]+)""#.into() };
    match rewrite_location(&loc, PACKAGE, "2.0") {
        Err(e) => assert_eq!(e.code(), "VERSION_NOT_FOUND"),
        Ok(_) => panic!("nothing to write"),
    }
    let bad = VersionLocation { path: "x".into(), pattern: "(a)(b)".into() };
    match rewrite_location(&bad, "ab", "2.0") {
        Err(e) => assert_eq!(e.code(), "VERSION_BAD_PATTERN"),
        Ok(_) => panic!("two groups"),
    }
}

fn locations() -> Vec<VersionLocation> {
    vec![
        VersionLocation { path: "p.php".into(), pattern: r"define\(\s*'P_VERSION',\s*'([^']+)'".into() },
        VersionLocation { path: "package.json".into(), pattern: r#""version":\s*"([^"]+)""#.into() },
    ]
}

#[test]
fn reads_all_sources_with_lines() {
    // The header and readme are parsed by the caller: the header version sits
    // on line index 3 of p.php, the readme's stable tag on line 2 and its
    // newest changelog entry on line 8.
    let mut sources = vec![header_source("p.php", Some(("1.0.0".into(), 3)))];
    sources.extend(readme_sources(Some(("1.0.0".into(), 2)), Some((Some("1.0.0".into()), 8))));
    let texts = [MAIN, PACKAGE];
    for (location, text) in locations().iter().zip(texts) {
        sources.extend(custom_sources(location, text).ok().unwrap());
    }
    let values: Vec<(&str, VersionSourceKind, Option<u32>)> =
        sources.iter().map(|s| (s.value.as_str(), s.kind, s.line)).collect();
    assert_eq!(
        values,
        [
            ("1.0.0", VersionSourceKind::Header, Some(4)),
            ("1.0.0", VersionSourceKind::StableTag, Some(2)),
            ("1.0.0", VersionSourceKind::Changelog, Some(8)),
            ("1.0.0", VersionSourceKind::Custom, Some(6)),
            ("0.9.0", VersionSourceKind::Custom, Some(2)),
        ]
    );
}

#[test]
fn a_location_that_matches_nothing_reads_empty_and_fails_to_write() {
    let loc = VersionLocation { path: "package.json".into(), pattern: r#""release":\s*"([^"]+)""#.into() };
    let sources = custom_sources(&loc, PACKAGE).ok().unwrap();
    assert_eq!(sources.last().unwrap().value, "");
    match rewrite_location(&loc, PACKAGE, "2.0") {
        Err(e) => assert_eq!(e.code(), "VERSION_NOT_FOUND"),
        Ok(_) => panic!("nothing to write"),
    }
}

#[test]
fn generated_versions_parse_and_keep_their_text() {
    for text in ["0.0", "1.2", "199.0.7", "12.199.0", "3.4-a", "5.6.7-beta12", "199.199.199-zzzzzz99", "0.1-rc"] {
        let v = Version::parse(text);
        assert!(v.is_ok());
        let v = v.ok().map(|v| (v.as_str().to_owned(), v.to_string()));
        assert_eq!(v, Some((text.to_owned(), text.to_owned())));
    }
}
