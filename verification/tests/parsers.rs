//! The lockfile parsers on concrete content.

use dep_licenses::error::ParseError;
use dep_licenses::gradle::parse_settings_graddle;
use dep_licenses::npm::parse_package_lock;
use dep_licenses::yarn::parse_yarn_lock;

fn ids(content: &str) -> Vec<Vec<u8>> {
    parse_yarn_lock(&content.as_bytes().to_vec()).unwrap()
}

#[test]
fn npm_packages_keys_come_back() {
    let content = br#"{"name":"x","version":"1.0.0","packages":{"node_modules/lodash":{},"node_modules/react":{"version":"18.0.0"}}}"#;
    let r = parse_package_lock(&content.to_vec()).unwrap();
    assert_eq!(
        r,
        vec![
            b"node_modules/lodash".to_vec(),
            b"node_modules/react".to_vec()
        ]
    );
}

#[test]
fn npm_missing_packages_is_empty_not_error() {
    let r = parse_package_lock(&br#"{"name":"x"}"#.to_vec()).unwrap();
    assert!(r.is_empty());
}

#[test]
fn npm_null_packages_is_empty() {
    let r = parse_package_lock(&br#"{"packages":null}"#.to_vec()).unwrap();
    assert!(r.is_empty());
}

#[test]
fn npm_invalid_json_is_malformed() {
    let r = parse_package_lock(&b"{not json".to_vec());
    assert_eq!(r.unwrap_err(), ParseError::Malformed);
}

#[test]
fn npm_top_level_array_is_malformed() {
    let r = parse_package_lock(&b"[1,2]".to_vec());
    assert_eq!(r.unwrap_err(), ParseError::Malformed);
}

#[test]
fn npm_wrong_kind_packages_is_malformed() {
    let r = parse_package_lock(&br#"{"packages":5}"#.to_vec());
    assert_eq!(r.unwrap_err(), ParseError::Malformed);
}

#[test]
fn yarn_repeated_names_on_one_header_dedup() {
    let r = ids("lodash@^4.17.15, lodash@^4.17.0:\n  version \"4.17.21\"\n");
    assert_eq!(r, vec![b"node_modules/lodash".to_vec()]);
}

#[test]
fn yarn_scoped_name_cut_at_version_range() {
    let r = ids("@babel/core@^7.0.0:\n  version \"7.2.0\"\n");
    assert_eq!(r, vec![b"node_modules/@babel/core".to_vec()]);
}

#[test]
fn yarn_scoped_repeated_specifiers_dedup() {
    let r = ids("@scope/name@^1.0.0, @scope/name@~1.1:\n  version \"1.1.0\"\n");
    assert_eq!(r, vec![b"node_modules/@scope/name".to_vec()]);
}

#[test]
fn yarn_scoped_without_slash_is_skipped() {
    let r = ids("@weird:\n  version \"1.0.0\"\n");
    assert!(r.is_empty());
}

#[test]
fn yarn_lines_without_colon_contribute_nothing() {
    let r = ids("lodash@^4.17.15\n  version \"4.17.21\"\n");
    assert!(r.is_empty());
}

#[test]
fn yarn_dedup_across_lines_keeps_first_seen_order() {
    let r = ids("b@^1:\n  version \"1\"\na@^2, b@^3:\n  version \"2\"\n");
    assert_eq!(r, vec![b"node_modules/b".to_vec(), b"node_modules/a".to_vec()]);
}

#[test]
fn yarn_name_without_version_range_kept_whole() {
    let r = ids("lodash:\n  version \"4.17.21\"\n");
    assert_eq!(r, vec![b"node_modules/lodash".to_vec()]);
}

#[test]
fn yarn_all_identifiers_carry_the_prefix() {
    let r = ids("a@1, @s/b@2, c:\nnoise\n@s/b@3:\n");
    assert!(!r.is_empty());
    for id in &r {
        assert!(id.starts_with(b"node_modules/"));
        assert!(id.len() > b"node_modules/".len());
    }
}

#[test]
fn gradle_is_unsupported_not_empty_success() {
    let r = parse_settings_graddle(&b"apply plugin: 'com.android.application'".to_vec());
    assert_eq!(r.unwrap_err(), ParseError::Unsupported);
}

#[test]
fn yarn_empty_content_yields_nothing() {
    assert!(ids("").is_empty());
}

#[test]
fn npm_duplicate_json_keys_collapse_to_one() {
    let content = br#"{"packages":{"node_modules/a":{},"node_modules/a":{"version":"2"}}}"#;
    let r = parse_package_lock(&content.to_vec()).unwrap();
    assert_eq!(r, vec![b"node_modules/a".to_vec()]);
}
