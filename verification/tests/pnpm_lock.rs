//! The pnpm parser on concrete content.

use dep_licenses::error::ParseError;
use dep_licenses::pnpm::{extract_yaml_library_name, parse_pnpm_lock};

fn ids(content: &str) -> Vec<Vec<u8>> {
    parse_pnpm_lock(&content.as_bytes().to_vec()).unwrap()
}

#[test]
fn pnpm_scoped_key_normalizes_to_scoped_name() {
    let r = ids("packages:\n  /@babel/core@7.0.0: {}\n");
    assert_eq!(r, vec![b"node_modules/@babel/core".to_vec()]);
}

#[test]
fn pnpm_unscoped_key_normalizes_to_bare_name() {
    let r = ids("packages:\n  /lodash@4.17.15: {}\n");
    assert_eq!(r, vec![b"node_modules/lodash".to_vec()]);
}

#[test]
fn pnpm_sections_concatenate_in_order_and_dedup() {
    let content = "dependencies:\n  /a@1: {}\ndevDependencies:\n  /b@1: {}\ndev_dependencies:\n  /a@2: {}\npackages:\n  /c@1: {}\n";
    let r = ids(content);
    assert_eq!(
        r,
        vec![
            b"node_modules/a".to_vec(),
            b"node_modules/b".to_vec(),
            b"node_modules/c".to_vec()
        ]
    );
}

#[test]
fn pnpm_short_keys_are_discarded() {
    let r = ids("dependencies:\n  lodash: {}\n");
    assert!(r.is_empty());
}

#[test]
fn pnpm_missing_sections_are_empty_not_error() {
    let r = ids("lockfileVersion: 5.4\n");
    assert!(r.is_empty());
}

#[test]
fn pnpm_invalid_yaml_is_malformed() {
    let r = parse_pnpm_lock(&b"dependencies: [unclosed".to_vec());
    assert_eq!(r.unwrap_err(), ParseError::Malformed);
}

#[test]
fn pnpm_top_level_list_is_malformed() {
    let r = parse_pnpm_lock(&b"- a\n- b\n".to_vec());
    assert_eq!(r.unwrap_err(), ParseError::Malformed);
}

#[test]
fn yaml_library_name_scoped() {
    let r = extract_yaml_library_name(&b"/@babel/code-frame@7.10.4".to_vec());
    assert_eq!(r, b"@babel/code-frame".to_vec());
}

#[test]
fn yaml_library_name_unscoped() {
    let r = extract_yaml_library_name(&b"/lodash@4.17.15".to_vec());
    assert_eq!(r, b"lodash".to_vec());
}

#[test]
fn yaml_library_name_short_key_is_empty() {
    let r = extract_yaml_library_name(&b"lodash".to_vec());
    assert!(r.is_empty());
}

#[test]
fn yaml_library_name_slash_separated_version() {
    let r = extract_yaml_library_name(&b"/lodash/4.17.15".to_vec());
    assert_eq!(r, b"lodash".to_vec());
}
