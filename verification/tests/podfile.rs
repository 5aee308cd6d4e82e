//! The CocoaPods parser on concrete content.

use dep_licenses::podlock::{parse_podlock, parse_podlock_dependency_line};

fn dep_line(line: &str) -> Option<(Vec<u8>, Vec<u8>)> {
    parse_podlock_dependency_line(&line.as_bytes().to_vec())
}

#[test]
fn pod_line_with_version_yields_empty_path() {
    let r = dep_line("- Alamofire (5.6.2)").unwrap();
    assert_eq!(r.0, b"Alamofire".to_vec());
    assert_eq!(r.1, b"".to_vec());
}

#[test]
fn pod_line_with_source_yields_the_url() {
    let r = dep_line("- Alamofire (from `https://github.com/Alamofire/Alamofire.git`)").unwrap();
    assert_eq!(r.0, b"Alamofire".to_vec());
    assert_eq!(r.1, b"https://github.com/Alamofire/Alamofire.git".to_vec());
}

#[test]
fn pod_line_with_range_yields_pods_path() {
    let r = dep_line("- Local (~> 1.0)").unwrap();
    assert_eq!(r.0, b"Local".to_vec());
    assert_eq!(r.1, b"./Pods".to_vec());
}

#[test]
fn pod_line_all_uppercase_is_no_dependency() {
    assert!(dep_line("PODS").is_none());
}

#[test]
fn pod_line_empty_is_no_dependency() {
    assert!(dep_line("   ").is_none());
}

#[test]
fn pod_line_without_parenthesis_is_no_dependency() {
    assert!(dep_line("- Alamofire").is_none());
}

#[test]
fn podlock_scans_only_the_dependencies_section() {
    let content = "PODS:\n  - Alamofire (5.6.2)\n\nDEPENDENCIES:\n  - Alamofire (5.6.2)\n  - MyPod (from `https://github.com/x/y.git`)\n  - Local (~> 1.0)\n\nSPEC CHECKSUMS:\n  - Fake (1.0)\n";
    let r = parse_podlock(&content.as_bytes().to_vec()).unwrap();
    assert_eq!(
        r,
        vec![
            (b"Alamofire".to_vec(), b"".to_vec()),
            (b"MyPod".to_vec(), b"https://github.com/x/y.git".to_vec()),
            (b"Local".to_vec(), b"./Pods".to_vec()),
        ]
    );
}

#[test]
fn podlock_uppercase_section_header_terminates_scanning() {
    let content = "DEPENDENCIES:\n  - Before (1.0)\nSPEC CHECKSUMS:\n  - After (2.0)\n";
    let r = parse_podlock(&content.as_bytes().to_vec()).unwrap();
    assert_eq!(r, vec![(b"Before".to_vec(), b"".to_vec())]);
}

#[test]
fn podlock_without_dependencies_section_is_empty() {
    let content = "PODS:\n  - Alamofire (5.6.2)\n";
    let r = parse_podlock(&content.as_bytes().to_vec()).unwrap();
    assert!(r.is_empty());
}

#[test]
fn podlock_empty_content_is_empty() {
    assert!(parse_podlock(&Vec::new()).unwrap().is_empty());
}
