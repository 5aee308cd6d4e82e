//! The locator and the resolver against a real project directory.

use dep_licenses::manager::{handle_dependencies_files, ManagersArgs};
use dep_licenses::pipeline::parse_lock_file;
use dep_licenses::report::write_node_dependencies_to_file;
use dep_licenses::resolver::{get_license_file_url, get_node_module_package_info};

fn root_bytes(dir: &tempfile::TempDir) -> Vec<u8> {
    dir.path().to_str().unwrap().as_bytes().to_vec()
}

#[test]
fn missing_lockfile_yields_empty_list_not_error() {
    let dir = tempfile::tempdir().unwrap();
    let r = handle_dependencies_files(ManagersArgs::NPM, &root_bytes(&dir));
    assert!(r.is_empty());
}

#[test]
fn present_lockfile_yields_its_normalized_path() {
    let dir = tempfile::tempdir().unwrap();
    fs_err::write(dir.path().join("package-lock.json"), b"{}").unwrap();
    let r = handle_dependencies_files(ManagersArgs::NPM, &root_bytes(&dir));
    let mut expected = root_bytes(&dir);
    expected.extend_from_slice(b"/package-lock.json");
    assert_eq!(r, vec![expected]);
}

#[test]
fn each_manager_locates_its_own_lockfile() {
    let dir = tempfile::tempdir().unwrap();
    fs_err::write(dir.path().join("yarn.lock"), b"").unwrap();
    assert_eq!(
        handle_dependencies_files(ManagersArgs::YARN, &root_bytes(&dir)).len(),
        1
    );
    assert!(handle_dependencies_files(ManagersArgs::PNPM, &root_bytes(&dir)).is_empty());
    assert!(handle_dependencies_files(ManagersArgs::IOS, &root_bytes(&dir)).is_empty());
    assert!(handle_dependencies_files(ManagersArgs::ANDROID, &root_bytes(&dir)).is_empty());
}

#[test]
fn manifest_and_license_resolve_to_a_full_record() {
    let dir = tempfile::tempdir().unwrap();
    let foo = dir.path().join("node_modules").join("foo");
    fs_err::create_dir_all(&foo).unwrap();
    fs_err::write(foo.join("package.json"), br#"{"name":"foo","license":"MIT"}"#).unwrap();
    fs_err::write(foo.join("LICENSE"), b"license text").unwrap();
    let r = get_node_module_package_info(vec![b"node_modules/foo".to_vec()], &root_bytes(&dir));
    assert_eq!(r.len(), 1);
    assert_eq!(r[0].name, b"foo".to_vec());
    assert_eq!(r[0].license, b"MIT".to_vec());
    assert_eq!(r[0].license_url, b"node_modules/foo/LICENSE".to_vec());
    assert_eq!(r[0].description, b"".to_vec());
    assert_eq!(r[0].author, b"".to_vec());
    assert_eq!(r[0].repository_url, b"".to_vec());
}

#[test]
fn all_manifest_fields_are_taken_over() {
    let dir = tempfile::tempdir().unwrap();
    let bar = dir.path().join("node_modules").join("bar");
    fs_err::create_dir_all(&bar).unwrap();
    fs_err::write(
        bar.join("package.json"),
        br#"{"name":"bar","description":"a bar","repository":{"url":"https://example.com/bar"},"author":"someone","license":"Apache-2.0"}"#,
    )
    .unwrap();
    let r = get_node_module_package_info(vec![b"node_modules/bar".to_vec()], &root_bytes(&dir));
    assert_eq!(r.len(), 1);
    assert_eq!(r[0].name, b"bar".to_vec());
    assert_eq!(r[0].description, b"a bar".to_vec());
    assert_eq!(r[0].repository_url, b"https://example.com/bar".to_vec());
    assert_eq!(r[0].author, b"someone".to_vec());
    assert_eq!(r[0].license, b"Apache-2.0".to_vec());
    assert_eq!(r[0].license_url, b"".to_vec());
}

#[test]
fn unreadable_manifest_drops_only_that_identifier() {
    let dir = tempfile::tempdir().unwrap();
    let good = dir.path().join("node_modules").join("good");
    fs_err::create_dir_all(&good).unwrap();
    fs_err::write(good.join("package.json"), br#"{"name":"good"}"#).unwrap();
    let r = get_node_module_package_info(
        vec![b"node_modules/gone".to_vec(), b"node_modules/good".to_vec()],
        &root_bytes(&dir),
    );
    assert_eq!(r.len(), 1);
    assert_eq!(r[0].name, b"good".to_vec());
}

#[test]
fn malformed_manifest_drops_the_identifier() {
    let dir = tempfile::tempdir().unwrap();
    let bad = dir.path().join("node_modules").join("bad");
    fs_err::create_dir_all(&bad).unwrap();
    fs_err::write(bad.join("package.json"), b"not json").unwrap();
    let r = get_node_module_package_info(vec![b"node_modules/bad".to_vec()], &root_bytes(&dir));
    assert!(r.is_empty());
}

#[test]
fn mistyped_manifest_field_drops_the_identifier() {
    let dir = tempfile::tempdir().unwrap();
    let odd = dir.path().join("node_modules").join("odd");
    fs_err::create_dir_all(&odd).unwrap();
    fs_err::write(odd.join("package.json"), br#"{"name":"odd","license":5}"#).unwrap();
    let r = get_node_module_package_info(vec![b"node_modules/odd".to_vec()], &root_bytes(&dir));
    assert!(r.is_empty());
}

#[test]
fn license_probe_honours_priority_order() {
    let dir = tempfile::tempdir().unwrap();
    let p = dir.path().join("node_modules").join("p");
    fs_err::create_dir_all(&p).unwrap();
    fs_err::write(p.join("LICENSE.txt"), b"x").unwrap();
    fs_err::write(p.join("LICENSE"), b"x").unwrap();
    let r = get_license_file_url(&b"node_modules/p".to_vec(), &root_bytes(&dir)).unwrap();
    assert_eq!(r, b"node_modules/p/LICENSE".to_vec());
}

#[test]
fn license_probe_yields_empty_when_nothing_exists() {
    let dir = tempfile::tempdir().unwrap();
    let p = dir.path().join("node_modules").join("q");
    fs_err::create_dir_all(&p).unwrap();
    let r = get_license_file_url(&b"node_modules/q".to_vec(), &root_bytes(&dir)).unwrap();
    assert!(r.is_empty());
}

#[test]
fn pipeline_run_twice_is_byte_identical() {
    let dir = tempfile::tempdir().unwrap();
    fs_err::write(
        dir.path().join("package-lock.json"),
        br#"{"packages":{"node_modules/foo":{},"node_modules/missing":{}}}"#,
    )
    .unwrap();
    let foo = dir.path().join("node_modules").join("foo");
    fs_err::create_dir_all(&foo).unwrap();
    fs_err::write(foo.join("package.json"), br#"{"name":"foo","license":"MIT"}"#).unwrap();
    fs_err::write(foo.join("license.md"), b"m").unwrap();
    let root = root_bytes(&dir);
    let run = || {
        let paths = handle_dependencies_files(ManagersArgs::NPM, &root);
        assert_eq!(paths.len(), 1);
        let records = parse_lock_file(ManagersArgs::NPM, &root, &paths[0]);
        write_node_dependencies_to_file(&records)
    };
    let first = run();
    let second = run();
    assert_eq!(first, second);
    assert!(!first.is_empty());
}

#[test]
fn pipeline_yields_no_records_for_ios_and_android() {
    let dir = tempfile::tempdir().unwrap();
    let root = root_bytes(&dir);
    let lock = b"whatever".to_vec();
    assert!(parse_lock_file(ManagersArgs::IOS, &root, &lock).is_empty());
    assert!(parse_lock_file(ManagersArgs::ANDROID, &root, &lock).is_empty());
}
