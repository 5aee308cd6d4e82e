//! Path normalization, argument resolution, and report rendering.

use dep_licenses::manager::{located_lockfile_paths, resolve_args, ManagersArgs};
use dep_licenses::paths::{join_path, normalize_path};
use dep_licenses::podlock::parse_podlock;
use dep_licenses::report::{
    write_android_dependencies_to_file, write_ios_dependencies_to_file,
    write_node_dependencies_to_file,
};
use dep_licenses::resolver::{license_url_from_probes, ParsedPackageJson};

fn norm(p: &[u8]) -> Vec<u8> {
    normalize_path(&p.to_vec())
}

#[test]
fn normalize_collapses_dot_components() {
    assert_eq!(norm(b"/a/./b"), b"/a/b".to_vec());
    assert_eq!(norm(b"/root/./package-lock.json"), b"/root/package-lock.json".to_vec());
}

#[test]
fn normalize_collapses_parent_components() {
    assert_eq!(norm(b"/a/b/../c"), b"/a/c".to_vec());
    assert_eq!(norm(b"a/.."), b"".to_vec());
    assert_eq!(norm(b"/.."), b"/".to_vec());
    assert_eq!(norm(b"../a"), b"a".to_vec());
}

#[test]
fn normalize_drops_empty_components() {
    assert_eq!(norm(b"//a//b/"), b"/a/b".to_vec());
}

#[test]
fn join_keeps_absolute_right_side() {
    assert_eq!(join_path(&b"/cwd".to_vec(), &b"/abs".to_vec()), b"/abs".to_vec());
    assert_eq!(join_path(&b"/cwd".to_vec(), &b"rel".to_vec()), b"/cwd/rel".to_vec());
}

#[test]
fn resolve_args_normalizes_root_and_output() {
    let r = resolve_args(
        ManagersArgs::NPM,
        &b"/work".to_vec(),
        &b"./proj".to_vec(),
        &b"./dependencies-licenses.json".to_vec(),
    );
    assert_eq!(r.root, b"/work/proj".to_vec());
    assert_eq!(r.output, b"/work/proj/dependencies-licenses.json".to_vec());
    assert!(matches!(r.manager, ManagersArgs::NPM));
}

#[test]
fn resolve_args_absolute_path_replaces_cwd() {
    let r = resolve_args(
        ManagersArgs::YARN,
        &b"/work".to_vec(),
        &b"/elsewhere".to_vec(),
        &b"out.json".to_vec(),
    );
    assert_eq!(r.root, b"/elsewhere".to_vec());
    assert_eq!(r.output, b"/elsewhere/out.json".to_vec());
}

#[test]
fn node_report_renders_tab_separated_lines() {
    let rec = ParsedPackageJson {
        name: b"n".to_vec(),
        description: b"d".to_vec(),
        repository_url: b"r".to_vec(),
        author: b"a".to_vec(),
        license: b"l".to_vec(),
        license_url: b"u".to_vec(),
    };
    let out = write_node_dependencies_to_file(&vec![rec]);
    assert_eq!(out, b"n\td\tr\ta\tl\tu\n".to_vec());
}

#[test]
fn node_report_of_nothing_is_empty() {
    let out = write_node_dependencies_to_file(&Vec::new());
    assert!(out.is_empty());
}

#[test]
fn ios_report_renders_name_and_path() {
    let deps = parse_podlock(&b"DEPENDENCIES:\n  - A (1.0)\n  - B (~> 2)\n".to_vec()).unwrap();
    let out = write_ios_dependencies_to_file(&deps);
    assert_eq!(out, b"A\t\nB\t./Pods\n".to_vec());
}

#[test]
fn android_report_is_empty() {
    assert!(write_android_dependencies_to_file().is_empty());
}

#[test]
fn located_paths_pin_each_managers_lockfile() {
    let root = b"/r".to_vec();
    let one = |m: ManagersArgs| located_lockfile_paths(m, &root, true);
    assert_eq!(one(ManagersArgs::NPM), vec![b"/r/package-lock.json".to_vec()]);
    assert_eq!(one(ManagersArgs::YARN), vec![b"/r/yarn.lock".to_vec()]);
    assert_eq!(one(ManagersArgs::PNPM), vec![b"/r/pnpm-lock.yaml".to_vec()]);
    assert_eq!(one(ManagersArgs::IOS), vec![b"/r/ios/Podfile.lock".to_vec()]);
    assert_eq!(
        one(ManagersArgs::ANDROID),
        vec![b"/r/android/build.gradle".to_vec()]
    );
    assert!(located_lockfile_paths(ManagersArgs::NPM, &root, false).is_empty());
}

#[test]
fn license_url_follows_first_positive_probe() {
    let id = b"node_modules/x".to_vec();
    let r = license_url_from_probes(&id, &vec![false, false, true, false, false, true]);
    assert_eq!(r, b"node_modules/x/license.md".to_vec());
    let r = license_url_from_probes(&id, &vec![true, true, false, false, false, false]);
    assert_eq!(r, b"node_modules/x/LICENSE".to_vec());
    let r = license_url_from_probes(&id, &vec![false; 6]);
    assert!(r.is_empty());
}
