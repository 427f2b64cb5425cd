use swc_plugin_build::cargo::{
    build_dir, get_all_crates, get_cargo_manifest_path, manifest_dir, pkgs_dir, swc_output_dir, PackageEntry,
};
use swc_plugin_build::copy_stage::{
    artifact_file_name, collect_outcomes, plan_copies, BuildArtifact, CopyFailure, CopyPlanError,
};
use swc_plugin_build::layout::{extension, file_name, join, last_index};
use swc_plugin_build::package_stage::{package_file_name, package_step, PackageError, PackageOutcome};
use swc_plugin_build::platform::{host_triple, name_token, PlatformDetail, PlatformError};
use swc_plugin_build::upgrade_deps::UpgradeDepsCommand;

fn linux() -> PlatformDetail {
    PlatformDetail::new(
        "x86_64-unknown-linux-gnu".to_string(),
        "x86_64-unknown-linux-gnu".to_string(),
        "x86_64-unknown-linux-gnu".to_string(),
    )
    .unwrap()
}

fn artifact(name: &str, path: &str) -> BuildArtifact {
    BuildArtifact { crate_name: name.to_string(), artifact_path: path.to_string() }
}

#[test]
fn two_artifacts_get_platform_tagged_names() {
    let arts = vec![artifact("foo", "/tmp/libfoo.so"), artifact("bar", "/tmp/libbar.so")];
    let jobs = plan_copies(&arts, &linux(), "/work/target/.swc/build").unwrap();
    assert_eq!(jobs.len(), 2);
    assert_eq!(jobs[0].crate_name, "foo");
    assert_eq!(jobs[0].source, "/tmp/libfoo.so");
    assert_eq!(jobs[0].destination, "/work/target/.swc/build/foo.x86_64-unknown-linux-gnu.so");
    assert_eq!(jobs[1].destination, "/work/target/.swc/build/bar.x86_64-unknown-linux-gnu.so");
}

#[test]
fn planning_twice_gives_same_destinations() {
    let arts = vec![artifact("foo", "/tmp/libfoo.so"), artifact("bar", "/tmp/libbar.dylib")];
    let first = plan_copies(&arts, &linux(), "out").unwrap();
    let second = plan_copies(&arts, &linux(), "out").unwrap();
    assert_eq!(first, second);
    assert_eq!(first[1].destination, "out/bar.x86_64-unknown-linux-gnu.dylib");
}

#[test]
fn repeated_crate_shares_one_destination() {
    let arts = vec![artifact("foo", "/a/libfoo.so"), artifact("foo", "/b/libfoo.so")];
    let jobs = plan_copies(&arts, &linux(), "d/").unwrap();
    assert_eq!(jobs[0].destination, "d/foo.x86_64-unknown-linux-gnu.so");
    assert_eq!(jobs[0].destination, jobs[1].destination);
    let names = collect_outcomes(&arts, &vec![None, None]).unwrap();
    assert_eq!(names, vec!["foo".to_string()]);
}

#[test]
fn artifact_without_extension_is_refused() {
    let arts = vec![artifact("foo", "/tmp/libfoo.so"), artifact("bar", "/tmp/libbar"), artifact("baz", "/tmp/.hidden")];
    let err = plan_copies(&arts, &linux(), "d").unwrap_err();
    assert_eq!(
        err,
        CopyPlanError::MissingExtension { crate_name: "bar".to_string(), artifact_path: "/tmp/libbar".to_string() }
    );
}

#[test]
fn all_copies_succeed_gives_names_in_first_seen_order() {
    let arts = vec![artifact("b", "/x/b.so"), artifact("a", "/x/a.so"), artifact("b", "/y/b.so")];
    let names = collect_outcomes(&arts, &vec![None, None, None]).unwrap();
    assert_eq!(names, vec!["b".to_string(), "a".to_string()]);
}

#[test]
fn missing_artifact_is_reported_by_crate_name() {
    let arts = vec![artifact("foo", "/tmp/libfoo.so"), artifact("bar", "/tmp/libbar.so")];
    let err = collect_outcomes(&arts, &vec![Some("No such file or directory".to_string()), None]).unwrap_err();
    assert_eq!(
        err.failures,
        vec![CopyFailure {
            crate_name: "foo".to_string(),
            artifact_path: "/tmp/libfoo.so".to_string(),
            cause: "No such file or directory".to_string(),
        }]
    );
}

#[test]
fn every_failure_is_reported_in_order() {
    let arts = vec![artifact("a", "/a.so"), artifact("b", "/b.so"), artifact("c", "/c.so")];
    let err = collect_outcomes(&arts, &vec![Some("e1".to_string()), None, Some("e3".to_string())]).unwrap_err();
    assert_eq!(err.failures.len(), 2);
    assert_eq!(err.failures[0].crate_name, "a");
    assert_eq!(err.failures[1].crate_name, "c");
    assert_eq!(err.failures[1].cause, "e3");
}

#[test]
fn empty_inventory_succeeds_with_no_names() {
    let arts: Vec<BuildArtifact> = vec![];
    assert_eq!(plan_copies(&arts, &linux(), "d").unwrap(), vec![]);
    assert_eq!(collect_outcomes(&arts, &vec![]).unwrap(), Vec::<String>::new());
}

#[test]
fn package_file_gets_canonical_name() {
    let outcome = PackageOutcome::Archived {
        package_dir: "/t/.swc/pkgs/foo".to_string(),
        archive_path: "/t/.swc/pkgs/foo/foo-0.1.0.tgz".to_string(),
    };
    let r = package_step("foo", &linux(), "/home/me/foo", outcome).unwrap();
    assert_eq!(r.crate_name, "foo");
    assert_eq!(r.package_dir, "/t/.swc/pkgs/foo");
    assert_eq!(r.archive_path, "/t/.swc/pkgs/foo/foo-0.1.0.tgz");
    assert_eq!(r.final_path, "/home/me/foo/foo.x86_64-unknown-linux-gnu.swc-pkg.tgz");
}

#[test]
fn package_name_uses_display_form() {
    let p = PlatformDetail::new("aarch64-apple-darwin".to_string(), "arm64".to_string(), "darwin-arm64".to_string()).unwrap();
    assert_eq!(package_file_name("foo", &p, "gz"), "foo.darwin-arm64.swc-pkg.gz");
    assert_eq!(artifact_file_name("foo", &p, "dylib"), "foo.arm64.dylib");
}

#[test]
fn archive_without_extension_is_malformed() {
    let outcome = PackageOutcome::Archived { package_dir: "p".to_string(), archive_path: "p/foo".to_string() };
    let err = package_step("foo", &linux(), ".", outcome).unwrap_err();
    assert_eq!(err, PackageError::MalformedArchiveName { crate_name: "foo".to_string(), archive_path: "p/foo".to_string() });
}

#[test]
fn package_directory_failure_names_crate() {
    let err = package_step("foo", &linux(), ".", PackageOutcome::DirectoryFailed { cause: "boom".to_string() }).unwrap_err();
    assert_eq!(err, PackageError::PackageDirectoryFailed { crate_name: "foo".to_string(), cause: "boom".to_string() });
}

#[test]
fn archive_failure_names_crate() {
    let outcome = PackageOutcome::ArchiveFailed { package_dir: "p".to_string(), cause: "npm".to_string() };
    let err = package_step("bar", &linux(), ".", outcome).unwrap_err();
    assert_eq!(err, PackageError::ArchiveCreationFailed { crate_name: "bar".to_string(), cause: "npm".to_string() });
}

#[test]
fn host_line_is_found() {
    let report = "rustc 1.70.0 (90c541806 2023-05-31)\nbinary: rustc\r\nhost: x86_64-unknown-linux-gnu\r\nrelease: 1.70.0\n";
    assert_eq!(host_triple(report).unwrap(), "x86_64-unknown-linux-gnu");
    assert_eq!(host_triple("host: aarch64-apple-darwin").unwrap(), "aarch64-apple-darwin");
}

#[test]
fn missing_host_line_is_an_error() {
    assert_eq!(host_triple("rustc 1.70.0\nrelease: 1.70.0\n"), Err(PlatformError::MissingHostField));
    assert_eq!(host_triple(""), Err(PlatformError::MissingHostField));
    assert_eq!(host_triple("  host: x\nhost:y"), Err(PlatformError::MissingHostField));
}

#[test]
fn unsafe_platform_tag_is_invalid() {
    let r = PlatformDetail::new("a/b".to_string(), "a/b".to_string(), "ab".to_string());
    assert_eq!(r.unwrap_err(), PlatformError::InvalidPlatform { triple: "a/b".to_string() });
    assert!(PlatformDetail::new("x".to_string(), "".to_string(), "x".to_string()).is_err());
    assert!(!name_token(".."));
    assert!(!name_token("."));
    assert!(name_token("x86_64"));
}

#[test]
fn platform_detail_keeps_its_parts() {
    let p = linux();
    assert_eq!(p.raw_triple(), "x86_64-unknown-linux-gnu");
    assert_eq!(p.arch_abi_tag(), "x86_64-unknown-linux-gnu");
    assert_eq!(p.display_form(), "x86_64-unknown-linux-gnu");
}

#[test]
fn path_helpers() {
    assert_eq!(extension("/a/b.c/file"), None);
    assert_eq!(extension("/a/lib.tar.gz"), Some("gz".to_string()));
    assert_eq!(extension("/a/file."), Some("".to_string()));
    assert_eq!(extension(".."), None);
    assert_eq!(file_name("/a/b/c.so"), "c.so");
    assert_eq!(file_name("c.so"), "c.so");
    assert_eq!(join("", "x"), "x");
    assert_eq!(join("a/", "x"), "a/x");
    assert_eq!(join("a", "x"), "a/x");
    assert_eq!(last_index("abca", 'a'), Some(3));
    assert_eq!(last_index("bc", 'a'), None);
}

#[test]
fn output_directories() {
    let base = swc_output_dir("/work/target");
    assert_eq!(base, "/work/target/.swc");
    assert_eq!(build_dir(&base), "/work/target/.swc/build");
    assert_eq!(pkgs_dir(&base), "/work/target/.swc/pkgs");
}

#[test]
fn workspace_members_are_selected() {
    let pkgs = vec![
        PackageEntry { id: "a 0.1".to_string(), name: "a".to_string(), manifest_path: "/w/a/Cargo.toml".to_string() },
        PackageEntry { id: "dep 1.0".to_string(), name: "dep".to_string(), manifest_path: "/reg/dep/Cargo.toml".to_string() },
        PackageEntry { id: "b 0.1".to_string(), name: "b".to_string(), manifest_path: "/Cargo.toml".to_string() },
    ];
    let members = vec!["b 0.1".to_string(), "a 0.1".to_string()];
    let r = get_all_crates(&pkgs, &members);
    assert_eq!(r, vec![("a".to_string(), "/w/a".to_string()), ("b".to_string(), "/".to_string())]);
    assert_eq!(manifest_dir("Cargo.toml"), "");
}

#[test]
fn upgrade_covers_plugin_crates() {
    let reqs = UpgradeDepsCommand { workspace: true }.run();
    let names: Vec<&str> = reqs.iter().map(|r| r.crate_name.as_str()).collect();
    assert_eq!(names, vec!["swc_atoms", "swc_common", "swc_plugin"]);
    assert!(reqs.iter().all(|r| r.workspace));
    assert!(UpgradeDepsCommand { workspace: false }.run().iter().all(|r| !r.workspace));
}

#[test]
fn manifest_path_of_named_package() {
    let pkgs = vec![
        PackageEntry { id: "a 0.1".to_string(), name: "a".to_string(), manifest_path: "/w/a/Cargo.toml".to_string() },
        PackageEntry { id: "b 0.1".to_string(), name: "b".to_string(), manifest_path: "/w/b/Cargo.toml".to_string() },
        PackageEntry { id: "b 0.2".to_string(), name: "b".to_string(), manifest_path: "/x/b/Cargo.toml".to_string() },
    ];
    assert_eq!(get_cargo_manifest_path(&pkgs, "b"), Some("/w/b/Cargo.toml".to_string()));
    assert_eq!(get_cargo_manifest_path(&pkgs, "c"), None);
}
