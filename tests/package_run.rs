use swc_plugin_build::package_stage::{archive_extension, package_step, PackageError, PackageOutcome, PackageRun};
use swc_plugin_build::platform::PlatformDetail;

fn linux() -> PlatformDetail {
    PlatformDetail::new(
        "x86_64-unknown-linux-gnu".to_string(),
        "x86_64-unknown-linux-gnu".to_string(),
        "x86_64-unknown-linux-gnu".to_string(),
    )
    .unwrap()
}

fn archived(name: &str) -> PackageOutcome {
    PackageOutcome::Archived {
        package_dir: format!("/t/.swc/pkgs/{}", name),
        archive_path: format!("/t/.swc/pkgs/{}/{}-0.1.0.tgz", name, name),
    }
}

#[test]
fn run_packages_every_crate_in_order() {
    let p = linux();
    let mut run = PackageRun::new(vec!["foo".to_string(), "bar".to_string()], &p, "/cwd");
    let mut finals = vec![];
    while let Some(name) = run.next_crate() {
        let res = run.archived(archived(&name)).unwrap();
        assert_eq!(run.next_crate(), None);
        finals.push(res.final_path.clone());
        run.copied(None);
    }
    let results = run.finish().unwrap();
    assert_eq!(results.len(), 2);
    assert_eq!(results[0].crate_name, "foo");
    assert_eq!(results[1].crate_name, "bar");
    assert_eq!(
        finals,
        vec![
            "/cwd/foo.x86_64-unknown-linux-gnu.swc-pkg.tgz".to_string(),
            "/cwd/bar.x86_64-unknown-linux-gnu.swc-pkg.tgz".to_string(),
        ]
    );
}

#[test]
fn run_stops_at_first_failing_crate() {
    let p = linux();
    let mut run = PackageRun::new(vec!["a".to_string(), "b".to_string(), "c".to_string()], &p, "/cwd");
    assert_eq!(run.next_crate(), Some("a".to_string()));
    assert!(run.archived(archived("a")).is_some());
    run.copied(None);
    assert_eq!(run.next_crate(), Some("b".to_string()));
    let r = run.archived(PackageOutcome::DirectoryFailed { cause: "no manifest".to_string() });
    assert!(r.is_none());
    assert_eq!(run.next_crate(), None);
    assert_eq!(
        run.finish().unwrap_err(),
        PackageError::PackageDirectoryFailed { crate_name: "b".to_string(), cause: "no manifest".to_string() }
    );
}

#[test]
fn failed_copy_stops_the_run() {
    let p = linux();
    let mut run = PackageRun::new(vec!["foo".to_string(), "bar".to_string()], &p, "/cwd");
    run.next_crate().unwrap();
    run.archived(archived("foo")).unwrap();
    run.copied(Some("permission denied".to_string()));
    assert_eq!(run.next_crate(), None);
    assert_eq!(
        run.finish().unwrap_err(),
        PackageError::ArchiveCopyFailed { crate_name: "foo".to_string(), cause: "permission denied".to_string() }
    );
}

#[test]
fn empty_run_finishes_with_nothing() {
    let run = PackageRun::new(vec![], &linux(), "/cwd");
    assert_eq!(run.next_crate(), None);
    assert_eq!(run.finish().unwrap(), vec![]);
}

#[test]
fn tar_gz_archive_keeps_double_extension() {
    let outcome = PackageOutcome::Archived {
        package_dir: "/t/.swc/pkgs/foo".to_string(),
        archive_path: "/t/.swc/pkgs/foo/foo.tar.gz".to_string(),
    };
    let r = package_step("foo", &linux(), "/cwd", outcome).unwrap();
    assert_eq!(r.final_path, "/cwd/foo.x86_64-unknown-linux-gnu.swc-pkg.tar.gz");
    assert_eq!(r.archive_path, "/t/.swc/pkgs/foo/foo.tar.gz");
}

#[test]
fn archive_extension_cases() {
    assert_eq!(archive_extension("/p/foo.tar.gz"), Some("tar.gz".to_string()));
    assert_eq!(archive_extension("/p/foo-0.1.0.tgz"), Some("tgz".to_string()));
    assert_eq!(archive_extension("/p/.tar.gz"), Some("gz".to_string()));
    assert_eq!(archive_extension("/p/foo.gz"), Some("gz".to_string()));
    assert_eq!(archive_extension("/p/foo"), None);
}

#[test]
fn run_names_tar_gz_packages_in_invocation_dir() {
    let p = linux();
    let mut run = PackageRun::new(vec!["foo".to_string()], &p, "/home/me/plugin");
    let name = run.next_crate().unwrap();
    let res = run
        .archived(PackageOutcome::Archived {
            package_dir: format!("/t/.swc/pkgs/{}", name),
            archive_path: format!("/t/.swc/pkgs/{}/{}.tar.gz", name, name),
        })
        .unwrap();
    assert_eq!(res.final_path, "/home/me/plugin/foo.x86_64-unknown-linux-gnu.swc-pkg.tar.gz");
    run.copied(None);
    assert_eq!(run.finish().unwrap()[0].final_path, "/home/me/plugin/foo.x86_64-unknown-linux-gnu.swc-pkg.tar.gz");
}
