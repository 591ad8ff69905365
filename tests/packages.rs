use typster_core::error::{PackageError, PackageSpec};
use typster_core::package::{
    after_fetch, after_unpack, download_error, is_fetchable, locate_package, package_dir,
    package_url, Candidate, PackageLocation, UnpackStep,
};

fn spec(ns: &str) -> PackageSpec {
    PackageSpec {
        namespace: ns.to_string(),
        name: "cetz".to_string(),
        major: 0,
        minor: 12,
        patch: 3,
    }
}

fn cand(dir: &str, exists: bool) -> Option<Candidate> {
    Some(Candidate { dir: dir.to_string(), exists })
}

#[test]
fn coordinates_format_to_dirs_and_urls() {
    let s = spec("preview");
    assert_eq!(s.version_string(), "0.12.3");
    assert_eq!(
        package_dir("/data", &s),
        "/data/typst/packages/preview/cetz/0.12.3"
    );
    assert_eq!(
        package_url(&s),
        "https://packages.typst.org/preview/cetz-0.12.3.tar.gz"
    );
    assert!(is_fetchable(&s));
    assert!(!is_fetchable(&spec("local")));
}

#[test]
fn primary_directory_wins_without_fetch() {
    let r = locate_package(&spec("preview"), cand("/data/p", true), cand("/cache/p", true));
    assert!(matches!(r, Ok(PackageLocation::Local(ref d)) if d == "/data/p"));
    let r = locate_package(&spec("preview"), cand("/data/p", true), cand("/cache/p", false));
    assert!(matches!(r, Ok(PackageLocation::Local(ref d)) if d == "/data/p"));
}

#[test]
fn secondary_then_fetch_then_not_found() {
    let r = locate_package(&spec("preview"), cand("/data/p", false), cand("/cache/p", true));
    assert!(matches!(r, Ok(PackageLocation::Local(ref d)) if d == "/cache/p"));
    let r = locate_package(&spec("preview"), cand("/data/p", false), cand("/cache/p", false));
    assert!(matches!(r, Ok(PackageLocation::Fetch(ref d)) if d == "/cache/p"));
    let r = locate_package(&spec("local"), cand("/data/p", false), cand("/cache/p", false));
    assert!(matches!(r, Err(PackageError::NotFound(ref s)) if s.namespace == "local"));
    let r = locate_package(&spec("preview"), None, None);
    assert!(matches!(r, Err(PackageError::NotFound(_))));
}

#[test]
fn download_errors_map_status() {
    assert!(matches!(
        download_error(&spec("preview"), Some(404), "gone".to_string()),
        PackageError::NotFound(_)
    ));
    assert!(matches!(
        download_error(&spec("preview"), Some(500), "boom".to_string()),
        PackageError::NetworkFailed(Some(ref m)) if m == "boom"
    ));
    assert!(matches!(
        download_error(&spec("preview"), None, "dns".to_string()),
        PackageError::NetworkFailed(Some(ref m)) if m == "dns"
    ));
}

#[test]
fn failed_unpack_asks_for_cleanup() {
    assert!(matches!(after_unpack(Ok(())), UnpackStep::Done));
    assert!(matches!(
        after_unpack(Err("bad header".to_string())),
        UnpackStep::CleanUpAndFail(PackageError::MalformedArchive(Some(ref m))) if m == "bad header"
    ));
}

#[test]
fn fetch_result_checks_the_directory() {
    let s = spec("preview");
    assert_eq!(after_fetch(&s, "/c/p".to_string(), Ok(()), true).ok(), Some("/c/p".to_string()));
    assert!(matches!(
        after_fetch(&s, "/c/p".to_string(), Ok(()), false),
        Err(PackageError::NotFound(_))
    ));
    assert!(matches!(
        after_fetch(&s, "/c/p".to_string(), Err(PackageError::MalformedArchive(None)), true),
        Err(PackageError::MalformedArchive(None))
    ));
}
