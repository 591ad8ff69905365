use typster_core::error::{FileError, PackageError, PackageSpec};
use typster_core::vpath::{FileId, VirtualPath};
use typster_core::world::{system_path, within_root};

fn spec(ns: &str) -> PackageSpec {
    PackageSpec {
        namespace: ns.to_string(),
        name: "cetz".to_string(),
        major: 0,
        minor: 3,
        patch: 1,
    }
}

#[test]
fn virtual_path_normalizes_segments() {
    let v = VirtualPath::new("/a/./b/../c.typ");
    assert_eq!(v.components, vec!["a".to_string(), "c.typ".to_string()]);
    assert_eq!(v.resolve("/root"), Some("/root/a/c.typ".to_string()));
    assert_eq!(VirtualPath::new("").components, Vec::<String>::new());
    assert_eq!(VirtualPath::new("a/..").resolve("/r"), Some("/r".to_string()));
}

#[test]
fn escaping_path_is_denied_for_any_root() {
    for root in ["/home/user/project", "/", "", "relative/dir"] {
        let v = VirtualPath::new("../../etc/passwd");
        assert_eq!(v.resolve(root), None);
        let id = FileId::new(None, VirtualPath::new("../../etc/passwd"));
        assert!(matches!(system_path(root, &id, None), Err(FileError::AccessDenied)));
    }
    assert_eq!(VirtualPath::new("a/../../x").resolve("/r"), None);
}

#[test]
fn package_files_resolve_under_package_dir() {
    let id = FileId::new(Some(spec("preview")), VirtualPath::new("lib.typ"));
    let r = system_path("/proj", &id, Some(Ok("/cache/cetz".to_string())));
    assert_eq!(r.ok(), Some("/cache/cetz/lib.typ".to_string()));
    let e = system_path(
        "/proj",
        &id,
        Some(Err(PackageError::NetworkFailed(Some("down".to_string())))),
    );
    assert!(matches!(e, Err(FileError::Package(PackageError::NetworkFailed(_)))));
}

#[test]
fn within_root_strips_the_root() {
    assert_eq!(within_root("/p/main.typ", "/p"), Some("/main.typ".to_string()));
    assert_eq!(within_root("/p/main.typ", "/p/"), Some("main.typ".to_string()));
    assert_eq!(within_root("/pq/main.typ", "/p"), None);
    assert_eq!(within_root("/other/main.typ", "/p"), None);
}
