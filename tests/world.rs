use typster_core::completion::TypstCompletionKind;
use typster_core::error::{FileError, WorldCreationError};
use typster_core::listing::{sort_file_items, FileItem, FileType};
use typster_core::project::{is_project_config_file, DiagnosticFormat, ProjectCache, ProjectConfig};
use typster_core::vpath::{FileId, VirtualPath};
use typster_core::world::{Date, MainState, Now, ProjectWorld};

fn disk(path: &str) -> Result<Vec<u8>, FileError> {
    match path {
        "/proj/main.typ" => Ok(b"= Disk".to_vec()),
        _ => Err(FileError::NotFound(path.to_string())),
    }
}

fn world() -> ProjectWorld {
    ProjectWorld::new("/proj".to_string(), "/proj/main.typ", None).ok().unwrap()
}

#[test]
fn new_world_designates_main_inside_root() {
    let w = world();
    assert_eq!(w.main.vpath.components, vec!["main.typ".to_string()]);
    assert_eq!(w.main_state, MainState::Designated);
    assert!(!w.is_main_set());
    assert!(matches!(
        ProjectWorld::new("/proj".to_string(), "/elsewhere/main.typ", None),
        Err(WorldCreationError::InputOutsideRoot)
    ));
}

#[test]
fn update_before_first_read_is_dropped() {
    let mut w = world();
    let id = w.slot_update("main.typ", Some("= Pushed".to_string()), disk).ok().unwrap();
    assert_eq!(id.vpath.components, vec!["main.typ".to_string()]);
    let text = w.source(FileId::new(None, VirtualPath::new("main.typ")), || disk("/proj/main.typ"));
    assert_eq!(text.ok(), Some("= Disk".to_string()));
}

#[test]
fn update_after_read_replaces_content() {
    let mut w = world();
    let main = || FileId::new(None, VirtualPath::new("main.typ"));
    let _ = w.source(main(), || disk("/proj/main.typ"));
    let _ = w.file(main(), || disk("/proj/main.typ"));
    w.slot_update("main.typ", Some("= Pushed".to_string()), disk).ok().unwrap();
    let text = w.source(main(), || disk("/proj/main.typ"));
    assert_eq!(text.ok(), Some("= Pushed".to_string()));
    let bytes = w.file(main(), || disk("/proj/main.typ"));
    assert_eq!(bytes.ok(), Some(b"= Pushed".to_vec()));
    w.reset();
    let text = w.source(main(), || disk("/proj/main.typ"));
    assert_eq!(text.ok(), Some("= Pushed".to_string()));
}

#[test]
fn update_without_content_rereads_disk() {
    let mut w = world();
    let main = || FileId::new(None, VirtualPath::new("main.typ"));
    let _ = w.source(main(), || Ok(b"= Old".to_vec()));
    w.slot_update("main.typ", None, disk).ok().unwrap();
    let text = w.source(main(), || Ok(b"= Old".to_vec()));
    assert_eq!(text.ok(), Some("= Disk".to_string()));
}

#[test]
fn main_is_set_only_after_it_was_read() {
    let mut w = world();
    assert!(!w.check_main(|| Err(FileError::NotFound("/proj/main.typ".to_string()))));
    assert!(!w.is_main_set());
    w.reset();
    assert!(w.check_main(|| disk("/proj/main.typ")));
    assert!(w.is_main_set());
    w.set_main_path(VirtualPath::new("other.typ"));
    assert!(!w.is_main_set());
    assert_eq!(w.main.vpath.components, vec!["other.typ".to_string()]);
}

#[test]
fn today_uses_fixed_clock_and_offset() {
    let mut w = world();
    w.now = Now::Fixed(1_700_000_000);
    assert_eq!(w.today(Some(0)), Some(Date { year: 2023, month: 11, day: 14 }));
    assert_eq!(w.today(Some(10)), Some(Date { year: 2023, month: 11, day: 15 }));
    assert_eq!(w.today(Some(-23)), Some(Date { year: 2023, month: 11, day: 13 }));
    assert_eq!(w.today(Some(24)), None);
    assert_eq!(w.today(Some(i64::MAX)), None);
    assert_eq!(w.now, Now::Fixed(1_700_000_000));
}

#[test]
fn system_clock_is_captured_once_per_pass() {
    let mut w = world();
    let _ = w.today(Some(0));
    let first = w.now;
    assert!(matches!(first, Now::System(Some(_))));
    let _ = w.today(None);
    assert_eq!(w.now, first);
    w.reset();
    assert_eq!(w.now, Now::System(None));
    assert!(w.packages().is_empty());
}

#[test]
fn config_applies_main_or_reports_not_source() {
    let mut w = world();
    let cfg = ProjectConfig::for_directory("/proj", 5);
    assert_eq!(cfg.main.as_deref(), Some("/proj/main.typ"));
    assert_eq!(cfg.root.as_deref(), Some("/proj"));
    assert_eq!(cfg.creation_timestamp, Some(5));
    let mut rel = ProjectConfig::for_directory("/proj", 5);
    rel.main = Some("chapters/one.typ".to_string());
    assert!(rel.apply_main(&mut w).is_ok());
    assert_eq!(w.main.vpath.components, vec!["chapters".to_string(), "one.typ".to_string()]);
    let mut none = ProjectConfig::for_directory("/proj", 5);
    none.main = None;
    assert!(matches!(none.apply_main(&mut w), Err(FileError::NotSource)));
}

#[test]
fn config_file_is_recognised() {
    assert!(is_project_config_file(".typster/project.json"));
    assert!(!is_project_config_file(".typster/project.json5"));
    assert!(!is_project_config_file("project.json"));
    assert_eq!(DiagnosticFormat::Human.name(), "human");
    assert_eq!(DiagnosticFormat::Short.name(), "short");
    let cache: ProjectCache<u32> = ProjectCache::new();
    assert!(cache.document.is_none());
    assert_eq!(TypstCompletionKind::Syntax.code(), 1);
    assert_eq!(TypstCompletionKind::Type.code(), 6);
}

#[test]
fn listing_puts_directories_first_then_names() {
    let items = vec![
        FileItem { name: "b.typ".to_string(), file_type: FileType::File },
        FileItem { name: "z".to_string(), file_type: FileType::Directory },
        FileItem { name: "a.typ".to_string(), file_type: FileType::File },
        FileItem { name: "assets".to_string(), file_type: FileType::Directory },
        FileItem { name: "B.typ".to_string(), file_type: FileType::File },
    ];
    let sorted = sort_file_items(items);
    let names: Vec<&str> = sorted.iter().map(|i| i.name.as_str()).collect();
    assert_eq!(names, vec!["assets", "z", "B.typ", "a.typ", "b.typ"]);
}

#[test]
fn world_without_main_is_not_ready_until_designated() {
    let mut w = ProjectWorld::without_main("/proj".to_string());
    assert_eq!(w.main_state, MainState::Unset);
    assert!(!w.check_main(|| disk("/proj/main.typ")));
    assert_eq!(w.main_state, MainState::Unset);
    w.set_main_path(VirtualPath::new("main.typ"));
    assert!(w.check_main(|| disk("/proj/main.typ")));
    assert!(w.is_main_set());
}

#[test]
fn world_creation_errors_read_as_sentences() {
    assert_eq!(
        WorldCreationError::InputNotFound("/p/main.typ".to_string()).message(),
        "input file not found (searched at /p/main.typ)"
    );
    assert_eq!(
        WorldCreationError::InputOutsideRoot.message(),
        "source file must be contained in project root"
    );
    assert_eq!(
        WorldCreationError::RootNotFound("/p".to_string()).message(),
        "root directory not found (searched at /p)"
    );
    assert_eq!(WorldCreationError::Io("disk full".to_string()).message(), "disk full");
}

#[test]
fn default_config_has_no_paths() {
    let c = ProjectConfig::default();
    assert!(c.main.is_none() && c.input.is_none() && c.root.is_none());
    assert!(c.creation_timestamp.is_some());
    assert_eq!(c.diagnostic_format, DiagnosticFormat::Human);
}

#[test]
fn configured_time_fixes_the_clock() {
    let mut w = ProjectWorld::new("/proj".to_string(), "/proj/main.typ", Some(1_700_000_000))
        .ok()
        .unwrap();
    assert_eq!(w.now, Now::Fixed(1_700_000_000));
    assert_eq!(w.today(Some(0)), Some(Date { year: 2023, month: 11, day: 14 }));
    w.reset();
    assert_eq!(w.now, Now::Fixed(1_700_000_000));
}

#[test]
fn failed_reread_keeps_the_cached_text() {
    let mut w = world();
    let main = || FileId::new(None, VirtualPath::new("main.typ"));
    let _ = w.source(main(), || Ok(b"= Old".to_vec()));
    w.slot_update("main.typ", None, |_: &str| Err(FileError::AccessDenied)).ok().unwrap();
    let text = w.source(main(), || Ok(b"= Old".to_vec()));
    assert_eq!(text.ok(), Some("= Old".to_string()));
}

#[test]
fn main_stops_being_ready_when_its_text_fails() {
    let mut w = world();
    assert!(w.check_main(|| disk("/proj/main.typ")));
    assert!(w.is_main_set());
    w.reset();
    let _ = w.source(FileId::new(None, VirtualPath::new("main.typ")), || Err(FileError::AccessDenied));
    assert!(!w.is_main_set());
}

#[test]
fn local_date_exists_for_ordinary_times() {
    let mut w = world();
    w.now = Now::Fixed(1_700_000_000);
    let d = w.today(None).unwrap();
    assert_eq!(d.year, 2023);
    assert_eq!(d.month, 11);
    assert!(d.day == 14 || d.day == 15);
}
