use typster_core::diagnostics::{diagnostics_for, DiagnosticSeverity, RawDiagnostic};
use typster_core::vpath::{FileId, VirtualPath};

fn id(p: &str) -> FileId {
    FileId::new(None, VirtualPath::new(p))
}

fn raw(file: Option<FileId>, range: Option<(usize, usize)>, msg: &str) -> RawDiagnostic {
    RawDiagnostic {
        file,
        range,
        severity: DiagnosticSeverity::Error,
        message: msg.to_string(),
        hints: vec![format!("hint for {msg}")],
    }
}

#[test]
fn only_resolved_diagnostics_of_the_edited_file_are_kept() {
    let ds = vec![
        raw(Some(id("main.typ")), Some((7, 8)), "first"),
        raw(Some(id("other.typ")), Some((0, 1)), "elsewhere"),
        raw(None, Some((0, 1)), "detached"),
        raw(Some(id("main.typ")), None, "unresolved"),
        raw(Some(id("main.typ")), Some((0, 1)), "second"),
    ];
    let shown = diagnostics_for(&ds, &id("main.typ"), "a\nbb\nccc");
    let msgs: Vec<&str> = shown.iter().map(|d| d.message.as_str()).collect();
    assert_eq!(msgs, vec!["first", "second"]);
    assert_eq!(shown[0].pos, (3, 2));
    assert_eq!(shown[0].range, (7, 8));
    assert_eq!(shown[0].hints, vec!["hint for first".to_string()]);
    assert_eq!(shown[1].pos, (1, 0));
    assert_eq!(shown[1].severity, DiagnosticSeverity::Error);
}
