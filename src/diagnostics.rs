//! Choosing the diagnostics to show for an edited file, with their
//! positions.
use vstd::prelude::*;

use crate::position::{get_range_position, position_spec};
use crate::text::copy_string;
use crate::vpath::{FileId, FileIdView};
use crate::world::same_file;

verus! {

/// How serious a diagnostic is.
#[derive(Clone, Copy, Debug, PartialEq, Eq, Structural)]
pub enum DiagnosticSeverity {
    Error,
    Warning,
}

/// A diagnostic as the compiler reports it: the file its span lies in (if
/// any), the byte range the span resolves to in that file (if it does), and
/// its text.
pub struct RawDiagnostic {
    pub file: Option<FileId>,
    pub range: Option<(usize, usize)>,
    pub severity: DiagnosticSeverity,
    pub message: String,
    pub hints: Vec<String>,
}

/// A diagnostic of the edited file, placed for display.
pub struct TypstSourceDiagnostic {
    /// The (line, column) of the range's start.
    pub pos: (usize, usize),
    pub range: (usize, usize),
    pub severity: DiagnosticSeverity,
    pub message: String,
    pub hints: Vec<String>,
}

/// The mathematical value of a placed diagnostic.
pub struct DiagnosticView {
    pub pos: (int, int),
    pub range: (usize, usize),
    pub severity: DiagnosticSeverity,
    pub message: Seq<char>,
    pub hints: Seq<Seq<char>>,
}

impl View for TypstSourceDiagnostic {
    type V = DiagnosticView;

    open spec fn view(&self) -> DiagnosticView {
        DiagnosticView {
            pos: (self.pos.0 as int, self.pos.1 as int),
            range: self.range,
            severity: self.severity,
            message: self.message@,
            hints: self.hints@.map_values(|h: String| h@),
        }
    }
}

/// Whether a diagnostic is shown for file `id`: its span lies in that file
/// and resolves to a range.
pub open spec fn shown_for(d: RawDiagnostic, id: FileIdView) -> bool {
    &&& d.file matches Some(f) && f@ == id
    &&& d.range is Some
}

/// How a shown diagnostic is placed in the edited file's text `content`.
pub open spec fn placed(d: RawDiagnostic, content: Seq<char>) -> DiagnosticView {
    DiagnosticView {
        pos: position_spec(content, d.range->Some_0.0 as int),
        range: d.range->Some_0,
        severity: d.severity,
        message: d.message@,
        hints: d.hints@.map_values(|h: String| h@),
    }
}

/// The diagnostics shown for file `id`, in order, placed in `content`.
pub open spec fn shown_spec(ds: Seq<RawDiagnostic>, id: FileIdView, content: Seq<char>) -> Seq<
    DiagnosticView,
>
    decreases ds.len(),
{
    if ds.len() == 0 {
        Seq::empty()
    } else {
        let rest = shown_spec(ds.drop_last(), id, content);
        if shown_for(ds.last(), id) {
            rest.push(placed(ds.last(), content))
        } else {
            rest
        }
    }
}

fn copy_strings(v: &Vec<String>) -> (r: Vec<String>)
    ensures
        r@.map_values(|h: String| h@) == v@.map_values(|h: String| h@),
{
    let mut out: Vec<String> = Vec::new();
    let mut i: usize = 0;
    while i < v.len()
        invariant
            i <= v@.len(),
            out@.map_values(|h: String| h@) == v@.map_values(|h: String| h@).subrange(0, i as int),
        decreases v@.len() - i,
    {
        let ghost before = out@.map_values(|h: String| h@);
        out.push(copy_string(&v[i]));
        assert(out@.map_values(|h: String| h@) =~= before.push(v@[i as int]@));
        i = i + 1;
        assert(out@.map_values(|h: String| h@) =~= v@.map_values(|h: String| h@).subrange(
            0,
            i as int,
        ));
    }
    assert(v@.map_values(|h: String| h@).subrange(0, v@.len() as int) =~= v@.map_values(
        |h: String| h@,
    ));
    out
}

/// The diagnostics to show for the edited file `source_id`, whose text is
/// `content`: those whose span lies in it and resolves to a range, in order,
/// each with the (line, column) of its range's start.
pub fn diagnostics_for(ds: &Vec<RawDiagnostic>, source_id: &FileId, content: &str) -> (r: Vec<
    TypstSourceDiagnostic,
>)
    ensures
        r@.map_values(|d: TypstSourceDiagnostic| d@) == shown_spec(ds@, source_id@, content@),
{
    let mut out: Vec<TypstSourceDiagnostic> = Vec::new();
    let mut i: usize = 0;
    while i < ds.len()
        invariant
            i <= ds@.len(),
            out@.map_values(|d: TypstSourceDiagnostic| d@) == shown_spec(
                ds@.subrange(0, i as int),
                source_id@,
                content@,
            ),
        decreases ds@.len() - i,
    {
        let d = &ds[i];
        let ghost before = out@.map_values(|d: TypstSourceDiagnostic| d@);
        assert(ds@.subrange(0, i + 1).drop_last() =~= ds@.subrange(0, i as int));
        let in_file = match &d.file {
            Some(f) => same_file(f, source_id),
            None => false,
        };
        if in_file {
            match d.range {
                Some((start, end)) => {
                    let pos = get_range_position(content, start..end);
                    out.push(
                        TypstSourceDiagnostic {
                            pos,
                            range: (start, end),
                            severity: d.severity,
                            message: copy_string(&d.message),
                            hints: copy_strings(&d.hints),
                        },
                    );
                    assert(out@.map_values(|d: TypstSourceDiagnostic| d@) =~= before.push(
                        placed(*d, content@),
                    ));
                },
                None => {},
            }
        }
        i = i + 1;
    }
    assert(ds@.subrange(0, ds@.len() as int) =~= ds@);
    out
}

} // verus!
