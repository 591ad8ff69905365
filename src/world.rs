//! A project's virtual file system: the slot table, the compilation root,
//! and the clock that a compilation pass reads.
use vstd::prelude::*;

use chrono::Datelike;

use crate::cell::{
    text_of, decode_utf8, pass_hit, read_view, reset_view, result_view, text_outcome, CellView, FileSlot,
};
use crate::error::{FileError, FileErrorView, PackageError, PackageSpec};
use crate::export::ExportCache;
use crate::fingerprint::{fingerprint_of, raw_view};
use crate::vpath::{components_of, resolve_spec, FileId, FileIdView, VirtualPath};

verus! {

/// Whether the compilation root is known, and known to be readable.
#[derive(Clone, Copy, Debug, PartialEq, Eq, Structural)]
pub enum MainState {
    /// No root file has been designated.
    Unset,
    /// A root file is designated but has not been read successfully.
    Designated,
    /// The designated root file was read successfully.
    Verified,
}

/// The clock of a compilation pass, in seconds since the Unix epoch (UTC).
#[derive(Clone, Copy, Debug, PartialEq, Eq, Structural)]
pub enum Now {
    /// A fixed time, for reproducible output.
    Fixed(i64),
    /// The wall-clock time, captured at its first use in a pass.
    System(Option<i64>),
}

/// A calendar date.
#[derive(Clone, Copy, Debug, PartialEq, Eq, Structural)]
pub struct Date {
    pub year: i32,
    pub month: u8,
    pub day: u8,
}

/// Relies on chrono's `From<SystemTime> for DateTime<Utc>`: the wall-clock
/// time, in seconds since the Unix epoch (before it too); nothing is promised
/// of its value.
#[verifier::external_body]
pub(crate) fn utc_now_secs() -> (r: i64) {
    chrono::DateTime::<chrono::Utc>::from(std::time::SystemTime::now()).timestamp()
}

/// The (year, month, day) at `secs` seconds after the epoch, shifted by
/// `offset` seconds east of UTC.
pub uninterp spec fn offset_date(secs: i64, offset: i32) -> Option<(i32, u32, u32)>;

/// Relies on chrono's `FixedOffset::east_opt` (which refuses offsets of a day
/// or more), `DateTime::from_timestamp` and `with_timezone`: the calendar
/// date at a time and a fixed offset, a function of the two alone.
#[verifier::external_body]
fn date_at_offset(secs: i64, offset: i32) -> (r: Option<(i32, u32, u32)>)
    ensures
        r == offset_date(secs, offset),
        !(-86400 < offset < 86400) ==> r is None,
{
    let off = chrono::FixedOffset::east_opt(offset)?;
    let t = chrono::DateTime::from_timestamp(secs, 0)?.with_timezone(&off);
    Some((t.year(), t.month(), t.day()))
}

/// Relies on chrono's `DateTime::from_timestamp` and `Local`: the calendar
/// date at a time in the machine's time zone (an offset of less than a day).
/// Every time from about year -7500 to 9890 has a date, with a month of 1 to
/// 12 and a day of 1 to 31, as `Datelike` documents.
#[verifier::external_body]
fn local_date(secs: i64) -> (r: Option<(i32, u32, u32)>)
    ensures
        -300_000_000_000 <= secs <= 250_000_000_000 ==> r is Some && -9999 <= r->Some_0.0 <= 9999
            && 1 <= r->Some_0.1 <= 12 && 1 <= r->Some_0.2 <= 31,
{
    let t = chrono::DateTime::from_timestamp(secs, 0)?.with_timezone(&chrono::Local);
    Some((t.year(), t.month(), t.day()))
}

/// The date of a (year, month, day), where the calendar supports it: years
/// -9999 to 9999, months 1 to 12, days 1 to 31.
pub open spec fn date_spec(ymd: Option<(i32, u32, u32)>) -> Option<Date> {
    match ymd {
        Some((y, m, d)) => if -9999 <= y <= 9999 && 1 <= m <= 12 && 1 <= d <= 31 {
            Some(Date { year: y, month: m as u8, day: d as u8 })
        } else {
            None
        },
        None => None,
    }
}

/// The date of a (year, month, day), where the calendar supports it.
pub fn date_from_ymd(ymd: Option<(i32, u32, u32)>) -> (r: Option<Date>)
    ensures
        r == date_spec(ymd),
{
    match ymd {
        Some((y, m, d)) => if -9999 <= y && y <= 9999 && 1 <= m && m <= 12 && 1 <= d && d <= 31 {
            Some(Date { year: y, month: m as u8, day: d as u8 })
        } else {
            None
        },
        None => None,
    }
}

/// The seconds of an offset of `hours` hours, where it fits an `i32`.
pub open spec fn offset_secs(hours: i64) -> Option<i32> {
    if i32::MIN <= hours * 3600 <= i32::MAX {
        Some((hours * 3600) as i32)
    } else {
        None
    }
}

/// Whether two file ids are equal.
pub fn same_file(a: &FileId, b: &FileId) -> (r: bool)
    ensures
        r == (a@ == b@),
{
    let same_package = match (&a.package, &b.package) {
        (None, None) => true,
        (Some(p), Some(q)) => p.namespace == q.namespace && p.name == q.name && p.major == q.major
            && p.minor == q.minor && p.patch == q.patch,
        _ => false,
    };
    if !same_package {
        assert(a@.package != b@.package);
        return false;
    }
    assert(a@.package == b@.package);
    let n = a.vpath.components.len();
    assert(a.vpath@.len() == n);
    if n != b.vpath.components.len() {
        assert(b.vpath@.len() != n);
        return false;
    }
    let mut i: usize = 0;
    while i < n
        invariant
            n == a.vpath@.len(),
            n == b.vpath@.len(),
            i <= n,
            forall|j: int| 0 <= j < i ==> a.vpath@[j] == b.vpath@[j],
        decreases n - i,
    {
        if a.vpath.components[i] != b.vpath.components[i] {
            assert(a.vpath@[i as int] != b.vpath@[i as int]);
            return false;
        }
        i = i + 1;
    }
    assert(a.vpath@ =~= b.vpath@);
    true
}

/// The system path of a file: its virtual path under its package's directory
/// (for a file of a package) or under the project root; `AccessDenied` where
/// the path would leave that root, and the package's error where the package
/// could not be made available.
pub fn system_path(
    project_root: &str,
    id: &FileId,
    package_dir: Option<Result<String, PackageError>>,
) -> (r: Result<String, FileError>)
    requires
        id.package is Some <==> package_dir is Some,
    ensures
        package_dir matches Some(Err(e)) ==> r matches Err(x) && x@ == FileErrorView::Package(e@),
        package_dir matches Some(Ok(d)) ==> match resolve_spec(id.vpath@, d@) {
            Some(p) => r matches Ok(s) && s@ == p,
            None => r matches Err(x) && x@ == FileErrorView::AccessDenied,
        },
        package_dir is None ==> match resolve_spec(id.vpath@, project_root@) {
            Some(p) => r matches Ok(s) && s@ == p,
            None => r matches Err(x) && x@ == FileErrorView::AccessDenied,
        },
{
    let resolved = match package_dir {
        Some(Err(e)) => return Err(FileError::Package(e)),
        Some(Ok(d)) => id.vpath.resolve(d.as_str()),
        None => id.vpath.resolve(project_root),
    };
    match resolved {
        Some(p) => Ok(p),
        None => Err(FileError::AccessDenied),
    }
}

/// A path written with a leading `..` escapes every root: its resolution is
/// denied, whatever the root.
pub proof fn lemma_parent_escape_denied(path: Seq<char>, root: Seq<char>)
    requires
        path.len() >= 3,
        path[0] == '.',
        path[1] == '.',
        path[2] == '/',
    ensures
        resolve_spec(components_of(path), root) is None,
{
    crate::vpath::lemma_leading_parent_kept(path);
}

/// The state of a project's file system.
pub struct ProjectWorld {
    /// The directory relative to which project paths are resolved.
    pub root: String,
    /// The compilation root.
    pub main: FileId,
    /// Whether the compilation root is designated, and readable.
    pub main_state: MainState,
    /// One slot per file id that has been referenced.
    pub slots: Vec<FileSlot>,
    /// The clock of the current pass.
    pub now: Now,
    /// The hashes of the frames last exported.
    pub export_cache: ExportCache,
}

impl ProjectWorld {
    /// Each file id has at most one slot.
    pub open spec fn wf(&self) -> bool {
        forall|i: int, j: int|
            0 <= i < j < self.slots@.len() ==> #[trigger] self.slots@[i].id@
                != #[trigger] self.slots@[j].id@
    }

    /// The slot of a file id, if the table has one.
    pub open spec fn slot_of(&self, id: FileIdView) -> Option<int> {
        if exists|i: int| 0 <= i < self.slots@.len() && #[trigger] self.slots@[i].id@ == id {
            Some(choose|i: int| 0 <= i < self.slots@.len() && #[trigger] self.slots@[i].id@ == id)
        } else {
            None
        }
    }

    /// The source cell of a file id: its slot's, or an empty cell where the
    /// table has no slot for it.
    pub open spec fn source_cell(&self, id: FileIdView) -> CellView<Seq<char>> {
        match self.slot_of(id) {
            Some(k) => self.slots@[k].source@,
            None => empty_cell(),
        }
    }

    /// The bytes cell of a file id: its slot's, or an empty cell.
    pub open spec fn file_cell(&self, id: FileIdView) -> CellView<Seq<u8>> {
        match self.slot_of(id) {
            Some(k) => self.slots@[k].file@,
            None => empty_cell(),
        }
    }

    proof fn lemma_slot_of_index(&self, k: int)
        requires
            self.wf(),
            0 <= k < self.slots@.len(),
        ensures
            self.slot_of(self.slots@[k].id@) == Some(k),
    {
        let id = self.slots@[k].id@;
        assert(0 <= k < self.slots@.len() && self.slots@[k].id@ == id);
        let j = choose|i: int| 0 <= i < self.slots@.len() && #[trigger] self.slots@[i].id@ == id;
        if j < k {
            assert(self.slots@[j].id@ != self.slots@[k].id@);
        } else if j > k {
            assert(self.slots@[k].id@ != self.slots@[j].id@);
        }
    }

    proof fn lemma_slot_of_absent(&self, id: FileIdView)
        requires
            forall|i: int| 0 <= i < self.slots@.len() ==> #[trigger] self.slots@[i].id@ != id,
        ensures
            self.slot_of(id) is None,
    {
    }

    /// The index of the slot of `id`, which is created (empty) if the table
    /// has none.
    fn slot_index(&mut self, id: FileId) -> (r: usize)
        requires
            old(self).wf(),
        ensures
            final(self).wf(),
            r < final(self).slots@.len(),
            final(self).slots@[r as int].id@ == id@,
            final(self).root == old(self).root,
            final(self).main == old(self).main,
            final(self).main_state == old(self).main_state,
            final(self).now == old(self).now,
            final(self).export_cache == old(self).export_cache,
            old(self).slot_of(id@) is Some ==> final(self).slots@ == old(self).slots@,
            old(self).slot_of(id@) is None ==> final(self).slots@ == old(self).slots@.push(
                final(self).slots@[r as int],
            ) && final(self).slots@[r as int].source@ == empty_cell::<Seq<char>>()
                && final(self).slots@[r as int].file@ == empty_cell::<Seq<u8>>(),
    {
        let mut i: usize = 0;
        while i < self.slots.len()
            invariant
                self.wf(),
                self == old(self),
                i <= self.slots@.len(),
                forall|j: int| 0 <= j < i ==> #[trigger] self.slots@[j].id@ != id@,
            decreases self.slots@.len() - i,
        {
            if same_file(&self.slots[i].id, &id) {
                proof {
                    self.lemma_slot_of_index(i as int);
                }
                return i;
            }
            i = i + 1;
        }
        proof {
            self.lemma_slot_of_absent(id@);
        }
        self.slots.push(FileSlot::new(id));
        i
    }

    /// Where two tables have the same ids, slot by slot, they find the same
    /// slot for every id.
    proof fn lemma_same_ids(&self, other: &ProjectWorld)
        requires
            self.wf(),
            other.wf(),
            self.slots@.len() == other.slots@.len(),
            forall|k: int| 0 <= k < self.slots@.len() ==> #[trigger] self.slots@[k].id@
                == other.slots@[k].id@,
        ensures
            forall|id: FileIdView| #[trigger] self.slot_of(id) == other.slot_of(id),
    {
        assert forall|id: FileIdView| #[trigger] self.slot_of(id) == other.slot_of(id) by {
            if exists|i: int| 0 <= i < self.slots@.len() && #[trigger] self.slots@[i].id@ == id {
                let k = choose|i: int| 0 <= i < self.slots@.len() && #[trigger] self.slots@[i].id@ == id;
                self.lemma_slot_of_index(k);
                other.lemma_slot_of_index(k);
            } else {
                assert forall|i: int| 0 <= i < other.slots@.len() implies #[trigger] other.slots@[i].id@ != id by {
                    assert(self.slots@[i].id@ == other.slots@[i].id@);
                }
            }
        }
    }

    /// After `slot_index(id)` gave `r`: `id` finds slot `r`, every other id
    /// finds the slot it found before.
    proof fn lemma_after_slot_index(&self, before: &ProjectWorld, id: FileIdView, r: int)
        requires
            before.wf(),
            self.wf(),
            0 <= r < self.slots@.len(),
            self.slots@[r].id@ == id,
            before.slot_of(id) is Some ==> self.slots@ == before.slots@,
            before.slot_of(id) is None ==> self.slots@ == before.slots@.push(self.slots@[r]),
        ensures
            self.slot_of(id) == Some(r),
            forall|id2: FileIdView| id2 != id ==> #[trigger] self.slot_of(id2) == before.slot_of(id2),
    {
        self.lemma_slot_of_index(r);
        if before.slot_of(id) is Some {
            self.lemma_same_ids(before);
        } else {
            assert forall|id2: FileIdView| id2 != id implies #[trigger] self.slot_of(id2) == before.slot_of(id2) by {
                if exists|i: int| 0 <= i < before.slots@.len() && #[trigger] before.slots@[i].id@ == id2 {
                    let k = choose|i: int| 0 <= i < before.slots@.len() && #[trigger] before.slots@[i].id@ == id2;
                    before.lemma_slot_of_index(k);
                    assert(self.slots@[k] == before.slots@[k]);
                    self.lemma_slot_of_index(k);
                } else {
                    assert forall|i: int| 0 <= i < self.slots@.len() implies #[trigger] self.slots@[i].id@ != id2 by {
                        if i < before.slots@.len() {
                            assert(self.slots@[i] == before.slots@[i]);
                        }
                    }
                }
            }
        }
    }

    /// The file's text, from its slot (created on first reference): served
    /// from this pass's cache, or loaded with `load` and decoded where its
    /// fingerprint changed. Other files' cells are untouched.
    pub fn source<L>(&mut self, id: FileId, load: L) -> (r: Result<String, FileError>) where
        L: FnOnce() -> Result<Vec<u8>, FileError>,

        requires
            old(self).wf(),
            load.requires(()),
        ensures
            final(self).wf(),
            final(self).root == old(self).root,
            final(self).main == old(self).main,
            final(self).main_state == old(self).main_state,
            final(self).now == old(self).now,
            final(self).file_cell(id@) == old(self).file_cell(id@),
            forall|other: FileIdView|
                other != id@ ==> #[trigger] final(self).source_cell(other) == old(self).source_cell(
                    other,
                ) && final(self).file_cell(other) == old(self).file_cell(other),
            pass_hit(old(self).source_cell(id@)) is Some ==> (
                final(self).source_cell(id@),
                result_view(&r),
            ) == (old(self).source_cell(id@), pass_hit(old(self).source_cell(id@))->Some_0),
            pass_hit(old(self).source_cell(id@)) is None ==> exists|
                raw: Result<Vec<u8>, FileError>,
            |
                #[trigger] load.ensures((), raw) && (final(self).source_cell(id@), result_view(&r))
                    == read_view(
                    old(self).source_cell(id@),
                    fingerprint_of(raw_view(&raw)),
                    text_outcome(raw_view(&raw)),
                ),
    {
        let ghost gid = id@;
        let i = self.slot_index(id);
        let ghost mid = *self;
        proof {
            self.lemma_after_slot_index(old(self), gid, i as int);
        }
        let r = self.slots[i].source(load);
        proof {
            self.lemma_same_ids(&mid);
            self.lemma_slot_of_index(i as int);
        }
        r
    }

    /// The file's raw bytes, from its slot (created on first reference):
    /// served from this pass's cache, or loaded with `load`. Other files'
    /// cells are untouched.
    pub fn file<L>(&mut self, id: FileId, load: L) -> (r: Result<Vec<u8>, FileError>) where
        L: FnOnce() -> Result<Vec<u8>, FileError>,

        requires
            old(self).wf(),
            load.requires(()),
        ensures
            final(self).wf(),
            final(self).root == old(self).root,
            final(self).main == old(self).main,
            final(self).main_state == old(self).main_state,
            final(self).now == old(self).now,
            final(self).source_cell(id@) == old(self).source_cell(id@),
            forall|other: FileIdView|
                other != id@ ==> #[trigger] final(self).source_cell(other) == old(self).source_cell(
                    other,
                ) && final(self).file_cell(other) == old(self).file_cell(other),
            pass_hit(old(self).file_cell(id@)) is Some ==> (
                final(self).file_cell(id@),
                result_view(&r),
            ) == (old(self).file_cell(id@), pass_hit(old(self).file_cell(id@))->Some_0),
            pass_hit(old(self).file_cell(id@)) is None ==> exists|
                raw: Result<Vec<u8>, FileError>,
            |
                #[trigger] load.ensures((), raw) && (final(self).file_cell(id@), result_view(&r))
                    == read_view(
                    old(self).file_cell(id@),
                    fingerprint_of(raw_view(&raw)),
                    raw_view(&raw),
                ),
    {
        let ghost gid = id@;
        let i = self.slot_index(id);
        let ghost mid = *self;
        proof {
            self.lemma_after_slot_index(old(self), gid, i as int);
        }
        let r = self.slots[i].file(load);
        proof {
            self.lemma_same_ids(&mid);
            self.lemma_slot_of_index(i as int);
        }
        r
    }

    /// The text pushed for a path, or read from disk through `read` (after
    /// resolving the path against the root).
    fn take_or_read<R>(&self, vpath: &VirtualPath, content: &Option<String>, read: &R) -> (r:
        Result<String, FileError>) where R: Fn(&str) -> Result<Vec<u8>, FileError>
        requires
            forall|p: &str| read.requires((p,)),
        ensures
            content matches Some(c) ==> (r matches Ok(t) && t@ == c@),
            content is None ==> match resolve_spec(vpath@, self.root@) {
                None => r is Err,
                Some(p) => exists|q: &str, res: Result<Vec<u8>, FileError>|
                    #[trigger] read.ensures((q,), res) && q@ == p && text_read(res, r),
            },
    {
        match content {
            Some(c) => Ok(c.clone()),
            None => {
                let path = match vpath.resolve(self.root.as_str()) {
                    Some(p) => p,
                    None => return Err(FileError::AccessDenied),
                };
                let q = path.as_str();
                let got = read(q);
                let ghost res = got;
                let r = match got {
                    Ok(bytes) => decode_utf8(bytes.as_slice()),
                    Err(e) => Err(e),
                };
                assert(read.ensures((q,), res) && text_read(res, r));
                r
            },
        }
    }

    /// The bytes pushed for a path (its text in UTF-8), or read from disk.
    fn take_or_read_bytes<R>(&self, vpath: &VirtualPath, content: &Option<String>, read: &R) -> (r:
        Result<Vec<u8>, FileError>) where R: Fn(&str) -> Result<Vec<u8>, FileError>
        requires
            forall|p: &str| read.requires((p,)),
        ensures
            content matches Some(c) ==> (r matches Ok(b) && b@ == vstd::utf8::encode_utf8(c@)),
            content is None ==> match resolve_spec(vpath@, self.root@) {
                None => r is Err,
                Some(p) => exists|q: &str, res: Result<Vec<u8>, FileError>|
                    #[trigger] read.ensures((q,), res) && q@ == p && r == res,
            },
    {
        match content {
            Some(c) => Ok(vstd::slice::slice_to_vec(c.as_str().as_bytes())),
            None => {
                let path = match vpath.resolve(self.root.as_str()) {
                    Some(p) => p,
                    None => return Err(FileError::AccessDenied),
                };
                let q = path.as_str();
                let got = read(q);
                assert(read.ensures((q,), got));
                got
            },
        }
    }

    /// Pushes new content for a project file (an editor's buffer, or `None`
    /// to re-read it from disk through `read`). Only cells that already hold
    /// data take it: a file not yet read keeps no pushed content. Fingerprints
    /// and access flags stay as they were; where re-reading fails the cell
    /// keeps its data.
    pub fn slot_update<R>(&mut self, path: &str, content: Option<String>, read: R) -> (r: Result<
        FileId,
        FileError,
    >) where R: Fn(&str) -> Result<Vec<u8>, FileError>
        requires
            old(self).wf(),
            forall|p: &str| read.requires((p,)),
        ensures
            final(self).wf(),
            final(self).root == old(self).root,
            final(self).main == old(self).main,
            final(self).main_state == old(self).main_state,
            final(self).now == old(self).now,
            r matches Ok(id) && id@ == (FileIdView { package: None, vpath: components_of(path@) }),
            forall|other: FileIdView|
                other != (FileIdView { package: None, vpath: components_of(path@) })
                    ==> #[trigger] final(self).source_cell(other) == old(self).source_cell(other)
                    && final(self).file_cell(other) == old(self).file_cell(other),
            updated_cell(
                old(self).source_cell(FileIdView { package: None, vpath: components_of(path@) }),
                final(self).source_cell(FileIdView { package: None, vpath: components_of(path@) }),
                pushed_text(&content),
            ),
            updated_cell(
                old(self).file_cell(FileIdView { package: None, vpath: components_of(path@) }),
                final(self).file_cell(FileIdView { package: None, vpath: components_of(path@) }),
                pushed_bytes(&content),
            ),
            content is None ==> reread_text(
                read,
                old(self).root@,
                components_of(path@),
                old(self).source_cell(FileIdView { package: None, vpath: components_of(path@) }),
                final(self).source_cell(FileIdView { package: None, vpath: components_of(path@) }),
            ),
            content is None ==> reread_bytes(
                read,
                old(self).root@,
                components_of(path@),
                old(self).file_cell(FileIdView { package: None, vpath: components_of(path@) }),
                final(self).file_cell(FileIdView { package: None, vpath: components_of(path@) }),
            ),
    {
        let vpath = VirtualPath::new(path);
        let id = FileId::new(None, vpath.duplicate());
        let ghost gid = id@;
        let i = self.slot_index(id.duplicate());
        let ghost mid = *self;
        proof {
            self.lemma_after_slot_index(old(self), gid, i as int);
        }
        if self.slots[i].source.data.is_some() {
            match self.take_or_read(&vpath, &content, &read) {
                Ok(text) => {
                    self.slots[i].source.data = Some(Ok(text));
                },
                Err(_) => {},
            }
        }
        if self.slots[i].file.data.is_some() {
            match self.take_or_read_bytes(&vpath, &content, &read) {
                Ok(bytes) => {
                    self.slots[i].file.data = Some(Ok(bytes));
                },
                Err(_) => {},
            }
        }
        proof {
            self.lemma_same_ids(&mid);
            self.lemma_slot_of_index(i as int);
        }
        Ok(id)
    }

    /// Designates the compilation root; it is unverified until read.
    pub fn set_main(&mut self, id: FileId)
        ensures
            final(self).main == id,
            final(self).main_state == MainState::Designated,
            final(self).root == old(self).root,
            final(self).slots == old(self).slots,
            final(self).now == old(self).now,
    {
        self.main = id;
        self.main_state = MainState::Designated;
    }

    /// Designates a project file as the compilation root.
    pub fn set_main_path(&mut self, main: VirtualPath)
        ensures
            final(self).main@ == (FileIdView { package: None, vpath: main@ }),
            final(self).main_state == MainState::Designated,
            final(self).root == old(self).root,
            final(self).slots == old(self).slots,
            final(self).now == old(self).now,
    {
        self.set_main(FileId::new(None, main))
    }

    /// The index of the slot of `id`, if the table has one.
    pub fn find_slot(&self, id: &FileId) -> (r: Option<usize>)
        requires
            self.wf(),
        ensures
            match r {
                Some(k) => self.slot_of(id@) == Some(k as int),
                None => self.slot_of(id@) is None,
            },
    {
        let mut i: usize = 0;
        while i < self.slots.len()
            invariant
                self.wf(),
                i <= self.slots@.len(),
                forall|j: int| 0 <= j < i ==> #[trigger] self.slots@[j].id@ != id@,
            decreases self.slots@.len() - i,
        {
            if same_file(&self.slots[i].id, id) {
                proof {
                    self.lemma_slot_of_index(i as int);
                }
                return Some(i);
            }
            i = i + 1;
        }
        proof {
            self.lemma_slot_of_absent(id@);
        }
        None
    }

    /// Whether the compilation root is ready: it was read successfully
    /// (`check_main`) and its cached text is still a successful read.
    pub fn is_main_set(&self) -> (r: bool)
        requires
            self.wf(),
        ensures
            r == (self.main_state == MainState::Verified && self.source_cell(self.main@).data
                matches Some(Ok(_))),
    {
        match self.main_state {
            MainState::Verified => {},
            _ => {
                return false;
            },
        }
        match self.find_slot(&self.main) {
            Some(k) => match &self.slots[k].source.data {
                Some(Ok(_)) => true,
                _ => false,
            },
            None => false,
        }
    }

    /// Reads the compilation root's text through `load` (or from this pass's
    /// cache) and records whether it could be read; returns that. Without a
    /// designated root, nothing is read and the answer is `false`.
    pub fn check_main<L>(&mut self, load: L) -> (r: bool) where
        L: FnOnce() -> Result<Vec<u8>, FileError>,

        requires
            old(self).wf(),
            load.requires(()),
        ensures
            final(self).wf(),
            final(self).main == old(self).main,
            final(self).root == old(self).root,
            old(self).main_state == MainState::Unset ==> !r && *final(self) == *old(self),
            old(self).main_state != MainState::Unset ==> final(self).main_state == if r {
                MainState::Verified
            } else {
                MainState::Designated
            },
            old(self).main_state != MainState::Unset && pass_hit(
                old(self).source_cell(old(self).main@),
            ) is Some ==> r == (pass_hit(old(self).source_cell(old(self).main@))->Some_0 is Ok),
            old(self).main_state != MainState::Unset && pass_hit(
                old(self).source_cell(old(self).main@),
            ) is None ==> exists|raw: Result<Vec<u8>, FileError>|
                #[trigger] load.ensures((), raw) && r == (read_view(
                    old(self).source_cell(old(self).main@),
                    fingerprint_of(raw_view(&raw)),
                    text_outcome(raw_view(&raw)),
                ).1 is Ok),
    {
        if let MainState::Unset = self.main_state {
            return false;
        }
        let id = self.main.duplicate();
        let res = self.source(id, load);
        let ok = res.is_ok();
        if ok {
            self.main_state = MainState::Verified;
        } else {
            self.main_state = MainState::Designated;
        }
        ok
    }

    /// Prepares the next pass: every cell is marked unread and a wall clock
    /// is read afresh at its next use.
    pub fn reset(&mut self)
        requires
            old(self).wf(),
        ensures
            final(self).wf(),
            final(self).root == old(self).root,
            final(self).main == old(self).main,
            final(self).main_state == old(self).main_state,
            old(self).now is Fixed ==> final(self).now == old(self).now,
            old(self).now is System ==> final(self).now == Now::System(None),
            forall|id: FileIdView|
                #[trigger] final(self).source_cell(id) == reset_view(old(self).source_cell(id))
                    && final(self).file_cell(id) == reset_view(old(self).file_cell(id)),
    {
        let mut i: usize = 0;
        while i < self.slots.len()
            invariant
                self.wf(),
                self.root == old(self).root,
                self.main == old(self).main,
                self.main_state == old(self).main_state,
                self.now == old(self).now,
                self.slots@.len() == old(self).slots@.len(),
                i <= self.slots@.len(),
                forall|k: int| 0 <= k < self.slots@.len() ==> #[trigger] self.slots@[k].id@
                    == old(self).slots@[k].id@,
                forall|k: int|
                    0 <= k < i ==> #[trigger] self.slots@[k].source@ == reset_view(
                        old(self).slots@[k].source@,
                    ) && self.slots@[k].file@ == reset_view(old(self).slots@[k].file@),
                forall|k: int| i <= k < self.slots@.len() ==> #[trigger] self.slots@[k] == old(
                    self,
                ).slots@[k],
            decreases self.slots@.len() - i,
        {
            self.slots[i].reset();
            i = i + 1;
        }
        if let Now::System(_) = self.now {
            self.now = Now::System(None);
        }
        proof {
            self.lemma_same_ids(old(self));
            assert forall|id: FileIdView|
                #[trigger] self.source_cell(id) == reset_view(old(self).source_cell(id))
                    && self.file_cell(id) == reset_view(old(self).file_cell(id)) by {
                match old(self).slot_of(id) {
                    Some(k) => {
                        assert(0 <= k < old(self).slots@.len()) by {
                            let w = choose|i: int| 0 <= i < old(self).slots@.len() && #[trigger] old(self).slots@[i].id@ == id;
                        }
                    },
                    None => {
                        assert(reset_view(empty_cell::<Seq<char>>()) == empty_cell::<Seq<char>>());
                        assert(reset_view(empty_cell::<Seq<u8>>()) == empty_cell::<Seq<u8>>());
                    },
                }
            }
        }
    }

    /// The calendar date now: at a fixed offset of `offset` hours from UTC,
    /// or in the machine's time zone. A wall clock is read once per pass.
    pub fn today(&mut self, offset: Option<i64>) -> (r: Option<Date>)
        ensures
            final(self).root == old(self).root,
            final(self).main == old(self).main,
            final(self).main_state == old(self).main_state,
            final(self).slots == old(self).slots,
            old(self).now != Now::System(None) ==> final(self).now == old(self).now,
            old(self).now == Now::System(None) ==> final(self).now is System && final(self).now->System_0 is Some,
            offset matches Some(h) ==> r == match offset_secs(h) {
                Some(secs) => date_spec(offset_date(clock_of(final(self).now), secs)),
                None => None,
            },
            offset matches Some(h) && !(-86400 < h * 3600 < 86400) ==> r is None,
            offset is None && -300_000_000_000 <= clock_of(final(self).now) <= 250_000_000_000
                ==> r is Some,
    {
        let now = match self.now {
            Now::Fixed(t) => t,
            Now::System(Some(t)) => t,
            Now::System(None) => {
                let t = utc_now_secs();
                self.now = Now::System(Some(t));
                t
            },
        };
        match offset {
            None => date_from_ymd(local_date(now)),
            Some(hours) => {
                if hours < -2147483648i64 || hours > 2147483647i64 {
                    return None;
                }
                let secs = hours * 3600;
                if secs < -2147483648i64 || secs > 2147483647i64 {
                    return None;
                }
                date_from_ymd(date_at_offset(now, secs as i32))
            },
        }
    }

    /// The packages known without looking them up: none.
    pub fn packages(&self) -> (r: Vec<(PackageSpec, Option<String>)>)
        ensures
            r@.len() == 0,
    {
        Vec::new()
    }

    /// A file system rooted at `root` whose compilation root is not yet
    /// designated.
    pub fn without_main(root: String) -> (r: ProjectWorld)
        ensures
            r.wf(),
            r.root@ == root@,
            r.slots@.len() == 0,
            r.main_state == MainState::Unset,
            r.now == Now::System(None),
            r.export_cache@.len() == 0,
    {
        ProjectWorld {
            root,
            main: FileId::new(None, VirtualPath { components: Vec::new() }),
            main_state: MainState::Unset,
            slots: Vec::new(),
            now: Now::System(None),
            export_cache: ExportCache::new(),
        }
    }

    /// A file system rooted at `root`, whose compilation root is the file
    /// `main` (a path under `root`).
    /// `fixed_time` (seconds since the epoch), where given, fixes the clock
    /// for reproducible output; otherwise the wall clock is read once per
    /// pass.
    pub fn new(root: String, main: &str, fixed_time: Option<i64>) -> (r: Result<
        ProjectWorld,
        crate::error::WorldCreationError,
    >)
        ensures
            r is Ok <==> within_root_spec(main@, root@) is Some,
            match r {
                Ok(w) => w.wf() && w.root@ == root@ && w.slots@.len() == 0 && w.main_state
                    == MainState::Designated && w.now == clock_from(fixed_time)
                    && w.export_cache@.len() == 0
                    && w.main@ == (FileIdView {
                    package: None,
                    vpath: components_of(within_root_spec(main@, root@)->Some_0),
                }),
                Err(e) => within_root_spec(main@, root@) is None && e
                    is InputOutsideRoot,
            },
    {
        match within_root(main, root.as_str()) {
            None => Err(crate::error::WorldCreationError::InputOutsideRoot),
            Some(rest) => {
                let vpath = VirtualPath::new(rest.as_str());
                Ok(ProjectWorld {
                    root,
                    main: FileId::new(None, vpath),
                    main_state: MainState::Designated,
                    slots: Vec::new(),
                    now: match fixed_time {
                        Some(t) => Now::Fixed(t),
                        None => Now::System(None),
                    },
                    export_cache: ExportCache::new(),
                })
            },
        }
    }
}

/// The clock a world starts with: fixed at the given time, or the wall clock.
pub open spec fn clock_from(fixed_time: Option<i64>) -> Now {
    match fixed_time {
        Some(t) => Now::Fixed(t),
        None => Now::System(None),
    }
}

/// The time a clock reads, once captured.
pub open spec fn clock_of(now: Now) -> i64 {
    match now {
        Now::Fixed(t) => t,
        Now::System(Some(t)) => t,
        Now::System(None) => 0,
    }
}

/// What a push did to a cell: it keeps its fingerprint and access flag; an
/// empty cell stays empty; a cell with data keeps data, which is the pushed
/// value where one was pushed.
pub open spec fn updated_cell<V>(before: CellView<V>, after: CellView<V>, pushed: Option<V>) -> bool {
    &&& after.fingerprint == before.fingerprint
    &&& after.accessed == before.accessed
    &&& before.data is None ==> after.data is None
    &&& before.data is Some ==> after.data is Some
    &&& before.data is Some && pushed is Some ==> after.data == Some(
        Ok::<V, FileErrorView>(pushed->Some_0),
    )
}

/// Whether a text read `r` is what the disk read `res` gives: its bytes
/// decoded, or its failure.
pub open spec fn text_read(res: Result<Vec<u8>, FileError>, r: Result<String, FileError>) -> bool {
    match res {
        Ok(b) => result_view(&r) == text_of(b@),
        Err(_) => r is Err,
    }
}

/// A text cell's data after a re-read that gave `res`: the decoded text
/// where the bytes were read and are UTF-8, else the data it had.
pub open spec fn reread_text_outcome(
    before: Option<Result<Seq<char>, FileErrorView>>,
    res: Result<Vec<u8>, FileError>,
) -> Option<Result<Seq<char>, FileErrorView>> {
    match res {
        Ok(b) => match text_of(b@) {
            Ok(t) => Some(Ok(t)),
            Err(_) => before,
        },
        Err(_) => before,
    }
}

/// A bytes cell's data after a re-read that gave `res`: the bytes read, or
/// the data it had where the read failed.
pub open spec fn reread_bytes_outcome(
    before: Option<Result<Seq<u8>, FileErrorView>>,
    res: Result<Vec<u8>, FileError>,
) -> Option<Result<Seq<u8>, FileErrorView>> {
    match res {
        Ok(b) => Some(Ok(b@)),
        Err(_) => before,
    }
}

/// What re-reading a text cell from disk did: an empty cell stays empty; a
/// cell whose path leaves the root keeps its data; otherwise `read`, given
/// the path, returned an outcome, and the cell holds what it gives.
pub open spec fn reread_text<R: Fn(&str) -> Result<Vec<u8>, FileError>>(
    read: R,
    root: Seq<char>,
    vpath: Seq<Seq<char>>,
    before: CellView<Seq<char>>,
    after: CellView<Seq<char>>,
) -> bool {
    if before.data is None {
        after.data == before.data
    } else {
        match resolve_spec(vpath, root) {
            None => after.data == before.data,
            Some(p) => exists|q: &str, res: Result<Vec<u8>, FileError>|
                #[trigger] read.ensures((q,), res) && q@ == p && after.data
                    == reread_text_outcome(before.data, res),
        }
    }
}

/// What re-reading a bytes cell from disk did: an empty cell stays empty; a
/// cell whose path leaves the root keeps its data; otherwise `read`, given
/// the path, returned an outcome, and the cell holds what it gives.
pub open spec fn reread_bytes<R: Fn(&str) -> Result<Vec<u8>, FileError>>(
    read: R,
    root: Seq<char>,
    vpath: Seq<Seq<char>>,
    before: CellView<Seq<u8>>,
    after: CellView<Seq<u8>>,
) -> bool {
    if before.data is None {
        after.data == before.data
    } else {
        match resolve_spec(vpath, root) {
            None => after.data == before.data,
            Some(p) => exists|q: &str, res: Result<Vec<u8>, FileError>|
                #[trigger] read.ensures((q,), res) && q@ == p && after.data
                    == reread_bytes_outcome(before.data, res),
        }
    }
}

/// The text a push carries.
pub open spec fn pushed_text(content: &Option<String>) -> Option<Seq<char>> {
    match content {
        Some(c) => Some(c@),
        None => None,
    }
}

/// The bytes a push carries: its text in UTF-8.
pub open spec fn pushed_bytes(content: &Option<String>) -> Option<Seq<u8>> {
    match content {
        Some(c) => Some(vstd::utf8::encode_utf8(c@)),
        None => None,
    }
}

/// A cell that holds nothing.
pub open spec fn empty_cell<V>() -> CellView<V> {
    CellView { data: None, fingerprint: 0, accessed: false }
}

/// The part of `path` below `root`: `path` must be `root` itself or continue
/// it with a `/`.
pub open spec fn within_root_spec(path: Seq<char>, root: Seq<char>) -> Option<Seq<char>> {
    if path.len() >= root.len() && path.subrange(0, root.len() as int) == root && (path.len()
        == root.len() || path[root.len() as int] == '/' || (root.len() > 0 && root.last()
        == '/')) {
        Some(path.subrange(root.len() as int, path.len() as int))
    } else {
        None
    }
}

/// The part of `path` below `root`, if `path` lies within it.
pub fn within_root(path: &str, root: &str) -> (r: Option<String>)
    ensures
        match r {
            Some(s) => within_root_spec(path@, root@) == Some(s@),
            None => within_root_spec(path@, root@) is None,
        },
{
    let p = crate::text::chars_of(path);
    let q = crate::text::chars_of(root);
    if p.len() < q.len() {
        return None;
    }
    let mut i: usize = 0;
    while i < q.len()
        invariant
            p@ == path@,
            q@ == root@,
            p@.len() >= q@.len(),
            i <= q@.len(),
            forall|j: int| 0 <= j < i ==> p@[j] == q@[j],
        decreases q@.len() - i,
    {
        if p[i] != q[i] {
            assert(p@.subrange(0, q@.len() as int)[i as int] != q@[i as int]);
            return None;
        }
        i = i + 1;
    }
    assert(p@.subrange(0, q@.len() as int) =~= q@);
    let n = q.len();
    if !(p.len() == n || p[n] == '/' || (n > 0 && q[n - 1] == '/')) {
        return None;
    }
    Some(path.substring_char(n, p.len()).to_owned())
}

} // verus!
