//! Fingerprinted cells and file slots: memoised, incrementally refreshed
//! views of a file's raw bytes and decoded text.
use vstd::prelude::*;

use crate::error::{FileError, FileErrorView};
use crate::fingerprint::{fingerprint, fingerprint_of, raw_view};
use crate::text::{copy_bytes, copy_string};
use crate::vpath::FileId;

verus! {

/// A value that a cell can hand out again: a copy with the same view.
pub trait Snapshot: Sized + View {
    fn snapshot(&self) -> (r: Self)
        ensures
            r@ == self@,
    ;
}

impl Snapshot for Vec<u8> {
    fn snapshot(&self) -> (r: Self) {
        copy_bytes(self)
    }
}

impl Snapshot for String {
    fn snapshot(&self) -> (r: Self) {
        copy_string(self)
    }
}

/// The view of a cached outcome.
pub open spec fn result_view<T: View>(r: &Result<T, FileError>) -> Result<T::V, FileErrorView> {
    match r {
        Ok(v) => Ok(v@),
        Err(e) => Err(e@),
    }
}

/// A copy of a cached outcome.
pub fn copy_result<T: Snapshot>(r: &Result<T, FileError>) -> (o: Result<T, FileError>)
    ensures
        result_view(&o) == result_view(r),
{
    match r {
        Ok(v) => Ok(v.snapshot()),
        Err(e) => Err(e.duplicate()),
    }
}

/// The mathematical state of a cell.
pub struct CellView<V> {
    /// The outcome of the last decode (or load failure), if any.
    pub data: Option<Result<V, FileErrorView>>,
    /// The fingerprint of the last load's outcome.
    pub fingerprint: u128,
    /// Whether the cell was read in the current pass.
    pub accessed: bool,
}

/// What a read serves without loading: the cached outcome, when the cell was
/// already read in this pass.
pub open spec fn pass_hit<V>(c: CellView<V>) -> Option<Result<V, FileErrorView>> {
    if c.accessed {
        c.data
    } else {
        None
    }
}

/// The cell after the access flag is set.
pub open spec fn mark_accessed<V>(c: CellView<V>) -> CellView<V> {
    CellView { accessed: true, ..c }
}

/// The cell after the access flag is cleared for the next pass.
pub open spec fn reset_view<V>(c: CellView<V>) -> CellView<V> {
    CellView { accessed: false, ..c }
}

/// Whether a load with fingerprint `fp` leaves the decoder unused: the content
/// did not change and an outcome is cached.
pub open spec fn skips_decode<V>(c: CellView<V>, fp: u128) -> bool {
    c.fingerprint == fp && c.data is Some
}

/// The outcome served after a load with fingerprint `fp`, where `fresh` is what
/// decoding would give.
pub open spec fn served<V>(
    c: CellView<V>,
    fp: u128,
    fresh: Result<V, FileErrorView>,
) -> Result<V, FileErrorView> {
    if skips_decode(c, fp) {
        c.data->Some_0
    } else {
        fresh
    }
}

/// The cell after a load with fingerprint `fp`, where `fresh` is what decoding
/// would give.
pub open spec fn refreshed_view<V>(
    c: CellView<V>,
    fp: u128,
    fresh: Result<V, FileErrorView>,
) -> CellView<V> {
    CellView { data: Some(served(c, fp, fresh)), fingerprint: fp, accessed: true }
}

/// Lazily decoded data for a file, memoised by the fingerprint of what was
/// loaded.
pub struct SlotCell<T> {
    /// The decoded data, or the failure.
    pub data: Option<Result<T, FileError>>,
    /// A hash of the raw file contents or of the access error.
    pub fingerprint: u128,
    /// Whether the cell has been read in the current pass.
    pub accessed: bool,
}

impl<T: View> View for SlotCell<T> {
    type V = CellView<T::V>;

    open spec fn view(&self) -> CellView<T::V> {
        CellView {
            data: match self.data {
                Some(r) => Some(result_view(&r)),
                None => None,
            },
            fingerprint: self.fingerprint,
            accessed: self.accessed,
        }
    }
}

/// The successfully decoded value that a decoder may reuse.
pub open spec fn previous<T>(data: Option<Result<T, FileError>>) -> Option<T> {
    match data {
        Some(Ok(v)) => Some(v),
        _ => None,
    }
}

/// What a refresh with outcome `raw` and decoder `decode` did to a cell that
/// was `before` and served `r`.
pub open spec fn refreshed<T: View, D: FnOnce(Vec<u8>, Option<T>) -> Result<T, FileError>>(
    before: SlotCell<T>,
    after: SlotCell<T>,
    raw: Result<Vec<u8>, FileError>,
    decode: D,
    r: Result<T, FileError>,
) -> bool {
    let fp = fingerprint_of(raw_view(&raw));
    &&& after@ == refreshed_view(before@, fp, result_view(&r))
    &&& skips_decode(before@, fp) ==> result_view(&r) == before@.data->Some_0
    &&& !skips_decode(before@, fp) ==> match raw {
        Ok(bytes) => decode.ensures((bytes, previous(before.data)), r),
        Err(e) => result_view(&r) == Err::<T::V, FileErrorView>(e@),
    }
}

impl<T: Snapshot> SlotCell<T> {
    /// An empty cell.
    pub fn new() -> (r: Self)
        ensures
            r@ == (CellView::<T::V> { data: None, fingerprint: 0, accessed: false }),
    {
        SlotCell { data: None, fingerprint: 0, accessed: false }
    }

    /// Whether the cell was read in the current pass.
    pub fn accessed(&self) -> (r: bool)
        ensures
            r == self@.accessed,
    {
        self.accessed
    }

    /// Clears the access flag in preparation of the next pass.
    pub fn reset(&mut self)
        ensures
            final(self)@ == reset_view(old(self)@),
    {
        self.accessed = false;
    }

    /// Marks the cell as read and serves the cached outcome if it was already
    /// read in this pass.
    pub fn take_cached(&mut self) -> (r: Option<Result<T, FileError>>)
        ensures
            *final(self) == mark_accessed_cell(*old(self)),
            final(self)@ == mark_accessed(old(self)@),
            pass_hit(old(self)@) is None ==> r is None,
            pass_hit(old(self)@) is Some ==> r is Some && result_view(&r->Some_0) == pass_hit(
                old(self)@,
            )->Some_0,
    {
        let was = self.accessed;
        self.accessed = true;
        if was {
            match &self.data {
                Some(d) => {
                    return Some(copy_result(d));
                },
                None => {},
            }
        }
        None
    }

    /// Takes a fresh load outcome whose fingerprint is `fp`: keeps the cached
    /// outcome where the fingerprint did not change, else decodes the bytes
    /// (handing the decoder the previous successful value) or records the
    /// failure.
    pub fn refresh_fingerprinted<D>(
        &mut self,
        raw: Result<Vec<u8>, FileError>,
        fp: u128,
        decode: D,
    ) -> (r: Result<T, FileError>) where D: FnOnce(Vec<u8>, Option<T>) -> Result<T, FileError>
        requires
            forall|b: Vec<u8>, p: Option<T>| decode.requires((b, p)),
        ensures
            final(self)@ == refreshed_view(old(self)@, fp, result_view(&r)),
            skips_decode(old(self)@, fp) ==> result_view(&r) == old(self)@.data->Some_0,
            !skips_decode(old(self)@, fp) ==> match raw {
                Ok(bytes) => decode.ensures((bytes, previous(old(self).data)), r),
                Err(e) => result_view(&r) == Err::<T::V, FileErrorView>(e@),
            },
    {
        let prev_fp = self.fingerprint;
        self.fingerprint = fp;
        self.accessed = true;
        if prev_fp == fp {
            match &self.data {
                Some(d) => {
                    return copy_result(d);
                },
                None => {},
            }
        }
        let ghost before = old(self).data;
        let prev = match self.data.take() {
            Some(Ok(v)) => Some(v),
            _ => None,
        };
        assert(prev == previous(before));
        let value = match raw {
            Ok(bytes) => decode(bytes, prev),
            Err(e) => Err(e),
        };
        self.data = Some(copy_result(&value));
        value
    }

    /// Takes a fresh load outcome and refreshes the cell with its
    /// fingerprint.
    pub fn refresh<D>(&mut self, raw: Result<Vec<u8>, FileError>, decode: D) -> (r: Result<
        T,
        FileError,
    >) where D: FnOnce(Vec<u8>, Option<T>) -> Result<T, FileError>
        requires
            forall|b: Vec<u8>, p: Option<T>| decode.requires((b, p)),
        ensures
            refreshed(*old(self), *final(self), raw, decode, r),
    {
        let fp = fingerprint(&raw);
        self.refresh_fingerprinted(raw, fp, decode)
    }

    /// Serves the cell's data: from this pass's cache if it was read already,
    /// else by loading and refreshing.
    pub fn get_or_init<L, D>(&mut self, load: L, decode: D) -> (r: Result<T, FileError>) where
        L: FnOnce() -> Result<Vec<u8>, FileError>,
        D: FnOnce(Vec<u8>, Option<T>) -> Result<T, FileError>,

        requires
            load.requires(()),
            forall|b: Vec<u8>, p: Option<T>| decode.requires((b, p)),
        ensures
            pass_hit(old(self)@) is Some ==> final(self)@ == old(self)@ && result_view(&r)
                == pass_hit(old(self)@)->Some_0,
            pass_hit(old(self)@) is None ==> exists|raw: Result<Vec<u8>, FileError>|
                #[trigger] load.ensures((), raw) && refreshed(
                    mark_accessed_cell(*old(self)),
                    *final(self),
                    raw,
                    decode,
                    r,
                ),
    {
        match self.take_cached() {
            Some(v) => v,
            None => {
                let raw = load();
                let ghost raw_copy = raw;
                let r = self.refresh(raw, decode);
                assert(load.ensures((), raw_copy));
                r
            },
        }
    }
}

/// What one read of a cell in state `c` leaves and serves, where the load
/// would have fingerprint `fp` and decoding would give `fresh`.
pub open spec fn read_view<V>(
    c: CellView<V>,
    fp: u128,
    fresh: Result<V, FileErrorView>,
) -> (CellView<V>, Result<V, FileErrorView>) {
    match pass_hit(c) {
        Some(hit) => (c, hit),
        None => (
            refreshed_view(mark_accessed(c), fp, fresh),
            served(mark_accessed(c), fp, fresh),
        ),
    }
}

/// A second read within one pass serves exactly what the first read served
/// and leaves the cell as it was, whatever the underlying content is by then:
/// it neither loads nor decodes.
pub proof fn lemma_second_read_in_pass<V>(
    c: CellView<V>,
    fp: u128,
    fresh: Result<V, FileErrorView>,
    fp2: u128,
    fresh2: Result<V, FileErrorView>,
)
    ensures
        pass_hit(read_view(c, fp, fresh).0) == Some(read_view(c, fp, fresh).1),
        read_view(read_view(c, fp, fresh).0, fp2, fresh2) == read_view(c, fp, fresh),
{
}

/// Content unchanged across passes: once a cell holds an outcome, a new pass
/// must load again, but a load with the stored fingerprint skips the decoder
/// and serves the stored outcome.
pub proof fn lemma_unchanged_content_skips_decode<V>(
    c: CellView<V>,
    fresh: Result<V, FileErrorView>,
)
    requires
        c.data is Some,
    ensures
        pass_hit(reset_view(c)) is None,
        skips_decode(mark_accessed(reset_view(c)), c.fingerprint),
        read_view(reset_view(c), c.fingerprint, fresh) == (mark_accessed(c), c.data->Some_0),
{
    assert(refreshed_view(mark_accessed(reset_view(c)), c.fingerprint, fresh) == mark_accessed(c));
}

/// A change of one byte whose fingerprint differs from the stored one (any
/// change but a hash collision) makes the next load decode: the cell then
/// holds the new fingerprint and the freshly decoded outcome.
pub proof fn lemma_changed_byte_forces_decode<V>(
    c: CellView<V>,
    bytes: Seq<u8>,
    i: int,
    b: u8,
    fresh: Result<V, FileErrorView>,
)
    requires
        0 <= i < bytes.len(),
        bytes[i] != b,
        c.fingerprint == fingerprint_of(Ok(bytes)),
        fingerprint_of(Ok(bytes.update(i, b))) != fingerprint_of(Ok(bytes)),
        pass_hit(c) is None,
    ensures
        !skips_decode(mark_accessed(c), fingerprint_of(Ok(bytes.update(i, b)))),
        read_view(c, fingerprint_of(Ok(bytes.update(i, b))), fresh) == (
            CellView {
                data: Some(fresh),
                fingerprint: fingerprint_of(Ok(bytes.update(i, b))),
                accessed: true,
            },
            fresh,
        ),
        read_view(c, fingerprint_of(Ok(bytes.update(i, b))), fresh).0.fingerprint
            != c.fingerprint,
{
}

/// A file's bytes without a leading UTF-8 byte order mark.
pub open spec fn strip_bom(b: Seq<u8>) -> Seq<u8> {
    if b.len() >= 3 && b[0] == 0xefu8 && b[1] == 0xbbu8 && b[2] == 0xbfu8 {
        b.subrange(3, b.len() as int)
    } else {
        b
    }
}

/// The decoded text of a file's bytes, or `InvalidUtf8`.
pub open spec fn text_of(b: Seq<u8>) -> Result<Seq<char>, FileErrorView> {
    if vstd::utf8::valid_utf8(strip_bom(b)) {
        Ok(vstd::utf8::decode_utf8(strip_bom(b)))
    } else {
        Err(FileErrorView::InvalidUtf8)
    }
}

/// What the source cell decodes from a load's outcome.
pub open spec fn text_outcome(raw: Result<Seq<u8>, FileErrorView>) -> Result<
    Seq<char>,
    FileErrorView,
> {
    match raw {
        Ok(b) => text_of(b),
        Err(e) => Err(e),
    }
}

/// Relies on `std::str::from_utf8`: it accepts exactly the valid UTF-8
/// sequences and decodes them.
#[verifier::external_body]
fn str_from_utf8(b: &[u8]) -> (r: Option<String>)
    ensures
        r is Some <==> vstd::utf8::valid_utf8(b@),
        r matches Some(s) ==> s@ == vstd::utf8::decode_utf8(b@),
{
    std::str::from_utf8(b).ok().map(|s| s.to_owned())
}

/// Decodes UTF-8 text after an optional byte order mark.
pub fn decode_utf8(buf: &[u8]) -> (r: Result<String, FileError>)
    ensures
        result_view(&r) == text_of(buf@),
{
    let body = if buf.len() >= 3 && buf[0] == 0xefu8 && buf[1] == 0xbbu8 && buf[2] == 0xbfu8 {
        vstd::slice::slice_subrange(buf, 3, buf.len())
    } else {
        buf
    };
    assert(body@ == strip_bom(buf@));
    match str_from_utf8(body) {
        Some(s) => Ok(s),
        None => Err(FileError::InvalidUtf8),
    }
}

/// The cached raw bytes and decoded text of one file.
pub struct FileSlot {
    /// The slot's file id.
    pub id: FileId,
    /// The lazily loaded and incrementally updated text.
    pub source: SlotCell<String>,
    /// The lazily loaded raw bytes.
    pub file: SlotCell<Vec<u8>>,
}

impl FileSlot {
    /// A slot for `id` with both cells empty.
    pub fn new(id: FileId) -> (r: FileSlot)
        ensures
            r.id == id,
            r.source@ == (CellView::<Seq<char>> { data: None, fingerprint: 0, accessed: false }),
            r.file@ == (CellView::<Seq<u8>> { data: None, fingerprint: 0, accessed: false }),
    {
        FileSlot { id, file: SlotCell::new(), source: SlotCell::new() }
    }

    /// Whether the file was read in the current pass.
    pub fn accessed(&self) -> (r: bool)
        ensures
            r == (self.source@.accessed || self.file@.accessed),
    {
        self.source.accessed() || self.file.accessed()
    }

    /// Marks the file as not yet read, in preparation of the next pass.
    pub fn reset(&mut self)
        ensures
            final(self).id == old(self).id,
            final(self).source@ == reset_view(old(self).source@),
            final(self).file@ == reset_view(old(self).file@),
    {
        self.source.reset();
        self.file.reset();
    }

    /// The file's text: served from this pass's cache, or loaded with `load`
    /// and decoded where its fingerprint changed.
    pub fn source<L>(&mut self, load: L) -> (r: Result<String, FileError>) where
        L: FnOnce() -> Result<Vec<u8>, FileError>,

        requires
            load.requires(()),
        ensures
            final(self).id == old(self).id,
            final(self).file == old(self).file,
            pass_hit(old(self).source@) is Some ==> (final(self).source@, result_view(&r)) == (
                old(self).source@,
                pass_hit(old(self).source@)->Some_0,
            ),
            pass_hit(old(self).source@) is None ==> exists|raw: Result<Vec<u8>, FileError>|
                #[trigger] load.ensures((), raw) && (final(self).source@, result_view(&r))
                    == read_view(
                    old(self).source@,
                    fingerprint_of(raw_view(&raw)),
                    text_outcome(raw_view(&raw)),
                ),
    {
        let decode = |data: Vec<u8>, prev: Option<String>| -> (t: Result<String, FileError>)
            ensures
                result_view(&t) == text_of(data@),
            { decode_utf8(data.as_slice()) };
        self.source.get_or_init(load, decode)
    }

    /// The file's raw bytes: served from this pass's cache, or loaded with
    /// `load`.
    pub fn file<L>(&mut self, load: L) -> (r: Result<Vec<u8>, FileError>) where
        L: FnOnce() -> Result<Vec<u8>, FileError>,

        requires
            load.requires(()),
        ensures
            final(self).id == old(self).id,
            final(self).source == old(self).source,
            pass_hit(old(self).file@) is Some ==> (final(self).file@, result_view(&r)) == (
                old(self).file@,
                pass_hit(old(self).file@)->Some_0,
            ),
            pass_hit(old(self).file@) is None ==> exists|raw: Result<Vec<u8>, FileError>|
                #[trigger] load.ensures((), raw) && (final(self).file@, result_view(&r))
                    == read_view(old(self).file@, fingerprint_of(raw_view(&raw)), raw_view(&raw)),
    {
        let decode = |data: Vec<u8>, prev: Option<Vec<u8>>| -> (t: Result<Vec<u8>, FileError>)
            ensures
                result_view(&t) == Ok::<Seq<u8>, FileErrorView>(data@),
            { Ok(data) };
        self.file.get_or_init(load, decode)
    }
}

/// A cell with its access flag set.
pub open spec fn mark_accessed_cell<T>(c: SlotCell<T>) -> SlotCell<T> {
    SlotCell { accessed: true, ..c }
}

} // verus!
