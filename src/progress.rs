//! Download statistics: a reader's running totals with a rolling window of
//! one-second samples, and the human-readable sizes shown with them.
use vstd::prelude::*;

use std::collections::VecDeque;

use crate::error::IoKind;

use crate::text::{append_bytes, decimal, digit_char, push_decimal, push_str};

verus! {

/// How many one-second download samples are kept.
pub const SPEED_SAMPLES: usize = 5;

/// How many interrupted reads in a row a download tolerates.
pub const MAX_INTERRUPTED_READS: usize = 64;

/// Reports the download progress of the item it wraps.
pub struct PrintDownload<T>(pub T);

/// The outcome of one read of the response body.
#[derive(Clone, Copy, Debug, PartialEq, Eq, Structural)]
pub enum ReadEvent {
    /// This many bytes arrived (zero means the end of the body).
    Data(usize),
    /// The read was interrupted before any data was ready.
    Interrupted,
    /// The read failed.
    Failed,
}

/// What the download loop does next.
#[derive(Clone, Copy, Debug, PartialEq, Eq, Structural)]
pub enum ReadStep {
    /// Append this many bytes of the buffer to the data and read on.
    Append(usize),
    /// Read again.
    Retry,
    /// The body is complete.
    Finish,
    /// Give up with the read's error.
    Abort,
}

/// The mathematical state of a download's statistics.
pub struct ReaderView {
    pub content_len: Option<usize>,
    pub total_downloaded: nat,
    pub downloaded_this_sec: nat,
    pub samples: Seq<usize>,
    pub start_ms: u64,
    pub last_print_ms: Option<u64>,
    pub interrupted: nat,
}

/// The statistics after `n > 0` bytes arrive at time `now` (milliseconds): the
/// counters grow, and once a second has passed since the last sample the
/// second's count becomes the newest sample (the oldest of a full window is
/// dropped).
pub open spec fn after_data(s: ReaderView, n: nat, now: u64) -> ReaderView {
    let last = match s.last_print_ms {
        Some(t) => t,
        None => now,
    };
    let this_sec = s.downloaded_this_sec + n;
    let base = ReaderView {
        total_downloaded: s.total_downloaded + n,
        downloaded_this_sec: this_sec,
        last_print_ms: Some(last),
        interrupted: 0,
        ..s
    };
    if now >= last && now - last >= 1000 {
        let kept = if s.samples.len() == SPEED_SAMPLES {
            s.samples.drop_last()
        } else {
            s.samples
        };
        ReaderView {
            samples: seq![this_sec as usize] + kept,
            downloaded_this_sec: 0,
            last_print_ms: Some(now),
            ..base
        }
    } else {
        base
    }
}

/// Wraps the statistics of one response body's download.
pub struct RemoteReader {
    /// The announced body length, if any.
    pub content_len: Option<usize>,
    pub total_downloaded: usize,
    pub downloaded_this_sec: usize,
    /// Bytes per second over the last few seconds, newest first.
    pub downloaded_last_few_secs: VecDeque<usize>,
    pub start_ms: u64,
    pub last_print_ms: Option<u64>,
    /// Interrupted reads since the last data.
    pub interrupted: usize,
}

impl View for RemoteReader {
    type V = ReaderView;

    open spec fn view(&self) -> ReaderView {
        ReaderView {
            content_len: self.content_len,
            total_downloaded: self.total_downloaded as nat,
            downloaded_this_sec: self.downloaded_this_sec as nat,
            samples: self.downloaded_last_few_secs@,
            start_ms: self.start_ms,
            last_print_ms: self.last_print_ms,
            interrupted: self.interrupted as nat,
        }
    }
}

/// The mean of the samples, or the announced length (else 0) when there is
/// none yet.
pub open spec fn speed_spec(s: ReaderView) -> nat {
    if s.samples.len() > 0 {
        seq_sum(s.samples) / s.samples.len()
    } else {
        match s.content_len {
            Some(c) => c as nat,
            None => 0,
        }
    }
}

/// The sum of a sequence of counts.
pub open spec fn seq_sum(s: Seq<usize>) -> nat
    decreases s.len(),
{
    if s.len() == 0 {
        0
    } else {
        seq_sum(s.drop_last()) + s.last() as nat
    }
}

impl RemoteReader {
    /// The window holds at most `SPEED_SAMPLES` samples, and this second's
    /// count is part of the total.
    pub open spec fn wf(&self) -> bool {
        &&& self.downloaded_last_few_secs@.len() <= SPEED_SAMPLES
        &&& self.downloaded_this_sec <= self.total_downloaded
    }

    /// The download speed in bytes per second: the mean of the samples, or
    /// the announced length when no second has passed yet.
    pub fn speed(&self) -> (r: usize)
        ensures
            r == speed_spec(self@),
    {
        let len = self.downloaded_last_few_secs.len();
        if len == 0 {
            return match self.content_len {
                Some(c) => c,
                None => 0,
            };
        }
        let mut sum: u128 = 0;
        let mut i: usize = 0;
        while i < len
            invariant
                len == self.downloaded_last_few_secs@.len(),
                i <= len,
                sum == seq_sum(self.downloaded_last_few_secs@.subrange(0, i as int)),
                sum <= i * (usize::MAX as nat),
                len <= usize::MAX,
            decreases len - i,
        {
            let ghost s = self.downloaded_last_few_secs@;
            assert(s.subrange(0, i + 1).drop_last() =~= s.subrange(0, i as int));
            proof {
                assert(sum + s[i as int] <= (i + 1) * (usize::MAX as nat)) by (nonlinear_arith)
                    requires
                        sum <= i * (usize::MAX as nat),
                        s[i as int] <= usize::MAX,
                ;
                assert((i + 1) * (usize::MAX as nat) <= (usize::MAX as nat) * (usize::MAX as nat))
                    by (nonlinear_arith)
                    requires
                        i + 1 <= usize::MAX,
                ;
            }
            sum = sum + self.downloaded_last_few_secs[i] as u128;
            i = i + 1;
        }
        assert(self.downloaded_last_few_secs@.subrange(0, len as int)
            =~= self.downloaded_last_few_secs@);
        proof {
            assert((sum as int) / (len as int) <= usize::MAX) by (nonlinear_arith)
                requires
                    sum <= len * (usize::MAX as nat),
                    len > 0,
            ;
        }
        (sum / (len as u128)) as usize
    }

    /// The seconds left at the current speed: the bytes still to come (none
    /// where more than announced arrived) over the speed; 0 at speed 0.
    /// `None` where no length was announced.
    pub fn eta_secs(&self) -> (r: Option<usize>)
        ensures
            match self.content_len {
                None => r is None,
                Some(c) => r == Some(
                    if speed_spec(self@) == 0 || c <= self.total_downloaded {
                        0usize
                    } else {
                        ((c - self.total_downloaded) as nat / speed_spec(self@)) as usize
                    },
                ),
            },
    {
        match self.content_len {
            None => None,
            Some(c) => {
                let speed = self.speed();
                if speed == 0 || c <= self.total_downloaded {
                    Some(0)
                } else {
                    Some((c - self.total_downloaded) / speed)
                }
            },
        }
    }

    /// Statistics for a body of `content_len` bytes (if announced), started at
    /// `now_ms`.
    pub fn new(content_len: Option<usize>, now_ms: u64) -> (r: RemoteReader)
        ensures
            r@ == (ReaderView {
                content_len,
                total_downloaded: 0,
                downloaded_this_sec: 0,
                samples: Seq::empty(),
                start_ms: now_ms,
                last_print_ms: None,
                interrupted: 0,
            }),
    {
        RemoteReader {
            content_len,
            total_downloaded: 0,
            downloaded_this_sec: 0,
            downloaded_last_few_secs: VecDeque::with_capacity(SPEED_SAMPLES),
            start_ms: now_ms,
            last_print_ms: None,
            interrupted: 0,
        }
    }

    /// Takes the outcome of one read at time `now_ms` and says what to do
    /// next. Data is counted; an end of body finishes; an interrupted read is
    /// retried unless too many came in a row; a failure aborts.
    pub fn on_read(&mut self, event: ReadEvent, now_ms: u64) -> (r: ReadStep)
        requires
            old(self).wf(),
            event matches ReadEvent::Data(n) ==> old(self).total_downloaded + n <= usize::MAX,
        ensures
            final(self).wf(),
            event == ReadEvent::Data(0) ==> r == ReadStep::Finish && final(self)@ == old(self)@,
            event == ReadEvent::Failed ==> r == ReadStep::Abort && final(self)@ == old(self)@,
            event matches ReadEvent::Data(n) ==> (n > 0 ==> r == ReadStep::Append(n)
                && final(self)@ == after_data(old(self)@, n as nat, now_ms)),
            event == ReadEvent::Interrupted && old(self).interrupted < MAX_INTERRUPTED_READS ==> r
                == ReadStep::Retry && final(self)@ == (ReaderView {
                interrupted: old(self)@.interrupted + 1,
                ..old(self)@
            }),
            event == ReadEvent::Interrupted && old(self).interrupted >= MAX_INTERRUPTED_READS ==> r
                == ReadStep::Abort && final(self)@ == old(self)@,
    {
        match event {
            ReadEvent::Data(n) => {
                if n == 0 {
                    return ReadStep::Finish;
                }
                self.interrupted = 0;
                let last = match self.last_print_ms {
                    Some(t) => t,
                    None => {
                        self.last_print_ms = Some(now_ms);
                        now_ms
                    },
                };
                self.total_downloaded = self.total_downloaded + n;
                self.downloaded_this_sec = self.downloaded_this_sec + n;
                if now_ms >= last && now_ms - last >= 1000 {
                    if self.downloaded_last_few_secs.len() == SPEED_SAMPLES {
                        self.downloaded_last_few_secs.pop_back();
                    }
                    self.downloaded_last_few_secs.push_front(self.downloaded_this_sec);
                    self.downloaded_this_sec = 0;
                    self.last_print_ms = Some(now_ms);
                }
                ReadStep::Append(n)
            },
            ReadEvent::Interrupted => {
                if self.interrupted < MAX_INTERRUPTED_READS {
                    self.interrupted = self.interrupted + 1;
                    ReadStep::Retry
                } else {
                    ReadStep::Abort
                }
            },
            ReadEvent::Failed => ReadStep::Abort,
        }
    }
}

/// The outcome of reading one chunk of a response body.
pub enum Chunk {
    /// The bytes read (none at the end of the body).
    Data(Vec<u8>),
    /// The read was interrupted before data was ready.
    Interrupted,
    /// The read failed, with the error's kind and message.
    Failed(IoKind, String),
}

/// Why a download stopped before the end of the body.
pub enum DownloadError {
    /// A read failed, with the error's kind and message.
    Read(IoKind, String),
    /// Too many reads in a row were interrupted.
    Interrupted,
    /// The body does not fit in memory.
    TooLarge,
}

/// Whether every character is an ASCII digit.
pub open spec fn all_digits(s: Seq<char>) -> bool {
    forall|i: int| 0 <= i < s.len() ==> 48 <= #[trigger] (s[i] as u32) <= 57
}

/// The value of a sequence of ASCII digits.
pub open spec fn digits_value(s: Seq<char>) -> int
    decreases s.len(),
{
    if s.len() == 0 {
        0
    } else {
        digits_value(s.drop_last()) * 10 + (s.last() as u32 - 48)
    }
}

/// The `usize` that a string denotes: an optional `+`, then one or more
/// ASCII digits whose value fits.
pub open spec fn parsed_usize(s: Seq<char>) -> Option<usize> {
    let body = if s.len() > 0 && s[0] == '+' {
        s.drop_first()
    } else {
        s
    };
    if body.len() > 0 && all_digits(body) && digits_value(body) <= usize::MAX {
        Some(digits_value(body) as usize)
    } else {
        None
    }
}

/// Relies on `str::parse::<usize>` (`usize::from_str`): an optional `+`,
/// then decimal digits, refused when empty, with any other character, or on
/// overflow.
#[verifier::external_body]
fn parse_usize(s: &str) -> (r: Option<usize>)
    ensures
        r == parsed_usize(s@),
{
    s.parse().ok()
}

/// The body length that a `Content-Length` header announces, if it is a
/// number.
pub fn content_length(header: Option<&str>) -> (r: Option<usize>)
    ensures
        match header {
            Some(h) => r == parsed_usize(h@),
            None => r is None,
        },
{
    match header {
        Some(h) => parse_usize(h),
        None => None,
    }
}

/// The mathematical value of a chunk read.
pub enum ChunkView {
    Data(Seq<u8>),
    Interrupted,
    Failed(IoKind, Seq<char>),
}

impl View for Chunk {
    type V = ChunkView;

    open spec fn view(&self) -> ChunkView {
        match self {
            Chunk::Data(b) => ChunkView::Data(b@),
            Chunk::Interrupted => ChunkView::Interrupted,
            Chunk::Failed(k, m) => ChunkView::Failed(*k, m@),
        }
    }
}

/// Where a download stands.
pub enum RunView {
    /// Reading on, with the data so far and the interrupted reads in a row.
    Running(Seq<u8>, nat),
    /// The body ended; its data.
    Done(Seq<u8>),
    /// A read failed, with this kind and message.
    Failed(IoKind, Seq<char>),
    /// Too many reads in a row were interrupted.
    GaveUp,
    /// The body would not fit in memory.
    TooLarge,
}

/// One read's effect on a running download with `data` so far, `interrupted`
/// interrupted reads in a row, and `total` bytes counted in all: a non-empty
/// chunk is appended, an empty one ends the body, an interrupted read is
/// retried below the cap, a failure ends the download.
pub open spec fn step_spec(data: Seq<u8>, interrupted: nat, total: nat, c: ChunkView) -> RunView {
    match c {
        ChunkView::Data(b) => if b.len() == 0 {
            RunView::Done(data)
        } else if total + b.len() > usize::MAX {
            RunView::TooLarge
        } else {
            RunView::Running(data + b, 0)
        },
        ChunkView::Interrupted => if interrupted < MAX_INTERRUPTED_READS {
            RunView::Running(data, interrupted + 1)
        } else {
            RunView::GaveUp
        },
        ChunkView::Failed(k, m) => RunView::Failed(k, m),
    }
}

/// Where a download that started with `total` bytes counted and
/// `interrupted` interrupted reads stands after the reads `trace`, in order.
pub open spec fn run_spec(trace: Seq<ChunkView>, total: nat, interrupted: nat) -> RunView
    decreases trace.len(),
{
    if trace.len() == 0 {
        RunView::Running(Seq::empty(), interrupted)
    } else {
        match run_spec(trace.drop_last(), total, interrupted) {
            RunView::Running(d, k) => step_spec(d, k, total + d.len(), trace.last()),
            other => other,
        }
    }
}

/// The views of the chunks read.
pub open spec fn chunk_views(trace: Seq<Chunk>) -> Seq<ChunkView> {
    trace.map_values(|c: Chunk| c@)
}

/// What one step of a download did.
pub enum Absorbed {
    /// Read on.
    Continue,
    /// The body is complete.
    Finished,
    /// The download ends with this error.
    Stopped(DownloadError),
}

/// The standing that a step's result and the data after it describe.
pub open spec fn absorbed_view(r: &Absorbed, data: Seq<u8>, interrupted: nat) -> RunView {
    match r {
        Absorbed::Continue => RunView::Running(data, interrupted),
        Absorbed::Finished => RunView::Done(data),
        Absorbed::Stopped(DownloadError::Read(k, m)) => RunView::Failed(*k, m@),
        Absorbed::Stopped(DownloadError::Interrupted) => RunView::GaveUp,
        Absorbed::Stopped(DownloadError::TooLarge) => RunView::TooLarge,
    }
}

/// Whether a download's result is what a finished run gives.
pub open spec fn result_matches(r: &Result<Vec<u8>, DownloadError>, run: RunView) -> bool {
    match run {
        RunView::Done(d) => r matches Ok(data) && data@ == d,
        RunView::Failed(k, m) => r matches Err(DownloadError::Read(k2, m2)) && k2 == k && m2@ == m,
        RunView::GaveUp => r matches Err(DownloadError::Interrupted),
        RunView::TooLarge => r matches Err(DownloadError::TooLarge),
        RunView::Running(_, _) => false,
    }
}

/// An interrupted read below the cap leaves the data as it was and counts
/// one more interruption; at the cap the download gives up. A failed read
/// ends the download with its kind and message whatever came before.
pub proof fn lemma_interrupted_and_failed_reads(
    trace: Seq<ChunkView>,
    total: nat,
    interrupted: nat,
    kind: IoKind,
    m: Seq<char>,
)
    requires
        run_spec(trace, total, interrupted) is Running,
    ensures
        ({
            let (d, k) = (
                run_spec(trace, total, interrupted)->Running_0,
                run_spec(trace, total, interrupted)->Running_1,
            );
            &&& k < MAX_INTERRUPTED_READS ==> run_spec(
                trace.push(ChunkView::Interrupted),
                total,
                interrupted,
            ) == RunView::Running(d, k + 1)
            &&& k >= MAX_INTERRUPTED_READS ==> run_spec(
                trace.push(ChunkView::Interrupted),
                total,
                interrupted,
            ) == RunView::GaveUp
            &&& run_spec(trace.push(ChunkView::Failed(kind, m)), total, interrupted) == RunView::Failed(
                kind,
                m,
            )
        }),
{
    assert(trace.push(ChunkView::Interrupted).drop_last() =~= trace);
    assert(trace.push(ChunkView::Failed(kind, m)).drop_last() =~= trace);
}

/// Whether `trace` is a sequence of outcomes that `read` may give, the
/// download still ran before its last one, and `r` is what the run gives.
pub open spec fn ended_by<R: Fn() -> Chunk>(
    read: R,
    trace: Seq<Chunk>,
    total: nat,
    interrupted: nat,
    r: &Result<Vec<u8>, DownloadError>,
) -> bool {
    &&& trace.len() > 0
    &&& forall|i: int| 0 <= i < trace.len() ==> #[trigger] read.ensures((), trace[i])
    &&& run_spec(chunk_views(trace).drop_last(), total, interrupted) is Running
    &&& result_matches(r, run_spec(chunk_views(trace), total, interrupted))
}

impl RemoteReader {
    /// Takes one read's outcome at time `now_ms`: appends a non-empty chunk
    /// to `data` (keeping the statistics), finishes on an empty one, retries
    /// an interrupted read below the cap and gives up at it, and stops on a
    /// failed read with its message.
    pub fn absorb(&mut self, data: &mut Vec<u8>, chunk: Chunk, now_ms: u64) -> (r: Absorbed)
        requires
            old(self).wf(),
            old(self).interrupted <= MAX_INTERRUPTED_READS,
        ensures
            final(self).wf(),
            final(self).content_len == old(self).content_len,
            final(self).interrupted <= MAX_INTERRUPTED_READS,
            absorbed_view(&r, final(data)@, final(self).interrupted as nat) == step_spec(
                old(data)@,
                old(self).interrupted as nat,
                old(self).total_downloaded as nat,
                chunk@,
            ),
            final(self).total_downloaded == old(self).total_downloaded + final(data)@.len() - old(
                data,
            )@.len(),
            chunk matches Chunk::Data(b) ==> (b@.len() > 0 && r is Continue ==> final(self)@
                == after_data(old(self)@, b@.len(), now_ms)),
    {
        match chunk {
            Chunk::Data(bytes) => {
                let n = bytes.len();
                if n == 0 {
                    self.on_read(ReadEvent::Data(0), now_ms);
                    return Absorbed::Finished;
                }
                if n > usize::MAX - self.total_downloaded {
                    return Absorbed::Stopped(DownloadError::TooLarge);
                }
                self.on_read(ReadEvent::Data(n), now_ms);
                append_bytes(data, bytes.as_slice());
                Absorbed::Continue
            },
            Chunk::Interrupted => {
                match self.on_read(ReadEvent::Interrupted, now_ms) {
                    ReadStep::Retry => Absorbed::Continue,
                    _ => Absorbed::Stopped(DownloadError::Interrupted),
                }
            },
            Chunk::Failed(k, m) => Absorbed::Stopped(DownloadError::Read(k, m)),
        }
    }

    /// Reads the body chunk by chunk through `read` until its end, keeping
    /// the statistics with the times `clock` gives (milliseconds). There is a
    /// sequence of outcomes that `read` may give, one per call, after which
    /// the download ended, and the result is what `run_spec` says of it: the
    /// non-empty chunks in order once an empty chunk ends the body, the
    /// kind and message of a failed read, or a give-up after `MAX_INTERRUPTED_READS`
    /// interrupted reads in a row.
    pub fn download<R, C>(&mut self, read: R, clock: C) -> (r: Result<Vec<u8>, DownloadError>) where
        R: Fn() -> Chunk,
        C: Fn() -> u64,

        requires
            old(self).wf(),
            old(self).interrupted <= MAX_INTERRUPTED_READS,
            read.requires(()),
            clock.requires(()),
        ensures
            final(self).wf(),
            final(self).content_len == old(self).content_len,
            exists|trace: Seq<Chunk>|
                #[trigger] ended_by(
                    read,
                    trace,
                    old(self).total_downloaded as nat,
                    old(self).interrupted as nat,
                    &r,
                ),
    {
        let ghost t0 = self.total_downloaded as nat;
        let ghost k0 = self.interrupted as nat;
        let mut data: Vec<u8> = Vec::new();
        let ghost mut trace: Seq<Chunk> = Seq::empty();
        assert(chunk_views(trace) =~= Seq::<ChunkView>::empty());
        loop
            invariant
                self.wf(),
                self.content_len == old(self).content_len,
                self.interrupted <= MAX_INTERRUPTED_READS,
                read.requires(()),
                clock.requires(()),
                self.total_downloaded == t0 + data@.len(),
                t0 == old(self).total_downloaded as nat,
                k0 == old(self).interrupted as nat,
                run_spec(chunk_views(trace), t0, k0) == RunView::Running(
                    data@,
                    self.interrupted as nat,
                ),
                forall|i: int| 0 <= i < trace.len() ==> #[trigger] read.ensures((), trace[i]),
            decreases usize::MAX - self.total_downloaded, MAX_INTERRUPTED_READS - self.interrupted,
        {
            let chunk = read();
            let now = clock();
            let ghost c = chunk;
            let ghost before = trace;
            proof {
                trace = trace.push(c);
                assert(chunk_views(trace).drop_last() =~= chunk_views(before));
                assert(chunk_views(trace).last() == c@);
                assert forall|i: int| 0 <= i < trace.len() implies #[trigger] read.ensures(
                    (),
                    trace[i],
                ) by {
                    if i < before.len() {
                        assert(trace[i] == before[i]);
                    }
                }
            }
            let ghost old_data = data@;
            let ghost old_k = self.interrupted as nat;
            let res = self.absorb(&mut data, chunk, now);
            proof {
                assert(run_spec(chunk_views(trace), t0, k0) == step_spec(
                    old_data,
                    old_k,
                    t0 + old_data.len(),
                    c@,
                ));
                assert(run_spec(chunk_views(trace).drop_last(), t0, k0) is Running);
            }
            match res {
                Absorbed::Continue => {},
                Absorbed::Finished => {
                    let r: Result<Vec<u8>, DownloadError> = Ok(data);
                    assert(result_matches(&r, run_spec(chunk_views(trace), t0, k0)));
                    assert(ended_by(read, trace, t0, k0, &r));
                    return r;
                },
                Absorbed::Stopped(e) => {
                    let r: Result<Vec<u8>, DownloadError> = Err(e);
                    assert(result_matches(&r, run_spec(chunk_views(trace), t0, k0)));
                    assert(ended_by(read, trace, t0, k0, &r));
                    return r;
                },
            }
        }
    }
}

/// Bytes in a kibibyte, a mebibyte and a gibibyte.
pub const KI: u128 = 1024;
pub const MI: u128 = 1048576;
pub const GI: u128 = 1073741824;

/// `size * 10 / unit` rounded to the nearest integer, ties to even: the
/// tenths of `size` in `unit`s.
pub open spec fn tenths(size: nat, unit: nat) -> nat
    recommends
        unit > 0,
{
    let q = size * 10 / unit;
    let r = size * 10 % unit;
    if 2 * r > unit || (2 * r == unit && q % 2 == 1) {
        q + 1
    } else {
        q
    }
}

/// A number of tenths written with one decimal.
pub open spec fn one_decimal(t: nat) -> Seq<char> {
    decimal(t / 10) + seq!['.', digit_char(t % 10)]
}

/// `s` right-aligned in a field of `width` characters.
pub open spec fn pad_left(s: Seq<char>, width: nat) -> Seq<char> {
    if s.len() >= width {
        s
    } else {
        Seq::new((width - s.len()) as nat, |i: int| ' ') + s
    }
}

/// A byte count in binary units: one decimal in GiB, MiB or KiB from 1 unit
/// up (in a field of five), plain bytes below 1 KiB (in a field of three).
pub open spec fn bytes_unit_text(size: nat) -> Seq<char> {
    if size >= GI {
        pad_left(one_decimal(tenths(size, GI as nat)), 5) + " GiB"@
    } else if size >= MI {
        pad_left(one_decimal(tenths(size, MI as nat)), 5) + " MiB"@
    } else if size >= KI {
        pad_left(one_decimal(tenths(size, KI as nat)), 5) + " KiB"@
    } else {
        pad_left(decimal(size), 3) + " B"@
    }
}

fn padded(s: String, width: usize) -> (r: String)
    ensures
        r@ == pad_left(s@, width as nat),
{
    let len = s.as_str().unicode_len();
    if len >= width {
        return s;
    }
    let mut out = String::new();
    let mut i: usize = 0;
    while i < width - len
        invariant
            i <= width - len,
            out@ == Seq::new(i as nat, |k: int| ' '),
        decreases width - len - i,
    {
        push_str(&mut out, " ");
        proof {
            reveal_strlit(" ");
        }
        i = i + 1;
        assert(out@ =~= Seq::new(i as nat, |k: int| ' '));
    }
    push_str(&mut out, s.as_str());
    out
}

fn scaled(size: u128, unit: u128) -> (r: String)
    requires
        0 < unit <= GI,
        size <= usize::MAX,
    ensures
        r@ == pad_left(one_decimal(tenths(size as nat, unit as nat)), 5),
{
    let q = size * 10 / unit;
    let rem = size * 10 % unit;
    let t = if 2 * rem > unit || (2 * rem == unit && q % 2 == 1) {
        q + 1
    } else {
        q
    };
    proof {
        assert((q as int) <= (size as int) * 10) by (nonlinear_arith)
            requires
                (q as int) == ((size as int) * 10) / (unit as int),
                unit > 0,
                size >= 0,
        ;
    }
    let mut out = String::new();
    push_decimal(&mut out, (t / 10) as u64);
    push_str(&mut out, ".");
    push_decimal(&mut out, (t % 10) as u64);
    proof {
        reveal_strlit(".");
        assert(decimal((t % 10) as nat) == seq![digit_char((t % 10) as nat)]);
    }
    assert(out@ =~= one_decimal(t as nat));
    padded(out, 5)
}

/// A byte count in binary units (`  1.5 KiB`, ` 12 B`).
pub fn as_bytes_unit(size: usize) -> (r: String)
    ensures
        r@ == bytes_unit_text(size as nat),
{
    let s = size as u128;
    proof {
        reveal_strlit(" GiB");
        reveal_strlit(" MiB");
        reveal_strlit(" KiB");
        reveal_strlit(" B");
    }
    let (mut out, suffix) = if s >= GI {
        (scaled(s, GI), " GiB")
    } else if s >= MI {
        (scaled(s, MI), " MiB")
    } else if s >= KI {
        (scaled(s, KI), " KiB")
    } else {
        let mut digits = String::new();
        push_decimal(&mut digits, size as u64);
        (padded(digits, 3), " B")
    };
    push_str(&mut out, suffix);
    out
}

/// A byte rate in binary units per second (`  1.5 KiB/s`).
pub fn as_throughput_unit(size: usize) -> (r: String)
    ensures
        r@ == bytes_unit_text(size as nat) + "/s"@,
{
    let mut out = as_bytes_unit(size);
    push_str(&mut out, "/s");
    out
}

} // verus!
