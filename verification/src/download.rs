//! Decisions of the HTTP download tasks that feed playback: response
//! checks, range resumption, reconnect budgets, radio back-pressure, the
//! in-memory capture of a streamed track, and the linear fill of a ranged
//! buffer. The tasks themselves (awaits, sleeps, sockets) run outside; each
//! step here takes what they observed and says what to do next.
use vstd::prelude::*;

use crate::text::{dec_seq, push_dec, push_str, string_of};

verus! {

/// Consecutive body-stream failures tolerated for track streaming before abort.
pub const TRACK_STREAM_MAX_RECONNECTS: u32 = 3;

/// Max bytes kept in memory to promote a completed streamed track.
pub const TRACK_STREAM_PROMOTE_MAX_BYTES: usize = 64 * 1024 * 1024;

/// Consecutive failures after which a radio stream gives up.
pub const RADIO_MAX_CONSECUTIVE_FAILURES: u32 = 5;

/// Time at the stall threshold while paused before a radio hard-disconnect.
pub const RADIO_HARD_PAUSE_MS: u64 = 5000;

/// Bytes a ranged download needs before partial loudness is estimated.
pub const PARTIAL_LOUDNESS_MIN_BYTES: usize = 256 * 1024;

/// Minimum spacing of partial-loudness estimates.
pub const PARTIAL_LOUDNESS_EMIT_INTERVAL_MS: u64 = 900;

/// HTTP status 206, the answer owed to a range request.
pub const HTTP_PARTIAL_CONTENT: u16 = 206;

/// A 2xx status.
pub open spec fn status_success_spec(code: u16) -> bool {
    200 <= code <= 299
}

/// Whether an HTTP status code is in the success class (2xx).
pub fn status_is_success(code: u16) -> (r: bool)
    ensures
        r == status_success_spec(code),
{
    200 <= code && code <= 299
}

/// How a download task treats a response.
#[derive(PartialEq, Eq, Structural, Debug)]
pub enum ResponseVerdict {
    /// Read its body.
    Accept,
    /// A resumed request was not answered with 206: stop.
    NotPartial,
    /// The first request failed: stop.
    HttpFailure,
}

/// A response to a request made after `downloaded` bytes had arrived: a
/// resumed request must come back 206, a first one with any 2xx status.
pub fn check_stream_response(downloaded: u64, status: u16) -> (r: ResponseVerdict)
    ensures
        r == (if downloaded > 0 {
            if status == HTTP_PARTIAL_CONTENT {
                ResponseVerdict::Accept
            } else {
                ResponseVerdict::NotPartial
            }
        } else if status_success_spec(status) {
            ResponseVerdict::Accept
        } else {
            ResponseVerdict::HttpFailure
        }),
{
    if downloaded > 0 {
        if status == HTTP_PARTIAL_CONTENT {
            ResponseVerdict::Accept
        } else {
            ResponseVerdict::NotPartial
        }
    } else if status_is_success(status) {
        ResponseVerdict::Accept
    } else {
        ResponseVerdict::HttpFailure
    }
}

/// The `Range` header of a request that resumes after `downloaded` bytes;
/// a first request carries none.
pub fn range_header(downloaded: u64) -> (r: Option<String>)
    ensures
        match r {
            Some(h) => downloaded > 0 && h@ == "bytes="@ + dec_seq(downloaded as nat) + "-"@,
            None => downloaded == 0,
        },
{
    if downloaded == 0 {
        return None;
    }
    let mut v: Vec<char> = Vec::new();
    push_str(&mut v, "bytes=");
    push_dec(downloaded, &mut v);
    push_str(&mut v, "-");
    Some(string_of(&v))
}

/// Reconnects spent since the last chunk that arrived.
pub struct ReconnectBudget {
    used: u32,
}

impl ReconnectBudget {
    pub closed spec fn used(&self) -> nat {
        self.used as nat
    }

    pub open spec fn wf(&self) -> bool {
        self.used() <= TRACK_STREAM_MAX_RECONNECTS
    }

    pub fn new() -> (r: Self)
        ensures
            r.wf(),
            r.used() == 0,
    {
        ReconnectBudget { used: 0 }
    }

    pub fn used_count(&self) -> (r: u32)
        ensures
            r == self.used(),
    {
        self.used
    }

    /// A chunk arrived: the budget is whole again.
    pub fn reset(&mut self)
        ensures
            final(self).used() == 0,
            final(self).wf(),
    {
        self.used = 0;
    }

    /// A request or the body failed: take one more reconnect if the budget
    /// allows it (`true`), else give up (`false`, budget unchanged).
    pub fn spend(&mut self) -> (r: bool)
        requires
            old(self).wf(),
        ensures
            final(self).wf(),
            r == (old(self).used() < TRACK_STREAM_MAX_RECONNECTS),
            r ==> final(self).used() == old(self).used() + 1,
            !r ==> final(self).used() == old(self).used(),
    {
        if self.used >= TRACK_STREAM_MAX_RECONNECTS {
            false
        } else {
            self.used = self.used + 1;
            true
        }
    }
}

/// Whether a radio stream reconnects or gives up after its body broke off.
#[derive(PartialEq, Eq, Structural, Debug)]
pub enum RadioNext {
    Reconnect,
    GiveUp,
}

/// Byte count and consecutive-failure count of a radio session. A failure is
/// a body that broke off or ended; every chunk that arrives resets the count.
pub struct RadioLink {
    bytes_total: u64,
    failures: u32,
}

impl RadioLink {
    pub closed spec fn bytes_total(&self) -> nat {
        self.bytes_total as nat
    }

    pub closed spec fn failures(&self) -> nat {
        self.failures as nat
    }

    /// While a session streams, fewer failures than the limit have occurred.
    pub open spec fn streaming(&self) -> bool {
        self.failures() < RADIO_MAX_CONSECUTIVE_FAILURES
    }

    pub fn new() -> (r: Self)
        ensures
            r.bytes_total() == 0,
            r.failures() == 0,
            r.streaming(),
    {
        RadioLink { bytes_total: 0, failures: 0 }
    }

    pub fn bytes_received(&self) -> (r: u64)
        ensures
            r == self.bytes_total(),
    {
        self.bytes_total
    }

    pub fn consecutive_failures(&self) -> (r: u32)
        ensures
            r == self.failures(),
    {
        self.failures
    }

    /// A chunk of `len` bytes arrived.
    pub fn record_chunk(&mut self, len: u64)
        requires
            old(self).bytes_total() + len <= u64::MAX,
        ensures
            final(self).bytes_total() == old(self).bytes_total() + len,
            final(self).failures() == 0,
            final(self).streaming(),
    {
        self.bytes_total = self.bytes_total + len;
        self.failures = 0;
    }

    /// The body broke off or ended: count it, and reconnect unless this was
    /// the limit-th failure in a row.
    pub fn record_break(&mut self) -> (r: RadioNext)
        requires
            old(self).streaming(),
        ensures
            final(self).failures() == old(self).failures() + 1,
            final(self).bytes_total() == old(self).bytes_total(),
            r == (if final(self).failures() >= RADIO_MAX_CONSECUTIVE_FAILURES {
                RadioNext::GiveUp
            } else {
                RadioNext::Reconnect
            }),
            r == RadioNext::Reconnect <==> final(self).streaming(),
    {
        self.failures = self.failures + 1;
        if self.failures >= RADIO_MAX_CONSECUTIVE_FAILURES {
            RadioNext::GiveUp
        } else {
            RadioNext::Reconnect
        }
    }
}

/// What a radio task does before reading its next chunk.
#[derive(PartialEq, Eq, Structural, Debug)]
pub enum RadioBackpressure {
    /// Read the next chunk (and forget any stall).
    Proceed,
    /// The buffer is full while paused: keep (or start) the stall clock and wait.
    WaitStalled,
    /// The buffer is full while playing: clear the stall clock and wait.
    WaitPlaying,
    /// Paused at a full buffer for too long: drop the connection.
    HardPause,
}

/// Back-pressure for a radio task: `stalled_ms` is how long the buffer has
/// been full while paused, if the stall clock runs.
pub fn radio_backpressure(buffer_full: bool, paused: bool, stalled_ms: Option<u64>) -> (r:
    RadioBackpressure)
    ensures
        r == (if !buffer_full {
            RadioBackpressure::Proceed
        } else if !paused {
            RadioBackpressure::WaitPlaying
        } else {
            match stalled_ms {
                Some(ms) => if ms >= RADIO_HARD_PAUSE_MS {
                    RadioBackpressure::HardPause
                } else {
                    RadioBackpressure::WaitStalled
                },
                None => RadioBackpressure::WaitStalled,
            }
        }),
{
    if !buffer_full {
        RadioBackpressure::Proceed
    } else if !paused {
        RadioBackpressure::WaitPlaying
    } else {
        match stalled_ms {
            Some(ms) => {
                if ms >= RADIO_HARD_PAUSE_MS {
                    RadioBackpressure::HardPause
                } else {
                    RadioBackpressure::WaitStalled
                }
            },
            None => RadioBackpressure::WaitStalled,
        }
    }
}

/// Capture after one more piece of `bytes` was pushed to the player: kept
/// while everything so far fits the promotion limit, dropped for good once
/// it does not.
pub open spec fn capture_step(cap: (Seq<u8>, bool), bytes: Seq<u8>) -> (Seq<u8>, bool) {
    if cap.1 {
        cap
    } else if cap.0.len() + bytes.len() <= TRACK_STREAM_PROMOTE_MAX_BYTES {
        (cap.0 + bytes, false)
    } else {
        (Seq::empty(), true)
    }
}

/// Capture after a whole sequence of pushed pieces.
pub open spec fn capture_run(pieces: Seq<Seq<u8>>) -> (Seq<u8>, bool)
    decreases pieces.len(),
{
    if pieces.len() == 0 {
        (Seq::empty(), false)
    } else {
        capture_step(capture_run(pieces.drop_last()), pieces.last())
    }
}

/// All pushed pieces, in order.
pub open spec fn concat_pieces(pieces: Seq<Seq<u8>>) -> Seq<u8>
    decreases pieces.len(),
{
    if pieces.len() == 0 {
        Seq::empty()
    } else {
        concat_pieces(pieces.drop_last()) + pieces.last()
    }
}

/// In-memory copy of a streamed track, kept so a completed stream can be
/// replayed without another download.
pub struct StreamCapture {
    data: Vec<u8>,
    over_limit: bool,
}

impl StreamCapture {
    pub closed spec fn bytes(&self) -> Seq<u8> {
        self.data@
    }

    pub closed spec fn over_limit(&self) -> bool {
        self.over_limit
    }

    pub open spec fn state(&self) -> (Seq<u8>, bool) {
        (self.bytes(), self.over_limit())
    }

    pub open spec fn wf(&self) -> bool {
        &&& self.bytes().len() <= TRACK_STREAM_PROMOTE_MAX_BYTES
        &&& self.over_limit() ==> self.bytes().len() == 0
    }

    pub fn new() -> (r: Self)
        ensures
            r.wf(),
            r.state() == capture_run(Seq::empty()),
    {
        StreamCapture { data: Vec::new(), over_limit: false }
    }

    pub fn is_over_limit(&self) -> (r: bool)
        ensures
            r == self.over_limit(),
    {
        self.over_limit
    }

    /// Record bytes that were just pushed to the player.
    pub fn record(&mut self, bytes: &[u8])
        requires
            old(self).wf(),
        ensures
            final(self).wf(),
            final(self).state() == capture_step(old(self).state(), bytes@),
    {
        if self.over_limit {
            return;
        }
        if bytes.len() <= TRACK_STREAM_PROMOTE_MAX_BYTES - self.data.len() {
            let mut i: usize = 0;
            while i < bytes.len()
                invariant
                    i <= bytes@.len(),
                    self.data@ == old(self).data@ + bytes@.subrange(0, i as int),
                    !self.over_limit,
                    old(self).data@.len() + bytes@.len() <= TRACK_STREAM_PROMOTE_MAX_BYTES,
                decreases bytes@.len() - i,
            {
                self.data.push(bytes[i]);
                i = i + 1;
            }
            assert(bytes@.subrange(0, bytes@.len() as int) =~= bytes@);
        } else {
            self.data = Vec::new();
            self.over_limit = true;
        }
    }

    /// The captured bytes while the capture is kept.
    pub fn kept_bytes(&self) -> (r: Option<&[u8]>)
        ensures
            match r {
                Some(b) => !self.over_limit() && b@ == self.bytes(),
                None => self.over_limit(),
            },
    {
        if self.over_limit {
            None
        } else {
            Some(self.data.as_slice())
        }
    }

    /// A partial-loudness estimate is due: the capture is still kept and at
    /// least the emit interval passed since the last one.
    pub fn partial_loudness_due(&self, since_last_ms: u64) -> (r: bool)
        ensures
            r == (!self.over_limit() && since_last_ms >= PARTIAL_LOUDNESS_EMIT_INTERVAL_MS),
    {
        !self.over_limit && since_last_ms >= PARTIAL_LOUDNESS_EMIT_INTERVAL_MS
    }

    /// The bytes to promote for replay when the stream has ended: the whole
    /// capture if it was kept and is not empty.
    pub fn into_promotable(self) -> (r: Option<Vec<u8>>)
        ensures
            match r {
                Some(v) => !self.over_limit() && self.bytes().len() > 0 && v@ == self.bytes(),
                None => self.over_limit() || self.bytes().len() == 0,
            },
    {
        if !self.over_limit && self.data.len() > 0 {
            Some(self.data)
        } else {
            None
        }
    }
}

/// Total length of all pieces.
pub open spec fn pieces_len(pieces: Seq<Seq<u8>>) -> nat {
    concat_pieces(pieces).len()
}

/// A streamed track is kept for replay exactly when all of it fits the
/// promotion limit, and what is kept is then the stream itself, in order;
/// otherwise nothing is kept.
pub proof fn capture_keeps_whole_stream(pieces: Seq<Seq<u8>>)
    ensures
        pieces_len(pieces) <= TRACK_STREAM_PROMOTE_MAX_BYTES ==> capture_run(pieces) == (
            concat_pieces(pieces),
            false,
        ),
        pieces_len(pieces) > TRACK_STREAM_PROMOTE_MAX_BYTES ==> capture_run(pieces) == (
            Seq::<u8>::empty(),
            true,
        ),
    decreases pieces.len(),
{
    if pieces.len() > 0 {
        let init = pieces.drop_last();
        capture_keeps_whole_stream(init);
        assert(concat_pieces(pieces) == concat_pieces(init) + pieces.last());
        assert(pieces_len(pieces) == pieces_len(init) + pieces.last().len());
    }
}

/// Buffer and fill level after storing one chunk into a buffer of fixed
/// size: as much of the chunk as fits goes right after the filled prefix.
pub open spec fn fill_step(buf: Seq<u8>, d: nat, chunk: Seq<u8>) -> (Seq<u8>, nat) {
    if d >= buf.len() {
        (buf, d)
    } else {
        let n = if chunk.len() < buf.len() - d {
            chunk.len() as int
        } else {
            buf.len() - d
        };
        (buf.subrange(0, d as int) + chunk.subrange(0, n) + buf.subrange(d + n, buf.len() as int), (d
            + n) as nat)
    }
}

/// Buffer and fill level after storing a sequence of chunks from empty.
pub open spec fn fill_run(buf: Seq<u8>, chunks: Seq<Seq<u8>>) -> (Seq<u8>, nat)
    decreases chunks.len(),
{
    if chunks.len() == 0 {
        (buf, 0)
    } else {
        let prev = fill_run(buf, chunks.drop_last());
        fill_step(prev.0, prev.1, chunks.last())
    }
}

/// The bytes a ranged reader finds are the stream's own: after any sequence
/// of chunks, the buffer keeps its size, its filled prefix is the start of
/// the stream, and it is filled as far as the stream or the buffer goes.
pub proof fn ranged_buffer_holds_stream(buf: Seq<u8>, chunks: Seq<Seq<u8>>)
    ensures
        fill_run(buf, chunks).0.len() == buf.len(),
        fill_run(buf, chunks).1 == (if pieces_len(chunks) < buf.len() {
            pieces_len(chunks)
        } else {
            buf.len()
        }),
        fill_run(buf, chunks).0.subrange(0, fill_run(buf, chunks).1 as int) == concat_pieces(
            chunks,
        ).subrange(0, fill_run(buf, chunks).1 as int),
    decreases chunks.len(),
{
    if chunks.len() > 0 {
        let init = chunks.drop_last();
        ranged_buffer_holds_stream(buf, init);
        let prev = fill_run(buf, init);
        let c = chunks.last();
        assert(concat_pieces(chunks) == concat_pieces(init) + c);
        let cat = concat_pieces(chunks);
        let next = fill_step(prev.0, prev.1, c);
        if prev.1 < buf.len() {
            let d = prev.1 as int;
            let n = next.1 - d;
            assert(next.0.subrange(0, next.1 as int) =~= prev.0.subrange(0, d) + c.subrange(0, n));
            assert(cat.subrange(0, next.1 as int) =~= concat_pieces(init).subrange(0, d) + c.subrange(0, n));
        } else {
            assert(cat.subrange(0, next.1 as int) =~= concat_pieces(init).subrange(0, next.1 as int));
        }
    }
}

/// Any window of the buffer inside its filled prefix holds exactly the
/// stream's bytes at the same offsets, which is what a ranged reader
/// copies out.
pub proof fn ranged_reads_return_stream_bytes(buf: Seq<u8>, chunks: Seq<Seq<u8>>, start: int, n: int)
    requires
        0 <= start,
        0 <= n,
        start + n <= fill_run(buf, chunks).1,
    ensures
        fill_run(buf, chunks).0.subrange(start, start + n) == concat_pieces(chunks).subrange(start, start + n),
{
    ranged_buffer_holds_stream(buf, chunks);
    let d = fill_run(buf, chunks).1 as int;
    let b = fill_run(buf, chunks).0;
    let cat = concat_pieces(chunks);
    assert(b.subrange(start, start + n) =~= b.subrange(0, d).subrange(start, start + n));
    assert(cat.subrange(start, start + n) =~= cat.subrange(0, d).subrange(start, start + n));
}

/// What a ranged download does with a chunk.
#[derive(PartialEq, Eq, Structural, Debug)]
pub enum ChunkOutcome {
    /// The buffer was already full: stop reading.
    BufferFull,
    /// This many bytes were stored; `complete` once the buffer is full.
    Stored { stored: usize, complete: bool },
}

/// Linear fill of a pre-allocated buffer of a track's total size.
pub struct RangedDownload {
    downloaded: usize,
    total: usize,
}

impl RangedDownload {
    pub closed spec fn downloaded(&self) -> nat {
        self.downloaded as nat
    }

    pub closed spec fn total(&self) -> nat {
        self.total as nat
    }

    pub open spec fn wf(&self) -> bool {
        self.downloaded() <= self.total()
    }

    /// Nothing downloaded yet of a buffer of `total` bytes.
    pub fn new(total: usize) -> (r: Self)
        ensures
            r.wf(),
            r.downloaded() == 0,
            r.total() == total,
    {
        RangedDownload { downloaded: 0, total }
    }

    pub fn downloaded_bytes(&self) -> (r: usize)
        ensures
            r == self.downloaded(),
    {
        self.downloaded
    }

    /// Store as much of `chunk` as still fits, right after what is there.
    pub fn store_chunk(&mut self, buf: &mut Vec<u8>, chunk: &[u8]) -> (r: ChunkOutcome)
        requires
            old(self).wf(),
            old(buf)@.len() == old(self).total(),
        ensures
            final(self).wf(),
            final(self).total() == old(self).total(),
            final(buf)@.len() == old(buf)@.len(),
            (final(buf)@, final(self).downloaded()) == fill_step(old(buf)@, old(self).downloaded(), chunk@),
            old(self).downloaded() == old(self).total() ==> r == ChunkOutcome::BufferFull
                && final(self).downloaded() == old(self).downloaded() && final(buf)@ == old(buf)@,
            old(self).downloaded() < old(self).total() ==> {
                let d = old(self).downloaded() as int;
                let n = if chunk@.len() < old(self).total() - d {
                    chunk@.len() as int
                } else {
                    old(self).total() - d
                };
                &&& r == ChunkOutcome::Stored {
                    stored: n as usize,
                    complete: d + n >= old(self).total(),
                }
                &&& final(self).downloaded() == d + n
                &&& final(buf)@ == old(buf)@.subrange(0, d) + chunk@.subrange(0, n) + old(
                    buf,
                )@.subrange(d + n, old(buf)@.len() as int)
            },
    {
        let writable = self.total - self.downloaded;
        if writable == 0 {
            return ChunkOutcome::BufferFull;
        }
        let n = if chunk.len() < writable {
            chunk.len()
        } else {
            writable
        };
        let d = self.downloaded;
        let blen = buf.len();
        let mut i: usize = 0;
        while i < n
            invariant
                i <= n,
                blen == buf@.len(),
                d + n <= buf@.len(),
                n <= chunk@.len(),
                buf@.len() == old(buf)@.len(),
                forall|k: int| 0 <= k < d ==> buf@[k] == old(buf)@[k],
                forall|k: int| 0 <= k < i ==> buf@[d + k] == chunk@[k],
                forall|k: int| d + n <= k < buf@.len() ==> buf@[k] == old(buf)@[k],
            decreases n - i,
        {
            buf[d + i] = chunk[i];
            i = i + 1;
        }
        self.downloaded = d + n;
        assert(buf@ =~= old(buf)@.subrange(0, d as int) + chunk@.subrange(0, n as int) + old(
            buf,
        )@.subrange(d + n, old(buf)@.len() as int));
        ChunkOutcome::Stored { stored: n, complete: self.downloaded >= self.total }
    }

    /// A partial-loudness estimate is due.
    pub fn partial_loudness_due(&self, since_last_ms: u64) -> (r: bool)
        ensures
            r == (self.downloaded() >= PARTIAL_LOUDNESS_MIN_BYTES && self.total() > 0
                && since_last_ms >= PARTIAL_LOUDNESS_EMIT_INTERVAL_MS),
    {
        self.downloaded >= PARTIAL_LOUDNESS_MIN_BYTES && self.total > 0 && since_last_ms
            >= PARTIAL_LOUDNESS_EMIT_INTERVAL_MS
    }

    /// The finished buffer is kept for replay: the whole track arrived, it is
    /// not empty, and it fits the promotion limit.
    pub fn promotable(&self) -> (r: bool)
        ensures
            r == (self.downloaded() == self.total() && self.total() > 0 && self.total()
                <= TRACK_STREAM_PROMOTE_MAX_BYTES),
    {
        self.downloaded == self.total && self.total > 0 && self.total
            <= TRACK_STREAM_PROMOTE_MAX_BYTES
    }
}

} // verus!
