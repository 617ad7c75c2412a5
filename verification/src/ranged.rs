//! Cursors of the two streaming byte sources the decoder reads from.
//!
//! A ranged source has a known total size and a buffer that a download task
//! fills linearly from offset 0; reads wait until the bytes they need are
//! downloaded, and seeks only move the cursor. A ring-buffer source (radio, or
//! a track streamed without ranges) cannot seek; it can only tell its offset.
//! Each `read_step` is one pass of the reader's wait loop: the caller sleeps
//! on `Wait` and calls again.
use vstd::prelude::*;

verus! {

/// Where a seek is measured from, as in `std::io::SeekFrom`.
pub enum SeekOrigin {
    Start(u64),
    Current(i64),
    End(i64),
}

/// Why a seek was refused.
#[derive(PartialEq, Eq, Structural, Debug)]
pub enum SeekFailure {
    /// The target lies before offset 0.
    BeforeStart,
    /// The source cannot seek (only `Current(0)`, a tell, is answered).
    NotSeekable,
}

/// One pass of a reader's wait loop.
#[derive(PartialEq, Eq, Structural, Debug)]
pub enum ReadStep {
    /// Report end of stream (`Ok(0)`).
    EndOfStream,
    /// Hand this many bytes to the caller.
    Deliver(usize),
    /// No data came before the deadline.
    TimedOut,
    /// Nothing to hand out yet: sleep and call again.
    Wait,
}

/// Target of a seek on a source of `total` bytes with the cursor at `pos`,
/// computed in `i64` as the source does; `None` when it falls before 0.
pub open spec fn seek_target(pos: int, total: int, origin: SeekOrigin) -> Option<int> {
    let t: int = match origin {
        SeekOrigin::Start(p) => if p <= i64::MAX { p as int } else { -1 },
        SeekOrigin::Current(d) => pos + d,
        SeekOrigin::End(d) => total + d,
    };
    if t < 0 {
        None
    } else if t > total {
        Some(total)
    } else {
        Some(t)
    }
}

/// The seek can be computed without `i64` overflow.
pub open spec fn seek_in_range(pos: int, total: int, origin: SeekOrigin) -> bool {
    match origin {
        SeekOrigin::Start(_) => true,
        SeekOrigin::Current(d) => pos + d <= i64::MAX,
        SeekOrigin::End(d) => total + d <= i64::MAX,
    }
}

/// What one pass of the ranged reader does, and where the cursor ends.
pub open spec fn ranged_step_spec(
    pos: int,
    total: int,
    superseded: bool,
    want: int,
    downloaded: int,
    done: bool,
    deadline_passed: bool,
) -> (ReadStep, int) {
    let max_read = if total - pos < want { total - pos } else { want };
    if superseded || pos >= total || max_read == 0 {
        (ReadStep::EndOfStream, pos)
    } else if downloaded >= pos + max_read {
        (ReadStep::Deliver(max_read as usize), pos + max_read)
    } else if done {
        if downloaded > pos {
            (ReadStep::Deliver((downloaded - pos) as usize), downloaded)
        } else {
            (ReadStep::EndOfStream, pos)
        }
    } else if deadline_passed {
        (ReadStep::TimedOut, pos)
    } else {
        (ReadStep::Wait, pos)
    }
}

/// Cursor of a seekable source backed by a linearly filled buffer.
pub struct RangedCursor {
    pos: u64,
    total_size: u64,
}

impl RangedCursor {
    pub closed spec fn pos(&self) -> int {
        self.pos as int
    }

    pub closed spec fn total(&self) -> int {
        self.total_size as int
    }

    /// The cursor never passes the end, and offsets fit in `i64`.
    pub open spec fn wf(&self) -> bool {
        0 <= self.pos() <= self.total() <= i64::MAX
    }

    /// A cursor at offset 0 of a source of `total_size` bytes.
    pub fn new(total_size: u64) -> (r: Self)
        requires
            total_size <= i64::MAX,
        ensures
            r.wf(),
            r.pos() == 0,
            r.total() == total_size,
    {
        RangedCursor { pos: 0, total_size }
    }

    pub fn position(&self) -> (r: u64)
        ensures
            r == self.pos(),
    {
        self.pos
    }

    pub fn total_size(&self) -> (r: u64)
        ensures
            r == self.total(),
    {
        self.total_size
    }

    /// Move the cursor; a target past the end stops at the end, one before
    /// the start is refused and leaves the cursor where it was.
    pub fn seek(&mut self, origin: SeekOrigin) -> (r: Result<u64, SeekFailure>)
        requires
            old(self).wf(),
            seek_in_range(old(self).pos(), old(self).total(), origin),
        ensures
            final(self).wf(),
            final(self).total() == old(self).total(),
            match seek_target(old(self).pos(), old(self).total(), origin) {
                Some(t) => r == Ok::<u64, SeekFailure>(t as u64) && final(self).pos() == t,
                None => r == Err::<u64, SeekFailure>(SeekFailure::BeforeStart) && final(self).pos()
                    == old(self).pos(),
            },
    {
        let target: i64 = match origin {
            SeekOrigin::Start(p) => {
                if p > 0x7fff_ffff_ffff_ffffu64 {
                    -1
                } else {
                    p as i64
                }
            },
            SeekOrigin::Current(d) => self.pos as i64 + d,
            SeekOrigin::End(d) => self.total_size as i64 + d,
        };
        if target < 0 {
            return Err(SeekFailure::BeforeStart);
        }
        let t = target as u64;
        self.pos = if t > self.total_size {
            self.total_size
        } else {
            t
        };
        Ok(self.pos)
    }

    /// One pass of the read loop for a request of `want` bytes, given how far
    /// the buffer is filled, whether the download has ended, and whether the
    /// read's deadline has passed. A delivery starts at the cursor's old
    /// position and moves it forward by the delivered length.
    pub fn read_step(
        &mut self,
        superseded: bool,
        want: usize,
        downloaded: u64,
        done: bool,
        deadline_passed: bool,
    ) -> (r: ReadStep)
        requires
            old(self).wf(),
        ensures
            final(self).wf(),
            final(self).total() == old(self).total(),
            (r, final(self).pos()) == ranged_step_spec(
                old(self).pos(),
                old(self).total(),
                superseded,
                want as int,
                downloaded as int,
                done,
                deadline_passed,
            ),
            r matches ReadStep::Deliver(n) ==> 0 < n <= want && old(self).pos() + n <= downloaded
                && final(self).pos() == old(self).pos() + n,
    {
        if superseded || self.pos >= self.total_size {
            return ReadStep::EndOfStream;
        }
        let left = self.total_size - self.pos;
        let max_read: usize = if left < want as u64 {
            left as usize
        } else {
            want
        };
        if max_read == 0 {
            return ReadStep::EndOfStream;
        }
        let target_end = self.pos + max_read as u64;
        if downloaded >= target_end {
            self.pos = target_end;
            return ReadStep::Deliver(max_read);
        }
        if done {
            if downloaded > self.pos {
                let avail = (downloaded - self.pos) as usize;
                self.pos = downloaded;
                return ReadStep::Deliver(avail);
            }
            return ReadStep::EndOfStream;
        }
        if deadline_passed {
            ReadStep::TimedOut
        } else {
            ReadStep::Wait
        }
    }
}

/// Copy `len` bytes of `src` from `start` into the front of `dst`.
pub fn copy_out(src: &Vec<u8>, start: usize, len: usize, dst: &mut [u8])
    requires
        start + len <= src@.len(),
        len <= old(dst)@.len(),
    ensures
        final(dst)@.len() == old(dst)@.len(),
        final(dst)@.subrange(0, len as int) == src@.subrange(start as int, start + len),
        final(dst)@.subrange(len as int, final(dst)@.len() as int) == old(dst)@.subrange(
            len as int,
            old(dst)@.len() as int,
        ),
{
    let src_len = src.len();
    let mut i: usize = 0;
    while i < len
        invariant
            i <= len,
            start + len <= src@.len(),
            src_len == src@.len(),
            len <= old(dst)@.len(),
            dst@.len() == old(dst)@.len(),
            forall|k: int| 0 <= k < i ==> dst@[k] == src@[start + k],
            forall|k: int| len <= k < dst@.len() ==> dst@[k] == old(dst)@[k],
        decreases len - i,
    {
        dst[i] = src[start + i];
        i = i + 1;
    }
    assert(dst@.subrange(0, len as int) =~= src@.subrange(start as int, start + len));
    assert(dst@.subrange(len as int, dst@.len() as int) =~= old(dst)@.subrange(
        len as int,
        old(dst)@.len() as int,
    ));
}

/// What one pass of the ring-buffer reader does: `available` bytes wait in
/// the ring, `completed` says the producer has finished for good.
pub open spec fn stream_step_spec(
    superseded: bool,
    available: int,
    want: int,
    completed: bool,
    deadline_passed: bool,
) -> ReadStep {
    if superseded {
        ReadStep::EndOfStream
    } else if available > 0 {
        ReadStep::Deliver((if want < available { want } else { available }) as usize)
    } else if completed {
        ReadStep::EndOfStream
    } else if deadline_passed {
        ReadStep::TimedOut
    } else {
        ReadStep::Wait
    }
}

/// Offset of a non-seekable ring-buffer source, counted as bytes are read.
pub struct StreamOffset {
    pos: u64,
}

impl StreamOffset {
    pub closed spec fn pos(&self) -> int {
        self.pos as int
    }

    pub fn new() -> (r: Self)
        ensures
            r.pos() == 0,
    {
        StreamOffset { pos: 0 }
    }

    pub fn position(&self) -> (r: u64)
        ensures
            r == self.pos(),
    {
        self.pos
    }

    /// One pass of the read loop; a delivery of `n` bytes moves the offset by `n`.
    pub fn read_step(
        &mut self,
        superseded: bool,
        available: usize,
        want: usize,
        completed: bool,
        deadline_passed: bool,
    ) -> (r: ReadStep)
        requires
            old(self).pos() + want <= u64::MAX,
        ensures
            r == stream_step_spec(superseded, available as int, want as int, completed, deadline_passed),
            match r {
                ReadStep::Deliver(n) => final(self).pos() == old(self).pos() + n,
                _ => final(self).pos() == old(self).pos(),
            },
    {
        if superseded {
            return ReadStep::EndOfStream;
        }
        if available > 0 {
            let n = if want < available {
                want
            } else {
                available
            };
            self.pos = self.pos + n as u64;
            return ReadStep::Deliver(n);
        }
        if completed {
            ReadStep::EndOfStream
        } else if deadline_passed {
            ReadStep::TimedOut
        } else {
            ReadStep::Wait
        }
    }

    /// Only a tell (`Current(0)`) is answered, with the current offset.
    pub fn seek(&self, origin: SeekOrigin) -> (r: Result<u64, SeekFailure>)
        ensures
            r == (if origin == SeekOrigin::Current(0) {
                Ok::<u64, SeekFailure>(self.pos() as u64)
            } else {
                Err::<u64, SeekFailure>(SeekFailure::NotSeekable)
            }),
    {
        match origin {
            SeekOrigin::Current(d) => {
                if d == 0 {
                    Ok(self.pos)
                } else {
                    Err(SeekFailure::NotSeekable)
                }
            },
            _ => Err(SeekFailure::NotSeekable),
        }
    }
}

/// A tell never moves a ranged cursor, and a seek to an offset inside the
/// source lands exactly there, whatever the cursor's position.
pub proof fn ranged_seek_laws(pos: int, total: int, k: u64)
    requires
        0 <= pos <= total <= i64::MAX,
    ensures
        seek_target(pos, total, SeekOrigin::Current(0)) == Some(pos),
        k <= total ==> seek_target(pos, total, SeekOrigin::Start(k)) == Some(k as int),
        seek_target(pos, total, SeekOrigin::End(0)) == Some(total),
{
}

} // verus!
