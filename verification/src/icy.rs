//! Shoutcast/Icecast in-band metadata ("ICY").
//!
//! A server that honours `Icy-MetaData: 1` interleaves metadata blocks with
//! the audio: after every `metaint` audio bytes comes one length byte `N`,
//! followed by `N * 16` bytes of metadata text (`N == 0`: no metadata this
//! time). The interceptor strips the metadata so that only audio reaches the
//! decoder, and extracts `StreamTitle` / `StreamUrl` from each block.
use vstd::prelude::*;
use vstd::utf8::{decode_utf8, valid_utf8};

use crate::text::{
    occurs_at, chars_eq, chars_of, find_chars, find_from, lemma_find_from, slice_chars, string_of, trim_chars,
    trim_end_chars, trim_end_seq, trim_seq, TrimSet,
};

verus! {

// ---------------------------------------------------------------------------
// Metadata block parsing
// ---------------------------------------------------------------------------

/// What `String::from_utf8_lossy` yields for `bytes`: the decoded text, with
/// every invalid sequence replaced by U+FFFD.
pub uninterp spec fn utf8_lossy_decode(bytes: Seq<u8>) -> Seq<char>;

/// Calls `String::from_utf8_lossy`. Claims: the result is
/// `utf8_lossy_decode(raw)`, and for valid UTF-8 input it is the plain
/// decoding of the bytes (as the std documentation says). What it does with
/// invalid input is left unsaid beyond the name.
#[verifier::external_body]
fn lossy_utf8(raw: &[u8]) -> (s: String)
    ensures
        s@ == utf8_lossy_decode(raw@),
        valid_utf8(raw@) ==> s@ == decode_utf8(raw@),
{
    String::from_utf8_lossy(raw).into_owned()
}

/// Title and advertisement flag extracted from a metadata block.
#[derive(Debug)]
pub struct IcyMeta {
    pub title: String,
    /// `true` when `StreamUrl='0'`: a CDN-injected advertisement.
    pub is_ad: bool,
}

impl IcyMeta {
    /// The metadata as plain values: title characters and the ad flag.
    pub open spec fn view_pair(&self) -> (Seq<char>, bool) {
        (self.title@, self.is_ad)
    }
}

/// `Option<IcyMeta>` as plain values.
pub open spec fn opt_meta_view(m: Option<IcyMeta>) -> Option<(Seq<char>, bool)> {
    match m {
        Some(x) => Some(x.view_pair()),
        None => None,
    }
}

/// The text between `StreamUrl='` and the following `';` (or the end),
/// trimmed; empty when there is no `StreamUrl='`.
pub open spec fn icy_stream_url(s: Seq<char>) -> Seq<char> {
    match find_from(s, "StreamUrl='"@, 0) {
        Some(p) => {
            let rest = s.subrange(p + "StreamUrl='"@.len(), s.len() as int);
            let end = match find_from(rest, "';"@, 0) {
                Some(e) => e,
                None => rest.len() as int,
            };
            trim_seq(rest.subrange(0, end), TrimSet::Whitespace)
        },
        None => Seq::empty(),
    }
}

/// Title (between the first `StreamTitle='` and the next `';`, trimmed) and
/// ad flag of decoded metadata text; `None` when either delimiter is missing
/// or the title is empty.
pub open spec fn icy_meta_of_text(s: Seq<char>) -> Option<(Seq<char>, bool)> {
    match find_from(s, "StreamTitle='"@, 0) {
        None => None,
        Some(ts) => {
            let rest = s.subrange(ts + "StreamTitle='"@.len(), s.len() as int);
            match find_from(rest, "';"@, 0) {
                None => None,
                Some(te) => {
                    let title = trim_seq(rest.subrange(0, te), TrimSet::Whitespace);
                    if title.len() == 0 {
                        None
                    } else {
                        Some((title, icy_stream_url(s) == "0"@))
                    }
                },
            }
        },
    }
}

/// The title runs from the first `StreamTitle='` to the first `';` after
/// it: for metadata `StreamTitle='T';` followed by anything, where `T`
/// holds no `';` (an apostrophe not followed by `;` is part of the title)
/// and is not blank, the title is `T` trimmed.
pub proof fn icy_title_ends_at_first_close(t: Seq<char>, tail: Seq<char>)
    requires
        forall|i: int| 0 <= i < t.len() - 1 ==> !(#[trigger] t[i] == '\'' && t[i + 1] == ';'),
        trim_seq(t, TrimSet::Whitespace).len() > 0,
    ensures
        icy_meta_of_text("StreamTitle='"@ + t + "';"@ + tail) matches Some((title, _))
            && title == trim_seq(t, TrimSet::Whitespace),
{
    reveal_strlit("StreamTitle='");
    reveal_strlit("';");
    let open_tag = "StreamTitle='"@;
    let close = "';"@;
    let text = open_tag + t + close + tail;
    assert(text.subrange(0, open_tag.len() as int) =~= open_tag);
    assert(occurs_at(text, open_tag, 0));
    assert(find_from(text, open_tag, 0) == Some(0int));
    let rest = text.subrange(open_tag.len() as int, text.len() as int);
    assert(rest =~= t + close + tail);
    let n = t.len() as int;
    assert(rest.subrange(n, n + 2) =~= close);
    assert(occurs_at(rest, close, n));
    lemma_find_from(rest, close, 0);
    assert forall|k: int| 0 <= k < n implies !occurs_at(rest, close, k) by {
        if occurs_at(rest, close, k) {
            assert(rest.subrange(k, k + 2)[0] == rest[k]);
            assert(rest.subrange(k, k + 2)[1] == rest[k + 1]);
            assert(rest[k] == t[k]);
            if k + 1 < n {
                assert(rest[k + 1] == t[k + 1]);
            } else {
                assert(rest[k + 1] == close[0]);
            }
        }
    }
    assert(find_from(rest, close, 0) == Some(n));
    assert(rest.subrange(0, n) =~= t);
}

/// The metadata carried by a raw block: decode (lossy), drop trailing NUL
/// padding, then extract title and ad flag.
pub open spec fn icy_meta_spec(raw: Seq<u8>) -> Option<(Seq<char>, bool)> {
    icy_meta_of_text(trim_end_seq(utf8_lossy_decode(raw), TrimSet::Nul))
}

proof fn lemma_found_in_bounds(hay: Seq<char>, needle: Seq<char>)
    ensures
        find_from(hay, needle, 0) matches Some(p) ==> 0 <= p && p + needle.len() <= hay.len(),
{
    lemma_find_from(hay, needle, 0);
}

/// Extract `StreamTitle` and `StreamUrl` from a raw ICY metadata block.
/// Tolerates NUL padding and non-UTF-8 bytes (lossy conversion); a block
/// of valid UTF-8 is read as its plain decoding.
pub fn parse_icy_meta(raw: &[u8]) -> (r: Option<IcyMeta>)
    ensures
        opt_meta_view(r) == icy_meta_spec(raw@),
        valid_utf8(raw@) ==> opt_meta_view(r) == icy_meta_of_text(
            trim_end_seq(decode_utf8(raw@), TrimSet::Nul),
        ),
{
    let decoded = lossy_utf8(raw);
    icy_meta_from_text(decoded.as_str())
}

/// Title and ad flag of an already decoded metadata block, after dropping
/// its trailing NUL padding.
pub fn icy_meta_from_text(decoded: &str) -> (r: Option<IcyMeta>)
    ensures
        opt_meta_view(r) == icy_meta_of_text(trim_end_seq(decoded@, TrimSet::Nul)),
{
    let all = chars_of(decoded);
    let s = trim_end_chars(&all, TrimSet::Nul);
    let title_tag = chars_of("StreamTitle='");
    let end_tag = chars_of("';");
    let url_tag = chars_of("StreamUrl='");
    proof {
        lemma_found_in_bounds(s@, title_tag@);
        lemma_found_in_bounds(s@, url_tag@);
    }
    let ts = match find_chars(&s, &title_tag, 0) {
        Some(p) => p,
        None => return None,
    };
    let s_len = s.len();
    let tag_len = title_tag.len();
    assert(ts + tag_len <= s_len);
    let rest = slice_chars(&s, ts + tag_len, s_len);
    proof {
        lemma_found_in_bounds(rest@, end_tag@);
    }
    let te = match find_chars(&rest, &end_tag, 0) {
        Some(p) => p,
        None => return None,
    };
    let raw_title = slice_chars(&rest, 0, te);
    let title = trim_chars(&raw_title, TrimSet::Whitespace);
    if title.len() == 0 {
        return None;
    }
    let stream_url: Vec<char> = match find_chars(&s, &url_tag, 0) {
        Some(pos) => {
            let url_len = url_tag.len();
            assert(pos + url_len <= s_len);
            let rest2 = slice_chars(&s, pos + url_len, s_len);
            proof {
                lemma_found_in_bounds(rest2@, end_tag@);
            }
            let end = match find_chars(&rest2, &end_tag, 0) {
                Some(e) => e,
                None => rest2.len(),
            };
            let u = slice_chars(&rest2, 0, end);
            trim_chars(&u, TrimSet::Whitespace)
        },
        None => Vec::new(),
    };
    let zero = chars_of("0");
    let is_ad = chars_eq(&stream_url, &zero);
    proof {
        assert(stream_url@ == icy_stream_url(s@));
    }
    Some(IcyMeta { title: string_of(title.as_slice()), is_ad })
}

// ---------------------------------------------------------------------------
// Framing state machine
// ---------------------------------------------------------------------------

/// Where the interceptor is within the ICY framing.
pub enum IcyState {
    /// Forwarding audio bytes; `remaining` counts down to the next boundary.
    ReadingAudio { remaining: usize },
    /// Next byte is the metadata length multiplier N.
    ReadingLengthByte,
    /// Accumulating N×16 metadata bytes.
    ReadingMetadata { remaining: usize, buf: Vec<u8> },
}

/// The framing position as a mathematical value.
pub enum IcyPhase {
    Audio { remaining: nat },
    LengthByte,
    Metadata { remaining: nat, buf: Seq<u8> },
}

impl IcyState {
    pub open spec fn phase(&self) -> IcyPhase {
        match self {
            IcyState::ReadingAudio { remaining } => IcyPhase::Audio { remaining: *remaining as nat },
            IcyState::ReadingLengthByte => IcyPhase::LengthByte,
            IcyState::ReadingMetadata { remaining, buf } => IcyPhase::Metadata {
                remaining: *remaining as nat,
                buf: buf@,
            },
        }
    }
}

/// A metadata block is never of length zero while it is being read.
pub open spec fn phase_wf(p: IcyPhase) -> bool {
    p matches IcyPhase::Metadata { remaining, .. } ==> remaining > 0
}

/// Effect of reading the length byte `b`.
pub open spec fn icy_length_step(metaint: nat, b: u8) -> (IcyPhase, Seq<u8>, Option<
    Option<(Seq<char>, bool)>,
>) {
    if b == 0 {
        (IcyPhase::Audio { remaining: metaint }, Seq::empty(), None)
    } else {
        (IcyPhase::Metadata { remaining: (b as nat) * 16, buf: Seq::empty() }, Seq::empty(), None)
    }
}

/// Effect of one input byte: the next phase, the audio bytes forwarded, and,
/// when a metadata block completes, what that block parses to.
pub open spec fn icy_step(metaint: nat, p: IcyPhase, b: u8) -> (IcyPhase, Seq<u8>, Option<
    Option<(Seq<char>, bool)>,
>) {
    match p {
        IcyPhase::Audio { remaining } => {
            if remaining == 0 {
                icy_length_step(metaint, b)
            } else if remaining == 1 {
                (IcyPhase::LengthByte, seq![b], None)
            } else {
                (IcyPhase::Audio { remaining: (remaining - 1) as nat }, seq![b], None)
            }
        },
        IcyPhase::LengthByte => icy_length_step(metaint, b),
        IcyPhase::Metadata { remaining, buf } => {
            if remaining <= 1 {
                (IcyPhase::Audio { remaining: metaint }, Seq::empty(), Some(icy_meta_spec(buf.push(b))))
            } else {
                (IcyPhase::Metadata { remaining: (remaining - 1) as nat, buf: buf.push(b) }, Seq::empty(), None)
            }
        },
    }
}

/// Result of feeding a byte sequence to the interceptor.
pub struct IcyRun {
    /// Framing position afterwards.
    pub phase: IcyPhase,
    /// Audio bytes forwarded, in order.
    pub audio: Seq<u8>,
    /// `Some(m)` when at least one metadata block completed: `m` is what the
    /// last such block parsed to.
    pub completed: Option<Option<(Seq<char>, bool)>>,
}

/// Feeding `input` byte by byte, starting in phase `p`.
pub open spec fn icy_run(metaint: nat, p: IcyPhase, input: Seq<u8>) -> IcyRun
    decreases input.len(),
{
    if input.len() == 0 {
        IcyRun { phase: p, audio: Seq::empty(), completed: None }
    } else {
        let r = icy_run(metaint, p, input.drop_last());
        let (q, a, c) = icy_step(metaint, r.phase, input.last());
        IcyRun { phase: q, audio: r.audio + a, completed: if c is Some { c } else { r.completed } }
    }
}

/// What a call returns for a run: the last completed block's metadata, if any.
pub open spec fn icy_extracted(r: IcyRun) -> Option<(Seq<char>, bool)> {
    match r.completed {
        Some(m) => m,
        None => None,
    }
}

/// Feeding two chunks one after the other gives the same framing position
/// and the same audio as feeding their concatenation at once: how the HTTP
/// body happens to be split into chunks does not change what is stripped.
pub proof fn icy_chunking(metaint: nat, p: IcyPhase, a: Seq<u8>, b: Seq<u8>)
    ensures
        icy_run(metaint, p, a + b).phase == icy_run(metaint, icy_run(metaint, p, a).phase, b).phase,
        icy_run(metaint, p, a + b).audio == icy_run(metaint, p, a).audio + icy_run(
            metaint,
            icy_run(metaint, p, a).phase,
            b,
        ).audio,
        icy_run(metaint, p, a + b).completed == (if icy_run(
            metaint,
            icy_run(metaint, p, a).phase,
            b,
        ).completed is Some {
            icy_run(metaint, icy_run(metaint, p, a).phase, b).completed
        } else {
            icy_run(metaint, p, a).completed
        }),
    decreases b.len(),
{
    let ra = icy_run(metaint, p, a);
    if b.len() == 0 {
        assert(a + b =~= a);
        assert(ra.audio + Seq::<u8>::empty() =~= ra.audio);
    } else {
        icy_chunking(metaint, p, a, b.drop_last());
        assert((a + b).drop_last() =~= a + b.drop_last());
        assert((a + b).last() == b.last());
        let rb = icy_run(metaint, ra.phase, b.drop_last());
        let (q, x, c) = icy_step(metaint, rb.phase, b.last());
        assert(ra.audio + rb.audio + x =~= ra.audio + (rb.audio + x));
    }
}

/// Strips ICY metadata from a byte stream.
pub struct IcyInterceptor {
    state: IcyState,
    metaint: usize,
}

impl IcyInterceptor {
    /// Current framing position.
    pub closed spec fn phase(&self) -> IcyPhase {
        self.state.phase()
    }

    /// Audio bytes between metadata blocks.
    pub closed spec fn metaint(&self) -> nat {
        self.metaint as nat
    }

    /// The interceptor's invariant.
    pub closed spec fn wf(&self) -> bool {
        phase_wf(self.state.phase())
    }

    /// An interceptor at the start of an audio block of `metaint` bytes.
    pub fn new(metaint: usize) -> (r: Self)
        ensures
            r.wf(),
            r.metaint() == metaint,
            r.phase() == (IcyPhase::Audio { remaining: metaint as nat }),
    {
        IcyInterceptor { metaint, state: IcyState::ReadingAudio { remaining: metaint } }
    }

    /// Feed a raw HTTP chunk. Appends only audio bytes to `audio_out`.
    /// Returns the metadata of the last metadata block completed in this
    /// chunk (`None` when none completed or it held no title).
    pub fn process(&mut self, input: &[u8], audio_out: &mut Vec<u8>) -> (r: Option<IcyMeta>)
        requires
            old(self).wf(),
        ensures
            final(self).wf(),
            final(self).metaint() == old(self).metaint(),
            final(self).phase() == icy_run(old(self).metaint(), old(self).phase(), input@).phase,
            final(audio_out)@ == old(audio_out)@ + icy_run(
                old(self).metaint(),
                old(self).phase(),
                input@,
            ).audio,
            opt_meta_view(r) == icy_extracted(icy_run(old(self).metaint(), old(self).phase(), input@)),
    {
        let ghost p0 = self.state.phase();
        let ghost out0 = audio_out@;
        let ghost mi = self.metaint as nat;
        let metaint = self.metaint;
        let mut st = IcyState::ReadingLengthByte;
        std::mem::swap(&mut st, &mut self.state);
        let mut extracted: Option<IcyMeta> = None;
        let mut i: usize = 0;
        assert(input@.subrange(0, 0) =~= Seq::<u8>::empty());
        while i < input.len()
            invariant
                i <= input@.len(),
                mi == metaint,
                phase_wf(st.phase()),
                st.phase() == icy_run(mi, p0, input@.subrange(0, i as int)).phase,
                audio_out@ == out0 + icy_run(mi, p0, input@.subrange(0, i as int)).audio,
                opt_meta_view(extracted) == icy_extracted(
                    icy_run(mi, p0, input@.subrange(0, i as int)),
                ),
            decreases input@.len() - i,
        {
            let ghost before = icy_run(mi, p0, input@.subrange(0, i as int));
            proof {
                assert(input@.subrange(0, i + 1).drop_last() =~= input@.subrange(0, i as int));
                assert(input@.subrange(0, i + 1).last() == input@[i as int]);
            }
            match st {
                IcyState::ReadingAudio { remaining } if remaining > 0 => {
                    let avail = input.len() - i;
                    let n = if avail < remaining {
                        avail
                    } else {
                        remaining
                    };
                    let mut k: usize = 0;
                    let mut rem = remaining;
                    while k < n
                        invariant
                            i + n <= input.len(),
                            n <= remaining,
                            k <= n,
                            rem == remaining - k,
                            mi == metaint,
                            icy_run(mi, p0, input@.subrange(0, i + k)).phase == (if rem == 0 {
                                IcyPhase::LengthByte
                            } else {
                                IcyPhase::Audio { remaining: rem as nat }
                            }),
                            audio_out@ == out0 + icy_run(mi, p0, input@.subrange(0, i + k)).audio,
                            icy_run(mi, p0, input@.subrange(0, i + k)).completed == before.completed,
                            k == 0 ==> icy_run(mi, p0, input@.subrange(0, i + k)) == before,
                            rem > 0 || k > 0,
                        decreases n - k,
                    {
                        proof {
                            assert(input@.subrange(0, i + k + 1).drop_last() =~= input@.subrange(
                                0,
                                i + k,
                            ));
                            assert(input@.subrange(0, i + k + 1).last() == input@[i + k]);
                            let r0 = icy_run(mi, p0, input@.subrange(0, i + k));
                            assert(r0.audio + seq![input@[i + k]] =~= r0.audio.push(input@[i + k]));
                        }
                        audio_out.push(input[i + k]);
                        k += 1;
                        rem -= 1;
                    }
                    i += n;
                    if rem == 0 {
                        st = IcyState::ReadingLengthByte;
                    } else {
                        st = IcyState::ReadingAudio { remaining: rem };
                    }
                },
                IcyState::ReadingMetadata { remaining, mut buf } => {
                    let avail = input.len() - i;
                    let n = if avail < remaining {
                        avail
                    } else {
                        remaining
                    };
                    let mut k: usize = 0;
                    let mut rem = remaining;
                    while k < n
                        invariant
                            i + n <= input.len(),
                            n <= remaining,
                            remaining > 0,
                            k <= n,
                            rem == remaining - k,
                            mi == metaint,
                            k < n ==> icy_run(mi, p0, input@.subrange(0, i + k)).phase == (
                            IcyPhase::Metadata { remaining: rem as nat, buf: buf@ }),
                            k == n && rem > 0 ==> icy_run(mi, p0, input@.subrange(0, i + k)).phase
                                == (IcyPhase::Metadata { remaining: rem as nat, buf: buf@ }),
                            k == n && rem == 0 ==> icy_run(mi, p0, input@.subrange(0, i + k)).phase
                                == (IcyPhase::Audio { remaining: mi })
                                && icy_run(mi, p0, input@.subrange(0, i + k)).completed == Some(
                                icy_meta_spec(buf@),
                            ),
                            rem > 0 ==> icy_run(mi, p0, input@.subrange(0, i + k)).completed
                                == before.completed,
                            audio_out@ == out0 + icy_run(mi, p0, input@.subrange(0, i + k)).audio,
                        decreases n - k,
                    {
                        proof {
                            assert(input@.subrange(0, i + k + 1).drop_last() =~= input@.subrange(
                                0,
                                i + k,
                            ));
                            assert(input@.subrange(0, i + k + 1).last() == input@[i + k]);
                            let r0 = icy_run(mi, p0, input@.subrange(0, i + k));
                            assert(r0.audio + Seq::<u8>::empty() =~= r0.audio);
                        }
                        buf.push(input[i + k]);
                        k += 1;
                        rem -= 1;
                    }
                    i += n;
                    if rem == 0 {
                        extracted = parse_icy_meta(buf.as_slice());
                        st = IcyState::ReadingAudio { remaining: metaint };
                    } else {
                        st = IcyState::ReadingMetadata { remaining: rem, buf };
                    }
                },
                _ => {
                    let len_n = input[i];
                    i += 1;
                    if len_n == 0 {
                        st = IcyState::ReadingAudio { remaining: metaint };
                    } else {
                        let l: usize = (len_n as usize) * 16;
                        st = IcyState::ReadingMetadata { remaining: l, buf: Vec::with_capacity(l) };
                    }
                    proof {
                        let r0 = icy_run(mi, p0, input@.subrange(0, i - 1));
                        assert(r0.audio + Seq::<u8>::empty() =~= r0.audio);
                    }
                },
            }
        }
        assert(input@.subrange(0, input@.len() as int) =~= input@);
        self.state = st;
        extracted
    }
}

} // verus!
