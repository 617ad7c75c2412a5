//! Decoder policies: which track of a container to decode, how many corrupt
//! frames in a row are dropped before a stream is given up, how much to read
//! ahead, and the messages shown when a file cannot be opened.
use vstd::prelude::*;

use crate::gapless::GaplessInfo;
use crate::text::{
    chars_eq, chars_of, chars_start_with, contains_seq, contains_str, lowercase, push_str, starts_with,
    string_of, unicode_lowercase,
};

verus! {

/// Max consecutive decode errors before a file is given up.
pub const MAX_CONSECUTIVE_DECODE_ERRORS: usize = 100;

/// Read-ahead for hi-res files.
pub const HI_RES_READ_AHEAD: usize = 4 * 1024 * 1024;

/// Read-ahead for standard files and live streams.
pub const STANDARD_READ_AHEAD: usize = 512 * 1024;

/// Read-ahead buffer for a decoder over in-memory bytes.
pub fn read_ahead_bytes(hi_res: bool) -> (r: usize)
    ensures
        r == (if hi_res {
            HI_RES_READ_AHEAD
        } else {
            STANDARD_READ_AHEAD
        }),
{
    if hi_res {
        HI_RES_READ_AHEAD
    } else {
        STANDARD_READ_AHEAD
    }
}

/// What the decoder does after a corrupt frame.
#[derive(Clone, Copy, Debug, PartialEq, Eq, Structural)]
pub enum FrameDrop {
    /// Drop the frame and read the next packet; `log` on the first drop of a
    /// run and on every tenth.
    Skip { log: bool },
    /// Too many in a row: the stream is unrecoverable.
    GiveUp,
}

/// Consecutive corrupt frames since the last good one.
pub struct DecodeErrorRun {
    count: usize,
}

impl DecodeErrorRun {
    pub closed spec fn count(&self) -> nat {
        self.count as nat
    }

    pub open spec fn wf(&self) -> bool {
        self.count() < MAX_CONSECUTIVE_DECODE_ERRORS
    }

    pub fn new() -> (r: Self)
        ensures
            r.wf(),
            r.count() == 0,
    {
        DecodeErrorRun { count: 0 }
    }

    pub fn consecutive(&self) -> (r: usize)
        ensures
            r == self.count(),
    {
        self.count
    }

    /// A frame decoded: the run is over.
    pub fn frame_decoded(&mut self)
        ensures
            final(self).count() == 0,
            final(self).wf(),
    {
        self.count = 0;
    }

    /// A frame failed to decode.
    pub fn frame_corrupt(&mut self) -> (r: FrameDrop)
        requires
            old(self).wf(),
        ensures
            final(self).count() == old(self).count() + 1,
            r == (if final(self).count() >= MAX_CONSECUTIVE_DECODE_ERRORS {
                FrameDrop::GiveUp
            } else {
                FrameDrop::Skip { log: final(self).count() == 1 || final(self).count() % 10 == 0 }
            }),
            r is Skip <==> final(self).wf(),
    {
        self.count = self.count + 1;
        if self.count >= MAX_CONSECUTIVE_DECODE_ERRORS {
            FrameDrop::GiveUp
        } else {
            FrameDrop::Skip { log: self.count == 1 || self.count % 10 == 0 }
        }
    }
}

/// What the decoder knows of one track of a container.
#[derive(Clone, Copy, Debug, PartialEq, Eq, Structural)]
pub struct TrackCodecInfo {
    /// The codec is the null codec (no decoder).
    pub codec_is_null: bool,
    /// The track declares a sample rate.
    pub has_sample_rate: bool,
}

/// A track the decoder may play: a real codec, and (for files, where cover
/// art may come as a video track) a sample rate.
pub open spec fn is_playable_track(t: TrackCodecInfo, need_sample_rate: bool) -> bool {
    !t.codec_is_null && (!need_sample_rate || t.has_sample_rate)
}

/// The first playable track, if any.
pub fn select_audio_track(tracks: &Vec<TrackCodecInfo>, need_sample_rate: bool) -> (r: Option<
    usize,
>)
    ensures
        match r {
            Some(i) => i < tracks@.len() && is_playable_track(tracks@[i as int], need_sample_rate)
                && forall|j: int| 0 <= j < i ==> !is_playable_track(tracks@[j], need_sample_rate),
            None => forall|j: int|
                0 <= j < tracks@.len() ==> !is_playable_track(tracks@[j], need_sample_rate),
        },
{
    let mut i: usize = 0;
    while i < tracks.len()
        invariant
            i <= tracks@.len(),
            forall|j: int| 0 <= j < i ==> !is_playable_track(tracks@[j], need_sample_rate),
        decreases tracks@.len() - i,
    {
        let t = tracks[i];
        if !t.codec_is_null && (!need_sample_rate || t.has_sample_rate) {
            return Some(i);
        }
        i = i + 1;
    }
    None
}

/// The hint shown in messages: the format hint, or "unknown".
pub open spec fn hint_text(hint: Option<Seq<char>>) -> Seq<char> {
    match hint {
        Some(h) => h,
        None => "unknown"@,
    }
}

pub open spec fn probe_message_spec(hint: Option<Seq<char>>, error: Seq<char>, unsupported: bool) -> Seq<char> {
    if unsupported {
        "unsupported format: ."@ + hint_text(hint) + " files cannot be played (no demuxer)"@
    } else {
        "could not open audio stream (."@ + hint_text(hint) + "): "@ + error
    }
}

pub open spec fn opt_str_view(o: Option<&str>) -> Option<Seq<char>> {
    match o {
        Some(s) => Some(s@),
        None => None,
    }
}

/// Message for a container that could not be probed, given the error text
/// and its lowercased form (which decides whether it reads "unsupported").
pub fn probe_failure_text(format_hint: Option<&str>, error: &str, lowered_error: &str) -> (r: String)
    ensures
        r@ == probe_message_spec(
            opt_str_view(format_hint),
            error@,
            contains_seq(lowered_error@, "unsupported"@),
        ),
{
    let lv = chars_of(lowered_error);
    let unsupported = contains_str(&lv, "unsupported");
    let mut v: Vec<char> = Vec::new();
    if unsupported {
        push_str(&mut v, "unsupported format: .");
    } else {
        push_str(&mut v, "could not open audio stream (.");
    }
    match format_hint {
        Some(h) => push_str(&mut v, h),
        None => push_str(&mut v, "unknown"),
    }
    if unsupported {
        push_str(&mut v, " files cannot be played (no demuxer)");
    } else {
        push_str(&mut v, "): ");
        push_str(&mut v, error);
    }
    string_of(&v)
}

/// Message for a container that could not be probed.
pub fn probe_error_message(format_hint: Option<&str>, error: &str) -> (r: String)
    ensures
        r@ == probe_message_spec(
            opt_str_view(format_hint),
            error@,
            contains_seq(unicode_lowercase(error@), "unsupported"@),
        ),
{
    let low = lowercase(error);
    probe_failure_text(format_hint, error, low.as_str())
}

pub open spec fn codec_message_spec(error: Seq<char>, unsupported: bool) -> Seq<char> {
    if unsupported {
        "unsupported codec: no decoder available for this audio format"@
    } else {
        "failed to initialise audio decoder: "@ + error
    }
}

/// Message for a codec that could not be initialised, given the error text
/// and its lowercased form (which decides whether it reads "unsupported").
pub fn codec_failure_text(error: &str, lowered_error: &str) -> (r: String)
    ensures
        r@ == codec_message_spec(error@, contains_seq(lowered_error@, "unsupported"@)),
{
    let lv = chars_of(lowered_error);
    let unsupported = contains_str(&lv, "unsupported");
    let mut v: Vec<char> = Vec::new();
    if unsupported {
        push_str(&mut v, "unsupported codec: no decoder available for this audio format");
    } else {
        push_str(&mut v, "failed to initialise audio decoder: ");
        push_str(&mut v, error);
    }
    string_of(&v)
}

/// Message for a codec that could not be initialised.
pub fn codec_error_message(error: &str) -> (r: String)
    ensures
        r@ == codec_message_spec(error@, contains_seq(unicode_lowercase(error@), "unsupported"@)),
{
    let low = lowercase(error);
    codec_failure_text(error, low.as_str())
}

/// A decoded stream is resampled when a target rate is set and differs.
pub open spec fn resamples(sample_rate: u32, target_rate: u32) -> bool {
    target_rate > 0 && sample_rate != target_rate
}

/// The rate a source is played at: the target when it resamples, else its own.
pub fn output_rate(sample_rate: u32, target_rate: u32) -> (r: u32)
    ensures
        r == (if resamples(sample_rate, target_rate) {
            target_rate
        } else {
            sample_rate
        }),
{
    if target_rate > 0 && sample_rate != target_rate {
        target_rate
    } else {
        sample_rate
    }
}

/// Encoder delay or padding is trimmed when the file declares either.
pub fn gapless_trim_needed(info: &GaplessInfo) -> (r: bool)
    ensures
        r == (info.delay_samples > 0 || info.total_valid_samples is Some),
{
    info.delay_samples > 0 || info.total_valid_samples.is_some()
}

/// Short names of lossless codecs other than PCM.
pub open spec fn lossless_codec_names() -> Seq<Seq<char>> {
    seq!["flac"@, "alac"@, "wavpack"@, "monkeys-audio"@, "tta"@, "shorten"@]
}

/// A codec is lossless: any PCM variant, or one of the listed codecs.
pub open spec fn lossless_codec_spec(name: Seq<char>) -> bool {
    starts_with(name, "pcm"@) || lossless_codec_names().contains(name)
}

/// Whether the codec with this short name decodes losslessly.
pub fn codec_is_lossless(name: &str) -> (r: bool)
    ensures
        r == lossless_codec_spec(name@),
{
    let v = chars_of(name);
    let pcm = chars_of("pcm");
    if chars_start_with(&v, &pcm) {
        return true;
    }
    let names = ["flac", "alac", "wavpack", "monkeys-audio", "tta", "shorten"];
    let mut i: usize = 0;
    while i < 6
        invariant
            i <= 6,
            v@ == name@,
            forall|j: int| 0 <= j < 6 ==> (#[trigger] names@[j])@ == lossless_codec_names()[j],
            forall|j: int| 0 <= j < i ==> lossless_codec_names()[j] != name@,
        decreases 6 - i,
    {
        let w = chars_of(names[i]);
        if chars_eq(&v, &w) {
            assert(lossless_codec_names()[i as int] == name@);
            return true;
        }
        i = i + 1;
    }
    assert(!lossless_codec_names().contains(name@));
    false
}

/// Whether the playing thread was already promoted to the pro-audio class.
pub struct PriorityBoost {
    promoted: bool,
}

impl PriorityBoost {
    pub closed spec fn promoted(&self) -> bool {
        self.promoted
    }

    pub fn new() -> (r: Self)
        ensures
            !r.promoted(),
    {
        PriorityBoost { promoted: false }
    }

    /// Called for each sample: `true` exactly for the first one, when the
    /// render thread is to be promoted.
    pub fn on_sample(&mut self) -> (r: bool)
        ensures
            r == !old(self).promoted(),
            final(self).promoted(),
    {
        if self.promoted {
            false
        } else {
            self.promoted = true;
            true
        }
    }
}

/// While refining a coarse seek, a packet of `packet_dur` samples is decoded
/// when it reaches past the samples still to pass (`None`); otherwise it is
/// skipped and that many fewer remain.
pub fn refine_skip(samples_to_pass: u64, packet_dur: u64) -> (r: Option<u64>)
    ensures
        r == (if packet_dur > samples_to_pass {
            None::<u64>
        } else {
            Some((samples_to_pass - packet_dur) as u64)
        }),
{
    if packet_dur > samples_to_pass {
        None
    } else {
        Some(samples_to_pass - packet_dur)
    }
}

/// Sample offset in the first decoded buffer after a seek: the frames still
/// to pass, interleaved over `channels`, plus the position the old offset had
/// within its frame, so the channel order stays aligned.
pub fn seek_frame_offset(old_offset: usize, samples_left: usize, channels: usize) -> (r: usize)
    requires
        channels > 0,
        samples_left * channels + old_offset % channels <= usize::MAX,
    ensures
        r == samples_left * channels + old_offset % channels,
        r % channels == old_offset % channels,
{
    let frames = samples_left * channels;
    let within = old_offset % channels;
    proof {
        vstd::arithmetic::div_mod::lemma_mod_multiples_vanish(samples_left as int, within as int, channels as int);
        vstd::arithmetic::div_mod::lemma_small_mod(within as nat, channels as nat);
        vstd::arithmetic::mul::lemma_mul_is_commutative(samples_left as int, channels as int);
    }
    frames + within
}

} // verus!
