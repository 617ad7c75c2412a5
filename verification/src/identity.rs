//! Stable identity of a playback URL, and the small caches keyed by it.
//!
//! Subsonic `stream.view` URLs carry a fresh random salt on every call, so
//! two URLs for the same track differ in their `t`/`s` query parameters;
//! comparisons go through a stable key instead.
use vstd::prelude::*;

use crate::download::TRACK_STREAM_PROMOTE_MAX_BYTES;
use crate::text::{
    ascii_lower_seq, chars_eq, chars_of, chars_start_with, concat_chars, contains_seq, contains_str,
    dec_seq, find_chars, find_from, lemma_find_from, lower_ascii_chars, owned, push_dec, push_str,
    slice_chars, starts_with, string_of, trim_chars, trim_seq, TrimSet,
};

verus! {

/// The value of the first `&`-separated pair of `q` that begins with `id=`.
pub open spec fn first_id_value(q: Seq<char>) -> Option<Seq<char>>
    decreases q.len(),
{
    let e = match find_from(q, seq!['&'], 0) {
        Some(e) => e,
        None => q.len() as int,
    };
    proof {
        lemma_find_from(q, seq!['&'], 0);
    }
    let seg = q.subrange(0, e);
    if starts_with(seg, "id="@) {
        Some(seg.subrange("id="@.len() as int, seg.len() as int))
    } else if e >= q.len() {
        None
    } else {
        first_id_value(q.subrange(e + 1, q.len() as int))
    }
}

/// Stable key of a playback URL: `local:PATH` for `psysonic-local://PATH`,
/// `stream:ID` for a `stream.view` URL whose query (the text between the
/// first `?` and the next `?`) has an `id=ID` pair, else none.
pub open spec fn playback_identity_spec(u: Seq<char>) -> Option<Seq<char>> {
    if starts_with(u, "psysonic-local://"@) {
        Some("local:"@ + u.subrange("psysonic-local://"@.len() as int, u.len() as int))
    } else if !contains_seq(u, "stream.view"@) {
        None
    } else {
        match find_from(u, seq!['?'], 0) {
            None => None,
            Some(p) => {
                let rest = u.subrange(p + 1, u.len() as int);
                let qe = match find_from(rest, seq!['?'], 0) {
                    Some(e) => e,
                    None => rest.len() as int,
                };
                match first_id_value(rest.subrange(0, qe)) {
                    Some(v) => Some("stream:"@ + v),
                    None => None,
                }
            },
        }
    }
}

fn first_id_value_exec(q: &Vec<char>) -> (r: Option<Vec<char>>)
    ensures
        match r {
            Some(v) => first_id_value(q@) == Some(v@),
            None => first_id_value(q@) is None,
        },
{
    let amp = vec!['&'];
    let id_tag = chars_of("id=");
    let mut start: usize = 0;
    let len = q.len();
    assert(q@.subrange(0, len as int) =~= q@);
    while start <= len
        invariant
            len == q@.len(),
            amp@ == seq!['&'],
            id_tag@ == "id="@,
            start <= len,
            first_id_value(q@) == first_id_value(q@.subrange(start as int, len as int)),
        decreases len - start,
    {
        let rest = slice_chars(q, start, len);
        proof {
            lemma_find_from(rest@, seq!['&'], 0);
        }
        let e = match find_chars(&rest, &amp, 0) {
            Some(e) => e,
            None => rest.len(),
        };
        let seg = slice_chars(&rest, 0, e);
        if chars_start_with(&seg, &id_tag) {
            return Some(slice_chars(&seg, id_tag.len(), seg.len()));
        }
        if e >= rest.len() {
            return None;
        }
        proof {
            assert(rest@.subrange(e + 1, rest@.len() as int) =~= q@.subrange(
                start + e + 1,
                len as int,
            ));
        }
        start = start + e + 1;
    }
    None
}

/// Subsonic `buildStreamUrl()` uses a fresh random salt on every call, so two
/// URLs for the same track differ in `t`/`s` query params. Compare a stable key.
pub fn playback_identity(url: &str) -> (r: Option<String>)
    ensures
        match r {
            Some(s) => playback_identity_spec(url@) == Some(s@),
            None => playback_identity_spec(url@) is None,
        },
{
    let u = chars_of(url);
    let local = chars_of("psysonic-local://");
    if chars_start_with(&u, &local) {
        let mut out = chars_of("local:");
        let path = slice_chars(&u, local.len(), u.len());
        let res = concat_chars(&out, &path);
        return Some(string_of(res.as_slice()));
    }
    let sv = chars_of("stream.view");
    if find_chars(&u, &sv, 0).is_none() {
        return None;
    }
    assert(contains_seq(u@, "stream.view"@));
    let qm = vec!['?'];
    assert(qm@ == seq!['?']);
    let ulen = u.len();
    proof {
        lemma_find_from(u@, seq!['?'], 0);
    }
    let p = match find_chars(&u, &qm, 0) {
        Some(p) => p,
        None => return None,
    };
    assert(p + 1 <= ulen);
    let rest = slice_chars(&u, p + 1, ulen);
    proof {
        lemma_find_from(rest@, seq!['?'], 0);
    }
    let qe = match find_chars(&rest, &qm, 0) {
        Some(e) => e,
        None => rest.len(),
    };
    let q = slice_chars(&rest, 0, qe);
    match first_id_value_exec(&q) {
        Some(v) => {
            let prefix = chars_of("stream:");
            let res = concat_chars(&prefix, &v);
            Some(string_of(res.as_slice()))
        },
        None => None,
    }
}

/// Key for analysis cache rows: the trimmed logical track id when non-empty,
/// else the playback identity of the URL.
pub open spec fn analysis_cache_track_id_spec(logical: Option<Seq<char>>, url: Seq<char>) -> Option<
    Seq<char>,
> {
    match logical {
        Some(l) if trim_seq(l, TrimSet::Whitespace).len() > 0 => Some(
            trim_seq(l, TrimSet::Whitespace),
        ),
        _ => playback_identity_spec(url),
    }
}

/// Stable id for analysis cache rows and `analysis:waveform-updated`.
/// Prefers the Subsonic track id from the frontend.
pub fn analysis_cache_track_id(logical_track_id: Option<&str>, url: &str) -> (r: Option<String>)
    ensures
        match r {
            Some(s) => analysis_cache_track_id_spec(
                match logical_track_id {
                    Some(l) => Some(l@),
                    None => None,
                },
                url@,
            ) == Some(s@),
            None => analysis_cache_track_id_spec(
                match logical_track_id {
                    Some(l) => Some(l@),
                    None => None,
                },
                url@,
            ) is None,
        },
{
    if let Some(l) = logical_track_id {
        let v = chars_of(l);
        let t = trim_chars(&v, TrimSet::Whitespace);
        if t.len() > 0 {
            return Some(string_of(t.as_slice()));
        }
    }
    playback_identity(url)
}

/// Two URLs play the same thing: equal identities when both have one,
/// otherwise equal URLs.
pub open spec fn same_playback_target_spec(a: Seq<char>, b: Seq<char>) -> bool {
    match (playback_identity_spec(a), playback_identity_spec(b)) {
        (Some(x), Some(y)) => x == y,
        _ => a == b,
    }
}

/// Whether two URLs address the same playback target.
pub fn same_playback_target(a_url: &str, b_url: &str) -> (r: bool)
    ensures
        r == same_playback_target_spec(a_url@, b_url@),
{
    match (playback_identity(a_url), playback_identity(b_url)) {
        (Some(a), Some(b)) => a == b,
        _ => {
            let a = chars_of(a_url);
            let b = chars_of(b_url);
            chars_eq(&a, &b)
        },
    }
}

/// "Same playback target" is an equivalence: every URL is its own target,
/// the relation is symmetric, and it is transitive.
pub proof fn same_playback_target_is_equivalence(a: Seq<char>, b: Seq<char>, c: Seq<char>)
    ensures
        same_playback_target_spec(a, a),
        same_playback_target_spec(a, b) == same_playback_target_spec(b, a),
        same_playback_target_spec(a, b) && same_playback_target_spec(b, c) ==> same_playback_target_spec(a, c),
{
}

/// Decoder format hint for an HTTP `Content-Type` (case-insensitive).
pub open spec fn content_type_hint_spec(ct: Seq<char>) -> Option<Seq<char>> {
    let l = ascii_lower_seq(ct);
    if contains_seq(l, "mpeg"@) || contains_seq(l, "mp3"@) {
        Some("mp3"@)
    } else if contains_seq(l, "aac"@) || contains_seq(l, "aacp"@) {
        Some("aac"@)
    } else if contains_seq(l, "ogg"@) {
        Some("ogg"@)
    } else if contains_seq(l, "flac"@) {
        Some("flac"@)
    } else if contains_seq(l, "wav"@) || contains_seq(l, "wave"@) {
        Some("wav"@)
    } else if contains_seq(l, "opus"@) {
        Some("opus"@)
    } else {
        None
    }
}

/// Maps an HTTP `Content-Type` to a file-extension hint for the decoder.
pub fn content_type_to_hint(ct: &str) -> (r: Option<String>)
    ensures
        match r {
            Some(s) => content_type_hint_spec(ct@) == Some(s@),
            None => content_type_hint_spec(ct@) is None,
        },
{
    let v = chars_of(ct);
    let l = lower_ascii_chars(&v);
    if contains_str(&l, "mpeg") || contains_str(&l, "mp3") {
        Some(owned("mp3"))
    } else if contains_str(&l, "aac") || contains_str(&l, "aacp") {
        Some(owned("aac"))
    } else if contains_str(&l, "ogg") {
        Some(owned("ogg"))
    } else if contains_str(&l, "flac") {
        Some(owned("flac"))
    } else if contains_str(&l, "wav") || contains_str(&l, "wave") {
        Some(owned("wav"))
    } else if contains_str(&l, "opus") {
        Some(owned("opus"))
    } else {
        None
    }
}

/// Display name of a normalization mode (0 = off, 1 = ReplayGain, 2 = loudness).
pub fn normalization_engine_name(mode: u32) -> (r: &'static str)
    ensures
        r@ == (if mode == 1 {
            "replaygain"@
        } else if mode == 2 {
            "loudness"@
        } else {
            "off"@
        }),
{
    match mode {
        1 => "replaygain",
        2 => "loudness",
        _ => "off",
    }
}

/// Bytes of a track held in memory, and the URL they were fetched from.
pub struct PreloadedTrack {
    pub url: String,
    pub data: Vec<u8>,
}

/// Take (consume) completed manual-stream bytes if they correspond to `url`;
/// otherwise leave the slot as it is.
pub fn take_stream_completed_for_url(slot: &mut Option<PreloadedTrack>, url: &str) -> (r: Option<
    Vec<u8>,
>)
    ensures
        match *old(slot) {
            Some(p) => if same_playback_target_spec(p.url@, url@) {
                r == Some(p.data) && *final(slot) is None
            } else {
                r is None && *final(slot) == *old(slot)
            },
            None => r is None && *final(slot) is None,
        },
{
    let hit = match slot {
        Some(p) => same_playback_target(p.url.as_str(), url),
        None => false,
    };
    if hit {
        match slot.take() {
            Some(p) => Some(p.data),
            None => None,
        }
    } else {
        None
    }
}

/// `analysis_enqueue_seed_from_url` should bail while this track's ranged
/// HTTP buffer is still filling: `hold` names the `(track id, generation)`
/// being downloaded, if any.
pub fn ranged_loudness_backfill_should_defer(hold: &Option<(String, u64)>, track_id: &str) -> (r:
    bool)
    ensures
        r == (trim_seq(track_id@, TrimSet::Whitespace).len() > 0 && match hold {
            Some((t, _)) => t@ == trim_seq(track_id@, TrimSet::Whitespace),
            None => false,
        }),
{
    let v = chars_of(track_id);
    let tid = trim_chars(&v, TrimSet::Whitespace);
    if tid.len() == 0 {
        return false;
    }
    match hold {
        Some((t, _)) => {
            let tv = chars_of(t.as_str());
            chars_eq(&tv, &tid)
        },
        None => false,
    }
}

/// The Subsonic id pinned for the playing source (`current`) is `track_id`,
/// both compared after trimming; an empty id never matches.
pub fn analysis_track_id_is_current_playback(current: &Option<String>, track_id: &str) -> (r: bool)
    ensures
        r == (trim_seq(track_id@, TrimSet::Whitespace).len() > 0 && match current {
            Some(c) => trim_seq(c@, TrimSet::Whitespace) == trim_seq(
                track_id@,
                TrimSet::Whitespace,
            ),
            None => false,
        }),
{
    let v = chars_of(track_id);
    let needle = trim_chars(&v, TrimSet::Whitespace);
    if needle.len() == 0 {
        return false;
    }
    match current {
        Some(c) => {
            let cv = chars_of(c.as_str());
            let cur = trim_chars(&cv, TrimSet::Whitespace);
            if cur.len() == 0 {
                return false;
            }
            chars_eq(&cur, &needle)
        },
        None => false,
    }
}

/// Where track bytes come from once neither the completed-stream slot nor
/// the preload slot holds them.
#[derive(Debug)]
pub enum FetchSource {
    /// A file of the offline cache, at this path.
    LocalFile(String),
    /// An HTTP download.
    Http,
}

/// The source of a URL that no in-memory slot held: `psysonic-local://PATH`
/// is read from `PATH`, anything else is downloaded.
pub fn fetch_source(url: &str) -> (r: FetchSource)
    ensures
        match r {
            FetchSource::LocalFile(p) => starts_with(url@, "psysonic-local://"@) && p@ == url@.subrange(
                "psysonic-local://"@.len() as int,
                url@.len() as int,
            ),
            FetchSource::Http => !starts_with(url@, "psysonic-local://"@),
        },
{
    let v = chars_of(url);
    let p = chars_of("psysonic-local://");
    if chars_start_with(&v, &p) {
        let rest = slice_chars(&v, p.len(), v.len());
        FetchSource::LocalFile(string_of(&rest))
    } else {
        FetchSource::Http
    }
}

/// A URL as logged: everything before the first `?`, so credentials in
/// the query never reach the log.
pub fn log_safe_url(url: &str) -> (r: String)
    ensures
        r@ == match find_from(url@, seq!['?'], 0) {
            Some(i) => url@.subrange(0, i),
            None => url@,
        },
{
    let v = chars_of(url);
    let q = vec!['?'];
    assert(q@ =~= seq!['?']);
    proof {
        lemma_find_from(url@, seq!['?'], 0);
    }
    match find_chars(&v, &q, 0) {
        Some(i) => {
            string_of(&slice_chars(&v, 0, i))
        },
        None => string_of(&v),
    }
}

/// The error of a download answered with a non-2xx status; none when the
/// request was superseded by a newer one meanwhile (it ends quietly).
pub fn fetch_status_error(status: u16, superseded: bool) -> (r: Option<String>)
    ensures
        superseded ==> r is None,
        !superseded ==> (r matches Some(m) && m@ == "HTTP "@ + dec_seq(status as nat)),
{
    if superseded {
        return None;
    }
    let mut v: Vec<char> = Vec::new();
    push_str(&mut v, "HTTP ");
    push_dec(status as u64, &mut v);
    Some(string_of(&v))
}

/// The track id to seed full-track analysis from bytes already in memory:
/// the trimmed cache id when there is one, and the bytes are neither empty
/// nor larger than the promotion limit.
pub fn in_memory_seed_track(cache_track_id: Option<&str>, len: usize) -> (r: Option<String>)
    ensures
        match r {
            Some(t) => cache_track_id matches Some(id) && t@ == trim_seq(id@, TrimSet::Whitespace)
                && t@.len() > 0 && 0 < len <= TRACK_STREAM_PROMOTE_MAX_BYTES,
            None => match cache_track_id {
                Some(id) => trim_seq(id@, TrimSet::Whitespace).len() == 0 || len == 0 || len
                    > TRACK_STREAM_PROMOTE_MAX_BYTES,
                None => true,
            },
        },
{
    match cache_track_id {
        None => None,
        Some(id) => {
            let t = trim_chars(&chars_of(id), TrimSet::Whitespace);
            if t.len() == 0 || len == 0 || len > TRACK_STREAM_PROMOTE_MAX_BYTES {
                None
            } else {
                Some(string_of(&t))
            }
        },
    }
}

/// A finished ranged download releases the loudness seed hold only when the
/// hold still names its own track and generation (a newer play may have
/// taken it over).
pub fn seed_hold_released_by(hold: &Option<(String, u64)>, track_id: &str, generation: u64) -> (r: bool)
    ensures
        r == match hold {
            Some((t, g)) => t@ == track_id@ && *g == generation,
            None => false,
        },
{
    match hold {
        Some((t, g)) => {
            let a = chars_of(t.as_str());
            let b = chars_of(track_id);
            chars_eq(&a, &b) && *g == generation
        },
        None => false,
    }
}

} // verus!
