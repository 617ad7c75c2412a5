//! File layout for device sync (USB sticks, SD cards).
//!
//! Album tree: `{AlbumArtist}/{Album}/{TrackNum:02} - {Title}.{ext}`.
//! Playlist:   `Playlists/{PlaylistName}/{PlaylistIndex:02} - {Artist} - {Title}.{ext}`.
use vstd::prelude::*;

use crate::text::{
    chars_of, dec2_seq, dec_seq, in_trim_set, lemma_trim_idempotent, lemma_trim_shape, push_all,
    push_dec, push_dec2, push_str, starts_with, string_of, trim_chars, trim_end_seq, trim_seq,
    trim_start_seq, TrimSet,
};

verus! {

/// Characters not allowed in file names on Windows and most Unix file systems.
pub open spec fn is_forbidden_path_char(c: char) -> bool {
    c == '/' || c == '\\' || c == ':' || c == '*' || c == '?' || c == '"' || c == '<' || c == '>'
        || c == '|'
}

/// `char::is_control`: general category Cc.
pub open spec fn is_control_char(c: char) -> bool {
    c <= '\u{1f}' || ('\u{7f}' <= c && c <= '\u{9f}')
}

/// One character of a sanitized component.
pub open spec fn sanitize_char(c: char) -> char {
    if is_forbidden_path_char(c) || is_control_char(c) {
        '_'
    } else {
        c
    }
}

/// Forbidden and control characters become `_`; leading and trailing dots
/// and spaces are removed.
pub open spec fn sanitize_spec(s: Seq<char>) -> Seq<char> {
    trim_seq(s.map_values(|c: char| sanitize_char(c)), TrimSet::DotSpace)
}

/// The sanitized component, or `fallback` when it comes out empty.
pub open spec fn sanitize_or_spec(s: Seq<char>, fallback: Seq<char>) -> Seq<char> {
    if sanitize_spec(s).len() == 0 {
        fallback
    } else {
        sanitize_spec(s)
    }
}

fn sanitize_one(c: char) -> (r: char)
    ensures
        r == sanitize_char(c),
{
    if c == '/' || c == '\\' || c == ':' || c == '*' || c == '?' || c == '"' || c == '<' || c
        == '>' || c == '|' || c <= '\u{1f}' || ('\u{7f}' <= c && c <= '\u{9f}') {
        '_'
    } else {
        c
    }
}

fn sanitize_chars(v: &Vec<char>) -> (r: Vec<char>)
    ensures
        r@ == sanitize_spec(v@),
{
    let mut m: Vec<char> = Vec::new();
    let mut i: usize = 0;
    while i < v.len()
        invariant
            i <= v@.len(),
            m@ =~= v@.subrange(0, i as int).map_values(|c: char| sanitize_char(c)),
        decreases v@.len() - i,
    {
        m.push(sanitize_one(v[i]));
        i += 1;
    }
    assert(v@.subrange(0, v@.len() as int) =~= v@);
    trim_chars(&m, TrimSet::DotSpace)
}

/// Replaces characters that are invalid in file/directory names with an
/// underscore, and trims leading/trailing dots and spaces. Underscore (not
/// deletion) so that "AC/DC" and "ACDC" don't collapse into the same folder.
pub fn sanitize_path_component(s: &str) -> (r: String)
    ensures
        r@ == sanitize_spec(s@),
{
    let v = chars_of(s);
    let r = sanitize_chars(&v);
    string_of(r.as_slice())
}

fn sanitize_or_chars(s: &Vec<char>, fallback: &str) -> (r: Vec<char>)
    ensures
        r@ == sanitize_or_spec(s@, fallback@),
{
    let c = sanitize_chars(s);
    if c.len() == 0 {
        chars_of(fallback)
    } else {
        c
    }
}

/// Sanitize and replace an empty result with a placeholder.
pub fn sanitize_or(s: &str, fallback: &str) -> (r: String)
    ensures
        r@ == sanitize_or_spec(s@, fallback@),
{
    let v = chars_of(s);
    let r = sanitize_or_chars(&v, fallback);
    string_of(r.as_slice())
}

/// A sanitized component holds no forbidden or control character and does
/// not begin or end with a dot or a space; sanitizing it again changes
/// nothing.
pub proof fn sanitize_law(s: Seq<char>)
    ensures
        forall|k: int|
            0 <= k < sanitize_spec(s).len() ==> !is_forbidden_path_char(
                #[trigger] sanitize_spec(s)[k],
            ) && !is_control_char(sanitize_spec(s)[k]),
        sanitize_spec(s).len() > 0 ==> sanitize_spec(s)[0] != '.' && sanitize_spec(s)[0] != ' '
            && sanitize_spec(s).last() != '.' && sanitize_spec(s).last() != ' ',
        sanitize_spec(sanitize_spec(s)) == sanitize_spec(s),
{
    let m = s.map_values(|c: char| sanitize_char(c));
    lemma_trim_shape(m, TrimSet::DotSpace);
    let t = sanitize_spec(s);
    let (i, j) = choose|i: int, j: int| 0 <= i <= j <= m.len() && t == m.subrange(i, j);
    assert forall|k: int| 0 <= k < t.len() implies !is_forbidden_path_char(#[trigger] t[k])
        && !is_control_char(t[k]) by {
        assert(t[k] == m[i + k]);
        assert(m[i + k] == sanitize_char(s[i + k]));
    }
    if t.len() > 0 {
        assert(!in_trim_set(TrimSet::DotSpace, t[0]));
        assert(!in_trim_set(TrimSet::DotSpace, t.last()));
    }
    let m2 = t.map_values(|c: char| sanitize_char(c));
    assert(m2 =~= t);
    lemma_trim_idempotent(m, TrimSet::DotSpace);
}

/// Sanitizing keeps every character other than `/ \ : * ? " < > |` and the
/// control characters (U+0000–U+001F, U+007F–U+009F); accented and other
/// non-ASCII letters stay as they are. So a name made only of kept
/// characters, with no dot or space at either end, comes back unchanged.
pub proof fn sanitize_keeps_plain_names(s: Seq<char>)
    requires
        forall|k: int|
            0 <= k < s.len() ==> {
                let c = #[trigger] s[k];
                &&& c != '/' && c != '\\' && c != ':' && c != '*' && c != '?'
                &&& c != '"' && c != '<' && c != '>' && c != '|'
                &&& '\u{1f}' < c
                &&& !('\u{7f}' <= c && c <= '\u{9f}')
            },
        s.len() > 0 ==> s[0] != '.' && s[0] != ' ' && s.last() != '.' && s.last() != ' ',
    ensures
        sanitize_spec(s) == s,
{
    let m = s.map_values(|c: char| sanitize_char(c));
    assert(m =~= s);
    assert(trim_start_seq(s, TrimSet::DotSpace) == s);
    assert(trim_end_seq(s, TrimSet::DotSpace) == s);
}

/// Each of `/ \ : * ? " < > |` and each control character becomes `_`
/// before the ends are trimmed.
pub proof fn sanitize_replaces_forbidden(s: Seq<char>, k: int)
    requires
        0 <= k < s.len(),
        ({
            let c = s[k];
            c == '/' || c == '\\' || c == ':' || c == '*' || c == '?' || c == '"' || c == '<'
                || c == '>' || c == '|' || c <= '\u{1f}' || ('\u{7f}' <= c && c <= '\u{9f}')
        }),
    ensures
        s.map_values(|c: char| sanitize_char(c))[k] == '_',
{
}

/// What the device-sync code knows about one track.
#[derive(Clone, Debug)]
pub struct TrackSyncInfo {
    pub id: String,
    pub url: String,
    pub suffix: String,
    /// Track artist: used in playlist file names and `#EXTINF` lines.
    pub artist: String,
    /// Album artist: the top-level folder, so compilations stay together.
    pub album_artist: String,
    pub album: String,
    pub title: String,
    pub track_number: Option<u32>,
    /// Duration in seconds.
    pub duration: Option<u32>,
    /// Playlist context: the track goes into `Playlists/{name}/`.
    pub playlist_name: Option<String>,
    pub playlist_index: Option<u32>,
}

/// Relative device path of a track up to its extension: the
/// playlist folder when `playlist` is given, otherwise the album tree.
pub open spec fn track_path_parts_spec(
    artist: Seq<char>,
    album_artist: Seq<char>,
    album: Seq<char>,
    title: Seq<char>,
    track_number: Option<u32>,
    playlist: Option<(Seq<char>, u32)>,
) -> Seq<char> {
    match playlist {
        Some((name, idx)) => "Playlists/"@ + sanitize_or_spec(name, "Unnamed Playlist"@) + seq!['/']
            + dec2_seq(idx as nat) + " - "@ + sanitize_or_spec(artist, "Unknown Artist"@) + " - "@
            + sanitize_or_spec(title, "Unknown Title"@),
        None => sanitize_or_spec(album_artist, "Unknown Artist"@) + seq!['/'] + sanitize_or_spec(
            album,
            "Unknown Album"@,
        ) + seq!['/'] + match track_number {
            Some(n) => dec2_seq(n as nat),
            None => seq!['0', '0'],
        } + " - "@ + sanitize_or_spec(title, "Unknown Title"@),
    }
}

/// The playlist context of a track: both name and index must be present.
pub open spec fn playlist_context(t: TrackSyncInfo) -> Option<(Seq<char>, u32)> {
    match (t.playlist_name, t.playlist_index) {
        (Some(name), Some(idx)) => Some((name@, idx)),
        _ => None,
    }
}

/// Relative device path of a track, with its extension:
/// `{AlbumArtist}/{Album}/{TrackNum:02} - {Title}.{ext}` or
/// `Playlists/{PlaylistName}/{PlaylistIndex:02} - {Artist} - {Title}.{ext}`.
pub open spec fn track_path_spec(t: TrackSyncInfo) -> Seq<char> {
    track_path_parts_spec(
        t.artist@,
        t.album_artist@,
        t.album@,
        t.title@,
        t.track_number,
        playlist_context(t),
    ) + seq!['.'] + t.suffix@
}

fn push_sanitized_or(out: &mut Vec<char>, s: &String, fallback: &str)
    ensures
        final(out)@ == old(out)@ + sanitize_or_spec(s@, fallback@),
{
    let v = chars_of(s.as_str());
    let r = sanitize_or_chars(&v, fallback);
    push_all(out, &r);
}

/// Builds the fixed device path for a track, extension included: the
/// playlist folder when the track carries a playlist context, otherwise the
/// album tree.
pub fn build_track_path(track: &TrackSyncInfo) -> (r: String)
    ensures
        r@ == track_path_spec(*track),
{
    let mut out: Vec<char> = Vec::new();
    match (&track.playlist_name, track.playlist_index) {
        (Some(name), Some(idx)) => {
            push_str(&mut out, "Playlists/");
            push_sanitized_or(&mut out, name, "Unnamed Playlist");
            out.push('/');
            push_dec2(idx as u64, &mut out);
            push_str(&mut out, " - ");
            push_sanitized_or(&mut out, &track.artist, "Unknown Artist");
            push_str(&mut out, " - ");
            push_sanitized_or(&mut out, &track.title, "Unknown Title");
        },
        _ => {
            push_sanitized_or(&mut out, &track.album_artist, "Unknown Artist");
            out.push('/');
            push_sanitized_or(&mut out, &track.album, "Unknown Album");
            out.push('/');
            match track.track_number {
                Some(n) => push_dec2(n as u64, &mut out),
                None => {
                    out.push('0');
                    out.push('0');
                },
            }
            push_str(&mut out, " - ");
            push_sanitized_or(&mut out, &track.title, "Unknown Title");
        },
    }
    let ghost stem = out@;
    proof {
        let t = *track;
        match (t.playlist_name, t.playlist_index) {
            (Some(name), Some(idx)) => {
                assert(stem =~= track_path_parts_spec(
                    t.artist@,
                    t.album_artist@,
                    t.album@,
                    t.title@,
                    t.track_number,
                    playlist_context(t),
                ));
            },
            _ => {
                assert(stem =~= track_path_parts_spec(
                    t.artist@,
                    t.album_artist@,
                    t.album@,
                    t.title@,
                    t.track_number,
                    playlist_context(t),
                ));
            },
        }
    }
    out.push('.');
    push_str(&mut out, track.suffix.as_str());
    assert(out@ =~= track_path_spec(*track));
    string_of(out.as_slice())
}

/// `Path::new(base).join(rel)` on Unix, as text: an absolute `rel` replaces
/// `base`; otherwise a `/` goes between them unless `base` is empty or
/// already ends with one.
pub open spec fn path_join_spec(base: Seq<char>, rel: Seq<char>) -> Seq<char> {
    if rel.len() > 0 && rel[0] == '/' {
        rel
    } else if base.len() == 0 || base.last() == '/' {
        base + rel
    } else {
        base + seq!['/'] + rel
    }
}

/// Joins a relative path onto a directory, as `Path::join` does on Unix.
pub fn path_join(base: &str, rel: &Vec<char>) -> (r: Vec<char>)
    ensures
        r@ == path_join_spec(base@, rel@),
{
    if rel.len() > 0 && rel[0] == '/' {
        return rel.clone();
    }
    let mut out = chars_of(base);
    if out.len() > 0 && out[out.len() - 1] != '/' {
        out.push('/');
    }
    push_all(&mut out, rel);
    out
}

/// Absolute destination of a track on the device.
pub open spec fn sync_dest_spec(t: TrackSyncInfo, dest_dir: Seq<char>) -> Seq<char> {
    path_join_spec(dest_dir, track_path_spec(t))
}

/// Absolute destination of one track under `dest_dir`.
pub fn sync_dest_path(track: &TrackSyncInfo, dest_dir: &str) -> (r: String)
    ensures
        r@ == sync_dest_spec(*track, dest_dir@),
{
    let rel = build_track_path(track);
    let file_name = chars_of(rel.as_str());
    let p = path_join(dest_dir, &file_name);
    string_of(p.as_slice())
}

/// Computes the expected file paths for a batch of tracks under the fixed
/// schema. Used by the cleanup flow to find orphans.
pub fn compute_sync_paths(tracks: &Vec<TrackSyncInfo>, dest_dir: &str) -> (r: Vec<String>)
    ensures
        r@.len() == tracks@.len(),
        forall|i: int| 0 <= i < tracks@.len() ==> #[trigger] r@[i]@ == sync_dest_spec(tracks@[i], dest_dir@),
{
    let mut r: Vec<String> = Vec::new();
    let mut i: usize = 0;
    while i < tracks.len()
        invariant
            i <= tracks@.len(),
            r@.len() == i,
            forall|k: int| 0 <= k < i ==> #[trigger] r@[k]@ == sync_dest_spec(tracks@[k], dest_dir@),
        decreases tracks@.len() - i,
    {
        r.push(sync_dest_path(&tracks[i], dest_dir));
        i += 1;
    }
    r
}

/// A relative device path with Windows separators: every `/` becomes `\\`.
pub fn windows_relative_path(relative: &str) -> (r: String)
    ensures
        r@ == relative@.map_values(|c: char| if c == '/' { '\\' } else { c }),
{
    let v = chars_of(relative);
    let mut out: Vec<char> = Vec::new();
    let mut i: usize = 0;
    while i < v.len()
        invariant
            i <= v@.len(),
            v@ == relative@,
            out@ == v@.subrange(0, i as int).map_values(|c: char| if c == '/' { '\\' } else { c }),
        decreases v@.len() - i,
    {
        let c = v[i];
        out.push(if c == '/' { '\\' } else { c });
        proof {
            assert(v@.subrange(0, i + 1).map_values(|c: char| if c == '/' { '\\' } else { c }) =~= v@.subrange(
                0,
                i as int,
            ).map_values(|c: char| if c == '/' { '\\' } else { c }).push(if c == '/' { '\\' } else { c }));
        }
        i = i + 1;
    }
    assert(v@.subrange(0, v@.len() as int) =~= v@);
    string_of(&out)
}

} // verus!
