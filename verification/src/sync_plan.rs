//! Planning a device sync: which sources add and which delete, which
//! tracks each source contributes (deduplicated per source), where they go
//! on the device, and the byte and track totals shown before syncing.
use vstd::prelude::*;

use crate::sync_paths::{sanitize_or_spec, path_join_spec, sync_dest_path, sync_dest_spec, track_path_parts_spec, track_path_spec, TrackSyncInfo, playlist_context};
use crate::text::{chars_eq, chars_of, dec2_seq, trim_chars, trim_seq, TrimSet, owned};

verus! {

/// A sync source chosen in the UI: an album, a playlist or an artist.
#[derive(Clone, Debug)]
pub struct SyncSource {
    /// `"album"`, `"playlist"` or `"artist"`.
    pub source_type: String,
    pub id: String,
    /// Playlist display name (playlist sources only).
    pub name: Option<String>,
}

/// The fields of a Subsonic song entry that the sync plan reads.
#[derive(Clone, Debug)]
pub struct SongMeta {
    pub id: Option<String>,
    pub suffix: Option<String>,
    pub artist: Option<String>,
    pub album_artist: Option<String>,
    pub album: Option<String>,
    pub title: Option<String>,
    pub track: Option<u64>,
    pub duration: Option<u64>,
    pub size: Option<u64>,
}

/// Sources whose id is listed for deletion, and the others, both in order.
pub open spec fn split_sources_spec(sources: Seq<SyncSource>, deletion_ids: Seq<String>) -> (Seq<
    SyncSource,
>, Seq<SyncSource>)
    decreases sources.len(),
{
    if sources.len() == 0 {
        (Seq::empty(), Seq::empty())
    } else {
        let (d, a) = split_sources_spec(sources.drop_last(), deletion_ids);
        let s = sources.last();
        if exists|k: int| 0 <= k < deletion_ids.len() && deletion_ids[k]@ == s.id@ {
            (d.push(s), a)
        } else {
            (d, a.push(s))
        }
    }
}

fn id_listed(ids: &Vec<String>, id: &String) -> (r: bool)
    ensures
        r == exists|k: int| 0 <= k < ids@.len() && ids@[k]@ == id@,
{
    let mut k: usize = 0;
    while k < ids.len()
        invariant
            k <= ids@.len(),
            forall|j: int| 0 <= j < k ==> ids@[j]@ != id@,
        decreases ids@.len() - k,
    {
        if ids[k] == *id {
            return true;
        }
        k += 1;
    }
    false
}

fn copy_opt_string(o: &Option<String>) -> (r: Option<String>)
    ensures
        r == *o,
{
    match o {
        Some(s) => Some(s.clone()),
        None => None,
    }
}

fn copy_source(s: &SyncSource) -> (r: SyncSource)
    ensures
        r == *s,
{
    SyncSource { source_type: s.source_type.clone(), id: s.id.clone(), name: copy_opt_string(&s.name) }
}

/// Splits sources into those to delete (id listed in `deletion_ids`) and
/// those to add, keeping their order.
pub fn split_sync_sources(sources: Vec<SyncSource>, deletion_ids: &Vec<String>) -> (r: (
    Vec<SyncSource>,
    Vec<SyncSource>,
))
    ensures
        (r.0@, r.1@) == split_sources_spec(sources@, deletion_ids@),
{
    let mut del: Vec<SyncSource> = Vec::new();
    let mut add: Vec<SyncSource> = Vec::new();
    let mut i: usize = 0;
    assert(sources@.subrange(0, 0) =~= Seq::<SyncSource>::empty());
    while i < sources.len()
        invariant
            i <= sources@.len(),
            (del@, add@) == split_sources_spec(sources@.subrange(0, i as int), deletion_ids@),
        decreases sources@.len() - i,
    {
        let s = copy_source(&sources[i]);
        proof {
            let p = sources@.subrange(0, i + 1);
            assert(p.drop_last() =~= sources@.subrange(0, i as int));
            assert(p.last() == sources@[i as int]);
        }
        if id_listed(deletion_ids, &sources[i].id) {
            del.push(s);
        } else {
            add.push(s);
        }
        i += 1;
    }
    assert(sources@.subrange(0, sources@.len() as int) =~= sources@);
    (del, add)
}

/// How the songs of a source are fetched.
#[derive(Clone, Copy, Debug, PartialEq, Eq)]
pub enum SourceFetch {
    /// `getAlbum.view` with the source id.
    Album,
    /// `getPlaylist.view` with the source id.
    Playlist,
    /// `getArtist.view`, then `getAlbum.view` for each album.
    ArtistAlbums,
}

/// How a source's songs are fetched; `deleting` sources of type artist
/// contribute nothing.
pub fn source_fetch_kind(source_type: &str, deleting: bool) -> (r: Option<SourceFetch>)
    ensures
        r == (if source_type@ == "album"@ {
            Some(SourceFetch::Album)
        } else if source_type@ == "playlist"@ {
            Some(SourceFetch::Playlist)
        } else if source_type@ == "artist"@ && !deleting {
            Some(SourceFetch::ArtistAlbums)
        } else {
            None
        }),
{
    let t = chars_of(source_type);
    let album = chars_of("album");
    let playlist = chars_of("playlist");
    let artist = chars_of("artist");
    if chars_eq(&t, &album) {
        Some(SourceFetch::Album)
    } else if chars_eq(&t, &playlist) {
        Some(SourceFetch::Playlist)
    } else if chars_eq(&t, &artist) && !deleting {
        Some(SourceFetch::ArtistAlbums)
    } else {
        None
    }
}

/// Text of an optional field, empty when absent.
pub open spec fn text_or_empty(o: Option<String>) -> Seq<char> {
    match o {
        Some(s) => s@,
        None => Seq::empty(),
    }
}

/// Album artist of a song: `albumArtist` when not blank, else the artist.
pub open spec fn song_album_artist(song: SongMeta) -> Seq<char> {
    match song.album_artist {
        Some(a) if trim_seq(a@, TrimSet::Whitespace).len() > 0 => a@,
        _ => text_or_empty(song.artist),
    }
}

/// File extension of a song (`mp3` when absent).
pub open spec fn song_suffix(song: SongMeta) -> Seq<char> {
    match song.suffix {
        Some(s) => s@,
        None => "mp3"@,
    }
}

/// Where a song goes on the device, with its playlist context if any.
pub open spec fn song_dest_spec(song: SongMeta, playlist: Option<(Seq<char>, u32)>, target: Seq<
    char,
>) -> Seq<char> {
    path_join_spec(
        target,
        track_path_parts_spec(
            text_or_empty(song.artist),
            song_album_artist(song),
            text_or_empty(song.album),
            text_or_empty(song.title),
            match song.track {
                Some(n) => Some(n as u32),
                None => None,
            },
            playlist,
        ) + seq!['.'] + song_suffix(song),
    )
}

/// An album-tree track is filed under its album artist: the device path
/// begins with the folder `sanitize_or(albumArtist, "Unknown Artist")`
/// whenever `albumArtist` is not blank, whatever the track artist is; the
/// track artist names the folder only when `albumArtist` is missing or
/// blank.
pub proof fn album_tracks_filed_under_album_artist(song: SongMeta, target: Seq<char>)
    ensures
        song.album_artist matches Some(a) ==> (trim_seq(a@, TrimSet::Whitespace).len() > 0 ==> exists|rest: Seq<char>|
            #[trigger] path_join_spec(target, sanitize_or_spec(a@, "Unknown Artist"@) + seq!['/'] + rest)
                == song_dest_spec(song, None, target)),
        !(song.album_artist matches Some(a) && trim_seq(a@, TrimSet::Whitespace).len() > 0) ==> exists|rest: Seq<char>|
            #[trigger] path_join_spec(
                target,
                sanitize_or_spec(text_or_empty(song.artist), "Unknown Artist"@) + seq!['/'] + rest,
            ) == song_dest_spec(song, None, target),
{
    let folder = sanitize_or_spec(song_album_artist(song), "Unknown Artist"@);
    let rest = sanitize_or_spec(text_or_empty(song.album), "Unknown Album"@) + seq!['/'] + match song.track {
        Some(n) => dec2_seq((n as u32) as nat),
        None => seq!['0', '0'],
    } + " - "@ + sanitize_or_spec(text_or_empty(song.title), "Unknown Title"@) + seq!['.'] + song_suffix(song);
    let rel = track_path_parts_spec(
        text_or_empty(song.artist),
        song_album_artist(song),
        text_or_empty(song.album),
        text_or_empty(song.title),
        match song.track {
            Some(n) => Some(n as u32),
            None => None,
        },
        None,
    ) + seq!['.'] + song_suffix(song);
    assert(rel =~= folder + seq!['/'] + rest);
    assert(path_join_spec(target, folder + seq!['/'] + rest) == song_dest_spec(song, None, target));
}

/// Size of a song in bytes: the reported size, else an estimate at
/// 320 kbit/s from its duration (0 when both are absent).
pub open spec fn estimated_size_spec(song: SongMeta) -> int {
    match song.size {
        Some(s) => s as int,
        None => (match song.duration {
            Some(d) => d as int,
            None => 0,
        }) * 320_000 / 8,
    }
}

/// The estimate fits in a `u64`.
pub open spec fn size_estimable(song: SongMeta) -> bool {
    song.size is Some || match song.duration {
        Some(d) => d * 320_000 <= u64::MAX,
        None => true,
    }
}

/// Estimated size of a song in bytes.
pub fn estimated_size(song: &SongMeta) -> (r: u64)
    requires
        size_estimable(*song),
    ensures
        r == estimated_size_spec(*song),
{
    match song.size {
        Some(s) => s,
        None => {
            let d: u64 = match song.duration {
                Some(d) => d,
                None => 0,
            };
            d * 320_000 / 8
        },
    }
}

/// One planned addition.
pub struct PlannedTrack {
    /// Position of the song in the source's song list.
    pub song_index: usize,
    /// Absolute destination path on the device.
    pub dest_path: String,
    /// Estimated size in bytes.
    pub size: u64,
    pub playlist_name: Option<String>,
    pub playlist_index: Option<u32>,
}

/// A planned addition as plain values.
pub struct PlanView {
    pub song_index: int,
    pub dest: Seq<char>,
    pub size: int,
    pub playlist_name: Option<Seq<char>>,
    pub playlist_index: Option<u32>,
}

impl PlannedTrack {
    pub open spec fn view_plan(&self) -> PlanView {
        PlanView {
            song_index: self.song_index as int,
            dest: self.dest_path@,
            size: self.size as int,
            playlist_name: match self.playlist_name {
                Some(n) => Some(n@),
                None => None,
            },
            playlist_index: self.playlist_index,
        }
    }
}

/// Planning state after a prefix of a source's songs.
pub struct PlanState {
    /// `(source id, track id)` pairs already planned.
    pub seen: Seq<(Seq<char>, Seq<char>)>,
    /// Number of playlist entries planned so far in this source.
    pub position: nat,
    pub planned: Seq<PlanView>,
}

/// The source is a playlist.
pub open spec fn is_playlist_source(source: SyncSource) -> bool {
    source.source_type@ == "playlist"@
}

/// Planning a source's songs in order: a song without an id, or whose
/// `(source id, track id)` pair was already planned, is skipped; playlist
/// sources number their entries from 1 and place them in the playlist
/// folder.
pub open spec fn plan_run(source: SyncSource, target: Seq<char>, seen0: Seq<(Seq<char>, Seq<char>)>, songs: Seq<SongMeta>) -> PlanState
    decreases songs.len(),
{
    if songs.len() == 0 {
        PlanState { seen: seen0, position: 0, planned: Seq::empty() }
    } else {
        let st = plan_run(source, target, seen0, songs.drop_last());
        let song = songs.last();
        match song.id {
            None => st,
            Some(tid) => {
                let key = (source.id@, tid@);
                if st.seen.contains(key) {
                    st
                } else {
                    let pl = is_playlist_source(source);
                    let pos = if pl {
                        st.position + 1
                    } else {
                        st.position
                    };
                    let pl_name = if pl {
                        match source.name {
                            Some(n) => Some(n@),
                            None => None,
                        }
                    } else {
                        None
                    };
                    let pl_idx: Option<u32> = if pl {
                        Some(pos as u32)
                    } else {
                        None
                    };
                    let ctx = match (pl_name, pl_idx) {
                        (Some(n), Some(x)) => Some((n, x)),
                        _ => None,
                    };
                    PlanState {
                        seen: st.seen.push(key),
                        position: pos,
                        planned: st.planned.push(
                            PlanView {
                                song_index: songs.len() - 1,
                                dest: song_dest_spec(song, ctx, target),
                                size: estimated_size_spec(song),
                                playlist_name: pl_name,
                                playlist_index: pl_idx,
                            },
                        ),
                    }
                }
            },
        }
    }
}

/// The seen pairs as plain values.
pub open spec fn seen_view(v: Seq<(String, String)>) -> Seq<(Seq<char>, Seq<char>)> {
    v.map_values(|p: (String, String)| (p.0@, p.1@))
}

fn seen_contains(seen: &Vec<(String, String)>, sid: &String, tid: &String) -> (r: bool)
    ensures
        r == seen_view(seen@).contains((sid@, tid@)),
{
    let mut k: usize = 0;
    while k < seen.len()
        invariant
            k <= seen@.len(),
            forall|j: int| 0 <= j < k ==> seen_view(seen@)[j] != (sid@, tid@),
        decreases seen@.len() - k,
    {
        if seen[k].0 == *sid && seen[k].1 == *tid {
            assert(seen_view(seen@)[k as int] == (sid@, tid@));
            return true;
        }
        k += 1;
    }
    false
}

fn opt_text(o: &Option<String>) -> (r: String)
    ensures
        r@ == text_or_empty(*o),
{
    match o {
        Some(s) => s.clone(),
        None => String::new(),
    }
}

/// Plans the additions of one source. `seen` carries the `(source id,
/// track id)` pairs planned so far across sources and is extended.
pub fn plan_source_tracks(
    source: &SyncSource,
    songs: &Vec<SongMeta>,
    seen: &mut Vec<(String, String)>,
    target_dir: &str,
) -> (r: Vec<PlannedTrack>)
    requires
        songs@.len() < u32::MAX,
        forall|i: int| 0 <= i < songs@.len() ==> size_estimable(#[trigger] songs@[i]),
    ensures
        seen_view(final(seen)@) == plan_run(*source, target_dir@, seen_view(old(seen)@), songs@).seen,
        r@.map_values(|p: PlannedTrack| p.view_plan()) == plan_run(
            *source,
            target_dir@,
            seen_view(old(seen)@),
            songs@,
        ).planned,
{
    let ghost seen0 = seen_view(seen@);
    let playlist_kind = chars_of("playlist");
    let st = chars_of(source.source_type.as_str());
    let is_playlist = chars_eq(&st, &playlist_kind);
    let mut position: u32 = 0;
    let mut out: Vec<PlannedTrack> = Vec::new();
    let mut i: usize = 0;
    assert(songs@.subrange(0, 0) =~= Seq::<SongMeta>::empty());
    while i < songs.len()
        invariant
            i <= songs@.len(),
            songs@.len() < u32::MAX,
            forall|k: int| 0 <= k < songs@.len() ==> size_estimable(#[trigger] songs@[k]),
            is_playlist == is_playlist_source(*source),
            position <= i,
            plan_run(*source, target_dir@, seen0, songs@.subrange(0, i as int)).seen == seen_view(seen@),
            plan_run(*source, target_dir@, seen0, songs@.subrange(0, i as int)).position == position,
            plan_run(*source, target_dir@, seen0, songs@.subrange(0, i as int)).planned == out@.map_values(|p: PlannedTrack| p.view_plan()),
        decreases songs@.len() - i,
    {
        let song = &songs[i];
        proof {
            let p = songs@.subrange(0, i + 1);
            assert(p.drop_last() =~= songs@.subrange(0, i as int));
            assert(p.last() == songs@[i as int]);
        }
        if let Some(tid) = &song.id {
            if !seen_contains(seen, &source.id, tid) {
                if is_playlist {
                    position = position + 1;
                }
                let pl_name: Option<String> = if is_playlist {
                    copy_opt_string(&source.name)
                } else {
                    None
                };
                let pl_idx: Option<u32> = if is_playlist {
                    Some(position)
                } else {
                    None
                };
                let artist = opt_text(&song.artist);
                let album_artist = match &song.album_artist {
                    Some(a) => {
                        let av = chars_of(a.as_str());
                        let at = trim_chars(&av, TrimSet::Whitespace);
                        if at.len() > 0 {
                            a.clone()
                        } else {
                            artist.clone()
                        }
                    },
                    None => artist.clone(),
                };
                let suffix = match &song.suffix {
                    Some(s) => s.clone(),
                    None => owned("mp3"),
                };
                let info = TrackSyncInfo {
                    id: tid.clone(),
                    url: String::new(),
                    suffix,
                    artist,
                    album_artist,
                    album: opt_text(&song.album),
                    title: opt_text(&song.title),
                    track_number: match song.track {
                        Some(n) => Some(n as u32),
                        None => None,
                    },
                    duration: match song.duration {
                        Some(n) => Some(n as u32),
                        None => None,
                    },
                    playlist_name: copy_opt_string(&pl_name),
                    playlist_index: pl_idx,
                };
                let dest_path = sync_dest_path(&info, target_dir);
                let size = estimated_size(song);
                let ghost prev_out = out@;
                let ghost prev_seen = seen@;
                out.push(PlannedTrack { song_index: i, dest_path, size, playlist_name: pl_name, playlist_index: pl_idx });
                seen.push((source.id.clone(), tid.clone()));
                proof {
                    assert(seen_view(seen@) =~= seen_view(prev_seen).push((source.id@, tid@)));
                    assert(out@.map_values(|p: PlannedTrack| p.view_plan()) =~= prev_out.map_values(|p: PlannedTrack| p.view_plan()).push(out@[out@.len() - 1].view_plan()));
                    assert(playlist_context(info) == match (out@[out@.len() - 1].view_plan().playlist_name, pl_idx) {
                        (Some(n), Some(x)) => Some((n, x)),
                        _ => None,
                    });
                }
            }
        }
        i += 1;
    }
    assert(songs@.subrange(0, songs@.len() as int) =~= songs@);
    out
}

/// Tracks and bytes still to copy: the planned tracks not yet on the device.
pub open spec fn addition_totals(planned: Seq<PlanView>, exists: Seq<bool>) -> (nat, int)
    decreases planned.len(),
{
    if planned.len() == 0 {
        (0, 0)
    } else {
        let (c, b) = addition_totals(planned.drop_last(), exists);
        let i = planned.len() - 1;
        if i < exists.len() && exists[i] {
            (c, b)
        } else {
            (c + 1, b + planned.last().size)
        }
    }
}

/// Counts and sums the planned tracks that are not on the device yet
/// (`exists[i]` tells whether `planned[i]`'s destination exists); `None`
/// when the byte total does not fit in a `u64`.
pub fn tally_additions(planned: &Vec<PlannedTrack>, exists: &Vec<bool>) -> (r: Option<(u32, u64)>)
    requires
        exists@.len() == planned@.len(),
        planned@.len() <= u32::MAX,
    ensures
        match r {
            Some((c, b)) => c as nat == addition_totals(planned@.map_values(|p: PlannedTrack| p.view_plan()), exists@).0
                && b as int == addition_totals(planned@.map_values(|p: PlannedTrack| p.view_plan()), exists@).1,
            None => addition_totals(planned@.map_values(|p: PlannedTrack| p.view_plan()), exists@).1 > u64::MAX,
        },
{
    let ghost views = planned@.map_values(|p: PlannedTrack| p.view_plan());
    let mut count: u32 = 0;
    let mut bytes: u64 = 0;
    let mut i: usize = 0;
    assert(views.subrange(0, 0) =~= Seq::<PlanView>::empty());
    while i < planned.len()
        invariant
            i <= planned@.len(),
            exists@.len() == planned@.len(),
            planned@.len() <= u32::MAX,
            views == planned@.map_values(|p: PlannedTrack| p.view_plan()),
            count as nat == addition_totals(views.subrange(0, i as int), exists@).0,
            bytes as int == addition_totals(views.subrange(0, i as int), exists@).1,
            count <= i,
        decreases planned@.len() - i,
    {
        proof {
            let p = views.subrange(0, i + 1);
            assert(p.drop_last() =~= views.subrange(0, i as int));
            lemma_addition_totals_prefix(views, exists@, i + 1);
        }
        if !exists[i] {
            match bytes.checked_add(planned[i].size) {
                Some(b) => {
                    bytes = b;
                    count = count + 1;
                },
                None => {
                    return None;
                },
            }
        }
        i += 1;
    }
    assert(views.subrange(0, views.len() as int) =~= views);
    Some((count, bytes))
}

proof fn lemma_addition_totals_prefix(planned: Seq<PlanView>, exists: Seq<bool>, n: int)
    requires
        0 <= n <= planned.len(),
        forall|k: int| 0 <= k < planned.len() ==> planned[k].size >= 0,
    ensures
        addition_totals(planned.subrange(0, n), exists).1 <= addition_totals(planned, exists).1,
    decreases planned.len() - n,
{
    if n == planned.len() {
        assert(planned.subrange(0, n) =~= planned);
    } else {
        lemma_addition_totals_prefix(planned, exists, n + 1);
        assert(planned.subrange(0, n + 1).drop_last() =~= planned.subrange(0, n));
    }
}

/// Number and estimated bytes of the songs that a deletion removes.
pub open spec fn deletion_totals(songs: Seq<SongMeta>) -> (nat, int)
    decreases songs.len(),
{
    if songs.len() == 0 {
        (0, 0)
    } else {
        let (c, b) = deletion_totals(songs.drop_last());
        (c + 1, b + estimated_size_spec(songs.last()))
    }
}

/// Counts and sums the songs of the sources to delete; `None` when the
/// byte total does not fit in a `u64`.
pub fn tally_deletions(songs: &Vec<SongMeta>) -> (r: Option<(u32, u64)>)
    requires
        songs@.len() <= u32::MAX,
        forall|i: int| 0 <= i < songs@.len() ==> size_estimable(#[trigger] songs@[i]),
    ensures
        match r {
            Some((c, b)) => c as nat == deletion_totals(songs@).0 && b as int == deletion_totals(songs@).1,
            None => deletion_totals(songs@).1 > u64::MAX,
        },
{
    let mut count: u32 = 0;
    let mut bytes: u64 = 0;
    let mut i: usize = 0;
    assert(songs@.subrange(0, 0) =~= Seq::<SongMeta>::empty());
    while i < songs.len()
        invariant
            i <= songs@.len(),
            songs@.len() <= u32::MAX,
            forall|k: int| 0 <= k < songs@.len() ==> size_estimable(#[trigger] songs@[k]),
            count as nat == deletion_totals(songs@.subrange(0, i as int)).0,
            bytes as int == deletion_totals(songs@.subrange(0, i as int)).1,
            count == i,
        decreases songs@.len() - i,
    {
        proof {
            let p = songs@.subrange(0, i + 1);
            assert(p.drop_last() =~= songs@.subrange(0, i as int));
            lemma_deletion_totals_prefix(songs@, i + 1);
        }
        let s = estimated_size(&songs[i]);
        match bytes.checked_add(s) {
            Some(b) => {
                bytes = b;
                count = count + 1;
            },
            None => {
                return None;
            },
        }
        i += 1;
    }
    assert(songs@.subrange(0, songs@.len() as int) =~= songs@);
    Some((count, bytes))
}

proof fn lemma_deletion_totals_prefix(songs: Seq<SongMeta>, n: int)
    requires
        0 <= n <= songs.len(),
    ensures
        deletion_totals(songs.subrange(0, n)).1 <= deletion_totals(songs).1,
    decreases songs.len() - n,
{
    if n == songs.len() {
        assert(songs.subrange(0, n) =~= songs);
    } else {
        lemma_deletion_totals_prefix(songs, n + 1);
        assert(songs.subrange(0, n + 1).drop_last() =~= songs.subrange(0, n));
    }
}

/// Planning never plans a `(source, track)` pair twice: every planned song
/// adds exactly one new pair to `seen`, so pairs stay distinct; and a
/// playlist source numbers its planned entries 1, 2, 3, ... in order.
pub proof fn plan_pairs_distinct_and_numbered(
    source: SyncSource,
    target: Seq<char>,
    seen0: Seq<(Seq<char>, Seq<char>)>,
    songs: Seq<SongMeta>,
)
    requires
        seen0.no_duplicates(),
        songs.len() < u32::MAX,
    ensures
        plan_run(source, target, seen0, songs).seen.no_duplicates(),
        plan_run(source, target, seen0, songs).seen.len() == seen0.len() + plan_run(
            source,
            target,
            seen0,
            songs,
        ).planned.len(),
        plan_run(source, target, seen0, songs).seen.subrange(0, seen0.len() as int) == seen0,
        is_playlist_source(source) ==> plan_run(source, target, seen0, songs).position == plan_run(
            source,
            target,
            seen0,
            songs,
        ).planned.len(),
        is_playlist_source(source) ==> forall|i: int|
            0 <= i < plan_run(source, target, seen0, songs).planned.len() ==> (#[trigger] plan_run(
                source,
                target,
                seen0,
                songs,
            ).planned[i]).playlist_index == Some((i + 1) as u32),
    decreases songs.len(),
{
    if songs.len() > 0 {
        let init = songs.drop_last();
        plan_pairs_distinct_and_numbered(source, target, seen0, init);
        let st = plan_run(source, target, seen0, init);
        let r = plan_run(source, target, seen0, songs);
        assert(st.planned.len() <= init.len()) by {
            lemma_plan_len_bound(source, target, seen0, init);
        }
        if r.seen != st.seen {
            let key = r.seen.last();
            assert(r.seen == st.seen.push(key));
            assert(!st.seen.contains(key));
            assert forall|a: int, b: int| 0 <= a < b < r.seen.len() implies r.seen[a] != r.seen[b] by {
                if b == r.seen.len() - 1 {
                    assert(st.seen[a] == r.seen[a]);
                }
            }
            assert(r.seen.subrange(0, seen0.len() as int) =~= st.seen.subrange(0, seen0.len() as int));
        }
    }
}

proof fn lemma_plan_len_bound(source: SyncSource, target: Seq<char>, seen0: Seq<(Seq<char>, Seq<char>)>, songs: Seq<SongMeta>)
    ensures
        plan_run(source, target, seen0, songs).planned.len() <= songs.len(),
        plan_run(source, target, seen0, songs).position <= songs.len(),
    decreases songs.len(),
{
    if songs.len() > 0 {
        lemma_plan_len_bound(source, target, seen0, songs.drop_last());
    }
}

} // verus!
