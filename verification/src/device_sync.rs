//! Device-sync decisions around the file system: playlist files, the
//! mounted-volume guard, the free-space guard and the rename migration.
use vstd::prelude::*;

use crate::sync_paths::{path_join, path_join_spec, sanitize_or, sanitize_or_spec, TrackSyncInfo};
use crate::text::{
    chars_eq, chars_of, dec2_seq, dec_seq, push_all, push_dec, push_dec2, push_str, starts_with,
    string_of, trim_chars, trim_seq, TrimSet, chars_start_with,
};

verus! {

// ---------------------------------------------------------------------------
// Extended M3U playlists
// ---------------------------------------------------------------------------

/// The artist shown for a track: the track artist, or the album artist when
/// the track artist is blank.
pub open spec fn display_artist_spec(t: TrackSyncInfo) -> Seq<char> {
    if trim_seq(t.artist@, TrimSet::Whitespace).len() == 0 {
        t.album_artist@
    } else {
        t.artist@
    }
}

/// The two lines of a playlist entry at 1-based position `idx`: `#EXTINF`
/// with duration (`-1` when unknown) and `Artist - Title`, then the sibling
/// file name `{idx:02} - {Artist} - {Title}.{ext}`.
pub open spec fn m3u8_entry_spec(t: TrackSyncInfo, idx: nat) -> Seq<char> {
    m3u8_info_line(t) + m3u8_file_line(t, idx)
}

/// `#EXTINF:{duration},{Artist} - {Title}` and a line break.
pub open spec fn m3u8_info_line(t: TrackSyncInfo) -> Seq<char> {
    let dur = match t.duration {
        Some(d) => dec_seq(d as nat),
        None => "-1"@,
    };
    let display = display_artist_spec(t);
    let title = trim_seq(t.title@, TrimSet::Whitespace);
    "#EXTINF:"@ + dur + seq![','] + trim_seq(display, TrimSet::Whitespace) + " - "@ + title
        + seq!['\n']
}

/// `{idx:02} - {Artist} - {Title}.{ext}` with sanitized names, and a line break.
pub open spec fn m3u8_file_line(t: TrackSyncInfo, idx: nat) -> Seq<char> {
    let display = display_artist_spec(t);
    let title = trim_seq(t.title@, TrimSet::Whitespace);
    dec2_seq(idx) + " - "@ + sanitize_or_spec(display, "Unknown Artist"@) + " - "@
        + sanitize_or_spec(title, "Unknown Title"@) + seq!['.'] + t.suffix@ + seq!['\n']
}

/// Whole playlist file: the `#EXTM3U` header, then one entry per track in
/// playlist order.
pub open spec fn m3u8_body_spec(tracks: Seq<TrackSyncInfo>) -> Seq<char>
    decreases tracks.len(),
{
    if tracks.len() == 0 {
        "#EXTM3U\n"@
    } else {
        m3u8_body_spec(tracks.drop_last()) + m3u8_entry_spec(tracks.last(), tracks.len())
    }
}

fn push_info_line(out: &mut Vec<char>, t: &TrackSyncInfo, display: &Vec<char>, title: &Vec<char>)
    requires
        display@ == display_artist_spec(*t),
        title@ == trim_seq(t.title@, TrimSet::Whitespace),
    ensures
        final(out)@ == old(out)@ + m3u8_info_line(*t),
{
    let mut line = chars_of("#EXTINF:");
    match t.duration {
        Some(d) => push_dec(d as u64, &mut line),
        None => push_str(&mut line, "-1"),
    }
    line.push(',');
    let display_trim = trim_chars(display, TrimSet::Whitespace);
    push_all(&mut line, &display_trim);
    push_str(&mut line, " - ");
    push_all(&mut line, title);
    line.push('\n');
    push_all(out, &line);
}

fn push_file_line(out: &mut Vec<char>, t: &TrackSyncInfo, idx: u64, display: &Vec<char>, title: &Vec<char>)
    requires
        display@ == display_artist_spec(*t),
        title@ == trim_seq(t.title@, TrimSet::Whitespace),
    ensures
        final(out)@ == old(out)@ + m3u8_file_line(*t, idx as nat),
{
    let mut line: Vec<char> = Vec::new();
    push_dec2(idx, &mut line);
    push_str(&mut line, " - ");
    let display_s = string_of(display.as_slice());
    let artist_safe = sanitize_or(display_s.as_str(), "Unknown Artist");
    push_str(&mut line, artist_safe.as_str());
    push_str(&mut line, " - ");
    let title_s = string_of(title.as_slice());
    let title_safe = sanitize_or(title_s.as_str(), "Unknown Title");
    push_str(&mut line, title_safe.as_str());
    line.push('.');
    push_str(&mut line, t.suffix.as_str());
    line.push('\n');
    push_all(out, &line);
}

fn push_m3u8_entry(out: &mut Vec<char>, t: &TrackSyncInfo, idx: u64)
    ensures
        final(out)@ == old(out)@ + m3u8_entry_spec(*t, idx as nat),
{
    let artist = chars_of(t.artist.as_str());
    let artist_trim = trim_chars(&artist, TrimSet::Whitespace);
    let display = if artist_trim.len() == 0 {
        chars_of(t.album_artist.as_str())
    } else {
        artist
    };
    let title_v = chars_of(t.title.as_str());
    let title = trim_chars(&title_v, TrimSet::Whitespace);
    let ghost start = out@;
    push_info_line(out, t, &display, &title);
    push_file_line(out, t, idx, &display, &title);
    assert(out@ =~= start + m3u8_entry_spec(*t, idx as nat));
}

/// Text of an Extended-M3U playlist whose entries reference sibling files,
/// so that the playlist folder is self-contained.
pub fn playlist_m3u8_body(tracks: &Vec<TrackSyncInfo>) -> (r: String)
    requires
        tracks@.len() <= u32::MAX,
    ensures
        r@ == m3u8_body_spec(tracks@),
{
    let mut out = chars_of("#EXTM3U\n");
    let mut i: usize = 0;
    assert(tracks@.subrange(0, 0) =~= Seq::<TrackSyncInfo>::empty());
    while i < tracks.len()
        invariant
            i <= tracks@.len(),
            tracks@.len() <= u32::MAX,
            out@ == m3u8_body_spec(tracks@.subrange(0, i as int)),
        decreases tracks@.len() - i,
    {
        let idx: u32 = (i as u32) + 1;
        push_m3u8_entry(&mut out, &tracks[i], idx as u64);
        proof {
            let s = tracks@.subrange(0, i + 1);
            assert(s.drop_last() =~= tracks@.subrange(0, i as int));
            assert(s.last() == tracks@[i as int]);
        }
        i += 1;
    }
    assert(tracks@.subrange(0, tracks@.len() as int) =~= tracks@);
    string_of(out.as_slice())
}

/// Folder and file of a playlist: `{dest}/Playlists/{name}/{name}.m3u8`
/// with the sanitized name.
pub open spec fn playlist_location_spec(dest_dir: Seq<char>, name: Seq<char>) -> (Seq<char>, Seq<
    char,
>) {
    let safe = sanitize_or_spec(name, "Unnamed Playlist"@);
    let dir = path_join_spec(path_join_spec(dest_dir, "Playlists"@), safe);
    (dir, path_join_spec(dir, safe + ".m3u8"@))
}

/// Directory and file path of the playlist file for `playlist_name`.
pub fn playlist_m3u8_location(dest_dir: &str, playlist_name: &str) -> (r: (String, String))
    ensures
        (r.0@, r.1@) == playlist_location_spec(dest_dir@, playlist_name@),
{
    let safe = sanitize_or(playlist_name, "Unnamed Playlist");
    let playlists = chars_of("Playlists");
    let base = path_join(dest_dir, &playlists);
    let base_s = string_of(base.as_slice());
    let safe_v = chars_of(safe.as_str());
    let dir = path_join(base_s.as_str(), &safe_v);
    let dir_s = string_of(dir.as_slice());
    let mut file_name = safe_v.clone();
    push_str(&mut file_name, ".m3u8");
    let file = path_join(dir_s.as_str(), &file_name);
    (dir_s, string_of(file.as_slice()))
}

// ---------------------------------------------------------------------------
// Volume guards
// ---------------------------------------------------------------------------

/// A mounted file system as the disk listing reports it.
#[derive(Clone, Debug)]
pub struct MountInfo {
    pub mount_point: String,
    pub is_removable: bool,
    pub available_space: u64,
}

/// Mount points that never count as a sync volume: `/`, and non-removable
/// Windows drive roots such as `C:\` (three bytes ending in `:\`, that is
/// one ASCII character followed by `:\`).
pub open spec fn is_root_mount(m: MountInfo) -> bool {
    m.mount_point@ == "/"@ || (m.mount_point@.len() == 3 && (m.mount_point@[0] as u32) < 0x80
        && m.mount_point@[1] == ':' && m.mount_point@[2] == '\\' && !m.is_removable)
}

/// `canonical` lies under a non-root, non-empty mount point.
pub open spec fn on_mounted_volume_spec(canonical: Seq<char>, mounts: Seq<MountInfo>) -> bool {
    exists|i: int|
        0 <= i < mounts.len() && !is_root_mount(#[trigger] mounts[i]) && mounts[i].mount_point@.len()
            > 0 && starts_with(canonical, mounts[i].mount_point@)
}

fn is_root_mount_exec(m: &MountInfo) -> (b: bool)
    ensures
        b == is_root_mount(*m),
{
    let mp = chars_of(m.mount_point.as_str());
    let slash = chars_of("/");
    if chars_eq(&mp, &slash) {
        return true;
    }
    mp.len() == 3 && (mp[0] as u32) < 0x80 && mp[1] == ':' && mp[2] == '\\' && !m.is_removable
}

/// Whether a canonical path sits on top of an active mount point (not the
/// root file system), so that writing to an unmounted stick's empty mount
/// directory cannot fill the root partition.
pub fn path_on_mounted_volume(canonical: &str, mounts: &Vec<MountInfo>) -> (r: bool)
    ensures
        r == on_mounted_volume_spec(canonical@, mounts@),
{
    let c = chars_of(canonical);
    let mut best_len: usize = 0;
    let mut i: usize = 0;
    while i < mounts.len()
        invariant
            i <= mounts@.len(),
            c@ == canonical@,
            (best_len > 0) == exists|k: int|
                0 <= k < i && !is_root_mount(#[trigger] mounts@[k]) && mounts@[k].mount_point@.len()
                    > 0 && starts_with(canonical@, mounts@[k].mount_point@),
        decreases mounts@.len() - i,
    {
        let m = &mounts[i];
        if !is_root_mount_exec(m) {
            let mp = chars_of(m.mount_point.as_str());
            if chars_start_with(&c, &mp) && mp.len() > best_len {
                best_len = mp.len();
            }
            proof {
                if mp@.len() > 0 && starts_with(canonical@, mp@) {
                    assert(best_len > 0);
                }
            }
        }
        i += 1;
    }
    best_len > 0
}

/// The first mount whose mount point is a textual prefix of `dest`.
pub open spec fn first_mount_of(dest: Seq<char>, mounts: Seq<MountInfo>) -> Option<int>
    decreases mounts.len(),
{
    if mounts.len() == 0 {
        None
    } else {
        match first_mount_of(dest, mounts.drop_last()) {
            Some(i) => Some(i),
            None => if starts_with(dest, mounts.last().mount_point@) {
                Some(mounts.len() - 1)
            } else {
                None
            },
        }
    }
}

fn first_mount_index(dest: &str, mounts: &Vec<MountInfo>) -> (r: Option<usize>)
    ensures
        match r {
            Some(i) => first_mount_of(dest@, mounts@) == Some(i as int) && i < mounts@.len(),
            None => first_mount_of(dest@, mounts@) is None,
        },
{
    let d = chars_of(dest);
    let mut i: usize = 0;
    assert(mounts@.subrange(0, 0) =~= Seq::<MountInfo>::empty());
    while i < mounts.len()
        invariant
            i <= mounts@.len(),
            d@ == dest@,
            first_mount_of(dest@, mounts@.subrange(0, i as int)) is None,
        decreases mounts@.len() - i,
    {
        let mp = chars_of(mounts[i].mount_point.as_str());
        let hit = chars_start_with(&d, &mp);
        proof {
            let s = mounts@.subrange(0, i + 1);
            assert(s.drop_last() =~= mounts@.subrange(0, i as int));
            assert(s.last() == mounts@[i as int]);
        }
        if hit {
            proof {
                lemma_first_mount_prefix(dest@, mounts@, i + 1);
            }
            return Some(i);
        }
        i += 1;
    }
    assert(mounts@.subrange(0, mounts@.len() as int) =~= mounts@);
    None
}

proof fn lemma_first_mount_prefix(dest: Seq<char>, mounts: Seq<MountInfo>, n: int)
    requires
        0 <= n <= mounts.len(),
        first_mount_of(dest, mounts.subrange(0, n)) is Some,
    ensures
        first_mount_of(dest, mounts) == first_mount_of(dest, mounts.subrange(0, n)),
    decreases mounts.len() - n,
{
    if n == mounts.len() {
        assert(mounts.subrange(0, n) =~= mounts);
    } else {
        assert(mounts.subrange(0, n + 1).drop_last() =~= mounts.subrange(0, n));
        assert(first_mount_of(dest, mounts.subrange(0, n + 1)) == first_mount_of(
            dest,
            mounts.subrange(0, n),
        ));
        lemma_first_mount_prefix(dest, mounts, n + 1);
    }
}

/// Safety margin kept free on the target volume (10 MB).
pub const SYNC_SPACE_MARGIN: u64 = 10_000_000;

/// Room for `expected_bytes` on the volume `dest` is on: true when no listed
/// mount contains `dest`; otherwise the first such mount must keep the
/// margin free.
pub open spec fn enough_space_spec(dest: Seq<char>, mounts: Seq<MountInfo>, expected: u64) -> bool {
    match first_mount_of(dest, mounts) {
        None => true,
        Some(i) => expected <= (if mounts[i].available_space >= SYNC_SPACE_MARGIN {
            mounts[i].available_space - SYNC_SPACE_MARGIN
        } else {
            0
        }),
    }
}

/// Whether a batch of `expected_bytes` fits on the volume of `dest`.
pub fn sync_space_suffices(dest: &str, mounts: &Vec<MountInfo>, expected_bytes: u64) -> (r: bool)
    ensures
        r == enough_space_spec(dest@, mounts@, expected_bytes),
{
    match first_mount_index(dest, mounts) {
        None => true,
        Some(i) => expected_bytes <= mounts[i].available_space.saturating_sub(SYNC_SPACE_MARGIN),
    }
}

/// Free bytes reported for `dest`: those of the first mount containing it,
/// else 0.
pub fn available_bytes_for(dest: &str, mounts: &Vec<MountInfo>) -> (r: u64)
    ensures
        r == match first_mount_of(dest@, mounts@) {
            Some(i) => mounts@[i].available_space,
            None => 0,
        },
{
    match first_mount_index(dest, mounts) {
        None => 0,
        Some(i) => mounts[i].available_space,
    }
}

// ---------------------------------------------------------------------------
// Rename migration
// ---------------------------------------------------------------------------

/// What to do with one `(old, new)` pair of the rename migration.
#[derive(Clone, Copy, Debug, PartialEq, Eq)]
pub enum RenameStep {
    /// Old and new paths are equal: counts as success.
    AlreadyInPlace,
    /// Nothing at the old path: "source not found".
    SourceMissing,
    /// Something already at the new path: "target already exists".
    TargetExists,
    /// Create the parent directory and rename.
    Move,
}

/// The decision for one pair, given whether the old and new paths exist.
pub open spec fn rename_step_spec(old_rel: Seq<char>, new_rel: Seq<char>, old_exists: bool, new_exists: bool) -> RenameStep {
    if old_rel == new_rel {
        RenameStep::AlreadyInPlace
    } else if !old_exists {
        RenameStep::SourceMissing
    } else if new_exists {
        RenameStep::TargetExists
    } else {
        RenameStep::Move
    }
}

/// Decides one pair of the rename migration.
pub fn rename_step(old_rel: &str, new_rel: &str, old_exists: bool, new_exists: bool) -> (r: RenameStep)
    ensures
        r == rename_step_spec(old_rel@, new_rel@, old_exists, new_exists),
{
    let a = chars_of(old_rel);
    let b = chars_of(new_rel);
    if chars_eq(&a, &b) {
        RenameStep::AlreadyInPlace
    } else if !old_exists {
        RenameStep::SourceMissing
    } else if new_exists {
        RenameStep::TargetExists
    } else {
        RenameStep::Move
    }
}

// ---------------------------------------------------------------------------
// Removable drives
// ---------------------------------------------------------------------------

/// A disk as the system's disk listing reports it.
pub struct DiskEntry {
    pub name: String,
    pub mount_point: String,
    pub available_space: u64,
    pub total_space: u64,
    pub file_system: String,
    pub is_removable: bool,
}

/// The removable disks of a listing, in listing order.
pub fn removable_drives(disks: Vec<DiskEntry>) -> (r: Vec<DiskEntry>)
    ensures
        r@ == disks@.filter(|d: DiskEntry| d.is_removable),
{
    let mut disks = disks;
    let ghost all = disks@;
    let mut out: Vec<DiskEntry> = Vec::new();
    let n = disks.len();
    let mut i: usize = 0;
    while i < n
        invariant
            n == all.len(),
            i <= n,
            disks@ =~= all.subrange(i as int, n as int),
            out@ == all.subrange(0, i as int).filter(|d: DiskEntry| d.is_removable),
        decreases n - i,
    {
        let d = disks.remove(0);
        proof {
            reveal(Seq::filter);
            assert(all.subrange(0, i + 1).drop_last() =~= all.subrange(0, i as int));
            assert(d == all[i as int]);
            assert(all.subrange(0, i + 1).last() == d);
        }
        if d.is_removable {
            out.push(d);
        }
        i = i + 1;
    }
    assert(all.subrange(0, n as int) =~= all);
    out
}

// ---------------------------------------------------------------------------
// Batch sync bookkeeping
// ---------------------------------------------------------------------------

/// Least time between two progress events of a batch.
pub const SYNC_PROGRESS_INTERVAL_MS: u64 = 500;

/// How the sync of one track ended.
#[derive(Clone, Copy, Debug, PartialEq, Eq, Structural)]
pub enum TrackSyncOutcome {
    /// The file was written.
    Done,
    /// The file was on the device already.
    Skipped,
    /// Directory creation, download, write or rename failed.
    Failed,
}

/// A progress event is due once the interval has passed since the last.
pub fn sync_progress_due(since_last_ms: u64) -> (r: bool)
    ensures
        r == (since_last_ms >= SYNC_PROGRESS_INTERVAL_MS),
{
    since_last_ms >= SYNC_PROGRESS_INTERVAL_MS
}

/// Counts of a batch sync by outcome.
pub struct SyncBatchResult {
    pub done: u32,
    pub skipped: u32,
    pub failed: u32,
}

/// Counts after a sequence of outcomes.
pub open spec fn tally_outcomes(os: Seq<TrackSyncOutcome>) -> (nat, nat, nat)
    decreases os.len(),
{
    if os.len() == 0 {
        (0, 0, 0)
    } else {
        let t = tally_outcomes(os.drop_last());
        match os.last() {
            TrackSyncOutcome::Done => (t.0 + 1, t.1, t.2),
            TrackSyncOutcome::Skipped => (t.0, t.1 + 1, t.2),
            TrackSyncOutcome::Failed => (t.0, t.1, t.2 + 1),
        }
    }
}

impl SyncBatchResult {
    pub open spec fn counts(&self) -> (nat, nat, nat) {
        (self.done as nat, self.skipped as nat, self.failed as nat)
    }

    pub fn new() -> (r: Self)
        ensures
            r.counts() == tally_outcomes(Seq::empty()),
    {
        SyncBatchResult { done: 0, skipped: 0, failed: 0 }
    }

    /// Count one more track's outcome.
    pub fn record(&mut self, outcome: TrackSyncOutcome)
        requires
            old(self).done + old(self).skipped + old(self).failed < u32::MAX,
        ensures
            forall|os: Seq<TrackSyncOutcome>| old(self).counts() == tally_outcomes(os) ==> final(self).counts()
                == #[trigger] tally_outcomes(os.push(outcome)),
            final(self).done + final(self).skipped + final(self).failed == old(self).done + old(
                self,
            ).skipped + old(self).failed + 1,
    {
        match outcome {
            TrackSyncOutcome::Done => self.done = self.done + 1,
            TrackSyncOutcome::Skipped => self.skipped = self.skipped + 1,
            TrackSyncOutcome::Failed => self.failed = self.failed + 1,
        }
        proof {
            assert forall|os: Seq<TrackSyncOutcome>| old(self).counts() == tally_outcomes(os) implies self.counts()
                == #[trigger] tally_outcomes(os.push(outcome)) by {
                assert(os.push(outcome).drop_last() =~= os);
            }
        }
    }
}

/// Every track of a batch is counted exactly once: the done, skipped and
/// failed counts add up to the number of outcomes.
pub proof fn batch_counts_cover_every_track(os: Seq<TrackSyncOutcome>)
    ensures
        tally_outcomes(os).0 + tally_outcomes(os).1 + tally_outcomes(os).2 == os.len(),
    decreases os.len(),
{
    if os.len() > 0 {
        batch_counts_cover_every_track(os.drop_last());
    }
}

} // verus!
