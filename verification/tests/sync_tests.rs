use hydra_player::device_sync::{
    available_bytes_for, path_on_mounted_volume, playlist_m3u8_body, playlist_m3u8_location,
    removable_drives, rename_step, sync_progress_due, sync_space_suffices, DiskEntry, MountInfo,
    RenameStep, SyncBatchResult, TrackSyncOutcome,
};
use hydra_player::sync_paths::{
    build_track_path, compute_sync_paths, sanitize_or, sanitize_path_component, sync_dest_path,
    windows_relative_path, TrackSyncInfo,
};
use hydra_player::offline::{offline_prune_boundary, PruneWalk};
use hydra_player::sync_plan::{
    estimated_size, plan_source_tracks, source_fetch_kind, split_sync_sources, tally_additions,
    tally_deletions, PlannedTrack, SongMeta, SourceFetch, SyncSource,
};

fn track(album_artist: &str, album: &str, title: &str, n: Option<u32>) -> TrackSyncInfo {
    TrackSyncInfo {
        id: "t".to_string(),
        url: String::new(),
        suffix: "mp3".to_string(),
        artist: "Track Artist".to_string(),
        album_artist: album_artist.to_string(),
        album: album.to_string(),
        title: title.to_string(),
        track_number: n,
        duration: Some(200),
        playlist_name: None,
        playlist_index: None,
    }
}

#[test]
fn sanitize_components() {
    assert_eq!(sanitize_path_component("AC/DC"), "AC_DC");
    assert_eq!(sanitize_path_component(" .a:b*c?. "), "a_b_c_");
    assert_eq!(sanitize_path_component("x\ty"), "x_y");
    assert_eq!(sanitize_path_component("<>|\"\\"), "_____");
    assert_eq!(sanitize_or(" .. ", "Unknown"), "Unknown");
    assert_eq!(sanitize_or("Abba", "Unknown"), "Abba");
}

#[test]
fn album_tree_paths() {
    let t = track("AC/DC", "Back in Black", "Hells Bells", Some(1));
    assert_eq!(build_track_path(&t), "AC_DC/Back in Black/01 - Hells Bells.mp3");
    let t = track("", " . ", "", None);
    assert_eq!(build_track_path(&t), "Unknown Artist/Unknown Album/00 - Unknown Title.mp3");
    let t = track("A", "B", "C", Some(123));
    assert_eq!(build_track_path(&t), "A/B/123 - C.mp3");
}

#[test]
fn playlist_paths() {
    let mut t = track("X", "Y", "Don't Stop Me Now", Some(9));
    t.artist = "Queen".to_string();
    t.playlist_name = Some("Road Trip".to_string());
    t.playlist_index = Some(3);
    assert_eq!(build_track_path(&t), "Playlists/Road Trip/03 - Queen - Don't Stop Me Now.mp3");
    t.playlist_index = None;
    assert_eq!(build_track_path(&t), "X/Y/09 - Don't Stop Me Now.mp3");
}

#[test]
fn destination_paths() {
    let t = track("AC/DC", "Back in Black", "Hells Bells", Some(1));
    assert_eq!(sync_dest_path(&t, "/media/usb"), "/media/usb/AC_DC/Back in Black/01 - Hells Bells.mp3");
    assert_eq!(sync_dest_path(&t, "/media/usb/"), "/media/usb/AC_DC/Back in Black/01 - Hells Bells.mp3");
    let u = track("B", "C", "D", Some(2));
    assert_eq!(
        compute_sync_paths(&vec![t, u], "/m"),
        vec!["/m/AC_DC/Back in Black/01 - Hells Bells.mp3".to_string(), "/m/B/C/02 - D.mp3".to_string()]
    );
}

#[test]
fn m3u8_playlist() {
    let mut a = track("AA", "Alb", " Song One ", Some(1));
    a.artist = "  ".to_string();
    a.duration = None;
    a.suffix = "flac".to_string();
    let mut b = track("BB", "Alb", "Two/Three", Some(2));
    b.artist = "Band".to_string();
    let body = playlist_m3u8_body(&vec![a, b]);
    assert_eq!(
        body,
        "#EXTM3U\n#EXTINF:-1,AA - Song One\n01 - AA - Song One.flac\n#EXTINF:200,Band - Two/Three\n02 - Band - Two_Three.mp3\n"
    );
    assert_eq!(
        playlist_m3u8_location("/media/usb", "Mix: 1"),
        ("/media/usb/Playlists/Mix_ 1".to_string(), "/media/usb/Playlists/Mix_ 1/Mix_ 1.m3u8".to_string())
    );
    assert_eq!(
        playlist_m3u8_location("/d", ""),
        ("/d/Playlists/Unnamed Playlist".to_string(), "/d/Playlists/Unnamed Playlist/Unnamed Playlist.m3u8".to_string())
    );
}

fn mount(p: &str, removable: bool, avail: u64) -> MountInfo {
    MountInfo { mount_point: p.to_string(), is_removable: removable, available_space: avail }
}

#[test]
fn mounted_volume_guard() {
    let mounts = vec![mount("/", false, 1), mount("/media/usb", true, 50_000_000)];
    assert!(path_on_mounted_volume("/media/usb/Music", &mounts));
    assert!(!path_on_mounted_volume("/home/me", &mounts));
    let win = vec![mount("C:\\", false, 1), mount("E:\\", true, 1)];
    assert!(!path_on_mounted_volume("C:\\Users", &win));
    assert!(path_on_mounted_volume("E:\\Music", &win));
}

#[test]
fn space_guard() {
    let mounts = vec![mount("/media/usb", true, 50_000_000)];
    assert!(sync_space_suffices("/media/usb/x", &mounts, 40_000_000));
    assert!(!sync_space_suffices("/media/usb/x", &mounts, 40_000_001));
    assert!(sync_space_suffices("/elsewhere", &mounts, u64::MAX));
    let tiny = vec![mount("/m", true, 5)];
    assert!(sync_space_suffices("/m/a", &tiny, 0));
    assert!(!sync_space_suffices("/m/a", &tiny, 1));
    assert_eq!(available_bytes_for("/media/usb/x", &mounts), 50_000_000);
    assert_eq!(available_bytes_for("/other", &mounts), 0);
}

#[test]
fn rename_steps() {
    assert_eq!(rename_step("a", "a", false, false), RenameStep::AlreadyInPlace);
    assert_eq!(rename_step("a", "b", false, false), RenameStep::SourceMissing);
    assert_eq!(rename_step("a", "b", true, true), RenameStep::TargetExists);
    assert_eq!(rename_step("a", "b", true, false), RenameStep::Move);
}

fn disk(name: &str, removable: bool) -> DiskEntry {
    DiskEntry {
        name: name.to_string(),
        mount_point: format!("/mnt/{name}"),
        available_space: 1,
        total_space: 2,
        file_system: "vfat".to_string(),
        is_removable: removable,
    }
}

#[test]
fn removable_drive_listing() {
    let r = removable_drives(vec![disk("a", true), disk("b", false), disk("c", true)]);
    let names: Vec<String> = r.iter().map(|d| d.name.clone()).collect();
    assert_eq!(names, vec!["a".to_string(), "c".to_string()]);
}

#[test]
fn batch_counts() {
    let mut r = SyncBatchResult::new();
    r.record(TrackSyncOutcome::Done);
    r.record(TrackSyncOutcome::Skipped);
    r.record(TrackSyncOutcome::Failed);
    r.record(TrackSyncOutcome::Done);
    assert_eq!((r.done, r.skipped, r.failed), (2, 1, 1));
    assert!(sync_progress_due(500));
    assert!(!sync_progress_due(499));
}

fn source(t: &str, id: &str, name: Option<&str>) -> SyncSource {
    SyncSource { source_type: t.to_string(), id: id.to_string(), name: name.map(|s| s.to_string()) }
}

fn song(id: Option<&str>, title: &str, size: Option<u64>, duration: Option<u64>) -> SongMeta {
    SongMeta {
        id: id.map(|s| s.to_string()),
        suffix: None,
        artist: Some("Art".to_string()),
        album_artist: Some("  ".to_string()),
        album: Some("Alb".to_string()),
        title: Some(title.to_string()),
        track: Some(4),
        duration,
        size,
    }
}

#[test]
fn source_split_and_fetch_kinds() {
    let (del, add) = split_sync_sources(
        vec![source("album", "1", None), source("playlist", "2", Some("P")), source("artist", "3", None)],
        &vec!["2".to_string()],
    );
    assert_eq!(del.iter().map(|s| s.id.clone()).collect::<Vec<_>>(), vec!["2".to_string()]);
    assert_eq!(add.iter().map(|s| s.id.clone()).collect::<Vec<_>>(), vec!["1".to_string(), "3".to_string()]);
    assert_eq!(source_fetch_kind("album", false), Some(SourceFetch::Album));
    assert_eq!(source_fetch_kind("playlist", true), Some(SourceFetch::Playlist));
    assert_eq!(source_fetch_kind("artist", false), Some(SourceFetch::ArtistAlbums));
    assert_eq!(source_fetch_kind("artist", true), None);
    assert_eq!(source_fetch_kind("genre", false), None);
}

#[test]
fn size_estimates() {
    assert_eq!(estimated_size(&song(Some("a"), "t", Some(123), Some(10))), 123);
    assert_eq!(estimated_size(&song(Some("a"), "t", None, Some(10))), 400_000);
    assert_eq!(estimated_size(&song(Some("a"), "t", None, None)), 0);
}

#[test]
fn planning_album_and_playlist() {
    let mut seen: Vec<(String, String)> = Vec::new();
    let songs = vec![
        song(Some("s1"), "One", Some(10), None),
        song(None, "NoId", Some(99), None),
        song(Some("s1"), "Dup", Some(10), None),
        song(Some("s2"), "Two", None, Some(1)),
    ];
    let album = source("album", "al", None);
    let planned = plan_source_tracks(&album, &songs, &mut seen, "/d");
    assert_eq!(planned.len(), 2);
    assert_eq!(planned[0].song_index, 0);
    assert_eq!(planned[0].dest_path, "/d/Art/Alb/04 - One.mp3");
    assert_eq!(planned[0].size, 10);
    assert_eq!(planned[1].song_index, 3);
    assert_eq!(planned[1].size, 40_000);
    assert_eq!(planned[1].playlist_index, None);
    assert_eq!(seen.len(), 2);

    let pl = source("playlist", "pl", Some("Mix"));
    let planned2 = plan_source_tracks(&pl, &songs, &mut seen, "/d");
    assert_eq!(planned2.len(), 2);
    assert_eq!(planned2[0].dest_path, "/d/Playlists/Mix/01 - Art - One.mp3");
    assert_eq!(planned2[1].playlist_index, Some(2));
    assert_eq!(planned2[1].playlist_name.as_deref(), Some("Mix"));
    assert_eq!(seen.len(), 4);

    assert_eq!(tally_additions(&planned, &vec![false, true]), Some((1, 10)));
    assert_eq!(tally_deletions(&songs), Some((4, 10 + 99 + 10 + 40_000)));
}

#[test]
fn windows_separators() {
    assert_eq!(windows_relative_path("Playlists/Mix/01 - A - B"), "Playlists\\Mix\\01 - A - B");
    assert_eq!(windows_relative_path("plain"), "plain");
}

#[test]
fn offline_prune_walk_stops_inside_boundary() {
    let mut w = PruneWalk::new("/c/srv/a/t.mp3", "/c");
    assert_eq!(w.next_dir().as_deref(), Some("/c/srv/a"));
    w.examined(true, false, true);
    assert_eq!(w.next_dir().as_deref(), Some("/c/srv"));
    w.examined(true, false, true);
    assert_eq!(w.next_dir(), None);

    let mut w = PruneWalk::new("/c/srv/a/t.mp3", "/c");
    w.examined(true, true, false);
    assert_eq!(w.next_dir(), None);
    let mut w = PruneWalk::new("/c/srv/a/t.mp3", "/c");
    w.examined(false, false, false);
    assert_eq!(w.next_dir(), None);
    let mut w = PruneWalk::new("/c/srv/a/t.mp3", "/c");
    w.examined(true, false, false);
    assert_eq!(w.next_dir(), None);

    assert_eq!(PruneWalk::new("/x/t.mp3", "/c").next_dir(), None);
    assert_eq!(PruneWalk::new("/c/t.mp3", "/c/").next_dir(), None);
    assert_eq!(PruneWalk::new("/cache2/a/t.mp3", "/cache").next_dir(), None);
    assert_eq!(PruneWalk::new("/c/a/t.mp3", "/c/").next_dir().as_deref(), Some("/c/a"));
}

#[test]
fn offline_prune_boundary_choice() {
    assert_eq!(offline_prune_boundary(Some("")), None);
    assert_eq!(offline_prune_boundary(Some("/music/cache")).as_deref(), Some("/music/cache"));
    assert_eq!(offline_prune_boundary(None), None);
}

#[test]
fn tallies_report_byte_overflow() {
    let big = vec![song(Some("a"), "A", Some(u64::MAX), None), song(Some("b"), "B", Some(1), None)];
    assert_eq!(tally_deletions(&big), None);
    assert_eq!(tally_deletions(&big[..1].to_vec()), Some((1, u64::MAX)));
    assert_eq!(tally_deletions(&Vec::new()), Some((0, 0)));
    let planned = vec![
        PlannedTrack { song_index: 0, dest_path: "/d/a".to_string(), size: u64::MAX, playlist_name: None, playlist_index: None },
        PlannedTrack { song_index: 1, dest_path: "/d/b".to_string(), size: 2, playlist_name: None, playlist_index: None },
    ];
    assert_eq!(tally_additions(&planned, &vec![false, false]), None);
    assert_eq!(tally_additions(&planned, &vec![false, true]), Some((1, u64::MAX)));
    assert_eq!(tally_additions(&planned, &vec![true, false]), Some((1, 2)));
}

#[test]
fn track_paths_carry_the_extension() {
    let t = TrackSyncInfo {
        id: "1".into(),
        url: "".into(),
        suffix: "flac".into(),
        artist: "AC/DC".into(),
        album_artist: "AC/DC".into(),
        album: "Back in Black".into(),
        title: "Hells Bells".into(),
        track_number: Some(1),
        duration: None,
        playlist_name: None,
        playlist_index: None,
    };
    assert_eq!(build_track_path(&t), "AC_DC/Back in Black/01 - Hells Bells.flac");
    let p = TrackSyncInfo {
        id: "1".into(),
        url: "".into(),
        suffix: "mp3".into(),
        artist: "AC/DC".into(),
        album_artist: "Various".into(),
        album: "Hits".into(),
        title: "T.N.T.".into(),
        track_number: Some(9),
        duration: None,
        playlist_name: Some("Road Trip".into()),
        playlist_index: Some(3),
    };
    assert_eq!(build_track_path(&p), "Playlists/Road Trip/03 - AC_DC - T.N.T.mp3");
}
