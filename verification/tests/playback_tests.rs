use hydra_player::decoding::{
    codec_error_message, codec_failure_text, codec_is_lossless, gapless_trim_needed, output_rate,
    probe_error_message, probe_failure_text, read_ahead_bytes, refine_skip, seek_frame_offset,
    select_audio_track, DecodeErrorRun, FrameDrop, PriorityBoost, TrackCodecInfo,
};
use hydra_player::devices::{
    linux_alsa_sink_fingerprint, output_devices_logically_same, output_enumeration_includes_pinned,
};
use hydra_player::gapless::{find_subsequence, parse_gapless_info, GaplessInfo};
use hydra_player::identity::{
    analysis_cache_track_id, analysis_track_id_is_current_playback, content_type_to_hint,
    fetch_source, fetch_status_error, in_memory_seed_track, log_safe_url,
    normalization_engine_name, playback_identity, ranged_loudness_backfill_should_defer,
    same_playback_target, seed_hold_released_by, take_stream_completed_for_url, FetchSource,
    PreloadedTrack,
};
use hydra_player::output::{
    exact_rate_config, highest_rate_config, latency_hints, open_attempts, quantum_frames,
    resolve_output_device, DeviceChoice, DeviceWatch, OpenAttempt, OutputConfigRange, WatchAction,
};

#[test]
fn identity_of_stream_and_local_urls() {
    assert_eq!(
        playback_identity("https://h/rest/stream.view?u=a&t=1&s=2&id=abc&f=json").as_deref(),
        Some("stream:abc")
    );
    assert_eq!(playback_identity("psysonic-local:///music/a.flac").as_deref(), Some("local:/music/a.flac"));
    assert_eq!(playback_identity("https://h/rest/download.view?id=abc"), None);
    assert_eq!(playback_identity("https://h/rest/stream.view?u=a"), None);
    assert_eq!(playback_identity("https://h/rest/stream.view"), None);
}

#[test]
fn same_target_ignores_salt() {
    assert!(same_playback_target(
        "https://h/rest/stream.view?id=7&t=aa&s=bb",
        "https://h/rest/stream.view?t=cc&s=dd&id=7"
    ));
    assert!(!same_playback_target("https://h/rest/stream.view?id=7", "https://h/rest/stream.view?id=8"));
    assert!(same_playback_target("https://x/a.mp3", "https://x/a.mp3"));
    assert!(!same_playback_target("https://x/a.mp3", "https://x/b.mp3"));
}

#[test]
fn analysis_id_prefers_logical() {
    assert_eq!(analysis_cache_track_id(Some("  t1 "), "psysonic-local:///a").as_deref(), Some("t1"));
    assert_eq!(analysis_cache_track_id(Some("   "), "psysonic-local:///a").as_deref(), Some("local:/a"));
    assert_eq!(analysis_cache_track_id(None, "https://x/a.mp3"), None);
}

#[test]
fn content_type_hints() {
    assert_eq!(content_type_to_hint("audio/MPEG").as_deref(), Some("mp3"));
    assert_eq!(content_type_to_hint("audio/aacp").as_deref(), Some("aac"));
    assert_eq!(content_type_to_hint("application/ogg").as_deref(), Some("ogg"));
    assert_eq!(content_type_to_hint("audio/x-flac").as_deref(), Some("flac"));
    assert_eq!(content_type_to_hint("audio/wave").as_deref(), Some("wav"));
    assert_eq!(content_type_to_hint("audio/opus").as_deref(), Some("opus"));
    assert_eq!(content_type_to_hint("text/html"), None);
}

#[test]
fn normalization_names() {
    assert_eq!(normalization_engine_name(0), "off");
    assert_eq!(normalization_engine_name(1), "replaygain");
    assert_eq!(normalization_engine_name(2), "loudness");
    assert_eq!(normalization_engine_name(9), "off");
}

#[test]
fn completed_stream_slot_is_taken_once() {
    let mut slot = Some(PreloadedTrack { url: "https://h/rest/stream.view?id=5&s=1".to_string(), data: vec![1, 2] });
    assert_eq!(take_stream_completed_for_url(&mut slot, "https://h/rest/stream.view?id=6&s=1"), None);
    assert!(slot.is_some());
    assert_eq!(take_stream_completed_for_url(&mut slot, "https://h/rest/stream.view?s=9&id=5"), Some(vec![1, 2]));
    assert!(slot.is_none());
    assert_eq!(take_stream_completed_for_url(&mut slot, "x"), None);
}

#[test]
fn backfill_hold_and_current_track() {
    let hold = Some(("t1".to_string(), 4u64));
    assert!(ranged_loudness_backfill_should_defer(&hold, " t1 "));
    assert!(!ranged_loudness_backfill_should_defer(&hold, "t2"));
    assert!(!ranged_loudness_backfill_should_defer(&hold, "  "));
    assert!(!ranged_loudness_backfill_should_defer(&None, "t1"));
    let cur = Some(" t1".to_string());
    assert!(analysis_track_id_is_current_playback(&cur, "t1 "));
    assert!(!analysis_track_id_is_current_playback(&cur, ""));
    assert!(!analysis_track_id_is_current_playback(&Some("  ".to_string()), "  "));
    assert!(!analysis_track_id_is_current_playback(&None, "t1"));
}

#[test]
fn fetch_helpers() {
    match fetch_source("psysonic-local:///data/x.flac") {
        FetchSource::LocalFile(p) => assert_eq!(p, "/data/x.flac"),
        FetchSource::Http => panic!("expected a local file"),
    }
    assert!(matches!(fetch_source("https://h/x"), FetchSource::Http));
    assert_eq!(log_safe_url("https://h/rest/stream.view?u=me&p=secret"), "https://h/rest/stream.view");
    assert_eq!(log_safe_url("https://h/a"), "https://h/a");
    assert_eq!(fetch_status_error(404, false).as_deref(), Some("HTTP 404"));
    assert_eq!(fetch_status_error(404, true), None);
    assert_eq!(in_memory_seed_track(Some(" t9 "), 10).as_deref(), Some("t9"));
    assert_eq!(in_memory_seed_track(Some("t9"), 0), None);
    assert_eq!(in_memory_seed_track(Some("t9"), 64 * 1024 * 1024 + 1), None);
    assert_eq!(in_memory_seed_track(Some(" "), 10), None);
    assert_eq!(in_memory_seed_track(None, 10), None);
}

#[test]
fn subsequence_search() {
    assert_eq!(find_subsequence(b"hello world", b"o w"), Some(4));
    assert_eq!(find_subsequence(b"aaa", b"aa"), Some(0));
    assert_eq!(find_subsequence(b"abc", b"abcd"), None);
    assert_eq!(find_subsequence(b"abc", b"x"), None);
}

#[test]
fn gapless_from_itunsmpb() {
    let mut data = b"junk iTunSMPB".to_vec();
    data.extend_from_slice(&[0u8, 0, 0, 40]);
    data.extend_from_slice(b"data");
    data.extend_from_slice(&[0u8; 8]);
    data.extend_from_slice(b" 00000000 00000840 000001C4 0000000000A0B2C0 00000000");
    let g = parse_gapless_info(&data);
    assert_eq!(g.delay_samples, 0x840);
    assert_eq!(g.total_valid_samples, Some(0xA0B2C0));
}

#[test]
fn gapless_defaults() {
    let g = parse_gapless_info(b"no tag here");
    assert_eq!(g.delay_samples, 0);
    assert_eq!(g.total_valid_samples, None);
    let g = parse_gapless_info(b"iTunSMPB 00000000 00000210");
    assert_eq!(g.delay_samples, 0);
    assert_eq!(g.total_valid_samples, None);
    let g = parse_gapless_info(b"iTunSMPB 00000000 00000210 00000000 0000000000000000");
    assert_eq!(g.delay_samples, 0x210);
    assert_eq!(g.total_valid_samples, None);
    let d = GaplessInfo::default();
    assert!(!gapless_trim_needed(&d));
    assert!(gapless_trim_needed(&GaplessInfo { delay_samples: 1, total_valid_samples: None }));
    assert!(gapless_trim_needed(&GaplessInfo { delay_samples: 0, total_valid_samples: Some(5) }));
}

#[test]
fn alsa_fingerprints() {
    assert_eq!(
        linux_alsa_sink_fingerprint("hw:CARD=PCH,DEV=3", true),
        Some(("hw".to_string(), "PCH".to_string(), 3))
    );
    assert_eq!(
        linux_alsa_sink_fingerprint("HDMI:CARD=NVidia,DEV=7", true),
        Some(("hdmi".to_string(), "NVidia".to_string(), 7))
    );
    assert_eq!(
        linux_alsa_sink_fingerprint("sysdefault:CARD=Generic", true),
        Some(("sysdefault".to_string(), "Generic".to_string(), 0))
    );
    assert_eq!(linux_alsa_sink_fingerprint("pipewire", true), None);
    assert_eq!(linux_alsa_sink_fingerprint("jack:CARD=X", true), None);
    assert_eq!(linux_alsa_sink_fingerprint("hw:DEV=1", true), None);
}

#[test]
fn alsa_fingerprints_only_on_linux() {
    assert_eq!(linux_alsa_sink_fingerprint("hw:CARD=PCH,DEV=3", false), None);
    assert!(!output_devices_logically_same("hw:CARD=PCH,DEV=0", "hw:CARD=PCH", false));
    assert!(output_devices_logically_same("hw:CARD=PCH", "hw:CARD=PCH", false));
    let avail = vec!["hdmi:CARD=HDMI,DEV=3".to_string()];
    assert!(!output_enumeration_includes_pinned(&avail, "hdmi:CARD=HDMI,DEV=3,AES0=4", false));
    assert!(output_enumeration_includes_pinned(&avail, "hdmi:CARD=HDMI,DEV=3", false));
}

#[test]
fn logical_device_matching() {
    assert!(output_devices_logically_same("hw:CARD=PCH,DEV=0", "hw:CARD=PCH", true));
    assert!(!output_devices_logically_same("hw:CARD=PCH,DEV=1", "plughw:CARD=PCH,DEV=1", true));
    assert!(output_devices_logically_same("Speakers", "Speakers", true));
    let avail = vec!["default".to_string(), "hdmi:CARD=HDMI,DEV=3".to_string()];
    assert!(output_enumeration_includes_pinned(&avail, "hdmi:CARD=HDMI,DEV=3,AES0=4", true));
    assert!(!output_enumeration_includes_pinned(&avail, "hw:CARD=USB", true));
}

fn cfg(channels: u16, min_rate: u32, max_rate: u32) -> OutputConfigRange {
    OutputConfigRange { channels, min_rate, max_rate }
}

#[test]
fn output_config_choice() {
    let configs = vec![cfg(1, 8000, 96000), cfg(2, 44100, 48000), cfg(2, 8000, 192000), cfg(6, 48000, 48000)];
    assert_eq!(exact_rate_config(&configs, 44100), Some(2));
    assert_eq!(exact_rate_config(&configs, 48000), Some(3));
    assert_eq!(exact_rate_config(&configs, 384000), None);
    assert_eq!(highest_rate_config(&configs), Some(2));
    assert_eq!(highest_rate_config(&vec![cfg(2, 1, 10), cfg(1, 1, 10)]), Some(1));
    assert_eq!(highest_rate_config(&Vec::new()), None);
}

#[test]
fn output_device_resolution() {
    let names = vec![Some("default".to_string()), None, Some("pulse".to_string()), Some("pipewire".to_string())];
    assert_eq!(resolve_output_device(&names, Some("pulse"), true), DeviceChoice::Listed(2));
    assert_eq!(resolve_output_device(&names, Some("missing"), true), DeviceChoice::Listed(3));
    assert_eq!(resolve_output_device(&names, None, false), DeviceChoice::SystemDefault);
    let names2 = vec![Some("pulse".to_string())];
    assert_eq!(resolve_output_device(&names2, None, true), DeviceChoice::Listed(0));
    assert_eq!(resolve_output_device(&Vec::new(), Some("x"), true), DeviceChoice::SystemDefault);
}

#[test]
fn pipewire_latency_hints() {
    assert_eq!(quantum_frames(44100), 4096);
    assert_eq!(quantum_frames(96000), 8192);
    assert_eq!(latency_hints(48000), ("4096/48000".to_string(), "85".to_string()));
    assert_eq!(latency_hints(88200), ("8192/88200".to_string(), "93".to_string()));
    assert_eq!(latency_hints(44100), ("4096/44100".to_string(), "93".to_string()));
    assert_eq!(latency_hints(65536), ("8192/65536".to_string(), "125".to_string()));
    assert_eq!(latency_hints(0), ("4096/0".to_string(), u64::MAX.to_string()));
}

#[test]
fn device_watch_follows_default() {
    let avail = vec!["a".to_string(), "b".to_string()];
    let mut w = DeviceWatch::new(Some("a".to_string()));
    assert_eq!(w.poll(true, Some("a".to_string()), &avail, &None), WatchAction::Idle);
    assert_eq!(w.poll(true, Some("b".to_string()), &avail, &None), WatchAction::FollowNewDefault);
    assert_eq!(w.poll(true, Some("b".to_string()), &avail, &None), WatchAction::Idle);
    assert_eq!(w.poll(true, None, &avail, &None), WatchAction::Idle);
    assert_eq!(w.poll(true, Some("b".to_string()), &avail, &None), WatchAction::FollowNewDefault);
    assert_eq!(w.poll(true, Some("a".to_string()), &Vec::new(), &None), WatchAction::Idle);
}

#[test]
fn device_watch_pinned_device() {
    let avail = vec!["a".to_string()];
    let pinned = Some("usb".to_string());
    let mut w = DeviceWatch::new(Some("a".to_string()));
    assert_eq!(w.poll(true, Some("a".to_string()), &avail, &pinned), WatchAction::Idle);
    assert_eq!(w.poll(false, Some("a".to_string()), &avail, &pinned), WatchAction::Idle);
    assert_eq!(w.poll(false, Some("a".to_string()), &avail, &pinned), WatchAction::Idle);
    assert_eq!(w.poll(false, Some("a".to_string()), &avail, &pinned), WatchAction::FallBackToDefault);
    let with_usb = vec!["a".to_string(), "usb".to_string()];
    assert_eq!(w.poll(false, Some("a".to_string()), &avail, &pinned), WatchAction::Idle);
    assert_eq!(w.poll(false, Some("a".to_string()), &with_usb, &pinned), WatchAction::Idle);
    assert_eq!(w.poll(false, Some("a".to_string()), &avail, &pinned), WatchAction::Idle);
    assert_eq!(w.poll(false, Some("a".to_string()), &avail, &pinned), WatchAction::Idle);
}

#[test]
fn decode_error_runs() {
    let mut run = DecodeErrorRun::new();
    assert_eq!(run.frame_corrupt(), FrameDrop::Skip { log: true });
    assert_eq!(run.frame_corrupt(), FrameDrop::Skip { log: false });
    for _ in 3..10 {
        run.frame_corrupt();
    }
    assert_eq!(run.consecutive(), 9);
    assert_eq!(run.frame_corrupt(), FrameDrop::Skip { log: true });
    run.frame_decoded();
    assert_eq!(run.consecutive(), 0);
    for _ in 1..100 {
        assert!(matches!(run.frame_corrupt(), FrameDrop::Skip { .. }));
    }
    assert_eq!(run.frame_corrupt(), FrameDrop::GiveUp);
}

#[test]
fn track_selection() {
    let cover = TrackCodecInfo { codec_is_null: false, has_sample_rate: false };
    let null = TrackCodecInfo { codec_is_null: true, has_sample_rate: true };
    let audio = TrackCodecInfo { codec_is_null: false, has_sample_rate: true };
    assert_eq!(select_audio_track(&vec![null, cover, audio], true), Some(2));
    assert_eq!(select_audio_track(&vec![null, cover, audio], false), Some(1));
    assert_eq!(select_audio_track(&vec![null], false), None);
}

#[test]
fn decoder_messages() {
    assert_eq!(
        probe_error_message(Some("m4a"), "Unsupported feature: core (probe)"),
        "unsupported format: .m4a files cannot be played (no demuxer)"
    );
    assert_eq!(
        probe_error_message(None, "end of stream"),
        "could not open audio stream (.unknown): end of stream"
    );
    assert_eq!(probe_failure_text(Some("mp3"), "x", "x"), "could not open audio stream (.mp3): x");
    assert_eq!(
        probe_failure_text(Some("mp3"), "Unsupported", "unsupported"),
        "unsupported format: .mp3 files cannot be played (no demuxer)"
    );
    assert_eq!(probe_failure_text(None, "Unsupported", "Unsupported"), "could not open audio stream (.unknown): Unsupported");
    assert_eq!(
        codec_error_message("UNSUPPORTED codec"),
        "unsupported codec: no decoder available for this audio format"
    );
    assert_eq!(codec_error_message("bad header"), "failed to initialise audio decoder: bad header");
    assert_eq!(codec_failure_text("E", "no unsupported here"), "unsupported codec: no decoder available for this audio format");
    assert_eq!(codec_failure_text("E", "e"), "failed to initialise audio decoder: E");
}

#[test]
fn decoder_parameters() {
    assert_eq!(read_ahead_bytes(true), 4 * 1024 * 1024);
    assert_eq!(read_ahead_bytes(false), 512 * 1024);
    assert_eq!(output_rate(44100, 48000), 48000);
    assert_eq!(output_rate(44100, 0), 44100);
    assert_eq!(output_rate(48000, 48000), 48000);
    assert!(codec_is_lossless("pcm_s16le"));
    assert!(codec_is_lossless("flac"));
    assert!(codec_is_lossless("monkeys-audio"));
    assert!(!codec_is_lossless("mp3"));
    assert!(!codec_is_lossless("flacx"));
    let mut boost = PriorityBoost::new();
    assert!(boost.on_sample());
    assert!(!boost.on_sample());
}

#[test]
fn seek_refinement() {
    assert_eq!(refine_skip(1000, 1152), None);
    assert_eq!(refine_skip(1152, 1152), Some(0));
    assert_eq!(refine_skip(3000, 1152), Some(1848));
    assert_eq!(seek_frame_offset(7, 100, 2), 201);
    assert_eq!(seek_frame_offset(6, 100, 2), 200);
    assert_eq!(seek_frame_offset(11, 3, 6), 23);
    assert_eq!(seek_frame_offset(11, 3, 6) % 6, 11 % 6);
}

#[test]
fn seed_hold_release() {
    let hold = Some(("t1".to_string(), 3u64));
    assert!(seed_hold_released_by(&hold, "t1", 3));
    assert!(!seed_hold_released_by(&hold, "t1", 4));
    assert!(!seed_hold_released_by(&hold, "t2", 3));
    assert!(!seed_hold_released_by(&None, "t1", 3));
}

#[test]
fn same_target_and_sink_are_equivalences() {
    let a = "https://h/rest/stream.view?id=1&s=a";
    let b = "https://h/rest/stream.view?s=b&id=1";
    let c = "https://other/rest/stream.view?id=1";
    assert!(same_playback_target(a, b) && same_playback_target(b, a));
    assert!(same_playback_target(b, c) && same_playback_target(a, c));
    let x = "hw:CARD=PCH,DEV=0";
    let y = "hw:CARD=PCH";
    let z = "hw:CARD=PCH,DEV=0,SUBDEV=1";
    assert!(output_devices_logically_same(x, y, true) && output_devices_logically_same(y, x, true));
    assert!(output_devices_logically_same(y, z, true) && output_devices_logically_same(x, z, true));
}

#[test]
fn open_attempt_order() {
    let configs = Some(vec![cfg(1, 8000, 96000), cfg(2, 44100, 48000), cfg(2, 8000, 192000), cfg(6, 48000, 48000)]);
    assert_eq!(
        open_attempts(44100, &configs),
        vec![
            OpenAttempt::Config { index: 2, rate: 44100 },
            OpenAttempt::Config { index: 2, rate: 192000 },
            OpenAttempt::DeviceDefault,
            OpenAttempt::SystemDefault,
        ]
    );
    assert_eq!(
        open_attempts(0, &configs),
        vec![OpenAttempt::DeviceDefault, OpenAttempt::SystemDefault]
    );
    assert_eq!(
        open_attempts(44100, &None),
        vec![OpenAttempt::DeviceDefault, OpenAttempt::SystemDefault]
    );
    assert_eq!(
        open_attempts(22050, &Some(vec![cfg(2, 44100, 48000)])),
        vec![OpenAttempt::Config { index: 0, rate: 48000 }, OpenAttempt::DeviceDefault, OpenAttempt::SystemDefault]
    );
    assert_eq!(
        open_attempts(44100, &Some(vec![])),
        vec![OpenAttempt::DeviceDefault, OpenAttempt::SystemDefault]
    );
}
