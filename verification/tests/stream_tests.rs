use hydra_player::download::{
    check_stream_response, radio_backpressure, range_header, status_is_success, ChunkOutcome,
    RadioBackpressure, RadioLink, RadioNext, RangedDownload, ReconnectBudget, ResponseVerdict,
    StreamCapture, PARTIAL_LOUDNESS_MIN_BYTES, TRACK_STREAM_PROMOTE_MAX_BYTES,
};
use hydra_player::icy::{icy_meta_from_text, parse_icy_meta, IcyInterceptor};
use hydra_player::ranged::{copy_out, RangedCursor, ReadStep, SeekFailure, SeekOrigin, StreamOffset};

fn icy_stream() -> Vec<u8> {
    let mut v = b"abcd".to_vec();
    v.push(3);
    let mut meta = b"StreamTitle='Song A';StreamUrl='0';".to_vec();
    meta.resize(48, 0);
    v.extend_from_slice(&meta);
    v.extend_from_slice(b"efgh");
    v.push(0);
    v.extend_from_slice(b"ij");
    v
}

#[test]
fn icy_strips_metadata_and_reports_title() {
    let mut icy = IcyInterceptor::new(4);
    let mut audio = Vec::new();
    let meta = icy.process(&icy_stream(), &mut audio).expect("title");
    assert_eq!(audio, b"abcdefghij".to_vec());
    assert_eq!(meta.title, "Song A");
    assert!(meta.is_ad);
}

#[test]
fn icy_chunking_gives_same_audio() {
    let data = icy_stream();
    for split in 0..data.len() {
        let mut icy = IcyInterceptor::new(4);
        let mut audio = Vec::new();
        let a = icy.process(&data[..split], &mut audio);
        let b = icy.process(&data[split..], &mut audio);
        assert_eq!(audio, b"abcdefghij".to_vec());
        let got = a.or(b).expect("title in one of the chunks");
        assert_eq!(got.title, "Song A");
    }
}

#[test]
fn icy_parse_plain_title() {
    let m = parse_icy_meta(b"StreamTitle='Artist - Track';\0\0\0").expect("meta");
    assert_eq!(m.title, "Artist - Track");
    assert!(!m.is_ad);
}

#[test]
fn icy_parse_trims_and_rejects_empty() {
    let m = parse_icy_meta(b"StreamTitle='  Spaced  ';StreamUrl='http://x';").expect("meta");
    assert_eq!(m.title, "Spaced");
    assert!(!m.is_ad);
    assert!(parse_icy_meta(b"StreamTitle='';").is_none());
    assert!(parse_icy_meta(b"StreamUrl='0';").is_none());
    assert!(parse_icy_meta(b"StreamTitle='unterminated").is_none());
}

#[test]
fn icy_parse_lossy_bytes() {
    let m = parse_icy_meta(b"StreamTitle='A\xffB';").expect("meta");
    assert_eq!(m.title, "A\u{fffd}B");
}

#[test]
fn ranged_seek_variants() {
    let mut c = RangedCursor::new(100);
    assert_eq!(c.seek(SeekOrigin::Start(40)), Ok(40));
    assert_eq!(c.seek(SeekOrigin::Current(-10)), Ok(30));
    assert_eq!(c.seek(SeekOrigin::Current(0)), Ok(30));
    assert_eq!(c.seek(SeekOrigin::End(-1)), Ok(99));
    assert_eq!(c.seek(SeekOrigin::End(50)), Ok(100));
    assert_eq!(c.seek(SeekOrigin::Start(500)), Ok(100));
    assert_eq!(c.seek(SeekOrigin::Current(-101)), Err(SeekFailure::BeforeStart));
    assert_eq!(c.position(), 100);
    assert_eq!(c.seek(SeekOrigin::Start(u64::MAX)), Err(SeekFailure::BeforeStart));
}

#[test]
fn ranged_read_waits_for_download() {
    let mut c = RangedCursor::new(10);
    assert_eq!(c.read_step(false, 4, 2, false, false), ReadStep::Wait);
    assert_eq!(c.read_step(false, 4, 2, false, true), ReadStep::TimedOut);
    assert_eq!(c.read_step(false, 4, 4, false, false), ReadStep::Deliver(4));
    assert_eq!(c.position(), 4);
    assert_eq!(c.read_step(false, 100, 7, true, false), ReadStep::Deliver(3));
    assert_eq!(c.position(), 7);
    assert_eq!(c.read_step(false, 100, 7, true, false), ReadStep::EndOfStream);
    assert_eq!(c.read_step(true, 1, 10, false, false), ReadStep::EndOfStream);
    assert_eq!(c.read_step(false, 0, 10, false, false), ReadStep::EndOfStream);
    assert_eq!(c.read_step(false, 10, 10, false, false), ReadStep::Deliver(3));
    assert_eq!(c.read_step(false, 10, 10, false, false), ReadStep::EndOfStream);
}

#[test]
fn copy_out_copies_window() {
    let src = vec![1u8, 2, 3, 4, 5];
    let mut dst = [9u8; 4];
    copy_out(&src, 1, 3, &mut dst);
    assert_eq!(dst, [2, 3, 4, 9]);
}

#[test]
fn stream_offset_reads_and_tells() {
    let mut s = StreamOffset::new();
    assert_eq!(s.read_step(false, 10, 4, false, false), ReadStep::Deliver(4));
    assert_eq!(s.read_step(false, 2, 4, false, false), ReadStep::Deliver(2));
    assert_eq!(s.position(), 6);
    assert_eq!(s.read_step(false, 0, 4, false, false), ReadStep::Wait);
    assert_eq!(s.read_step(false, 0, 4, true, false), ReadStep::EndOfStream);
    assert_eq!(s.read_step(false, 0, 4, false, true), ReadStep::TimedOut);
    assert_eq!(s.read_step(true, 5, 4, false, false), ReadStep::EndOfStream);
    assert_eq!(s.seek(SeekOrigin::Current(0)), Ok(6));
    assert_eq!(s.seek(SeekOrigin::Start(0)), Err(SeekFailure::NotSeekable));
    assert_eq!(s.seek(SeekOrigin::Current(1)), Err(SeekFailure::NotSeekable));
}

#[test]
fn response_checks() {
    assert!(status_is_success(200));
    assert!(status_is_success(299));
    assert!(!status_is_success(300));
    assert!(!status_is_success(199));
    assert_eq!(check_stream_response(0, 200), ResponseVerdict::Accept);
    assert_eq!(check_stream_response(0, 404), ResponseVerdict::HttpFailure);
    assert_eq!(check_stream_response(10, 206), ResponseVerdict::Accept);
    assert_eq!(check_stream_response(10, 200), ResponseVerdict::NotPartial);
}

#[test]
fn range_header_values() {
    assert_eq!(range_header(0), None);
    assert_eq!(range_header(1024).as_deref(), Some("bytes=1024-"));
}

#[test]
fn reconnect_budget_allows_three() {
    let mut b = ReconnectBudget::new();
    assert!(b.spend());
    assert!(b.spend());
    assert!(b.spend());
    assert!(!b.spend());
    assert_eq!(b.used_count(), 3);
    b.reset();
    assert!(b.spend());
}

#[test]
fn radio_gives_up_after_five_failures() {
    let mut l = RadioLink::new();
    for _ in 0..4 {
        assert_eq!(l.record_break(), RadioNext::Reconnect);
    }
    l.record_chunk(100);
    assert_eq!(l.consecutive_failures(), 0);
    assert_eq!(l.bytes_received(), 100);
    for _ in 0..4 {
        assert_eq!(l.record_break(), RadioNext::Reconnect);
    }
    assert_eq!(l.record_break(), RadioNext::GiveUp);
}

#[test]
fn radio_backpressure_rules() {
    assert_eq!(radio_backpressure(false, true, Some(10_000)), RadioBackpressure::Proceed);
    assert_eq!(radio_backpressure(true, false, Some(10_000)), RadioBackpressure::WaitPlaying);
    assert_eq!(radio_backpressure(true, true, None), RadioBackpressure::WaitStalled);
    assert_eq!(radio_backpressure(true, true, Some(4_999)), RadioBackpressure::WaitStalled);
    assert_eq!(radio_backpressure(true, true, Some(5_000)), RadioBackpressure::HardPause);
}

#[test]
fn capture_keeps_small_stream() {
    let mut c = StreamCapture::new();
    c.record(b"abc");
    c.record(b"def");
    assert!(c.partial_loudness_due(900));
    assert!(!c.partial_loudness_due(899));
    assert_eq!(c.into_promotable(), Some(b"abcdef".to_vec()));
    assert_eq!(StreamCapture::new().into_promotable(), None);
}

#[test]
fn capture_drops_oversized_stream() {
    let mut c = StreamCapture::new();
    let big = vec![7u8; TRACK_STREAM_PROMOTE_MAX_BYTES];
    c.record(&big);
    assert!(!c.is_over_limit());
    c.record(b"x");
    assert!(c.is_over_limit());
    c.record(b"y");
    assert!(!c.partial_loudness_due(10_000));
    assert_eq!(c.into_promotable(), None);
}

#[test]
fn ranged_download_fills_buffer() {
    let mut d = RangedDownload::new(6);
    let mut buf = vec![0u8; 6];
    assert_eq!(d.store_chunk(&mut buf, b"abcd"), ChunkOutcome::Stored { stored: 4, complete: false });
    assert_eq!(d.store_chunk(&mut buf, b"efgh"), ChunkOutcome::Stored { stored: 2, complete: true });
    assert_eq!(buf, b"abcdef".to_vec());
    assert_eq!(d.store_chunk(&mut buf, b"zz"), ChunkOutcome::BufferFull);
    assert_eq!(d.downloaded_bytes(), 6);
    assert!(d.promotable());
    assert!(!d.partial_loudness_due(1000));
}

#[test]
fn ranged_download_promotion_and_loudness_rules() {
    let total = PARTIAL_LOUDNESS_MIN_BYTES + 10;
    let mut d = RangedDownload::new(total);
    let mut buf = vec![0u8; total];
    let chunk = vec![1u8; PARTIAL_LOUDNESS_MIN_BYTES];
    d.store_chunk(&mut buf, &chunk);
    assert!(d.partial_loudness_due(900));
    assert!(!d.partial_loudness_due(800));
    assert!(!d.promotable());
    let empty = RangedDownload::new(0);
    assert!(!empty.promotable());
}

#[test]
fn icy_meta_from_decoded_text() {
    let m = icy_meta_from_text("StreamTitle='T';StreamUrl=' 0 ';\0\0").expect("meta");
    assert_eq!(m.title, "T");
    assert!(m.is_ad);
    assert!(icy_meta_from_text("StreamTitle=' ';").is_none());
}

#[test]
fn icy_valid_utf8_title_decodes_plainly() {
    let raw = "StreamTitle='Björk – Jóga';StreamUrl='0';\0\0".as_bytes();
    let m = parse_icy_meta(raw).expect("meta");
    assert_eq!(m.title, "Björk – Jóga");
    assert!(m.is_ad);
}
