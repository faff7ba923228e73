use jwatch::cache::{file_key, get_from_cachedb, init_cachedb, store_to_cachedb};
use jwatch::errors::MetaError;
use jwatch::record::{Codec, MediaInfo};
use jwatch::resolve::{get_mediainfo, resolve_with_output, resolve_with_output_at, ToolOutput};

fn sample_record(mtime: i64) -> MediaInfo {
    MediaInfo {
        duration: 5000,
        size: 1000,
        bitrate: 500000,
        height: 1080,
        width: 1920,
        codec: Codec::H264,
        last_checked: 1234,
        mtime,
        languages: vec!["en".to_string(), "fr".to_string()],
        whitelisted: true,
    }
}

fn assert_same_record(a: &MediaInfo, b: &MediaInfo) {
    assert_eq!(a.duration, b.duration);
    assert_eq!(a.size, b.size);
    assert_eq!(a.bitrate, b.bitrate);
    assert_eq!(a.height, b.height);
    assert_eq!(a.width, b.width);
    assert_eq!(a.codec.name(), b.codec.name());
    assert_eq!(a.last_checked, b.last_checked);
    assert_eq!(a.mtime, b.mtime);
    assert_eq!(a.languages, b.languages);
    assert_eq!(a.whitelisted, b.whitelisted);
}

const REPORT: &str = "General:\nDuration: 5000\nFileSize: 1000\nOverallBitRate: 500000\n\nVideo:\nHeight: 1080\nWidth: 1920\nFormat: avc1";

fn good_output() -> ToolOutput {
    ToolOutput {
        success: true,
        status: Some(0),
        stdout: REPORT.as_bytes().to_vec(),
        diagnostic: String::new(),
    }
}

#[test]
fn store_then_get_round_trips() {
    let mut conn = rusqlite::Connection::open_in_memory().unwrap();
    init_cachedb(&conn).unwrap();
    let rec = sample_record(1000);
    store_to_cachedb("media/clip.mkv", &rec, &mut conn).unwrap();
    let back = get_from_cachedb("media/clip.mkv", &conn)
        .unwrap()
        .expect("stored record is found");
    assert_same_record(&rec, &back);
}

#[test]
fn get_miss_is_ok_none() {
    let conn = rusqlite::Connection::open_in_memory().unwrap();
    init_cachedb(&conn).unwrap();
    assert!(get_from_cachedb("nothing.mkv", &conn).unwrap().is_none());
}

#[test]
fn init_is_idempotent() {
    let mut conn = rusqlite::Connection::open_in_memory().unwrap();
    init_cachedb(&conn).unwrap();
    let rec = sample_record(7);
    store_to_cachedb("a.mkv", &rec, &mut conn).unwrap();
    init_cachedb(&conn).unwrap();
    assert!(get_from_cachedb("a.mkv", &conn).unwrap().is_some());
}

#[test]
fn put_is_idempotent() {
    let mut conn = rusqlite::Connection::open_in_memory().unwrap();
    init_cachedb(&conn).unwrap();
    let rec = sample_record(1000);
    store_to_cachedb("clip.mkv", &rec, &mut conn).unwrap();
    store_to_cachedb("clip.mkv", &rec, &mut conn).unwrap();
    let back = get_from_cachedb("clip.mkv", &conn).unwrap().unwrap();
    assert_same_record(&rec, &back);
}

#[test]
fn put_replaces_wholesale() {
    let mut conn = rusqlite::Connection::open_in_memory().unwrap();
    init_cachedb(&conn).unwrap();
    store_to_cachedb("clip.mkv", &sample_record(1000), &mut conn).unwrap();
    let mut newer = sample_record(2000);
    newer.bitrate = 42;
    newer.languages = vec![];
    store_to_cachedb("clip.mkv", &newer, &mut conn).unwrap();
    let back = get_from_cachedb("clip.mkv", &conn).unwrap().unwrap();
    assert_same_record(&newer, &back);
}

#[test]
fn cache_keys_by_base_name_so_paths_collide() {
    // Known limitation, kept deliberately: two files with the same name in
    // different subtrees share one cache slot.
    let mut conn = rusqlite::Connection::open_in_memory().unwrap();
    init_cachedb(&conn).unwrap();
    store_to_cachedb("one/movie.mkv", &sample_record(1), &mut conn).unwrap();
    let other = sample_record(2);
    store_to_cachedb("two/movie.mkv", &other, &mut conn).unwrap();
    let back = get_from_cachedb("one/movie.mkv", &conn).unwrap().unwrap();
    assert_eq!(back.mtime, 2, "the later write under the shared key wins");
}

#[test]
fn file_key_takes_the_base_name() {
    assert_eq!(file_key("a/b/clip.mkv").unwrap(), "clip.mkv");
    assert_eq!(file_key("clip.mkv").unwrap(), "clip.mkv");
    assert!(file_key("a/b/").is_none());
    assert!(file_key("").is_none());
}

#[test]
fn pathless_file_is_an_identity_error() {
    let conn = rusqlite::Connection::open_in_memory().unwrap();
    init_cachedb(&conn).unwrap();
    match get_from_cachedb("dir/", &conn) {
        Err(MetaError::FileIdentityError { path }) => assert_eq!(path, "dir/"),
        other => panic!("expected FileIdentityError, got {:?}", other),
    }
}

#[test]
fn store_fault_is_store_unavailable() {
    // No schema: every lookup hits a storage fault, never a silent miss.
    let conn = rusqlite::Connection::open_in_memory().unwrap();
    match get_from_cachedb("clip.mkv", &conn) {
        Err(MetaError::StoreUnavailable) => {},
        other => panic!("expected StoreUnavailable, got {:?}", other),
    }
}

#[test]
fn fresh_fingerprint_is_a_pure_hit() {
    let mut conn = rusqlite::Connection::open_in_memory().unwrap();
    init_cachedb(&conn).unwrap();
    let resolved = resolve_with_output_at("m/clip.mkv", 1000, 99, good_output(), &mut conn).unwrap();
    let hit = get_mediainfo("m/clip.mkv", 1000, &conn)
        .unwrap()
        .expect("equal fingerprint must be a cache hit");
    assert_same_record(&resolved, &hit);
    assert_eq!(hit.last_checked, 99);
    assert_eq!(hit.mtime, 1000);
}

#[test]
fn changed_fingerprint_forces_re_extraction() {
    // A record cached with fingerprint 1000 is re-scanned when the walker
    // reports 1001: the consult misses, and one tool run refreshes it.
    let mut conn = rusqlite::Connection::open_in_memory().unwrap();
    init_cachedb(&conn).unwrap();
    let mut rec = sample_record(1000);
    rec.languages = vec![];
    store_to_cachedb("m/clip.mkv", &rec, &mut conn).unwrap();
    assert!(
        get_mediainfo("m/clip.mkv", 1001, &conn).unwrap().is_none(),
        "stale entry must ask for extraction"
    );
    let refreshed = resolve_with_output_at("m/clip.mkv", 1001, 77, good_output(), &mut conn).unwrap();
    assert_eq!(refreshed.mtime, 1001);
    let hit = get_mediainfo("m/clip.mkv", 1001, &conn).unwrap().unwrap();
    assert_same_record(&refreshed, &hit);
}

#[test]
fn absent_entry_asks_for_extraction() {
    let conn = rusqlite::Connection::open_in_memory().unwrap();
    init_cachedb(&conn).unwrap();
    assert!(get_mediainfo("new.mkv", 5, &conn).unwrap().is_none());
}

#[test]
fn resolution_parses_stamps_and_writes_back() {
    let mut conn = rusqlite::Connection::open_in_memory().unwrap();
    init_cachedb(&conn).unwrap();
    let rec = resolve_with_output_at("m/clip.mkv", 1000, 55, good_output(), &mut conn).unwrap();
    assert_eq!(rec.duration, 5000);
    assert_eq!(rec.size, 1000);
    assert_eq!(rec.bitrate, 500000);
    assert_eq!(rec.height, 1080);
    assert_eq!(rec.width, 1920);
    assert!(matches!(rec.codec, Codec::H264));
    assert!(rec.languages.is_empty());
    assert_eq!(rec.last_checked, 55);
    assert_eq!(rec.mtime, 1000);
    assert!(!rec.whitelisted);
    let cached = get_from_cachedb("m/clip.mkv", &conn).unwrap().unwrap();
    assert_same_record(&rec, &cached);
}

#[test]
fn resolution_stamps_the_clock() {
    let mut conn = rusqlite::Connection::open_in_memory().unwrap();
    init_cachedb(&conn).unwrap();
    let rec = resolve_with_output("clip.mkv", 1000, good_output(), &mut conn).unwrap();
    assert!(rec.last_checked > 1_000_000_000, "last_checked must be stamped with the clock now");
}

#[test]
fn tool_failure_is_extraction_failed() {
    let mut conn = rusqlite::Connection::open_in_memory().unwrap();
    init_cachedb(&conn).unwrap();
    let out = ToolOutput {
        success: false,
        status: Some(1),
        stdout: vec![],
        diagnostic: "file not found".to_string(),
    };
    match resolve_with_output("gone.mkv", 1, out, &mut conn) {
        Err(MetaError::ExtractionFailed { status, diagnostic }) => {
            assert_eq!(status, Some(1));
            assert_eq!(diagnostic, "file not found");
        },
        other => panic!("expected ExtractionFailed, got {:?}", other),
    }
    assert!(
        get_from_cachedb("gone.mkv", &conn).unwrap().is_none(),
        "a failed resolution must leave the store unchanged"
    );
}

#[test]
fn invalid_utf8_is_an_encoding_error() {
    let mut conn = rusqlite::Connection::open_in_memory().unwrap();
    init_cachedb(&conn).unwrap();
    let out = ToolOutput {
        success: true,
        status: Some(0),
        stdout: vec![0xff, 0xfe, 0x00],
        diagnostic: String::new(),
    };
    match resolve_with_output("odd.mkv", 1, out, &mut conn) {
        Err(MetaError::EncodingError { path }) => assert_eq!(path, "odd.mkv"),
        other => panic!("expected EncodingError, got {:?}", other),
    }
}

#[test]
fn parse_failure_propagates_with_context() {
    let mut conn = rusqlite::Connection::open_in_memory().unwrap();
    init_cachedb(&conn).unwrap();
    let out = ToolOutput {
        success: true,
        status: Some(0),
        stdout: b"General\nFileSize: 1".to_vec(),
        diagnostic: String::new(),
    };
    match resolve_with_output("short.mkv", 1, out, &mut conn) {
        Err(MetaError::MissingField { path, .. }) => assert_eq!(path, "short.mkv"),
        other => panic!("expected MissingField, got {:?}", other),
    }
}
