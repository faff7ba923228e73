use jwatch::errors::MetaError;
use jwatch::parse::parse_report;
use jwatch::record::Codec;

const REPORT: &str = "General:\nDuration: 5000\nFileSize: 1000\nOverallBitRate: 500000\n\nVideo:\nHeight: 1080\nWidth: 1920\nFormat: avc1";

#[test]
fn parses_minimal_report() {
    let p = parse_report(REPORT, "clip.mkv").expect("well-formed report parses");
    assert_eq!(p.duration, 5000, "five seconds, kept in milliseconds");
    assert_eq!(p.size, 1000);
    assert_eq!(p.bitrate, 500000);
    assert_eq!(p.height, 1080);
    assert_eq!(p.width, 1920);
    assert!(matches!(p.codec, Codec::H264));
    assert!(p.languages.is_empty());
}

#[test]
fn parses_audio_sections_in_order() {
    let text = "General\nDuration: 1\nFileSize: 2\nOverallBitRate: 3\n\nVideo\nHeight: 4\nWidth: 5\nFormat: hvc1\n\nAudio #1\nLanguage: en\n\nAudio #2\nLanguage: fr\n\nAudio #3\nCodec: aac";
    let p = parse_report(text, "x.mkv").unwrap();
    assert!(matches!(p.codec, Codec::H265));
    assert_eq!(p.languages, vec!["en".to_string(), "fr".to_string(), "".to_string()]);
}

#[test]
fn header_with_or_without_colon() {
    let with = parse_report(REPORT, "a.mkv").unwrap();
    let without = parse_report(&REPORT.replace("General:", "General").replace("Video:", "Video"), "a.mkv").unwrap();
    assert_eq!(with.bitrate, without.bitrate);
    assert_eq!(with.height, without.height);
}

#[test]
fn values_are_trimmed_and_later_duplicates_win() {
    let text = "General\nDuration:   7000  \nFileSize: 1\nFileSize: 9\nOverallBitRate: 3\n\nVideo\nHeight: 4\nWidth: 5\nFormat:  av01 ";
    let p = parse_report(text, "x.mkv").unwrap();
    assert_eq!(p.duration, 7000);
    assert_eq!(p.size, 9, "the last pair with a repeated key wins");
    assert!(matches!(p.codec, Codec::AV1));
}

#[test]
fn duration_fraction_is_truncated() {
    let text = "General\nDuration: 5184.000000\nFileSize: 1\nOverallBitRate: 3\n\nVideo\nHeight: 4\nWidth: 5\nFormat: x";
    let p = parse_report(text, "x.mkv").unwrap();
    assert_eq!(p.duration, 5184);
    match p.codec {
        Codec::Other(raw) => assert_eq!(raw, "x"),
        other => panic!("unclassified identifier must be kept verbatim, got {:?}", other),
    }
}

#[test]
fn missing_field_names_section_key_and_path() {
    let text = "General\nFileSize: 1\nOverallBitRate: 3\n\nVideo\nHeight: 4\nWidth: 5\nFormat: x";
    match parse_report(text, "movie.mp4") {
        Err(MetaError::MissingField { section, key, path }) => {
            assert_eq!(section, "General");
            assert_eq!(key, "Duration");
            assert_eq!(path, "movie.mp4");
        },
        other => panic!("expected MissingField, got {:?}", other),
    }
}

#[test]
fn missing_section_is_a_missing_field() {
    let text = "General\nDuration: 1\nFileSize: 1\nOverallBitRate: 3";
    match parse_report(text, "movie.mp4") {
        Err(MetaError::MissingField { section, key, .. }) => {
            assert_eq!(section, "Video");
            assert_eq!(key, "Height");
        },
        other => panic!("expected MissingField, got {:?}", other),
    }
}

#[test]
fn malformed_number_is_reported() {
    let text = "General\nDuration: soon\nFileSize: 1\nOverallBitRate: 3\n\nVideo\nHeight: 4\nWidth: 5\nFormat: x";
    match parse_report(text, "movie.mp4") {
        Err(MetaError::MalformedField { section, key, path }) => {
            assert_eq!(section, "General");
            assert_eq!(key, "Duration");
            assert_eq!(path, "movie.mp4");
        },
        other => panic!("expected MalformedField, got {:?}", other),
    }
}

#[test]
fn lines_without_colon_are_ignored_for_lookups() {
    let text = "General\nnoise without separator\nDuration: 1\nFileSize: 2\nOverallBitRate: 3\n\nVideo\nHeight: 4\nWidth: 5\nFormat: avc1";
    let p = parse_report(text, "x.mkv").unwrap();
    assert_eq!(p.duration, 1);
}

#[test]
fn codec_classification_is_total() {
    assert!(matches!(Codec::from_str("avc1"), Codec::H264));
    assert!(matches!(Codec::from_str("hvc1"), Codec::H265));
    assert!(matches!(Codec::from_str("av01"), Codec::AV1));
    match Codec::from_str("vp09") {
        Codec::Other(raw) => assert_eq!(raw, "vp09"),
        other => panic!("unknown identifier must map to Other, got {:?}", other),
    }
    assert_eq!(Codec::from_str("avc1").name(), "H264");
    assert_eq!(Codec::from_str("zzz").name(), "zzz");
}
