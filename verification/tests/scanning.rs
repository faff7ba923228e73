use jwatch::errors::MetaError;
use jwatch::record::{Codec, MediaInfo};
use jwatch::scan::{bitrate_acceptable, classify, disallowed_langs, scan_step, Finding, FindingKind, ScanConfig};

fn record_with(bitrate: u64, languages: Vec<String>) -> MediaInfo {
    MediaInfo {
        duration: 1000,
        size: 10,
        bitrate,
        height: 720,
        width: 1280,
        codec: Codec::H264,
        last_checked: 0,
        mtime: 0,
        languages,
        whitelisted: false,
    }
}

fn kinds(findings: &[Finding]) -> Vec<&FindingKind> {
    findings.iter().map(|f| &f.kind).collect()
}

#[test]
fn upper_bound_is_exclusive() {
    // 20.0 Mbps in the binary convention is exactly 20 * 2^20 bits/sec.
    let cfg = ScanConfig::default();
    assert!(!bitrate_acceptable(20 * 0x100000, &cfg), "exactly the upper bound is anomalous");
    assert!(bitrate_acceptable(20 * 0x100000 - 1, &cfg));
}

#[test]
fn lower_bound_is_inclusive() {
    // With a lower bound of 0.25 Mbps the boundary is a whole number of
    // bits: 0.25 * 2^20 = 262144.
    let cfg = ScanConfig {
        min_centi_mbps: Some(25),
        max_centi_mbps: 2000,
        allowed_langs: vec![],
    };
    assert!(bitrate_acceptable(262144, &cfg), "exactly the lower bound is acceptable");
    assert!(!bitrate_acceptable(262143, &cfg));
}

#[test]
fn absent_lower_bound_enforces_only_the_ceiling() {
    let cfg = ScanConfig { min_centi_mbps: None, max_centi_mbps: 2000, allowed_langs: vec![] };
    assert!(bitrate_acceptable(0, &cfg));
    assert!(!bitrate_acceptable(20 * 0x100000, &cfg));
}

#[test]
fn default_range_flags_low_and_high_bitrates() {
    let cfg = ScanConfig::default();
    assert!(!bitrate_acceptable(100_000, &cfg), "0.095 Mbps is below the 0.2 floor");
    assert!(bitrate_acceptable(500_000, &cfg), "0.48 Mbps lies inside [0.2, 20.0)");
    assert!(!bitrate_acceptable(25 * 0x100000, &cfg));
}

#[test]
fn allowed_languages_produce_no_finding() {
    let cfg = ScanConfig::default();
    let rec = record_with(500_000, vec!["en".to_string()]);
    let found = classify("clip.mkv", &rec, &cfg);
    assert!(found.is_empty());
}

#[test]
fn disallowed_language_is_listed_exactly() {
    let cfg = ScanConfig::default();
    let rec = record_with(500_000, vec!["en".to_string(), "fr".to_string()]);
    let found = classify("clip.mkv", &rec, &cfg);
    assert_eq!(found.len(), 1);
    assert_eq!(found[0].path, "clip.mkv");
    match &found[0].kind {
        FindingKind::Languages { disallowed } => {
            assert_eq!(disallowed, &vec!["fr".to_string()])
        },
        other => panic!("expected a language finding, got {:?}", other),
    }
}

#[test]
fn disallowed_keeps_order_and_duplicates() {
    let allowed = vec!["en".to_string(), "de".to_string()];
    let langs = vec![
        "fr".to_string(),
        "en".to_string(),
        "".to_string(),
        "fr".to_string(),
    ];
    let bad = disallowed_langs(&langs, &allowed);
    assert_eq!(bad, vec!["fr".to_string(), "".to_string(), "fr".to_string()]);
}

#[test]
fn bitrate_and_language_findings_are_independent() {
    let cfg = ScanConfig::default();
    let rec = record_with(25 * 0x100000, vec!["ja".to_string()]);
    let found = classify("clip.mkv", &rec, &cfg);
    assert_eq!(found.len(), 2, "one file may produce two findings");
    match kinds(&found)[0] {
        FindingKind::Bitrate { bitrate, codec } => {
            assert_eq!(*bitrate, 25 * 0x100000);
            assert!(matches!(codec, Codec::H264));
        },
        other => panic!("bitrate finding must come first, got {:?}", other),
    }
    assert!(matches!(kinds(&found)[1], FindingKind::Languages { .. }));
}

#[test]
fn scan_continues_past_a_failed_file() {
    let cfg = ScanConfig::default();
    let mut findings: Vec<Finding> = Vec::new();
    let failure = MetaError::ExtractionFailed {
        status: Some(1),
        diagnostic: "file not found".to_string(),
    };
    scan_step(&mut findings, "bad.mkv", Err(failure), &cfg).unwrap();
    scan_step(
        &mut findings,
        "good.mkv",
        Ok(record_with(500_000, vec!["en".to_string()])),
        &cfg,
    )
    .unwrap();
    scan_step(
        &mut findings,
        "loud.mkv",
        Ok(record_with(21 * 0x100000, vec![])),
        &cfg,
    )
    .unwrap();
    assert_eq!(findings.len(), 2);
    assert_eq!(findings[0].path, "bad.mkv");
    match &findings[0].kind {
        FindingKind::Failure { error: MetaError::ExtractionFailed { status, diagnostic } } => {
            assert_eq!(*status, Some(1));
            assert_eq!(diagnostic, "file not found");
        },
        other => panic!("expected the failure to be recorded, got {:?}", other),
    }
    assert_eq!(findings[1].path, "loud.mkv");
}

#[test]
fn store_fault_aborts_the_run() {
    let cfg = ScanConfig::default();
    let mut findings: Vec<Finding> = Vec::new();
    match scan_step(&mut findings, "any.mkv", Err(MetaError::StoreUnavailable), &cfg) {
        Err(MetaError::StoreUnavailable) => {},
        other => panic!("expected the fatal store fault back, got {:?}", other),
    }
    assert!(findings.is_empty(), "a fatal fault leaves the findings unchanged");
}

#[test]
fn findings_preserve_encounter_order() {
    let cfg = ScanConfig::default();
    let mut findings: Vec<Finding> = Vec::new();
    for (i, path) in ["a.mkv", "b.mkv", "c.mkv"].iter().enumerate() {
        let rec = record_with(100 + i as u64, vec![]);
        scan_step(&mut findings, path, Ok(rec), &cfg).unwrap();
    }
    let paths: Vec<&str> = findings.iter().map(|f| f.path.as_str()).collect();
    assert_eq!(paths, vec!["a.mkv", "b.mkv", "c.mkv"]);
}
