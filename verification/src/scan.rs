//! Anomaly-detection pass over scan results: classify each resolved record
//! against the configured acceptance ranges — bitrate and audio languages
//! are independent checks — and accumulate findings in encounter order,
//! isolating per-file failures so one bad file cannot abort the scan.
use vstd::prelude::*;

verus! {

use vstd::string::StringExecFns;
use crate::record::{Codec, CodecV, MediaInfo, MediaInfoV, langs_view};
use crate::errors::{MetaError, MetaErrorV};
use crate::text::str_eq;

/// The acceptance configuration. Bitrate bounds are in hundredths of a
/// megabit per second, megabit in the binary convention (2^20 bits): the
/// range is lower-inclusive, upper-exclusive, and the lower bound may be
/// absent, leaving only the upper bound enforced. `allowed_langs` is the
/// audio-language allow-list.
pub struct ScanConfig {
    pub min_centi_mbps: Option<u64>,
    pub max_centi_mbps: u64,
    pub allowed_langs: Vec<String>,
}

/// Spec-level configuration.
pub struct ScanConfigV {
    pub min_centi_mbps: Option<u64>,
    pub max_centi_mbps: u64,
    pub allowed_langs: Seq<Seq<char>>,
}

impl View for ScanConfig {
    type V = ScanConfigV;

    open spec fn view(&self) -> ScanConfigV {
        ScanConfigV {
            min_centi_mbps: self.min_centi_mbps,
            max_centi_mbps: self.max_centi_mbps,
            allowed_langs: langs_view(self.allowed_langs@),
        }
    }
}

impl Default for ScanConfig {
    /// The defaults: 0.20 to 20.00 megabits per second, and the
    /// allow-list `en`, `de`.
    fn default() -> (r: ScanConfig)
        ensures
            r@.min_centi_mbps == Some(20u64),
            r@.max_centi_mbps == 2000u64,
            r@.allowed_langs =~= seq!["en"@, "de"@],
    {
        let langs = vec![String::from_str("en"), String::from_str("de")];
        proof {
            assert(langs_view(langs@) =~= seq!["en"@, "de"@]);
        }
        ScanConfig { min_centi_mbps: Some(20), max_centi_mbps: 2000, allowed_langs: langs }
    }
}

/// Whether a bitrate in bits per second is acceptable: its megabitrate
/// `bitrate / 2^20` lies in the configured half-open range, the comparison
/// taken exactly, `100 * bitrate` against `bound * 2^20`.
pub open spec fn spec_bitrate_acceptable(bitrate: u64, cfg: ScanConfigV) -> bool {
    &&& match cfg.min_centi_mbps {
        None => true,
        Some(lo) => 100 * bitrate >= lo * 0x100000,
    }
    &&& 100 * bitrate < cfg.max_centi_mbps * 0x100000
}

/// Decides bitrate acceptability, as `spec_bitrate_acceptable` describes.
pub fn bitrate_acceptable(bitrate: u64, cfg: &ScanConfig) -> (r: bool)
    ensures
        r == spec_bitrate_acceptable(bitrate, cfg@),
{
    let b: u128 = 100 * (bitrate as u128);
    let lo_ok: bool = match cfg.min_centi_mbps {
        None => true,
        Some(lo) => b >= (lo as u128) * 0x100000,
    };
    lo_ok && b < (cfg.max_centi_mbps as u128) * 0x100000
}

/// Classification boundary: a megabitrate exactly at the upper bound is
/// anomalous (the range is upper-exclusive), and one exactly at the lower
/// bound is acceptable (lower-inclusive), the upper bound permitting.
pub proof fn lemma_classification_boundary(bitrate: u64, cfg: ScanConfigV)
    ensures
        100 * bitrate == cfg.max_centi_mbps * 0x100000 ==> !spec_bitrate_acceptable(bitrate, cfg),
        cfg.min_centi_mbps matches Some(lo) && 100 * bitrate == lo * 0x100000 && 100 * bitrate
            < cfg.max_centi_mbps * 0x100000 ==> spec_bitrate_acceptable(bitrate, cfg),
{
}

/// Whether a language is on the allow-list.
pub open spec fn spec_lang_allowed(l: Seq<char>, allowed: Seq<Seq<char>>) -> bool {
    exists|i: int| 0 <= i < allowed.len() && allowed[i] == l
}

/// The languages of `ls` not on the allow-list, in order, duplicates kept.
pub open spec fn spec_disallowed(ls: Seq<Seq<char>>, allowed: Seq<Seq<char>>) -> Seq<Seq<char>>
    decreases ls.len(),
{
    if ls.len() == 0 {
        Seq::<Seq<char>>::empty()
    } else {
        spec_disallowed(ls.drop_last(), allowed) + (if spec_lang_allowed(ls.last(), allowed) {
            Seq::<Seq<char>>::empty()
        } else {
            seq![ls.last()]
        })
    }
}

/// Language allow-list: a language is reported iff it is off the list —
/// the disallowed languages are exactly the members of `ls` that the
/// allow-list lacks, kept in order.
pub proof fn lemma_disallowed_exact(ls: Seq<Seq<char>>, allowed: Seq<Seq<char>>, l: Seq<char>)
    ensures
        spec_disallowed(ls, allowed).contains(l) <==> (ls.contains(l) && !spec_lang_allowed(
            l,
            allowed,
        )),
    decreases ls.len(),
{
    if ls.len() > 0 {
        lemma_disallowed_exact(ls.drop_last(), allowed, l);
        assert(ls.contains(l) <==> (ls.drop_last().contains(l) || ls.last() == l)) by {
            if ls.contains(l) {
                let i = choose|i: int| 0 <= i < ls.len() && ls[i] == l;
                if i < ls.len() - 1 {
                    assert(ls.drop_last()[i] == l);
                }
            }
            if ls.drop_last().contains(l) {
                let i = choose|i: int| 0 <= i < ls.drop_last().len() && ls.drop_last()[i] == l;
                assert(ls[i] == l);
            }
            if ls.last() == l {
                assert(ls[ls.len() - 1] == l);
            }
        }
        let d = spec_disallowed(ls.drop_last(), allowed);
        let w = spec_disallowed(ls, allowed);
        if spec_lang_allowed(ls.last(), allowed) {
            assert(w =~= d);
        } else {
            assert(w == d.push(ls.last()));
            assert(w.contains(l) <==> (d.contains(l) || ls.last() == l)) by {
                if w.contains(l) {
                    let i = choose|i: int| 0 <= i < w.len() && w[i] == l;
                    if i < w.len() - 1 {
                        assert(d[i] == l);
                    }
                }
                if d.contains(l) {
                    let i = choose|i: int| 0 <= i < d.len() && d[i] == l;
                    assert(w[i] == l);
                }
                if ls.last() == l {
                    assert(w[w.len() - 1] == l);
                }
            }
        }
    }
}

fn lang_allowed(l: &String, allowed: &Vec<String>) -> (r: bool)
    ensures
        r == spec_lang_allowed(l@, langs_view(allowed@)),
{
    let mut i: usize = 0;
    while i < allowed.len()
        invariant
            i <= allowed.len(),
            forall|j: int| 0 <= j < i ==> langs_view(allowed@)[j] != l@,
        decreases allowed.len() - i,
    {
        if str_eq(allowed[i].as_str(), l.as_str()) {
            proof {
                assert(langs_view(allowed@)[i as int] == l@);
            }
            return true;
        }
        i += 1;
    }
    false
}

/// Collects the disallowed languages, as `spec_disallowed` describes.
pub fn disallowed_langs(ls: &Vec<String>, allowed: &Vec<String>) -> (r: Vec<String>)
    ensures
        langs_view(r@) == spec_disallowed(langs_view(ls@), langs_view(allowed@)),
{
    let ghost lv = langs_view(ls@);
    let ghost av = langs_view(allowed@);
    let mut out: Vec<String> = Vec::new();
    let mut i: usize = 0;
    proof {
        assert(lv.take(0) =~= Seq::<Seq<char>>::empty());
        assert(langs_view(out@) =~= Seq::<Seq<char>>::empty());
    }
    while i < ls.len()
        invariant
            i <= ls.len(),
            lv == langs_view(ls@),
            av == langs_view(allowed@),
            langs_view(out@) == spec_disallowed(lv.take(i as int), av),
        decreases ls.len() - i,
    {
        proof {
            assert(lv.take(i + 1).drop_last() =~= lv.take(i as int));
            assert(lv.take(i + 1).last() == lv[i as int]);
        }
        let ghost old_out = langs_view(out@);
        if !lang_allowed(&ls[i], allowed) {
            out.push(ls[i].clone());
            proof {
                assert(langs_view(out@) =~= old_out + seq![lv[i as int]]);
            }
        } else {
            proof {
                assert(langs_view(out@) =~= old_out + Seq::<Seq<char>>::empty());
            }
        }
        i += 1;
    }
    proof {
        assert(lv.take(i as int) =~= lv);
    }
    out
}

/// A single reported anomaly attached to one scanned file.
#[derive(Debug, Clone)]
pub enum FindingKind {
    /// The megabitrate fell outside the acceptable range; carries the raw
    /// bitrate and the codec.
    Bitrate { bitrate: u64, codec: Codec },
    /// Audio languages off the allow-list, in order of appearance.
    Languages { disallowed: Vec<String> },
    /// The file's resolution failed; the scan went on without it.
    Failure { error: MetaError },
}

/// Spec-level finding kind.
pub enum FindingKindV {
    Bitrate { bitrate: u64, codec: CodecV },
    Languages { disallowed: Seq<Seq<char>> },
    Failure { error: MetaErrorV },
}

impl View for FindingKind {
    type V = FindingKindV;

    open spec fn view(&self) -> FindingKindV {
        match self {
            FindingKind::Bitrate { bitrate, codec } => FindingKindV::Bitrate {
                bitrate: *bitrate,
                codec: codec@,
            },
            FindingKind::Languages { disallowed } => FindingKindV::Languages {
                disallowed: langs_view(disallowed@),
            },
            FindingKind::Failure { error } => FindingKindV::Failure { error: error@ },
        }
    }
}

/// One finding: the offending path and what was found.
#[derive(Debug, Clone)]
pub struct Finding {
    pub path: String,
    pub kind: FindingKind,
}

/// Spec-level finding.
pub struct FindingV {
    pub path: Seq<char>,
    pub kind: FindingKindV,
}

impl View for Finding {
    type V = FindingV;

    open spec fn view(&self) -> FindingV {
        FindingV { path: self.path@, kind: self.kind@ }
    }
}

/// The views of a vector of findings.
pub open spec fn findings_view(v: Seq<Finding>) -> Seq<FindingV> {
    v.map_values(|f: Finding| f@)
}

/// The findings of one resolved record: a bitrate finding when the
/// megabitrate falls outside the acceptable range, then a language finding
/// when any audio language is off the allow-list — zero, one or two, the
/// checks independent.
pub open spec fn spec_classify(path: Seq<char>, m: MediaInfoV, cfg: ScanConfigV) -> Seq<FindingV> {
    (if !spec_bitrate_acceptable(m.bitrate, cfg) {
        seq![
            FindingV {
                path,
                kind: FindingKindV::Bitrate { bitrate: m.bitrate, codec: m.codec },
            },
        ]
    } else {
        Seq::<FindingV>::empty()
    }) + (if spec_disallowed(m.languages, cfg.allowed_langs).len() > 0 {
        seq![
            FindingV {
                path,
                kind: FindingKindV::Languages {
                    disallowed: spec_disallowed(m.languages, cfg.allowed_langs),
                },
            },
        ]
    } else {
        Seq::<FindingV>::empty()
    })
}

/// Classifies one resolved record, as `spec_classify` describes.
pub fn classify(path: &str, m: &MediaInfo, cfg: &ScanConfig) -> (r: Vec<Finding>)
    ensures
        findings_view(r@) == spec_classify(path@, m@, cfg@),
{
    let mut out: Vec<Finding> = Vec::new();
    if !bitrate_acceptable(m.bitrate, cfg) {
        out.push(
            Finding {
                path: String::from_str(path),
                kind: FindingKind::Bitrate { bitrate: m.bitrate, codec: m.codec.duplicate() },
            },
        );
    }
    let bad = disallowed_langs(&m.languages, &cfg.allowed_langs);
    if bad.len() > 0 {
        out.push(
            Finding {
                path: String::from_str(path),
                kind: FindingKind::Languages { disallowed: bad },
            },
        );
    }
    proof {
        assert(findings_view(out@) =~= spec_classify(path@, m@, cfg@));
    }
    out
}

/// What one pipeline step leaves behind: the findings extended by the
/// file's classification, or by a failure finding when its resolution
/// failed — except a store fault, which is fatal for the whole run, since
/// every later resolution would fail the same way.
pub open spec fn spec_scan_step(
    findings: Seq<FindingV>,
    path: Seq<char>,
    outcome: Result<MediaInfoV, MetaErrorV>,
    cfg: ScanConfigV,
) -> Result<Seq<FindingV>, MetaErrorV> {
    match outcome {
        Ok(m) => Ok(findings + spec_classify(path, m, cfg)),
        Err(e) => if e == MetaErrorV::StoreUnavailable {
            Err(MetaErrorV::StoreUnavailable)
        } else {
            Ok(findings.push(FindingV { path, kind: FindingKindV::Failure { error: e } }))
        },
    }
}

/// Folds one file's resolution outcome into the findings, as
/// `spec_scan_step` describes: per-file failures are recorded and the scan
/// continues; only a store fault aborts, leaving the findings unchanged.
pub fn scan_step(
    findings: &mut Vec<Finding>,
    path: &str,
    outcome: Result<MediaInfo, MetaError>,
    cfg: &ScanConfig,
) -> (r: Result<(), MetaError>)
    ensures
        ({
            let stepped = spec_scan_step(
                findings_view(old(findings)@),
                path@,
                match outcome {
                    Ok(m) => Ok(m@),
                    Err(e) => Err(e@),
                },
                cfg@,
            );
            match r {
                Ok(_) => stepped == Ok::<Seq<FindingV>, MetaErrorV>(
                    findings_view(final(findings)@),
                ),
                Err(e) => stepped == Err::<Seq<FindingV>, MetaErrorV>(e@) && final(findings)@
                    == old(findings)@,
            }
        }),
{
    match outcome {
        Ok(m) => {
            let ghost before = findings_view(findings@);
            let mut found = classify(path, &m, cfg);
            let ghost add = findings_view(found@);
            findings.append(&mut found);
            proof {
                assert(findings_view(findings@) =~= before + add);
            }
            Ok(())
        },
        Err(e) => {
            if matches!(e, MetaError::StoreUnavailable) {
                Err(MetaError::StoreUnavailable)
            } else {
                let ghost old_f = findings_view(findings@);
                findings.push(
                    Finding {
                        path: String::from_str(path),
                        kind: FindingKind::Failure { error: e },
                    },
                );
                proof {
                    assert(findings_view(findings@) =~= old_f.push(
                        FindingV { path: path@, kind: FindingKindV::Failure { error: e@ } },
                    ));
                }
                Ok(())
            }
        },
    }
}

} // verus!

