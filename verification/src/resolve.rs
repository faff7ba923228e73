//! Metadata resolver for a single file: consult the cache, decide staleness
//! by modification-time equality, and — once the caller has run the
//! extraction tool on a miss — parse the output, stamp the record and write
//! it back before returning it.
//!
//! Running the tool itself is the caller's outside work: `get_mediainfo`
//! answers from the cache or asks for an extraction, and
//! `resolve_with_output` finishes the resolution from whatever the tool
//! produced.
use vstd::prelude::*;

verus! {

use vstd::string::StringExecFns;
use vstd::utf8::{valid_utf8, decode_utf8};
use crate::cache::{
    db_rows,
    spec_file_key,
    spec_record_of,
    spec_row_of,
    record_storable,
    RowV,
    get_from_cachedb,
    store_to_cachedb,
};
use crate::record::{MediaInfo, MediaInfoV, ParsedMedia, ParsedMediaV};
use crate::errors::{MetaError, MetaErrorV};
use crate::parse::{parse_report, spec_parse_report};

/// What one run of the extraction tool produced: whether it exited
/// successfully, its exit status code if any, its raw standard output, and
/// its captured diagnostic (standard error) text.
pub struct ToolOutput {
    pub success: bool,
    pub status: Option<i32>,
    pub stdout: Vec<u8>,
    pub diagnostic: String,
}

/// Relies on `String::from_utf8`: succeeds exactly on valid UTF-8, whose
/// decoding it returns.
#[verifier::external_body]
fn bytes_to_string(b: Vec<u8>) -> (r: Option<String>)
    ensures
        r is Some <==> valid_utf8(b@),
        r matches Some(s) ==> s@ == decode_utf8(b@),
{
    match String::from_utf8(b) {
        Ok(s) => Some(s),
        Err(_) => None,
    }
}

/// Relies on the time crate's `OffsetDateTime::now_utc` with
/// `unix_timestamp`: the clock now, in seconds since the epoch.
#[verifier::external_body]
fn current_unix_time() -> i64 {
    time::OffsetDateTime::now_utc().unix_timestamp()
}

/// The row a cache consult yields: the one at the key, when its staleness
/// fingerprint equals the file's current modification time — the sole
/// staleness criterion; nothing when absent or stale.
pub open spec fn spec_cache_hit(rows: Map<Seq<char>, RowV>, k: Seq<char>, mtime: i64) -> Option<
    RowV,
> {
    if rows.contains_key(k) && rows[k].mtime == mtime {
        Some(rows[k])
    } else {
        None
    }
}

/// Consults the cache for `p`: `Ok(Some(..))` is a pure hit returning the
/// cached record unchanged; `Ok(None)` means absent or stale, asking the
/// caller to run the extraction tool and finish with `resolve_with_output`.
pub fn get_mediainfo(p: &str, mtime: i64, cachedb: &rusqlite::Connection) -> (r: Result<
    Option<MediaInfo>,
    MetaError,
>)
    ensures
        spec_file_key(p@) is None ==> (r matches Err(e) && e@ == (MetaErrorV::FileIdentityError {
            path: p@,
        })),
        spec_file_key(p@) matches Some(k) ==> match r {
            Ok(Some(m)) => spec_cache_hit(db_rows(*cachedb), k, mtime) matches Some(row) && m@
                == spec_record_of(row),
            Ok(None) => spec_cache_hit(db_rows(*cachedb), k, mtime) is None,
            Err(e) => e@ == MetaErrorV::StoreUnavailable,
        },
{
    match get_from_cachedb(p, cachedb)? {
        Some(m) => {
            if m.mtime == mtime {
                Ok(Some(m))
            } else {
                Ok(None)
            }
        },
        None => Ok(None),
    }
}

/// The record a successful resolution returns: the parsed fields, stamped
/// with `now` as the extraction time and `mtime` as the staleness
/// fingerprint; never whitelisted at birth.
pub open spec fn spec_resolved(p: ParsedMediaV, mtime: i64, now: i64) -> MediaInfoV {
    MediaInfoV {
        duration: p.duration,
        size: p.size,
        bitrate: p.bitrate,
        height: p.height,
        width: p.width,
        codec: p.codec,
        last_checked: now,
        mtime: mtime,
        languages: p.languages,
        whitelisted: false,
    }
}

fn stamp(p: ParsedMedia, mtime: i64, now: i64) -> (m: MediaInfo)
    ensures
        m@ == spec_resolved(p@, mtime, now),
{
    MediaInfo {
        duration: p.duration,
        size: p.size,
        bitrate: p.bitrate,
        height: p.height,
        width: p.width,
        codec: p.codec,
        last_checked: now,
        mtime: mtime,
        languages: p.languages,
        whitelisted: false,
    }
}

/// Finishes a resolution from the extraction tool's output, with `now` as
/// the extraction timestamp: fails with `ExtractionFailed` when the tool
/// exited non-zero, `EncodingError` when its output is not UTF-8, the
/// parser's error when the report is unusable; otherwise stamps the parsed
/// record, writes it through to the cache, and returns it. Every failure
/// leaves the store unchanged.
pub fn resolve_with_output_at(
    p: &str,
    mtime: i64,
    now: i64,
    out: ToolOutput,
    cachedb: &mut rusqlite::Connection,
) -> (r: Result<MediaInfo, MetaError>)
    ensures
        !out.success ==> (r matches Err(e) && e@ == (MetaErrorV::ExtractionFailed {
            status: out.status,
            diagnostic: out.diagnostic@,
        }) && db_rows(*final(cachedb)) == db_rows(*old(cachedb))),
        out.success && !valid_utf8(out.stdout@) ==> (r matches Err(e) && e@
            == (MetaErrorV::EncodingError { path: p@ }) && db_rows(*final(cachedb)) == db_rows(
            *old(cachedb),
        )),
        out.success && valid_utf8(out.stdout@) ==> (spec_parse_report(
            decode_utf8(out.stdout@),
            p@,
        ) matches Err(pe) ==> (r matches Err(e) && e@ == pe && db_rows(*final(cachedb)) == db_rows(
            *old(cachedb),
        ))),
        out.success && valid_utf8(out.stdout@) ==> (spec_parse_report(
            decode_utf8(out.stdout@),
            p@,
        ) matches Ok(pm) ==> {
            &&& spec_file_key(p@) is None ==> (r matches Err(e) && e@
                == (MetaErrorV::FileIdentityError { path: p@ }) && db_rows(*final(cachedb))
                == db_rows(*old(cachedb)))
            &&& spec_file_key(p@) matches Some(k) ==> match r {
                Ok(m) => m@ == spec_resolved(pm, mtime, now) && db_rows(*final(cachedb)) == db_rows(
                    *old(cachedb),
                ).insert(k, spec_row_of(m@)),
                Err(e) => e@ == MetaErrorV::StoreUnavailable && db_rows(*final(cachedb)) == db_rows(
                    *old(cachedb),
                ),
            }
        }),
{
    if !out.success {
        return Err(
            MetaError::ExtractionFailed { status: out.status, diagnostic: out.diagnostic },
        );
    }
    let text = match bytes_to_string(out.stdout) {
        Some(t) => t,
        None => {
            return Err(MetaError::EncodingError { path: String::from_str(p) });
        },
    };
    let parsed = parse_report(text.as_str(), p)?;
    let info = stamp(parsed, mtime, now);
    store_to_cachedb(p, &info, cachedb)?;
    Ok(info)
}

/// Finishes a resolution from the extraction tool's output, stamping the
/// record with the clock now; otherwise exactly `resolve_with_output_at`,
/// whose contract this one repeats with the extraction timestamp left
/// open.
pub fn resolve_with_output(
    p: &str,
    mtime: i64,
    out: ToolOutput,
    cachedb: &mut rusqlite::Connection,
) -> (r: Result<MediaInfo, MetaError>)
    ensures
        !out.success ==> (r matches Err(e) && e@ == (MetaErrorV::ExtractionFailed {
            status: out.status,
            diagnostic: out.diagnostic@,
        }) && db_rows(*final(cachedb)) == db_rows(*old(cachedb))),
        out.success && !valid_utf8(out.stdout@) ==> (r matches Err(e) && e@
            == (MetaErrorV::EncodingError { path: p@ }) && db_rows(*final(cachedb)) == db_rows(
            *old(cachedb),
        )),
        out.success && valid_utf8(out.stdout@) ==> (spec_parse_report(
            decode_utf8(out.stdout@),
            p@,
        ) matches Err(pe) ==> (r matches Err(e) && e@ == pe && db_rows(*final(cachedb)) == db_rows(
            *old(cachedb),
        ))),
        out.success && valid_utf8(out.stdout@) ==> (spec_parse_report(
            decode_utf8(out.stdout@),
            p@,
        ) matches Ok(pm) ==> {
            &&& spec_file_key(p@) is None ==> (r matches Err(e) && e@
                == (MetaErrorV::FileIdentityError { path: p@ }) && db_rows(*final(cachedb))
                == db_rows(*old(cachedb)))
            &&& spec_file_key(p@) matches Some(k) ==> match r {
                Ok(m) => m@ == spec_resolved(pm, mtime, m@.last_checked) && db_rows(*final(cachedb))
                    == db_rows(*old(cachedb)).insert(k, spec_row_of(m@)),
                Err(e) => e@ == MetaErrorV::StoreUnavailable && db_rows(*final(cachedb)) == db_rows(
                    *old(cachedb),
                ),
            }
        }),
{
    let now = current_unix_time();
    resolve_with_output_at(p, mtime, now, out, cachedb)
}

/// Staleness correctness: once a resolution has written the row of a
/// storable record `m`, a consult with the same fingerprint `m.mtime` is a
/// pure hit yielding exactly `m` back, and a consult with any other
/// fingerprint misses, forcing re-extraction.
pub proof fn lemma_staleness(rows: Map<Seq<char>, RowV>, k: Seq<char>, m: MediaInfoV, t2: i64)
    requires
        record_storable(m),
    ensures
        spec_cache_hit(rows.insert(k, spec_row_of(m)), k, m.mtime) == Some(spec_row_of(m)),
        spec_record_of(spec_row_of(m)) == m,
        t2 != m.mtime ==> spec_cache_hit(rows.insert(k, spec_row_of(m)), k, t2) is None,
{
    crate::cache::lemma_record_row_round_trip(m);
}

} // verus!
