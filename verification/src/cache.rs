//! Persistent metadata cache over SQLite: one row per file-name key,
//! replaced wholesale on every re-extraction. The store itself is reached
//! through trusted wrappers around rusqlite, whose contracts speak of the
//! store's contents as a map from key to row; everything around the calls —
//! key derivation, row encoding and decoding — is verified.
//!
//! The cache is keyed by the file's base name, not its full path: two files
//! with the same name in different subtrees collide — a known limitation,
//! kept deliberately.
use vstd::prelude::*;

use rusqlite::OptionalExtension;

verus! {

use vstd::string::StringExecFns;
use vstd::string::StrSliceExecFns;
use crate::text::{spec_lines, views_of, split_lines};
use crate::record::{
    Codec,
    MediaInfo,
    MediaInfoV,
    spec_codec_text,
    spec_codec_of_text,
    codec_storable,
    langs_view,
};
use crate::errors::{MetaError, MetaErrorV};

#[verifier::external_type_specification]
#[verifier::external_body]
pub struct ExConnection(rusqlite::Connection);

#[verifier::external_type_specification]
#[verifier::external_body]
pub struct ExSqlError(rusqlite::Error);

/// One persisted row, exactly as stored: plain numbers and text.
#[derive(Debug, Clone)]
pub struct CacheRow {
    pub duration: u64,
    pub size: u64,
    pub bitrate: u64,
    pub height: u64,
    pub width: u64,
    pub codec: String,
    pub last_checked: i64,
    pub mtime: i64,
    pub languages: String,
    pub whitelisted: bool,
}

/// Spec-level persisted row.
pub struct RowV {
    pub duration: u64,
    pub size: u64,
    pub bitrate: u64,
    pub height: u64,
    pub width: u64,
    pub codec: Seq<char>,
    pub last_checked: i64,
    pub mtime: i64,
    pub languages: Seq<char>,
    pub whitelisted: bool,
}

impl View for CacheRow {
    type V = RowV;

    open spec fn view(&self) -> RowV {
        RowV {
            duration: self.duration,
            size: self.size,
            bitrate: self.bitrate,
            height: self.height,
            width: self.width,
            codec: self.codec@,
            last_checked: self.last_checked,
            mtime: self.mtime,
            languages: self.languages@,
            whitelisted: self.whitelisted,
        }
    }
}

/// The rows of the `media` table behind an open connection, keyed by the
/// path key.
pub uninterp spec fn db_rows(c: rusqlite::Connection) -> Map<Seq<char>, RowV>;

/// Relies on rusqlite's `Connection::execute` running `CREATE TABLE IF NOT
/// EXISTS`, which creates the schema when absent and never changes rows.
#[verifier::external_body]
fn db_create_table(c: &rusqlite::Connection) -> (r: Result<(), rusqlite::Error>) {
    let res = c.execute(
        "CREATE TABLE IF NOT EXISTS media (path TEXT PRIMARY KEY, duration INTEGER NOT NULL, size INTEGER NOT NULL, bitrate INTEGER NOT NULL, height INTEGER NOT NULL, width INTEGER NOT NULL, codec TEXT NOT NULL, last_checked INTEGER NOT NULL, mtime INTEGER NOT NULL, languages TEXT NOT NULL, whitelisted INTEGER NOT NULL)",
        (),
    );
    match res {
        Ok(_) => Ok(()),
        Err(e) => Err(e),
    }
}

/// Relies on rusqlite's `Connection::query_one` with `optional`: selecting
/// by the primary key returns the row at that key, or none.
#[verifier::external_body]
fn db_get(c: &rusqlite::Connection, key: &str) -> (r: Result<Option<CacheRow>, rusqlite::Error>)
    ensures
        match r {
            Ok(Some(row)) => db_rows(*c).contains_key(key@) && row@ == db_rows(*c)[key@],
            Ok(None) => !db_rows(*c).contains_key(key@),
            Err(_) => true,
        },
{
    c.query_one(
        "SELECT duration, size, bitrate, height, width, codec, last_checked, mtime, languages, whitelisted FROM media WHERE path = ?1",
        (key,),
        |row| Ok(CacheRow {
            duration: row.get(0)?, size: row.get(1)?, bitrate: row.get(2)?,
            height: row.get(3)?, width: row.get(4)?, codec: row.get(5)?,
            last_checked: row.get(6)?, mtime: row.get(7)?, languages: row.get(8)?,
            whitelisted: row.get(9)?,
        }),
    ).optional()
}

/// Relies on rusqlite's `Connection::execute` running `INSERT OR REPLACE`
/// on the primary key: an atomic upsert of exactly this row; a failed
/// statement leaves the table unchanged.
#[verifier::external_body]
fn db_put(c: &mut rusqlite::Connection, key: &str, row: &CacheRow) -> (r: Result<
    (),
    rusqlite::Error,
>)
    ensures
        r is Ok ==> db_rows(*final(c)) == db_rows(*old(c)).insert(key@, row@),
        r is Err ==> db_rows(*final(c)) == db_rows(*old(c)),
{
    let res = c.execute(
        "INSERT OR REPLACE INTO media (path, duration, size, bitrate, height, width, codec, last_checked, mtime, languages, whitelisted) VALUES (?1, ?2, ?3, ?4, ?5, ?6, ?7, ?8, ?9, ?10, ?11)",
        (key, row.duration, row.size, row.bitrate, row.height, row.width, &row.codec,
            row.last_checked, row.mtime, &row.languages, row.whitelisted),
    );
    match res {
        Ok(_) => Ok(()),
        Err(e) => Err(e),
    }
}

/// The base name of a path: the suffix after its last `'/'`.
pub open spec fn spec_base_name(p: Seq<char>) -> Seq<char>
    decreases p.len(),
{
    if p.len() == 0 {
        Seq::<char>::empty()
    } else if p.last() == '/' {
        Seq::<char>::empty()
    } else {
        spec_base_name(p.drop_last()).push(p.last())
    }
}

/// The cache key of a path: its non-empty base name.
pub open spec fn spec_file_key(path: Seq<char>) -> Option<Seq<char>> {
    if spec_base_name(path).len() > 0 {
        Some(spec_base_name(path))
    } else {
        None
    }
}

proof fn lemma_base_name_suffix(p: Seq<char>, j: int)
    requires
        0 <= j <= p.len(),
        forall|k: int| j <= k < p.len() ==> p[k] != '/',
        j > 0 ==> p[j - 1] == '/',
    ensures
        spec_base_name(p) == p.skip(j),
    decreases p.len(),
{
    if j == p.len() {
        if p.len() > 0 {
            assert(p.last() == '/');
        }
        assert(p.skip(j) =~= Seq::<char>::empty());
    } else {
        assert(p.last() != '/');
        lemma_base_name_suffix(p.drop_last(), j);
        assert(p.drop_last().skip(j).push(p.last()) =~= p.skip(j));
    }
}

/// Derives the cache key of a path, as `spec_file_key` describes.
pub fn file_key(path: &str) -> (r: Option<String>)
    ensures
        match r {
            Some(k) => spec_file_key(path@) == Some(k@),
            None => spec_file_key(path@) is None,
        },
{
    let n: usize = path.unicode_len();
    let mut j: usize = n;
    while j > 0 && path.get_char(j - 1) != '/'
        invariant
            j <= n,
            n == path@.len(),
            forall|k: int| j <= k < n ==> path@[k] != '/',
        decreases j,
    {
        j -= 1;
    }
    proof {
        lemma_base_name_suffix(path@, j as int);
    }
    if j == n {
        None
    } else {
        let base = path.substring_char(j, n);
        proof {
            assert(base@ =~= path@.skip(j as int));
        }
        Some(String::from_str(base))
    }
}

/// Whether a language code can be stored: it contains no newline (codes
/// parsed from a report never do, each sits on one line).
pub open spec fn lang_ok(l: Seq<char>) -> bool {
    forall|i: int| 0 <= i < l.len() ==> l[i] != '\n'
}

/// Whether every language of a list can be stored.
pub open spec fn langs_ok(ls: Seq<Seq<char>>) -> bool {
    forall|i: int| 0 <= i < ls.len() ==> lang_ok(#[trigger] ls[i])
}

/// The stored text of a language list: each entry prefixed by a newline,
/// so that the empty list and a single empty entry stay distinct.
pub open spec fn spec_encode_langs(ls: Seq<Seq<char>>) -> Seq<char>
    decreases ls.len(),
{
    if ls.len() == 0 {
        Seq::<char>::empty()
    } else {
        spec_encode_langs(ls.drop_last()) + seq!['\n'] + ls.last()
    }
}

/// The language list a stored text denotes: its lines after the first.
pub open spec fn spec_decode_langs(s: Seq<char>) -> Seq<Seq<char>> {
    spec_lines(s).drop_first()
}

proof fn lemma_lines_append(s: Seq<char>, t: Seq<char>)
    requires
        forall|j: int| 0 <= j < t.len() ==> t[j] != '\n',
    ensures
        spec_lines(s + t) == spec_lines(s).update(
            spec_lines(s).len() - 1,
            spec_lines(s).last() + t,
        ),
    decreases t.len(),
{
    crate::text::lemma_lines_nonempty(s);
    if t.len() == 0 {
        assert(s + t =~= s);
        assert(spec_lines(s).last() + t =~= spec_lines(s).last());
        assert(spec_lines(s).update(spec_lines(s).len() - 1, spec_lines(s).last())
            =~= spec_lines(s));
    } else {
        lemma_lines_append(s, t.drop_last());
        assert((s + t).drop_last() =~= s + t.drop_last());
        assert((s + t).last() == t.last());
        assert(t.last() != '\n');
        let p = spec_lines(s + t.drop_last());
        assert(spec_lines(s + t) == p.update(p.len() - 1, p.last().push(t.last())));
        assert(p.last() == spec_lines(s).last() + t.drop_last());
        assert((spec_lines(s).last() + t.drop_last()).push(t.last()) =~= spec_lines(s).last() + t);
        assert(p.update(p.len() - 1, spec_lines(s).last() + t) =~= spec_lines(s).update(
            spec_lines(s).len() - 1,
            spec_lines(s).last() + t,
        ));
    }
}

/// Writing a language list to its stored text and reading it back yields
/// the list again, whenever no entry contains a newline.
pub proof fn lemma_langs_round_trip(ls: Seq<Seq<char>>)
    requires
        langs_ok(ls),
    ensures
        spec_lines(spec_encode_langs(ls)) == seq![Seq::<char>::empty()] + ls,
        spec_decode_langs(spec_encode_langs(ls)) == ls,
    decreases ls.len(),
{
    if ls.len() == 0 {
        assert(spec_encode_langs(ls) == Seq::<char>::empty());
        assert(spec_lines(Seq::<char>::empty()) =~= seq![Seq::<char>::empty()] + ls);
        assert(spec_decode_langs(spec_encode_langs(ls)) =~= ls);
    } else {
        assert(langs_ok(ls.drop_last()));
        lemma_langs_round_trip(ls.drop_last());
        let a = spec_encode_langs(ls.drop_last());
        let b = a + seq!['\n'];
        assert(b.drop_last() =~= a);
        assert(b.last() == '\n');
        assert(spec_lines(b) == spec_lines(a).push(Seq::<char>::empty()));
        lemma_lines_append(b, ls.last());
        let p = spec_lines(b);
        assert(spec_encode_langs(ls) =~= b + ls.last());
        assert(p.last() =~= Seq::<char>::empty());
        assert(p.last() + ls.last() =~= ls.last());
        assert(spec_lines(spec_encode_langs(ls)) == p.update(p.len() - 1, ls.last()));
        assert(p.update(p.len() - 1, ls.last()) =~= seq![Seq::<char>::empty()] + ls);
        assert(spec_decode_langs(spec_encode_langs(ls)) =~= ls);
    }
}

/// Encodes a language list for storage, as `spec_encode_langs` describes.
pub fn encode_langs(ls: &Vec<String>) -> (r: String)
    ensures
        r@ == spec_encode_langs(langs_view(ls@)),
{
    let ghost lv = langs_view(ls@);
    let mut out = String::new();
    let mut i: usize = 0;
    proof {
        assert(lv.take(0) =~= Seq::<Seq<char>>::empty());
    }
    while i < ls.len()
        invariant
            i <= ls.len(),
            lv == langs_view(ls@),
            out@ == spec_encode_langs(lv.take(i as int)),
        decreases ls.len() - i,
    {
        proof {
            assert(lv.take(i + 1).drop_last() =~= lv.take(i as int));
            assert(lv.take(i + 1).last() == lv[i as int]);
            reveal_strlit("\n");
            assert("\n"@ =~= seq!['\n']);
        }
        out.append("\n");
        out.append(ls[i].as_str());
        i += 1;
    }
    proof {
        assert(lv.take(i as int) =~= lv);
    }
    out
}

/// Decodes a stored language list, as `spec_decode_langs` describes.
pub fn decode_langs(s: &str) -> (r: Vec<String>)
    ensures
        langs_view(r@) == spec_decode_langs(s@),
{
    let lines = split_lines(s);
    let ghost lseq = views_of(lines@);
    let mut out: Vec<String> = Vec::new();
    let mut i: usize = 1;
    proof {
        crate::text::lemma_lines_nonempty(s@);
        assert(langs_view(out@) =~= lseq.subrange(1, 1));
    }
    while i < lines.len()
        invariant
            1 <= i <= lines.len() || (lines.len() == 0 && i == 1),
            lseq == views_of(lines@),
            lseq == spec_lines(s@),
            lseq.len() >= 1,
            langs_view(out@) == lseq.subrange(1, i as int),
        decreases lines.len() - i,
    {
        let ghost old_langs = langs_view(out@);
        out.push(String::from_str(lines[i]));
        proof {
            assert(langs_view(out@) =~= old_langs.push(lseq[i as int]));
            assert(lseq.subrange(1, i + 1) =~= lseq.subrange(1, i as int).push(lseq[i as int]));
        }
        i += 1;
    }
    proof {
        assert(lseq.subrange(1, lseq.len() as int) =~= lseq.drop_first());
    }
    out
}

/// The stored row of a record.
pub open spec fn spec_row_of(m: MediaInfoV) -> RowV {
    RowV {
        duration: m.duration,
        size: m.size,
        bitrate: m.bitrate,
        height: m.height,
        width: m.width,
        codec: spec_codec_text(m.codec),
        last_checked: m.last_checked,
        mtime: m.mtime,
        languages: spec_encode_langs(m.languages),
        whitelisted: m.whitelisted,
    }
}

/// The record a stored row denotes.
pub open spec fn spec_record_of(r: RowV) -> MediaInfoV {
    MediaInfoV {
        duration: r.duration,
        size: r.size,
        bitrate: r.bitrate,
        height: r.height,
        width: r.width,
        codec: spec_codec_of_text(r.codec),
        last_checked: r.last_checked,
        mtime: r.mtime,
        languages: spec_decode_langs(r.languages),
        whitelisted: r.whitelisted,
    }
}

/// A record the store holds exactly: no language contains a newline and the
/// codec's text does not collide with a canonical name.
pub open spec fn record_storable(m: MediaInfoV) -> bool {
    codec_storable(m.codec) && langs_ok(m.languages)
}

/// Writing a record as a row and reading it back yields the record again,
/// for every storable record.
pub proof fn lemma_record_row_round_trip(m: MediaInfoV)
    requires
        record_storable(m),
    ensures
        spec_record_of(spec_row_of(m)) == m,
{
    crate::record::lemma_codec_text_round_trip(m.codec);
    lemma_langs_round_trip(m.languages);
}

/// Builds the stored row of a record, as `spec_row_of` describes.
pub fn row_of_record(m: &MediaInfo) -> (r: CacheRow)
    ensures
        r@ == spec_row_of(m@),
{
    CacheRow {
        duration: m.duration,
        size: m.size,
        bitrate: m.bitrate,
        height: m.height,
        width: m.width,
        codec: m.codec.name(),
        last_checked: m.last_checked,
        mtime: m.mtime,
        languages: encode_langs(&m.languages),
        whitelisted: m.whitelisted,
    }
}

/// Reads a record back from its stored row, as `spec_record_of` describes.
pub fn record_of_row(r: CacheRow) -> (m: MediaInfo)
    ensures
        m@ == spec_record_of(r@),
{
    let codec = Codec::of_text(r.codec.as_str());
    let languages = decode_langs(r.languages.as_str());
    MediaInfo {
        duration: r.duration,
        size: r.size,
        bitrate: r.bitrate,
        height: r.height,
        width: r.width,
        codec,
        last_checked: r.last_checked,
        mtime: r.mtime,
        languages,
        whitelisted: r.whitelisted,
    }
}

/// Idempotently ensures the backing schema exists; safe to call on every
/// process start. Fails only with `StoreUnavailable`.
pub fn init_cachedb(cachedb: &rusqlite::Connection) -> (r: Result<(), MetaError>)
    ensures
        r matches Err(e) ==> e@ == MetaErrorV::StoreUnavailable,
{
    match db_create_table(cachedb) {
        Ok(_) => Ok(()),
        Err(_) => Err(MetaError::StoreUnavailable),
    }
}

/// Looks a path's record up by its file-name key. Absence is a normal
/// `Ok(None)`, never an error; `StoreUnavailable` only on storage faults.
pub fn get_from_cachedb(p: &str, cachedb: &rusqlite::Connection) -> (r: Result<
    Option<MediaInfo>,
    MetaError,
>)
    ensures
        spec_file_key(p@) is None ==> (r matches Err(e) && e@ == (MetaErrorV::FileIdentityError {
            path: p@,
        })),
        spec_file_key(p@) matches Some(k) ==> match r {
            Ok(Some(m)) => db_rows(*cachedb).contains_key(k) && m@ == spec_record_of(
                db_rows(*cachedb)[k],
            ),
            Ok(None) => !db_rows(*cachedb).contains_key(k),
            Err(e) => e@ == MetaErrorV::StoreUnavailable,
        },
{
    let key = match file_key(p) {
        Some(k) => k,
        None => {
            return Err(MetaError::FileIdentityError { path: String::from_str(p) });
        },
    };
    match db_get(cachedb, key.as_str()) {
        Ok(Some(row)) => Ok(Some(record_of_row(row))),
        Ok(None) => Ok(None),
        Err(_) => Err(MetaError::StoreUnavailable),
    }
}

/// Upserts a path's record under its file-name key: inserts when absent,
/// replaces wholesale when present. On `Ok` the store holds exactly the
/// record's row at the key; a failed write leaves the store unchanged.
pub fn store_to_cachedb(p: &str, media_info: &MediaInfo, cachedb: &mut rusqlite::Connection) -> (r:
    Result<(), MetaError>)
    ensures
        spec_file_key(p@) is None ==> (r matches Err(e) && e@ == (MetaErrorV::FileIdentityError {
            path: p@,
        }) && db_rows(*final(cachedb)) == db_rows(*old(cachedb))),
        spec_file_key(p@) matches Some(k) ==> match r {
            Ok(_) => db_rows(*final(cachedb)) == db_rows(*old(cachedb)).insert(
                k,
                spec_row_of(media_info@),
            ),
            Err(e) => e@ == MetaErrorV::StoreUnavailable && db_rows(*final(cachedb)) == db_rows(
                *old(cachedb),
            ),
        },
{
    let key = match file_key(p) {
        Some(k) => k,
        None => {
            return Err(MetaError::FileIdentityError { path: String::from_str(p) });
        },
    };
    let row = row_of_record(media_info);
    match db_put(cachedb, key.as_str(), &row) {
        Ok(_) => Ok(()),
        Err(_) => Err(MetaError::StoreUnavailable),
    }
}

/// Storing the same row at the same key twice leaves the store exactly as
/// one store does: the upsert is idempotent.
pub proof fn lemma_put_idempotent(rows: Map<Seq<char>, RowV>, k: Seq<char>, r: RowV)
    ensures
        rows.insert(k, r).insert(k, r) == rows.insert(k, r),
{
    assert(rows.insert(k, r).insert(k, r) =~= rows.insert(k, r));
}

} // verus!
