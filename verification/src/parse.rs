//! Report parser: turns the extraction tool's structured-text output — named
//! sections of `Key: Value` lines separated by blank lines — into a typed
//! metadata record, or fails with a descriptive error.
//!
//! Grammar: the payload is split into lines on `'\n'`; each maximal run of
//! non-blank lines is a section; the run's first line, trimmed and with one
//! trailing `':'` stripped, names it; each further line is split at its first
//! `':'` into a key and a value, both trimmed (a line without a colon counts
//! as an empty pair, never used by lookups). Field lookup takes the first
//! section with a matching name and the last pair with a matching key.
use vstd::prelude::*;

verus! {

use vstd::string::StringExecFns;
use vstd::string::StrSliceExecFns;
use crate::text::{
    spec_lines,
    spec_trim,
    split_first,
    spec_parse_u64,
    all_digits,
    has_sub,
    views_of,
    split_lines,
    trim_str,
    split_first_str,
    parse_u64,
    contains_str,
    str_eq,
};
use crate::record::{Codec, ParsedMedia, ParsedMediaV, spec_codec_from, langs_view};
use crate::errors::{MetaError, MetaErrorV};

/// One parsed section: its name and its key-value pairs in order.
pub struct Section {
    pub name: String,
    pub pairs: Vec<(String, String)>,
}

/// Spec-level section.
pub struct SectionV {
    pub name: Seq<char>,
    pub pairs: Seq<(Seq<char>, Seq<char>)>,
}

impl View for Section {
    type V = SectionV;

    open spec fn view(&self) -> SectionV {
        SectionV {
            name: self.name@,
            pairs: self.pairs@.map_values(|p: (String, String)| (p.0@, p.1@)),
        }
    }
}

/// The views of a vector of sections.
pub open spec fn sections_view(v: Seq<Section>) -> Seq<SectionV> {
    v.map_values(|s: Section| s@)
}

/// A section's name: its header line trimmed, with one trailing `':'`
/// stripped and the rest trimmed again.
pub open spec fn spec_header_name(line: Seq<char>) -> Seq<char> {
    let t = spec_trim(line);
    if t.len() > 0 && t.last() == ':' {
        spec_trim(t.drop_last())
    } else {
        t
    }
}

/// The key-value pair a line denotes: the parts around its first `':'`,
/// both trimmed; a line without a colon is the empty pair.
pub open spec fn spec_pair(line: Seq<char>) -> (Seq<char>, Seq<char>) {
    match split_first(line, ':') {
        Some(p) => (spec_trim(p.0), spec_trim(p.1)),
        None => (Seq::<char>::empty(), Seq::<char>::empty()),
    }
}

/// Folds the lines into sections. The boolean says whether a section is
/// open: a blank line closes it, a non-blank line opens a new section when
/// none is open and otherwise adds its pair to the open one.
pub open spec fn spec_scan(lines: Seq<Seq<char>>) -> (Seq<SectionV>, bool)
    decreases lines.len(),
{
    if lines.len() == 0 {
        (Seq::<SectionV>::empty(), false)
    } else {
        let pr = spec_scan(lines.drop_last());
        let acc = pr.0;
        let l = lines.last();
        if l.len() == 0 {
            (acc, false)
        } else if !pr.1 {
            (acc.push(SectionV { name: spec_header_name(l), pairs: Seq::empty() }), true)
        } else {
            (
                acc.update(
                    acc.len() - 1,
                    SectionV {
                        name: acc.last().name,
                        pairs: acc.last().pairs.push(spec_pair(l)),
                    },
                ),
                true,
            )
        }
    }
}

/// The sections of a whole payload.
pub open spec fn spec_sections(s: Seq<char>) -> Seq<SectionV> {
    spec_scan(spec_lines(s)).0
}

fn header_name(line: &str) -> (r: String)
    ensures
        r@ == spec_header_name(line@),
{
    let t = trim_str(line);
    let n: usize = t.unicode_len();
    if n > 0 && t.get_char(n - 1) == ':' {
        let cut = t.substring_char(0, n - 1);
        proof {
            assert(cut@ =~= t@.drop_last());
        }
        String::from_str(trim_str(cut))
    } else {
        String::from_str(t)
    }
}

fn pair_of_line(line: &str) -> (r: (String, String))
    ensures
        (r.0@, r.1@) == spec_pair(line@),
{
    match split_first_str(line, ':') {
        Some(p) => (String::from_str(trim_str(p.0)), String::from_str(trim_str(p.1))),
        None => (String::new(), String::new()),
    }
}

/// Splits the payload into sections, as `spec_sections` describes.
pub fn parse_sections(text: &str) -> (r: Vec<Section>)
    ensures
        sections_view(r@) == spec_sections(text@),
{
    let lines = split_lines(text);
    let ghost lseq = views_of(lines@);
    let mut out: Vec<Section> = Vec::new();
    let mut open_sec: bool = false;
    let mut i: usize = 0;
    proof {
        assert(lseq.take(0) =~= Seq::<Seq<char>>::empty());
        assert(sections_view(out@) =~= Seq::<SectionV>::empty());
    }
    while i < lines.len()
        invariant
            i <= lines.len(),
            lseq == views_of(lines@),
            lseq == spec_lines(text@),
            (sections_view(out@), open_sec) == spec_scan(lseq.take(i as int)),
            open_sec ==> out.len() >= 1,
        decreases lines.len() - i,
    {
        let l: &str = lines[i];
        proof {
            assert(lseq.take(i + 1).drop_last() =~= lseq.take(i as int));
            assert(lseq.take(i + 1).last() == lseq[i as int]);
            assert(lseq[i as int] == l@);
        }
        if l.is_empty() {
            open_sec = false;
        } else if !open_sec {
            let name = header_name(l);
            let ghost old_secs = sections_view(out@);
            out.push(Section { name, pairs: Vec::new() });
            open_sec = true;
            proof {
                assert(out@.last()@.pairs =~= Seq::<(Seq<char>, Seq<char>)>::empty());
                assert(out@.last()@ == SectionV {
                    name: spec_header_name(l@),
                    pairs: Seq::<(Seq<char>, Seq<char>)>::empty(),
                });
                assert(sections_view(out@) =~= old_secs.push(out@.last()@));
            }
        } else {
            let pair = pair_of_line(l);
            let ghost old_secs = sections_view(out@);
            let mut sec = out.pop().unwrap();
            let ghost old_sec = sec@;
            sec.pairs.push(pair);
            proof {
                assert(sec@.pairs =~= old_sec.pairs.push(spec_pair(l@)));
                assert(sec@.name == old_sec.name);
            }
            out.push(sec);
            proof {
                assert(old_secs.last() == old_sec);
                assert(sections_view(out@) =~= old_secs.update(old_secs.len() - 1, sec@));
            }
        }
        i += 1;
    }
    proof {
        assert(lseq.take(i as int) =~= lseq);
    }
    out
}

/// The first section with the given name.
pub open spec fn spec_find_section(secs: Seq<SectionV>, name: Seq<char>) -> Option<SectionV>
    decreases secs.len(),
{
    if secs.len() == 0 {
        None
    } else if secs.first().name == name {
        Some(secs.first())
    } else {
        spec_find_section(secs.drop_first(), name)
    }
}

proof fn lemma_find_section_at(secs: Seq<SectionV>, name: Seq<char>, i: int)
    requires
        0 <= i < secs.len(),
        secs[i].name == name,
        forall|j: int| 0 <= j < i ==> secs[j].name != name,
    ensures
        spec_find_section(secs, name) == Some(secs[i]),
    decreases i,
{
    if i > 0 {
        lemma_find_section_at(secs.drop_first(), name, i - 1);
    }
}

proof fn lemma_find_section_none(secs: Seq<SectionV>, name: Seq<char>)
    requires
        forall|j: int| 0 <= j < secs.len() ==> secs[j].name != name,
    ensures
        spec_find_section(secs, name) is None,
    decreases secs.len(),
{
    if secs.len() > 0 {
        lemma_find_section_none(secs.drop_first(), name);
    }
}

/// The last value with the given key, if any.
pub open spec fn spec_lookup_pairs(pairs: Seq<(Seq<char>, Seq<char>)>, key: Seq<char>) -> Option<
    Seq<char>,
>
    decreases pairs.len(),
{
    if pairs.len() == 0 {
        None
    } else if pairs.last().0 == key {
        Some(pairs.last().1)
    } else {
        spec_lookup_pairs(pairs.drop_last(), key)
    }
}

/// The value at `(section, key)`: the last matching pair of the first
/// matching section.
pub open spec fn spec_getkey(secs: Seq<SectionV>, section: Seq<char>, key: Seq<char>) -> Option<
    Seq<char>,
> {
    match spec_find_section(secs, section) {
        None => None,
        Some(s) => spec_lookup_pairs(s.pairs, key),
    }
}

fn find_section(secs: &Vec<Section>, name: &str) -> (r: Option<usize>)
    ensures
        match r {
            Some(ix) => ix < secs.len() && spec_find_section(sections_view(secs@), name@) == Some(
                secs@[ix as int]@,
            ),
            None => spec_find_section(sections_view(secs@), name@) is None,
        },
{
    let mut i: usize = 0;
    while i < secs.len()
        invariant
            i <= secs.len(),
            forall|j: int| 0 <= j < i ==> sections_view(secs@)[j].name != name@,
        decreases secs.len() - i,
    {
        if str_eq(secs[i].name.as_str(), name) {
            proof {
                lemma_find_section_at(sections_view(secs@), name@, i as int);
            }
            return Some(i);
        }
        i += 1;
    }
    proof {
        lemma_find_section_none(sections_view(secs@), name@);
    }
    None
}

fn lookup_pairs(pairs: &Vec<(String, String)>, key: &str) -> (r: Option<String>)
    ensures
        ({
            let ps = pairs@.map_values(|p: (String, String)| (p.0@, p.1@));
            match r {
                Some(v) => spec_lookup_pairs(ps, key@) == Some(v@),
                None => spec_lookup_pairs(ps, key@) is None,
            }
        }),
{
    let ghost ps = pairs@.map_values(|p: (String, String)| (p.0@, p.1@));
    let mut found: Option<String> = None;
    let mut i: usize = 0;
    proof {
        assert(ps.take(0) =~= Seq::<(Seq<char>, Seq<char>)>::empty());
    }
    while i < pairs.len()
        invariant
            i <= pairs.len(),
            ps == pairs@.map_values(|p: (String, String)| (p.0@, p.1@)),
            match found {
                Some(v) => spec_lookup_pairs(ps.take(i as int), key@) == Some(v@),
                None => spec_lookup_pairs(ps.take(i as int), key@) is None,
            },
        decreases pairs.len() - i,
    {
        proof {
            assert(ps.take(i + 1).drop_last() =~= ps.take(i as int));
            assert(ps.take(i + 1).last() == ps[i as int]);
        }
        if str_eq(pairs[i].0.as_str(), key) {
            found = Some(pairs[i].1.clone());
        }
        i += 1;
    }
    proof {
        assert(ps.take(i as int) =~= ps);
    }
    found
}

/// Looks a `(section, key)` pair up, failing with `MissingField` when it is
/// absent.
pub fn getkey(secs: &Vec<Section>, section: &str, key: &str, path: &str) -> (r: Result<
    String,
    MetaError,
>)
    ensures
        match r {
            Ok(v) => spec_getkey(sections_view(secs@), section@, key@) == Some(v@),
            Err(e) => spec_getkey(sections_view(secs@), section@, key@) is None && e@
                == (MetaErrorV::MissingField { section: section@, key: key@, path: path@ }),
        },
{
    match find_section(secs, section) {
        None => Err(
            MetaError::MissingField {
                section: String::from_str(section),
                key: String::from_str(key),
                path: String::from_str(path),
            },
        ),
        Some(ix) => match lookup_pairs(&secs[ix].pairs, key) {
            Some(v) => Ok(v),
            None => Err(
                MetaError::MissingField {
                    section: String::from_str(section),
                    key: String::from_str(key),
                    path: String::from_str(path),
                },
            ),
        },
    }
}

/// The duration value in milliseconds: a decimal digit string with an
/// optional all-digit fraction after a `'.'`, truncated to whole
/// milliseconds.
pub open spec fn spec_parse_ms(s: Seq<char>) -> Option<u64> {
    match split_first(s, '.') {
        None => spec_parse_u64(s),
        Some(p) => if all_digits(p.1) {
            spec_parse_u64(p.0)
        } else {
            None
        },
    }
}

fn digits_only(s: &str) -> (r: bool)
    ensures
        r == all_digits(s@),
{
    let n: usize = s.unicode_len();
    let mut i: usize = 0;
    while i < n
        invariant
            i <= n,
            n == s@.len(),
            forall|j: int| 0 <= j < i ==> crate::text::is_digit(s@[j]),
        decreases n - i,
    {
        let u: u32 = s.get_char(i) as u32;
        if u < 48 || u > 57 {
            return false;
        }
        i += 1;
    }
    true
}

/// Parses a duration value, as `spec_parse_ms` describes.
pub fn parse_ms(s: &str) -> (r: Option<u64>)
    ensures
        r == spec_parse_ms(s@),
{
    match split_first_str(s, '.') {
        None => parse_u64(s),
        Some(p) => if digits_only(p.1) {
            parse_u64(p.0)
        } else {
            None
        },
    }
}

/// The language of one audio section: its `Language` value, or empty when
/// the key is absent.
pub open spec fn spec_lang_of(sec: SectionV) -> Seq<char> {
    match spec_lookup_pairs(sec.pairs, "Language"@) {
        Some(v) => v,
        None => Seq::<char>::empty(),
    }
}

/// The audio languages of the report: one value for each section whose name
/// contains `Audio`, in order.
pub open spec fn spec_langs(secs: Seq<SectionV>) -> Seq<Seq<char>>
    decreases secs.len(),
{
    if secs.len() == 0 {
        Seq::<Seq<char>>::empty()
    } else {
        spec_langs(secs.drop_last()) + (if has_sub(secs.last().name, "Audio"@) {
            seq![spec_lang_of(secs.last())]
        } else {
            Seq::<Seq<char>>::empty()
        })
    }
}

/// Collects the audio languages, as `spec_langs` describes.
pub fn collect_langs(secs: &Vec<Section>) -> (r: Vec<String>)
    ensures
        langs_view(r@) == spec_langs(sections_view(secs@)),
{
    let ghost sv = sections_view(secs@);
    let mut out: Vec<String> = Vec::new();
    let mut i: usize = 0;
    proof {
        assert(sv.take(0) =~= Seq::<SectionV>::empty());
        assert(langs_view(out@) =~= Seq::<Seq<char>>::empty());
    }
    while i < secs.len()
        invariant
            i <= secs.len(),
            sv == sections_view(secs@),
            langs_view(out@) == spec_langs(sv.take(i as int)),
        decreases secs.len() - i,
    {
        proof {
            assert(sv.take(i + 1).drop_last() =~= sv.take(i as int));
            assert(sv.take(i + 1).last() == sv[i as int]);
        }
        let ghost old_langs = langs_view(out@);
        if contains_str(secs[i].name.as_str(), "Audio") {
            match lookup_pairs(&secs[i].pairs, "Language") {
                Some(v) => {
                    out.push(v);
                },
                None => {
                    out.push(String::new());
                },
            }
            proof {
                assert(langs_view(out@) =~= old_langs + seq![spec_lang_of(sv[i as int])]);
            }
        } else {
            proof {
                assert(langs_view(out@) =~= old_langs + Seq::<Seq<char>>::empty());
            }
        }
        i += 1;
    }
    proof {
        assert(sv.take(i as int) =~= sv);
    }
    out
}

/// The whole report, parsed: the required numeric fields of `General` and
/// `Video`, the classified codec, and the audio languages; or the first
/// error, fields checked in the order duration, size, bitrate, height,
/// width, codec.
pub open spec fn spec_parse_report(text: Seq<char>, path: Seq<char>) -> Result<
    ParsedMediaV,
    MetaErrorV,
> {
    let secs = spec_sections(text);
    let dur = spec_field_ms(secs, "General"@, "Duration"@, path);
    let size = spec_field_u64(secs, "General"@, "FileSize"@, path);
    let bitrate = spec_field_u64(secs, "General"@, "OverallBitRate"@, path);
    let height = spec_field_u64(secs, "Video"@, "Height"@, path);
    let width = spec_field_u64(secs, "Video"@, "Width"@, path);
    let fmt = spec_getkey(secs, "Video"@, "Format"@);
    if dur is Err {
        Err(dur->Err_0)
    } else if size is Err {
        Err(size->Err_0)
    } else if bitrate is Err {
        Err(bitrate->Err_0)
    } else if height is Err {
        Err(height->Err_0)
    } else if width is Err {
        Err(width->Err_0)
    } else if fmt is None {
        Err(MetaErrorV::MissingField { section: "Video"@, key: "Format"@, path })
    } else {
        Ok(
            ParsedMediaV {
                duration: dur->Ok_0,
                size: size->Ok_0,
                bitrate: bitrate->Ok_0,
                height: height->Ok_0,
                width: width->Ok_0,
                codec: spec_codec_from(fmt->0),
                languages: spec_langs(secs),
            },
        )
    }
}

/// A required `u64` field: `MissingField` when absent, `MalformedField`
/// when present but not a number.
pub open spec fn spec_field_u64(
    secs: Seq<SectionV>,
    section: Seq<char>,
    key: Seq<char>,
    path: Seq<char>,
) -> Result<u64, MetaErrorV> {
    match spec_getkey(secs, section, key) {
        None => Err(MetaErrorV::MissingField { section, key, path }),
        Some(v) => match spec_parse_u64(v) {
            None => Err(MetaErrorV::MalformedField { section, key, path }),
            Some(n) => Ok(n),
        },
    }
}

/// The required duration field, in milliseconds.
pub open spec fn spec_field_ms(
    secs: Seq<SectionV>,
    section: Seq<char>,
    key: Seq<char>,
    path: Seq<char>,
) -> Result<u64, MetaErrorV> {
    match spec_getkey(secs, section, key) {
        None => Err(MetaErrorV::MissingField { section, key, path }),
        Some(v) => match spec_parse_ms(v) {
            None => Err(MetaErrorV::MalformedField { section, key, path }),
            Some(n) => Ok(n),
        },
    }
}

fn field_u64(secs: &Vec<Section>, section: &str, key: &str, path: &str) -> (r: Result<
    u64,
    MetaError,
>)
    ensures
        match r {
            Ok(n) => spec_field_u64(sections_view(secs@), section@, key@, path@) == Ok::<
                u64,
                MetaErrorV,
            >(n),
            Err(e) => spec_field_u64(sections_view(secs@), section@, key@, path@) == Err::<
                u64,
                MetaErrorV,
            >(e@),
        },
{
    let v = getkey(secs, section, key, path)?;
    match parse_u64(v.as_str()) {
        Some(n) => Ok(n),
        None => Err(
            MetaError::MalformedField {
                section: String::from_str(section),
                key: String::from_str(key),
                path: String::from_str(path),
            },
        ),
    }
}

fn field_ms(secs: &Vec<Section>, section: &str, key: &str, path: &str) -> (r: Result<
    u64,
    MetaError,
>)
    ensures
        match r {
            Ok(n) => spec_field_ms(sections_view(secs@), section@, key@, path@) == Ok::<
                u64,
                MetaErrorV,
            >(n),
            Err(e) => spec_field_ms(sections_view(secs@), section@, key@, path@) == Err::<
                u64,
                MetaErrorV,
            >(e@),
        },
{
    let v = getkey(secs, section, key, path)?;
    match parse_ms(v.as_str()) {
        Some(n) => Ok(n),
        None => Err(
            MetaError::MalformedField {
                section: String::from_str(section),
                key: String::from_str(key),
                path: String::from_str(path),
            },
        ),
    }
}

/// Parser round-trip: for any payload whose required fields are present
/// and numeric — well-formed section/key-value text — parsing succeeds,
/// and every field of the result equals the value read at its matching
/// `(section, key)` pair: the classified `Video` format, the audio
/// languages in order, and each number as its text denotes it.
pub proof fn lemma_parser_round_trip(text: Seq<char>, path: Seq<char>)
    requires
        spec_field_ms(spec_sections(text), "General"@, "Duration"@, path) is Ok,
        spec_field_u64(spec_sections(text), "General"@, "FileSize"@, path) is Ok,
        spec_field_u64(spec_sections(text), "General"@, "OverallBitRate"@, path) is Ok,
        spec_field_u64(spec_sections(text), "Video"@, "Height"@, path) is Ok,
        spec_field_u64(spec_sections(text), "Video"@, "Width"@, path) is Ok,
        spec_getkey(spec_sections(text), "Video"@, "Format"@) is Some,
    ensures
        spec_parse_report(text, path) is Ok,
        ({
            let secs = spec_sections(text);
            let got = spec_parse_report(text, path)->Ok_0;
            &&& Some(got.duration) == spec_parse_ms(spec_getkey(secs, "General"@, "Duration"@)->0)
            &&& Some(got.size) == spec_parse_u64(spec_getkey(secs, "General"@, "FileSize"@)->0)
            &&& Some(got.bitrate) == spec_parse_u64(
                spec_getkey(secs, "General"@, "OverallBitRate"@)->0,
            )
            &&& Some(got.height) == spec_parse_u64(spec_getkey(secs, "Video"@, "Height"@)->0)
            &&& Some(got.width) == spec_parse_u64(spec_getkey(secs, "Video"@, "Width"@)->0)
            &&& got.codec == spec_codec_from(spec_getkey(secs, "Video"@, "Format"@)->0)
            &&& got.languages == spec_langs(secs)
        }),
{
}

/// Parses a whole report, as `spec_parse_report` describes.
pub fn parse_report(text: &str, path: &str) -> (r: Result<ParsedMedia, MetaError>)
    ensures
        match r {
            Ok(p) => spec_parse_report(text@, path@) == Ok::<ParsedMediaV, MetaErrorV>(p@),
            Err(e) => spec_parse_report(text@, path@) == Err::<ParsedMediaV, MetaErrorV>(e@),
        },
{
    let secs = parse_sections(text);
    let duration = field_ms(&secs, "General", "Duration", path)?;
    let size = field_u64(&secs, "General", "FileSize", path)?;
    let bitrate = field_u64(&secs, "General", "OverallBitRate", path)?;
    let height = field_u64(&secs, "Video", "Height", path)?;
    let width = field_u64(&secs, "Video", "Width", path)?;
    let fmt = getkey(&secs, "Video", "Format", path)?;
    let codec = Codec::from_str(fmt.as_str());
    let languages = collect_langs(&secs);
    Ok(ParsedMedia { duration, size, bitrate, height, width, codec, languages })
}

} // verus!
