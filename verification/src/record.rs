//! The canonical metadata record for one media file, and the classified
//! video codec with its total mapping from raw identifiers.
use vstd::prelude::*;

verus! {

use vstd::string::StringExecFns;
use crate::text::str_eq;

/// Classified video codec: a closed set of known identifiers plus a
/// fallback that keeps the raw identifier string verbatim.
#[derive(Debug, Clone)]
pub enum Codec {
    H264,
    H265,
    AV1,
    Other(String),
}

/// Spec-level codec value.
pub enum CodecV {
    H264,
    H265,
    AV1,
    Other(Seq<char>),
}

impl View for Codec {
    type V = CodecV;

    open spec fn view(&self) -> CodecV {
        match self {
            Codec::H264 => CodecV::H264,
            Codec::H265 => CodecV::H265,
            Codec::AV1 => CodecV::AV1,
            Codec::Other(s) => CodecV::Other(s@),
        }
    }
}

/// The total mapping from the extraction tool's raw codec identifier to the
/// classified codec; an unknown identifier is preserved verbatim.
pub open spec fn spec_codec_from(s: Seq<char>) -> CodecV {
    if s == "avc1"@ {
        CodecV::H264
    } else if s == "hvc1"@ {
        CodecV::H265
    } else if s == "av01"@ {
        CodecV::AV1
    } else {
        CodecV::Other(s)
    }
}

/// The canonical text of a codec: the known name, or the raw identifier.
pub open spec fn spec_codec_text(c: CodecV) -> Seq<char> {
    match c {
        CodecV::H264 => "H264"@,
        CodecV::H265 => "H265"@,
        CodecV::AV1 => "AV1"@,
        CodecV::Other(s) => s,
    }
}

/// Reads a codec back from its canonical text.
pub open spec fn spec_codec_of_text(s: Seq<char>) -> CodecV {
    if s == "H264"@ {
        CodecV::H264
    } else if s == "H265"@ {
        CodecV::H265
    } else if s == "AV1"@ {
        CodecV::AV1
    } else {
        CodecV::Other(s)
    }
}

/// A codec whose canonical text reads back as itself: every codec except an
/// unclassified identifier that collides with a canonical name.
pub open spec fn codec_storable(c: CodecV) -> bool {
    match c {
        CodecV::Other(s) => s != "H264"@ && s != "H265"@ && s != "AV1"@,
        _ => true,
    }
}

/// Writing a codec as text and reading it back yields the codec again,
/// whenever the codec's text does not collide with a canonical name.
pub proof fn lemma_codec_text_round_trip(c: CodecV)
    requires
        codec_storable(c),
    ensures
        spec_codec_of_text(spec_codec_text(c)) == c,
{
    reveal_strlit("H264");
    reveal_strlit("H265");
    reveal_strlit("AV1");
    assert("H264"@.len() == 4);
    assert("H265"@.len() == 4);
    assert("AV1"@.len() == 3);
    assert("H264"@[3] == '4');
    assert("H265"@[3] == '5');
}

impl Codec {
    /// Classifies the extraction tool's raw codec identifier, as
    /// `spec_codec_from` describes; this lookup never fails.
    pub fn from_str(code: &str) -> (r: Codec)
        ensures
            r@ == spec_codec_from(code@),
    {
        if str_eq(code, "avc1") {
            Codec::H264
        } else if str_eq(code, "hvc1") {
            Codec::H265
        } else if str_eq(code, "av01") {
            Codec::AV1
        } else {
            Codec::Other(String::from_str(code))
        }
    }

    /// The codec's canonical display name, or the raw identifier itself,
    /// as `spec_codec_text` describes.
    pub fn name(&self) -> (r: String)
        ensures
            r@ == spec_codec_text(self@),
    {
        match self {
            Codec::H264 => String::from_str("H264"),
            Codec::H265 => String::from_str("H265"),
            Codec::AV1 => String::from_str("AV1"),
            Codec::Other(s) => s.clone(),
        }
    }

    /// An equal codec value, view preserved.
    pub fn duplicate(&self) -> (r: Codec)
        ensures
            r@ == self@,
    {
        match self {
            Codec::H264 => Codec::H264,
            Codec::H265 => Codec::H265,
            Codec::AV1 => Codec::AV1,
            Codec::Other(s) => Codec::Other(s.clone()),
        }
    }

    /// Reads a codec back from its canonical text, as `spec_codec_of_text`
    /// describes.
    pub fn of_text(s: &str) -> (r: Codec)
        ensures
            r@ == spec_codec_of_text(s@),
    {
        if str_eq(s, "H264") {
            Codec::H264
        } else if str_eq(s, "H265") {
            Codec::H265
        } else if str_eq(s, "AV1") {
            Codec::AV1
        } else {
            Codec::Other(String::from_str(s))
        }
    }
}

/// The views of a list of language codes.
pub open spec fn langs_view(v: Seq<String>) -> Seq<Seq<char>> {
    v.map_values(|l: String| l@)
}

/// The canonical metadata for one media file. `duration` is in
/// milliseconds; `mtime` is the file's modification time (seconds since the
/// epoch) when extraction ran — the staleness fingerprint; `last_checked`
/// is when extraction last ran (seconds since the epoch).
#[derive(Debug, Clone)]
pub struct MediaInfo {
    pub duration: u64,
    pub size: u64,
    pub bitrate: u64,
    pub height: u64,
    pub width: u64,
    pub codec: Codec,
    pub last_checked: i64,
    pub mtime: i64,
    pub languages: Vec<String>,
    pub whitelisted: bool,
}

/// Spec-level metadata record.
pub struct MediaInfoV {
    pub duration: u64,
    pub size: u64,
    pub bitrate: u64,
    pub height: u64,
    pub width: u64,
    pub codec: CodecV,
    pub last_checked: i64,
    pub mtime: i64,
    pub languages: Seq<Seq<char>>,
    pub whitelisted: bool,
}

impl View for MediaInfo {
    type V = MediaInfoV;

    open spec fn view(&self) -> MediaInfoV {
        MediaInfoV {
            duration: self.duration,
            size: self.size,
            bitrate: self.bitrate,
            height: self.height,
            width: self.width,
            codec: self.codec@,
            last_checked: self.last_checked,
            mtime: self.mtime,
            languages: langs_view(self.languages@),
            whitelisted: self.whitelisted,
        }
    }
}

/// What the report parser yields: a metadata record minus the cache-only
/// fields, which the resolver stamps in.
#[derive(Debug, Clone)]
pub struct ParsedMedia {
    pub duration: u64,
    pub size: u64,
    pub bitrate: u64,
    pub height: u64,
    pub width: u64,
    pub codec: Codec,
    pub languages: Vec<String>,
}

/// Spec-level parsed report.
pub struct ParsedMediaV {
    pub duration: u64,
    pub size: u64,
    pub bitrate: u64,
    pub height: u64,
    pub width: u64,
    pub codec: CodecV,
    pub languages: Seq<Seq<char>>,
}

impl View for ParsedMedia {
    type V = ParsedMediaV;

    open spec fn view(&self) -> ParsedMediaV {
        ParsedMediaV {
            duration: self.duration,
            size: self.size,
            bitrate: self.bitrate,
            height: self.height,
            width: self.width,
            codec: self.codec@,
            languages: langs_view(self.languages@),
        }
    }
}

} // verus!
