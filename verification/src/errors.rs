//! Error kinds of the core: parser failures, store faults, extraction-tool
//! failures, and file-identity failures.
use vstd::prelude::*;

verus! {

/// What can go wrong while resolving one file's metadata.
#[derive(Debug, Clone)]
pub enum MetaError {
    /// A required `(section, key)` pair was absent from the report.
    MissingField { section: String, key: String, path: String },
    /// A required field was present but not a number of the expected shape.
    MalformedField { section: String, key: String, path: String },
    /// The extraction tool's output was not valid UTF-8.
    EncodingError { path: String },
    /// The backing store itself failed; fatal for a whole run.
    StoreUnavailable,
    /// The extraction tool exited non-zero; carries its exit status and
    /// captured diagnostic output.
    ExtractionFailed { status: Option<i32>, diagnostic: String },
    /// The file has no extractable base name.
    FileIdentityError { path: String },
}

/// Spec-level error value.
pub enum MetaErrorV {
    MissingField { section: Seq<char>, key: Seq<char>, path: Seq<char> },
    MalformedField { section: Seq<char>, key: Seq<char>, path: Seq<char> },
    EncodingError { path: Seq<char> },
    StoreUnavailable,
    ExtractionFailed { status: Option<i32>, diagnostic: Seq<char> },
    FileIdentityError { path: Seq<char> },
}

impl View for MetaError {
    type V = MetaErrorV;

    open spec fn view(&self) -> MetaErrorV {
        match self {
            MetaError::MissingField { section, key, path } => MetaErrorV::MissingField {
                section: section@,
                key: key@,
                path: path@,
            },
            MetaError::MalformedField { section, key, path } => MetaErrorV::MalformedField {
                section: section@,
                key: key@,
                path: path@,
            },
            MetaError::EncodingError { path } => MetaErrorV::EncodingError { path: path@ },
            MetaError::StoreUnavailable => MetaErrorV::StoreUnavailable,
            MetaError::ExtractionFailed { status, diagnostic } => MetaErrorV::ExtractionFailed {
                status: *status,
                diagnostic: diagnostic@,
            },
            MetaError::FileIdentityError { path } => MetaErrorV::FileIdentityError { path: path@ },
        }
    }
}

} // verus!
