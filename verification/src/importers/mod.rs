//! Importing collections from outside export formats: the shared error and
//! record types, the importer interface, and format auto-detection.

pub mod insomnia;

use vstd::prelude::*;

use crate::text;

verus! {

/// A fault while importing an export file.
#[derive(Debug)]
pub enum ImportError {
    InvalidFormat(String),
    UnsupportedVersion(String),
    ParseError(String),
    IoError(std::io::Error),
    MissingField(String),
}

/// The display message of an import fault, for every variant whose text the
/// library itself determines.
pub open spec fn import_error_msg(e: ImportError) -> Seq<char> {
    match e {
        ImportError::InvalidFormat(m) => "Invalid format: "@ + m@,
        ImportError::UnsupportedVersion(m) => "Unsupported version: "@ + m@,
        ImportError::ParseError(m) => "Parse error: "@ + m@,
        ImportError::IoError(_) => "IO error: "@,
        ImportError::MissingField(m) => "Missing required field: "@ + m@,
    }
}

impl ImportError {
    /// The display message of the fault; for an I/O fault, the carried
    /// error's own text follows the fixed prefix.
    pub fn message(&self) -> (r: String)
        ensures
            match self {
                ImportError::IoError(_) => exists|t: Seq<char>|
                    r@ == #[trigger] (import_error_msg(*self) + t),
                _ => r@ == import_error_msg(*self),
            },
    {
        let mut m = String::new();
        match self {
            ImportError::InvalidFormat(s) => {
                m.append("Invalid format: ");
                m.append(s.as_str());
            },
            ImportError::UnsupportedVersion(s) => {
                m.append("Unsupported version: ");
                m.append(s.as_str());
            },
            ImportError::ParseError(s) => {
                m.append("Parse error: ");
                m.append(s.as_str());
            },
            ImportError::IoError(e) => {
                m.append("IO error: ");
                let detail = e.to_string();
                m.append(detail.as_str());
                proof {
                    assert(m@ == import_error_msg(*self) + detail@);
                }
            },
            ImportError::MissingField(s) => {
                m.append("Missing required field: ");
                m.append(s.as_str());
            },
        }
        m
    }
}

impl From<std::io::Error> for ImportError {
    /// Wraps an I/O error as an import fault.
    fn from(e: std::io::Error) -> (r: ImportError) {
        ImportError::IoError(e)
    }
}

impl vstd::std_specs::convert::FromSpecImpl<std::io::Error> for ImportError {
    open spec fn obeys_from_spec() -> bool {
        true
    }

    open spec fn from_spec(e: std::io::Error) -> ImportError {
        ImportError::IoError(e)
    }
}

/// The outcome of an import step.
pub type ImportResult<T> = Result<T, ImportError>;

/// A format-agnostic imported collection.
#[derive(Debug)]
pub struct ImportedCollection {
    pub name: String,
    pub description: Option<String>,
    pub requests: Vec<ImportedRequest>,
}

/// A format-agnostic imported request.
#[derive(Debug)]
pub struct ImportedRequest {
    pub id: String,
    pub name: String,
    pub description: Option<String>,
    pub method: String,
    pub url: String,
    pub headers: Vec<(String, String)>,
    pub body: Option<String>,
}

/// An importer for one outside export format.
pub trait ImportFormat {
    /// The format's own intermediate representation.
    type Source;

    /// Whether the text looks like this format.
    fn can_import(content: &str) -> bool;

    /// Parses the text into the format's representation.
    fn parse(content: &str) -> ImportResult<Self::Source>
        requires
            content@.len() <= crate::tokenizer::MAX_SOURCE_LEN,
    ;

    /// Converts the representation into format-agnostic collections.
    fn convert(source: Self::Source) -> ImportResult<Vec<ImportedCollection>>;

    /// The whole pipeline: parse, then convert.
    fn import(content: &str) -> ImportResult<Vec<ImportedCollection>>
        requires
            content@.len() <= crate::tokenizer::MAX_SOURCE_LEN,
    {
        match Self::parse(content) {
            Ok(source) => Self::convert(source),
            Err(e) => Err(e),
        }
    }
}

/// Whether a text carries the markers of the one supported format.
pub open spec fn spec_can_import(s: Seq<char>) -> bool {
    text::contains_seq(s, "\"__export_format\""@) && text::contains_seq(s, "\"resources\""@)
}

/// Detects the format of an export text and imports it; a text showing no
/// known format's markers is refused with a fixed message.
pub fn auto_import(content: &str) -> (r: ImportResult<Vec<ImportedCollection>>)
    requires
        content@.len() <= crate::tokenizer::MAX_SOURCE_LEN,
    ensures
        spec_can_import(content@) ==> insomnia::import_outcome_ok(content@, r),
        !spec_can_import(content@) ==> (r matches Err(e) && e matches ImportError::InvalidFormat(m)
            && m@ == "Unknown format. Supported: Insomnia v4"@),
{
    if insomnia::InsomniaImporter::detects(content) {
        return insomnia::InsomniaImporter::import_text(content);
    }
    let mut m = String::new();
    m.append("Unknown format. Supported: Insomnia v4");
    Err(ImportError::InvalidFormat(m))
}

} // verus!
