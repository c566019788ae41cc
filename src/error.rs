//! The errors of the library.
use vstd::prelude::*;
use yaml_rust::{EmitError, ScanError};

verus! {

/// What the structured-text reader reports when a metadata block cannot be read.
#[verifier::external_type_specification]
#[verifier::external_body]
pub struct ExScanError(ScanError);

/// What the structured-text writer reports when a metadata tree cannot be written.
#[verifier::external_type_specification]
#[verifier::external_body]
pub struct ExEmitError(EmitError);

/// What the URL reader reports for a text that is no URL.
#[verifier::external_type_specification]
#[verifier::external_body]
pub struct ExParseError(url::ParseError);

/// The library's errors.
#[derive(Debug)]
pub enum Error {
    /// The application could not be set up.
    AppInitError,
    /// The configuration file cannot be found.
    CannotFindConfig,
    /// A configuration property that the operation needs has no value.
    ConfigPropertyIsAbsent(&'static str),
    /// An issue number or range that cannot be read, or that is not known.
    IllegalIssue(String),
    /// The configuration names no vault root.
    VaultRootIsAbsent,
    /// The vault root is not a directory.
    IllegalVaultRoot(String),
    /// No key for the picture-of-the-day service is configured.
    IllegalNASAKey,
    /// A URL without the part that the operation needs.
    IllegalURL(String),
    /// A page without the content that the operation needs.
    IllegalHTMLContent,
    /// A media kind other than an image or a video.
    UnknownMediaType,
    /// A date that does not exist.
    IllegalDate,
    /// A path that is not what the operation needs.
    IllegalPath(String),
    /// A configuration key that is not known.
    IllegalConfKey(String),
    /// A configuration value that the key does not take.
    IllegalConfValue(String),
    /// A year that is not positive.
    IllegalYearNumber(i32),
    /// A month outside 1 to 12.
    IllegalMonthNumber(u32),
    /// The note has no delimiter line.
    NoteMetadataNotFound,
    /// The note has an opening delimiter line and no closing one.
    IllegalNoteMetadata,
    /// The metadata is not a mapping, so keys cannot be set or removed.
    NoteMetadataNotMapping,
    /// Several independent units of work failed; each failure is kept.
    MultipleExecutorsError(Vec<Error>),
    /// A file could not be opened, read, written, renamed or removed.
    IoError(String),
    /// A collaborator (a web service, a parser of its answer) failed.
    ServiceError(String),
    /// The metadata block cannot be read as structured text.
    YamlScanError(ScanError),
    /// The metadata tree cannot be written as structured text.
    YamlEmitError(EmitError),
    /// A text that is no URL.
    URLParseError(url::ParseError),
}

} // verus!
