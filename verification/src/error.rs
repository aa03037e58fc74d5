//! Errors of the library.
use vstd::prelude::*;

verus! {

/// `url::ParseError`, carried as the reason a URL did not parse.
#[verifier::external_type_specification]
#[verifier::external_body]
pub struct ExUrlParseError(url::ParseError);

/// What can go wrong in the library's own logic. Failures of the outside
/// world (I/O, the database, HTTP, JSON) are added to this by the application.
#[derive(Debug, PartialEq, Eq)]
pub enum MooseError {
    StreamStalled { seconds: u64 },
    Url(url::ParseError),
    MissingHomeDirectory,
    InvalidProviderUrl,
    InvalidProviderName,
    InvalidModelName,
    InvalidConversationTitle,
    InvalidMessageContent,
    InvalidMessageRole,
    InvalidMessageStatus,
    InvalidIdentifier,
    InvalidGenerationSettings,
    InvalidProfileName,
    InvalidProfileDescription,
    InvalidSystemPrompt,
    InvalidDownloadJobStatus,
    InvalidDownloadJobProgress,
    ConversationNotFound,
    MessageNotFound,
    GenerationSettingsNotFound,
    ProfileNotFound,
    ProfileNameAlreadyExists,
    BuiltinProfileCannotBeDeleted,
    DownloadJobNotFound,
    ProviderNotConfigured,
    InvalidOllamaResponse(String),
    ManagedOllamaUnsupportedArchitecture(String),
    ManagedOllamaManifestInvalid(String),
    ManagedOllamaDownloadFailed(String),
    ManagedOllamaChecksumMismatch { expected: String, actual: String },
    ManagedOllamaExtractionFailed(String),
    ManagedOllamaBinaryMissing(String),
    ManagedOllamaUnavailable,
    ManagedOllamaStartFailed(String),
    ManagedOllamaTimedOut,
    ManagedOllamaPortUnavailable(String),
    ManagedOllamaInvalidPort(u16),
    NumericConversion,
}

pub type Result<T> = core::result::Result<T, MooseError>;

} // verus!
