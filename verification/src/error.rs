use vstd::prelude::*;

verus! {

/// Failures of the extraction core, per operation that can observe them.
///
/// `MetadataFieldMissing` carries the name of the absent field;
/// `CipherPatternNotFound` is a hard failure signalling that the player
/// code no longer matches the structural pattern the matcher knows.
#[derive(Debug, Clone)]
pub enum ExtractionError {
    /// The network fetch of a manifest failed (transport / HTTP layer).
    ManifestFetchFailed,
    /// The fetched manifest document could not be structurally parsed.
    ManifestMalformed,
    /// A required metadata field is absent from the manifest.
    MetadataFieldMissing(String),
    /// The network fetch of a player source failed.
    PlayerSourceUnavailable,
    /// No transform routine matching the structural pattern was found
    /// in the player source.
    CipherPatternNotFound,
    /// A cipher operation referenced an index outside the signature.
    CipherReplayError,
    /// Internal synchronization failed; fatal to the current call only.
    LockPoisoned,
}

/// Failure of video-identifier validation.
#[derive(Debug, Clone)]
pub enum VideoIdError {
    /// The raw string is not a well-formed video identifier.
    Malformed,
}

/// Failure of a cookie-store operation.
#[derive(Debug, Clone)]
pub enum CookieError {
    /// The domain string could not be parsed as a URL.
    InvalidDomain,
}

} // verus!
