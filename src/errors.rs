//! The errors of the library.

use vstd::prelude::*;
use crate::mediatypes::MediaTypes;

verus! {

/// Errors of the queries on a manifest.
#[derive(Debug, Clone, PartialEq, Eq)]
pub enum ManifestError {
    NoArchitecture,
    ArchitectureMismatch,
    LayerDigestsUnsupported(String),
    ArchitectureNotSupported(String),
}

/// What went wrong in a parse of a `WWW-Authenticate` header value.
#[derive(Debug, Clone, PartialEq, Eq)]
pub enum WwwHeaderParseError {
    /// The value does not follow `scheme key="value", ...`.
    InvalidValue,
    /// The value names no authentication scheme.
    FieldMethodMissing,
}

/// Every error of the library.
#[derive(Debug, Clone, PartialEq, Eq)]
pub enum Error {
    /// A malformed image reference, or digest.
    InvalidReference(String),
    /// A media type outside the known set.
    UnknownMimeType(String),
    /// A manifest response without a content type, where no workaround applies.
    MediaTypeSniff,
    /// A `WWW-Authenticate` value that cannot be parsed.
    InvalidChallenge(WwwHeaderParseError),
    /// A challenge that is well formed, but whose scheme or fields do not fit.
    UnsupportedChallenge(String),
    /// A 401 response without the challenge header.
    MissingAuthHeader(String),
    /// A Basic challenge, but no credentials were configured.
    NoCredentials,
    /// The token service handed out an empty or `unauthenticated` token.
    InvalidAuthToken(String),
    /// A status that the operation did not expect.
    UnexpectedHttpStatus(u16),
    /// A 4xx answer to a blob fetch.
    Client { status: u16 },
    /// A 5xx answer to a blob fetch.
    Server { status: u16 },
    /// A manifest of a media type that cannot be decoded.
    UnsupportedMediaType(MediaTypes),
    /// A digest text that is not `sha256:` or `sha512:` followed by as many
    /// hex digits as the algorithm gives.
    InvalidDigest(String),
    /// The content does not hash to the declared digest.
    DigestMismatch { declared: String, computed: String },
    /// A query on a manifest failed.
    Manifest(ManifestError),
    /// A failure of the transport or of decoding, with its message.
    Io(String),
}

} // verus!
