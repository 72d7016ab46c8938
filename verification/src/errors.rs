use vstd::prelude::*;

use crate::uri::Uri;

verus! {

// ---------------------------------------------------------------------------
// The failure classes a backend call can report.
// ---------------------------------------------------------------------------

#[derive(Clone, Copy, Debug, PartialEq, Eq, Structural)]
pub enum SdkFailureKind {
    ConstructionFailure,
    TimeoutError,
    ResponseError,
    DispatchFailure,
    ServiceError,
    Other,
}

// ---------------------------------------------------------------------------
// The transfer engine's error. Backend and local failures carry the
// collaborator's diagnostic text as plain strings.
// ---------------------------------------------------------------------------

#[derive(Debug)]
pub enum Error {
    Put(String),
    Get(String),
    NoFilename,
    LocalFilenameNotUnicode,
    LocalFile(String),
    Streaming(String),
    NoSuchKey(Uri),
    Io(String),
    S3SdkError(&'static str, String),
    S3SdkErrorDebug(&'static str, String),
}

/// The diagnostic prefix each backend failure class prints under.
pub open spec fn spec_sdk_prefix(kind: SdkFailureKind) -> Seq<char> {
    match kind {
        SdkFailureKind::ConstructionFailure => "S3 request construction failure"@,
        SdkFailureKind::TimeoutError => "S3 timeout"@,
        SdkFailureKind::ResponseError => "S3 response error"@,
        SdkFailureKind::DispatchFailure => "S3 dispatch failure"@,
        SdkFailureKind::ServiceError => "S3 service error"@,
        SdkFailureKind::Other => "S3 other error"@,
    }
}

/// The prefix a failure class prints under, and whether its source is shown
/// with debug detail (every class but a plain service error).
pub fn sdk_error_prefix(kind: SdkFailureKind) -> (r: (&'static str, bool))
    ensures
        r.0@ == spec_sdk_prefix(kind),
        r.1 == !(kind is ServiceError),
{
    match kind {
        SdkFailureKind::ConstructionFailure => ("S3 request construction failure", true),
        SdkFailureKind::TimeoutError => ("S3 timeout", true),
        SdkFailureKind::ResponseError => ("S3 response error", true),
        SdkFailureKind::DispatchFailure => ("S3 dispatch failure", true),
        SdkFailureKind::ServiceError => ("S3 service error", false),
        SdkFailureKind::Other => ("S3 other error", true),
    }
}

/// Wrap a backend failure's diagnostic text in the error for its class.
pub fn sdk_error(kind: SdkFailureKind, message: String) -> (r: Error)
    ensures
        kind is ServiceError ==> (r matches Error::S3SdkError(p, m) && p@ == spec_sdk_prefix(kind)
            && m@ == message@),
        !(kind is ServiceError) ==> (r matches Error::S3SdkErrorDebug(p, m) && p@
            == spec_sdk_prefix(kind) && m@ == message@),
{
    let (prefix, debug) = sdk_error_prefix(kind);
    if debug {
        Error::S3SdkErrorDebug(prefix, message)
    } else {
        Error::S3SdkError(prefix, message)
    }
}

} // verus!
