//! The error kinds of the gateway and the error value that carries them.

use vstd::prelude::*;
use vstd::string::*;

verus! {

/// Why a call into the gateway failed.
#[derive(Clone, Copy, Debug, PartialEq, Eq, Structural)]
pub enum ErrorKind {
    /// No usable secret was found for the vendor.
    CredentialMissing,
    /// No usable base URL exists for the vendor.
    EndpointUnresolved,
    /// The normalized request cannot be put into the dialect's shape.
    RequestBuildFailed,
    /// The network, or the store behind a lookup, failed.
    TransportFailed,
    /// The vendor answered with a status that is no success.
    UpstreamError,
    /// The vendor's payload is malformed or has an unexpected shape.
    ResponseParseFailed,
    /// The vendor reported an error inside the stream.
    StreamProtocolError,
}

/// A failure: its kind and a message for people. What a provider hands out
/// names its vendor in the message; what the dialect alone hands out cannot,
/// and gets the name with `attribute`. An upstream failure carries the
/// status and the raw body it came with.
#[derive(Debug, PartialEq, Eq)]
pub struct ProviderError {
    pub kind: ErrorKind,
    pub message: String,
    pub status: Option<u16>,
    pub body: Option<String>,
}

/// The view of an optional string.
pub open spec fn opt_text(s: Option<String>) -> Option<Seq<char>> {
    match s {
        Some(t) => Some(t@),
        None => None,
    }
}

/// A message with the vendor it concerns named behind it.
pub open spec fn attributed(message: Seq<char>, vendor: Seq<char>) -> Seq<char> {
    message + " (provider '"@ + vendor + "')"@
}

impl ProviderError {
    /// Whether this error has the given kind and message and carries no
    /// status and no body.
    pub open spec fn is_plain(self, kind: ErrorKind, message: Seq<char>) -> bool {
        &&& self.kind == kind
        &&& self.message@ == message
        &&& self.status is None
        &&& self.body is None
    }

    /// An error of the given kind that carries a message only.
    pub fn plain(kind: ErrorKind, message: String) -> (e: ProviderError)
        ensures
            e.is_plain(kind, message@),
    {
        ProviderError { kind, message, status: None, body: None }
    }

    /// The same error with the vendor named behind its message.
    pub fn attribute(self, vendor: &str) -> (e: ProviderError)
        ensures
            e.kind == self.kind,
            e.message@ == attributed(self.message@, vendor@),
            e.status == self.status,
            opt_text(e.body) == opt_text(self.body),
    {
        let mut message = self.message;
        message.append(" (provider '");
        message.append(vendor);
        message.append("')");
        ProviderError { kind: self.kind, message, status: self.status, body: self.body }
    }

    /// The kind of this error.
    pub fn kind(&self) -> (k: ErrorKind)
        ensures
            k == self.kind,
    {
        self.kind
    }

    /// The message of this error, as a string of its own.
    pub fn message(&self) -> (m: String)
        ensures
            m@ == self.message@,
    {
        self.message.clone()
    }
}

} // verus!
