//! Errors of the wire protocol and of the network operations.
use vstd::prelude::*;
use crate::message::PayloadKind;

verus! {

/// What went wrong when reading a message or a payload.
#[derive(PartialEq, Eq, Structural, Debug, Clone, Copy)]
pub enum ErrorKind {
    /// The bytes are truncated, corrupted or carry an unknown tag.
    FromBytes,
    /// The envelope's kind is not the kind of the payload type asked for.
    WrongKind,
}

/// A wire protocol error: its kind and, where one is known, a description of
/// the lower-level cause.
#[derive(Debug, Clone)]
pub struct Error {
    kind: ErrorKind,
    source: Option<String>,
}

impl Error {
    pub closed spec fn spec_kind(&self) -> ErrorKind {
        self.kind
    }

    /// The cause's description, if any.
    pub closed spec fn spec_source(&self) -> Option<Seq<char>> {
        match self.source {
            Some(s) => Some(s@),
            None => None,
        }
    }

    pub fn new(kind: ErrorKind) -> (r: Error)
        ensures
            r.spec_kind() == kind,
            r.spec_source() is None,
    {
        Error { kind, source: None }
    }

    pub fn with_source(kind: ErrorKind, source: String) -> (r: Error)
        ensures
            r.spec_kind() == kind,
            r.spec_source() == Some(source@),
    {
        Error { kind, source: Some(source) }
    }

    pub fn kind(&self) -> (r: &ErrorKind)
        ensures
            *r == self.spec_kind(),
    {
        &self.kind
    }

    pub fn source(&self) -> (r: Option<&String>)
        ensures
            r matches Some(s) ==> self.spec_source() == Some(s@),
            r is None <==> self.spec_source() is None,
    {
        match &self.source {
            Some(s) => Some(s),
            None => None,
        }
    }
}

/// The kinds of network error that a peer sees.
#[derive(PartialEq, Eq, Structural, Debug, Clone, Copy)]
pub enum NetworkErrorKind {
    /// No matching reply came within the deadline.
    Timeout,
    /// A reply could not be read as the payload asked for.
    Deserialize(ErrorKind),
    /// A socket operation failed.
    Io,
    /// A message of a kind that the receiver does not handle.
    Protocol(PayloadKind),
}

/// A network error.
#[derive(PartialEq, Eq, Structural, Debug, Clone, Copy)]
pub struct NetworkError {
    pub kind: NetworkErrorKind,
}

impl From<NetworkErrorKind> for NetworkError {
    fn from(value: NetworkErrorKind) -> (r: NetworkError) {
        NetworkError { kind: value }
    }
}

impl vstd::std_specs::convert::FromSpecImpl<NetworkErrorKind> for NetworkError {
    open spec fn obeys_from_spec() -> bool {
        true
    }

    open spec fn from_spec(v: NetworkErrorKind) -> NetworkError {
        NetworkError { kind: v }
    }
}

impl From<Error> for NetworkError {
    fn from(value: Error) -> (r: NetworkError) {
        NetworkError { kind: NetworkErrorKind::Deserialize(value.kind) }
    }
}

impl vstd::std_specs::convert::FromSpecImpl<Error> for NetworkError {
    open spec fn obeys_from_spec() -> bool {
        true
    }

    open spec fn from_spec(v: Error) -> NetworkError {
        NetworkError { kind: NetworkErrorKind::Deserialize(v.spec_kind()) }
    }
}

} // verus!
