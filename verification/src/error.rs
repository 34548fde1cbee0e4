//! What can go wrong with a tunnel.

use vstd::prelude::*;

use crate::text;
use crate::text::decimal_text;
use crate::wire::DecodeError;

verus! {

/// The kinds of input and output failure that the library tells apart.
#[derive(Debug, Clone, Copy, PartialEq, Eq, Structural)]
pub enum IoErrorKind {
    /// An argument is malformed.
    InvalidInput,
    /// The operation is not ready.
    WouldBlock,
    /// Anything else.
    Other,
}

/// A failure of input or output.
#[derive(Debug, PartialEq, Eq)]
pub struct IoError {
    pub kind: IoErrorKind,
    pub message: String,
}

/// Any failure of a tunnel. Failures of the transport carry its own description.
#[derive(Debug, PartialEq, Eq)]
pub enum Error {
    Io(IoError),
    Connect(String),
    Endpoint(String),
    Connection(String),
    Read(String),
    Write(String),
    ReadToEnd(String),
    Protocol(String),
    Decode(DecodeError),
    Encode(String),
    AlreadyRunning,
    NotRunning,
    InvalidSecret,
    VersionMismatch { ours: u16, peer: u16 },
    Shutdown,
}

impl Error {
    /// Whether the error says that the protocol was violated, in these words.
    pub open spec fn is_protocol(self, words: Seq<char>) -> bool {
        self matches Error::Protocol(m) && m@ == words
    }

    /// The error in words.
    pub open spec fn display(self) -> Seq<char> {
        match self {
            Error::Io(e) => "io: "@ + e.message@,
            Error::Connect(m) => "iroh connect: "@ + m@,
            Error::Endpoint(m) => "iroh endpoint: "@ + m@,
            Error::Connection(m) => "connection: "@ + m@,
            Error::Read(m) => "stream read: "@ + m@,
            Error::Write(m) => "stream write: "@ + m@,
            Error::ReadToEnd(m) => "stream reset: "@ + m@,
            Error::Protocol(m) => "protocol: "@ + m@,
            Error::Decode(e) => "bincode decode: "@ + e.display(),
            Error::Encode(m) => "bincode encode: "@ + m@,
            Error::AlreadyRunning => "tunnel already running"@,
            Error::NotRunning => "tunnel not running"@,
            Error::InvalidSecret => "invalid secret: expected 32 bytes"@,
            Error::VersionMismatch { ours, peer } => "version mismatch: peer speaks "@
                + text::decimal(peer as nat) + ", we speak "@ + text::decimal(ours as nat),
            Error::Shutdown => "shutting down"@,
        }
    }

    /// A protocol error in fixed words.
    pub fn protocol(words: &str) -> (r: Self)
        ensures
            r.is_protocol(words@),
    {
        Error::Protocol(String::from_str(words))
    }

    /// The error in words.
    pub fn to_text(&self) -> (r: String)
        ensures
            r@ == self.display(),
    {
        match self {
            Error::Io(e) => String::from_str("io: ").concat(e.message.as_str()),
            Error::Connect(m) => String::from_str("iroh connect: ").concat(m.as_str()),
            Error::Endpoint(m) => String::from_str("iroh endpoint: ").concat(m.as_str()),
            Error::Connection(m) => String::from_str("connection: ").concat(m.as_str()),
            Error::Read(m) => String::from_str("stream read: ").concat(m.as_str()),
            Error::Write(m) => String::from_str("stream write: ").concat(m.as_str()),
            Error::ReadToEnd(m) => String::from_str("stream reset: ").concat(m.as_str()),
            Error::Protocol(m) => String::from_str("protocol: ").concat(m.as_str()),
            Error::Decode(e) => String::from_str("bincode decode: ").concat(
                e.to_text().as_str(),
            ),
            Error::Encode(m) => String::from_str("bincode encode: ").concat(m.as_str()),
            Error::AlreadyRunning => String::from_str("tunnel already running"),
            Error::NotRunning => String::from_str("tunnel not running"),
            Error::InvalidSecret => String::from_str("invalid secret: expected 32 bytes"),
            Error::VersionMismatch { ours, peer } => String::from_str(
                "version mismatch: peer speaks ",
            ).concat(decimal_text(*peer as u64).as_str()).concat(", we speak ").concat(
                decimal_text(*ours as u64).as_str(),
            ),
            Error::Shutdown => String::from_str("shutting down"),
        }
    }
}

/// A version mismatch is told with the version that the peer speaks first, and the one that we speak
/// last.
pub proof fn lemma_mismatch_tells_both_versions(ours: u16, peer: u16)
    ensures
        ({
            let words = (Error::VersionMismatch { ours, peer }).display();
            let theirs = "version mismatch: peer speaks "@ + text::decimal(peer as nat);
            &&& theirs.is_prefix_of(words)
            &&& (", we speak "@ + text::decimal(ours as nat)).is_suffix_of(words)
        }),
{
    let theirs = "version mismatch: peer speaks "@ + text::decimal(peer as nat);
    let us = ", we speak "@ + text::decimal(ours as nat);
    let words = (Error::VersionMismatch { ours, peer }).display();
    assert(words =~= theirs + us);
    assert((theirs + us).subrange(0, theirs.len() as int) =~= theirs);
    text::lemma_sum_ends(theirs, us);
}

/// An error that has a cause is told with that cause.
pub proof fn lemma_error_tells_its_cause(e: Error)
    ensures
        match e {
            Error::Io(io) => io.message@.is_suffix_of(e.display()),
            Error::Connect(m) => m@.is_suffix_of(e.display()),
            Error::Endpoint(m) => m@.is_suffix_of(e.display()),
            Error::Connection(m) => m@.is_suffix_of(e.display()),
            Error::Read(m) => m@.is_suffix_of(e.display()),
            Error::Write(m) => m@.is_suffix_of(e.display()),
            Error::ReadToEnd(m) => m@.is_suffix_of(e.display()),
            Error::Protocol(m) => m@.is_suffix_of(e.display()),
            Error::Decode(d) => d.display().is_suffix_of(e.display()),
            Error::Encode(m) => m@.is_suffix_of(e.display()),
            _ => true,
        },
{
    match e {
        Error::Io(io) => {
            text::lemma_sum_ends("io: "@, io.message@);
        },
        Error::Connect(m) => {
            text::lemma_sum_ends("iroh connect: "@, m@);
        },
        Error::Endpoint(m) => {
            text::lemma_sum_ends("iroh endpoint: "@, m@);
        },
        Error::Connection(m) => {
            text::lemma_sum_ends("connection: "@, m@);
        },
        Error::Read(m) => {
            text::lemma_sum_ends("stream read: "@, m@);
        },
        Error::Write(m) => {
            text::lemma_sum_ends("stream write: "@, m@);
        },
        Error::ReadToEnd(m) => {
            text::lemma_sum_ends("stream reset: "@, m@);
        },
        Error::Protocol(m) => {
            text::lemma_sum_ends("protocol: "@, m@);
        },
        Error::Decode(d) => {
            text::lemma_sum_ends("bincode decode: "@, d.display());
        },
        Error::Encode(m) => {
            text::lemma_sum_ends("bincode encode: "@, m@);
        },
        _ => {},
    }
}

} // verus!
