//! Tunnels: their protocols, and the two sides of one.

use vstd::prelude::*;
use vstd::utf8;

use crate::addr::SocketAddr;
use crate::error::{IoError, IoErrorKind};
use crate::key::PublicKey;
use crate::text::str_eq;

pub mod client;
pub mod host;
pub mod laws;

verus! {

/// The transport protocol of the traffic in a tunnel.
#[derive(Debug, Clone, Copy, PartialEq, Eq, Structural, Hash)]
pub enum TunnelProtocol {
    Tcp,
    Udp,
}

/// Which relays an endpoint may use.
#[derive(Debug, PartialEq, Eq)]
pub enum RelayMode {
    /// None at all.
    Disabled,
    /// The public ones.
    Default,
    /// The public ones that are under test.
    Staging,
    /// Those at the given URLs.
    Custom(Vec<String>),
}

/// The full addressing info of an endpoint: its key, its relay and its direct addresses.
#[derive(Debug)]
pub struct NodeAddr {
    pub node_id: PublicKey,
    pub relay_url: Option<String>,
    pub direct_addresses: Vec<SocketAddr>,
}

/// The lower case equivalent of a text.
pub uninterp spec fn lowercase(s: Seq<char>) -> Seq<char>;

/// A character with `A` to `Z` in lower case.
pub open spec fn ascii_lower(c: char) -> char {
    if 'A' <= c <= 'Z' {
        (c as u32 + 32) as char
    } else {
        c
    }
}

/// `str::to_lowercase`: the lower case equivalent of a text. In ASCII text only the letters `A` to
/// `Z` change.
#[verifier::external_body]
fn to_lowercase(s: &str) -> (r: String)
    ensures
        r@ == lowercase(s@),
        utf8::is_ascii_chars(s@) ==> r@ == s@.map_values(|c: char| ascii_lower(c)),
{
    s.to_lowercase()
}

impl TunnelProtocol {
    /// The name of the protocol.
    pub open spec fn display(self) -> Seq<char> {
        match self {
            TunnelProtocol::Tcp => "tcp"@,
            TunnelProtocol::Udp => "udp"@,
        }
    }

    /// Whether `r` is what a text in lower case stands for.
    pub open spec fn named_by(lower: Seq<char>, r: Result<TunnelProtocol, IoError>) -> bool {
        if lower == "tcp"@ {
            r == Ok::<TunnelProtocol, IoError>(TunnelProtocol::Tcp)
        } else if lower == "udp"@ {
            r == Ok::<TunnelProtocol, IoError>(TunnelProtocol::Udp)
        } else {
            r matches Err(e) && e.kind == IoErrorKind::InvalidInput && e.message@
                == "invalid protocol: "@ + lower
        }
    }

    /// The name of the protocol.
    pub fn to_text(&self) -> (r: &'static str)
        ensures
            r@ == self.display(),
    {
        match self {
            TunnelProtocol::Tcp => "tcp",
            TunnelProtocol::Udp => "udp",
        }
    }

    /// The protocol that a text in lower case names.
    pub fn from_lowercase(lower: &str) -> (r: Result<Self, IoError>)
        ensures
            Self::named_by(lower@, r),
    {
        proof {
            reveal_strlit("tcp");
            reveal_strlit("udp");
        }
        assert("tcp"@[0] != "udp"@[0]);
        if str_eq(lower, "tcp") {
            Ok(TunnelProtocol::Tcp)
        } else if str_eq(lower, "udp") {
            Ok(TunnelProtocol::Udp)
        } else {
            Err(
                IoError {
                    kind: IoErrorKind::InvalidInput,
                    message: String::from_str("invalid protocol: ").concat(lower),
                },
            )
        }
    }

    /// The protocol that a text names, in any case.
    pub fn from_str(s: &str) -> (r: Result<Self, IoError>)
        ensures
            Self::named_by(lowercase(s@), r),
            utf8::is_ascii_chars(s@) ==> Self::named_by(
                s@.map_values(|c: char| ascii_lower(c)),
                r,
            ),
    {
        let lower: String = to_lowercase(s);
        Self::from_lowercase(lower.as_str())
    }

    /// Reading the name of a protocol, in lower case, gives the protocol.
    pub proof fn lemma_name_read(self, r: Result<TunnelProtocol, IoError>)
        requires
            Self::named_by(self.display(), r),
        ensures
            r == Ok::<TunnelProtocol, IoError>(self),
    {
        reveal_strlit("tcp");
        reveal_strlit("udp");
        assert("tcp"@[0] != "udp"@[0]);
    }
}

} // verus!
