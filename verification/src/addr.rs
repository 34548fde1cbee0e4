//! Socket addresses as plain values.

use vstd::prelude::*;

use crate::table::Key;
use crate::text;
use crate::text::{decimal_text, numeral_text};

verus! {

/// The address of a socket.
#[allow(inconsistent_fields)]
#[derive(Debug, Clone, Copy, PartialEq, Eq, Structural, Hash)]
pub enum SocketAddr {
    /// An IPv4 address, its first octet in the highest bits, and a port.
    V4 { ip: u32, port: u16 },
    /// An IPv6 address, its first octet in the highest bits, with port, flow label and scope.
    V6 { ip: u128, port: u16, flowinfo: u32, scope_id: u32 },
}

/// The address of an IPv4 socket.
#[derive(Debug, Clone, Copy, PartialEq, Eq, Structural, Hash)]
pub struct SocketAddrV4 {
    pub ip: u32,
    pub port: u16,
}

impl Key for SocketAddr {
    fn same(&self, other: &Self) -> (r: bool) {
        *self == *other
    }
}

/// The unspecified address of a family, with port zero.
pub open spec fn unspecified(ipv4: bool) -> SocketAddr {
    if ipv4 {
        SocketAddr::V4 { ip: 0, port: 0 }
    } else {
        SocketAddr::V6 { ip: 0, port: 0, flowinfo: 0, scope_id: 0 }
    }
}

/// A local "bind any" address.
pub fn any_addr(ipv4: bool) -> (r: SocketAddr)
    ensures
        r == unspecified(ipv4),
{
    if ipv4 {
        SocketAddr::V4 { ip: 0, port: 0 }
    } else {
        SocketAddr::V6 { ip: 0, port: 0, flowinfo: 0, scope_id: 0 }
    }
}

/// The four octets of an IPv4 address, first octet first.
pub open spec fn v4_octets(ip: u32) -> Seq<u8> {
    seq![(ip >> 24) as u8, (ip >> 16) as u8, (ip >> 8) as u8, ip as u8]
}

/// The sixteen octets of an IPv6 address, first octet first.
pub open spec fn v6_octets(ip: u128) -> Seq<u8> {
    seq![
        (ip >> 120) as u8,
        (ip >> 112) as u8,
        (ip >> 104) as u8,
        (ip >> 96) as u8,
        (ip >> 88) as u8,
        (ip >> 80) as u8,
        (ip >> 72) as u8,
        (ip >> 64) as u8,
        (ip >> 56) as u8,
        (ip >> 48) as u8,
        (ip >> 40) as u8,
        (ip >> 32) as u8,
        (ip >> 24) as u8,
        (ip >> 16) as u8,
        (ip >> 8) as u8,
        ip as u8,
    ]
}

/// The eight segments of an IPv6 address, first segment first.
pub open spec fn v6_segments(ip: u128) -> Seq<u16> {
    seq![
        (ip >> 112) as u16,
        (ip >> 96) as u16,
        (ip >> 80) as u16,
        (ip >> 64) as u16,
        (ip >> 48) as u16,
        (ip >> 32) as u16,
        (ip >> 16) as u16,
        ip as u16,
    ]
}

/// The octets of an IPv4 address.
pub fn octets_of_v4(ip: u32) -> (r: Vec<u8>)
    ensures
        r@ == v4_octets(ip),
{
    let r: Vec<u8> = vec![
        #[verifier::truncate] ((ip >> 24) as u8),
        #[verifier::truncate] ((ip >> 16) as u8),
        #[verifier::truncate] ((ip >> 8) as u8),
        #[verifier::truncate] (ip as u8),
    ];
    assert(r@ =~= v4_octets(ip));
    r
}

/// The octets of an IPv6 address.
pub fn octets_of_v6(ip: u128) -> (r: Vec<u8>)
    ensures
        r@ == v6_octets(ip),
{
    let r: Vec<u8> = vec![
        #[verifier::truncate] ((ip >> 120) as u8),
        #[verifier::truncate] ((ip >> 112) as u8),
        #[verifier::truncate] ((ip >> 104) as u8),
        #[verifier::truncate] ((ip >> 96) as u8),
        #[verifier::truncate] ((ip >> 88) as u8),
        #[verifier::truncate] ((ip >> 80) as u8),
        #[verifier::truncate] ((ip >> 72) as u8),
        #[verifier::truncate] ((ip >> 64) as u8),
        #[verifier::truncate] ((ip >> 56) as u8),
        #[verifier::truncate] ((ip >> 48) as u8),
        #[verifier::truncate] ((ip >> 40) as u8),
        #[verifier::truncate] ((ip >> 32) as u8),
        #[verifier::truncate] ((ip >> 24) as u8),
        #[verifier::truncate] ((ip >> 16) as u8),
        #[verifier::truncate] ((ip >> 8) as u8),
        #[verifier::truncate] (ip as u8),
    ];
    assert(r@ =~= v6_octets(ip));
    r
}

/// The IPv4 address with the given octets.
pub open spec fn v4_from_octets(b: Seq<u8>) -> u32 {
    ((b[0] as u32) << 24) | ((b[1] as u32) << 16) | ((b[2] as u32) << 8) | (b[3] as u32)
}

/// The IPv6 address with the given octets.
pub open spec fn v6_from_octets(b: Seq<u8>) -> u128 {
    ((b[0] as u128) << 120) | ((b[1] as u128) << 112) | ((b[2] as u128) << 104) | ((b[3] as u128) << 96) | ((b[4] as u128) << 88) | ((b[5] as u128) << 80) | ((b[6] as u128) << 72) | ((b[7] as u128) << 64) | ((b[8] as u128) << 56) | ((b[9] as u128) << 48) | ((b[10] as u128) << 40) | ((b[11] as u128) << 32) | ((b[12] as u128) << 24) | ((b[13] as u128) << 16) | ((b[14] as u128) << 8) | (b[15] as u128)
}

/// An IPv4 address is determined by its octets.
pub proof fn lemma_v4_octets(ip: u32)
    ensures
        v4_from_octets(v4_octets(ip)) == ip,
{
    assert((((ip >> 24) as u8 as u32) << 24) | (((ip >> 16) as u8 as u32) << 16) | (((ip
        >> 8) as u8 as u32) << 8) | (ip as u8 as u32) == ip) by (bit_vector);
}

/// An IPv6 address is determined by its octets.
pub proof fn lemma_v6_octets(ip: u128)
    ensures
        v6_from_octets(v6_octets(ip)) == ip,
{
    assert((((ip >> 120) as u8 as u128) << 120) | (((ip >> 112) as u8 as u128) << 112) | (((ip >> 104) as u8 as u128) << 104) | (((ip >> 96) as u8 as u128) << 96) | (((ip >> 88) as u8 as u128) << 88) | (((ip >> 80) as u8 as u128) << 80) | (((ip >> 72) as u8 as u128) << 72) | (((ip >> 64) as u8 as u128) << 64) | (((ip >> 56) as u8 as u128) << 56) | (((ip >> 48) as u8 as u128) << 48) | (((ip >> 40) as u8 as u128) << 40) | (((ip >> 32) as u8 as u128) << 32) | (((ip >> 24) as u8 as u128) << 24) | (((ip >> 16) as u8 as u128) << 16) | (((ip >> 8) as u8 as u128) << 8) | (ip as u8 as u128) == ip) by (bit_vector);
}

/// The IPv4 address with the given octets.
pub fn v4_of_octets(b: &[u8]) -> (r: u32)
    requires
        b@.len() >= 4,
    ensures
        r == v4_from_octets(b@),
{
    ((b[0] as u32) << 24) | ((b[1] as u32) << 16) | ((b[2] as u32) << 8) | (b[3] as u32)
}

/// The IPv6 address with the given octets.
pub fn v6_of_octets(b: &[u8]) -> (r: u128)
    requires
        b@.len() >= 16,
    ensures
        r == v6_from_octets(b@),
{
    ((b[0] as u128) << 120) | ((b[1] as u128) << 112) | ((b[2] as u128) << 104) | ((b[3] as u128) << 96) | ((b[4] as u128) << 88) | ((b[5] as u128) << 80) | ((b[6] as u128) << 72) | ((b[7] as u128) << 64) | ((b[8] as u128) << 56) | ((b[9] as u128) << 48) | ((b[10] as u128) << 40) | ((b[11] as u128) << 32) | ((b[12] as u128) << 24) | ((b[13] as u128) << 16) | ((b[14] as u128) << 8) | (b[15] as u128)
}

/// Dotted decimal form of an IPv4 address.
pub open spec fn v4_display(ip: u32) -> Seq<char> {
    text::decimal((ip >> 24) as u8 as nat) + "."@ + text::decimal((ip >> 16) as u8 as nat) + "."@ + text::decimal(
        (ip >> 8) as u8 as nat,
    ) + "."@ + text::decimal(ip as u8 as nat)
}

/// Segments `from..to` in hexadecimal, with colons between them.
pub open spec fn segments_display(s: Seq<u16>, from: int, to: int) -> Seq<char>
    decreases to - from,
{
    if to <= from {
        seq![]
    } else if to == from + 1 {
        text::numeral(s[from] as nat, 16)
    } else {
        segments_display(s, from, to - 1) + ":"@ + text::numeral(s[to - 1] as nat, 16)
    }
}

/// Whether segments `from..to` are all zero.
pub open spec fn zero_run(s: Seq<u16>, from: int, to: int) -> bool {
    forall|i: int| from <= i < to ==> #[trigger] s[i] == 0
}

/// Whether `from..to` is the first of the longest runs of zero segments.
pub open spec fn longest_zero_run(s: Seq<u16>, from: int, to: int) -> bool {
    &&& 0 <= from <= to <= s.len()
    &&& zero_run(s, from, to)
    &&& forall|a: int, b: int|
        0 <= a <= b <= s.len() && #[trigger] zero_run(s, a, b) ==> b - a < to - from || (b - a == to
            - from && from <= a)
}

/// Text form of an IPv6 address, given the first of its longest runs of zero segments. An address
/// that maps an IPv4 address shows it in dotted form; a run of two or more zero segments is
/// written as a double colon.
pub open spec fn v6_display_with(ip: u128, from: int, to: int) -> Seq<char> {
    let s = v6_segments(ip);
    if zero_run(s, 0, 5) && s[5] == 0xffff {
        "::ffff:"@ + v4_display(ip as u32)
    } else if to - from > 1 {
        segments_display(s, 0, from) + "::"@ + segments_display(s, to, 8)
    } else {
        segments_display(s, 0, 8)
    }
}

/// Text form of an IPv6 address.
pub open spec fn v6_display(ip: u128) -> Seq<char> {
    let run = choose|r: (int, int)| #[trigger] longest_zero_run(v6_segments(ip), r.0, r.1);
    v6_display_with(ip, run.0, run.1)
}

impl SocketAddr {
    /// Whether the address is an IPv4 address.
    pub open spec fn spec_is_ipv4(self) -> bool {
        self is V4
    }

    /// Text form of the address: `ip:port`, with an IPv6 address in square brackets and its scope,
    /// if it has one, behind a percent sign.
    pub open spec fn display(self) -> Seq<char> {
        match self {
            SocketAddr::V4 { ip, port } => v4_display(ip) + ":"@ + text::decimal(port as nat),
            SocketAddr::V6 { ip, port, flowinfo, scope_id } => if scope_id == 0 {
                "["@ + v6_display(ip) + "]:"@ + text::decimal(port as nat)
            } else {
                "["@ + v6_display(ip) + "%"@ + text::decimal(scope_id as nat) + "]:"@ + text::decimal(
                    port as nat,
                )
            },
        }
    }

    /// Whether the address is an IPv4 address.
    pub fn is_ipv4(&self) -> (r: bool)
        ensures
            r == self.spec_is_ipv4(),
    {
        match self {
            SocketAddr::V4 { .. } => true,
            SocketAddr::V6 { .. } => false,
        }
    }

    /// Renders the address.
    pub fn to_text(&self) -> (r: String)
        ensures
            r@ == self.display(),
    {
        match *self {
            SocketAddr::V4 { ip, port } => {
                v4_text(ip).concat(":").concat(decimal_text(port as u64).as_str())
            },
            SocketAddr::V6 { ip, port, flowinfo: _, scope_id } => {
                let open: String = String::from_str("[");
                let body: String = open.concat(v6_text(ip).as_str());
                if scope_id == 0 {
                    body.concat("]:").concat(decimal_text(port as u64).as_str())
                } else {
                    body.concat("%").concat(decimal_text(scope_id as u64).as_str()).concat(
                        "]:",
                    ).concat(decimal_text(port as u64).as_str())
                }
            },
        }
    }
}

fn v4_text(ip: u32) -> (r: String)
    ensures
        r@ == v4_display(ip),
{
    let o: Vec<u8> = octets_of_v4(ip);
    decimal_text(o[0] as u64).concat(".").concat(decimal_text(o[1] as u64).as_str()).concat(
        ".",
    ).concat(decimal_text(o[2] as u64).as_str()).concat(".").concat(
        decimal_text(o[3] as u64).as_str(),
    )
}

fn segments_of_v6(ip: u128) -> (r: Vec<u16>)
    ensures
        r@ == v6_segments(ip),
{
    let r: Vec<u16> = vec![
        #[verifier::truncate] ((ip >> 112) as u16),
        #[verifier::truncate] ((ip >> 96) as u16),
        #[verifier::truncate] ((ip >> 80) as u16),
        #[verifier::truncate] ((ip >> 64) as u16),
        #[verifier::truncate] ((ip >> 48) as u16),
        #[verifier::truncate] ((ip >> 32) as u16),
        #[verifier::truncate] ((ip >> 16) as u16),
        #[verifier::truncate] (ip as u16),
    ];
    assert(r@ =~= v6_segments(ip));
    r
}

fn segments_text(s: &Vec<u16>, from: usize, to: usize) -> (r: String)
    requires
        from <= to <= s@.len(),
    ensures
        r@ == segments_display(s@, from as int, to as int),
{
    if from == to {
        return String::new();
    }
    let mut r: String = numeral_text(s[from] as u64, 16);
    let mut i: usize = from + 1;
    while i < to
        invariant
            from < i <= to <= s@.len(),
            r@ == segments_display(s@, from as int, i as int),
        decreases to - i,
    {
        r = r.concat(":").concat(numeral_text(s[i] as u64, 16).as_str());
        i = i + 1;
    }
    r
}

/// Finds the first of the longest runs of zero segments.
fn find_zero_run(s: &Vec<u16>) -> (r: (usize, usize))
    requires
        s@.len() == 8,
    ensures
        longest_zero_run(s@, r.0 as int, r.1 as int),
{
    let mut from: usize = 0;
    let mut to: usize = 0;
    let mut start: usize = 0;
    let mut i: usize = 0;
    while i < 8
        invariant
            s@.len() == 8,
            from <= to <= i <= 8,
            start <= i,
            to - from >= i - start,
            zero_run(s@, from as int, to as int),
            zero_run(s@, start as int, i as int),
            start > 0 ==> s@[start - 1] != 0,
            forall|a: int, b: int|
                0 <= a <= b <= i && #[trigger] zero_run(s@, a, b) ==> b - a < to - from || (b - a
                    == to - from && from <= a),
        decreases 8 - i,
    {
        let ghost old_from = from;
        let ghost old_to = to;
        if s[i] == 0 {
            if i + 1 - start > to - from {
                from = start;
                to = i + 1;
            }
        } else {
            start = i + 1;
        }
        proof {
            assert forall|a: int, b: int|
                0 <= a <= b <= i + 1 && #[trigger] zero_run(s@, a, b) implies b - a < to - from || (
            b - a == to - from && from <= a) by {
                if b == i + 1 && a < b {
                    assert(s@[i as int] == 0);
                    if a < start {
                        assert(s@[start - 1] == 0);
                    }
                } else if b <= i {
                    assert(b - a < old_to - old_from || (b - a == old_to - old_from && old_from
                        <= a));
                }
            }
        }
        i = i + 1;
    }
    (from, to)
}

proof fn lemma_zero_run_unique(s: Seq<u16>, a: int, b: int, c: int, d: int)
    requires
        longest_zero_run(s, a, b),
        longest_zero_run(s, c, d),
    ensures
        a == c,
        b == d,
{
    assert(zero_run(s, a, b));
    assert(zero_run(s, c, d));
}

fn v6_text(ip: u128) -> (r: String)
    ensures
        r@ == v6_display(ip),
{
    let s: Vec<u16> = segments_of_v6(ip);
    let run: (usize, usize) = find_zero_run(&s);
    proof {
        let c = choose|r: (int, int)| #[trigger] longest_zero_run(v6_segments(ip), r.0, r.1);
        let w = (run.0 as int, run.1 as int);
        assert(longest_zero_run(v6_segments(ip), w.0, w.1));
        lemma_zero_run_unique(s@, c.0, c.1, w.0, w.1);
    }
    if s[0] == 0 && s[1] == 0 && s[2] == 0 && s[3] == 0 && s[4] == 0 && s[5] == 0xffff {
        assert(zero_run(s@, 0, 5));
        String::from_str("::ffff:").concat(v4_text(#[verifier::truncate] (ip as u32)).as_str())
    } else {
        assert(!(zero_run(s@, 0, 5) && s@[5] == 0xffff));
        if run.1 - run.0 > 1 {
            segments_text(&s, 0, run.0).concat("::").concat(segments_text(&s, run.1, 8).as_str())
        } else {
            segments_text(&s, 0, 8)
        }
    }
}

/// The octets of an IPv4 address are its digits in base 256, the highest first.
pub proof fn lemma_v4_octets_are_digits(ip: u32)
    ensures
        v4_octets(ip).len() == 4,
        v4_octets(ip)[0] == ip / 0x100_0000,
        v4_octets(ip)[1] == ip / 0x1_0000 % 256,
        v4_octets(ip)[2] == ip / 256 % 256,
        v4_octets(ip)[3] == ip % 256,
        ip == 0x100_0000 * v4_octets(ip)[0] + 0x1_0000 * v4_octets(ip)[1] + 256 * v4_octets(ip)[2]
            + v4_octets(ip)[3],
{
    let (a, b) = (ip / 0x100_0000, ip / 0x1_0000);
    let c = ip / 256;
    assert(b / 256 == a && c / 256 == b);
    assert(ip == 256 * c + ip % 256 && c == 256 * b + c % 256 && b == 256 * a + b % 256);
    assert((ip >> 24) as u8 == ip / 0x100_0000 && (ip >> 16) as u8 == ip / 0x1_0000 % 256 && (ip
        >> 8) as u8 == ip / 256 % 256 && ip as u8 == ip % 256) by (bit_vector);
}

/// The octets of an IPv6 address are its digits in base 256, the highest first.
pub proof fn lemma_v6_octets_are_digits(ip: u128)
    ensures
        v6_octets(ip).len() == 16,
        ip == 0x1_0000_0000_0000_0000 * (0x100_0000_0000_0000 * v6_octets(ip)[0]
            + 0x1_0000_0000_0000 * v6_octets(ip)[1] + 0x100_0000_0000 * v6_octets(ip)[2]
            + 0x1_0000_0000 * v6_octets(ip)[3] + 0x100_0000 * v6_octets(ip)[4] + 0x1_0000
            * v6_octets(ip)[5] + 256 * v6_octets(ip)[6] + v6_octets(ip)[7]) + 0x100_0000_0000_0000
            * v6_octets(ip)[8] + 0x1_0000_0000_0000 * v6_octets(ip)[9] + 0x100_0000_0000
            * v6_octets(ip)[10] + 0x1_0000_0000 * v6_octets(ip)[11] + 0x100_0000
            * v6_octets(ip)[12] + 0x1_0000 * v6_octets(ip)[13] + 256 * v6_octets(ip)[14]
            + v6_octets(ip)[15],
{
    let hi: u64 = (ip >> 64) as u64;
    let lo: u64 = ip as u64;
    assert(ip == 0x1_0000_0000_0000_0000 * (ip / 0x1_0000_0000_0000_0000) + ip
        % 0x1_0000_0000_0000_0000);
    assert((ip >> 64) as u64 == ip / 0x1_0000_0000_0000_0000 && ip as u64 == ip
        % 0x1_0000_0000_0000_0000) by (bit_vector);
    assert((ip >> 120) as u8 == (hi >> 56) as u8 && (ip >> 112) as u8 == (hi >> 48) as u8 && (ip
        >> 104) as u8 == (hi >> 40) as u8 && (ip >> 96) as u8 == (hi >> 32) as u8 && (ip
        >> 88) as u8 == (hi >> 24) as u8 && (ip >> 80) as u8 == (hi >> 16) as u8 && (ip
        >> 72) as u8 == (hi >> 8) as u8 && (ip >> 64) as u8 == hi as u8) by (bit_vector)
        requires
            hi == (ip >> 64) as u64,
    ;
    assert((ip >> 56) as u8 == (lo >> 56) as u8 && (ip >> 48) as u8 == (lo >> 48) as u8 && (ip
        >> 40) as u8 == (lo >> 40) as u8 && (ip >> 32) as u8 == (lo >> 32) as u8 && (ip
        >> 24) as u8 == (lo >> 24) as u8 && (ip >> 16) as u8 == (lo >> 16) as u8 && (ip
        >> 8) as u8 == (lo >> 8) as u8 && ip as u8 == lo as u8) by (bit_vector)
        requires
            lo == ip as u64,
    ;
    lemma_u64_by_octets(hi);
    lemma_u64_by_octets(lo);
}

proof fn lemma_u64_by_octets(v: u64)
    ensures
        v == 0x100_0000_0000_0000 * ((v >> 56) as u8) + 0x1_0000_0000_0000 * ((v >> 48) as u8)
            + 0x100_0000_0000 * ((v >> 40) as u8) + 0x1_0000_0000 * ((v >> 32) as u8) + 0x100_0000
            * ((v >> 24) as u8) + 0x1_0000 * ((v >> 16) as u8) + 256 * ((v >> 8) as u8) + (
        v as u8),
{
    let hi: u32 = (v >> 32) as u32;
    let lo: u32 = v as u32;
    assert(v == 0x1_0000_0000 * (v / 0x1_0000_0000) + v % 0x1_0000_0000);
    assert((v >> 32) as u32 == v / 0x1_0000_0000 && v as u32 == v % 0x1_0000_0000) by (bit_vector);
    assert((v >> 56) as u8 == (hi >> 24) as u8 && (v >> 48) as u8 == (hi >> 16) as u8 && (v
        >> 40) as u8 == (hi >> 8) as u8 && (v >> 32) as u8 == hi as u8) by (bit_vector)
        requires
            hi == (v >> 32) as u32,
    ;
    assert((v >> 24) as u8 == (lo >> 24) as u8 && (v >> 16) as u8 == (lo >> 16) as u8 && (v
        >> 8) as u8 == (lo >> 8) as u8 && v as u8 == lo as u8) by (bit_vector)
        requires
            lo == v as u32,
    ;
    lemma_v4_octets_are_digits(hi);
    lemma_v4_octets_are_digits(lo);
    assert(hi == 0x100_0000 * ((v >> 56) as u8) + 0x1_0000 * ((v >> 48) as u8) + 256 * ((v
        >> 40) as u8) + ((v >> 32) as u8));
    assert(lo == 0x100_0000 * ((v >> 24) as u8) + 0x1_0000 * ((v >> 16) as u8) + 256 * ((v
        >> 8) as u8) + (v as u8));
}

/// Each segment of an IPv6 address is made of two of its octets, in their order.
pub proof fn lemma_v6_segments_are_octets(ip: u128, i: int)
    requires
        0 <= i < 8,
    ensures
        v6_segments(ip).len() == 8,
        v6_segments(ip)[i] == 256 * v6_octets(ip)[2 * i] + v6_octets(ip)[2 * i + 1],
{
    assert((ip >> 112) as u16 == 256 * ((ip >> 120) as u8) + ((ip >> 112) as u8) && (ip
        >> 96) as u16 == 256 * ((ip >> 104) as u8) + ((ip >> 96) as u8) && (ip >> 80) as u16 == 256
        * ((ip >> 88) as u8) + ((ip >> 80) as u8) && (ip >> 64) as u16 == 256 * ((ip >> 72) as u8)
        + ((ip >> 64) as u8)) by (bit_vector);
    assert((ip >> 48) as u16 == 256 * ((ip >> 56) as u8) + ((ip >> 48) as u8) && (ip >> 32) as u16
        == 256 * ((ip >> 40) as u8) + ((ip >> 32) as u8) && (ip >> 16) as u16 == 256 * ((ip
        >> 24) as u8) + ((ip >> 16) as u8) && ip as u16 == 256 * ((ip >> 8) as u8) + (ip as u8))
        by (bit_vector);
}

/// An address is shown with its octets in decimal, or its segments in hexadecimal in brackets, and
/// its port behind it.
pub proof fn lemma_address_is_shown(a: SocketAddr)
    ensures
        match a {
            SocketAddr::V4 { ip, port } => a.display() == text::decimal((ip / 0x100_0000) as nat)
                + "."@ + text::decimal((ip / 0x1_0000 % 256) as nat) + "."@ + text::decimal(
                (ip / 256 % 256) as nat,
            ) + "."@ + text::decimal((ip % 256) as nat) + ":"@ + text::decimal(port as nat),
            SocketAddr::V6 { ip, port, flowinfo, scope_id } => {
                &&& scope_id == 0 ==> a.display() == "["@ + v6_display(ip) + "]:"@ + text::decimal(
                    port as nat,
                )
                &&& scope_id != 0 ==> a.display() == "["@ + v6_display(ip) + "%"@ + text::decimal(
                    scope_id as nat,
                ) + "]:"@ + text::decimal(port as nat)
            },
        },
{
    if let SocketAddr::V4 { ip, port } = a {
        lemma_v4_octets_are_digits(ip);
    }
}

/// Where an IPv6 address maps no IPv4 address, its first longest run of two or more zero segments is
/// left out, and only that; the other segments stand in their order.
pub proof fn lemma_v6_display_leaves_zeros_out(ip: u128, from: int, to: int)
    requires
        0 <= from <= to <= 8,
        forall|i: int| from <= i < to ==> #[trigger] v6_segments(ip)[i] == 0,
        forall|a: int, b: int|
            0 <= a <= b <= 8 && #[trigger] zero_run(v6_segments(ip), a, b) ==> b - a < to - from
                || (b - a == to - from && from <= a),
        exists|i: int| 0 <= i < 5 && #[trigger] v6_segments(ip)[i] != 0 || v6_segments(ip)[5]
            != 0xffff,
    ensures
        v6_display(ip) == if to - from > 1 {
            segments_display(v6_segments(ip), 0, from) + "::"@ + segments_display(
                v6_segments(ip),
                to,
                8,
            )
        } else {
            segments_display(v6_segments(ip), 0, 8)
        },
{
    let s = v6_segments(ip);
    let w = (from, to);
    assert(longest_zero_run(s, w.0, w.1));
    let c = choose|r: (int, int)| #[trigger] longest_zero_run(s, r.0, r.1);
    lemma_zero_run_unique(s, c.0, c.1, from, to);
    assert(!(zero_run(s, 0, 5) && s[5] == 0xffff));
}

/// Segments are shown in hexadecimal with colons between them.
pub proof fn lemma_segments_are_shown(s: Seq<u16>, from: int, to: int)
    requires
        0 <= from < to <= s.len(),
    ensures
        segments_display(s, from, from) == Seq::<char>::empty(),
        segments_display(s, from, from + 1) == text::numeral(s[from] as nat, 16),
        to < s.len() ==> segments_display(s, from, to + 1) == segments_display(s, from, to) + ":"@
            + text::numeral(s[to] as nat, 16),
{
}

} // verus!
