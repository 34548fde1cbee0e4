//! What peers say to each other before traffic flows.

use vstd::prelude::*;
use vstd::slice::slice_subrange;

use crate::addr;
use crate::addr::{octets_of_v4, octets_of_v6, v4_of_octets, v6_of_octets, SocketAddr};
use crate::error::Error;
use crate::text;
use crate::text::decimal_text;
use crate::wire;
use crate::wire::{decode_u16, decode_u32, encode_u16, encode_u32, DecodeError, Message, VariantType};

verus! {

/// ALPN protocol identifier.
pub const ALPN: &'static str = "lan-tun/0.2.0";

/// Wire-level protocol version.
pub const PROTOCOL_VERSION: u16 = 2;

/// Idle timeout for a forwarded stream.
pub const IDLE_TIMEOUT_SECS: u64 = 120;

/// The longest frame that is read.
pub const MAX_FRAME: usize = 0x10_0000;

/// Client -> Host: sent as the first frame on every bi-stream.
#[derive(Debug, Clone, Copy, PartialEq, Eq, Structural)]
pub struct ConnReq {
    pub client_local_addr: SocketAddr,
}

/// Client -> Host: sent once on a dedicated uni-stream immediately after connecting.
/// Host validates and either proceeds or closes the connection.
#[derive(Debug, Clone, Copy, PartialEq, Eq, Structural)]
pub struct Hello {
    pub version: u16,
    /// Reserved for future use
    pub capabilities: u32,
}

impl Message for Hello {
    open spec fn wire(&self) -> Seq<u8> {
        wire::varint(self.version as u32) + wire::varint(self.capabilities)
    }

    open spec fn read(b: Seq<u8>) -> Result<Self, DecodeError> {
        match wire::varint_read(b, false) {
            Err(e) => Err(e),
            Ok((version, n)) => match wire::varint_read(b.skip(n as int), true) {
                Err(e) => Err(e),
                Ok((capabilities, m)) => Ok(Hello { version: version as u16, capabilities }),
            },
        }
    }

    open spec fn received(&self) -> Self {
        *self
    }

    proof fn lemma_read_wire(&self, rest: Seq<u8>) {
        let v = self.version as u32;
        let c = self.capabilities;
        assert(self.wire() + rest =~= wire::varint(v) + (wire::varint(c) + rest));
        wire::lemma_varint_roundtrip(v, false, wire::varint(c) + rest);
        wire::lemma_varint_roundtrip(c, true, rest);
    }

    fn encode(&self) -> (r: Vec<u8>) {
        let mut r: Vec<u8> = encode_u16(self.version);
        let mut tail: Vec<u8> = encode_u32(self.capabilities);
        r.append(&mut tail);
        r
    }

    fn decode(b: &[u8]) -> (r: Result<Self, DecodeError>) {
        match decode_u16(b) {
            Err(e) => Err(e),
            Ok((version, n)) => {
                let rest: &[u8] = slice_subrange(b, n, b.len());
                assert(rest@ =~= b@.skip(n as int));
                match decode_u32(rest) {
                    Err(e) => Err(e),
                    Ok((capabilities, _)) => Ok(Hello { version, capabilities }),
                }
            },
        }
    }
}

/// A socket address as it is written: its family, its octets and its port.
pub open spec fn addr_wire(a: SocketAddr) -> Seq<u8> {
    match a {
        SocketAddr::V4 { ip, port } => wire::varint(0) + addr::v4_octets(ip) + wire::varint(
            port as u32,
        ),
        SocketAddr::V6 { ip, port, flowinfo, scope_id } => wire::varint(1) + addr::v6_octets(ip)
            + wire::varint(port as u32),
    }
}

/// What is left of an address on the wire: an IPv6 address loses its flow label and scope.
pub open spec fn addr_received(a: SocketAddr) -> SocketAddr {
    match a {
        SocketAddr::V4 { ip, port } => a,
        SocketAddr::V6 { ip, port, flowinfo, scope_id } => SocketAddr::V6 {
            ip,
            port,
            flowinfo: 0,
            scope_id: 0,
        },
    }
}

/// Reads a socket address from the front of `b`.
pub open spec fn addr_read(b: Seq<u8>) -> Result<SocketAddr, DecodeError> {
    match wire::varint_read(b, true) {
        Err(e) => Err(e),
        Ok((family, n)) => {
            let rest = b.skip(n as int);
            let width: int = if family == 0 {
                4
            } else {
                16
            };
            if family > 1 {
                Err(DecodeError::UnexpectedVariant { of: VariantType::SocketAddr, variant: family })
            } else if rest.len() < width {
                Err(DecodeError::UnexpectedEnd { additional: (width - rest.len()) as usize })
            } else {
                match wire::varint_read(rest.skip(width), false) {
                    Err(e) => Err(e),
                    Ok((port, m)) => if family == 0 {
                        Ok(
                            SocketAddr::V4 {
                                ip: addr::v4_from_octets(rest),
                                port: port as u16,
                            },
                        )
                    } else {
                        Ok(
                            SocketAddr::V6 {
                                ip: addr::v6_from_octets(rest),
                                port: port as u16,
                                flowinfo: 0,
                                scope_id: 0,
                            },
                        )
                    },
                }
            }
        },
    }
}

/// Reading gives back the address that was written.
pub proof fn lemma_addr_roundtrip(a: SocketAddr, rest: Seq<u8>)
    ensures
        addr_read(addr_wire(a) + rest) == Ok::<SocketAddr, DecodeError>(addr_received(a)),
{
    match a {
        SocketAddr::V4 { ip, port } => {
            lemma_addr_read(0, addr::v4_octets(ip), port, rest);
            addr::lemma_v4_octets(ip);
        },
        SocketAddr::V6 { ip, port, flowinfo, scope_id } => {
            lemma_addr_read(1, addr::v6_octets(ip), port, rest);
            addr::lemma_v6_octets(ip);
        },
    }
}

proof fn lemma_addr_read(family: u32, octets: Seq<u8>, port: u16, rest: Seq<u8>)
    requires
        family <= 1,
        octets.len() == if family == 0 {
            4int
        } else {
            16
        },
    ensures
        ({
            let b = wire::varint(family) + octets + wire::varint(port as u32) + rest;
            let after = octets + (wire::varint(port as u32) + rest);
            addr_read(b) == Ok::<SocketAddr, DecodeError>(
                if family == 0 {
                    SocketAddr::V4 { ip: addr::v4_from_octets(after), port }
                } else {
                    SocketAddr::V6 {
                        ip: addr::v6_from_octets(after),
                        port,
                        flowinfo: 0,
                        scope_id: 0,
                    }
                },
            )
        }),
{
    let p = wire::varint(port as u32) + rest;
    let after = octets + p;
    let b = wire::varint(family) + octets + wire::varint(port as u32) + rest;
    assert(b =~= wire::varint(family) + after);
    wire::lemma_varint_roundtrip(family, true, after);
    assert(after.skip(octets.len() as int) =~= p);
    wire::lemma_varint_roundtrip(port as u32, false, rest);
}

/// The bytes of a socket address.
pub fn encode_addr(a: SocketAddr) -> (r: Vec<u8>)
    ensures
        r@ == addr_wire(a),
{
    let (family, octets, port): (u32, Vec<u8>, u16) = match a {
        SocketAddr::V4 { ip, port } => (0u32, octets_of_v4(ip), port),
        SocketAddr::V6 { ip, port, .. } => (1u32, octets_of_v6(ip), port),
    };
    let mut r: Vec<u8> = encode_u32(family);
    let mut middle: Vec<u8> = octets;
    let mut tail: Vec<u8> = encode_u16(port);
    r.append(&mut middle);
    r.append(&mut tail);
    r
}

/// The socket address at the front of some bytes.
pub fn decode_addr(b: &[u8]) -> (r: Result<SocketAddr, DecodeError>)
    ensures
        r == addr_read(b@),
{
    match decode_u32(b) {
        Err(e) => Err(e),
        Ok((family, n)) => {
            let rest: &[u8] = slice_subrange(b, n, b.len());
            assert(rest@ =~= b@.skip(n as int));
            if family > 1 {
                return Err(DecodeError::UnexpectedVariant { of: VariantType::SocketAddr, variant: family });
            }
            let width: usize = if family == 0 {
                4
            } else {
                16
            };
            if rest.len() < width {
                return Err(DecodeError::UnexpectedEnd { additional: width - rest.len() });
            }
            let tail: &[u8] = slice_subrange(rest, width, rest.len());
            assert(tail@ =~= rest@.skip(width as int));
            match decode_u16(tail) {
                Err(e) => Err(e),
                Ok((port, _)) => if family == 0 {
                    Ok(SocketAddr::V4 { ip: v4_of_octets(rest), port })
                } else {
                    Ok(SocketAddr::V6 { ip: v6_of_octets(rest), port, flowinfo: 0, scope_id: 0 })
                },
            }
        },
    }
}

impl Message for ConnReq {
    open spec fn wire(&self) -> Seq<u8> {
        addr_wire(self.client_local_addr)
    }

    open spec fn read(b: Seq<u8>) -> Result<Self, DecodeError> {
        match addr_read(b) {
            Err(e) => Err(e),
            Ok(a) => Ok(ConnReq { client_local_addr: a }),
        }
    }

    open spec fn received(&self) -> Self {
        ConnReq { client_local_addr: addr_received(self.client_local_addr) }
    }

    proof fn lemma_read_wire(&self, rest: Seq<u8>) {
        lemma_addr_roundtrip(self.client_local_addr, rest);
    }

    fn encode(&self) -> (r: Vec<u8>) {
        encode_addr(self.client_local_addr)
    }

    fn decode(b: &[u8]) -> (r: Result<Self, DecodeError>) {
        match decode_addr(b) {
            Err(e) => Err(e),
            Ok(a) => Ok(ConnReq { client_local_addr: a }),
        }
    }
}

/// The bytes of a length, the highest first.
pub open spec fn length_prefix(n: nat) -> Seq<u8> {
    seq![
        (n / 0x100_0000) as u8,
        (n / 0x1_0000 % 256) as u8,
        (n / 256 % 256) as u8,
        (n % 256) as u8,
    ]
}

/// The length that the first bytes of `b` stand for.
pub open spec fn prefix_length(b: Seq<u8>) -> nat {
    (0x100_0000 * b[0] + 0x1_0000 * b[1] + 256 * b[2] + b[3]) as nat
}

/// A frame: the length of the data, then the data.
pub open spec fn framed(data: Seq<u8>) -> Seq<u8> {
    length_prefix(data.len()) + data
}

/// How far a frame has been received.
#[verifier::ext_equal]
pub ghost enum FrameState {
    /// So many bytes can be read without going beyond the frame.
    Need(nat),
    /// The frame announces more than is accepted.
    TooLarge(nat),
    /// The data of the frame.
    Full(Seq<u8>),
}

/// How far a frame has been received when these bytes of it have come.
pub open spec fn frame_state(b: Seq<u8>) -> FrameState {
    if b.len() < 4 {
        FrameState::Need((4 - b.len()) as nat)
    } else {
        let n = prefix_length(b);
        if n > MAX_FRAME {
            FrameState::TooLarge(n)
        } else if b.len() < 4 + n {
            FrameState::Need((4 + n - b.len()) as nat)
        } else {
            FrameState::Full(b.subrange(4, 4 + n as int))
        }
    }
}

/// However a frame is cut into pieces on its way, as long as it is incomplete the reader asks for
/// more and never for bytes beyond its end, and when it is complete the reader has exactly the data.
pub proof fn lemma_frame_prefix(data: Seq<u8>, k: nat)
    requires
        data.len() <= MAX_FRAME,
        k <= 4 + data.len(),
    ensures
        frame_state(framed(data).take(k as int)) == if k < 4 {
            FrameState::Need((4 - k) as nat)
        } else if k < 4 + data.len() {
            FrameState::Need((4 + data.len() - k) as nat)
        } else {
            FrameState::Full(data)
        },
{
    let b = framed(data).take(k as int);
    let n = data.len();
    if k >= 4 {
        assert(b[0] == (n / 0x100_0000) as u8 && b[1] == (n / 0x1_0000 % 256) as u8 && b[2] == (n
            / 256 % 256) as u8 && b[3] == (n % 256) as u8);
        assert(prefix_length(b) == n);
        if k == 4 + n {
            assert(b.subrange(4, 4 + n as int) =~= data);
        }
    }
}

/// A message that was written is what is read from its frame.
pub proof fn lemma_message_roundtrip<T: Message>(msg: T)
    requires
        msg.wire().len() <= MAX_FRAME,
    ensures
        frame_state(framed(msg.wire())) == FrameState::Full(msg.wire()),
        T::read(msg.wire()) == Ok::<T, DecodeError>(msg.received()),
{
    let f = framed(msg.wire());
    lemma_frame_prefix(msg.wire(), f.len());
    assert(f.take(f.len() as int) =~= f);
    msg.lemma_read_wire(seq![]);
    assert(msg.wire() + Seq::<u8>::empty() =~= msg.wire());
}

/// Every greeting and every request fits into a frame.
pub proof fn lemma_messages_fit(hello: Hello, req: ConnReq)
    ensures
        hello.wire().len() <= MAX_FRAME,
        req.wire().len() <= MAX_FRAME,
{
}

/// What a reader does next.
#[derive(Debug, PartialEq, Eq)]
pub enum Progress<T> {
    /// Read at most this many bytes more.
    Need(usize),
    /// Done.
    Ready(T),
}

/// The frame that carries a message.
pub fn write_frame<T: Message>(msg: &T) -> (r: Result<Vec<u8>, Error>)
    ensures
        r is Ok <==> msg.wire().len() <= u32::MAX,
        r matches Ok(v) ==> v@ == framed(msg.wire()),
        r matches Err(e) ==> e.is_protocol("frame too large"@),
{
    let mut data: Vec<u8> = msg.encode();
    let n: usize = data.len();
    if n > u32::MAX as usize {
        return Err(Error::protocol("frame too large"));
    }
    let mut r: Vec<u8> = vec![
        (n / 0x100_0000) as u8,
        (n / 0x1_0000 % 256) as u8,
        (n / 256 % 256) as u8,
        (n % 256) as u8,
    ];
    assert(r@ =~= length_prefix(n as nat));
    r.append(&mut data);
    Ok(r)
}

/// Reads the frame of a message from the bytes that have been received so far. `ended` says that
/// no more will come.
pub fn read_frame<T: Message>(received: &[u8], ended: bool) -> (r: Result<Progress<T>, Error>)
    ensures
        match frame_state(received@) {
            FrameState::Need(n) => if ended {
                r matches Err(e) && e.is_protocol("unexpected EOF while reading frame"@)
            } else {
                r matches Ok(Progress::Need(m)) && m == n
            },
            FrameState::TooLarge(n) => r matches Err(e) && e.is_protocol(
                "frame too large: "@ + text::decimal(n),
            ),
            FrameState::Full(data) => match T::read(data) {
                Ok(msg) => r == Ok::<Progress<T>, Error>(Progress::Ready(msg)),
                Err(e) => r == Err::<Progress<T>, Error>(Error::Decode(e)),
            },
        },
{
    if received.len() < 4 {
        if ended {
            return Err(Error::protocol("unexpected EOF while reading frame"));
        }
        return Ok(Progress::Need(4 - received.len()));
    }
    let n: u64 = 0x100_0000 * (received[0] as u64) + 0x1_0000 * (received[1] as u64) + 256 * (
    received[2] as u64) + (received[3] as u64);
    if n > MAX_FRAME as u64 {
        return Err(
            Error::Protocol(
                String::from_str("frame too large: ").concat(decimal_text(n).as_str()),
            ),
        );
    }
    let total: usize = 4 + n as usize;
    if received.len() < total {
        if ended {
            return Err(Error::protocol("unexpected EOF while reading frame"));
        }
        return Ok(Progress::Need(total - received.len()));
    }
    match T::decode(slice_subrange(received, 4, total)) {
        Ok(msg) => Ok(Progress::Ready(msg)),
        Err(e) => Err(Error::Decode(e)),
    }
}

/// A frame is four bytes with the length of the data, the highest first, and then the data.
pub proof fn lemma_frame_layout(data: Seq<u8>)
    requires
        data.len() <= MAX_FRAME,
    ensures
        framed(data).len() == 4 + data.len(),
        data.len() == 0x100_0000 * framed(data)[0] + 0x1_0000 * framed(data)[1] + 256 * framed(
            data,
        )[2] + framed(data)[3],
        framed(data).skip(4) == data,
{
    let f = framed(data);
    let n = data.len();
    assert(f[0] == (n / 0x100_0000) as u8 && f[1] == (n / 0x1_0000 % 256) as u8 && f[2] == (n / 256
        % 256) as u8 && f[3] == (n % 256) as u8);
    assert(f.skip(4) =~= data);
}

/// A frame that announces more than a mebibyte is refused as soon as its length has come, and no
/// other frame is.
pub proof fn lemma_oversized_frame_is_refused(b: Seq<u8>)
    requires
        b.len() >= 4,
    ensures
        ({
            let n = 0x100_0000 * b[0] + 0x1_0000 * b[1] + 256 * b[2] + b[3];
            if n > 1024 * 1024 {
                frame_state(b) == FrameState::TooLarge(n as nat)
            } else {
                frame_state(b) !is TooLarge
            }
        }),
{
}

/// An address is written as its family, zero or one, then its octets, the highest first, and then
/// its port.
pub proof fn lemma_addr_layout(a: SocketAddr)
    ensures
        match a {
            SocketAddr::V4 { ip, port } => {
                &&& addr_wire(a)[0] == 0
                &&& ip == 0x100_0000 * addr_wire(a)[1] + 0x1_0000 * addr_wire(a)[2] + 256
                    * addr_wire(a)[3] + addr_wire(a)[4]
                &&& addr_wire(a).skip(5) == wire::varint(port as u32)
            },
            SocketAddr::V6 { ip, port, flowinfo, scope_id } => {
                &&& addr_wire(a)[0] == 1
                &&& addr_wire(a).subrange(1, 17) == addr::v6_octets(ip)
                &&& addr_wire(a).skip(17) == wire::varint(port as u32)
            },
        },
{
    match a {
        SocketAddr::V4 { ip, port } => {
            addr::lemma_v4_octets_are_digits(ip);
            assert(addr_wire(a).skip(5) =~= wire::varint(port as u32));
        },
        SocketAddr::V6 { ip, port, flowinfo, scope_id } => {
            assert(addr_wire(a).subrange(1, 17) =~= addr::v6_octets(ip));
            assert(addr_wire(a).skip(17) =~= wire::varint(port as u32));
        },
    }
}

/// A greeting is written as its version and then its capabilities, a request as its address.
pub proof fn lemma_message_layout(hello: Hello, req: ConnReq)
    ensures
        hello.wire() == wire::varint(hello.version as u32) + wire::varint(hello.capabilities),
        req.wire() == addr_wire(req.client_local_addr),
{
}

/// A greeting that was written is read back, from its frame, as it was.
pub proof fn lemma_written_greeting_is_read(
    hello: Hello,
    w: Result<Vec<u8>, Error>,
    received: &[u8],
    ended: bool,
    r: Result<Progress<Hello>, Error>,
)
    requires
        call_ensures(write_frame::<Hello>, (&hello,), w),
        w matches Ok(v) ==> received@ == v@,
        call_ensures(read_frame::<Hello>, (received, ended), r),
    ensures
        w is Ok,
        r == Ok::<Progress<Hello>, Error>(Progress::Ready(hello)),
{
    lemma_messages_fit(
        hello,
        ConnReq { client_local_addr: SocketAddr::V4 { ip: 0, port: 0 } },
    );
    lemma_message_roundtrip(hello);
}

/// An address that is cut short before its port is missed by as many bytes as are missing up to
/// there.
pub proof fn lemma_addr_cut_short(a: SocketAddr, k: int)
    requires
        0 < k < if a is V4 {
            5int
        } else {
            17
        },
    ensures
        addr_read(addr_wire(a).take(k)) == Err::<SocketAddr, DecodeError>(
            DecodeError::UnexpectedEnd {
                additional: (if a is V4 {
                    5 - k
                } else {
                    17 - k
                }) as usize,
            },
        ),
{
    let b = addr_wire(a).take(k);
    assert(b.skip(1).len() == k - 1);
}

/// There are two families of addresses; any other number in their place is refused.
pub proof fn lemma_other_families_are_refused(b: Seq<u8>)
    requires
        b.len() > 0,
        2 <= b[0] <= 250,
    ensures
        addr_read(b) == Err::<SocketAddr, DecodeError>(
            DecodeError::UnexpectedVariant { of: VariantType::SocketAddr, variant: b[0] as u32 },
        ),
{
}

} // verus!
