//! Datagrams over a stream.

use vstd::prelude::*;
use vstd::slice::slice_subrange;

use crate::addr::SocketAddr;
use crate::error::Error;
use crate::protocol::Progress;
use crate::text;
use crate::text::decimal_text;

verus! {

/// The longest datagram.
pub const MAX_DGRAM: usize = 65_535;

/// A datagram on the stream: its length in two bytes, the higher first, then its data.
pub open spec fn dgram_framed(data: Seq<u8>) -> Seq<u8> {
    seq![(data.len() / 256) as u8, (data.len() % 256) as u8] + data
}

/// The length that the first bytes of `b` announce.
pub open spec fn dgram_length(b: Seq<u8>) -> nat {
    (256 * b[0] + b[1]) as nat
}

/// How many bytes of the datagram at the front of the stream are missing when these have come; none
/// when it is complete.
pub open spec fn dgram_missing(b: Seq<u8>) -> nat {
    if b.len() < 2 {
        (2 - b.len()) as nat
    } else if b.len() < 2 + dgram_length(b) {
        (2 + dgram_length(b) - b.len()) as nat
    } else {
        0
    }
}

/// The data of the datagram at the front of the stream, once it is complete.
pub open spec fn dgram_data(b: Seq<u8>) -> Seq<u8> {
    b.subrange(2, 2 + dgram_length(b) as int)
}

/// However a datagram is cut into pieces on its way, the reader asks for more as long as it is
/// incomplete, never asks for bytes beyond its end, and then has exactly its data.
pub proof fn lemma_dgram_prefix(data: Seq<u8>, k: nat)
    requires
        data.len() <= MAX_DGRAM,
        k <= 2 + data.len(),
    ensures
        dgram_missing(dgram_framed(data).take(k as int)) == if k < 2 {
            (2 - k) as nat
        } else {
            (2 + data.len() - k) as nat
        },
        k == 2 + data.len() ==> dgram_data(dgram_framed(data)) == data,
{
    let b = dgram_framed(data).take(k as int);
    let n = data.len();
    if k >= 2 {
        assert(b[0] == (n / 256) as u8 && b[1] == (n % 256) as u8);
        assert(dgram_length(b) == n);
    }
    if k == 2 + n {
        assert(b =~= dgram_framed(data));
        assert(dgram_data(b) =~= data);
    }
}

/// The stream of several datagrams.
pub open spec fn all_framed(ds: Seq<Seq<u8>>) -> Seq<u8>
    decreases ds.len(),
{
    if ds.len() == 0 {
        seq![]
    } else {
        dgram_framed(ds[0]) + all_framed(ds.skip(1))
    }
}

/// The datagrams that a stream holds.
pub open spec fn split_dgrams(b: Seq<u8>) -> Seq<Seq<u8>>
    decreases b.len(),
{
    if dgram_missing(b) > 0 {
        seq![]
    } else {
        seq![dgram_data(b)] + split_dgrams(b.skip(2 + dgram_length(b) as int))
    }
}

/// Datagrams keep their number, order, boundaries and content on the stream.
pub proof fn lemma_dgram_stream(ds: Seq<Seq<u8>>)
    requires
        forall|i: int| 0 <= i < ds.len() ==> (#[trigger] ds[i]).len() <= MAX_DGRAM,
    ensures
        split_dgrams(all_framed(ds)) == ds,
    decreases ds.len(),
{
    if ds.len() > 0 {
        let b = all_framed(ds);
        let n = ds[0].len();
        let rest = all_framed(ds.skip(1));
        assert(b[0] == (n / 256) as u8 && b[1] == (n % 256) as u8);
        assert(dgram_length(b) == n);
        assert(dgram_data(b) =~= ds[0]);
        assert(b.skip(2 + n as int) =~= rest);
        lemma_dgram_stream(ds.skip(1));
        assert(seq![ds[0]] + ds.skip(1) =~= ds);
    }
}

/// A length-prefixed datagram for the tunnel bi-stream.
pub fn write_dgram(data: &[u8]) -> (r: Result<Vec<u8>, Error>)
    ensures
        r is Ok <==> data@.len() <= MAX_DGRAM,
        r matches Ok(v) ==> v@ == dgram_framed(data@),
        r matches Err(e) ==> e.is_protocol("dgram too large: "@ + text::decimal(data@.len())),
{
    let n: usize = data.len();
    if n > MAX_DGRAM {
        return Err(
            Error::Protocol(
                String::from_str("dgram too large: ").concat(decimal_text(n as u64).as_str()),
            ),
        );
    }
    let mut r: Vec<u8> = vec![(n / 256) as u8, (n % 256) as u8];
    r.extend_from_slice(data);
    assert(r@ =~= dgram_framed(data@));
    Ok(r)
}

/// Reads a length-prefixed datagram from what has been received of the tunnel bi-stream. `ended`
/// says that no more will come. Ready with `None` on clean EOF.
pub fn read_dgram(received: &[u8], ended: bool) -> (r: Result<Progress<Option<Vec<u8>>>, Error>)
    ensures
        if dgram_missing(received@) == 0 {
            r matches Ok(Progress::Ready(Some(v))) && v@ == dgram_data(received@)
        } else if !ended {
            r matches Ok(Progress::Need(n)) && n == dgram_missing(received@)
        } else if received@.len() == 0 {
            r matches Ok(Progress::Ready(None))
        } else if received@.len() < 2 {
            r matches Err(e) && e.is_protocol("EOF mid-length"@)
        } else {
            r matches Err(e) && e.is_protocol("EOF mid-payload"@)
        },
{
    if received.len() < 2 {
        if !ended {
            return Ok(Progress::Need(2 - received.len()));
        }
        if received.len() == 0 {
            return Ok(Progress::Ready(None));
        }
        return Err(Error::protocol("EOF mid-length"));
    }
    let total: usize = 2 + 256 * (received[0] as usize) + (received[1] as usize);
    if received.len() < total {
        if !ended {
            return Ok(Progress::Need(total - received.len()));
        }
        return Err(Error::protocol("EOF mid-payload"));
    }
    let mut v: Vec<u8> = Vec::new();
    v.extend_from_slice(slice_subrange(received, 2, total));
    assert(v@ =~= dgram_data(received@));
    Ok(Progress::Ready(Some(v)))
}

/// What happens to a datagram forwarder.
#[derive(Debug, PartialEq, Eq)]
pub enum UdpEvent {
    /// The tunnel is being shut down.
    Cancelled,
    /// Nothing came from the local side for the idle timeout.
    Idle,
    /// The local side has closed.
    LocalClosed,
    /// The local side failed.
    LocalFailed(Error),
    /// A datagram came from the local side.
    FromLocal(Vec<u8>),
    /// A datagram could not be written, to the tunnel or to the local side.
    WriteFailed(Error),
    /// A datagram, the end or a failure came from the tunnel.
    FromTunnel(Result<Option<Vec<u8>>, Error>),
}

/// What a datagram forwarder does.
#[derive(Debug, PartialEq, Eq)]
pub enum UdpAction {
    /// Stop forwarding, in both directions.
    Finish,
    /// Write these bytes to the tunnel.
    ToTunnel(Vec<u8>),
    /// Send this datagram on the local socket: to the given address, or where the socket is
    /// connected.
    ToLocal(Vec<u8>, Option<SocketAddr>),
}

/// What a forwarder does that answers its local side at `peer`: a datagram of the local side goes
/// into the tunnel with its length, unless the tunnel is being shut down or the datagram is too
/// long; a datagram of the tunnel goes to the local side as it is; anything else ends it.
pub open spec fn udp_forwards(
    peer: Option<SocketAddr>,
    event: UdpEvent,
    cancelled: bool,
    action: UdpAction,
) -> bool {
    match event {
        UdpEvent::FromLocal(data) => if cancelled || data@.len() > MAX_DGRAM {
            action is Finish
        } else {
            action matches UdpAction::ToTunnel(v) && v@ == dgram_framed(data@)
        },
        UdpEvent::FromTunnel(Ok(Some(data))) => action matches UdpAction::ToLocal(v, to) && v@
            == data@ && to == peer,
        _ => action is Finish,
    }
}

fn udp_forward(peer: Option<SocketAddr>, event: UdpEvent, cancelled: bool) -> (r: UdpAction)
    ensures
        udp_forwards(peer, event, cancelled, r),
{
    match event {
        UdpEvent::FromLocal(data) => {
            if cancelled {
                return UdpAction::Finish;
            }
            match write_dgram(data.as_slice()) {
                Ok(v) => UdpAction::ToTunnel(v),
                Err(_) => UdpAction::Finish,
            }
        },
        UdpEvent::FromTunnel(Ok(Some(data))) => UdpAction::ToLocal(data, peer),
        _ => UdpAction::Finish,
    }
}

/// Host-side UDP forwarder. The local socket is already connected to the backend service.
pub fn bi_udp_host(event: UdpEvent, cancelled: bool) -> (r: UdpAction)
    ensures
        udp_forwards(None, event, cancelled, r),
{
    udp_forward(None, event, cancelled)
}

/// Client-side per-source UDP session: answers go back to `source`.
pub fn bi_udp_client_session(source: SocketAddr, event: UdpEvent, cancelled: bool) -> (r: UdpAction)
    ensures
        udp_forwards(Some(source), event, cancelled, r),
{
    udp_forward(Some(source), event, cancelled)
}

/// A datagram that enters the tunnel on one side leaves it unchanged on the other, in either
/// direction: `near` and `far` are whom the two sides answer.
pub proof fn lemma_datagram_transparent(
    near: Option<SocketAddr>,
    far: Option<SocketAddr>,
    data: Vec<u8>,
    sent: UdpAction,
    back: Vec<u8>,
    delivered: UdpAction,
)
    requires
        data@.len() <= MAX_DGRAM,
        udp_forwards(near, UdpEvent::FromLocal(data), false, sent),
        back@ == dgram_data(sent->ToTunnel_0@),
        udp_forwards(far, UdpEvent::FromTunnel(Ok(Some(back))), false, delivered),
    ensures
        sent is ToTunnel,
        dgram_missing(sent->ToTunnel_0@) == 0,
        delivered matches UdpAction::ToLocal(v, to) && v@ == data@ && to == far,
{
    let f = dgram_framed(data@);
    lemma_dgram_prefix(data@, f.len());
    assert(f.take(f.len() as int) =~= f);
}

/// A datagram on the stream is two bytes with its length, the higher first, and then its data.
pub proof fn lemma_dgram_layout(data: Seq<u8>)
    requires
        data.len() <= 65_535,
    ensures
        dgram_framed(data).len() == 2 + data.len(),
        256 * dgram_framed(data)[0] + dgram_framed(data)[1] == data.len(),
        dgram_framed(data).skip(2) == data,
{
    assert(dgram_framed(data)[0] == (data.len() / 256) as u8);
    assert(dgram_framed(data)[1] == (data.len() % 256) as u8);
    assert(dgram_framed(data).skip(2) =~= data);
}

/// A forwarder ends exactly where there is nothing to forward, the tunnel is being shut down before
/// a datagram enters it, or a datagram is longer than any can be; else it forwards the datagram,
/// those of the tunnel to the peer that it answers.
pub proof fn lemma_forwards_or_ends(
    peer: Option<SocketAddr>,
    event: UdpEvent,
    cancelled: bool,
    action: UdpAction,
)
    requires
        udp_forwards(peer, event, cancelled, action),
    ensures
        action is ToTunnel <==> (event matches UdpEvent::FromLocal(data) && !cancelled
            && data@.len() <= 65_535),
        action is ToLocal <==> (event matches UdpEvent::FromTunnel(Ok(Some(data)))),
        action matches UdpAction::ToTunnel(v) ==> (event matches UdpEvent::FromLocal(data) && v@.skip(
            2,
        ) == data@),
        action matches UdpAction::ToLocal(v, to) ==> to == peer && (event matches
            UdpEvent::FromTunnel(Ok(Some(data))) && v@ == data@),
{
    if let UdpEvent::FromLocal(data) = event {
        if !cancelled && data@.len() <= 65_535 {
            lemma_dgram_layout(data@);
        }
    }
}

/// Answers go back to where the traffic came from: on the client to the source of the session, on
/// the host where its socket is connected.
pub proof fn lemma_answers_go_back(
    source: SocketAddr,
    data: Vec<u8>,
    cancelled: bool,
    on_host: UdpAction,
    on_client: UdpAction,
)
    requires
        call_ensures(bi_udp_host, (UdpEvent::FromTunnel(Ok(Some(data))), cancelled), on_host),
        call_ensures(
            bi_udp_client_session,
            (source, UdpEvent::FromTunnel(Ok(Some(data))), cancelled),
            on_client,
        ),
    ensures
        on_host matches UdpAction::ToLocal(v, to) && v@ == data@ && to is None,
        on_client matches UdpAction::ToLocal(v, to) && v@ == data@ && to == Some(source),
{
}

/// A datagram that was written is read back, and one that is too long is not written.
pub proof fn lemma_written_datagram_is_read(
    data: &[u8],
    w: Result<Vec<u8>, Error>,
    received: &[u8],
    ended: bool,
    r: Result<Progress<Option<Vec<u8>>>, Error>,
)
    requires
        call_ensures(write_dgram, (data,), w),
        w matches Ok(v) ==> received@ == v@,
        call_ensures(read_dgram, (received, ended), r),
    ensures
        w is Ok <==> data@.len() <= 65_535,
        w is Ok ==> (r matches Ok(Progress::Ready(Some(v))) && v@ == data@),
{
    if w is Ok {
        let f = dgram_framed(data@);
        lemma_dgram_prefix(data@, f.len());
        assert(f.take(f.len() as int) =~= f);
    }
}

} // verus!
