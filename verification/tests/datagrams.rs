use lantun::addr::SocketAddr;
use lantun::error::Error;
use lantun::forward::udp::{
    bi_udp_client_session, bi_udp_host, read_dgram, write_dgram, UdpAction, UdpEvent, MAX_DGRAM,
};
use lantun::protocol::Progress;

const SOURCE: SocketAddr = SocketAddr::V4 { ip: 0x7f000001, port: 4000 };

#[test]
fn datagram_on_the_stream() {
    assert_eq!(write_dgram(b"hello"), Ok(vec![0, 5, b'h', b'e', b'l', b'l', b'o']));
    assert_eq!(write_dgram(b""), Ok(vec![0, 0]));
    let long = write_dgram(&vec![1u8; MAX_DGRAM]).unwrap();
    assert_eq!(long[0..3], [255, 255, 1]);
    assert_eq!(
        write_dgram(&vec![1u8; MAX_DGRAM + 1]),
        Err(Error::Protocol("dgram too large: 65536".to_string()))
    );
}

#[test]
fn datagrams_arrive_in_any_pieces() {
    let data: Vec<u8> = (0..=255u8).collect();
    let frame = write_dgram(&data).unwrap();
    assert_eq!(read_dgram(&[], false), Ok(Progress::Need(2)));
    assert_eq!(read_dgram(&frame[..1], false), Ok(Progress::Need(1)));
    for k in 2..frame.len() {
        assert_eq!(read_dgram(&frame[..k], false), Ok(Progress::Need(frame.len() - k)));
    }
    assert_eq!(read_dgram(&frame, false), Ok(Progress::Ready(Some(data))));
    assert_eq!(read_dgram(&[0, 0], false), Ok(Progress::Ready(Some(vec![]))));
}

#[test]
fn the_end_of_a_datagram_stream() {
    assert_eq!(read_dgram(&[], true), Ok(Progress::Ready(None)));
    assert_eq!(read_dgram(&[0], true), Err(Error::Protocol("EOF mid-length".to_string())));
    assert_eq!(read_dgram(&[0, 3, 1], true), Err(Error::Protocol("EOF mid-payload".to_string())));
    assert_eq!(read_dgram(&[0, 1, 9], true), Ok(Progress::Ready(Some(vec![9]))));
}

#[test]
fn host_forwards_datagrams() {
    assert_eq!(
        bi_udp_host(UdpEvent::FromLocal(vec![7]), false),
        UdpAction::ToTunnel(vec![0, 1, 7])
    );
    assert_eq!(bi_udp_host(UdpEvent::FromLocal(vec![7]), true), UdpAction::Finish);
    assert_eq!(
        bi_udp_host(UdpEvent::FromTunnel(Ok(Some(vec![1, 2]))), false),
        UdpAction::ToLocal(vec![1, 2], None)
    );
    assert_eq!(bi_udp_host(UdpEvent::FromTunnel(Ok(None)), false), UdpAction::Finish);
    assert_eq!(bi_udp_host(UdpEvent::FromTunnel(Err(Error::Shutdown)), false), UdpAction::Finish);
    assert_eq!(bi_udp_host(UdpEvent::Idle, false), UdpAction::Finish);
    assert_eq!(bi_udp_host(UdpEvent::Cancelled, true), UdpAction::Finish);
    assert_eq!(bi_udp_host(UdpEvent::LocalFailed(Error::NotRunning), false), UdpAction::Finish);
}

#[test]
fn client_answers_the_source() {
    assert_eq!(
        bi_udp_client_session(SOURCE, UdpEvent::FromTunnel(Ok(Some(vec![5]))), false),
        UdpAction::ToLocal(vec![5], Some(SOURCE))
    );
    assert_eq!(
        bi_udp_client_session(SOURCE, UdpEvent::FromLocal(vec![5, 6]), false),
        UdpAction::ToTunnel(vec![0, 2, 5, 6])
    );
    assert_eq!(bi_udp_client_session(SOURCE, UdpEvent::LocalClosed, false), UdpAction::Finish);
}

#[test]
fn a_failed_write_ends_the_session() {
    let failed = || UdpEvent::WriteFailed(Error::Write("gone".to_string()));
    assert_eq!(bi_udp_host(failed(), false), UdpAction::Finish);
    let source = SocketAddr::V4 { ip: 0x7f000001, port: 9 };
    assert_eq!(bi_udp_client_session(source, failed(), false), UdpAction::Finish);
}
