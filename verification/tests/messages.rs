use lantun::addr::SocketAddr;
use lantun::engine::common::{receive_packet, send_packet, Client2HostControlMsg, ReceivePacketError};
use lantun::error::Error;
use lantun::protocol::{
    read_frame, write_frame, ConnReq, Hello, Progress, ALPN, IDLE_TIMEOUT_SECS, MAX_FRAME,
    PROTOCOL_VERSION,
};
use lantun::wire::{DecodeError, IntegerType, Message, VariantType};

fn v4(ip: u32, port: u16) -> SocketAddr {
    SocketAddr::V4 { ip, port }
}

#[test]
fn constants() {
    assert_eq!(ALPN.as_bytes(), b"lan-tun/0.2.0");
    assert_eq!(PROTOCOL_VERSION, 2);
    assert_eq!(IDLE_TIMEOUT_SECS, 120);
    assert_eq!(MAX_FRAME, 1 << 20);
    assert_eq!(lantun::engine::ALPN.as_bytes(), b"lan-tun/0.1.0");
}

#[test]
fn hello_is_read_back() {
    for version in [0u16, 2, 250, 251, 255, 256, 65535] {
        for capabilities in [0u32, 250, 251, 65535, 65536, u32::MAX] {
            let hello = Hello { version, capabilities };
            let bytes = hello.encode();
            assert_eq!(Hello::decode(&bytes), Ok(hello));
            let tuple = bincode::encode_to_vec((version, capabilities), bincode::config::standard());
            assert_eq!(bytes, tuple.unwrap());
        }
    }
}

#[test]
fn hello_on_the_wire() {
    let hello = Hello { version: 251, capabilities: 65536 };
    assert_eq!(hello.encode(), vec![251, 251, 0, 252, 0, 0, 1, 0]);
    assert_eq!(write_frame(&Hello { version: 2, capabilities: 0 }), Ok(vec![0, 0, 0, 2, 2, 0]));
}

#[test]
fn malformed_hello() {
    let end = |additional| Err(DecodeError::UnexpectedEnd { additional });
    let width = |expected, found| Err(DecodeError::InvalidIntegerType { expected, found });
    assert_eq!(Hello::decode(&[]), end(1));
    assert_eq!(Hello::decode(&[2]), end(1));
    assert_eq!(Hello::decode(&[251]), end(2));
    assert_eq!(Hello::decode(&[251, 1]), end(1));
    assert_eq!(Hello::decode(&[2, 252, 1]), end(3));
    assert_eq!(
        Hello::decode(&[252, 1, 0, 0, 0, 0]),
        width(IntegerType::U16, IntegerType::U32)
    );
    assert_eq!(Hello::decode(&[253]), width(IntegerType::U16, IntegerType::U64));
    assert_eq!(
        Hello::decode(&[2, 253, 0, 0, 0, 0, 0, 0, 0, 0]),
        width(IntegerType::U32, IntegerType::U64)
    );
    assert_eq!(Hello::decode(&[2, 254]), width(IntegerType::U32, IntegerType::U128));
    assert_eq!(Hello::decode(&[2, 255]), width(IntegerType::U32, IntegerType::Reserved));
    assert_eq!(Hello::decode(&[2, 0, 9, 9]), Ok(Hello { version: 2, capabilities: 0 }));
    assert_eq!(Hello::decode(&[251, 2, 0, 251, 5, 0]), Ok(Hello { version: 2, capabilities: 5 }));
}

#[test]
fn addresses_travel() {
    let req = ConnReq { client_local_addr: v4(0x7f000001, 8080) };
    assert_eq!(req.encode(), vec![0, 127, 0, 0, 1, 251, 0x90, 0x1f]);
    assert_eq!(ConnReq::decode(&req.encode()), Ok(req));
    let far = SocketAddr::V6 { ip: 0x2001_0db8_0000_0000_0000_0000_0000_0001, port: 80, flowinfo: 9, scope_id: 4 };
    let near = SocketAddr::V6 { ip: 0x2001_0db8_0000_0000_0000_0000_0000_0001, port: 80, flowinfo: 0, scope_id: 0 };
    let req = ConnReq { client_local_addr: far };
    let bytes = req.encode();
    assert_eq!(bytes.len(), 18);
    assert_eq!(bytes[0..5], [1, 0x20, 0x01, 0x0d, 0xb8]);
    assert_eq!(ConnReq::decode(&bytes), Ok(ConnReq { client_local_addr: near }));
}

#[test]
fn malformed_address() {
    let end = |additional| Err(DecodeError::UnexpectedEnd { additional });
    assert_eq!(
        ConnReq::decode(&[2, 1, 1]),
        Err(DecodeError::UnexpectedVariant { of: VariantType::SocketAddr, variant: 2 })
    );
    assert_eq!(ConnReq::decode(&[0, 1, 1, 1]), end(1));
    assert_eq!(ConnReq::decode(&[0, 1, 1, 1, 1]), end(1));
    assert_eq!(ConnReq::decode(&[1, 1, 1, 1, 1, 80]), end(11));
}

#[test]
fn frames_arrive_in_any_pieces() {
    let req = ConnReq { client_local_addr: v4(0x0a000001, 1) };
    let frame = write_frame(&req).unwrap();
    for k in 0..frame.len() {
        match read_frame::<ConnReq>(&frame[..k], false) {
            Ok(Progress::Need(n)) => {
                assert!(n > 0);
                assert!(k + n <= frame.len());
            }
            other => panic!("incomplete frame gave {:?}", other),
        }
        assert_eq!(
            read_frame::<ConnReq>(&frame[..k], true),
            Err(Error::Protocol("unexpected EOF while reading frame".to_string()))
        );
    }
    assert_eq!(read_frame::<ConnReq>(&frame, false), Ok(Progress::Ready(req)));
    assert_eq!(read_frame::<ConnReq>(&frame, true), Ok(Progress::Ready(req)));
}

#[test]
fn large_frames_are_refused() {
    assert_eq!(
        read_frame::<Hello>(&[0, 0x10, 0, 1], false),
        Err(Error::Protocol("frame too large: 1048577".to_string()))
    );
    assert_eq!(read_frame::<Hello>(&[0, 0x10, 0, 0], false), Ok(Progress::Need(1 << 20)));
    assert_eq!(
        read_frame::<Hello>(&[255, 255, 255, 255], false),
        Err(Error::Protocol("frame too large: 4294967295".to_string()))
    );
}

#[test]
fn a_frame_that_is_no_message() {
    assert_eq!(
        read_frame::<Hello>(&[0, 0, 0, 0], false),
        Err(Error::Decode(DecodeError::UnexpectedEnd { additional: 1 }))
    );
    assert_eq!(
        read_frame::<Hello>(&[0, 0, 0, 1, 255], false),
        Err(Error::Decode(DecodeError::InvalidIntegerType {
            expected: IntegerType::U16,
            found: IntegerType::Reserved
        }))
    );
}

#[test]
fn packets_are_received() {
    let msg = Client2HostControlMsg::ConnReq { local_addr: v4(0x7f000001, 5) };
    let bytes = send_packet(&msg);
    assert_eq!(bytes, vec![0, 0, 127, 0, 0, 1, 5]);
    assert_eq!(receive_packet(&bytes), Ok(msg));
    assert_eq!(
        receive_packet::<Client2HostControlMsg>(&[1]),
        Err(ReceivePacketError::Decode(DecodeError::UnexpectedVariant {
            of: VariantType::Client2HostControlMsg,
            variant: 1
        }))
    );
    assert_eq!(
        receive_packet::<Client2HostControlMsg>(&[]).unwrap_err().to_text(),
        "decode error: UnexpectedEnd { additional: 1 }"
    );
}

#[test]
fn errors_in_words() {
    assert_eq!(Error::Protocol("x".to_string()).to_text(), "protocol: x");
    assert_eq!(
        Error::VersionMismatch { ours: 2, peer: 3 }.to_text(),
        "version mismatch: peer speaks 3, we speak 2"
    );
    assert_eq!(Error::Connect("a".to_string()).to_text(), "iroh connect: a");
    assert_eq!(Error::Endpoint("a".to_string()).to_text(), "iroh endpoint: a");
    assert_eq!(Error::Connection("a".to_string()).to_text(), "connection: a");
    assert_eq!(Error::Read("a".to_string()).to_text(), "stream read: a");
    assert_eq!(Error::Write("a".to_string()).to_text(), "stream write: a");
    assert_eq!(Error::ReadToEnd("a".to_string()).to_text(), "stream reset: a");
    assert_eq!(Error::Encode("a".to_string()).to_text(), "bincode encode: a");
    assert_eq!(
        Error::Decode(DecodeError::UnexpectedVariant {
            of: VariantType::Client2HostControlMsg,
            variant: 7
        })
        .to_text(),
        "bincode decode: UnexpectedVariant { type_name: \"Client2HostControlMsg\", allowed: Range { min: 0, max: 0 }, found: 7 }"
    );
    assert_eq!(Error::AlreadyRunning.to_text(), "tunnel already running");
    assert_eq!(Error::NotRunning.to_text(), "tunnel not running");
    assert_eq!(Error::InvalidSecret.to_text(), "invalid secret: expected 32 bytes");
    assert_eq!(Error::Shutdown.to_text(), "shutting down");
}

#[test]
fn decode_errors_are_worded_as_bincode_words_them() {
    for bytes in [&[][..], &[251], &[251, 9], &[252, 1, 2, 3, 4], &[253], &[254], &[255]] {
        let theirs = bincode::decode_from_slice::<u16, _>(bytes, bincode::config::standard());
        assert_eq!(Hello::decode(bytes).unwrap_err().to_text(), theirs.unwrap_err().to_string());
    }
    for bytes in [&[][..], &[251, 9], &[252], &[252, 1, 2], &[253], &[254], &[255]] {
        let theirs = bincode::decode_from_slice::<u32, _>(bytes, bincode::config::standard());
        assert_eq!(ConnReq::decode(bytes).unwrap_err().to_text(), theirs.unwrap_err().to_string());
    }
    assert_eq!(
        ConnReq::decode(&[9]).unwrap_err().to_text(),
        "UnexpectedVariant { type_name: \"core::net::socket_addr::SocketAddr\", allowed: Range { min: 0, max: 1 }, found: 9 }"
    );
}
