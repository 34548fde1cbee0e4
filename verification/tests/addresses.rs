use lantun::addr::{any_addr, SocketAddr};
use lantun::text::{decimal_text, numeral_text, str_eq, str_le};

fn v6(ip: u128, port: u16) -> SocketAddr {
    SocketAddr::V6 { ip, port, flowinfo: 0, scope_id: 0 }
}

#[test]
fn ipv4_text() {
    let a = SocketAddr::V4 { ip: 0x7f000001, port: 25565 };
    assert_eq!(a.to_text(), "127.0.0.1:25565");
    assert!(a.is_ipv4());
    assert_eq!(any_addr(true).to_text(), "0.0.0.0:0");
}

#[test]
fn ipv6_text() {
    assert_eq!(any_addr(false).to_text(), "[::]:0");
    assert_eq!(v6(1, 80).to_text(), "[::1]:80");
    assert_eq!(v6(0x2001_0db8_0000_0000_0000_0000_0000_0001, 443).to_text(), "[2001:db8::1]:443");
    assert_eq!(v6(0x2001_0db8_0000_0001_0001_0001_0001_0001, 1).to_text(), "[2001:db8:0:1:1:1:1:1]:1");
    assert_eq!(v6(0x0001_0000_0000_0002_0000_0000_0000_0003, 1).to_text(), "[1:0:0:2::3]:1");
    assert_eq!(v6(0x0001_0000_0000_0002_0003_0000_0000_0004, 1).to_text(), "[1::2:3:0:0:4]:1");
    assert_eq!(v6(0xfe80_0000_0000_0000_0000_0000_0000_0000, 9).to_text(), "[fe80::]:9");
    assert_eq!(v6(0x0000_0000_0000_0000_0000_ffff_0a00_0001, 7).to_text(), "[::ffff:10.0.0.1]:7");
    assert_eq!(v6(0x0000_0000_0000_0000_0000_0000_0a00_0001, 7).to_text(), "[::a00:1]:7");
    assert!(!v6(1, 80).is_ipv4());
}

#[test]
fn ipv6_scope() {
    let a = SocketAddr::V6 { ip: 1, port: 80, flowinfo: 5, scope_id: 3 };
    assert_eq!(a.to_text(), "[::1%3]:80");
}

#[test]
fn numbers_in_words() {
    assert_eq!(decimal_text(0), "0");
    assert_eq!(decimal_text(1048577), "1048577");
    assert_eq!(decimal_text(u64::MAX), "18446744073709551615");
    assert_eq!(numeral_text(0xfe80, 16), "fe80");
}

#[test]
fn text_order_is_by_bytes() {
    assert!(str_eq("abc", "abc"));
    assert!(!str_eq("abc", "abd"));
    assert!(!str_eq("abc", "ab"));
    assert!(str_le("B", "a"));
    assert!(str_le("a", "ab"));
    assert!(!str_le("é", "z"));
}
