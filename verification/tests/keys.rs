use lantun::cli::run::{decode_public_key, decode_secret_key, Cause};
use lantun::key::{array32, gen_secret, parse_hex, HexError, PublicKey, SecretKey};

const SECRET: &str = "9d61b19deffd5a60ba844af492ec2cc44449c5697b326919703bac031cae7f60";
const PUBLIC: &str = "d75a980182b10ab7d54bfed3c964073a0ee172f3daa62325af021a68f707511a";

#[test]
fn public_key_of_a_known_secret() {
    let secret = decode_secret_key(SECRET).unwrap();
    assert_eq!(secret.public().to_text(), PUBLIC);
    assert_eq!(secret.public().to_text().len(), 64);
}

#[test]
fn secret_bytes_are_kept() {
    let secret = SecretKey::from_bytes(&[7u8; 32]);
    assert_eq!(secret.to_bytes(), [7u8; 32]);
}

#[test]
fn public_key_is_read_back() {
    let key = decode_public_key(PUBLIC).unwrap();
    assert_eq!(key.to_text(), PUBLIC);
    let again = PublicKey::from_bytes(key.as_bytes()).unwrap();
    assert_eq!(again.as_bytes(), key.as_bytes());
}

/// No pattern of bytes makes the library panic, whether it is a key or not.
#[test]
fn invalid_public_key_never_panics() {
    for pattern in [[0u8; 32], [0xffu8; 32], [0x01u8; 32]] {
        let _ = PublicKey::from_bytes(&pattern);
    }
}

#[test]
fn some_bytes_are_no_public_key() {
    let mut refused = 0;
    let mut taken = 0;
    for first in 0..=255u8 {
        let mut bytes = [0u8; 32];
        bytes[0] = first;
        let text: String = bytes.iter().map(|b| format!("{:02x}", b)).collect();
        match (PublicKey::from_bytes(&bytes), decode_public_key(&text)) {
            (Ok(k), Ok(d)) => {
                assert_eq!(k.as_bytes(), &bytes);
                assert_eq!(d.as_bytes(), &bytes);
                taken += 1;
            }
            (Err(why), Err(e)) => {
                assert_eq!(e.message, format!("invalid public key: {}", why));
                assert!(e.cause.is_none());
                refused += 1;
            }
            _ => panic!("the two ways to read a key disagree"),
        }
    }
    assert!(refused > 0);
    assert!(taken > 0);
}

#[test]
fn generated_secrets_differ() {
    assert_ne!(gen_secret().to_bytes(), gen_secret().to_bytes());
}

#[test]
fn hex_is_read_in_either_case() {
    assert_eq!(parse_hex("00ff0A"), Ok(vec![0, 255, 10]));
    assert_eq!(parse_hex(""), Ok(vec![]));
}

#[test]
fn hex_errors() {
    assert_eq!(parse_hex("abc"), Err(HexError::OddLength));
    assert_eq!(parse_hex("zzz"), Err(HexError::OddLength));
    assert_eq!(parse_hex("0g"), Err(HexError::InvalidHexCharacter { c: 'g', index: 1 }));
    assert_eq!(parse_hex("00 1"), Err(HexError::InvalidHexCharacter { c: ' ', index: 2 }));
    assert_eq!(parse_hex("é"), Err(HexError::InvalidHexCharacter { c: 'Ã', index: 0 }));
}

#[test]
fn secret_key_errors() {
    let e = decode_secret_key("not_valid_hex").unwrap_err();
    assert_eq!(e.message, "secret_key is not valid hex");
    assert!(matches!(e.cause, Some(Cause::Hex(HexError::OddLength))));
    let e = decode_secret_key("00ff").unwrap_err();
    assert_eq!(e.message, "secret_key must be 32 bytes");
    assert!(e.cause.is_none());
}

#[test]
fn public_key_errors() {
    let e = decode_public_key("xx").unwrap_err();
    assert_eq!(e.message, "public_key is not valid hex");
    assert!(matches!(
        e.cause,
        Some(Cause::Hex(HexError::InvalidHexCharacter { c: 'x', index: 0 }))
    ));
    let e = decode_public_key("00").unwrap_err();
    assert_eq!(e.message, "public_key must be 32 bytes");
}

#[test]
fn arrays_of_thirty_two() {
    assert_eq!(array32(&[3u8; 32]), Some([3u8; 32]));
    assert_eq!(array32(&[3u8; 31]), None);
    assert_eq!(array32(&[3u8; 33]), None);
}
