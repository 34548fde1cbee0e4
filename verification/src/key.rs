//! Keys of tunnel endpoints, and their hexadecimal form.

use vstd::prelude::*;
use vstd::utf8;

use crate::table::Key;
use crate::text;

verus! {

/// Why a text is not hexadecimal.
#[derive(Debug, Clone, Copy, PartialEq, Eq, Structural)]
pub enum HexError {
    /// The byte at `index` is not a hexadecimal digit.
    InvalidHexCharacter { c: char, index: usize },
    /// The text has an odd number of bytes.
    OddLength,
    /// The text does not fill the container it is decoded into.
    InvalidStringLength,
}

/// The value of a hexadecimal digit, in either case.
pub open spec fn hex_value(b: u8) -> Option<u8> {
    if 0x30 <= b <= 0x39 {
        Some((b - 0x30) as u8)
    } else if 0x41 <= b <= 0x46 {
        Some((b - 0x41 + 10) as u8)
    } else if 0x61 <= b <= 0x66 {
        Some((b - 0x61 + 10) as u8)
    } else {
        None
    }
}

/// Two lower case digits per byte.
pub open spec fn hex_text(bytes: Seq<u8>) -> Seq<char> {
    Seq::new(
        2 * bytes.len(),
        |i: int|
            if i % 2 == 0 {
                text::digit_char((bytes[i / 2] / 16) as nat)
            } else {
                text::digit_char((bytes[i / 2] % 16) as nat)
            },
    )
}

/// Whether `index` is the first place in `b` that holds no hexadecimal digit.
pub open spec fn first_non_hex(b: Seq<u8>, index: int) -> bool {
    &&& 0 <= index < b.len()
    &&& hex_value(b[index]) is None
    &&& forall|i: int| 0 <= i < index ==> hex_value(#[trigger] b[i]) is Some
}

/// Whether decoding the bytes `b` of a text gives `r`.
pub open spec fn hex_decodes(b: Seq<u8>, r: Result<Seq<u8>, HexError>) -> bool {
    match r {
        Ok(v) => {
            &&& b.len() == 2 * v.len()
            &&& forall|i: int|
                0 <= i < v.len() ==> {
                    &&& hex_value(b[2 * i]) is Some
                    &&& hex_value(b[2 * i + 1]) is Some
                    &&& #[trigger] v[i] == hex_value(b[2 * i])->0 * 16 + hex_value(b[2 * i + 1])->0
                }
        },
        Err(HexError::OddLength) => b.len() % 2 != 0,
        Err(HexError::InvalidHexCharacter { c, index }) => {
            &&& b.len() % 2 == 0
            &&& first_non_hex(b, index as int)
            &&& c == b[index as int] as char
        },
        Err(HexError::InvalidStringLength) => false,
    }
}

/// Decoding a text has one outcome.
pub proof fn lemma_hex_decodes_unique(
    b: Seq<u8>,
    x: Result<Seq<u8>, HexError>,
    y: Result<Seq<u8>, HexError>,
)
    requires
        hex_decodes(b, x),
        hex_decodes(b, y),
    ensures
        x == y,
{
    match (x, y) {
        (Ok(v), Ok(w)) => {
            assert(v =~= w);
        },
        (Ok(v), Err(HexError::InvalidHexCharacter { c, index })) => {
            lemma_all_hex(b, v, index as int);
        },
        (Err(HexError::InvalidHexCharacter { c, index }), Ok(v)) => {
            lemma_all_hex(b, v, index as int);
        },
        _ => {},
    }
}

proof fn lemma_all_hex(b: Seq<u8>, v: Seq<u8>, i: int)
    requires
        hex_decodes(b, Ok(v)),
        0 <= i < b.len(),
    ensures
        hex_value(b[i]) is Some,
{
    let half = v[i / 2];
    assert(2 * (i / 2) == i || 2 * (i / 2) + 1 == i);
}

/// What a text in hexadecimal stands for.
pub open spec fn hex_result(t: Seq<char>) -> Result<Seq<u8>, HexError> {
    choose|r: Result<Seq<u8>, HexError>| #[trigger] hex_decodes(utf8::encode_utf8(t), r)
}

/// Decoding gives back what was encoded.
pub proof fn lemma_hex_roundtrip(bytes: Seq<u8>)
    ensures
        hex_decodes(utf8::encode_utf8(hex_text(bytes)), Ok(bytes)),
        hex_result(hex_text(bytes)) == Ok::<Seq<u8>, HexError>(bytes),
{
    let t = hex_text(bytes);
    assert forall|i: int| 0 <= i < t.len() implies '\0' <= #[trigger] t[i] <= '\u{7f}' by {
        let n = bytes[i / 2];
        assert(n / 16 < 16 && n % 16 < 16);
    }
    assert(utf8::is_ascii_chars(t));
    utf8::is_ascii_chars_encode_utf8(t);
    let b = utf8::encode_utf8(t);
    assert forall|i: int| 0 <= i < bytes.len() implies {
        &&& hex_value(b[2 * i]) is Some
        &&& hex_value(b[2 * i + 1]) is Some
        &&& #[trigger] bytes[i] == hex_value(b[2 * i])->0 * 16 + hex_value(b[2 * i + 1])->0
    } by {
        let n = bytes[i];
        assert((2 * i) % 2 == 0 && (2 * i) / 2 == i);
        assert((2 * i + 1) % 2 == 1 && (2 * i + 1) / 2 == i);
        assert(n / 16 < 16 && n % 16 < 16);
        assert(t[2 * i] == text::digit_char((n / 16) as nat));
        assert(t[2 * i + 1] == text::digit_char((n % 16) as nat));
        assert(b[2 * i] == t[2 * i] as u8);
        assert(b[2 * i + 1] == t[2 * i + 1] as u8);
        lemma_digit_value(n / 16);
        lemma_digit_value(n % 16);
        assert(n == (n / 16) * 16 + n % 16);
    }
    let whole: Result<Seq<u8>, HexError> = Ok(bytes);
    assert(hex_decodes(b, whole));
    lemma_hex_decodes_unique(b, whole, hex_result(t));
}

proof fn lemma_digit_value(d: u8)
    requires
        d < 16,
    ensures
        hex_value(text::digit_char(d as nat) as u8) == Some(d),
{
}

/// `hex::encode`: each byte becomes two lower case digits, the high half first.
#[verifier::external_body]
pub(crate) fn hex_encode(bytes: &[u8]) -> (r: String)
    ensures
        r@ == hex_text(bytes@),
{
    hex::encode(bytes)
}

/// `hex::decode`: works on the bytes of the text. An odd number of them is refused first, then the
/// first byte that is no digit; else each pair of digits, in either case, becomes one byte.
#[verifier::external_body]
fn hex_decode(s: &str) -> (r: Result<Vec<u8>, HexError>)
    ensures
        hex_decodes(
            utf8::encode_utf8(s@),
            match r {
                Ok(v) => Ok(v@),
                Err(e) => Err(e),
            },
        ),
{
    match hex::decode(s) {
        Ok(v) => Ok(v),
        Err(hex::FromHexError::InvalidHexCharacter { c, index }) => Err(
            HexError::InvalidHexCharacter { c, index },
        ),
        Err(hex::FromHexError::OddLength) => Err(HexError::OddLength),
        Err(hex::FromHexError::InvalidStringLength) => Err(HexError::InvalidStringLength),
    }
}

/// Reads bytes from hexadecimal.
pub fn parse_hex(s: &str) -> (r: Result<Vec<u8>, HexError>)
    ensures
        match r {
            Ok(v) => hex_result(s@) == Ok::<Seq<u8>, HexError>(v@),
            Err(e) => hex_result(s@) == Err::<Seq<u8>, HexError>(e),
        },
{
    match hex_decode(s) {
        Ok(v) => {
            proof {
                lemma_hex_decodes_unique(utf8::encode_utf8(s@), Ok(v@), hex_result(s@));
            }
            Ok(v)
        },
        Err(e) => {
            proof {
                lemma_hex_decodes_unique(utf8::encode_utf8(s@), Err(e), hex_result(s@));
            }
            Err(e)
        },
    }
}

/// The bytes of `v` as an array, where there are 32 of them.
pub fn array32(v: &[u8]) -> (r: Option<[u8; 32]>)
    ensures
        r is Some <==> v@.len() == 32,
        r matches Some(a) ==> a@ == v@,
{
    if v.len() != 32 {
        return None;
    }
    let mut a: [u8; 32] = [0u8; 32];
    let mut i: usize = 0;
    while i < 32
        invariant
            v@.len() == 32,
            i <= 32,
            a@.len() == 32,
            forall|j: int| 0 <= j < i ==> a@[j] == v@[j],
        decreases 32 - i,
    {
        a[i] = v[i];
        i = i + 1;
    }
    assert(a@ =~= v@);
    Some(a)
}

/// What 32 bytes are as a public key: the key, or why they are none.
pub uninterp spec fn public_key_read(bytes: Seq<u8>) -> Result<Seq<u8>, Seq<char>>;

/// Whether 32 bytes are a public key.
pub open spec fn is_public_key(bytes: Seq<u8>) -> bool {
    public_key_read(bytes) is Ok
}

/// The public key that belongs to a secret key.
pub uninterp spec fn public_key_of(secret: Seq<u8>) -> Seq<u8>;

/// `iroh::PublicKey::from_bytes`: whether the bytes are a valid curve point depends on them alone;
/// where they are, the key keeps them as they are, else the error says so in words.
#[verifier::external_body]
fn parse_public_key(bytes: &[u8; 32]) -> (r: Result<[u8; 32], String>)
    ensures
        match r {
            Ok(b) => public_key_read(bytes@) == Ok::<Seq<u8>, Seq<char>>(b@) && b@ == bytes@,
            Err(why) => public_key_read(bytes@) == Err::<Seq<u8>, Seq<char>>(why@),
        },
{
    match iroh::PublicKey::from_bytes(bytes) {
        Ok(k) => Ok(*k.as_bytes()),
        Err(e) => Err(e.to_string()),
    }
}

/// `iroh::SecretKey::public`: the public half of a secret key, which is determined by it and always
/// a valid public key.
#[verifier::external_body]
fn derive_public_key(secret: &[u8; 32]) -> (r: [u8; 32])
    ensures
        r@ == public_key_of(secret@),
        is_public_key(r@),
{
    *iroh::SecretKey::from_bytes(secret).public().as_bytes()
}

/// `rand::RngCore::fill_bytes` of `rand::rngs::OsRng`: fills an array with random bytes, of which
/// nothing can be foretold.
#[verifier::external_body]
fn random_bytes() -> (r: [u8; 32]) {
    let mut bytes = [0u8; 32];
    rand::RngCore::fill_bytes(&mut rand::rngs::OsRng, &mut bytes);
    bytes
}

/// The secret key of a host tunnel: any 32 bytes.
#[derive(Debug, Clone, Copy)]
pub struct SecretKey {
    bytes: [u8; 32],
}

impl View for SecretKey {
    type V = Seq<u8>;

    closed spec fn view(&self) -> Seq<u8> {
        self.bytes@
    }
}

impl SecretKey {
    /// Makes a secret key from its bytes.
    pub fn from_bytes(bytes: &[u8; 32]) -> (r: Self)
        ensures
            r@ == bytes@,
    {
        SecretKey { bytes: *bytes }
    }

    /// The bytes of the key.
    pub fn to_bytes(&self) -> (r: [u8; 32])
        ensures
            r@ == self@,
    {
        self.bytes
    }

    /// A key has 32 bytes.
    pub proof fn lemma_len(self)
        ensures
            self@.len() == 32,
    {
    }

    /// The public key that belongs to this key.
    pub fn public(&self) -> (r: PublicKey)
        ensures
            r@ == public_key_of(self@),
            r.wf(),
    {
        PublicKey { bytes: derive_public_key(&self.bytes) }
    }
}

/// The public key of a host tunnel or of a peer.
#[derive(Debug, Clone, Copy)]
pub struct PublicKey {
    bytes: [u8; 32],
}

impl View for PublicKey {
    type V = Seq<u8>;

    closed spec fn view(&self) -> Seq<u8> {
        self.bytes@
    }
}

impl PublicKey {
    /// The bytes are a valid key.
    pub open spec fn wf(&self) -> bool {
        is_public_key(self@)
    }

    /// Makes a public key from its bytes, where they are one.
    pub fn from_bytes(bytes: &[u8; 32]) -> (r: Result<Self, String>)
        ensures
            match public_key_read(bytes@) {
                Ok(_) => r matches Ok(k) && k@ == bytes@ && k.wf(),
                Err(why) => r matches Err(e) && e@ == why,
            },
    {
        match parse_public_key(bytes) {
            Ok(b) => Ok(PublicKey { bytes: b }),
            Err(why) => Err(why),
        }
    }

    /// The bytes of the key.
    pub fn as_bytes(&self) -> (r: &[u8; 32])
        ensures
            r@ == self@,
    {
        &self.bytes
    }

    /// The key in hexadecimal: 64 digits.
    pub fn to_text(&self) -> (r: String)
        ensures
            r@ == hex_text(self@),
            r@.len() == 64,
    {
        hex_encode(&self.bytes)
    }

    /// A key has 32 bytes.
    pub proof fn lemma_len(self)
        ensures
            self@.len() == 32,
    {
    }

    /// Keys with the same bytes are the same key.
    pub proof fn lemma_same(a: Self, b: Self)
        requires
            a@ == b@,
        ensures
            a == b,
    {
        assert(a.bytes =~= b.bytes);
    }
}

impl Key for PublicKey {
    fn same(&self, other: &Self) -> (r: bool) {
        let mut i: usize = 0;
        while i < 32
            invariant
                i <= 32,
                self.bytes@.len() == 32,
                other.bytes@.len() == 32,
                forall|j: int| 0 <= j < i ==> self.bytes@[j] == other.bytes@[j],
            decreases 32 - i,
        {
            if self.bytes[i] != other.bytes[i] {
                assert(self.bytes@ != other.bytes@);
                return false;
            }
            i = i + 1;
        }
        assert(self.bytes@ =~= other.bytes@);
        proof {
            PublicKey::lemma_same(*self, *other);
        }
        true
    }
}

/// Generate a secret key. Which one is left to chance; `SecretKey::from_bytes` says which key random
/// bytes become.
pub fn gen_secret() -> (r: SecretKey)
    ensures
        r@.len() == 32,
{
    SecretKey::from_bytes(&random_bytes())
}

/// Each byte is written as two digits, the higher first, in lower case.
pub proof fn lemma_hex_text_by_byte(bytes: Seq<u8>, i: int)
    requires
        0 <= i < bytes.len(),
    ensures
        hex_text(bytes).len() == 2 * bytes.len(),
        16 * text::digit_number(hex_text(bytes)[2 * i]) + text::digit_number(
            hex_text(bytes)[2 * i + 1],
        ) == bytes[i],
        '0' <= hex_text(bytes)[2 * i] <= '9' || 'a' <= hex_text(bytes)[2 * i] <= 'f',
        '0' <= hex_text(bytes)[2 * i + 1] <= '9' || 'a' <= hex_text(bytes)[2 * i + 1] <= 'f',
{
    let n = bytes[i];
    assert((2 * i) % 2 == 0 && (2 * i) / 2 == i);
    assert((2 * i + 1) % 2 == 1 && (2 * i + 1) / 2 == i);
    assert(hex_text(bytes)[2 * i] == text::digit_char((n / 16) as nat));
    assert(hex_text(bytes)[2 * i + 1] == text::digit_char((n % 16) as nat));
    assert(n / 16 < 16 && n % 16 < 16 && n == 16 * (n / 16) + n % 16);
}

/// A text with an odd number of bytes is not hexadecimal; of one with an even number, the first byte
/// that is no digit is told.
pub proof fn lemma_bad_hex_is_told(t: Seq<char>, index: usize)
    ensures
        utf8::encode_utf8(t).len() % 2 != 0 ==> hex_result(t) == Err::<Seq<u8>, HexError>(
            HexError::OddLength,
        ),
        utf8::encode_utf8(t).len() % 2 == 0 && first_non_hex(utf8::encode_utf8(t), index as int)
            ==> (hex_result(t) matches Err(HexError::InvalidHexCharacter { c, index: i }) && i
            == index),
{
    let b = utf8::encode_utf8(t);
    if b.len() % 2 != 0 {
        let odd: Result<Seq<u8>, HexError> = Err(HexError::OddLength);
        assert(hex_decodes(b, odd));
        lemma_hex_decodes_unique(b, odd, hex_result(t));
    } else if first_non_hex(b, index as int) {
        let bad: Result<Seq<u8>, HexError> = Err(
            HexError::InvalidHexCharacter { c: b[index as int] as char, index },
        );
        assert(hex_decodes(b, bad));
        lemma_hex_decodes_unique(b, bad, hex_result(t));
    }
}

/// A digit stands for its number, in either case of its letter, and nothing else is a digit.
pub proof fn lemma_hex_digits(b: u8)
    ensures
        '0' as u8 <= b <= '9' as u8 ==> hex_value(b) == Some((b - '0' as u8) as u8),
        'a' as u8 <= b <= 'f' as u8 ==> hex_value(b) == Some((b - 'a' as u8 + 10) as u8),
        'A' as u8 <= b <= 'F' as u8 ==> hex_value(b) == Some((b - 'A' as u8 + 10) as u8),
        hex_value(b) is Some <==> '0' as u8 <= b <= '9' as u8 || 'a' as u8 <= b <= 'f' as u8
            || 'A' as u8 <= b <= 'F' as u8,
{
}

} // verus!
