//! Integers on the wire, and messages made of them.

use bincode::error::DecodeError as Failure;
use bincode::error::IntegerType as Mark;
use vstd::prelude::*;

use crate::text;
use crate::text::decimal_text;

verus! {

/// How wide an integer is marked as.
#[derive(Debug, Clone, Copy, PartialEq, Eq, Structural)]
pub enum IntegerType {
    U16,
    U32,
    U64,
    U128,
    /// A mark that stands for no width.
    Reserved,
}

impl IntegerType {
    /// The name of the width.
    pub open spec fn display(self) -> Seq<char> {
        match self {
            IntegerType::U16 => "U16"@,
            IntegerType::U32 => "U32"@,
            IntegerType::U64 => "U64"@,
            IntegerType::U128 => "U128"@,
            IntegerType::Reserved => "Reserved"@,
        }
    }

    /// The name of the width.
    pub fn to_text(&self) -> (r: &'static str)
        ensures
            r@ == self.display(),
    {
        match self {
            IntegerType::U16 => "U16",
            IntegerType::U32 => "U32",
            IntegerType::U64 => "U64",
            IntegerType::U128 => "U128",
            IntegerType::Reserved => "Reserved",
        }
    }
}

/// A type whose variants are numbered on the wire.
#[derive(Debug, Clone, Copy, PartialEq, Eq, Structural)]
pub enum VariantType {
    SocketAddr,
    Client2HostControlMsg,
}

impl VariantType {
    /// The name of the type, and the number of its last variant.
    pub open spec fn display(self) -> (Seq<char>, Seq<char>) {
        match self {
            VariantType::SocketAddr => ("core::net::socket_addr::SocketAddr"@, "1"@),
            VariantType::Client2HostControlMsg => ("Client2HostControlMsg"@, "0"@),
        }
    }

    /// The name of the type, and the number of its last variant.
    pub fn to_text(&self) -> (r: (&'static str, &'static str))
        ensures
            (r.0@, r.1@) == self.display(),
    {
        match self {
            VariantType::SocketAddr => ("core::net::socket_addr::SocketAddr", "1"),
            VariantType::Client2HostControlMsg => ("Client2HostControlMsg", "0"),
        }
    }
}

/// Why bytes are not a message.
#[derive(Debug, PartialEq, Eq)]
pub enum DecodeError {
    /// The bytes end before what is being read does, by so many.
    UnexpectedEnd { additional: usize },
    /// An integer is marked as wider than the field that it stands in.
    InvalidIntegerType { expected: IntegerType, found: IntegerType },
    /// The type has no variant with this number.
    UnexpectedVariant { of: VariantType, variant: u32 },
    /// Any other failure, in words.
    Other(String),
}

impl DecodeError {
    /// What is wrong, in words.
    pub open spec fn display(self) -> Seq<char> {
        match self {
            DecodeError::UnexpectedEnd { additional } => "UnexpectedEnd { additional: "@
                + text::decimal(additional as nat) + " }"@,
            DecodeError::InvalidIntegerType { expected, found } =>
                "InvalidIntegerType { expected: "@ + expected.display() + ", found: "@
                + found.display() + " }"@,
            DecodeError::UnexpectedVariant { of, variant } => "UnexpectedVariant { type_name: \""@
                + of.display().0 + "\", allowed: Range { min: 0, max: "@ + of.display().1
                + " }, found: "@ + text::decimal(variant as nat) + " }"@,
            DecodeError::Other(words) => words@,
        }
    }

    /// What is wrong, in words.
    pub fn to_text(&self) -> (r: String)
        ensures
            r@ == self.display(),
    {
        match self {
            DecodeError::UnexpectedEnd { additional } => String::from_str(
                "UnexpectedEnd { additional: ",
            ).concat(decimal_text(*additional as u64).as_str()).concat(" }"),
            DecodeError::InvalidIntegerType { expected, found } => String::from_str(
                "InvalidIntegerType { expected: ",
            ).concat(expected.to_text()).concat(", found: ").concat(found.to_text()).concat(" }"),
            DecodeError::UnexpectedVariant { of, variant } => String::from_str(
                "UnexpectedVariant { type_name: \"",
            ).concat(of.to_text().0).concat("\", allowed: Range { min: 0, max: ").concat(
                of.to_text().1,
            ).concat(" }, found: ").concat(decimal_text(*variant as u64).as_str()).concat(" }"),
            DecodeError::Other(words) => words.clone(),
        }
    }
}

/// An integer as it is written: one byte where it is small, else a mark for the width and the bytes
/// of the integer, the lowest first.
pub open spec fn varint(v: u32) -> Seq<u8> {
    if v <= 250 {
        seq![v as u8]
    } else if v <= 0xffff {
        seq![251u8, (v % 256) as u8, (v / 256) as u8]
    } else {
        seq![
            252u8,
            (v % 256) as u8,
            (v / 256 % 256) as u8,
            (v / 0x1_0000 % 256) as u8,
            (v / 0x100_0000) as u8,
        ]
    }
}

/// The width that a mark of one byte stands for, where it is none that can be read.
pub open spec fn marked_width(b: u8) -> IntegerType {
    if b == 252 {
        IntegerType::U32
    } else if b == 253 {
        IntegerType::U64
    } else if b == 254 {
        IntegerType::U128
    } else {
        IntegerType::Reserved
    }
}

/// Reads an integer from the front of `b`: its value and the number of bytes it takes. Only a wide
/// field takes the four byte form.
pub open spec fn varint_read(b: Seq<u8>, wide: bool) -> Result<(u32, nat), DecodeError> {
    if b.len() == 0 {
        Err(DecodeError::UnexpectedEnd { additional: 1 })
    } else if b[0] <= 250 {
        Ok((b[0] as u32, 1))
    } else if b[0] == 251 {
        if b.len() < 3 {
            Err(DecodeError::UnexpectedEnd { additional: (3 - b.len()) as usize })
        } else {
            Ok(((b[1] + 256 * b[2]) as u32, 3))
        }
    } else if b[0] == 252 && wide {
        if b.len() < 5 {
            Err(DecodeError::UnexpectedEnd { additional: (5 - b.len()) as usize })
        } else {
            Ok(((b[1] + 256 * b[2] + 0x1_0000 * b[3] + 0x100_0000 * b[4]) as u32, 5))
        }
    } else {
        let expected = if wide {
            IntegerType::U32
        } else {
            IntegerType::U16
        };
        Err(DecodeError::InvalidIntegerType { expected, found: marked_width(b[0]) })
    }
}

/// Reading gives back the integer that was written, whatever follows it.
pub proof fn lemma_varint_roundtrip(v: u32, wide: bool, rest: Seq<u8>)
    requires
        wide || v <= 0xffff,
    ensures
        varint_read(varint(v) + rest, wide) == Ok::<(u32, nat), DecodeError>(
            (v, varint(v).len()),
        ),
        (varint(v) + rest).skip(varint(v).len() as int) == rest,
{
    let b = varint(v) + rest;
    assert(b.skip(varint(v).len() as int) =~= rest);
}

/// `bincode::encode_to_vec` of a `u16` in the standard configuration: never fails, and gives the
/// variable width form.
#[verifier::external_body]
pub(crate) fn encode_u16(v: u16) -> (r: Vec<u8>)
    ensures
        r@ == varint(v as u32),
{
    bincode::encode_to_vec(v, bincode::config::standard()).unwrap()
}

/// `bincode::encode_to_vec` of a `u32` in the standard configuration: never fails, and gives the
/// variable width form.
#[verifier::external_body]
pub(crate) fn encode_u32(v: u32) -> (r: Vec<u8>)
    ensures
        r@ == varint(v),
{
    bincode::encode_to_vec(v, bincode::config::standard()).unwrap()
}

/// Why an integer cannot be read.
#[derive(Debug)]
enum Fault {
    /// So many bytes are missing.
    End(usize),
    /// It is marked as of this width.
    Width(IntegerType),
    /// Anything else, in words.
    Other(String),
}

impl Fault {
    /// The failure to read a field of the width `expected`.
    spec fn explained(self, expected: IntegerType) -> DecodeError {
        match self {
            Fault::End(additional) => DecodeError::UnexpectedEnd { additional },
            Fault::Width(found) => DecodeError::InvalidIntegerType { expected, found },
            Fault::Other(words) => DecodeError::Other(words),
        }
    }

    fn explain(self, expected: IntegerType) -> (r: DecodeError)
        ensures
            r == self.explained(expected),
    {
        match self {
            Fault::End(additional) => DecodeError::UnexpectedEnd { additional },
            Fault::Width(found) => DecodeError::InvalidIntegerType { expected, found },
            Fault::Other(words) => DecodeError::Other(words),
        }
    }
}

/// `bincode::decode_from_slice` of a `u16` in the standard configuration: the integer at the front
/// of the bytes and how many of them it takes; what follows is left alone. A failure says how many
/// bytes are missing, or which other width the integer is marked as.
#[verifier::external_body]
fn read_u16(b: &[u8]) -> (r: Result<(u16, usize), Fault>)
    ensures
        match r {
            Ok((v, n)) => varint_read(b@, false) == Ok::<(u32, nat), DecodeError>(
                (v as u32, n as nat),
            ),
            Err(f) => varint_read(b@, false) == Err::<(u32, nat), DecodeError>(
                f.explained(IntegerType::U16),
            ),
        },
{
    match bincode::decode_from_slice::<u16, _>(b, bincode::config::standard()) {
        Ok((v, n)) => Ok((v, n)),
        Err(Failure::UnexpectedEnd { additional }) => Err(Fault::End(additional)),
        Err(Failure::InvalidIntegerType { found: Mark::U32, .. }) => Err(Fault::Width(IntegerType::U32)),
        Err(Failure::InvalidIntegerType { found: Mark::U64, .. }) => Err(Fault::Width(IntegerType::U64)),
        Err(Failure::InvalidIntegerType { found: Mark::U128, .. }) => Err(Fault::Width(IntegerType::U128)),
        Err(Failure::InvalidIntegerType { found: Mark::Reserved, .. }) => Err(Fault::Width(IntegerType::Reserved)),
        Err(e) => Err(Fault::Other(e.to_string())),
    }
}

/// `bincode::decode_from_slice` of a `u32` in the standard configuration: the integer at the front
/// of the bytes and how many of them it takes; what follows is left alone. A failure says how many
/// bytes are missing, or which other width the integer is marked as.
#[verifier::external_body]
fn read_u32(b: &[u8]) -> (r: Result<(u32, usize), Fault>)
    ensures
        match r {
            Ok((v, n)) => varint_read(b@, true) == Ok::<(u32, nat), DecodeError>(
                (v, n as nat),
            ),
            Err(f) => varint_read(b@, true) == Err::<(u32, nat), DecodeError>(
                f.explained(IntegerType::U32),
            ),
        },
{
    match bincode::decode_from_slice::<u32, _>(b, bincode::config::standard()) {
        Ok((v, n)) => Ok((v, n)),
        Err(Failure::UnexpectedEnd { additional }) => Err(Fault::End(additional)),
        Err(Failure::InvalidIntegerType { found: Mark::U64, .. }) => Err(Fault::Width(IntegerType::U64)),
        Err(Failure::InvalidIntegerType { found: Mark::U128, .. }) => Err(Fault::Width(IntegerType::U128)),
        Err(Failure::InvalidIntegerType { found: Mark::Reserved, .. }) => Err(Fault::Width(IntegerType::Reserved)),
        Err(e) => Err(Fault::Other(e.to_string())),
    }
}

/// The integer at the front of the bytes, for a field of the type `u16`, and how many bytes it takes.
pub(crate) fn decode_u16(b: &[u8]) -> (r: Result<(u16, usize), DecodeError>)
    ensures
        match r {
            Ok((v, n)) => varint_read(b@, false) == Ok::<(u32, nat), DecodeError>(
                (v as u32, n as nat),
            ),
            Err(e) => varint_read(b@, false) == Err::<(u32, nat), DecodeError>(e),
        },
{
    match read_u16(b) {
        Ok(found) => Ok(found),
        Err(fault) => Err(fault.explain(IntegerType::U16)),
    }
}

/// The integer at the front of the bytes, for a field of the type `u32`, and how many bytes it takes.
pub(crate) fn decode_u32(b: &[u8]) -> (r: Result<(u32, usize), DecodeError>)
    ensures
        match r {
            Ok((v, n)) => varint_read(b@, true) == Ok::<(u32, nat), DecodeError>(
                (v, n as nat),
            ),
            Err(e) => varint_read(b@, true) == Err::<(u32, nat), DecodeError>(e),
        },
{
    match read_u32(b) {
        Ok(found) => Ok(found),
        Err(fault) => Err(fault.explain(IntegerType::U32)),
    }
}

/// A message with a form on the wire.
pub trait Message: Sized {
    /// The bytes of the message.
    spec fn wire(&self) -> Seq<u8>;

    /// The message at the front of some bytes.
    spec fn read(b: Seq<u8>) -> Result<Self, DecodeError>;

    /// What reading gives back of a message that was written.
    spec fn received(&self) -> Self;

    /// Reading gives back what was written, whatever follows it.
    proof fn lemma_read_wire(&self, rest: Seq<u8>)
        ensures
            Self::read(self.wire() + rest) == Ok::<Self, DecodeError>(self.received()),
    ;

    /// The bytes of the message.
    fn encode(&self) -> (r: Vec<u8>)
        ensures
            r@ == self.wire(),
    ;

    /// The message at the front of some bytes.
    fn decode(b: &[u8]) -> (r: Result<Self, DecodeError>)
        ensures
            r == Self::read(b@),
    ;
}

/// What is wrong with bytes is told with its numbers: how many are missing, which width was found in
/// place of which, which variant there is none of.
pub proof fn lemma_decode_errors_tell_numbers(
    additional: usize,
    expected: IntegerType,
    found: IntegerType,
    of: VariantType,
    variant: u32,
)
    ensures
        (DecodeError::UnexpectedEnd { additional }).display() == "UnexpectedEnd { additional: "@
            + text::decimal(additional as nat) + " }"@,
        (DecodeError::InvalidIntegerType { expected, found }).display()
            == "InvalidIntegerType { expected: "@ + expected.display() + ", found: "@
            + found.display() + " }"@,
        (" }, found: "@ + text::decimal(variant as nat) + " }"@).is_suffix_of(
            (DecodeError::UnexpectedVariant { of, variant }).display(),
        ),
{
    let tail = " }, found: "@ + text::decimal(variant as nat) + " }"@;
    let head = "UnexpectedVariant { type_name: \""@ + of.display().0
        + "\", allowed: Range { min: 0, max: "@ + of.display().1;
    text::lemma_sum_ends(head, tail);
    assert((DecodeError::UnexpectedVariant { of, variant }).display() =~= head + tail);
}

} // verus!
