//! The AMQP type codec for primitive values: a constructor byte followed by
//! the value's bytes, with the compact forms the protocol prefers, and the
//! list and map framing of compound values.
use vstd::prelude::*;
use vstd::string::StringSliceAdditionalSpecFns;
use crate::link::bytes_eq;

verus! {

pub const DESCRIBED_TYPE: u8 = 0x00;
pub const NULL: u8 = 0x40;
pub const BOOLEAN_TRUE: u8 = 0x41;
pub const BOOLEAN_FALSE: u8 = 0x42;
pub const UINT0: u8 = 0x43;
pub const ULONG0: u8 = 0x44;
pub const LIST0: u8 = 0x45;
pub const UBYTE: u8 = 0x50;
pub const BYTE: u8 = 0x51;
pub const SMALL_UINT: u8 = 0x52;
pub const SMALL_ULONG: u8 = 0x53;
pub const SMALL_INT: u8 = 0x54;
pub const SMALL_LONG: u8 = 0x55;
pub const BOOLEAN: u8 = 0x56;
pub const USHORT: u8 = 0x60;
pub const SHORT: u8 = 0x61;
pub const UINT: u8 = 0x70;
pub const INT: u8 = 0x71;
pub const CHAR: u8 = 0x73;
pub const ULONG: u8 = 0x80;
pub const LONG: u8 = 0x81;
pub const TIMESTAMP: u8 = 0x83;
pub const VBIN8: u8 = 0xa0;
pub const STR8: u8 = 0xa1;
pub const SYM8: u8 = 0xa3;
pub const VBIN32: u8 = 0xb0;
pub const STR32: u8 = 0xb1;
pub const SYM32: u8 = 0xb3;
pub const LIST8: u8 = 0xc0;
pub const MAP8: u8 = 0xc1;
pub const LIST32: u8 = 0xd0;
pub const MAP32: u8 = 0xd1;
pub const ARRAY8: u8 = 0xe0;
pub const ARRAY32: u8 = 0xf0;

/// Largest length a 32-bit size field can carry.
pub const U32_MAX_AS_USIZE: usize = 0xffff_ffff;

/// Big-endian bytes of a 16-bit value.
pub open spec fn be16(v: u16) -> Seq<u8> {
    seq![(v >> 8u16) as u8, (v & 0xffu16) as u8]
}

/// Big-endian bytes of a 32-bit value.
pub open spec fn be32(v: u32) -> Seq<u8> {
    seq![
        (v >> 24u32) as u8,
        ((v >> 16u32) & 0xffu32) as u8,
        ((v >> 8u32) & 0xffu32) as u8,
        (v & 0xffu32) as u8,
    ]
}

/// Big-endian bytes of a 64-bit value.
pub open spec fn be64(v: u64) -> Seq<u8> {
    seq![
        (v >> 56u64) as u8,
        ((v >> 48u64) & 0xffu64) as u8,
        ((v >> 40u64) & 0xffu64) as u8,
        ((v >> 32u64) & 0xffu64) as u8,
        ((v >> 24u64) & 0xffu64) as u8,
        ((v >> 16u64) & 0xffu64) as u8,
        ((v >> 8u64) & 0xffu64) as u8,
        (v & 0xffu64) as u8,
    ]
}

/// The 16-bit value of two big-endian bytes.
pub open spec fn from_be16(a: u8, b: u8) -> u16 {
    ((a as u16) << 8u16) | (b as u16)
}

/// The 32-bit value of four big-endian bytes.
pub open spec fn from_be32(a: u8, b: u8, c: u8, d: u8) -> u32 {
    ((a as u32) << 24u32) | ((b as u32) << 16u32) | ((c as u32) << 8u32) | (d as u32)
}

/// The 64-bit value of eight big-endian bytes.
pub open spec fn from_be64(s: Seq<u8>) -> u64 {
    ((from_be32(s[0], s[1], s[2], s[3]) as u64) << 32u64) | (from_be32(s[4], s[5], s[6], s[7]) as u64)
}

pub proof fn lemma_be16(v: u16)
    ensures
        from_be16(be16(v)[0], be16(v)[1]) == v,
{
    assert((((((v >> 8u16) as u8) as u16) << 8u16) | (((v & 0xffu16) as u8) as u16)) == v)
        by (bit_vector);
}

pub proof fn lemma_be32(v: u32)
    ensures
        from_be32(be32(v)[0], be32(v)[1], be32(v)[2], be32(v)[3]) == v,
{
    assert((((((v >> 24u32) as u8) as u32) << 24u32) | (((((v >> 16u32) & 0xffu32) as u8) as u32)
        << 16u32) | (((((v >> 8u32) & 0xffu32) as u8) as u32) << 8u32) | (((v & 0xffu32) as u8)
        as u32)) == v) by (bit_vector);
}

pub proof fn lemma_be64(v: u64)
    ensures
        from_be64(be64(v)) == v,
{
    let hi = (((((v >> 56u64) as u8) as u32) << 24u32) | (((((v >> 48u64) & 0xffu64) as u8) as u32)
        << 16u32) | (((((v >> 40u64) & 0xffu64) as u8) as u32) << 8u32) | ((((v >> 32u64)
        & 0xffu64) as u8) as u32));
    let lo = (((((v >> 24u64) & 0xffu64) as u8) as u32) << 24u32) | (((((v >> 16u64) & 0xffu64)
        as u8) as u32) << 16u32) | (((((v >> 8u64) & 0xffu64) as u8) as u32) << 8u32) | (((v
        & 0xffu64) as u8) as u32);
    assert((((hi as u64) << 32u64) | (lo as u64)) == v) by (bit_vector)
        requires
            hi == (((((v >> 56u64) as u8) as u32) << 24u32) | (((((v >> 48u64) & 0xffu64) as u8)
                as u32) << 16u32) | (((((v >> 40u64) & 0xffu64) as u8) as u32) << 8u32) | ((((v
                >> 32u64) & 0xffu64) as u8) as u32)),
            lo == (((((v >> 24u64) & 0xffu64) as u8) as u32) << 24u32) | (((((v >> 16u64)
                & 0xffu64) as u8) as u32) << 16u32) | (((((v >> 8u64) & 0xffu64) as u8) as u32)
                << 8u32) | (((v & 0xffu64) as u8) as u32),
    ;
}

/// A primitive AMQP value. Strings and symbols are held as their bytes.
#[derive(Debug, Clone)]
pub enum Primitive {
    Null,
    Bool(bool),
    Ubyte(u8),
    Ushort(u16),
    Uint(u32),
    Ulong(u64),
    Byte(i8),
    Short(i16),
    Int(i32),
    Long(i64),
    Char(u32),
    Timestamp(i64),
    Binary(Vec<u8>),
    String(Vec<u8>),
    Symbol(Vec<u8>),
}

/// The mathematical value of a primitive.
pub enum PrimitiveModel {
    Null,
    Bool(bool),
    Ubyte(u8),
    Ushort(u16),
    Uint(u32),
    Ulong(u64),
    Byte(i8),
    Short(i16),
    Int(i32),
    Long(i64),
    Char(u32),
    Timestamp(i64),
    Binary(Seq<u8>),
    String(Seq<u8>),
    Symbol(Seq<u8>),
}

impl View for Primitive {
    type V = PrimitiveModel;

    open spec fn view(&self) -> PrimitiveModel {
        match self {
            Primitive::Null => PrimitiveModel::Null,
            Primitive::Bool(b) => PrimitiveModel::Bool(*b),
            Primitive::Ubyte(v) => PrimitiveModel::Ubyte(*v),
            Primitive::Ushort(v) => PrimitiveModel::Ushort(*v),
            Primitive::Uint(v) => PrimitiveModel::Uint(*v),
            Primitive::Ulong(v) => PrimitiveModel::Ulong(*v),
            Primitive::Byte(v) => PrimitiveModel::Byte(*v),
            Primitive::Short(v) => PrimitiveModel::Short(*v),
            Primitive::Int(v) => PrimitiveModel::Int(*v),
            Primitive::Long(v) => PrimitiveModel::Long(*v),
            Primitive::Char(v) => PrimitiveModel::Char(*v),
            Primitive::Timestamp(v) => PrimitiveModel::Timestamp(*v),
            Primitive::Binary(b) => PrimitiveModel::Binary(b@),
            Primitive::String(b) => PrimitiveModel::String(b@),
            Primitive::Symbol(b) => PrimitiveModel::Symbol(b@),
        }
    }
}

/// A primitive that has an encoding: its bytes fit a 32-bit size.
pub open spec fn encodable(p: PrimitiveModel) -> bool {
    match p {
        PrimitiveModel::Binary(b) => b.len() <= U32_MAX_AS_USIZE,
        PrimitiveModel::String(b) => b.len() <= U32_MAX_AS_USIZE,
        PrimitiveModel::Symbol(b) => b.len() <= U32_MAX_AS_USIZE,
        _ => true,
    }
}

/// A variable-width value: the one-byte size form up to 255 bytes, else
/// the four-byte size form.
pub open spec fn variable_spec(code8: u8, code32: u8, b: Seq<u8>) -> Seq<u8> {
    if b.len() <= 255 {
        seq![code8, b.len() as u8] + b
    } else {
        seq![code32] + be32(b.len() as u32) + b
    }
}

/// The encoding of a primitive, in its most compact form.
pub open spec fn encode_spec(p: PrimitiveModel) -> Seq<u8> {
    match p {
        PrimitiveModel::Null => seq![NULL],
        PrimitiveModel::Bool(b) => if b {
            seq![BOOLEAN_TRUE]
        } else {
            seq![BOOLEAN_FALSE]
        },
        PrimitiveModel::Ubyte(v) => seq![UBYTE, v],
        PrimitiveModel::Ushort(v) => seq![USHORT] + be16(v),
        PrimitiveModel::Uint(v) => if v == 0 {
            seq![UINT0]
        } else if v <= 255 {
            seq![SMALL_UINT, v as u8]
        } else {
            seq![UINT] + be32(v)
        },
        PrimitiveModel::Ulong(v) => if v == 0 {
            seq![ULONG0]
        } else if v <= 255 {
            seq![SMALL_ULONG, v as u8]
        } else {
            seq![ULONG] + be64(v)
        },
        PrimitiveModel::Byte(v) => seq![BYTE, v as u8],
        PrimitiveModel::Short(v) => seq![SHORT] + be16(v as u16),
        PrimitiveModel::Int(v) => if -128 <= v <= 127 {
            seq![SMALL_INT, v as u8]
        } else {
            seq![INT] + be32(v as u32)
        },
        PrimitiveModel::Long(v) => if -128 <= v <= 127 {
            seq![SMALL_LONG, v as u8]
        } else {
            seq![LONG] + be64(v as u64)
        },
        PrimitiveModel::Char(c) => seq![CHAR] + be32(c),
        PrimitiveModel::Timestamp(t) => seq![TIMESTAMP] + be64(t as u64),
        PrimitiveModel::Binary(b) => variable_spec(VBIN8, VBIN32, b),
        PrimitiveModel::String(b) => variable_spec(STR8, STR32, b),
        PrimitiveModel::Symbol(b) => variable_spec(SYM8, SYM32, b),
    }
}

/// Why bytes did not decode.
#[derive(Clone, Copy, Debug, PartialEq, Eq, Structural)]
pub enum DecodeError {
    /// The bytes end before the value does: more input is needed.
    NeedMore,
    /// The constructor byte names no primitive this decoder reads.
    InvalidFormatCode(u8),
    /// A boolean byte other than 0 or 1.
    InvalidValue,
    /// A described value whose descriptor names nothing expected here.
    UnknownDescriptor,
    /// A map holds the same key twice.
    DuplicateKey,
}

/// A variable-width value read from bytes `s` whose constructor has already
/// been seen: `w` is the width of its size field.
pub open spec fn decode_variable(s: Seq<u8>, w: nat) -> Result<(Seq<u8>, nat), DecodeError> {
    if s.len() < 1 + w {
        Err(DecodeError::NeedMore)
    } else {
        let n: nat = if w == 1 {
            s[1] as nat
        } else {
            from_be32(s[1], s[2], s[3], s[4]) as nat
        };
        if s.len() < 1 + w + n {
            Err(DecodeError::NeedMore)
        } else {
            Ok((s.subrange((1 + w) as int, (1 + w + n) as int), 1 + w + n))
        }
    }
}

/// What the bytes `s` decode to: a primitive and how many bytes it took.
pub open spec fn decode_spec(s: Seq<u8>) -> Result<(PrimitiveModel, nat), DecodeError> {
    if s.len() == 0 {
        Err(DecodeError::NeedMore)
    } else {
        let c = s[0];
        if c == NULL {
            Ok((PrimitiveModel::Null, 1))
        } else if c == BOOLEAN_TRUE {
            Ok((PrimitiveModel::Bool(true), 1))
        } else if c == BOOLEAN_FALSE {
            Ok((PrimitiveModel::Bool(false), 1))
        } else if c == UINT0 {
            Ok((PrimitiveModel::Uint(0), 1))
        } else if c == ULONG0 {
            Ok((PrimitiveModel::Ulong(0), 1))
        } else if c == BOOLEAN || c == UBYTE || c == BYTE || c == SMALL_UINT || c == SMALL_ULONG
            || c == SMALL_INT || c == SMALL_LONG {
            if s.len() < 2 {
                Err(DecodeError::NeedMore)
            } else if c == BOOLEAN {
                if s[1] == 1 {
                    Ok((PrimitiveModel::Bool(true), 2))
                } else if s[1] == 0 {
                    Ok((PrimitiveModel::Bool(false), 2))
                } else {
                    Err(DecodeError::InvalidValue)
                }
            } else if c == UBYTE {
                Ok((PrimitiveModel::Ubyte(s[1]), 2))
            } else if c == BYTE {
                Ok((PrimitiveModel::Byte(s[1] as i8), 2))
            } else if c == SMALL_UINT {
                Ok((PrimitiveModel::Uint(s[1] as u32), 2))
            } else if c == SMALL_ULONG {
                Ok((PrimitiveModel::Ulong(s[1] as u64), 2))
            } else if c == SMALL_INT {
                Ok((PrimitiveModel::Int((s[1] as i8) as i32), 2))
            } else {
                Ok((PrimitiveModel::Long((s[1] as i8) as i64), 2))
            }
        } else if c == USHORT || c == SHORT {
            if s.len() < 3 {
                Err(DecodeError::NeedMore)
            } else if c == USHORT {
                Ok((PrimitiveModel::Ushort(from_be16(s[1], s[2])), 3))
            } else {
                Ok((PrimitiveModel::Short(from_be16(s[1], s[2]) as i16), 3))
            }
        } else if c == UINT || c == INT || c == CHAR {
            if s.len() < 5 {
                Err(DecodeError::NeedMore)
            } else if c == UINT {
                Ok((PrimitiveModel::Uint(from_be32(s[1], s[2], s[3], s[4])), 5))
            } else if c == INT {
                Ok((PrimitiveModel::Int(from_be32(s[1], s[2], s[3], s[4]) as i32), 5))
            } else {
                Ok((PrimitiveModel::Char(from_be32(s[1], s[2], s[3], s[4])), 5))
            }
        } else if c == ULONG || c == LONG || c == TIMESTAMP {
            if s.len() < 9 {
                Err(DecodeError::NeedMore)
            } else if c == ULONG {
                Ok((PrimitiveModel::Ulong(from_be64(s.subrange(1, 9))), 9))
            } else if c == LONG {
                Ok((PrimitiveModel::Long(from_be64(s.subrange(1, 9)) as i64), 9))
            } else {
                Ok((PrimitiveModel::Timestamp(from_be64(s.subrange(1, 9)) as i64), 9))
            }
        } else if c == VBIN8 || c == STR8 || c == SYM8 || c == VBIN32 || c == STR32 || c == SYM32 {
            let w: nat = if c == VBIN8 || c == STR8 || c == SYM8 {
                1
            } else {
                4
            };
            match decode_variable(s, w) {
                Err(e) => Err(e),
                Ok((b, n)) => if c == VBIN8 || c == VBIN32 {
                    Ok((PrimitiveModel::Binary(b), n))
                } else if c == STR8 || c == STR32 {
                    Ok((PrimitiveModel::String(b), n))
                } else {
                    Ok((PrimitiveModel::Symbol(b), n))
                },
            }
        } else {
            Err(DecodeError::InvalidFormatCode(c))
        }
    }
}

proof fn lemma_variable_roundtrip(code8: u8, code32: u8, b: Seq<u8>, rest: Seq<u8>)
    requires
        b.len() <= U32_MAX_AS_USIZE,
    ensures
        ({
            let s = variable_spec(code8, code32, b) + rest;
            let w: nat = if b.len() <= 255 {
                1
            } else {
                4
            };
            &&& s[0] == (if b.len() <= 255 {
                code8
            } else {
                code32
            })
            &&& decode_variable(s, w) == Ok::<(Seq<u8>, nat), DecodeError>(
                (b, variable_spec(code8, code32, b).len()),
            )
        }),
{
    let s = variable_spec(code8, code32, b) + rest;
    if b.len() <= 255 {
        assert(s[1] == b.len() as u8);
        assert(s.subrange(2, 2 + b.len() as int) =~= b);
    } else {
        let n = b.len() as u32;
        lemma_be32(n);
        assert(s[1] == be32(n)[0] && s[2] == be32(n)[1] && s[3] == be32(n)[2] && s[4] == be32(n)[3]);
        assert(s.subrange(5, 5 + b.len() as int) =~= b);
    }
}

/// Decoding the encoding of a primitive gives the primitive back, and
/// consumes exactly its encoding, whatever bytes follow.
pub proof fn lemma_decode_encode(p: PrimitiveModel, rest: Seq<u8>)
    requires
        encodable(p),
    ensures
        decode_spec(encode_spec(p) + rest) == Ok::<(PrimitiveModel, nat), DecodeError>(
            (p, encode_spec(p).len()),
        ),
{
    let s = encode_spec(p) + rest;
    match p {
        PrimitiveModel::Ubyte(v) => {
            assert(s[1] == v);
        },
        PrimitiveModel::Ushort(v) => {
            lemma_be16(v);
            assert(s[1] == be16(v)[0] && s[2] == be16(v)[1]);
        },
        PrimitiveModel::Uint(v) => {
            if v == 0 {
            } else if v <= 255 {
                assert(s[1] == v as u8);
                assert((v as u8) as u32 == v) by (bit_vector)
                    requires
                        v <= 255,
                ;
            } else {
                lemma_be32(v);
                assert(s[1] == be32(v)[0] && s[2] == be32(v)[1] && s[3] == be32(v)[2] && s[4]
                    == be32(v)[3]);
            }
        },
        PrimitiveModel::Ulong(v) => {
            if v == 0 {
            } else if v <= 255 {
                assert(s[1] == v as u8);
                assert((v as u8) as u64 == v) by (bit_vector)
                    requires
                        v <= 255,
                ;
            } else {
                lemma_be64(v);
                assert(s.subrange(1, 9) =~= be64(v));
            }
        },
        PrimitiveModel::Byte(v) => {
            assert(s[1] == v as u8);
            assert((v as u8) as i8 == v) by (bit_vector);
        },
        PrimitiveModel::Short(v) => {
            lemma_be16(v as u16);
            assert(s[1] == be16(v as u16)[0] && s[2] == be16(v as u16)[1]);
            assert((v as u16) as i16 == v) by (bit_vector);
        },
        PrimitiveModel::Int(v) => {
            if -128 <= v <= 127 {
                assert(s[1] == v as u8);
                assert(((v as u8) as i8) as i32 == v) by (bit_vector)
                    requires
                        -128 <= v <= 127,
                ;
            } else {
                lemma_be32(v as u32);
                let e = be32(v as u32);
                assert(s[1] == e[0] && s[2] == e[1] && s[3] == e[2] && s[4] == e[3]);
                assert((v as u32) as i32 == v) by (bit_vector);
            }
        },
        PrimitiveModel::Long(v) => {
            if -128 <= v <= 127 {
                assert(s[1] == v as u8);
                assert(((v as u8) as i8) as i64 == v) by (bit_vector)
                    requires
                        -128 <= v <= 127,
                ;
            } else {
                lemma_be64(v as u64);
                assert(s.subrange(1, 9) =~= be64(v as u64));
                assert((v as u64) as i64 == v) by (bit_vector);
            }
        },
        PrimitiveModel::Char(c) => {
            lemma_be32(c);
            assert(s[1] == be32(c)[0] && s[2] == be32(c)[1] && s[3] == be32(c)[2] && s[4]
                == be32(c)[3]);
        },
        PrimitiveModel::Timestamp(t) => {
            lemma_be64(t as u64);
            assert(s.subrange(1, 9) =~= be64(t as u64));
            assert((t as u64) as i64 == t) by (bit_vector);
        },
        PrimitiveModel::Binary(b) => {
            lemma_variable_roundtrip(VBIN8, VBIN32, b, rest);
        },
        PrimitiveModel::String(b) => {
            lemma_variable_roundtrip(STR8, STR32, b, rest);
        },
        PrimitiveModel::Symbol(b) => {
            lemma_variable_roundtrip(SYM8, SYM32, b, rest);
        },
        _ => {},
    }
}

/// Appends a 16-bit value, big-endian.
pub fn put_be16(out: &mut Vec<u8>, v: u16)
    ensures
        final(out)@ == old(out)@ + be16(v),
{
    out.push((v >> 8u16) as u8);
    out.push((v & 0xffu16) as u8);
    assert(final(out)@ =~= old(out)@ + be16(v));
}

/// Appends a 32-bit value, big-endian.
pub fn put_be32(out: &mut Vec<u8>, v: u32)
    ensures
        final(out)@ == old(out)@ + be32(v),
{
    out.push((v >> 24u32) as u8);
    out.push(((v >> 16u32) & 0xffu32) as u8);
    out.push(((v >> 8u32) & 0xffu32) as u8);
    out.push((v & 0xffu32) as u8);
    assert(final(out)@ =~= old(out)@ + be32(v));
}

fn put_be64(out: &mut Vec<u8>, v: u64)
    ensures
        final(out)@ == old(out)@ + be64(v),
{
    out.push((v >> 56u64) as u8);
    out.push(((v >> 48u64) & 0xffu64) as u8);
    out.push(((v >> 40u64) & 0xffu64) as u8);
    out.push(((v >> 32u64) & 0xffu64) as u8);
    out.push(((v >> 24u64) & 0xffu64) as u8);
    out.push(((v >> 16u64) & 0xffu64) as u8);
    out.push(((v >> 8u64) & 0xffu64) as u8);
    out.push((v & 0xffu64) as u8);
    assert(final(out)@ =~= old(out)@ + be64(v));
}

/// Appends bytes.
pub fn put_bytes(out: &mut Vec<u8>, b: &[u8])
    ensures
        final(out)@ == old(out)@ + b@,
{
    let mut i: usize = 0;
    while i < b.len()
        invariant
            0 <= i <= b@.len(),
            out@ == old(out)@ + b@.take(i as int),
        decreases b.len() - i,
    {
        out.push(b[i]);
        assert(b@.take(i + 1) =~= b@.take(i as int).push(b@[i as int]));
        i += 1;
    }
    assert(b@.take(i as int) =~= b@);
}

fn put_variable(out: &mut Vec<u8>, code8: u8, code32: u8, b: &[u8])
    requires
        b@.len() <= U32_MAX_AS_USIZE,
    ensures
        final(out)@ == old(out)@ + variable_spec(code8, code32, b@),
{
    let l = b.len();
    if l <= 255 {
        out.push(code8);
        out.push(l as u8);
    } else {
        out.push(code32);
        put_be32(out, l as u32);
    }
    put_bytes(out, b);
    assert(final(out)@ =~= old(out)@ + variable_spec(code8, code32, b@));
}

/// Appends the encoding of a primitive.
pub fn encode_primitive(out: &mut Vec<u8>, p: &Primitive)
    requires
        encodable(p@),
    ensures
        final(out)@ == old(out)@ + encode_spec(p@),
{
    match p {
        Primitive::Null => out.push(NULL),
        Primitive::Bool(b) => out.push(
            if *b {
                BOOLEAN_TRUE
            } else {
                BOOLEAN_FALSE
            },
        ),
        Primitive::Ubyte(v) => {
            out.push(UBYTE);
            out.push(*v);
        },
        Primitive::Ushort(v) => {
            out.push(USHORT);
            put_be16(out, *v);
        },
        Primitive::Uint(v) => {
            if *v == 0 {
                out.push(UINT0);
            } else if *v <= 255 {
                out.push(SMALL_UINT);
                out.push(*v as u8);
            } else {
                out.push(UINT);
                put_be32(out, *v);
            }
        },
        Primitive::Ulong(v) => {
            if *v == 0 {
                out.push(ULONG0);
            } else if *v <= 255 {
                out.push(SMALL_ULONG);
                out.push(*v as u8);
            } else {
                out.push(ULONG);
                put_be64(out, *v);
            }
        },
        Primitive::Byte(v) => {
            out.push(BYTE);
            out.push(*v as u8);
        },
        Primitive::Short(v) => {
            out.push(SHORT);
            put_be16(out, *v as u16);
        },
        Primitive::Int(v) => {
            if -128 <= *v && *v <= 127 {
                out.push(SMALL_INT);
                out.push(*v as u8);
            } else {
                out.push(INT);
                put_be32(out, *v as u32);
            }
        },
        Primitive::Long(v) => {
            if -128 <= *v && *v <= 127 {
                out.push(SMALL_LONG);
                out.push(*v as u8);
            } else {
                out.push(LONG);
                put_be64(out, *v as u64);
            }
        },
        Primitive::Char(c) => {
            out.push(CHAR);
            put_be32(out, *c);
        },
        Primitive::Timestamp(t) => {
            out.push(TIMESTAMP);
            put_be64(out, *t as u64);
        },
        Primitive::Binary(b) => put_variable(out, VBIN8, VBIN32, b.as_slice()),
        Primitive::String(b) => put_variable(out, STR8, STR32, b.as_slice()),
        Primitive::Symbol(b) => put_variable(out, SYM8, SYM32, b.as_slice()),
    }
    assert(final(out)@ =~= old(out)@ + encode_spec(p@));
}

/// Reads a big-endian 32-bit value at `i`.
pub fn read_be32(s: &Vec<u8>, i: usize) -> (r: u32)
    requires
        i + 4 <= s@.len(),
    ensures
        r == from_be32(s@[i as int], s@[i + 1], s@[i + 2], s@[i + 3]),
{
    let n = s.len();
    assert(i + 3 < n);
    ((s[i] as u32) << 24u32) | ((s[i + 1] as u32) << 16u32) | ((s[i + 2] as u32) << 8u32) | (s[i
        + 3] as u32)
}

fn read_be64(s: &Vec<u8>, i: usize) -> (r: u64)
    requires
        i + 8 <= s@.len(),
    ensures
        r == from_be64(s@.subrange(i as int, i + 8)),
{
    let n = s.len();
    assert(i + 7 < n);
    let hi = read_be32(s, i);
    let lo = read_be32(s, i + 4);
    let ghost sub = s@.subrange(i as int, i + 8);
    assert(sub[0] == s@[i as int] && sub[4] == s@[i + 4]);
    ((hi as u64) << 32u64) | (lo as u64)
}

/// Copies `s[from..to]`.
pub fn copy_range(s: &Vec<u8>, from: usize, to: usize) -> (r: Vec<u8>)
    requires
        from <= to <= s@.len(),
    ensures
        r@ == s@.subrange(from as int, to as int),
{
    let mut r: Vec<u8> = Vec::new();
    let mut i = from;
    while i < to
        invariant
            from <= i <= to <= s@.len(),
            r@ == s@.subrange(from as int, i as int),
        decreases to - i,
    {
        r.push(s[i]);
        i += 1;
    }
    r
}

/// Decodes the primitive that starts at byte `pos`, and says how many
/// bytes it took. Input that ends too early gives `NeedMore`.
pub fn decode_primitive(s: &Vec<u8>, pos: usize) -> (r: Result<(Primitive, usize), DecodeError>)
    requires
        pos <= s@.len(),
    ensures
        match r {
            Ok((p, n)) => decode_spec(s@.skip(pos as int)) == Ok::<(PrimitiveModel, nat), DecodeError>(
                (p@, n as nat),
            ),
            Err(e) => decode_spec(s@.skip(pos as int)) == Err::<(PrimitiveModel, nat), DecodeError>(e),
        },
        r is Ok ==> pos + r->Ok_0.1 <= s@.len(),
{
    let ghost t = s@.skip(pos as int);
    let avail = s.len() - pos;
    if avail == 0 {
        return Err(DecodeError::NeedMore);
    }
    let c = s[pos];
    assert(t[0] == c);
    if c == NULL {
        Ok((Primitive::Null, 1))
    } else if c == BOOLEAN_TRUE {
        Ok((Primitive::Bool(true), 1))
    } else if c == BOOLEAN_FALSE {
        Ok((Primitive::Bool(false), 1))
    } else if c == UINT0 {
        Ok((Primitive::Uint(0), 1))
    } else if c == ULONG0 {
        Ok((Primitive::Ulong(0), 1))
    } else if c == BOOLEAN || c == UBYTE || c == BYTE || c == SMALL_UINT || c == SMALL_ULONG || c
        == SMALL_INT || c == SMALL_LONG {
        if avail < 2 {
            return Err(DecodeError::NeedMore);
        }
        let b = s[pos + 1];
        assert(t[1] == b);
        if c == BOOLEAN {
            if b == 1 {
                Ok((Primitive::Bool(true), 2))
            } else if b == 0 {
                Ok((Primitive::Bool(false), 2))
            } else {
                Err(DecodeError::InvalidValue)
            }
        } else if c == UBYTE {
            Ok((Primitive::Ubyte(b), 2))
        } else if c == BYTE {
            Ok((Primitive::Byte(b as i8), 2))
        } else if c == SMALL_UINT {
            Ok((Primitive::Uint(b as u32), 2))
        } else if c == SMALL_ULONG {
            Ok((Primitive::Ulong(b as u64), 2))
        } else if c == SMALL_INT {
            Ok((Primitive::Int((b as i8) as i32), 2))
        } else {
            Ok((Primitive::Long((b as i8) as i64), 2))
        }
    } else if c == USHORT || c == SHORT {
        if avail < 3 {
            return Err(DecodeError::NeedMore);
        }
        let v = ((s[pos + 1] as u16) << 8u16) | (s[pos + 2] as u16);
        assert(t[1] == s@[pos + 1] && t[2] == s@[pos + 2]);
        if c == USHORT {
            Ok((Primitive::Ushort(v), 3))
        } else {
            Ok((Primitive::Short(v as i16), 3))
        }
    } else if c == UINT || c == INT || c == CHAR {
        if avail < 5 {
            return Err(DecodeError::NeedMore);
        }
        let v = read_be32(s, pos + 1);
        assert(t[1] == s@[pos + 1] && t[2] == s@[pos + 2] && t[3] == s@[pos + 3] && t[4] == s@[pos
            + 4]);
        if c == UINT {
            Ok((Primitive::Uint(v), 5))
        } else if c == INT {
            Ok((Primitive::Int(v as i32), 5))
        } else {
            Ok((Primitive::Char(v), 5))
        }
    } else if c == ULONG || c == LONG || c == TIMESTAMP {
        if avail < 9 {
            return Err(DecodeError::NeedMore);
        }
        let v = read_be64(s, pos + 1);
        assert(t.subrange(1, 9) =~= s@.subrange(pos + 1, pos + 9));
        if c == ULONG {
            Ok((Primitive::Ulong(v), 9))
        } else if c == LONG {
            Ok((Primitive::Long(v as i64), 9))
        } else {
            Ok((Primitive::Timestamp(v as i64), 9))
        }
    } else if c == VBIN8 || c == STR8 || c == SYM8 || c == VBIN32 || c == STR32 || c == SYM32 {
        let short = c == VBIN8 || c == STR8 || c == SYM8;
        let w: usize = if short {
            1
        } else {
            4
        };
        if avail < 1 + w {
            return Err(DecodeError::NeedMore);
        }
        let n: usize = if short {
            s[pos + 1] as usize
        } else {
            read_be32(s, pos + 1) as usize
        };
        assert(t[1] == s@[pos + 1]);
        if !short {
            assert(t[2] == s@[pos + 2] && t[3] == s@[pos + 3] && t[4] == s@[pos + 4]);
        }
        if avail - (1 + w) < n {
            return Err(DecodeError::NeedMore);
        }
        let start = pos + 1 + w;
        let b = copy_range(s, start, start + n);
        assert(t.subrange((1 + w) as int, (1 + w + n) as int) =~= s@.subrange(
            start as int,
            (start + n) as int,
        ));
        let p = if c == VBIN8 || c == VBIN32 {
            Primitive::Binary(b)
        } else if c == STR8 || c == STR32 {
            Primitive::String(b)
        } else {
            Primitive::Symbol(b)
        };
        Ok((p, 1 + w + n))
    } else {
        Err(DecodeError::InvalidFormatCode(c))
    }
}

/// Why a value could not be encoded.
#[derive(Clone, Copy, Debug, PartialEq, Eq, Structural)]
pub enum SerError {
    /// The value is longer than a 32-bit size field can describe.
    TooLong,
}

/// The encoding of a compound value: `count` elements whose encodings are
/// `body`, behind the 8-bit or 32-bit framing. The size field counts the
/// bytes after itself. An empty list has its own one-byte form.
pub open spec fn compound_spec(code0: Option<u8>, code8: u8, code32: u8, count: nat, body: Seq<u8>) -> Seq<
    u8,
> {
    if code0 is Some && body.len() == 0 {
        seq![code0->0]
    } else if body.len() + 1 <= 255 && count <= 255 {
        seq![code8, (body.len() + 1) as u8, count as u8] + body
    } else {
        seq![code32] + be32((body.len() + 4) as u32) + be32(count as u32) + body
    }
}

/// A compound value fits the 32-bit framing.
pub open spec fn compound_fits(count: nat, body: Seq<u8>) -> bool {
    body.len() + 4 <= U32_MAX_AS_USIZE && count <= U32_MAX_AS_USIZE
}

/// The encoding of a list.
pub open spec fn list_spec(count: nat, body: Seq<u8>) -> Seq<u8> {
    compound_spec(Some(LIST0), LIST8, LIST32, count, body)
}

/// The encoding of a map of `count` keys and values (counted one by one).
pub open spec fn map_spec(count: nat, body: Seq<u8>) -> Seq<u8> {
    compound_spec(None, MAP8, MAP32, count, body)
}

fn write_compound(
    writer: &mut Vec<u8>,
    code0: Option<u8>,
    code8: u8,
    code32: u8,
    num: usize,
    buf: &Vec<u8>,
) -> (r: Result<(), SerError>)
    ensures
        compound_fits(num as nat, buf@) ==> r is Ok && final(writer)@ == old(writer)@
            + compound_spec(code0, code8, code32, num as nat, buf@),
        code0 is Some && buf@.len() == 0 ==> r is Ok && final(writer)@ == old(writer)@
            + compound_spec(code0, code8, code32, num as nat, buf@),
        !compound_fits(num as nat, buf@) ==> (r is Ok && code0 is Some && buf@.len() == 0
            && final(writer)@ == old(writer)@ + compound_spec(code0, code8, code32, num as nat, buf@))
            || (r == Err::<(), SerError>(SerError::TooLong) && final(writer)@ == old(writer)@),
{
    let len = buf.len();
    match code0 {
        Some(c) => {
            if len == 0 {
                writer.push(c);
                assert(final(writer)@ =~= old(writer)@ + compound_spec(code0, code8, code32, num as nat, buf@));
                return Ok(());
            }
        },
        None => {},
    }
    if len < 255 && num <= 255 {
        writer.push(code8);
        writer.push((len + 1) as u8);
        writer.push(num as u8);
    } else if len <= U32_MAX_AS_USIZE - 4 && num <= U32_MAX_AS_USIZE {
        writer.push(code32);
        put_be32(writer, (len + 4) as u32);
        put_be32(writer, num as u32);
    } else {
        return Err(SerError::TooLong);
    }
    put_bytes(writer, buf.as_slice());
    assert(final(writer)@ =~= old(writer)@ + compound_spec(code0, code8, code32, num as nat, buf@));
    Ok(())
}

/// Writes a list of `num` elements whose encodings are `buf`: `List0` when
/// empty, `List8` when the size and count fit a byte, else `List32`.
pub fn write_seq(writer: &mut Vec<u8>, num: usize, buf: &Vec<u8>) -> (r: Result<(), SerError>)
    ensures
        (buf@.len() == 0 || compound_fits(num as nat, buf@)) ==> r is Ok && final(writer)@ == old(writer)@ + list_spec(num as nat, buf@),
        !(buf@.len() == 0 || compound_fits(num as nat, buf@)) ==> r == Err::<(), SerError>(
            SerError::TooLong,
        ) && final(writer)@ == old(writer)@,
{
    write_compound(writer, Some(LIST0), LIST8, LIST32, num, buf)
}

/// Writes a map whose `num` keys and values (counted one by one) are
/// encoded in `buf`: `Map8` when the size and count fit a byte, else `Map32`.
pub fn write_map(writer: &mut Vec<u8>, num: usize, buf: &Vec<u8>) -> (r: Result<(), SerError>)
    ensures
        compound_fits(num as nat, buf@) ==> r is Ok && final(writer)@ == old(writer)@ + map_spec(
            num as nat,
            buf@,
        ),
        !compound_fits(num as nat, buf@) ==> r == Err::<(), SerError>(SerError::TooLong)
            && final(writer)@ == old(writer)@,
{
    write_compound(writer, None, MAP8, MAP32, num, buf)
}

/// The 8-bit list form is used exactly when the list is not empty and its
/// size (the bytes after the size field) and count fit in a byte; the size
/// field then counts the bytes after it.
pub proof fn lemma_list_size_discipline(count: nat, body: Seq<u8>)
    requires
        body.len() > 0,
        compound_fits(count, body),
    ensures
        (list_spec(count, body)[0] == LIST8) <==> (body.len() + 1 <= 255 && count <= 255),
        (list_spec(count, body)[0] == LIST32) <==> !(body.len() + 1 <= 255 && count <= 255),
        list_spec(count, body)[0] == LIST8 ==> list_spec(count, body)[1] as nat == list_spec(
            count,
            body,
        ).len() - 2,
        list_spec(count, body)[0] == LIST32 ==> from_be32(
            list_spec(count, body)[1],
            list_spec(count, body)[2],
            list_spec(count, body)[3],
            list_spec(count, body)[4],
        ) as nat == list_spec(count, body).len() - 5,
{
    if !(body.len() + 1 <= 255 && count <= 255) {
        let e = be32((body.len() + 4) as u32);
        lemma_be32((body.len() + 4) as u32);
        let s = list_spec(count, body);
        assert(s[1] == e[0] && s[2] == e[1] && s[3] == e[2] && s[4] == e[3]);
    }
}

/// Every primitive's encoding is one constructor byte and a fixed width of
/// at most eight bytes, or a variable-width value whose one-byte size form
/// is used exactly when its bytes fit that size.
pub proof fn lemma_primitive_size_discipline(p: PrimitiveModel)
    requires
        encodable(p),
    ensures
        match p {
            PrimitiveModel::Binary(b) => encode_spec(p).len() == (if b.len() <= 255 {
                2 + b.len()
            } else {
                5 + b.len()
            }) && (encode_spec(p)[0] == VBIN8 <==> b.len() <= 255),
            PrimitiveModel::String(b) => encode_spec(p).len() == (if b.len() <= 255 {
                2 + b.len()
            } else {
                5 + b.len()
            }) && (encode_spec(p)[0] == STR8 <==> b.len() <= 255),
            PrimitiveModel::Symbol(b) => encode_spec(p).len() == (if b.len() <= 255 {
                2 + b.len()
            } else {
                5 + b.len()
            }) && (encode_spec(p)[0] == SYM8 <==> b.len() <= 255),
            _ => 1 <= encode_spec(p).len() <= 9,
        },
{
}

/// Encodes values one after another into an owned buffer.
#[derive(Debug)]
pub struct Serializer {
    writer: Vec<u8>,
}

impl View for Serializer {
    type V = Seq<u8>;

    closed spec fn view(&self) -> Seq<u8> {
        self.writer@
    }
}

impl Serializer {
    /// A serializer that appends to `writer`.
    pub fn new(writer: Vec<u8>) -> (r: Serializer)
        ensures
            r@ == writer@,
    {
        Serializer { writer }
    }

    /// The bytes written so far.
    pub fn into_inner(self) -> (r: Vec<u8>)
        ensures
            r@ == self@,
    {
        self.writer
    }

    /// Appends the encoding of any primitive.
    pub fn serialize_primitive(&mut self, p: &Primitive)
        requires
            encodable(p@),
        ensures
            final(self)@ == old(self)@ + encode_spec(p@),
    {
        encode_primitive(&mut self.writer, p)
    }

    pub fn serialize_bool(&mut self, v: bool)
        ensures
            final(self)@ == old(self)@ + encode_spec(PrimitiveModel::Bool(v)),
    {
        encode_primitive(&mut self.writer, &Primitive::Bool(v))
    }

    pub fn serialize_i8(&mut self, v: i8)
        ensures
            final(self)@ == old(self)@ + encode_spec(PrimitiveModel::Byte(v)),
    {
        encode_primitive(&mut self.writer, &Primitive::Byte(v))
    }

    pub fn serialize_i16(&mut self, v: i16)
        ensures
            final(self)@ == old(self)@ + encode_spec(PrimitiveModel::Short(v)),
    {
        encode_primitive(&mut self.writer, &Primitive::Short(v))
    }

    pub fn serialize_i32(&mut self, v: i32)
        ensures
            final(self)@ == old(self)@ + encode_spec(PrimitiveModel::Int(v)),
    {
        encode_primitive(&mut self.writer, &Primitive::Int(v))
    }

    pub fn serialize_i64(&mut self, v: i64)
        ensures
            final(self)@ == old(self)@ + encode_spec(PrimitiveModel::Long(v)),
    {
        encode_primitive(&mut self.writer, &Primitive::Long(v))
    }

    pub fn serialize_u8(&mut self, v: u8)
        ensures
            final(self)@ == old(self)@ + encode_spec(PrimitiveModel::Ubyte(v)),
    {
        encode_primitive(&mut self.writer, &Primitive::Ubyte(v))
    }

    pub fn serialize_u16(&mut self, v: u16)
        ensures
            final(self)@ == old(self)@ + encode_spec(PrimitiveModel::Ushort(v)),
    {
        encode_primitive(&mut self.writer, &Primitive::Ushort(v))
    }

    pub fn serialize_u32(&mut self, v: u32)
        ensures
            final(self)@ == old(self)@ + encode_spec(PrimitiveModel::Uint(v)),
    {
        encode_primitive(&mut self.writer, &Primitive::Uint(v))
    }

    pub fn serialize_u64(&mut self, v: u64)
        ensures
            final(self)@ == old(self)@ + encode_spec(PrimitiveModel::Ulong(v)),
    {
        encode_primitive(&mut self.writer, &Primitive::Ulong(v))
    }

    /// A character is written as its 32-bit code point.
    pub fn serialize_char(&mut self, v: char)
        ensures
            final(self)@ == old(self)@ + encode_spec(PrimitiveModel::Char(v as u32)),
    {
        encode_primitive(&mut self.writer, &Primitive::Char(v as u32))
    }

    /// Writes a string as its UTF-8 bytes; fails without writing when they
    /// do not fit a 32-bit size.
    pub fn serialize_str(&mut self, v: &str) -> (r: Result<(), SerError>)
        ensures
            v.spec_bytes().len() <= U32_MAX_AS_USIZE ==> r is Ok && final(self)@ == old(self)@
                + encode_spec(PrimitiveModel::String(v.spec_bytes())),
            v.spec_bytes().len() > U32_MAX_AS_USIZE ==> r == Err::<(), SerError>(SerError::TooLong)
                && final(self)@ == old(self)@,
    {
        let b = v.as_bytes();
        if b.len() > U32_MAX_AS_USIZE {
            return Err(SerError::TooLong);
        }
        put_variable(&mut self.writer, STR8, STR32, b);
        Ok(())
    }

    /// Writes a symbol; fails without writing when it does not fit a 32-bit size.
    pub fn serialize_symbol(&mut self, v: &str) -> (r: Result<(), SerError>)
        ensures
            v.spec_bytes().len() <= U32_MAX_AS_USIZE ==> r is Ok && final(self)@ == old(self)@
                + encode_spec(PrimitiveModel::Symbol(v.spec_bytes())),
            v.spec_bytes().len() > U32_MAX_AS_USIZE ==> r == Err::<(), SerError>(SerError::TooLong)
                && final(self)@ == old(self)@,
    {
        let b = v.as_bytes();
        if b.len() > U32_MAX_AS_USIZE {
            return Err(SerError::TooLong);
        }
        put_variable(&mut self.writer, SYM8, SYM32, b);
        Ok(())
    }

    /// Writes binary data; fails without writing when it does not fit a 32-bit size.
    pub fn serialize_bytes(&mut self, v: &[u8]) -> (r: Result<(), SerError>)
        ensures
            v@.len() <= U32_MAX_AS_USIZE ==> r is Ok && final(self)@ == old(self)@ + encode_spec(
                PrimitiveModel::Binary(v@),
            ),
            v@.len() > U32_MAX_AS_USIZE ==> r == Err::<(), SerError>(SerError::TooLong) && final(self)@ == old(self)@,
    {
        if v.len() > U32_MAX_AS_USIZE {
            return Err(SerError::TooLong);
        }
        put_variable(&mut self.writer, VBIN8, VBIN32, v);
        Ok(())
    }

    /// An absent value is written as null.
    pub fn serialize_none(&mut self)
        ensures
            final(self)@ == old(self)@ + encode_spec(PrimitiveModel::Null),
    {
        encode_primitive(&mut self.writer, &Primitive::Null)
    }

    /// The unit value is written as null.
    pub fn serialize_unit(&mut self)
        ensures
            final(self)@ == old(self)@ + encode_spec(PrimitiveModel::Null),
    {
        encode_primitive(&mut self.writer, &Primitive::Null)
    }

    /// Writes a list whose elements were encoded into `buf`.
    pub fn serialize_list(&mut self, num: usize, buf: &Vec<u8>) -> (r: Result<(), SerError>)
        ensures
            (buf@.len() == 0 || compound_fits(num as nat, buf@)) ==> r is Ok && final(self)@ == old(self)@ + list_spec(num as nat, buf@),
            !(buf@.len() == 0 || compound_fits(num as nat, buf@)) ==> r == Err::<(), SerError>(
                SerError::TooLong,
            ) && final(self)@ == old(self)@,
    {
        write_seq(&mut self.writer, num, buf)
    }

    /// Writes a map whose keys and values were encoded into `buf`.
    pub fn serialize_map(&mut self, num: usize, buf: &Vec<u8>) -> (r: Result<(), SerError>)
        ensures
            compound_fits(num as nat, buf@) ==> r is Ok && final(self)@ == old(self)@ + map_spec(
                num as nat,
                buf@,
            ),
            !compound_fits(num as nat, buf@) ==> r == Err::<(), SerError>(SerError::TooLong)
                && final(self)@ == old(self)@,
    {
        write_map(&mut self.writer, num, buf)
    }
}

/// Collects the encodings of the elements of a list or map before the
/// compound framing, which needs their total size, is written.
#[derive(Debug)]
pub struct Compound {
    pub num: usize,
    pub buf: Vec<u8>,
}

impl Compound {
    /// An empty compound that will hold `num` elements.
    pub fn new(num: usize) -> (r: Compound)
        ensures
            r.num == num,
            r.buf@.len() == 0,
    {
        Compound { num, buf: Vec::new() }
    }

    /// Appends one element's encoding.
    pub fn serialize_element(&mut self, value: &Primitive)
        requires
            encodable(value@),
        ensures
            final(self).num == old(self).num,
            final(self).buf@ == old(self).buf@ + encode_spec(value@),
    {
        encode_primitive(&mut self.buf, value)
    }

    /// Writes the collected elements as a list.
    pub fn end(self, se: &mut Serializer) -> (r: Result<(), SerError>)
        ensures
            (self.buf@.len() == 0 || compound_fits(self.num as nat, self.buf@)) ==> r is Ok
                && final(se)@ == old(se)@ + list_spec(self.num as nat, self.buf@),
            !(self.buf@.len() == 0 || compound_fits(self.num as nat, self.buf@)) ==> r == Err::<
                (),
                SerError,
            >(SerError::TooLong) && final(se)@ == old(se)@,
    {
        se.serialize_list(self.num, &self.buf)
    }

    /// Writes the collected keys and values as a map.
    pub fn end_map(self, se: &mut Serializer) -> (r: Result<(), SerError>)
        ensures
            compound_fits(self.num as nat, self.buf@) ==> r is Ok && final(se)@ == old(se)@
                + map_spec(self.num as nat, self.buf@),
            !compound_fits(self.num as nat, self.buf@) ==> r == Err::<(), SerError>(
                SerError::TooLong,
            ) && final(se)@ == old(se)@,
    {
        se.serialize_map(self.num, &self.buf)
    }
}

/// Encodes a variant with fields: a one-entry map from the variant's name
/// (a string, held as its UTF-8 bytes) to the list of its fields.
#[derive(Debug)]
pub struct VariantSerializer {
    pub variant: Vec<u8>,
    pub variant_index: u32,
    pub num: usize,
    pub list_buf: Vec<u8>,
}

impl VariantSerializer {
    pub fn new(variant: &str, variant_index: u32, num: usize) -> (r: VariantSerializer)
        ensures
            r.variant@ == variant.spec_bytes(),
            r.variant_index == variant_index,
            r.num == num,
            r.list_buf@.len() == 0,
    {
        let mut name: Vec<u8> = Vec::new();
        put_bytes(&mut name, variant.as_bytes());
        VariantSerializer { variant: name, variant_index, num, list_buf: Vec::new() }
    }

    /// Appends one field's encoding.
    pub fn serialize_field(&mut self, value: &Primitive)
        requires
            encodable(value@),
        ensures
            final(self).num == old(self).num,
            final(self).variant == old(self).variant,
            final(self).list_buf@ == old(self).list_buf@ + encode_spec(value@),
    {
        encode_primitive(&mut self.list_buf, value)
    }

    /// Writes `{ name: [fields] }`; fails without writing when a part does
    /// not fit a 32-bit size.
    pub fn end(self, se: &mut Serializer) -> (r: Result<(), SerError>)
        ensures
            r is Ok ==> final(se)@ == old(se)@ + map_spec(
                2,
                encode_spec(PrimitiveModel::String(self.variant@)) + list_spec(
                    self.num as nat,
                    self.list_buf@,
                ),
            ),
            r is Err ==> final(se)@ == old(se)@,
            (self.variant@.len() <= U32_MAX_AS_USIZE && compound_fits(self.num as nat, self.list_buf@)
                && compound_fits(
                2,
                encode_spec(PrimitiveModel::String(self.variant@)) + list_spec(
                    self.num as nat,
                    self.list_buf@,
                ),
            )) ==> r is Ok,
    {
        if self.variant.len() > U32_MAX_AS_USIZE {
            return Err(SerError::TooLong);
        }
        let mut buf: Vec<u8> = Vec::new();
        let key = Primitive::String(self.variant);
        encode_primitive(&mut buf, &key);
        let ghost kb = buf@;
        match write_seq(&mut buf, self.num, &self.list_buf) {
            Ok(()) => {},
            Err(e) => return Err(e),
        }
        assert(kb =~= encode_spec(PrimitiveModel::String(self.variant@)));
        se.serialize_map(2, &buf)
    }
}

/// `Ok(n)` when at least `n` bytes are there, else `NeedMore`.
pub open spec fn need(s: Seq<u8>, n: nat) -> Result<nat, DecodeError> {
    if s.len() < n {
        Err(DecodeError::NeedMore)
    } else {
        Ok(n)
    }
}

/// How many bytes the encoded value at the start of `s` takes, read from
/// its constructor: the width category of the format code, the size field
/// of variable and compound values, and descriptor plus value for a
/// described value.
pub open spec fn value_width_spec(s: Seq<u8>) -> Result<nat, DecodeError>
    decreases s.len(),
{
    if s.len() == 0 {
        Err(DecodeError::NeedMore)
    } else {
        let c = s[0];
        if c == DESCRIBED_TYPE {
            match value_width_spec(s.skip(1)) {
                Err(e) => Err(e),
                Ok(d) => if 1 + d > s.len() {
                    Err(DecodeError::NeedMore)
                } else {
                    match value_width_spec(s.skip((1 + d) as int)) {
                        Err(e) => Err(e),
                        Ok(v) => Ok(1 + d + v),
                    }
                },
            }
        } else if 0x40 <= c <= 0x4f {
            Ok(1)
        } else if 0x50 <= c <= 0x5f {
            need(s, 2)
        } else if 0x60 <= c <= 0x6f {
            need(s, 3)
        } else if 0x70 <= c <= 0x7f {
            need(s, 5)
        } else if 0x80 <= c <= 0x8f {
            need(s, 9)
        } else if 0x90 <= c <= 0x9f {
            need(s, 17)
        } else if (0xa0 <= c <= 0xaf) || (0xc0 <= c <= 0xcf) || (0xe0 <= c <= 0xef) {
            if s.len() < 2 {
                Err(DecodeError::NeedMore)
            } else {
                need(s, 2 + s[1] as nat)
            }
        } else if (0xb0 <= c <= 0xbf) || (0xd0 <= c <= 0xdf) || 0xf0 <= c {
            if s.len() < 5 {
                Err(DecodeError::NeedMore)
            } else {
                need(s, 5 + from_be32(s[1], s[2], s[3], s[4]) as nat)
            }
        } else {
            Err(DecodeError::InvalidFormatCode(c))
        }
    }
}

/// Measures the encoded value that starts at byte `pos` without decoding it.
pub fn value_width(s: &Vec<u8>, pos: usize) -> (r: Result<usize, DecodeError>)
    requires
        pos <= s@.len(),
    ensures
        match r {
            Ok(n) => value_width_spec(s@.skip(pos as int)) == Ok::<nat, DecodeError>(n as nat) && pos
                + n <= s@.len(),
            Err(e) => value_width_spec(s@.skip(pos as int)) == Err::<nat, DecodeError>(e),
        },
    decreases s@.len() - pos,
{
    let ghost t = s@.skip(pos as int);
    let avail = s.len() - pos;
    if avail == 0 {
        return Err(DecodeError::NeedMore);
    }
    let c = s[pos];
    assert(t[0] == c);
    if c == DESCRIBED_TYPE {
        assert(t.skip(1) =~= s@.skip(pos + 1));
        let d = match value_width(s, pos + 1) {
            Ok(d) => d,
            Err(e) => return Err(e),
        };
        assert(t.skip(1 + d) =~= s@.skip(pos + 1 + d));
        let v = match value_width(s, pos + 1 + d) {
            Ok(v) => v,
            Err(e) => return Err(e),
        };
        return Ok(1 + d + v);
    }
    let n: u64 = if 0x40 <= c && c <= 0x4f {
        1
    } else if 0x50 <= c && c <= 0x5f {
        2
    } else if 0x60 <= c && c <= 0x6f {
        3
    } else if 0x70 <= c && c <= 0x7f {
        5
    } else if 0x80 <= c && c <= 0x8f {
        9
    } else if 0x90 <= c && c <= 0x9f {
        17
    } else if (0xa0 <= c && c <= 0xaf) || (0xc0 <= c && c <= 0xcf) || (0xe0 <= c && c <= 0xef) {
        if avail < 2 {
            return Err(DecodeError::NeedMore);
        }
        assert(t[1] == s@[pos + 1]);
        2 + s[pos + 1] as u64
    } else if (0xb0 <= c && c <= 0xbf) || (0xd0 <= c && c <= 0xdf) || 0xf0 <= c {
        if avail < 5 {
            return Err(DecodeError::NeedMore);
        }
        assert(t[1] == s@[pos + 1] && t[2] == s@[pos + 2] && t[3] == s@[pos + 3] && t[4] == s@[pos
            + 4]);
        5 + read_be32(s, pos + 1) as u64
    } else {
        return Err(DecodeError::InvalidFormatCode(c));
    };
    if (avail as u64) < n {
        return Err(DecodeError::NeedMore);
    }
    Ok(n as usize)
}

/// An element of a list: a primitive, or any other value kept encoded.
#[derive(Debug)]
pub enum ListItem {
    Primitive(Primitive),
    Encoded(Vec<u8>),
}

/// The mathematical value of a list element.
pub enum ListItemModel {
    Primitive(PrimitiveModel),
    Encoded(Seq<u8>),
}

impl View for ListItem {
    type V = ListItemModel;

    open spec fn view(&self) -> ListItemModel {
        match self {
            ListItem::Primitive(p) => ListItemModel::Primitive(p@),
            ListItem::Encoded(b) => ListItemModel::Encoded(b@),
        }
    }
}

/// The list element at the start of `b`, and its length.
pub open spec fn item_spec(b: Seq<u8>) -> Result<(ListItemModel, nat), DecodeError> {
    match decode_spec(b) {
        Ok((p, n)) => Ok((ListItemModel::Primitive(p), n)),
        Err(DecodeError::NeedMore) => Err(DecodeError::NeedMore),
        Err(_) => match value_width_spec(b) {
            Ok(w) => Ok((ListItemModel::Encoded(b.take(w as int)), w)),
            Err(e) => Err(e),
        },
    }
}

/// `count` elements read one after another from the start of `b`, and the
/// bytes they took.
pub open spec fn items_spec(b: Seq<u8>, count: nat) -> Result<(Seq<ListItemModel>, nat), DecodeError>
    decreases count,
{
    if count == 0 {
        Ok((Seq::empty(), 0))
    } else {
        match item_spec(b) {
            Err(e) => Err(e),
            Ok((x, n)) => if n > b.len() {
                Err(DecodeError::NeedMore)
            } else {
                match items_spec(b.skip(n as int), (count - 1) as nat) {
                    Err(e) => Err(e),
                    Ok((rest, m)) => Ok((seq![x] + rest, n + m)),
                }
            },
        }
    }
}

/// The elements of the list encoded at the start of `s`, and its length.
/// The elements must fill the list's size exactly.
pub open spec fn list_decode_spec(s: Seq<u8>) -> Result<(Seq<ListItemModel>, nat), DecodeError> {
    compound_decode_spec(s, Some(LIST0), LIST8, LIST32)
}

/// The elements of the compound value (with these constructors) encoded at
/// the start of `s`, and its length. The elements must fill its size exactly.
pub open spec fn compound_decode_spec(s: Seq<u8>, code0: Option<u8>, code8: u8, code32: u8) -> Result<
    (Seq<ListItemModel>, nat),
    DecodeError,
> {
    if s.len() == 0 {
        Err(DecodeError::NeedMore)
    } else if code0 == Some(s[0]) {
        Ok((Seq::empty(), 1))
    } else if s[0] == code8 || s[0] == code32 {
        let w: nat = if s[0] == code8 {
            1
        } else {
            4
        };
        if s.len() < 1 + 2 * w {
            Err(DecodeError::NeedMore)
        } else {
            let size: nat = if w == 1 {
                s[1] as nat
            } else {
                from_be32(s[1], s[2], s[3], s[4]) as nat
            };
            let count: nat = if w == 1 {
                s[2] as nat
            } else {
                from_be32(s[5], s[6], s[7], s[8]) as nat
            };
            if size < w || s.len() < 1 + w + size {
                Err(DecodeError::NeedMore)
            } else {
                let body = s.subrange((1 + 2 * w) as int, (1 + w + size) as int);
                match items_spec(body, count) {
                    Err(e) => Err(e),
                    Ok((items, n)) => if n == body.len() {
                        Ok((items, 1 + w + size))
                    } else {
                        Err(DecodeError::InvalidValue)
                    },
                }
            }
        }
    } else {
        Err(DecodeError::InvalidFormatCode(s[0]))
    }
}

fn decode_item(s: &Vec<u8>, pos: usize, end: usize) -> (r: Result<(ListItem, usize), DecodeError>)
    requires
        pos <= end <= s@.len(),
    ensures
        match r {
            Ok((x, n)) => item_spec(s@.subrange(pos as int, end as int)) == Ok::<
                (ListItemModel, nat),
                DecodeError,
            >((x@, n as nat)) && pos + n <= end,
            Err(e) => item_spec(s@.subrange(pos as int, end as int)) == Err::<
                (ListItemModel, nat),
                DecodeError,
            >(e),
        },
{
    let ghost b = s@.subrange(pos as int, end as int);
    let body = copy_range(s, pos, end);
    assert(body@.skip(0) =~= b);
    match decode_primitive(&body, 0) {
        Ok((p, n)) => Ok((ListItem::Primitive(p), n)),
        Err(DecodeError::NeedMore) => Err(DecodeError::NeedMore),
        Err(_) => match value_width(&body, 0) {
            Ok(w) => {
                let raw = copy_range(&body, 0, w);
                assert(body@.subrange(0, w as int) =~= b.take(w as int));
                Ok((ListItem::Encoded(raw), w))
            },
            Err(e) => Err(e),
        },
    }
}

/// Decodes the list that starts at byte `pos`: its elements (primitives
/// decoded, other values kept encoded) and its length.
pub fn decode_list(s: &Vec<u8>, pos: usize) -> (r: Result<(Vec<ListItem>, usize), DecodeError>)
    requires
        pos <= s@.len(),
    ensures
        match r {
            Ok((items, n)) => list_decode_spec(s@.skip(pos as int)) == Ok::<
                (Seq<ListItemModel>, nat),
                DecodeError,
            >((items@.map_values(|x: ListItem| x@), n as nat)) && pos + n <= s@.len(),
            Err(e) => list_decode_spec(s@.skip(pos as int)) == Err::<
                (Seq<ListItemModel>, nat),
                DecodeError,
            >(e),
        },
{
    decode_compound(s, pos, Some(LIST0), LIST8, LIST32)
}

#[verifier::rlimit(60)]
fn decode_compound(s: &Vec<u8>, pos: usize, code0: Option<u8>, code8: u8, code32: u8) -> (r: Result<
    (Vec<ListItem>, usize),
    DecodeError,
>)
    requires
        pos <= s@.len(),
        code8 != code32,
    ensures
        match r {
            Ok((items, n)) => compound_decode_spec(s@.skip(pos as int), code0, code8, code32) == Ok::<
                (Seq<ListItemModel>, nat),
                DecodeError,
            >((items@.map_values(|x: ListItem| x@), n as nat)) && pos + n <= s@.len(),
            Err(e) => compound_decode_spec(s@.skip(pos as int), code0, code8, code32) == Err::<
                (Seq<ListItemModel>, nat),
                DecodeError,
            >(e),
        },
{
    let ghost t = s@.skip(pos as int);
    let avail = s.len() - pos;
    if avail == 0 {
        return Err(DecodeError::NeedMore);
    }
    let c = s[pos];
    assert(t[0] == c);
    if code0 == Some(c) {
        let v: Vec<ListItem> = Vec::new();
        assert(v@.map_values(|x: ListItem| x@) =~= Seq::<ListItemModel>::empty());
        return Ok((v, 1));
    }
    if c != code8 && c != code32 {
        return Err(DecodeError::InvalidFormatCode(c));
    }
    let w: usize = if c == code8 {
        1
    } else {
        4
    };
    if avail < 1 + 2 * w {
        return Err(DecodeError::NeedMore);
    }
    let (size, count): (usize, u32) = if w == 1 {
        assert(t[1] == s@[pos + 1] && t[2] == s@[pos + 2]);
        (s[pos + 1] as usize, s[pos + 2] as u32)
    } else {
        assert(t[1] == s@[pos + 1] && t[2] == s@[pos + 2] && t[3] == s@[pos + 3] && t[4] == s@[pos
            + 4]);
        assert(t[5] == s@[pos + 5] && t[6] == s@[pos + 6] && t[7] == s@[pos + 7] && t[8] == s@[pos
            + 8]);
        (read_be32(s, pos + 1) as usize, read_be32(s, pos + 5))
    };
    if size < w || avail - 1 - w < size {
        return Err(DecodeError::NeedMore);
    }
    let start = pos + 1 + 2 * w;
    let end = pos + 1 + w + size;
    let ghost body = t.subrange((1 + 2 * w) as int, (1 + w + size) as int);
    assert(body =~= s@.subrange(start as int, end as int));
    let mut items: Vec<ListItem> = Vec::new();
    let mut p = start;
    let mut k: u32 = 0;
    assert(s@.subrange(p as int, end as int) =~= body.skip(0));
    assert(items_spec(body, count as nat) == match items_spec(body.skip(0), count as nat) {
        Ok((rest, m)) => Ok((items@.map_values(|x: ListItem| x@) + rest, m)),
        Err(e) => Err::<(Seq<ListItemModel>, nat), DecodeError>(e),
    }) by {
        assert(body.skip(0) =~= body);
        match items_spec(body, count as nat) {
            Ok((rest, m)) => {
                assert(items@.map_values(|x: ListItem| x@) + rest =~= rest);
            },
            Err(_) => {},
        }
    }
    assert(body.skip(p - start) =~= body);
    assert(compound_decode_spec(t, code0, code8, code32) == match items_spec(body, count as nat) {
        Err(e) => Err(e),
        Ok((its, n)) => if n == body.len() {
            Ok((its, (1 + w + size) as nat))
        } else {
            Err::<(Seq<ListItemModel>, nat), DecodeError>(DecodeError::InvalidValue)
        },
    });
    while k < count
        invariant
            start <= p <= end <= s@.len(),
            t == s@.skip(pos as int),
            end == start + body.len(),
            compound_decode_spec(t, code0, code8, code32) == match items_spec(body, count as nat) {
                Err(e) => Err(e),
                Ok((its, n)) => if n == body.len() {
                    Ok((its, (1 + w + size) as nat))
                } else {
                    Err::<(Seq<ListItemModel>, nat), DecodeError>(DecodeError::InvalidValue)
                },
            },
            k <= count,
            body == s@.subrange(start as int, end as int),
            items_spec(body, count as nat) == match items_spec(
                body.skip(p - start),
                (count - k) as nat,
            ) {
                Ok((rest, m)) => Ok(
                    (items@.map_values(|x: ListItem| x@) + rest, ((p - start) + m) as nat),
                ),
                Err(e) => Err::<(Seq<ListItemModel>, nat), DecodeError>(e),
            },
        decreases count - k,
    {
        let ghost b = body.skip(p - start);
        assert(s@.subrange(p as int, end as int) =~= b);
        let (x, n) = match decode_item(s, p, end) {
            Ok(v) => v,
            Err(e) => {
                assert(items_spec(b, (count - k) as nat) == Err::<(Seq<ListItemModel>, nat), DecodeError>(e));
                return Err(e);
            },
        };
        assert(b.skip(n as int) =~= body.skip(p + n - start));
        let ghost before = items@.map_values(|x: ListItem| x@);
        items.push(x);
        proof {
            assert(items@.map_values(|x: ListItem| x@) =~= before.push(x@));
            match items_spec(body.skip(p + n - start), (count - k - 1) as nat) {
                Ok((rest, m)) => {
                    assert(before + (seq![x@] + rest) =~= before.push(x@) + rest);
                },
                Err(_) => {},
            }
        }
        p = p + n;
        k = k + 1;
    }
    if p != end {
        return Err(DecodeError::InvalidValue);
    }
    Ok((items, 1 + w + size))
}

/// The key/value pairs of a map's elements, taken two by two.
pub open spec fn map_pairs(items: Seq<ListItemModel>) -> Seq<(ListItemModel, ListItemModel)> {
    Seq::new(items.len() / 2, |i: int| (items[2 * i], items[2 * i + 1]))
}

/// Whether two pairs of a map have the same key.
pub open spec fn has_duplicate_keys(pairs: Seq<(ListItemModel, ListItemModel)>) -> bool {
    exists|i: int, j: int| 0 <= i < j < pairs.len() && pairs[i].0 == pairs[j].0
}

/// The entries of the map encoded at the start of `s`, and its length: an
/// odd number of elements or a repeated key is an error.
pub open spec fn map_decode_spec(s: Seq<u8>) -> Result<
    (Seq<(ListItemModel, ListItemModel)>, nat),
    DecodeError,
> {
    match compound_decode_spec(s, None, MAP8, MAP32) {
        Err(e) => Err(e),
        Ok((items, n)) => if items.len() % 2 != 0 {
            Err(DecodeError::InvalidValue)
        } else if has_duplicate_keys(map_pairs(items)) {
            Err(DecodeError::DuplicateKey)
        } else {
            Ok((map_pairs(items), n))
        },
    }
}

fn primitive_eq(a: &Primitive, b: &Primitive) -> (r: bool)
    ensures
        r == (a@ == b@),
{
    match (a, b) {
        (Primitive::Null, Primitive::Null) => true,
        (Primitive::Bool(x), Primitive::Bool(y)) => *x == *y,
        (Primitive::Ubyte(x), Primitive::Ubyte(y)) => *x == *y,
        (Primitive::Ushort(x), Primitive::Ushort(y)) => *x == *y,
        (Primitive::Uint(x), Primitive::Uint(y)) => *x == *y,
        (Primitive::Ulong(x), Primitive::Ulong(y)) => *x == *y,
        (Primitive::Byte(x), Primitive::Byte(y)) => *x == *y,
        (Primitive::Short(x), Primitive::Short(y)) => *x == *y,
        (Primitive::Int(x), Primitive::Int(y)) => *x == *y,
        (Primitive::Long(x), Primitive::Long(y)) => *x == *y,
        (Primitive::Char(x), Primitive::Char(y)) => *x == *y,
        (Primitive::Timestamp(x), Primitive::Timestamp(y)) => *x == *y,
        (Primitive::Binary(x), Primitive::Binary(y)) => bytes_eq(x, y),
        (Primitive::String(x), Primitive::String(y)) => bytes_eq(x, y),
        (Primitive::Symbol(x), Primitive::Symbol(y)) => bytes_eq(x, y),
        _ => false,
    }
}

fn item_eq(a: &ListItem, b: &ListItem) -> (r: bool)
    ensures
        r == (a@ == b@),
{
    match (a, b) {
        (ListItem::Primitive(x), ListItem::Primitive(y)) => primitive_eq(x, y),
        (ListItem::Encoded(x), ListItem::Encoded(y)) => bytes_eq(x, y),
        _ => false,
    }
}

/// Decodes the map that starts at byte `pos`: its key/value pairs, in
/// order, and its length.
pub fn decode_map(s: &Vec<u8>, pos: usize) -> (r: Result<(Vec<(ListItem, ListItem)>, usize), DecodeError>)
    requires
        pos <= s@.len(),
    ensures
        match r {
            Ok((pairs, n)) => map_decode_spec(s@.skip(pos as int)) == Ok::<
                (Seq<(ListItemModel, ListItemModel)>, nat),
                DecodeError,
            >((pairs@.map_values(|p: (ListItem, ListItem)| (p.0@, p.1@)), n as nat)),
            Err(e) => map_decode_spec(s@.skip(pos as int)) == Err::<
                (Seq<(ListItemModel, ListItemModel)>, nat),
                DecodeError,
            >(e),
        },
{
    let (mut items, n) = match decode_compound(s, pos, None, MAP8, MAP32) {
        Ok(x) => x,
        Err(e) => return Err(e),
    };
    let ghost im = items@.map_values(|x: ListItem| x@);
    if items.len() % 2 != 0 {
        return Err(DecodeError::InvalidValue);
    }
    let len = items.len();
    let half = len / 2;
    let ghost pairs = map_pairs(im);
    let mut i: usize = 0;
    while i < half
        invariant
            compound_decode_spec(s@.skip(pos as int), None, MAP8, MAP32) == Ok::<
                (Seq<ListItemModel>, nat),
                DecodeError,
            >((im, n as nat)),
            im.len() % 2 == 0,
            half == pairs.len(),
            items@.len() == 2 * half,
            len == items@.len(),
            im == items@.map_values(|x: ListItem| x@),
            pairs == map_pairs(im),
            0 <= i <= half,
            forall|a: int, b: int| 0 <= a < i && a < b < half ==> pairs[a].0 != pairs[b].0,
        decreases half - i,
    {
        let mut j: usize = i + 1;
        while j < half
            invariant
                compound_decode_spec(s@.skip(pos as int), None, MAP8, MAP32) == Ok::<
                    (Seq<ListItemModel>, nat),
                    DecodeError,
                >((im, n as nat)),
                im.len() % 2 == 0,
                half == pairs.len(),
                items@.len() == 2 * half,
                len == items@.len(),
                im == items@.map_values(|x: ListItem| x@),
                pairs == map_pairs(im),
                0 <= i < half,
                i + 1 <= j <= half,
                forall|a: int, b: int| 0 <= a < i && a < b < half ==> pairs[a].0 != pairs[b].0,
                forall|b: int| i < b < j ==> pairs[i as int].0 != pairs[b].0,
            decreases half - j,
        {
            assert(pairs[i as int].0 == im[2 * i as int] && pairs[j as int].0 == im[2 * j as int]);
            if item_eq(&items[2 * i], &items[2 * j]) {
                assert(has_duplicate_keys(pairs));
                return Err(DecodeError::DuplicateKey);
            }
            j += 1;
        }
        i += 1;
    }
    assert(!has_duplicate_keys(pairs));
    let mut out: Vec<(ListItem, ListItem)> = Vec::new();
    let mut k: usize = 0;
    while k < half
        invariant
            compound_decode_spec(s@.skip(pos as int), None, MAP8, MAP32) == Ok::<
                (Seq<ListItemModel>, nat),
                DecodeError,
            >((im, n as nat)),
            im.len() % 2 == 0,
            half == pairs.len(),
            im.len() == 2 * half,
            pairs == map_pairs(im),
            0 <= k <= half,
            items@.map_values(|x: ListItem| x@) == im.skip(2 * k as int),
            items@.len() == 2 * (half - k),
            out@.map_values(|p: (ListItem, ListItem)| (p.0@, p.1@)) == pairs.take(k as int),
        decreases half - k,
    {
        let ghost rest = items@;
        let key = items.remove(0);
        let value = items.remove(0);
        assert(key@ == im[2 * k as int]) by {
            assert(rest.map_values(|x: ListItem| x@)[0] == im.skip(2 * k as int)[0]);
        }
        assert(value@ == im[2 * k + 1]) by {
            assert(rest.map_values(|x: ListItem| x@)[1] == im.skip(2 * k as int)[1]);
        }
        assert(items@ =~= rest.skip(2));
        assert(items@.map_values(|x: ListItem| x@) =~= rest.map_values(|x: ListItem| x@).skip(2));
        assert(items@.map_values(|x: ListItem| x@) =~= im.skip(2 * k + 2));
        let ghost before = out@.map_values(|p: (ListItem, ListItem)| (p.0@, p.1@));
        out.push((key, value));
        assert(out@.map_values(|p: (ListItem, ListItem)| (p.0@, p.1@)) =~= before.push(pairs[k as int]));
        assert(pairs.take(k + 1) =~= pairs.take(k as int).push(pairs[k as int]));
        k += 1;
    }
    assert(pairs.take(half as int) =~= pairs);
    Ok((out, n))
}

/// The UTF-8 bytes of a string.
pub uninterp spec fn utf8_of(s: Seq<char>) -> Seq<u8>;

/// Relies on `String::into_bytes`: the bytes of a string are its UTF-8
/// encoding, which depends on its characters alone.
#[verifier::external_body]
pub(crate) fn into_utf8(s: String) -> (r: Vec<u8>)
    ensures
        r@ == utf8_of(s@),
{
    s.into_bytes()
}

/// The elements of a symbol array in its one-byte form: each a length
/// byte and the bytes.
pub open spec fn sym8_elements(items: Seq<Seq<u8>>) -> Seq<u8>
    decreases items.len(),
{
    if items.len() == 0 {
        Seq::empty()
    } else {
        sym8_elements(items.drop_last()) + seq![items.last().len() as u8] + items.last()
    }
}

/// The elements of a symbol array in its four-byte form.
pub open spec fn sym32_elements(items: Seq<Seq<u8>>) -> Seq<u8>
    decreases items.len(),
{
    if items.len() == 0 {
        Seq::empty()
    } else {
        sym32_elements(items.drop_last()) + be32(items.last().len() as u32) + items.last()
    }
}

/// The one-byte array form fits: every symbol, the size and the count fit a byte.
pub open spec fn array8_fits(items: Seq<Seq<u8>>) -> bool {
    &&& forall|i: int| 0 <= i < items.len() ==> (#[trigger] items[i]).len() <= 255
    &&& sym8_elements(items).len() + 2 <= 255
    &&& items.len() <= 255
}

/// An array of symbols: one constructor for all elements, after the size
/// (counting the bytes after it) and the count.
pub open spec fn symbol_array_spec(items: Seq<Seq<u8>>) -> Seq<u8> {
    if array8_fits(items) {
        seq![ARRAY8, (sym8_elements(items).len() + 2) as u8, items.len() as u8, SYM8] + sym8_elements(
            items,
        )
    } else {
        seq![ARRAY32] + be32((sym32_elements(items).len() + 5) as u32) + be32(items.len() as u32)
            + seq![SYM32] + sym32_elements(items)
    }
}

/// The array fits the four-byte form.
pub open spec fn symbol_array_fits(items: Seq<Seq<u8>>) -> bool {
    sym32_elements(items).len() + 5 <= U32_MAX_AS_USIZE && items.len() <= U32_MAX_AS_USIZE
}

proof fn lemma_elements_len(items: Seq<Seq<u8>>)
    ensures
        sym8_elements(items).len() <= sym32_elements(items).len(),
    decreases items.len(),
{
    if items.len() > 0 {
        lemma_elements_len(items.drop_last());
    }
}

/// Appends an array of symbols given by their bytes; fails without
/// writing when it does not fit the four-byte form.
pub fn encode_symbol_array(out: &mut Vec<u8>, items: &Vec<Vec<u8>>) -> (r: Result<(), SerError>)
    ensures
        symbol_array_fits(items@.map_values(|b: Vec<u8>| b@)) ==> r is Ok && final(out)@ == old(out)@
            + symbol_array_spec(items@.map_values(|b: Vec<u8>| b@)),
        !symbol_array_fits(items@.map_values(|b: Vec<u8>| b@)) ==> r == Err::<(), SerError>(
            SerError::TooLong,
        ) && final(out)@ == old(out)@,
{
    let ghost m = items@.map_values(|b: Vec<u8>| b@);
    let mut e8: Vec<u8> = Vec::new();
    let mut e32: Vec<u8> = Vec::new();
    let mut short = true;
    let mut i: usize = 0;
    while i < items.len()
        invariant
            0 <= i <= items@.len(),
            m == items@.map_values(|b: Vec<u8>| b@),
            e8@ == sym8_elements(m.take(i as int)),
            e32@ == sym32_elements(m.take(i as int)),
            e32@.len() <= U32_MAX_AS_USIZE,
            short == forall|k: int| 0 <= k < i ==> (#[trigger] m[k]).len() <= 255,
        decreases items.len() - i,
    {
        let b = &items[i];
        assert(m.take(i + 1).drop_last() =~= m.take(i as int));
        assert(m[i as int] == b@);
        if e32.len() > U32_MAX_AS_USIZE - 4 || b.len() > U32_MAX_AS_USIZE - 4 - e32.len() {
            proof {
                lemma_sym32_grows(m, i as int);
            }
            return Err(SerError::TooLong);
        }
        if b.len() > 255 {
            short = false;
        }
        e8.push(b.len() as u8);
        put_bytes(&mut e8, b.as_slice());
        put_be32(&mut e32, b.len() as u32);
        put_bytes(&mut e32, b.as_slice());
        assert(e8@ =~= sym8_elements(m.take(i + 1)));
        assert(e32@ =~= sym32_elements(m.take(i + 1)));
        i += 1;
    }
    assert(m.take(i as int) =~= m);
    proof {
        lemma_elements_len(m);
    }
    if e32.len() > U32_MAX_AS_USIZE - 5 || items.len() > U32_MAX_AS_USIZE {
        return Err(SerError::TooLong);
    }
    let n = items.len();
    if short && e8.len() + 2 <= 255 && n <= 255 {
        out.push(ARRAY8);
        out.push((e8.len() + 2) as u8);
        out.push(n as u8);
        out.push(SYM8);
        put_bytes(out, e8.as_slice());
    } else {
        out.push(ARRAY32);
        put_be32(out, (e32.len() + 5) as u32);
        put_be32(out, n as u32);
        out.push(SYM32);
        put_bytes(out, e32.as_slice());
    }
    assert(final(out)@ =~= old(out)@ + symbol_array_spec(m));
    Ok(())
}

/// The four-byte elements of a longer prefix are no shorter.
proof fn lemma_sym32_grows(m: Seq<Seq<u8>>, i: int)
    requires
        0 <= i < m.len(),
    ensures
        sym32_elements(m).len() >= sym32_elements(m.take(i + 1)).len(),
        sym32_elements(m.take(i + 1)).len() == sym32_elements(m.take(i)).len() + 4 + m[i].len(),
    decreases m.len() - i,
{
    assert(m.take(i + 1).drop_last() =~= m.take(i));
    if i + 1 < m.len() {
        lemma_sym32_grows(m, i + 1);
    } else {
        assert(m.take(i + 1) =~= m);
    }
}

} // verus!
