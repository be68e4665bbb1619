//! Framing of the byte stream: the protocol header exchanged first, then
//! frames of `size | doff | type | channel | extended header | body`.
use vstd::prelude::*;
use crate::codec::{
    be16, be32, copy_range, decode_primitive, put_be16, put_be32, read_be32, decode_spec, from_be16, from_be32, lemma_be16, lemma_be32,
    value_width, value_width_spec, DecodeError, Primitive, PrimitiveModel, DESCRIBED_TYPE,
};

verus! {

/// Frame type of AMQP frames.
pub const FRAME_TYPE_AMQP: u8 = 0x00;

/// Frame type of SASL frames.
pub const FRAME_TYPE_SASL: u8 = 0x01;

/// Length of the fixed frame header.
pub const FRAME_HEADER_LEN: usize = 8;

/// Which protocol a header announces.
#[derive(Clone, Copy, Debug, PartialEq, Eq, Structural)]
pub enum ProtocolId {
    Amqp,
    Tls,
    Sasl,
}

pub open spec fn protocol_id_byte(id: ProtocolId) -> u8 {
    match id {
        ProtocolId::Amqp => 0x00,
        ProtocolId::Tls => 0x02,
        ProtocolId::Sasl => 0x03,
    }
}

/// The eight bytes each side writes first: `"AMQP" id major minor revision`.
#[derive(Clone, Copy, Debug, PartialEq, Eq, Structural)]
pub struct ProtocolHeader {
    pub id: ProtocolId,
    pub major: u8,
    pub minor: u8,
    pub revision: u8,
}

/// Why bytes are not a protocol header.
#[derive(Clone, Copy, Debug, PartialEq, Eq, Structural)]
pub enum HeaderError {
    NeedMore,
    InvalidPrefix,
    UnknownProtocolId(u8),
}

pub open spec fn header_spec(h: ProtocolHeader) -> Seq<u8> {
    seq![0x41u8, 0x4Du8, 0x51u8, 0x50u8, protocol_id_byte(h.id), h.major, h.minor, h.revision]
}

impl ProtocolHeader {
    pub open spec fn amqp_spec() -> ProtocolHeader {
        ProtocolHeader { id: ProtocolId::Amqp, major: 1, minor: 0, revision: 0 }
    }

    /// The AMQP 1.0.0 header.
    pub fn amqp() -> (r: ProtocolHeader)
        ensures
            r == ProtocolHeader::amqp_spec(),
    {
        ProtocolHeader { id: ProtocolId::Amqp, major: 1, minor: 0, revision: 0 }
    }

    /// The SASL 1.0.0 header.
    pub fn sasl() -> (r: ProtocolHeader)
        ensures
            r == (ProtocolHeader { id: ProtocolId::Sasl, major: 1, minor: 0, revision: 0 }),
    {
        ProtocolHeader { id: ProtocolId::Sasl, major: 1, minor: 0, revision: 0 }
    }

    /// The AMQP-over-TLS 1.0.0 header.
    pub fn tls() -> (r: ProtocolHeader)
        ensures
            r == (ProtocolHeader { id: ProtocolId::Tls, major: 1, minor: 0, revision: 0 }),
    {
        ProtocolHeader { id: ProtocolId::Tls, major: 1, minor: 0, revision: 0 }
    }

    pub fn encode(&self) -> (r: Vec<u8>)
        ensures
            r@ == header_spec(*self),
    {
        let id: u8 = match self.id {
            ProtocolId::Amqp => 0x00,
            ProtocolId::Tls => 0x02,
            ProtocolId::Sasl => 0x03,
        };
        let mut v: Vec<u8> = Vec::new();
        v.push(0x41);
        v.push(0x4D);
        v.push(0x51);
        v.push(0x50);
        v.push(id);
        v.push(self.major);
        v.push(self.minor);
        v.push(self.revision);
        assert(v@ =~= header_spec(*self));
        v
    }

    /// Reads a header from the first eight bytes.
    pub fn decode(b: &Vec<u8>) -> (r: Result<ProtocolHeader, HeaderError>)
        ensures
            b@.len() < 8 ==> r == Err::<ProtocolHeader, HeaderError>(HeaderError::NeedMore),
            r is Ok ==> header_spec(r->Ok_0) == b@.take(8),
            b@.len() >= 8 && (exists|h: ProtocolHeader| header_spec(h) == b@.take(8)) ==> r is Ok,
    {
        if b.len() < 8 {
            return Err(HeaderError::NeedMore);
        }
        if b[0] != 0x41 || b[1] != 0x4D || b[2] != 0x51 || b[3] != 0x50 {
            proof {
                if exists|h: ProtocolHeader| header_spec(h) == b@.take(8) {
                    let h = choose|h: ProtocolHeader| header_spec(h) == b@.take(8);
                    assert(header_spec(h)[0] == b@[0] && header_spec(h)[1] == b@[1]
                        && header_spec(h)[2] == b@[2] && header_spec(h)[3] == b@[3]);
                }
            }
            return Err(HeaderError::InvalidPrefix);
        }
        let id = if b[4] == 0x00 {
            ProtocolId::Amqp
        } else if b[4] == 0x02 {
            ProtocolId::Tls
        } else if b[4] == 0x03 {
            ProtocolId::Sasl
        } else {
            proof {
                if exists|h: ProtocolHeader| header_spec(h) == b@.take(8) {
                    let h = choose|h: ProtocolHeader| header_spec(h) == b@.take(8);
                    assert(header_spec(h)[4] == b@[4]);
                }
            }
            return Err(HeaderError::UnknownProtocolId(b[4]));
        };
        let h = ProtocolHeader { id, major: b[5], minor: b[6], revision: b[7] };
        assert(header_spec(h) =~= b@.take(8));
        Ok(h)
    }
}

/// A frame: the channel it travels on and its body bytes (a performative,
/// then for `transfer` the payload). An empty body is a heartbeat.
#[derive(Debug)]
pub struct Frame {
    pub channel: u16,
    pub body: Vec<u8>,
}

impl Frame {
    pub fn new(channel: u16, body: Vec<u8>) -> (r: Frame)
        ensures
            r.channel == channel,
            r.body == body,
    {
        Frame { channel, body }
    }

    /// A heartbeat: channel 0, empty body.
    pub fn empty() -> (r: Frame)
        ensures
            r.channel == 0,
            r.body@.len() == 0,
    {
        Frame { channel: 0, body: Vec::new() }
    }

    pub fn channel(&self) -> (r: u16)
        ensures
            r == self.channel,
    {
        self.channel
    }

    pub fn body(&self) -> (r: &Vec<u8>)
        ensures
            *r == self.body,
    {
        &self.body
    }

    pub fn into_body(self) -> (r: Vec<u8>)
        ensures
            r == self.body,
    {
        self.body
    }
}

/// Why bytes are not a frame.
#[derive(Clone, Copy, Debug, PartialEq, Eq, Structural)]
pub enum FrameError {
    /// The size field is below the fixed header, or the data offset points
    /// outside the frame or below it.
    MalformedFrame,
    /// The frame type is not AMQP.
    NotAmqpFrame(u8),
    /// The body is longer than a 32-bit size field can describe.
    TooLong,
}

/// The bytes of an AMQP frame as this codec writes it: no extended header.
pub open spec fn frame_spec(channel: u16, body: Seq<u8>) -> Seq<u8> {
    be32((body.len() + 8) as u32) + seq![2u8, FRAME_TYPE_AMQP] + be16(channel) + body
}

/// The outcome of reading a frame from the start of `s`: `None` while the
/// whole frame has not arrived yet, else its channel, its body and its size.
pub open spec fn frame_decode_spec(s: Seq<u8>) -> Result<Option<(u16, Seq<u8>, nat)>, FrameError> {
    if s.len() < 4 {
        Ok(None)
    } else {
        let size = from_be32(s[0], s[1], s[2], s[3]) as nat;
        if size < 8 {
            Err(FrameError::MalformedFrame)
        } else if s.len() < size {
            Ok(None)
        } else {
            let doff = s[4] as nat;
            if s[5] != FRAME_TYPE_AMQP {
                Err(FrameError::NotAmqpFrame(s[5]))
            } else if doff < 2 || doff * 4 > size {
                Err(FrameError::MalformedFrame)
            } else {
                Ok(Some((from_be16(s[6], s[7]), s.subrange((doff * 4) as int, size as int), size)))
            }
        }
    }
}

/// Reads and writes frames.
pub struct FrameCodec {}

impl FrameCodec {
    /// Appends a frame to `dst`; fails without writing when the frame would
    /// be longer than a 32-bit size.
    pub fn encode(&self, item: &Frame, dst: &mut Vec<u8>) -> (r: Result<(), FrameError>)
        ensures
            item.body@.len() + 8 <= 0xffff_ffff ==> r is Ok && final(dst)@ == old(dst)@ + frame_spec(
                item.channel,
                item.body@,
            ),
            item.body@.len() + 8 > 0xffff_ffff ==> r == Err::<(), FrameError>(FrameError::TooLong)
                && final(dst)@ == old(dst)@,
    {
        let len = item.body.len();
        if len > 0xffff_fff7 {
            return Err(FrameError::TooLong);
        }
        put_be32(dst, (len + 8) as u32);
        dst.push(2);
        dst.push(FRAME_TYPE_AMQP);
        put_be16(dst, item.channel);
        let mut i: usize = 0;
        while i < len
            invariant
                len == item.body@.len(),
                0 <= i <= len,
                dst@ == old(dst)@ + be32((len + 8) as u32) + seq![2u8, FRAME_TYPE_AMQP] + be16(
                    item.channel,
                ) + item.body@.take(i as int),
            decreases len - i,
        {
            dst.push(item.body[i]);
            assert(item.body@.take(i + 1) =~= item.body@.take(i as int).push(item.body@[i as int]));
            i += 1;
        }
        assert(item.body@.take(i as int) =~= item.body@);
        assert(dst@ =~= old(dst)@ + frame_spec(item.channel, item.body@));
        Ok(())
    }

    /// Reads the frame at the start of `src`: `Ok(None)` until all its bytes
    /// are there, else the frame and how many bytes it took. A data offset
    /// beyond 2 skips the extended header.
    pub fn decode(&self, src: &Vec<u8>) -> (r: Result<Option<(Frame, usize)>, FrameError>)
        ensures
            match r {
                Ok(None) => frame_decode_spec(src@) == Ok::<
                    Option<(u16, Seq<u8>, nat)>,
                    FrameError,
                >(None),
                Ok(Some((f, n))) => frame_decode_spec(src@) == Ok::<
                    Option<(u16, Seq<u8>, nat)>,
                    FrameError,
                >(Some((f.channel, f.body@, n as nat))),
                Err(e) => frame_decode_spec(src@) == Err::<Option<(u16, Seq<u8>, nat)>, FrameError>(
                    e,
                ),
            },
    {
        if src.len() < 4 {
            return Ok(None);
        }
        let size = read_be32(src, 0);
        if size < 8 {
            return Err(FrameError::MalformedFrame);
        }
        if (src.len() as u64) < size as u64 {
            return Ok(None);
        }
        let size = size as usize;
        let doff = src[4] as usize;
        let ftype = src[5];
        if ftype != FRAME_TYPE_AMQP {
            return Err(FrameError::NotAmqpFrame(ftype));
        }
        if doff < 2 || doff * 4 > size {
            return Err(FrameError::MalformedFrame);
        }
        let channel = ((src[6] as u16) << 8u16) | (src[7] as u16);
        let mut body: Vec<u8> = Vec::new();
        let mut i = doff * 4;
        while i < size
            invariant
                doff * 4 <= i <= size <= src@.len(),
                body@ == src@.subrange(doff * 4, i as int),
            decreases size - i,
        {
            body.push(src[i]);
            i += 1;
        }
        Ok(Some((Frame { channel, body }, size)))
    }
}

impl FrameCodec {
    /// Reads a frame whose size field a length-delimiting reader has
    /// already taken off: `doff | type | channel | extended header | body`.
    pub fn decode_after_size(&self, src: &Vec<u8>) -> (r: Result<Frame, FrameError>)
        ensures
            src@.len() < 4 ==> r == Err::<Frame, FrameError>(FrameError::MalformedFrame),
            src@.len() >= 4 ==> {
                let doff = src@[0] as nat;
                if src@[1] != FRAME_TYPE_AMQP {
                    r == Err::<Frame, FrameError>(FrameError::NotAmqpFrame(src@[1]))
                } else if doff < 2 || doff * 4 > src@.len() + 4 {
                    r == Err::<Frame, FrameError>(FrameError::MalformedFrame)
                } else {
                    r is Ok && r->Ok_0.channel == from_be16(src@[2], src@[3]) && r->Ok_0.body@
                        == src@.skip(doff * 4 - 4)
                }
            },
    {
        if src.len() < 4 {
            return Err(FrameError::MalformedFrame);
        }
        let doff = src[0] as usize;
        let ftype = src[1];
        if ftype != FRAME_TYPE_AMQP {
            return Err(FrameError::NotAmqpFrame(ftype));
        }
        if doff < 2 || doff * 4 - 4 > src.len() {
            return Err(FrameError::MalformedFrame);
        }
        let channel = ((src[2] as u16) << 8u16) | (src[3] as u16);
        let body = copy_range(src, doff * 4 - 4, src.len());
        assert(src@.subrange(doff * 4 - 4, src@.len() as int) =~= src@.skip(doff * 4 - 4));
        Ok(Frame { channel, body })
    }
}

/// A frame written by this codec reads back as the same channel and body,
/// taking exactly its bytes; its size field is its length.
pub proof fn lemma_frame_roundtrip(channel: u16, body: Seq<u8>, rest: Seq<u8>)
    requires
        body.len() + 8 <= 0xffff_ffff,
    ensures
        frame_decode_spec(frame_spec(channel, body) + rest) == Ok::<
            Option<(u16, Seq<u8>, nat)>,
            FrameError,
        >(Some((channel, body, frame_spec(channel, body).len()))),
        ({
            let s = frame_spec(channel, body);
            from_be32(s[0], s[1], s[2], s[3]) as nat == s.len()
        }),
{
    let s = frame_spec(channel, body) + rest;
    let n = (body.len() + 8) as u32;
    lemma_be32(n);
    lemma_be16(channel);
    assert(s[0] == be32(n)[0] && s[1] == be32(n)[1] && s[2] == be32(n)[2] && s[3] == be32(n)[3]);
    assert(s[4] == 2 && s[5] == FRAME_TYPE_AMQP);
    assert(s[6] == be16(channel)[0] && s[7] == be16(channel)[1]);
    assert(s.subrange(8, (body.len() + 8) as int) =~= body);
}

/// Reading a well-formed AMQP frame without an extended header and writing
/// it again gives back the same bytes.
pub proof fn lemma_frame_reencode(s: Seq<u8>)
    requires
        s.len() >= 8,
        s[4] == 2,
        frame_decode_spec(s) is Ok,
        frame_decode_spec(s)->Ok_0 is Some,
        (frame_decode_spec(s)->Ok_0->0).2 == s.len(),
    ensures
        ({
            let (channel, body, n) = frame_decode_spec(s)->Ok_0->0;
            frame_spec(channel, body) == s
        }),
{
    let (channel, body, n) = frame_decode_spec(s)->Ok_0->0;
    let a = s[0];
    let b = s[1];
    let c = s[2];
    let d = s[3];
    let size = from_be32(a, b, c, d);
    assert(size as nat == s.len());
    assert(body.len() + 8 == size);
    let e = be32(size);
    assert(e[0] == a && e[1] == b && e[2] == c && e[3] == d) by {
        assert((((((a as u32) << 24u32) | ((b as u32) << 16u32) | ((c as u32) << 8u32) | (d as u32))
            >> 24u32) as u8) == a) by (bit_vector);
        assert(((((((a as u32) << 24u32) | ((b as u32) << 16u32) | ((c as u32) << 8u32) | (d as u32))
            >> 16u32) & 0xffu32) as u8) == b) by (bit_vector);
        assert(((((((a as u32) << 24u32) | ((b as u32) << 16u32) | ((c as u32) << 8u32) | (d as u32))
            >> 8u32) & 0xffu32) as u8) == c) by (bit_vector);
        assert((((((a as u32) << 24u32) | ((b as u32) << 16u32) | ((c as u32) << 8u32) | (d as u32))
            & 0xffu32) as u8) == d) by (bit_vector);
    }
    let x = s[6];
    let y = s[7];
    let ch = be16(from_be16(x, y));
    assert(ch[0] == x && ch[1] == y) by {
        assert((((((x as u16) << 8u16) | (y as u16)) >> 8u16) as u8) == x) by (bit_vector);
        assert((((((x as u16) << 8u16) | (y as u16)) & 0xffu16) as u8) == y) by (bit_vector);
    }
    assert(frame_spec(channel, body) =~= s);
}

/// Descriptor codes of the performatives.
pub const OPEN_CODE: u64 = 0x10;
pub const BEGIN_CODE: u64 = 0x11;
pub const ATTACH_CODE: u64 = 0x12;
pub const FLOW_CODE: u64 = 0x13;
pub const TRANSFER_CODE: u64 = 0x14;
pub const DISPOSITION_CODE: u64 = 0x15;
pub const DETACH_CODE: u64 = 0x16;
pub const END_CODE: u64 = 0x17;
pub const CLOSE_CODE: u64 = 0x18;

/// The body of a frame: nothing (a heartbeat), or a performative, held
/// encoded with its descriptor code, and for `transfer` the payload after it.
#[derive(Debug)]
pub enum FrameBody {
    Empty,
    Performative { code: u64, performative: Vec<u8>, payload: Option<Vec<u8>> },
}

impl FrameBody {
    /// A body from a performative and its code; the payload is kept only
    /// for `transfer`.
    pub fn from_parts(code: u64, performative: Vec<u8>, payload: Option<Vec<u8>>) -> (r: FrameBody)
        ensures
            r matches FrameBody::Performative { code: c, performative: p, payload: q } && c == code
                && p == performative && q == (if code == TRANSFER_CODE {
                payload
            } else {
                None
            }),
    {
        let payload = if code == TRANSFER_CODE {
            payload
        } else {
            None
        };
        FrameBody::Performative { code, performative, payload }
    }

    pub fn open(performative: Vec<u8>) -> (r: FrameBody)
        ensures
            r == (FrameBody::Performative { code: OPEN_CODE, performative, payload: None }),
    {
        FrameBody::Performative { code: OPEN_CODE, performative, payload: None }
    }

    pub fn begin(performative: Vec<u8>) -> (r: FrameBody)
        ensures
            r == (FrameBody::Performative { code: BEGIN_CODE, performative, payload: None }),
    {
        FrameBody::Performative { code: BEGIN_CODE, performative, payload: None }
    }

    pub fn attach(performative: Vec<u8>) -> (r: FrameBody)
        ensures
            r == (FrameBody::Performative { code: ATTACH_CODE, performative, payload: None }),
    {
        FrameBody::Performative { code: ATTACH_CODE, performative, payload: None }
    }

    pub fn flow(performative: Vec<u8>) -> (r: FrameBody)
        ensures
            r == (FrameBody::Performative { code: FLOW_CODE, performative, payload: None }),
    {
        FrameBody::Performative { code: FLOW_CODE, performative, payload: None }
    }

    pub fn transfer(performative: Vec<u8>, payload: Option<Vec<u8>>) -> (r: FrameBody)
        ensures
            r == (FrameBody::Performative { code: TRANSFER_CODE, performative, payload }),
    {
        FrameBody::Performative { code: TRANSFER_CODE, performative, payload }
    }

    pub fn disposition(performative: Vec<u8>) -> (r: FrameBody)
        ensures
            r == (FrameBody::Performative { code: DISPOSITION_CODE, performative, payload: None }),
    {
        FrameBody::Performative { code: DISPOSITION_CODE, performative, payload: None }
    }

    pub fn detach(performative: Vec<u8>) -> (r: FrameBody)
        ensures
            r == (FrameBody::Performative { code: DETACH_CODE, performative, payload: None }),
    {
        FrameBody::Performative { code: DETACH_CODE, performative, payload: None }
    }

    pub fn end(performative: Vec<u8>) -> (r: FrameBody)
        ensures
            r == (FrameBody::Performative { code: END_CODE, performative, payload: None }),
    {
        FrameBody::Performative { code: END_CODE, performative, payload: None }
    }

    pub fn close(performative: Vec<u8>) -> (r: FrameBody)
        ensures
            r == (FrameBody::Performative { code: CLOSE_CODE, performative, payload: None }),
    {
        FrameBody::Performative { code: CLOSE_CODE, performative, payload: None }
    }

    /// The body of a heartbeat.
    pub fn empty() -> (r: FrameBody)
        ensures
            r is Empty,
    {
        FrameBody::Empty
    }
}

/// What a non-empty frame body starts with: a performative's code and the
/// length of its encoding.
pub open spec fn performative_spec(s: Seq<u8>) -> Result<(u64, nat), DecodeError> {
    if s.len() == 0 {
        Err(DecodeError::NeedMore)
    } else if s[0] != DESCRIBED_TYPE {
        Err(DecodeError::InvalidFormatCode(s[0]))
    } else {
        match decode_spec(s.skip(1)) {
            Err(e) => Err(e),
            Ok((PrimitiveModel::Ulong(c), _)) => if OPEN_CODE <= c <= CLOSE_CODE {
                match value_width_spec(s) {
                    Err(e) => Err(e),
                    Ok(w) => Ok((c, w)),
                }
            } else {
                Err(DecodeError::UnknownDescriptor)
            },
            Ok(_) => Err(DecodeError::UnknownDescriptor),
        }
    }
}

/// Reads and writes frame bodies.
pub struct FrameBodyCodec {}

impl FrameBodyCodec {
    /// Appends a body: the performative, then the payload if any.
    pub fn encode(&self, item: &FrameBody, dst: &mut Vec<u8>)
        ensures
            item is Empty ==> final(dst)@ == old(dst)@,
            item matches FrameBody::Performative { performative, payload, .. } ==> final(dst)@ == old(
                dst,
            )@ + performative@ + match payload {
                Some(p) => p@,
                None => Seq::<u8>::empty(),
            },
    {
        match item {
            FrameBody::Empty => {},
            FrameBody::Performative { performative, payload, .. } => {
                let ghost start = dst@;
                let mut i: usize = 0;
                while i < performative.len()
                    invariant
                        0 <= i <= performative@.len(),
                        dst@ == start + performative@.take(i as int),
                    decreases performative.len() - i,
                {
                    dst.push(performative[i]);
                    assert(performative@.take(i + 1) =~= performative@.take(i as int).push(
                        performative@[i as int],
                    ));
                    i += 1;
                }
                assert(performative@.take(i as int) =~= performative@);
                let ghost mid = dst@;
                match payload {
                    Some(p) => {
                        let mut j: usize = 0;
                        while j < p.len()
                            invariant
                                0 <= j <= p@.len(),
                                dst@ == mid + p@.take(j as int),
                            decreases p.len() - j,
                        {
                            dst.push(p[j]);
                            assert(p@.take(j + 1) =~= p@.take(j as int).push(p@[j as int]));
                            j += 1;
                        }
                        assert(p@.take(j as int) =~= p@);
                    },
                    None => {
                        assert(mid + Seq::<u8>::empty() =~= mid);
                    },
                }
            },
        }
    }

    /// Reads a body: empty is a heartbeat; otherwise a performative with a
    /// known code, and for `transfer` the bytes after it as payload.
    pub fn decode(&self, src: &Vec<u8>) -> (r: Result<FrameBody, DecodeError>)
        ensures
            src@.len() == 0 ==> r is Ok && r->Ok_0 is Empty,
            src@.len() > 0 ==> match performative_spec(src@) {
                Err(e) => r == Err::<FrameBody, DecodeError>(e),
                Ok((code, w)) => r is Ok && (r->Ok_0 matches FrameBody::Performative {
                    code: c,
                    performative,
                    payload,
                } && c == code && performative@ == src@.take(w as int) && (if code == TRANSFER_CODE
                    && w < src@.len() {
                    payload is Some && payload->0@ == src@.skip(w as int)
                } else {
                    payload is None
                })),
            },
    {
        if src.len() == 0 {
            return Ok(FrameBody::Empty);
        }
        if src[0] != DESCRIBED_TYPE {
            return Err(DecodeError::InvalidFormatCode(src[0]));
        }
        let code = match decode_primitive(src, 1) {
            Err(e) => return Err(e),
            Ok((Primitive::Ulong(c), _)) => {
                if OPEN_CODE <= c && c <= CLOSE_CODE {
                    c
                } else {
                    return Err(DecodeError::UnknownDescriptor);
                }
            },
            Ok(_) => return Err(DecodeError::UnknownDescriptor),
        };
        assert(src@.skip(0) =~= src@);
        let w = match value_width(src, 0) {
            Err(e) => return Err(e),
            Ok(w) => w,
        };
        let performative = copy_range(src, 0, w);
        assert(src@.subrange(0, w as int) =~= src@.take(w as int));
        let payload = if code == TRANSFER_CODE && w < src.len() {
            let p = copy_range(src, w, src.len());
            assert(src@.subrange(w as int, src@.len() as int) =~= src@.skip(w as int));
            Some(p)
        } else {
            None
        };
        Ok(FrameBody::Performative { code, performative, payload })
    }
}

} // verus!
