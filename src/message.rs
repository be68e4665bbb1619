//! Messages: an ordered list of optional sections around one body, each
//! section a described value, and the decoding of a message from bytes.
use vstd::prelude::*;
use vstd::string::StringSliceAdditionalSpecFns;
use crate::codec::{
    copy_range, decode_primitive, decode_spec, encode_primitive, put_bytes, encode_spec, value_width, value_width_spec,
    DecodeError, Primitive, PrimitiveModel, DESCRIBED_TYPE, SMALL_ULONG, U32_MAX_AS_USIZE,
};

verus! {

/// Descriptor codes of the message sections.
pub const HEADER_CODE: u64 = 0x70;
pub const DELIVERY_ANNOTATIONS_CODE: u64 = 0x71;
pub const MESSAGE_ANNOTATIONS_CODE: u64 = 0x72;
pub const PROPERTIES_CODE: u64 = 0x73;
pub const APPLICATION_PROPERTIES_CODE: u64 = 0x74;
pub const DATA_CODE: u64 = 0x75;
pub const AMQP_SEQUENCE_CODE: u64 = 0x76;
pub const AMQP_VALUE_CODE: u64 = 0x77;
pub const FOOTER_CODE: u64 = 0x78;

/// The body of a message. Sequence and value bodies are held encoded.
#[derive(Debug)]
pub enum Body {
    /// A data section: opaque bytes.
    Data(Vec<u8>),
    /// An amqp-sequence section: the encoded list.
    Sequence(Vec<u8>),
    /// An amqp-value section: the encoded value.
    Value(Vec<u8>),
    /// No body section was present.
    Nothing,
}

/// A message. Each section other than the body is held as the encoding of
/// its value.
#[derive(Debug)]
pub struct Message {
    pub header: Option<Vec<u8>>,
    pub delivery_annotations: Option<Vec<u8>>,
    pub message_annotations: Option<Vec<u8>>,
    pub properties: Option<Vec<u8>>,
    pub application_properties: Option<Vec<u8>>,
    pub body: Body,
    pub footer: Option<Vec<u8>>,
}

/// Marks a builder whose body is not set yet.
#[derive(Debug)]
pub struct EmptyBody {}

/// Wraps a value to be encoded as a message part.
#[derive(Debug)]
pub struct Serializable<T>(pub T);

/// Wraps a value decoded from a message part.
#[derive(Debug)]
pub struct Deserializable<T>(pub T);

/// Builds a message section by section.
#[derive(Debug)]
pub struct Builder {
    pub header: Option<Vec<u8>>,
    pub delivery_annotations: Option<Vec<u8>>,
    pub message_annotations: Option<Vec<u8>>,
    pub properties: Option<Vec<u8>>,
    pub application_properties: Option<Vec<u8>>,
    pub body: Body,
    pub footer: Option<Vec<u8>>,
}

pub open spec fn count_some(o: Option<Vec<u8>>) -> nat {
    if o is Some {
        1
    } else {
        0
    }
}

impl Message {
    /// A builder with no section set.
    pub fn builder() -> (r: Builder)
        ensures
            r.header is None && r.delivery_annotations is None && r.message_annotations is None
                && r.properties is None && r.application_properties is None && r.body is Nothing
                && r.footer is None,
    {
        Builder::new()
    }

    /// The number of sections: the body and each optional section present.
    pub fn sections(&self) -> (r: u32)
        ensures
            r == 1 + count_some(self.header) + count_some(self.delivery_annotations) + count_some(
                self.message_annotations,
            ) + count_some(self.properties) + count_some(self.application_properties)
                + count_some(self.footer),
    {
        let mut count: u32 = 1;
        if self.header.is_some() {
            count += 1;
        }
        if self.delivery_annotations.is_some() {
            count += 1;
        }
        if self.message_annotations.is_some() {
            count += 1;
        }
        if self.properties.is_some() {
            count += 1;
        }
        if self.application_properties.is_some() {
            count += 1;
        }
        if self.footer.is_some() {
            count += 1;
        }
        count
    }

    /// The descriptor code of the last section: the footer when there is
    /// one, else the body's (data, sequence or value). Without either
    /// there is no section of those kinds, and the value code is given.
    pub fn last_section_code(&self) -> (r: u8)
        ensures
            self.footer is Some ==> r == 0x78,
            self.footer is None && self.body is Data ==> r == 0x75,
            self.footer is None && self.body is Sequence ==> r == 0x76,
            self.footer is None && self.body is Value ==> r == 0x77,
            self.footer is None && self.body is Nothing ==> r == 0x77,
    {
        if self.footer.is_some() {
            0x78
        } else {
            match self.body {
                Body::Data(_) => 0x75,
                Body::Sequence(_) => 0x76,
                _ => 0x77,
            }
        }
    }
}

impl Builder {
    pub fn new() -> (r: Builder)
        ensures
            r.header is None && r.delivery_annotations is None && r.message_annotations is None
                && r.properties is None && r.application_properties is None && r.body is Nothing
                && r.footer is None,
    {
        Builder {
            header: None,
            delivery_annotations: None,
            message_annotations: None,
            properties: None,
            application_properties: None,
            body: Body::Nothing,
            footer: None,
        }
    }

    /// Sets the body to one data section.
    pub fn data(self, data: Vec<u8>) -> (r: Builder)
        ensures
            r.body == Body::Data(data),
            r.header == self.header && r.delivery_annotations == self.delivery_annotations
                && r.message_annotations == self.message_annotations && r.properties
                == self.properties && r.application_properties == self.application_properties
                && r.footer == self.footer,
    {
        Builder { body: Body::Data(data), ..self }
    }

    /// Sets the body to an encoded amqp-value.
    pub fn value(self, encoded: Vec<u8>) -> (r: Builder)
        ensures
            r.body == Body::Value(encoded),
            r.header == self.header && r.delivery_annotations == self.delivery_annotations
                && r.message_annotations == self.message_annotations && r.properties
                == self.properties && r.application_properties == self.application_properties
                && r.footer == self.footer,
    {
        Builder { body: Body::Value(encoded), ..self }
    }

    /// Sets the body to an encoded amqp-sequence.
    pub fn sequence(self, encoded: Vec<u8>) -> (r: Builder)
        ensures
            r.body == Body::Sequence(encoded),
            r.header == self.header && r.delivery_annotations == self.delivery_annotations
                && r.message_annotations == self.message_annotations && r.properties
                == self.properties && r.application_properties == self.application_properties
                && r.footer == self.footer,
    {
        Builder { body: Body::Sequence(encoded), ..self }
    }

    pub fn header(self, header: Option<Vec<u8>>) -> (r: Builder)
        ensures
            r.header == header,
            r.body == self.body && r.delivery_annotations == self.delivery_annotations
                && r.message_annotations == self.message_annotations && r.properties
                == self.properties && r.application_properties == self.application_properties
                && r.footer == self.footer,
    {
        Builder { header, ..self }
    }

    pub fn delivery_annotations(self, delivery_annotations: Option<Vec<u8>>) -> (r: Builder)
        ensures
            r.delivery_annotations == delivery_annotations,
            r.body == self.body && r.header == self.header && r.message_annotations
                == self.message_annotations && r.properties == self.properties
                && r.application_properties == self.application_properties && r.footer
                == self.footer,
    {
        Builder { delivery_annotations, ..self }
    }

    pub fn message_annotations(self, message_annotations: Option<Vec<u8>>) -> (r: Builder)
        ensures
            r.message_annotations == message_annotations,
            r.body == self.body && r.header == self.header && r.delivery_annotations
                == self.delivery_annotations && r.properties == self.properties
                && r.application_properties == self.application_properties && r.footer
                == self.footer,
    {
        Builder { message_annotations, ..self }
    }

    pub fn properties(self, properties: Option<Vec<u8>>) -> (r: Builder)
        ensures
            r.properties == properties,
            r.body == self.body && r.header == self.header && r.delivery_annotations
                == self.delivery_annotations && r.message_annotations == self.message_annotations
                && r.application_properties == self.application_properties && r.footer
                == self.footer,
    {
        Builder { properties, ..self }
    }

    pub fn application_properties(self, application_properties: Option<Vec<u8>>) -> (r: Builder)
        ensures
            r.application_properties == application_properties,
            r.body == self.body && r.header == self.header && r.delivery_annotations
                == self.delivery_annotations && r.message_annotations == self.message_annotations
                && r.properties == self.properties && r.footer == self.footer,
    {
        Builder { application_properties, ..self }
    }

    pub fn footer(self, footer: Option<Vec<u8>>) -> (r: Builder)
        ensures
            r.footer == footer,
            r.body == self.body && r.header == self.header && r.delivery_annotations
                == self.delivery_annotations && r.message_annotations == self.message_annotations
                && r.properties == self.properties && r.application_properties
                == self.application_properties,
    {
        Builder { footer, ..self }
    }

    /// The message with the sections set so far.
    pub fn build(self) -> (r: Message)
        ensures
            r.header == self.header && r.delivery_annotations == self.delivery_annotations
                && r.message_annotations == self.message_annotations && r.properties
                == self.properties && r.application_properties == self.application_properties
                && r.body == self.body && r.footer == self.footer,
    {
        Message {
            header: self.header,
            delivery_annotations: self.delivery_annotations,
            message_annotations: self.message_annotations,
            properties: self.properties,
            application_properties: self.application_properties,
            body: self.body,
            footer: self.footer,
        }
    }
}

/// The mathematical value of a body.
pub enum BodyModel {
    Data(Seq<u8>),
    Sequence(Seq<u8>),
    Value(Seq<u8>),
    Nothing,
}

/// The mathematical value of a message.
pub struct MessageModel {
    pub header: Option<Seq<u8>>,
    pub delivery_annotations: Option<Seq<u8>>,
    pub message_annotations: Option<Seq<u8>>,
    pub properties: Option<Seq<u8>>,
    pub application_properties: Option<Seq<u8>>,
    pub body: BodyModel,
    pub footer: Option<Seq<u8>>,
}

pub open spec fn opt_view(o: Option<Vec<u8>>) -> Option<Seq<u8>> {
    match o {
        Some(v) => Some(v@),
        None => None,
    }
}

impl View for Message {
    type V = MessageModel;

    open spec fn view(&self) -> MessageModel {
        MessageModel {
            header: opt_view(self.header),
            delivery_annotations: opt_view(self.delivery_annotations),
            message_annotations: opt_view(self.message_annotations),
            properties: opt_view(self.properties),
            application_properties: opt_view(self.application_properties),
            body: match self.body {
                Body::Data(b) => BodyModel::Data(b@),
                Body::Sequence(b) => BodyModel::Sequence(b@),
                Body::Value(b) => BodyModel::Value(b@),
                Body::Nothing => BodyModel::Nothing,
            },
            footer: opt_view(self.footer),
        }
    }
}

/// The section code a descriptor names: a code in the section range, or
/// the symbolic name of a section.
pub open spec fn descriptor_code(d: PrimitiveModel) -> Option<u64> {
    match d {
        PrimitiveModel::Ulong(c) => if HEADER_CODE <= c <= FOOTER_CODE {
            Some(c)
        } else {
            None
        },
        PrimitiveModel::Symbol(b) => if b == "amqp:header:list".spec_bytes() {
            Some(HEADER_CODE)
        } else if b == "amqp:delivery-annotations:map".spec_bytes() {
            Some(DELIVERY_ANNOTATIONS_CODE)
        } else if b == "amqp:message-annotations:map".spec_bytes() {
            Some(MESSAGE_ANNOTATIONS_CODE)
        } else if b == "amqp:properties:list".spec_bytes() {
            Some(PROPERTIES_CODE)
        } else if b == "amqp:application-properties:map".spec_bytes() {
            Some(APPLICATION_PROPERTIES_CODE)
        } else if b == "amqp:data:binary".spec_bytes() {
            Some(DATA_CODE)
        } else if b == "amqp:amqp-sequence:list".spec_bytes() {
            Some(AMQP_SEQUENCE_CODE)
        } else if b == "amqp:amqp-value:*".spec_bytes() {
            Some(AMQP_VALUE_CODE)
        } else if b == "amqp:footer:map".spec_bytes() {
            Some(FOOTER_CODE)
        } else {
            None
        },
        _ => None,
    }
}

/// The section at the start of `s`: its code, what it holds (the bytes of
/// a data section, else the encoded value), and how many bytes it took.
#[verifier::opaque]
pub open spec fn section_at(s: Seq<u8>) -> Result<(u64, Seq<u8>, nat), DecodeError> {
    if s.len() == 0 {
        Err(DecodeError::NeedMore)
    } else if s[0] != DESCRIBED_TYPE {
        Err(DecodeError::InvalidFormatCode(s[0]))
    } else {
        match decode_spec(s.skip(1)) {
            Err(e) => Err(e),
            Ok((d, dn)) => match descriptor_code(d) {
                None => Err(DecodeError::UnknownDescriptor),
                Some(code) => {
                    let vs = 1 + dn;
                    match value_width_spec(s.skip(vs as int)) {
                        Err(e) => Err(e),
                        Ok(vw) => if vs + vw > s.len() {
                            Err(DecodeError::NeedMore)
                        } else if code == DATA_CODE {
                            match decode_spec(s.skip(vs as int)) {
                                Ok((PrimitiveModel::Binary(b), n)) => if n == vw {
                                    Ok((code, b, vs + vw))
                                } else {
                                    Err(DecodeError::UnknownDescriptor)
                                },
                                Ok(_) => Err(DecodeError::UnknownDescriptor),
                                Err(e) => Err(e),
                            }
                        } else {
                            Ok((code, s.subrange(vs as int, (vs + vw) as int), vs + vw))
                        },
                    }
                },
            },
        }
    }
}

/// The sections of an encoded message, in order.
pub open spec fn message_sections(s: Seq<u8>) -> Result<Seq<(u64, Seq<u8>)>, DecodeError>
    decreases s.len(),
{
    if s.len() == 0 {
        Ok(Seq::empty())
    } else {
        match section_at(s) {
            Err(e) => Err(e),
            Ok((code, part, n)) => if n == 0 || n > s.len() {
                Err(DecodeError::NeedMore)
            } else {
                match message_sections(s.skip(n as int)) {
                    Err(e) => Err(e),
                    Ok(rest) => Ok(seq![(code, part)] + rest),
                }
            },
        }
    }
}

pub open spec fn empty_message() -> MessageModel {
    MessageModel {
        header: None,
        delivery_annotations: None,
        message_annotations: None,
        properties: None,
        application_properties: None,
        body: BodyModel::Nothing,
        footer: None,
    }
}

/// A message with one more section taken in; a later section of a kind
/// replaces an earlier one.
pub open spec fn apply_section(m: MessageModel, code: u64, part: Seq<u8>) -> MessageModel {
    if code == HEADER_CODE {
        MessageModel { header: Some(part), ..m }
    } else if code == DELIVERY_ANNOTATIONS_CODE {
        MessageModel { delivery_annotations: Some(part), ..m }
    } else if code == MESSAGE_ANNOTATIONS_CODE {
        MessageModel { message_annotations: Some(part), ..m }
    } else if code == PROPERTIES_CODE {
        MessageModel { properties: Some(part), ..m }
    } else if code == APPLICATION_PROPERTIES_CODE {
        MessageModel { application_properties: Some(part), ..m }
    } else if code == DATA_CODE {
        MessageModel { body: BodyModel::Data(part), ..m }
    } else if code == AMQP_SEQUENCE_CODE {
        MessageModel { body: BodyModel::Sequence(part), ..m }
    } else if code == AMQP_VALUE_CODE {
        MessageModel { body: BodyModel::Value(part), ..m }
    } else {
        MessageModel { footer: Some(part), ..m }
    }
}

/// The message the sections make up.
pub open spec fn message_of(secs: Seq<(u64, Seq<u8>)>) -> MessageModel
    decreases secs.len(),
{
    if secs.len() == 0 {
        empty_message()
    } else {
        apply_section(message_of(secs.drop_last()), secs.last().0, secs.last().1)
    }
}

fn bytes_eq_lit(a: &Vec<u8>, b: &[u8]) -> (r: bool)
    ensures
        r == (a@ == b@),
{
    if a.len() != b.len() {
        return false;
    }
    let mut i: usize = 0;
    while i < a.len()
        invariant
            a@.len() == b@.len(),
            0 <= i <= a@.len(),
            a@.take(i as int) == b@.take(i as int),
        decreases a.len() - i,
    {
        if a[i] != b[i] {
            assert(a@[i as int] != b@[i as int]);
            return false;
        }
        assert(a@.take(i + 1) =~= a@.take(i as int).push(a@[i as int]));
        assert(b@.take(i + 1) =~= b@.take(i as int).push(b@[i as int]));
        i += 1;
    }
    assert(a@.take(i as int) =~= a@);
    assert(b@.take(i as int) =~= b@);
    true
}

fn section_code(d: &Primitive) -> (r: Option<u64>)
    ensures
        r == descriptor_code(d@),
{
    match d {
        Primitive::Ulong(c) => if HEADER_CODE <= *c && *c <= FOOTER_CODE {
            Some(*c)
        } else {
            None
        },
        Primitive::Symbol(b) => if bytes_eq_lit(b, "amqp:header:list".as_bytes()) {
            Some(HEADER_CODE)
        } else if bytes_eq_lit(b, "amqp:delivery-annotations:map".as_bytes()) {
            Some(DELIVERY_ANNOTATIONS_CODE)
        } else if bytes_eq_lit(b, "amqp:message-annotations:map".as_bytes()) {
            Some(MESSAGE_ANNOTATIONS_CODE)
        } else if bytes_eq_lit(b, "amqp:properties:list".as_bytes()) {
            Some(PROPERTIES_CODE)
        } else if bytes_eq_lit(b, "amqp:application-properties:map".as_bytes()) {
            Some(APPLICATION_PROPERTIES_CODE)
        } else if bytes_eq_lit(b, "amqp:data:binary".as_bytes()) {
            Some(DATA_CODE)
        } else if bytes_eq_lit(b, "amqp:amqp-sequence:list".as_bytes()) {
            Some(AMQP_SEQUENCE_CODE)
        } else if bytes_eq_lit(b, "amqp:amqp-value:*".as_bytes()) {
            Some(AMQP_VALUE_CODE)
        } else if bytes_eq_lit(b, "amqp:footer:map".as_bytes()) {
            Some(FOOTER_CODE)
        } else {
            None
        },
        _ => None,
    }
}

/// Reads the section that starts at byte `pos`.
fn read_section(s: &Vec<u8>, pos: usize) -> (r: Result<(u64, Vec<u8>, usize), DecodeError>)
    requires
        pos < s@.len(),
    ensures
        match r {
            Ok((code, part, n)) => section_at(s@.skip(pos as int)) == Ok::<
                (u64, Seq<u8>, nat),
                DecodeError,
            >((code, part@, n as nat)) && pos + n <= s@.len(),
            Err(e) => section_at(s@.skip(pos as int)) == Err::<(u64, Seq<u8>, nat), DecodeError>(e),
        },
{
    reveal(section_at);
    let len = s.len();
    let ghost t = s@.skip(pos as int);
    assert(t[0] == s@[pos as int]);
    if s[pos] != DESCRIBED_TYPE {
        return Err(DecodeError::InvalidFormatCode(s[pos]));
    }
    assert(t.skip(1) =~= s@.skip(pos + 1));
    let (d, dn) = match decode_primitive(s, pos + 1) {
        Ok(x) => x,
        Err(e) => return Err(e),
    };
    let code = match section_code(&d) {
        Some(c) => c,
        None => return Err(DecodeError::UnknownDescriptor),
    };
    let vs = 1 + dn;
    assert(t.skip(vs as int) =~= s@.skip((pos + vs) as int));
    let vw = match value_width(s, pos + vs) {
        Ok(w) => w,
        Err(e) => return Err(e),
    };
    if code == DATA_CODE {
        match decode_primitive(s, pos + vs) {
            Ok((Primitive::Binary(b), n)) => {
                if n == vw {
                    Ok((code, b, vs + vw))
                } else {
                    Err(DecodeError::UnknownDescriptor)
                }
            },
            Ok(_) => Err(DecodeError::UnknownDescriptor),
            Err(e) => Err(e),
        }
    } else {
        let part = copy_range(s, pos + vs, pos + vs + vw);
        assert(t.subrange(vs as int, (vs + vw) as int) =~= s@.subrange(
            (pos + vs) as int,
            (pos + vs + vw) as int,
        ));
        Ok((code, part, vs + vw))
    }
}

proof fn lemma_sections_step(t: Seq<u8>)
    requires
        t.len() > 0,
    ensures
        message_sections(t) == match section_at(t) {
            Err(e) => Err(e),
            Ok((code, part, n)) => if n == 0 || n > t.len() {
                Err(DecodeError::NeedMore)
            } else {
                match message_sections(t.skip(n as int)) {
                    Err(e) => Err(e),
                    Ok(rest) => Ok(seq![(code, part)] + rest),
                }
            },
        },
{
}

fn apply_section_exec(m: &mut Message, code: u64, part: Vec<u8>)
    ensures
        final(m)@ == apply_section(old(m)@, code, part@),
{
    if code == HEADER_CODE {
        m.header = Some(part);
    } else if code == DELIVERY_ANNOTATIONS_CODE {
        m.delivery_annotations = Some(part);
    } else if code == MESSAGE_ANNOTATIONS_CODE {
        m.message_annotations = Some(part);
    } else if code == PROPERTIES_CODE {
        m.properties = Some(part);
    } else if code == APPLICATION_PROPERTIES_CODE {
        m.application_properties = Some(part);
    } else if code == DATA_CODE {
        m.body = Body::Data(part);
    } else if code == AMQP_SEQUENCE_CODE {
        m.body = Body::Sequence(part);
    } else if code == AMQP_VALUE_CODE {
        m.body = Body::Value(part);
    } else {
        m.footer = Some(part);
    }
}

/// Decodes a message from its sections. A section of a kind that came
/// before replaces the earlier one; without a body section the body is
/// `Nothing`.
pub fn decode_message(s: &Vec<u8>) -> (r: Result<Message, DecodeError>)
    ensures
        match message_sections(s@) {
            Ok(secs) => r is Ok && r->Ok_0@ == message_of(secs),
            Err(e) => r == Err::<Message, DecodeError>(e),
        },
{
    let mut m = Message::builder().build();
    let ghost mut done: Seq<(u64, Seq<u8>)> = Seq::empty();
    let mut pos: usize = 0;
    assert(s@.skip(0) =~= s@);
    assert(m@ == message_of(done));
    assert(message_sections(s@) == match message_sections(s@.skip(0)) {
        Ok(r) => Ok(done + r),
        Err(e) => Err::<Seq<(u64, Seq<u8>)>, DecodeError>(e),
    }) by {
        match message_sections(s@) {
            Ok(r) => assert(done + r =~= r),
            Err(_) => {},
        }
    }
    while pos < s.len()
        invariant
            pos <= s@.len(),
            m@ == message_of(done),
            message_sections(s@) == match message_sections(s@.skip(pos as int)) {
                Ok(r) => Ok(done + r),
                Err(e) => Err::<Seq<(u64, Seq<u8>)>, DecodeError>(e),
            },
        decreases s.len() - pos,
    {
        let ghost t = s@.skip(pos as int);
        proof {
            lemma_sections_step(t);
        }
        let (code, part, n) = match read_section(s, pos) {
            Ok(x) => x,
            Err(e) => return Err(e),
        };
        if n == 0 {
            return Err(DecodeError::NeedMore);
        }
        assert(t.skip(n as int) =~= s@.skip((pos + n) as int));
        proof {
            let old_done = done;
            done = done.push((code, part@));
            assert(done.drop_last() =~= old_done);
            match message_sections(s@.skip((pos + n) as int)) {
                Ok(r) => {
                    assert(old_done + (seq![(code, part@)] + r) =~= done + r);
                },
                Err(_) => {},
            }
        }
        apply_section_exec(&mut m, code, part);
        pos = pos + n;
    }
    proof {
        assert(s@.skip(pos as int) =~= Seq::<u8>::empty());
        assert(done + Seq::<(u64, Seq<u8>)>::empty() =~= done);
    }
    Ok(m)
}

/// Decoding of a message from bytes.
pub trait DecodeIntoMessage: Sized {
    fn decode_into_message(bytes: &Vec<u8>) -> Result<Message, DecodeError>;
}

impl DecodeIntoMessage for Message {
    fn decode_into_message(bytes: &Vec<u8>) -> (r: Result<Message, DecodeError>)
        ensures
            match message_sections(bytes@) {
                Ok(secs) => r is Ok && r->Ok_0@ == message_of(secs),
                Err(e) => r == Err::<Message, DecodeError>(e),
            },
    {
        decode_message(bytes)
    }
}

/// The bytes of one section: the described-type constructor, the section's
/// code as a small ulong, then its value.
pub open spec fn section_bytes(code: u64, value: Seq<u8>) -> Seq<u8> {
    seq![DESCRIBED_TYPE, SMALL_ULONG, code as u8] + value
}

pub open spec fn opt_section(code: u64, o: Option<Seq<u8>>) -> Seq<u8> {
    match o {
        Some(v) => section_bytes(code, v),
        None => Seq::empty(),
    }
}

/// The encoding of a message: its sections present, in the standard order.
/// A data body is written as one binary value.
pub open spec fn message_bytes(m: MessageModel) -> Seq<u8> {
    opt_section(HEADER_CODE, m.header) + opt_section(DELIVERY_ANNOTATIONS_CODE, m.delivery_annotations)
        + opt_section(MESSAGE_ANNOTATIONS_CODE, m.message_annotations) + opt_section(
        PROPERTIES_CODE,
        m.properties,
    ) + opt_section(APPLICATION_PROPERTIES_CODE, m.application_properties) + match m.body {
        BodyModel::Data(b) => section_bytes(DATA_CODE, encode_spec(PrimitiveModel::Binary(b))),
        BodyModel::Sequence(v) => section_bytes(AMQP_SEQUENCE_CODE, v),
        BodyModel::Value(v) => section_bytes(AMQP_VALUE_CODE, v),
        BodyModel::Nothing => Seq::empty(),
    } + opt_section(FOOTER_CODE, m.footer)
}

fn put_section(out: &mut Vec<u8>, code: u64, value: &Option<Vec<u8>>)
    requires
        code <= 0xff,
    ensures
        final(out)@ == old(out)@ + opt_section(code, opt_view(*value)),
{
    match value {
        Some(v) => {
            out.push(DESCRIBED_TYPE);
            out.push(SMALL_ULONG);
            out.push(code as u8);
            put_bytes(out, v.as_slice());
            assert(final(out)@ =~= old(out)@ + opt_section(code, opt_view(*value)));
        },
        None => {
            assert(final(out)@ =~= old(out)@ + opt_section(code, opt_view(*value)));
        },
    }
}

impl Message {
    /// A message of a body alone.
    pub fn from_body(body: Body) -> (r: Message)
        ensures
            r.body == body,
            r.header is None && r.delivery_annotations is None && r.message_annotations is None
                && r.properties is None && r.application_properties is None && r.footer is None,
    {
        Message {
            header: None,
            delivery_annotations: None,
            message_annotations: None,
            properties: None,
            application_properties: None,
            body,
            footer: None,
        }
    }

    /// Encodes the message section by section.
    pub fn encode(&self) -> (r: Vec<u8>)
        requires
            self.body matches Body::Data(b) ==> b@.len() <= U32_MAX_AS_USIZE,
        ensures
            r@ == message_bytes(self@),
    {
        let mut out: Vec<u8> = Vec::new();
        put_section(&mut out, HEADER_CODE, &self.header);
        put_section(&mut out, DELIVERY_ANNOTATIONS_CODE, &self.delivery_annotations);
        put_section(&mut out, MESSAGE_ANNOTATIONS_CODE, &self.message_annotations);
        put_section(&mut out, PROPERTIES_CODE, &self.properties);
        put_section(&mut out, APPLICATION_PROPERTIES_CODE, &self.application_properties);
        match &self.body {
            Body::Data(b) => {
                out.push(DESCRIBED_TYPE);
                out.push(SMALL_ULONG);
                out.push(DATA_CODE as u8);
                let p = Primitive::Binary(copy_range(b, 0, b.len()));
                assert(b@.subrange(0, b@.len() as int) =~= b@);
                encode_primitive(&mut out, &p);
            },
            Body::Sequence(v) => {
                out.push(DESCRIBED_TYPE);
                out.push(SMALL_ULONG);
                out.push(AMQP_SEQUENCE_CODE as u8);
                put_bytes(&mut out, v.as_slice());
            },
            Body::Value(v) => {
                out.push(DESCRIBED_TYPE);
                out.push(SMALL_ULONG);
                out.push(AMQP_VALUE_CODE as u8);
                put_bytes(&mut out, v.as_slice());
            },
            Body::Nothing => {},
        }
        put_section(&mut out, FOOTER_CODE, &self.footer);
        assert(out@ =~= message_bytes(self@));
        out
    }
}

} // verus!
