//! The twelve-octet header of a DNS message.
//!
//! ```text
//!   0  1  2  3  4  5  6  7  8  9 10 11 12 13 14 15
//! +--+--+--+--+--+--+--+--+--+--+--+--+--+--+--+--+
//! |                      ID                       |
//! |QR|  Opcode   |AA|TC|RD|RA|   Z    |   RCODE   |
//! |                    QDCOUNT                    |
//! |                    ANCOUNT                    |
//! |                    NSCOUNT                    |
//! |                    ARCOUNT                    |
//! +--+--+--+--+--+--+--+--+--+--+--+--+--+--+--+--+
//! ```

use super::error::{Fault, PacketError, TransactionError};
use crate::buffer::{
    buf_put_u16, buf_put_u8, buf_seq, bytes_seq, read_u16, read_u8, u16_at, u16_bytes,
};
use crate::text::{decimal, decimal_string};
use bytes::{Bytes, BytesMut};
use vstd::prelude::*;
use vstd::string::StringExecFns;
use vstd::std_specs::convert::FromSpecImpl;

verus! {

pub const QR_MASK: u8 = 0x80;

pub const OP_MASK: u8 = 0x78;

pub const AA_MASK: u8 = 0x04;

pub const TC_MASK: u8 = 0x02;

pub const RD_MASK: u8 = 0x01;

pub const RA_MASK: u8 = 0x80;

pub const Z_MASK: u8 = 0x70;

pub const RC_MASK: u8 = 0x0f;

/// The length of a header on the wire.
pub const HEADER_SIZE: usize = 12;

/// Operation code of a message.
#[derive(PartialEq, Eq, Debug, Copy, Clone, Hash, Structural)]
pub enum Op {
    Query,
    IQuery,
    Status,
    Reserved(u8),
}

/// The operation that a code stands for.
pub open spec fn op_of(value: u8) -> Op {
    if value == 0 {
        Op::Query
    } else if value == 1 {
        Op::IQuery
    } else if value == 2 {
        Op::Status
    } else {
        Op::Reserved(value)
    }
}

/// The code of an operation.
pub open spec fn op_code(op: Op) -> u8 {
    match op {
        Op::Query => 0,
        Op::IQuery => 1,
        Op::Status => 2,
        Op::Reserved(value) => value,
    }
}

impl From<u8> for Op {
    fn from(value: u8) -> (r: Self)
        ensures
            r == op_of(value),
    {
        match value {
            0 => Op::Query,
            1 => Op::IQuery,
            2 => Op::Status,
            value => Op::Reserved(value),
        }
    }
}

impl FromSpecImpl<u8> for Op {
    open spec fn obeys_from_spec() -> bool {
        true
    }

    open spec fn from_spec(value: u8) -> Self {
        op_of(value)
    }
}

impl From<Op> for u8 {
    fn from(key: Op) -> (r: Self)
        ensures
            r == op_code(key),
    {
        match key {
            Op::Query => 0,
            Op::IQuery => 1,
            Op::Status => 2,
            Op::Reserved(value) => value,
        }
    }
}

impl FromSpecImpl<Op> for u8 {
    open spec fn obeys_from_spec() -> bool {
        true
    }

    open spec fn from_spec(key: Op) -> Self {
        op_code(key)
    }
}

impl Op {
    /// The operation's name.
    pub fn to_string(&self) -> (s: String)
        ensures
            *self == Op::Query ==> s@ == "Query"@,
            *self == Op::IQuery ==> s@ == "Inverse Query"@,
            *self == Op::Status ==> s@ == "Status"@,
            self is Reserved ==> s@ == unknown_operation_text(self->Reserved_0),
    {
        match *self {
            Op::Query => "Query".to_owned(),
            Op::IQuery => "Inverse Query".to_owned(),
            Op::Status => "Status".to_owned(),
            Op::Reserved(x) => unknown_operation(x),
        }
    }
}

/// A reserved operation code as text: the words `Unknown Operation
/// Code: ` and the code in decimal.
pub open spec fn unknown_operation_text(code: u8) -> Seq<char> {
    "Unknown Operation Code: "@ + decimal(code as nat)
}

/// A reserved operation code as text.
fn unknown_operation(code: u8) -> (s: String)
    ensures
        s@ == unknown_operation_text(code),
{
    let mut s = "Unknown Operation Code: ".to_owned();
    let digits = decimal_string(code as u16);
    s.append(digits.as_str());
    s
}

/// Response code of a message.
#[derive(PartialEq, Eq, Debug, Copy, Clone, Hash, Structural)]
pub enum Rcode {
    NoError,
    FormatError,
    ServFail,
    NameError,
    NotImpl,
    Refused,
    Reserved(u8),
}

/// The response that a code stands for.
pub open spec fn rcode_of(value: u8) -> Rcode {
    if value == 0 {
        Rcode::NoError
    } else if value == 1 {
        Rcode::FormatError
    } else if value == 2 {
        Rcode::ServFail
    } else if value == 3 {
        Rcode::NameError
    } else if value == 4 {
        Rcode::NotImpl
    } else if value == 5 {
        Rcode::Refused
    } else {
        Rcode::Reserved(value)
    }
}

/// The code of a response.
pub open spec fn rcode_code(rcode: Rcode) -> u8 {
    match rcode {
        Rcode::NoError => 0,
        Rcode::FormatError => 1,
        Rcode::ServFail => 2,
        Rcode::NameError => 3,
        Rcode::NotImpl => 4,
        Rcode::Refused => 5,
        Rcode::Reserved(value) => value,
    }
}

impl From<u8> for Rcode {
    fn from(value: u8) -> (r: Self)
        ensures
            r == rcode_of(value),
    {
        match value {
            0 => Rcode::NoError,
            1 => Rcode::FormatError,
            2 => Rcode::ServFail,
            3 => Rcode::NameError,
            4 => Rcode::NotImpl,
            5 => Rcode::Refused,
            value => Rcode::Reserved(value),
        }
    }
}

impl FromSpecImpl<u8> for Rcode {
    open spec fn obeys_from_spec() -> bool {
        true
    }

    open spec fn from_spec(value: u8) -> Self {
        rcode_of(value)
    }
}

impl From<Rcode> for u8 {
    fn from(key: Rcode) -> (r: Self)
        ensures
            r == rcode_code(key),
    {
        match key {
            Rcode::NoError => 0,
            Rcode::FormatError => 1,
            Rcode::ServFail => 2,
            Rcode::NameError => 3,
            Rcode::NotImpl => 4,
            Rcode::Refused => 5,
            Rcode::Reserved(value) => value,
        }
    }
}

impl FromSpecImpl<Rcode> for u8 {
    open spec fn obeys_from_spec() -> bool {
        true
    }

    open spec fn from_spec(key: Rcode) -> Self {
        rcode_code(key)
    }
}

/// DNS header.
#[derive(Debug, Clone, Copy)]
pub struct Header {
    /// transaction id of the message
    id: u16,
    /// whether the message is a query (true) or a response (false)
    is_query: bool,
    /// kind of query
    opcode: Op,
    /// authoritative answer
    is_auth: bool,
    /// truncated message
    is_trunc: bool,
    /// recursion desired
    is_rec_des: bool,
    /// recursion available
    is_rec_avl: bool,
    /// reserved bits
    z: u8,
    /// response code
    response: Rcode,
    /// entries in the question section
    questions: u16,
    /// records in the answer section
    answers: u16,
    /// records in the authority section
    authorities: u16,
    /// records in the additional section
    additional: u16,
}

/// What a header says.
pub struct HeaderView {
    pub id: u16,
    pub is_query: bool,
    pub opcode: Op,
    pub is_auth: bool,
    pub is_trunc: bool,
    pub is_rec_des: bool,
    pub is_rec_avl: bool,
    pub z: u8,
    pub response: Rcode,
    pub questions: u16,
    pub answers: u16,
    pub authorities: u16,
    pub additional: u16,
}

impl HeaderView {
    /// Every field fits the bits that the wire format gives it, and a
    /// reserved code is not one of the named ones.
    pub open spec fn wf(self) -> bool {
        &&& self.z <= 7
        &&& op_code(self.opcode) <= 15
        &&& op_of(op_code(self.opcode)) == self.opcode
        &&& rcode_code(self.response) <= 15
        &&& rcode_of(rcode_code(self.response)) == self.response
    }
}

/// The third octet of a header: QR, Opcode, AA, TC, RD.
pub open spec fn flags_high(h: HeaderView) -> u8 {
    let q: u8 = if h.is_query { 0 } else { 1 };
    let aa: u8 = if h.is_auth { 1 } else { 0 };
    let tc: u8 = if h.is_trunc { 1 } else { 0 };
    let rd: u8 = if h.is_rec_des { 1 } else { 0 };
    (q << 7) | (op_code(h.opcode) << 3) | (aa << 2) | (tc << 1) | rd
}

/// The fourth octet of a header: RA, Z, RCODE.
pub open spec fn flags_low(h: HeaderView) -> u8 {
    let ra: u8 = if h.is_rec_avl { 1 } else { 0 };
    (ra << 7) | (h.z << 4) | rcode_code(h.response)
}

/// The twelve octets of a header.
pub open spec fn header_wire(h: HeaderView) -> Seq<u8> {
    u16_bytes(h.id) + seq![flags_high(h), flags_low(h)] + u16_bytes(h.questions) + u16_bytes(
        h.answers,
    ) + u16_bytes(h.authorities) + u16_bytes(h.additional)
}

/// The header that the twelve octets of `s` from `pos` on spell, whatever
/// its question count.
pub open spec fn header_at(s: Seq<u8>, pos: int) -> HeaderView {
    let a = s[pos + 2];
    let b = s[pos + 3];
    HeaderView {
        id: u16_at(s, pos),
        is_query: a & QR_MASK != QR_MASK,
        opcode: op_of((a & OP_MASK) >> 3),
        is_auth: a & AA_MASK == AA_MASK,
        is_trunc: a & TC_MASK == TC_MASK,
        is_rec_des: a & RD_MASK == RD_MASK,
        is_rec_avl: b & RA_MASK == RA_MASK,
        z: (b & Z_MASK) >> 4,
        response: rcode_of(b & RC_MASK),
        questions: u16_at(s, pos + 4),
        answers: u16_at(s, pos + 6),
        authorities: u16_at(s, pos + 8),
        additional: u16_at(s, pos + 10),
    }
}

/// Parsing a header at `pos` of `s`: fewer than twelve octets are a
/// format error with no id; more than one question is a server failure
/// under the id read.
pub open spec fn parse_header(s: Seq<u8>, pos: int) -> Result<HeaderView, Fault> {
    if pos < 0 || pos + 12 > s.len() {
        Err((None, Rcode::FormatError))
    } else if u16_at(s, pos + 4) > 1 {
        Err((Some(u16_at(s, pos)), Rcode::ServFail))
    } else {
        Ok(header_at(s, pos))
    }
}

/// Parsing a header from the octets `s` that a stream gave before it
/// ended or failed, read field by field: the id is known once two octets
/// are there, the question count is judged once six are.
pub open spec fn parse_header_stream(s: Seq<u8>) -> Result<HeaderView, Fault> {
    if s.len() < 2 {
        Err((None, Rcode::FormatError))
    } else if s.len() < 6 {
        Err((Some(u16_at(s, 0)), Rcode::FormatError))
    } else if u16_at(s, 4) > 1 {
        Err((Some(u16_at(s, 0)), Rcode::ServFail))
    } else if s.len() < 12 {
        Err((Some(u16_at(s, 0)), Rcode::FormatError))
    } else {
        Ok(header_at(s, 0))
    }
}

impl View for Header {
    type V = HeaderView;

    closed spec fn view(&self) -> HeaderView {
        HeaderView {
            id: self.id,
            is_query: self.is_query,
            opcode: self.opcode,
            is_auth: self.is_auth,
            is_trunc: self.is_trunc,
            is_rec_des: self.is_rec_des,
            is_rec_avl: self.is_rec_avl,
            z: self.z,
            response: self.response,
            questions: self.questions,
            answers: self.answers,
            authorities: self.authorities,
            additional: self.additional,
        }
    }
}

impl Header {
    /// What the header of a query under `id` says.
    pub open spec fn new_query_view(id: u16) -> HeaderView {
        HeaderView {
            id,
            is_query: true,
            opcode: Op::Query,
            is_auth: false,
            is_trunc: false,
            is_rec_des: true,
            is_rec_avl: false,
            z: 0,
            response: Rcode::NoError,
            questions: 1,
            answers: 0,
            authorities: 0,
            additional: 0,
        }
    }

    /// What the header of an empty response under `id` says.
    pub open spec fn new_answer_view(id: u16) -> HeaderView {
        HeaderView {
            id,
            is_query: false,
            opcode: Op::Query,
            is_auth: false,
            is_trunc: false,
            is_rec_des: true,
            is_rec_avl: true,
            z: 0,
            response: Rcode::NoError,
            questions: 0,
            answers: 0,
            authorities: 0,
            additional: 0,
        }
    }

    /// The header of a standard query with one question that asks for
    /// recursion.
    pub fn new_query(id: u16) -> (r: Self)
        ensures
            r@ == (HeaderView {
                id,
                is_query: true,
                opcode: Op::Query,
                is_auth: false,
                is_trunc: false,
                is_rec_des: true,
                is_rec_avl: false,
                z: 0,
                response: Rcode::NoError,
                questions: 1,
                answers: 0,
                authorities: 0,
                additional: 0,
            }),
    {
        Header {
            id,
            is_query: true,
            opcode: Op::Query,
            is_auth: false,
            is_trunc: false,
            is_rec_des: true,
            is_rec_avl: false,
            z: 0,
            response: Rcode::NoError,
            questions: 1,
            answers: 0,
            authorities: 0,
            additional: 0,
        }
    }

    /// The header of a successful response with the given record counts
    /// and no question.
    pub fn new_answer(id: u16, answers: u16, authorities: u16, additional: u16) -> (r: Self)
        ensures
            r@ == (HeaderView {
                id,
                is_query: false,
                opcode: Op::Query,
                is_auth: false,
                is_trunc: false,
                is_rec_des: true,
                is_rec_avl: true,
                z: 0,
                response: Rcode::NoError,
                questions: 0,
                answers,
                authorities,
                additional,
            }),
    {
        Header {
            id,
            is_query: false,
            opcode: Op::Query,
            is_auth: false,
            is_trunc: false,
            is_rec_des: true,
            is_rec_avl: true,
            z: 0,
            response: Rcode::NoError,
            questions: 0,
            answers,
            authorities,
            additional,
        }
    }

    /// The header of an empty response that reports `error`.
    pub fn new_failure(id: u16, error: PacketError) -> (r: Self)
        ensures
            r@ == (HeaderView {
                id,
                is_query: false,
                opcode: Op::Query,
                is_auth: false,
                is_trunc: false,
                is_rec_des: false,
                is_rec_avl: false,
                z: 0,
                response: error.spec_rcode(),
                questions: 0,
                answers: 0,
                authorities: 0,
                additional: 0,
            }),
    {
        let rcode = error.rcode();
        Header {
            id,
            is_query: false,
            opcode: Op::Query,
            is_auth: false,
            is_trunc: false,
            is_rec_des: false,
            is_rec_avl: false,
            z: 0,
            response: rcode,
            questions: 0,
            answers: 0,
            authorities: 0,
            additional: 0,
        }
    }

    /// transaction id
    #[inline]
    pub fn get_id(&self) -> (r: u16)
        ensures
            r == self@.id,
    {
        self.id
    }

    /// is a query or not
    #[inline]
    pub fn is_query(&self) -> (r: bool)
        ensures
            r == self@.is_query,
    {
        self.is_query
    }

    /// operation code
    #[inline]
    pub fn get_op(&self) -> (r: Op)
        ensures
            r == self@.opcode,
    {
        self.opcode
    }

    /// is the answer authoritative
    #[inline]
    pub fn is_auth(&self) -> (r: bool)
        ensures
            r == self@.is_auth,
    {
        self.is_auth
    }

    /// is the message truncated
    #[inline]
    pub fn is_trunc(&self) -> (r: bool)
        ensures
            r == self@.is_trunc,
    {
        self.is_trunc
    }

    /// is recursion desired
    #[inline]
    pub fn is_rec_des(&self) -> (r: bool)
        ensures
            r == self@.is_rec_des,
    {
        self.is_rec_des
    }

    /// is recursion available
    #[inline]
    pub fn is_rec_avl(&self) -> (r: bool)
        ensures
            r == self@.is_rec_avl,
    {
        self.is_rec_avl
    }

    /// the reserved bits
    #[inline]
    pub fn get_z(&self) -> (r: u8)
        ensures
            r == self@.z,
    {
        self.z
    }

    /// response code
    #[inline]
    pub fn get_rcode(&self) -> (r: Rcode)
        ensures
            r == self@.response,
    {
        self.response
    }

    /// how many questions the message holds
    #[inline]
    pub fn question_count(&self) -> (r: u16)
        ensures
            r == self@.questions,
    {
        self.questions
    }

    /// how many answers the message holds
    #[inline]
    pub fn answer_count(&self) -> (r: u16)
        ensures
            r == self@.answers,
    {
        self.answers
    }

    /// how many authority records the message holds
    #[inline]
    pub fn authority_count(&self) -> (r: u16)
        ensures
            r == self@.authorities,
    {
        self.authorities
    }

    /// how many additional records the message holds
    #[inline]
    pub fn addition_count(&self) -> (r: u16)
        ensures
            r == self@.additional,
    {
        self.additional
    }

    pub fn set_questions(&mut self, questions: u16)
        ensures
            final(self)@ == (HeaderView { questions, ..old(self)@ }),
    {
        self.questions = questions;
    }

    pub fn set_answers(&mut self, answers: u16)
        ensures
            final(self)@ == (HeaderView { answers, ..old(self)@ }),
    {
        self.answers = answers;
    }

    pub fn set_authorities(&mut self, authorities: u16)
        ensures
            final(self)@ == (HeaderView { authorities, ..old(self)@ }),
    {
        self.authorities = authorities;
    }

    pub fn set_additional(&mut self, additional: u16)
        ensures
            final(self)@ == (HeaderView { additional, ..old(self)@ }),
    {
        self.additional = additional;
    }

    /// The header that the octets from `pos` on spell, its question
    /// count not yet judged.
    fn decode(packet: &Bytes, pos: usize) -> (r: Self)
        requires
            pos + 12 <= bytes_seq(*packet).len() <= usize::MAX,
        ensures
            r@ == header_at(bytes_seq(*packet), pos as int),
    {
        let id = read_u16(packet, pos).unwrap();
        let a = read_u8(packet, pos + 2).unwrap();
        let b = read_u8(packet, pos + 3).unwrap();
        let questions = read_u16(packet, pos + 4).unwrap();
        let answers = read_u16(packet, pos + 6).unwrap();
        let authorities = read_u16(packet, pos + 8).unwrap();
        let additional = read_u16(packet, pos + 10).unwrap();
        Header {
            id,
            is_query: a & QR_MASK != QR_MASK,
            opcode: Op::from((a & OP_MASK) >> 3),
            is_auth: a & AA_MASK == AA_MASK,
            is_trunc: a & TC_MASK == TC_MASK,
            is_rec_des: a & RD_MASK == RD_MASK,
            is_rec_avl: b & RA_MASK == RA_MASK,
            z: (b & Z_MASK) >> 4,
            response: Rcode::from(b & RC_MASK),
            questions,
            answers,
            authorities,
            additional,
        }
    }

    /// Parses the header that starts at `pos` of `packet`.
    pub fn parse(packet: Bytes, pos: usize) -> (r: Result<Self, TransactionError>)
        ensures
            match r {
                Ok(h) => parse_header(bytes_seq(packet), pos as int) == Ok::<HeaderView, Fault>(
                    h@,
                ),
                Err(e) => parse_header(bytes_seq(packet), pos as int) == Err::<HeaderView, Fault>(
                    e.fault(),
                ),
            },
    {
        let len = packet.len();
        if pos > len || len - pos < 12 {
            return Err(TransactionError { id: None, error: PacketError::FormatError });
        }
        let h = Self::decode(&packet, pos);
        if h.questions > 1 {
            // more than one question in a message is not served
            return Err(TransactionError { id: Some(h.id), error: PacketError::ServFail });
        }
        Ok(h)
    }

    /// Parses a header from the octets that a stream yielded for it: all
    /// twelve, or fewer where the stream ended or failed first.
    pub fn parse_stream(head: Bytes) -> (r: Result<Self, TransactionError>)
        ensures
            match r {
                Ok(h) => parse_header_stream(bytes_seq(head)) == Ok::<HeaderView, Fault>(h@),
                Err(e) => parse_header_stream(bytes_seq(head)) == Err::<HeaderView, Fault>(
                    e.fault(),
                ),
            },
    {
        let len = head.len();
        if len < 2 {
            return Err(TransactionError { id: None, error: PacketError::FormatError });
        }
        let id = read_u16(&head, 0).unwrap();
        if len < 6 {
            return Err(TransactionError { id: Some(id), error: PacketError::FormatError });
        }
        let questions = read_u16(&head, 4).unwrap();
        if questions > 1 {
            return Err(TransactionError { id: Some(id), error: PacketError::ServFail });
        }
        if len < 12 {
            return Err(TransactionError { id: Some(id), error: PacketError::FormatError });
        }
        Ok(Self::decode(&head, 0))
    }

    /// The twelve octets of the header.
    pub fn try_into_bytes(self) -> (r: Result<BytesMut, PacketError>)
        ensures
            r is Ok,
            buf_seq(r.unwrap()) == header_wire(self@),
    {
        let mut buf = BytesMut::with_capacity(12);
        buf_put_u16(&mut buf, self.id);
        let q: u8 = if self.is_query { 0 } else { 1 };
        let op: u8 = self.opcode.into();
        let aa: u8 = if self.is_auth { 1 } else { 0 };
        let tc: u8 = if self.is_trunc { 1 } else { 0 };
        let rd: u8 = if self.is_rec_des { 1 } else { 0 };
        let a: u8 = (q << 7) | (op << 3) | (aa << 2) | (tc << 1) | rd;
        buf_put_u8(&mut buf, a);
        let ra: u8 = if self.is_rec_avl { 1 } else { 0 };
        let rc: u8 = self.response.into();
        let b: u8 = (ra << 7) | (self.z << 4) | rc;
        buf_put_u8(&mut buf, b);
        buf_put_u16(&mut buf, self.questions);
        buf_put_u16(&mut buf, self.answers);
        buf_put_u16(&mut buf, self.authorities);
        buf_put_u16(&mut buf, self.additional);
        Ok(buf)
    }

    /// The length of a header on the wire.
    #[inline]
    pub fn size(&self) -> (r: usize)
        ensures
            r == 12,
    {
        12
    }
}

} // verus!
