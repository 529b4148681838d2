//! Whole DNS messages: a header, at most one question, and three
//! sections of resource records.

use super::error::{Fault, PacketError, TransactionError};
use super::header::{
    header_wire, parse_header, Header, HeaderView, Op, Rcode, HEADER_SIZE,
};
use super::question::{parse_question, question_wire, Question, QuestionView};
use super::rr::{parse_rr, rr_wire, RRView, RR};
use crate::buffer::{
    buf_as_slice, buf_put_slice, buf_put_u16, buf_seq, bytes_seq, read_u16, u16_at, u16_bytes,
};
use bytes::{Bytes, BytesMut};
use vstd::prelude::*;

verus! {

/// The longest message that a stream frame can carry.
pub const MAX_FRAME: usize = 65535;

/// What a message says.
pub struct PacketView {
    pub header: HeaderView,
    pub questions: Seq<QuestionView>,
    pub answers: Seq<RRView>,
    pub authorities: Seq<RRView>,
    pub additions: Seq<RRView>,
}

/// The questions that a vector of questions holds.
pub open spec fn questions_view(v: Seq<Question>) -> Seq<QuestionView> {
    Seq::new(v.len(), |i: int| v[i]@)
}

/// The records that a vector of records holds.
pub open spec fn records_view(v: Seq<RR>) -> Seq<RRView> {
    Seq::new(v.len(), |i: int| v[i]@)
}

/// Questions on the wire, one after another.
pub open spec fn questions_wire(qs: Seq<QuestionView>) -> Seq<u8>
    decreases qs.len(),
{
    if qs.len() == 0 {
        Seq::empty()
    } else {
        questions_wire(qs.drop_last()) + question_wire(qs.last())
    }
}

/// Records on the wire, one after another.
pub open spec fn records_wire(rrs: Seq<RRView>) -> Seq<u8>
    decreases rrs.len(),
{
    if rrs.len() == 0 {
        Seq::empty()
    } else {
        records_wire(rrs.drop_last()) + rr_wire(rrs.last())
    }
}

/// Every record's data can be written.
pub open spec fn records_encodable(rrs: Seq<RRView>) -> bool {
    forall|i: int| 0 <= i < rrs.len() ==> (#[trigger] rrs[i]).rdata.encodable()
}

impl PacketView {
    /// The counts in the header are the lengths of the sections.
    pub open spec fn counted(self) -> bool {
        &&& self.header.questions == self.questions.len()
        &&& self.header.answers == self.answers.len()
        &&& self.header.authorities == self.authorities.len()
        &&& self.header.additional == self.additions.len()
    }

    /// The message can be written: its counts are right and the data of
    /// each record can be written.
    pub open spec fn emittable(self) -> bool {
        &&& self.counted()
        &&& records_encodable(self.answers)
        &&& records_encodable(self.authorities)
        &&& records_encodable(self.additions)
    }

    /// The message can be written and read back as the same message: it
    /// has at most one question, no answers if it is a query, right
    /// counts, and well-formed parts.
    pub open spec fn wf(self) -> bool {
        &&& self.counted()
        &&& self.header.wf()
        &&& self.questions.len() <= 1
        &&& !(self.header.is_query && self.answers.len() != 0)
        &&& forall|i: int| 0 <= i < self.questions.len() ==> (#[trigger] self.questions[i]).wf()
        &&& forall|i: int| 0 <= i < self.answers.len() ==> (#[trigger] self.answers[i]).wf()
        &&& forall|i: int|
            0 <= i < self.authorities.len() ==> (#[trigger] self.authorities[i]).wf()
        &&& forall|i: int| 0 <= i < self.additions.len() ==> (#[trigger] self.additions[i]).wf()
    }
}

/// The wire form of a message: the header, the questions, then answers,
/// authorities and additions.
pub open spec fn packet_wire(p: PacketView) -> Seq<u8> {
    header_wire(p.header) + questions_wire(p.questions) + records_wire(p.answers) + records_wire(
        p.authorities,
    ) + records_wire(p.additions)
}

/// `count` questions read one after another from `pos` of `s`, and the
/// offset behind the last.
pub open spec fn questions_at(s: Seq<u8>, pos: int, count: nat) -> Option<
    (Seq<QuestionView>, int),
>
    decreases count,
{
    if count == 0 {
        Some((Seq::empty(), pos))
    } else {
        match parse_question(s, pos) {
            Some((q, next)) => match questions_at(s, next, (count - 1) as nat) {
                Some((rest, end)) => Some((seq![q] + rest, end)),
                None => None,
            },
            None => None,
        }
    }
}

/// `count` records read one after another from `pos` of `s`, and the
/// offset behind the last.
pub open spec fn records_at(s: Seq<u8>, pos: int, count: nat) -> Option<(Seq<RRView>, int)>
    decreases count,
{
    if count == 0 {
        Some((Seq::empty(), pos))
    } else {
        match parse_rr(s, pos) {
            Some((rr, next)) => match records_at(s, next, (count - 1) as nat) {
                Some((rest, end)) => Some((seq![rr] + rest, end)),
                None => None,
            },
            None => None,
        }
    }
}

/// The sections of a message whose header `h` was read, from `pos` on.
#[verifier::opaque]
pub open spec fn sections_at(s: Seq<u8>, pos: int, h: HeaderView) -> Option<PacketView> {
    match questions_at(s, pos, h.questions as nat) {
        Some((questions, at_answers)) => match records_at(s, at_answers, h.answers as nat) {
            Some((answers, at_authorities)) => match records_at(
                s,
                at_authorities,
                h.authorities as nat,
            ) {
                Some((authorities, at_additions)) => match records_at(
                    s,
                    at_additions,
                    h.additional as nat,
                ) {
                    Some((additions, _)) => Some(
                        PacketView { header: h, questions, answers, authorities, additions },
                    ),
                    None => None,
                },
                None => None,
            },
            None => None,
        },
        None => None,
    }
}

/// Parsing a message at `offset` of `s`. The header's faults are its
/// own; a query that claims answers, and anything malformed or cut off
/// behind the header, is a format error under the header's id.
pub open spec fn parse_packet(s: Seq<u8>, offset: int) -> Result<PacketView, Fault> {
    match parse_header(s, offset) {
        Err(fault) => Err(fault),
        Ok(h) => if h.is_query && h.answers != 0 {
            Err((Some(h.id), Rcode::FormatError))
        } else {
            match sections_at(s, offset + 12, h) {
                Some(p) => Ok(p),
                None => Err((Some(h.id), Rcode::FormatError)),
            }
        },
    }
}

/// How long the message of a frame is, from what a stream gave for the
/// frame's 16-bit length. Nothing at all is the end of the stream,
/// reported as a server failure; a length cut off or under 12 is a
/// format error.
pub open spec fn frame_length_of(s: Seq<u8>) -> Result<int, Fault> {
    if s.len() == 0 {
        Err((None, Rcode::ServFail))
    } else if s.len() < 2 || u16_at(s, 0) < 12 {
        Err((None, Rcode::FormatError))
    } else {
        Ok(u16_at(s, 0) as int)
    }
}

/// Parsing one message from what a stream gave for a frame: a 16-bit
/// length and that many octets. The faults of the length are its own; a
/// message cut off is a format error, under its id where two octets of
/// it came.
pub open spec fn parse_frame(s: Seq<u8>) -> Result<PacketView, Fault> {
    match frame_length_of(s) {
        Err(fault) => Err(fault),
        Ok(n) => if s.len() < 2 + n {
            if s.len() < 4 {
                Err((None, Rcode::FormatError))
            } else {
                Err((Some(u16_at(s, 2)), Rcode::FormatError))
            }
        } else {
            parse_packet(s.subrange(2, 2 + n), 0)
        },
    }
}

/// What the header of a failure response says.
pub open spec fn failure_header(id: u16, rcode: Rcode) -> HeaderView {
    HeaderView {
        id,
        is_query: false,
        opcode: Op::Query,
        is_auth: false,
        is_trunc: false,
        is_rec_des: false,
        is_rec_avl: false,
        z: 0,
        response: rcode,
        questions: 0,
        answers: 0,
        authorities: 0,
        additional: 0,
    }
}

/// What an empty response says that reports `rcode` under `id`.
pub open spec fn failure_view(id: u16, rcode: Rcode) -> PacketView {
    PacketView {
        header: failure_header(id, rcode),
        questions: Seq::empty(),
        answers: Seq::empty(),
        authorities: Seq::empty(),
        additions: Seq::empty(),
    }
}

/// What a query for `question` under `id` says.
pub open spec fn query_view(id: u16, question: QuestionView) -> PacketView {
    PacketView {
        header: Header::new_query_view(id),
        questions: seq![question],
        answers: Seq::empty(),
        authorities: Seq::empty(),
        additions: Seq::empty(),
    }
}

/// What an empty response under `id` says.
pub open spec fn plain_answer_view(id: u16) -> PacketView {
    PacketView {
        header: Header::new_answer_view(id),
        questions: Seq::empty(),
        answers: Seq::empty(),
        authorities: Seq::empty(),
        additions: Seq::empty(),
    }
}

/// A message framed for a stream: its length in 16 bits, then the
/// message. A message too long for that is replaced by a server failure
/// under its id.
pub open spec fn frame_wire(p: PacketView) -> Seq<u8> {
    let wire = packet_wire(p);
    if wire.len() > MAX_FRAME {
        let fail = packet_wire(failure_view(p.header.id, Rcode::ServFail));
        u16_bytes(fail.len() as u16) + fail
    } else {
        u16_bytes(wire.len() as u16) + wire
    }
}

/// A DNS message.
#[derive(Debug)]
pub struct Packet {
    pub header: Header,
    pub questions: Vec<Question>,
    pub answers: Vec<RR>,
    pub authorities: Vec<RR>,
    pub additions: Vec<RR>,
}

impl View for Packet {
    type V = PacketView;

    open spec fn view(&self) -> PacketView {
        PacketView {
            header: self.header@,
            questions: questions_view(self.questions@),
            answers: records_view(self.answers@),
            authorities: records_view(self.authorities@),
            additions: records_view(self.additions@),
        }
    }
}

/// One more record goes on the wire behind the others.
pub proof fn lemma_records_wire_push(rrs: Seq<RRView>, rr: RRView)
    ensures
        records_wire(rrs.push(rr)) == records_wire(rrs) + rr_wire(rr),
{
    assert(rrs.push(rr).drop_last() =~= rrs);
}

/// `rrs` put before what the rest of a section gives.
pub open spec fn prepend_records(rrs: Seq<RRView>, rest: Option<(Seq<RRView>, int)>) -> Option<
    (Seq<RRView>, int),
> {
    match rest {
        Some((r, end)) => Some((rrs + r, end)),
        None => None,
    }
}

/// Parses `count` records one after another from `offset` on.
#[verifier::rlimit(50)]
fn parse_records(packet: &Bytes, offset: usize, count: u16) -> (r: Result<
    (Vec<RR>, usize),
    PacketError,
>)
    ensures
        match r {
            Ok((rrs, end)) => records_at(bytes_seq(*packet), offset as int, count as nat) == Some(
                (records_view(rrs@), end as int),
            ),
            Err(e) => e is FormatError && records_at(
                bytes_seq(*packet),
                offset as int,
                count as nat,
            ) is None,
        },
{
    let ghost s = bytes_seq(*packet);
    let len = packet.len();
    let mut rrs: Vec<RR> = Vec::new();
    let mut pos = offset;
    let mut i: u16 = 0;
    proof {
        assert(records_view(rrs@) =~= Seq::<RRView>::empty());
        match records_at(s, offset as int, count as nat) {
            Some((rest, end)) => {
                assert(Seq::<RRView>::empty() + rest =~= rest);
            },
            None => {},
        }
    }
    while i < count
        invariant
            s == bytes_seq(*packet),
            len == s.len(),
            0 <= i <= count,
            records_at(s, offset as int, count as nat) == prepend_records(
                records_view(rrs@),
                records_at(s, pos as int, (count - i) as nat),
            ),
        decreases count - i,
    {
        let ghost before = records_view(rrs@);
        let rr = match RR::parse(packet.clone(), pos) {
            Ok(rr) => rr,
            Err(e) => {
                return Err(e);
            },
        };
        proof {
            super::rr::lemma_parse_rr_bounds(s, pos as int);
            match records_at(s, pos + rr.spec_size(), (count - i - 1) as nat) {
                Some((rest, end)) => {
                    assert(before + (seq![rr@] + rest) =~= before.push(rr@) + rest);
                },
                None => {},
            }
        }
        pos = pos + rr.size();
        rrs.push(rr);
        assert(records_view(rrs@) =~= before.push(rr@));
        i += 1;
    }
    proof {
        assert(records_view(rrs@) + Seq::<RRView>::empty() =~= records_view(rrs@));
    }
    Ok((rrs, pos))
}

/// Writes the records one after another behind what `buf` holds.
fn put_records(buf: &mut BytesMut, rrs: Vec<RR>)
    requires
        records_encodable(records_view(rrs@)),
    ensures
        buf_seq(*final(buf)) == buf_seq(*old(buf)) + records_wire(records_view(rrs@)),
{
    let ghost views = records_view(rrs@);
    let ghost start = buf_seq(*buf);
    let n = rrs.len();
    let mut i: usize = 0;
    assert(start + records_wire(views.take(0)) =~= start);
    while i < n
        invariant
            n == rrs@.len(),
            views == records_view(rrs@),
            records_encodable(views),
            0 <= i <= n,
            buf_seq(*buf) == start + records_wire(views.take(i as int)),
        decreases n - i,
    {
        let rr = rrs[i].clone();
        proof {
            assert(views[i as int] == rrs@[i as int]@);
            assert(views.take(i as int + 1) =~= views.take(i as int).push(rr@));
            lemma_records_wire_push(views.take(i as int), rr@);
        }
        match rr.into_bytes() {
            Ok(a) => {
                buf_put_slice(buf, buf_as_slice(&a));
            },
            Err(_) => {
                assert(false);
            },
        }
        i += 1;
        assert(buf_seq(*buf) =~= start + records_wire(views.take(i as int)));
    }
    assert(views.take(n as int) =~= views);
}

impl Packet {
    /// An empty response under `id`.
    pub fn new_plain_answer(id: u16) -> (r: Self)
        ensures
            r@ == plain_answer_view(id),
            r@.emittable(),
    {
        let h = Header::new_answer(id, 0, 0, 0);
        let r = Self {
            header: h,
            questions: Vec::new(),
            answers: Vec::new(),
            authorities: Vec::new(),
            additions: Vec::new(),
        };
        assert(r@.questions =~= Seq::<QuestionView>::empty());
        assert(r@.answers =~= Seq::<RRView>::empty());
        assert(r@.authorities =~= Seq::<RRView>::empty());
        assert(r@.additions =~= Seq::<RRView>::empty());
        r
    }

    /// A query under `id` that asks `query`.
    pub fn new_query(id: u16, query: Question) -> (r: Self)
        ensures
            r@ == query_view(id, query@),
            r@.emittable(),
    {
        let header = Header::new_query(id);
        let mut questions: Vec<Question> = Vec::new();
        questions.push(query);
        let r = Self {
            header,
            questions,
            answers: Vec::new(),
            authorities: Vec::new(),
            additions: Vec::new(),
        };
        assert(r@.questions =~= seq![query@]);
        assert(r@.answers =~= Seq::<RRView>::empty());
        assert(r@.authorities =~= Seq::<RRView>::empty());
        assert(r@.additions =~= Seq::<RRView>::empty());
        r
    }

    /// An empty response under `id` that reports `rcode`.
    pub fn new_failure(id: u16, rcode: PacketError) -> (r: Packet)
        ensures
            r@ == failure_view(id, rcode.spec_rcode()),
            r@.emittable(),
    {
        let header = Header::new_failure(id, rcode);
        let r = Packet {
            header,
            questions: Vec::new(),
            answers: Vec::new(),
            authorities: Vec::new(),
            additions: Vec::new(),
        };
        assert(r@.questions =~= Seq::<QuestionView>::empty());
        assert(r@.answers =~= Seq::<RRView>::empty());
        assert(r@.authorities =~= Seq::<RRView>::empty());
        assert(r@.additions =~= Seq::<RRView>::empty());
        r
    }

    /// Parses the message that starts at `offset` of `packet`. What it
    /// gives is well formed, and can be written.
    #[verifier::rlimit(50)]
    pub fn parse_packet(packet: Bytes, offset: usize) -> (r: Result<Packet, TransactionError>)
        ensures
            match r {
                Ok(p) => parse_packet(bytes_seq(packet), offset as int) == Ok::<PacketView, Fault>(
                    p@,
                ) && p@.wf() && p@.emittable(),
                Err(e) => parse_packet(bytes_seq(packet), offset as int) == Err::<
                    PacketView,
                    Fault,
                >(e.fault()),
            },
    {
        let ghost s = bytes_seq(packet);
        let _len = packet.len();
        proof {
            reveal(sections_at);
        }
        let h = match Header::parse(packet.clone(), offset) {
            Ok(h) => h,
            Err(e) => {
                return Err(e);
            },
        };
        let id = Some(h.get_id());
        if h.is_query() && h.answer_count() != 0 {
            // no answer is expected in a query
            return Err(TransactionError { id, error: PacketError::FormatError });
        }
        let mut pos = offset + 12;
        let mut questions: Vec<Question> = Vec::new();
        if h.question_count() == 1 {
            let ques = match Question::parse(packet.clone(), pos) {
                Ok(ques) => ques,
                Err(error) => {
                    return Err(TransactionError { id, error });
                },
            };
            proof {
                super::question::lemma_parse_question_bounds(s, pos as int);
            }
            pos = pos + ques.size();
            questions.push(ques);
        }
        proof {
            reveal_with_fuel(questions_at, 2);
            let q = questions_at(s, offset + 12, h@.questions as nat);
            assert(q is Some);
            assert(q.unwrap().0 =~= questions_view(questions@));
        }
        let (answers, pos) = match parse_records(&packet, pos, h.answer_count()) {
            Ok(found) => found,
            Err(error) => {
                return Err(TransactionError { id, error });
            },
        };
        let (authorities, pos) = match parse_records(&packet, pos, h.authority_count()) {
            Ok(found) => found,
            Err(error) => {
                return Err(TransactionError { id, error });
            },
        };
        let (additions, _) = match parse_records(&packet, pos, h.addition_count()) {
            Ok(found) => found,
            Err(error) => {
                return Err(TransactionError { id, error });
            },
        };
        proof {
            super::laws::lemma_parsed_packet_wf(s, offset as int);
        }
        Ok(Packet { header: h, questions, answers, authorities, additions })
    }

    /// How long the message of a frame is, from what a stream gave for
    /// the frame's 16-bit length: nothing at all is the end of the stream,
    /// reported as a server failure; a single octet, or a length under
    /// 12, is a format error.
    pub fn frame_length(prefix: Bytes) -> (r: Result<usize, TransactionError>)
        ensures
            match r {
                Ok(n) => frame_length_of(bytes_seq(prefix)) == Ok::<int, Fault>(n as int),
                Err(e) => frame_length_of(bytes_seq(prefix)) == Err::<int, Fault>(e.fault()),
            },
    {
        if prefix.len() == 0 {
            return Err(TransactionError { id: None, error: PacketError::ServFail });
        }
        let n = match read_u16(&prefix, 0) {
            Some(n) => n as usize,
            None => {
                return Err(TransactionError { id: None, error: PacketError::FormatError });
            },
        };
        if n < HEADER_SIZE {
            return Err(TransactionError { id: None, error: PacketError::FormatError });
        }
        Ok(n)
    }

    /// Parses one message from what a stream gave for a frame: the 16-bit
    /// length and the octets behind it, as far as they came.
    pub fn parse_stream(frame: Bytes) -> (r: Result<Packet, TransactionError>)
        ensures
            match r {
                Ok(p) => parse_frame(bytes_seq(frame)) == Ok::<PacketView, Fault>(p@) && p@.wf()
                    && p@.emittable(),
                Err(e) => parse_frame(bytes_seq(frame)) == Err::<PacketView, Fault>(e.fault()),
            },
    {
        let len = frame.len();
        if len == 0 {
            return Err(TransactionError { id: None, error: PacketError::ServFail });
        }
        let n = match read_u16(&frame, 0) {
            Some(n) => n as usize,
            None => {
                return Err(TransactionError { id: None, error: PacketError::FormatError });
            },
        };
        if n < HEADER_SIZE {
            return Err(TransactionError { id: None, error: PacketError::FormatError });
        }
        if len - 2 < n {
            let id = read_u16(&frame, 2);
            return Err(TransactionError { id, error: PacketError::FormatError });
        }
        let body = Bytes::from(crate::buffer::copy_range(&frame, 2, 2 + n));
        Self::parse_packet(body, 0)
    }

    /// The message's wire form.
    #[verifier::rlimit(50)]
    pub fn into_bytes(self) -> (r: Bytes)
        requires
            self@.emittable(),
        ensures
            bytes_seq(r) == packet_wire(self@),
    {
        let mut buf = BytesMut::new();
        let ghost view = self@;
        match self.header.try_into_bytes() {
            Ok(h) => {
                buf_put_slice(&mut buf, buf_as_slice(&h));
            },
            Err(_) => {
                assert(false);
            },
        }
        let n = self.questions.len();
        let mut i: usize = 0;
        assert(view.questions.take(0) =~= Seq::<QuestionView>::empty());
        assert(header_wire(view.header) + questions_wire(view.questions.take(0)) =~= header_wire(
            view.header,
        ));
        while i < n
            invariant
                n == self.questions@.len(),
                view == self@,
                0 <= i <= n,
                buf_seq(buf) == header_wire(view.header) + questions_wire(
                    view.questions.take(i as int),
                ),
            decreases n - i,
        {
            let question = self.questions[i].clone();
            proof {
                assert(view.questions[i as int] == self.questions@[i as int]@);
                assert(view.questions.take(i as int + 1).drop_last() =~= view.questions.take(
                    i as int,
                ));
            }
            match question.into_bytes() {
                Ok(q) => {
                    buf_put_slice(&mut buf, buf_as_slice(&q));
                },
                Err(_) => {
                    assert(false);
                },
            }
            i += 1;
            assert(buf_seq(buf) =~= header_wire(view.header) + questions_wire(
                view.questions.take(i as int),
            ));
        }
        assert(view.questions.take(n as int) =~= view.questions);
        put_records(&mut buf, self.answers);
        put_records(&mut buf, self.authorities);
        put_records(&mut buf, self.additions);
        Bytes::from(buf)
    }

    /// Whether the message can be written: its counts are right and the
    /// data of each record can be written.
    pub fn can_emit(&self) -> (r: bool)
        ensures
            r == self@.emittable(),
    {
        if self.header.question_count() as usize != self.questions.len()
            || self.header.answer_count() as usize != self.answers.len()
            || self.header.authority_count() as usize != self.authorities.len()
            || self.header.addition_count() as usize != self.additions.len() {
            return false;
        }
        all_encodable(&self.answers) && all_encodable(&self.authorities) && all_encodable(
            &self.additions,
        )
    }

    /// The message framed for a stream: its length in 16 bits, then the
    /// message; a server failure under its id where it is too long for
    /// that.
    pub fn into_frame(self) -> (r: Bytes)
        requires
            self@.emittable(),
        ensures
            bytes_seq(r) == frame_wire(self@),
    {
        let id = self.get_id();
        let ghost view = self@;
        let buf = self.into_bytes();
        let mut out = BytesMut::new();
        if buf.len() > MAX_FRAME {
            let resp = Packet::new_failure(id, PacketError::ServFail).into_bytes();
            proof {
                lemma_failure_wire_len(id, Rcode::ServFail);
            }
            buf_put_u16(&mut out, resp.len() as u16);
            buf_put_slice(&mut out, crate::buffer::bytes_as_slice(&resp));
        } else {
            buf_put_u16(&mut out, buf.len() as u16);
            buf_put_slice(&mut out, crate::buffer::bytes_as_slice(&buf));
        }
        Bytes::from(out)
    }

    /// The question of the message, if it has one: the first, where it
    /// was given more.
    pub fn question(&self) -> (r: Option<Question>)
        ensures
            match r {
                Some(q) => self@.questions.len() > 0 && q@ == self@.questions[0],
                None => self@.questions.len() == 0,
            },
    {
        if self.questions.len() == 0 {
            None
        } else {
            Some(self.questions[0].clone())
        }
    }

    pub fn get_id(&self) -> (r: u16)
        ensures
            r == self@.header.id,
    {
        self.header.get_id()
    }

    pub fn is_query(&self) -> (r: bool)
        ensures
            r == self@.header.is_query,
    {
        self.header.is_query()
    }

    /// Adds a question and counts it.
    pub fn add_query(&mut self, query: Question)
        requires
            old(self)@.header.questions < u16::MAX,
        ensures
            final(self)@ == (PacketView {
                header: HeaderView {
                    questions: (old(self)@.header.questions + 1) as u16,
                    ..old(self)@.header
                },
                questions: old(self)@.questions.push(query@),
                ..old(self)@
            }),
    {
        let ghost before = self@;
        self.questions.push(query);
        self.header.set_questions(self.header.question_count() + 1);
        assert(self@.questions =~= before.questions.push(query@));
    }

    /// Adds an answer and counts it.
    pub fn add_answer(&mut self, answer: RR)
        requires
            old(self)@.header.answers < u16::MAX,
        ensures
            final(self)@ == (PacketView {
                header: HeaderView {
                    answers: (old(self)@.header.answers + 1) as u16,
                    ..old(self)@.header
                },
                answers: old(self)@.answers.push(answer@),
                ..old(self)@
            }),
    {
        let ghost before = self@;
        self.answers.push(answer);
        self.header.set_answers(self.header.answer_count() + 1);
        assert(self@.answers =~= before.answers.push(answer@));
    }

    /// Adds an authority record and counts it.
    pub fn add_authority(&mut self, authority: RR)
        requires
            old(self)@.header.authorities < u16::MAX,
        ensures
            final(self)@ == (PacketView {
                header: HeaderView {
                    authorities: (old(self)@.header.authorities + 1) as u16,
                    ..old(self)@.header
                },
                authorities: old(self)@.authorities.push(authority@),
                ..old(self)@
            }),
    {
        let ghost before = self@;
        self.authorities.push(authority);
        self.header.set_authorities(self.header.authority_count() + 1);
        assert(self@.authorities =~= before.authorities.push(authority@));
    }

    /// Adds an additional record and counts it.
    pub fn add_addition(&mut self, additional: RR)
        requires
            old(self)@.header.additional < u16::MAX,
        ensures
            final(self)@ == (PacketView {
                header: HeaderView {
                    additional: (old(self)@.header.additional + 1) as u16,
                    ..old(self)@.header
                },
                additions: old(self)@.additions.push(additional@),
                ..old(self)@
            }),
    {
        let ghost before = self@;
        self.additions.push(additional);
        self.header.set_additional(self.header.addition_count() + 1);
        assert(self@.additions =~= before.additions.push(additional@));
    }
}

/// Whether the data of every record can be written.
fn all_encodable(rrs: &Vec<RR>) -> (r: bool)
    ensures
        r == records_encodable(records_view(rrs@)),
{
    let n = rrs.len();
    let mut i: usize = 0;
    while i < n
        invariant
            n == rrs@.len(),
            0 <= i <= n,
            forall|j: int| 0 <= j < i ==> (#[trigger] records_view(rrs@)[j]).rdata.encodable(),
        decreases n - i,
    {
        let rr = rrs[i].clone();
        match rr.into_rdata().try_into_bytes() {
            Ok(_) => {},
            Err(_) => {
                assert(!records_view(rrs@)[i as int].rdata.encodable());
                return false;
            },
        }
        i += 1;
    }
    true
}

/// The wire form of a failure response is its header alone.
pub proof fn lemma_failure_wire_len(id: u16, rcode: Rcode)
    ensures
        packet_wire(failure_view(id, rcode)).len() == 12,
{
    crate::buffer::lemma_int_bytes_len();
}

} // verus!
