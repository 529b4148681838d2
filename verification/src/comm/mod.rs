//! What passes between the transports, the transaction engine and the
//! upstream: answers, and the decisions taken on them.

use crate::buffer::bytes_seq;
use crate::protocol::error::{PacketError, PacketErrorView, TransactionError};
use crate::protocol::header::{Header, HeaderView, Rcode};
use crate::protocol::packet::{
    failure_view, frame_wire, packet_wire, parse_frame, parse_packet, query_view, records_view,
    Packet, PacketView,
};
use crate::protocol::question::{Question, QuestionView};
use crate::protocol::rr::{RRView, RR};
use bytes::Bytes;
use vstd::prelude::*;

pub mod inflight;
pub mod stream;

verus! {

/// The seconds that a transaction may take before it is given up.
pub const TIME_OUT_SECS: u64 = 5;

/// The room for a datagram: what is longer is cut off as it is received.
pub const DATAGRAM_BUFFER: usize = 1024;

/// The shortest datagram from the upstream that is looked at.
pub const MIN_UPSTREAM_DATAGRAM: usize = 20;

/// The shortest datagram from a client that is looked at.
pub const MIN_CLIENT_DATAGRAM: usize = 12;

/// One item of the answer to a query: a record, tagged with the section
/// it belongs to, or the fault that ends the answer.
#[derive(Debug)]
pub enum Answer {
    Error(PacketError),
    Answer(RR),
    NameServer(RR),
    Additional(RR),
}

/// What an item of an answer says.
pub enum AnswerView {
    Error(PacketErrorView),
    Answer(RRView),
    NameServer(RRView),
    Additional(RRView),
}

impl View for Answer {
    type V = AnswerView;

    open spec fn view(&self) -> AnswerView {
        match self {
            Answer::Error(e) => AnswerView::Error(e@),
            Answer::Answer(rr) => AnswerView::Answer(rr@),
            Answer::NameServer(rr) => AnswerView::NameServer(rr@),
            Answer::Additional(rr) => AnswerView::Additional(rr@),
        }
    }
}

impl Clone for Answer {
    fn clone(&self) -> (r: Self)
        ensures
            r@ == self@,
    {
        match self {
            Answer::Error(e) => Answer::Error(e.clone()),
            Answer::Answer(rr) => Answer::Answer(rr.clone()),
            Answer::NameServer(rr) => Answer::NameServer(rr.clone()),
            Answer::Additional(rr) => Answer::Additional(rr.clone()),
        }
    }
}

/// What a vector of answers says.
pub open spec fn answers_view(v: Seq<Answer>) -> Seq<AnswerView> {
    Seq::new(v.len(), |i: int| v[i]@)
}

/// The three sections of a response.
#[derive(Clone, Copy, Debug, PartialEq, Eq, Structural)]
pub enum Section {
    Answer,
    Authority,
    Additional,
}

/// The record of an item, if the item belongs to `section`.
pub open spec fn record_in(a: AnswerView, section: Section) -> Option<RRView> {
    match (a, section) {
        (AnswerView::Answer(rr), Section::Answer) => Some(rr),
        (AnswerView::NameServer(rr), Section::Authority) => Some(rr),
        (AnswerView::Additional(rr), Section::Additional) => Some(rr),
        _ => None,
    }
}

/// The records among `answers` that belong to `section`, in order.
pub open spec fn section_of(answers: Seq<AnswerView>, section: Section) -> Seq<RRView>
    decreases answers.len(),
{
    if answers.len() == 0 {
        Seq::empty()
    } else {
        match record_in(answers.last(), section) {
            Some(rr) => section_of(answers.drop_last(), section).push(rr),
            None => section_of(answers.drop_last(), section),
        }
    }
}

/// The first fault among `answers`, if there is one.
pub open spec fn first_error(answers: Seq<AnswerView>) -> Option<PacketErrorView>
    decreases answers.len(),
{
    if answers.len() == 0 {
        None
    } else {
        match first_error(answers.drop_last()) {
            Some(e) => Some(e),
            None => match answers.last() {
                AnswerView::Error(e) => Some(e),
                _ => None,
            },
        }
    }
}

/// A record as an item of an answer, tagged with its section.
pub open spec fn tag(rr: RRView, section: Section) -> AnswerView {
    match section {
        Section::Answer => AnswerView::Answer(rr),
        Section::Authority => AnswerView::NameServer(rr),
        Section::Additional => AnswerView::Additional(rr),
    }
}

/// Records as items of an answer, each tagged with `section`.
pub open spec fn tag_all(rrs: Seq<RRView>, section: Section) -> Seq<AnswerView> {
    Seq::new(rrs.len(), |i: int| tag(rrs[i], section))
}

/// The records of a message as items of an answer: answers first, then
/// authorities, then additions, each tagged with its section.
pub open spec fn tagged(p: PacketView) -> Seq<AnswerView> {
    tag_all(p.answers, Section::Answer) + tag_all(p.authorities, Section::Authority) + tag_all(
        p.additions,
        Section::Additional,
    )
}

/// Appends the records to the items, each tagged with `section`.
fn push_tagged(out: &mut Vec<Answer>, rrs: &Vec<RR>, section: Section)
    ensures
        answers_view(final(out)@) == answers_view(old(out)@) + tag_all(
            records_view(rrs@),
            section,
        ),
{
    let ghost start = answers_view(out@);
    let ghost views = records_view(rrs@);
    let n = rrs.len();
    let mut i: usize = 0;
    assert(answers_view(out@) =~= start + tag_all(views.take(0), section));
    while i < n
        invariant
            n == rrs@.len(),
            views == records_view(rrs@),
            0 <= i <= n,
            answers_view(out@) == start + tag_all(views.take(i as int), section),
        decreases n - i,
    {
        let rr = rrs[i].clone();
        let ghost before = answers_view(out@);
        let item = match section {
            Section::Answer => Answer::Answer(rr),
            Section::Authority => Answer::NameServer(rr),
            Section::Additional => Answer::Additional(rr),
        };
        out.push(item);
        i += 1;
        proof {
            assert(answers_view(out@) =~= before.push(tag(views[i - 1], section)));
            assert(tag_all(views.take(i as int), section) =~= tag_all(
                views.take(i - 1),
                section,
            ).push(tag(views[i - 1], section)));
            assert(answers_view(out@) =~= start + tag_all(views.take(i as int), section));
        }
    }
    assert(views.take(n as int) =~= views);
}

/// The records of a message as items of an answer.
pub fn answers_of(pkt: Packet) -> (r: Vec<Answer>)
    ensures
        answers_view(r@) == tagged(pkt@),
{
    let mut out: Vec<Answer> = Vec::new();
    assert(answers_view(out@) =~= Seq::<AnswerView>::empty());
    push_tagged(&mut out, &pkt.answers, Section::Answer);
    push_tagged(&mut out, &pkt.authorities, Section::Authority);
    push_tagged(&mut out, &pkt.additions, Section::Additional);
    assert(answers_view(out@) =~= tagged(pkt@));
    out
}

/// What a transaction gives its caller: the items of the answer, or the
/// first fault among them under the transaction's id.
pub fn transaction(id: u16, answers: Vec<Answer>) -> (r: Result<Vec<Answer>, TransactionError>)
    ensures
        match r {
            Ok(v) => first_error(answers_view(answers@)) is None && answers_view(v@)
                == answers_view(answers@),
            Err(e) => e.id == Some(id) && first_error(answers_view(answers@)) == Some(e.error@),
        },
{
    let n = answers.len();
    let ghost views = answers_view(answers@);
    let mut i: usize = 0;
    while i < n
        invariant
            n == answers@.len(),
            views == answers_view(answers@),
            0 <= i <= n,
            first_error(views.take(i as int)) is None,
        decreases n - i,
    {
        proof {
            assert(views.take(i as int + 1).drop_last() =~= views.take(i as int));
            assert(views.take(i as int + 1).last() == views[i as int]);
            if views[i as int] is Error {
                lemma_first_error_prefix(views, i as int + 1);
            }
        }
        match &answers[i] {
            Answer::Error(error) => {
                return Err(TransactionError { id: Some(id), error: error.clone() });
            },
            _ => {},
        }
        i += 1;
    }
    assert(views.take(n as int) =~= views);
    Ok(answers)
}

/// A fault found among the first items of an answer is the first fault of
/// the whole answer.
pub proof fn lemma_first_error_prefix(answers: Seq<AnswerView>, k: int)
    requires
        0 <= k <= answers.len(),
        first_error(answers.take(k)) is Some,
    ensures
        first_error(answers) == first_error(answers.take(k)),
    decreases answers.len() - k,
{
    if k < answers.len() {
        assert(answers.take(k + 1).drop_last() =~= answers.take(k));
        lemma_first_error_prefix(answers, k + 1);
    } else {
        assert(answers.take(k) =~= answers);
    }
}

/// What the response to a query says that was answered with records.
pub open spec fn answer_view(
    id: u16,
    question: QuestionView,
    answers: Seq<AnswerView>,
) -> PacketView {
    let an = section_of(answers, Section::Answer);
    let ns = section_of(answers, Section::Authority);
    let ar = section_of(answers, Section::Additional);
    PacketView {
        header: HeaderView {
            questions: 1,
            answers: an.len() as u16,
            authorities: ns.len() as u16,
            additional: ar.len() as u16,
            ..Header::new_answer_view(id)
        },
        questions: seq![question],
        answers: an,
        authorities: ns,
        additions: ar,
    }
}

/// What the response to a query says: the failure that reports the first
/// fault among the answers; or the question with the records in their
/// sections; or, where a section has more records than a header can
/// count or a record cannot be written, a server failure.
pub open spec fn response_view(
    id: u16,
    question: QuestionView,
    answers: Seq<AnswerView>,
) -> PacketView {
    match first_error(answers) {
        Some(e) => failure_view(id, e.rcode()),
        None => {
            let p = answer_view(id, question, answers);
            if p.answers.len() <= u16::MAX && p.authorities.len() <= u16::MAX && p.additions.len()
                <= u16::MAX && p.emittable() {
                p
            } else {
                failure_view(id, Rcode::ServFail)
            }
        },
    }
}

/// Assembles the response to the query `question` of transaction `id`
/// from the items of its answer.
#[verifier::rlimit(50)]
pub fn respond(id: u16, question: Question, answers: Vec<Answer>) -> (r: Packet)
    ensures
        r@ == response_view(id, question@, answers_view(answers@)),
        r@.emittable(),
{
    let ghost views = answers_view(answers@);
    let ghost q = question@;
    let mut an: Vec<RR> = Vec::new();
    let mut ns: Vec<RR> = Vec::new();
    let mut ar: Vec<RR> = Vec::new();
    let n = answers.len();
    let mut i: usize = 0;
    assert(views.take(0) =~= Seq::<AnswerView>::empty());
    assert(records_view(an@) =~= Seq::<RRView>::empty());
    assert(records_view(ns@) =~= Seq::<RRView>::empty());
    assert(records_view(ar@) =~= Seq::<RRView>::empty());
    while i < n
        invariant
            n == answers@.len(),
            views == answers_view(answers@),
            0 <= i <= n,
            first_error(views.take(i as int)) is None,
            records_view(an@) == section_of(views.take(i as int), Section::Answer),
            records_view(ns@) == section_of(views.take(i as int), Section::Authority),
            records_view(ar@) == section_of(views.take(i as int), Section::Additional),
        decreases n - i,
    {
        proof {
            assert(views.take(i as int + 1).drop_last() =~= views.take(i as int));
            assert(views.take(i as int + 1).last() == views[i as int]);
            if views[i as int] is Error {
                lemma_first_error_prefix(views, i as int + 1);
            }
        }
        let ghost before_an = records_view(an@);
        let ghost before_ns = records_view(ns@);
        let ghost before_ar = records_view(ar@);
        match &answers[i] {
            Answer::Error(error) => {
                return Packet::new_failure(id, error.clone());
            },
            Answer::Answer(rr) => {
                an.push(rr.clone());
                assert(records_view(an@) =~= before_an.push(rr@));
            },
            Answer::NameServer(rr) => {
                ns.push(rr.clone());
                assert(records_view(ns@) =~= before_ns.push(rr@));
            },
            Answer::Additional(rr) => {
                ar.push(rr.clone());
                assert(records_view(ar@) =~= before_ar.push(rr@));
            },
        }
        i += 1;
    }
    assert(views.take(n as int) =~= views);
    if an.len() > 0xffff || ns.len() > 0xffff || ar.len() > 0xffff {
        return Packet::new_failure(id, PacketError::ServFail);
    }
    let mut header = Header::new_answer(id, an.len() as u16, ns.len() as u16, ar.len() as u16);
    header.set_questions(1);
    let mut questions: Vec<Question> = Vec::new();
    questions.push(question);
    let packet = Packet { header, questions, answers: an, authorities: ns, additions: ar };
    assert(packet@.questions =~= seq![q]);
    assert(packet@ == answer_view(id, q, views));
    if packet.can_emit() {
        packet
    } else {
        Packet::new_failure(id, PacketError::ServFail)
    }
}

/// The response that reports a fault: under the fault's id, or under 0
/// where the id is not known.
pub fn failure(err: TransactionError) -> (r: Packet)
    ensures
        r@ == failure_view(
            match err.id {
                Some(id) => id,
                None => 0,
            },
            err.error.spec_rcode(),
        ),
        r@.emittable(),
{
    let TransactionError { id, error } = err;
    let id = match id {
        Some(id) => id,
        None => 0,
    };
    Packet::new_failure(id, error)
}

/// What to do with a datagram from the upstream.
#[derive(Debug)]
pub enum Upstream {
    /// Drop it: the waiter, if there is one, runs into its timeout.
    Ignore,
    /// Hand the answer to the waiter of this transaction id, and forget
    /// the waiter.
    Deliver(u16, Vec<Answer>),
}

/// What a datagram from the upstream means.
pub open spec fn upstream_spec(s: Seq<u8>) -> Option<(u16, Seq<AnswerView>)> {
    if s.len() < MIN_UPSTREAM_DATAGRAM {
        None
    } else {
        match parse_packet(s, 0) {
            Ok(p) => Some((p.header.id, tagged(p))),
            Err((Some(id), rcode)) => Some((id, seq![AnswerView::Error(fault_view(rcode))])),
            Err((None, _)) => None,
        }
    }
}

/// The fault that the codec reports under a response code.
pub open spec fn fault_view(rcode: Rcode) -> PacketErrorView {
    if rcode == Rcode::ServFail {
        PacketErrorView::ServFail
    } else {
        PacketErrorView::FormatError
    }
}

/// Decides on a datagram from the upstream: one under 20 octets is
/// dropped; a message that parses is delivered to the waiter of its id,
/// its records tagged by section; one that fails under a known id
/// delivers the fault; one that fails without an id is dropped.
pub fn upstream_datagram(datagram: Bytes) -> (r: Upstream)
    ensures
        match r {
            Upstream::Ignore => upstream_spec(bytes_seq(datagram)) is None,
            Upstream::Deliver(id, answers) => upstream_spec(bytes_seq(datagram)) == Some(
                (id, answers_view(answers@)),
            ),
        },
{
    if datagram.len() < MIN_UPSTREAM_DATAGRAM {
        return Upstream::Ignore;
    }
    match Packet::parse_packet(datagram, 0) {
        Ok(pkt) => {
            let id = pkt.get_id();
            Upstream::Deliver(id, answers_of(pkt))
        },
        Err(TransactionError { id: Some(id), error }) => {
            let mut err: Vec<Answer> = Vec::new();
            proof {
                lemma_codec_faults(bytes_seq(datagram), 0);
            }
            let ghost e = error@;
            err.push(Answer::Error(error));
            assert(answers_view(err@) =~= seq![AnswerView::Error(e)]);
            Upstream::Deliver(id, err)
        },
        Err(_) => Upstream::Ignore,
    }
}

/// The codec reports two faults only: a format error and a server
/// failure.
pub proof fn lemma_codec_faults(s: Seq<u8>, offset: int)
    ensures
        parse_packet(s, offset) matches Err((_, rcode)) ==> rcode == Rcode::FormatError || rcode
            == Rcode::ServFail,
        parse_frame(s) matches Err((_, rcode)) ==> rcode == Rcode::FormatError || rcode
            == Rcode::ServFail,
{
}

/// The answer that a timeout gives: a single server failure.
pub fn timed_out() -> (r: Vec<Answer>)
    ensures
        answers_view(r@) == seq![AnswerView::Error(PacketErrorView::ServFail)],
{
    let mut v: Vec<Answer> = Vec::new();
    v.push(Answer::Error(PacketError::ServFail));
    assert(answers_view(v@) =~= seq![AnswerView::Error(PacketErrorView::ServFail)]);
    v
}

/// What the upstream's response on a stream means: nothing where the
/// stream ended cleanly, which the decoder reports as a server failure;
/// the fault where the response is malformed; else the records, tagged
/// by section.
pub open spec fn stream_answers_spec(s: Seq<u8>) -> Seq<AnswerView> {
    match parse_frame(s) {
        Ok(p) => tagged(p),
        Err((_, rcode)) => if rcode == Rcode::ServFail {
            Seq::empty()
        } else {
            seq![AnswerView::Error(PacketErrorView::FormatError)]
        },
    }
}

/// Decides on what was read from the upstream's stream until it ended:
/// one framed response.
pub fn stream_answers(response: Bytes) -> (r: Vec<Answer>)
    ensures
        answers_view(r@) == stream_answers_spec(bytes_seq(response)),
{
    proof {
        lemma_codec_faults(bytes_seq(response), 0);
    }
    match Packet::parse_stream(response) {
        Ok(packet) => answers_of(packet),
        Err(TransactionError { id: _, error }) => {
            let mut v: Vec<Answer> = Vec::new();
            match error {
                PacketError::ServFail => {
                    assert(answers_view(v@) =~= Seq::<AnswerView>::empty());
                },
                e => {
                    let ghost ev = e@;
                    v.push(Answer::Error(e));
                    assert(answers_view(v@) =~= seq![AnswerView::Error(ev)]);
                },
            }
            v
        },
    }
}

/// The query that is sent to the upstream for `question` under the
/// freshly minted `id`, as a datagram.
pub fn forward_datagram(id: u16, question: Question) -> (r: Bytes)
    ensures
        bytes_seq(r) == packet_wire(query_view(id, question@)),
{
    Packet::new_query(id, question).into_bytes()
}

/// The query that is sent to the upstream for `question` under the
/// freshly minted `id`, framed for a stream.
pub fn forward_frame(id: u16, question: Question) -> (r: Bytes)
    ensures
        bytes_seq(r) == frame_wire(query_view(id, question@)),
{
    Packet::new_query(id, question).into_frame()
}

/// What to do with a datagram from a client.
#[derive(Debug)]
pub enum Datagram {
    /// Drop it.
    Ignore,
    /// Send these octets back.
    Reply(Bytes),
    /// Run a transaction for this question, and answer under this id.
    Query(u16, Question),
}

/// What a datagram from a client means.
pub enum DatagramView {
    Ignore,
    Reply(Seq<u8>),
    Query(u16, QuestionView),
}

/// What a datagram from a client means: one under 12 octets is dropped;
/// one that does not parse is answered with the failure that reports
/// the fault; a message that is no query is answered with a server
/// failure, a query without a question with a format error; a query is
/// run.
pub open spec fn datagram_spec(s: Seq<u8>) -> DatagramView {
    if s.len() < MIN_CLIENT_DATAGRAM {
        DatagramView::Ignore
    } else {
        match parse_packet(s, 0) {
            Err((id, rcode)) => DatagramView::Reply(
                packet_wire(
                    failure_view(
                        match id {
                            Some(id) => id,
                            None => 0,
                        },
                        rcode,
                    ),
                ),
            ),
            Ok(p) => if !p.header.is_query {
                DatagramView::Reply(packet_wire(failure_view(p.header.id, Rcode::ServFail)))
            } else if p.questions.len() == 0 {
                DatagramView::Reply(packet_wire(failure_view(p.header.id, Rcode::FormatError)))
            } else {
                DatagramView::Query(p.header.id, p.questions[0])
            },
        }
    }
}

/// Decides on a datagram from a client.
pub fn client_datagram(datagram: Bytes) -> (r: Datagram)
    ensures
        match r {
            Datagram::Ignore => datagram_spec(bytes_seq(datagram)) == DatagramView::Ignore,
            Datagram::Reply(b) => datagram_spec(bytes_seq(datagram)) == DatagramView::Reply(
                bytes_seq(b),
            ),
            Datagram::Query(id, q) => datagram_spec(bytes_seq(datagram)) == DatagramView::Query(
                id,
                q@,
            ),
        },
{
    if datagram.len() < MIN_CLIENT_DATAGRAM {
        return Datagram::Ignore;
    }
    let pkt = match Packet::parse_packet(datagram, 0) {
        Ok(pkt) => pkt,
        Err(err) => {
            return Datagram::Reply(failure(err).into_bytes());
        },
    };
    let id = pkt.get_id();
    if !pkt.is_query() {
        return Datagram::Reply(Packet::new_failure(id, PacketError::ServFail).into_bytes());
    }
    if pkt.questions.len() == 0 {
        return Datagram::Reply(Packet::new_failure(id, PacketError::FormatError).into_bytes());
    }
    Datagram::Query(id, pkt.questions[0].clone())
}

/// The datagram that answers the query `question` of transaction `id`.
pub fn answer_datagram(id: u16, question: Question, answers: Vec<Answer>) -> (r: Bytes)
    ensures
        bytes_seq(r) == packet_wire(response_view(id, question@, answers_view(answers@))),
{
    respond(id, question, answers).into_bytes()
}

} // verus!
