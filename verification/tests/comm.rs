use bytes::Bytes;
use std::time::Duration;
use tsein_dns::comm::inflight::InFlight;
use tsein_dns::comm::stream::{Action, Event, Notice, State};
use tsein_dns::comm::{
    answer_datagram, answers_of, client_datagram, failure, forward_datagram, forward_frame,
    respond, stream_answers, timed_out, transaction, upstream_datagram, Answer, Datagram,
    Upstream, TIME_OUT_SECS,
};
use tsein_dns::protocol::domain::Name;
use tsein_dns::protocol::error::{PacketError, TransactionError};
use tsein_dns::protocol::header::Rcode;
use tsein_dns::protocol::packet::Packet;
use tsein_dns::protocol::question::Question;
use tsein_dns::protocol::rr::rdata::a::A;
use tsein_dns::protocol::rr::rdata::nl::Null;
use tsein_dns::protocol::rr::rdata::ns::Ns;
use tsein_dns::protocol::rr::{RRData, RR};
use tsein_dns::protocol::types::{RRClass, RRType};

fn question(text: &str) -> Question {
    Question::build(Name::try_from(text).unwrap(), RRType::A, RRClass::Internet)
}

fn a_record(owner: &str, addr: u32, ttl: u64) -> RR {
    RR::new(
        Name::try_from(owner).unwrap(),
        Duration::from_secs(ttl),
        RRClass::Internet,
        RRData::A(A::from(addr)),
    )
}

fn ns_record(owner: &str, server: &str) -> RR {
    RR::new(
        Name::try_from(owner).unwrap(),
        Duration::from_secs(30),
        RRClass::Internet,
        RRData::Ns(Ns::from(Name::try_from(server).unwrap())),
    )
}

fn kinds(answers: &[Answer]) -> Vec<&'static str> {
    answers
        .iter()
        .map(|a| match a {
            Answer::Error(_) => "error",
            Answer::Answer(_) => "answer",
            Answer::NameServer(_) => "authority",
            Answer::Additional(_) => "additional",
        })
        .collect()
}

fn address(answer: &Answer) -> u32 {
    match answer {
        Answer::Answer(rr) | Answer::NameServer(rr) | Answer::Additional(rr) => {
            match rr.clone().into_rdata() {
                RRData::A(a) => a.addr(),
                _ => unreachable!(),
            }
        }
        Answer::Error(_) => unreachable!(),
    }
}

fn response(id: u16, addr: u32) -> Bytes {
    respond(id, question("example.com"), vec![Answer::Answer(a_record("example.com", addr, 60))])
        .into_bytes()
}

#[test]
fn answers_keep_section_order() {
    let mut p = Packet::new_plain_answer(1);
    p.add_addition(a_record("ns.com", 3, 1));
    p.add_authority(ns_record("com", "ns.com"));
    p.add_answer(a_record("a.com", 1, 1));
    p.add_answer(a_record("a.com", 2, 1));
    let answers = answers_of(p);
    assert_eq!(kinds(&answers), ["answer", "answer", "authority", "additional"]);
    assert_eq!(address(&answers[0]), 1);
    assert_eq!(address(&answers[1]), 2);
    assert_eq!(address(&answers[3]), 3);
}

#[test]
fn transaction_stops_at_first_fault() {
    let ok = transaction(7, vec![Answer::Answer(a_record("a", 1, 1))]).unwrap();
    assert_eq!(kinds(&ok), ["answer"]);
    assert!(transaction(7, vec![]).unwrap().is_empty());
    let err = transaction(
        7,
        vec![
            Answer::Answer(a_record("a", 1, 1)),
            Answer::Error(PacketError::ServFail),
            Answer::Error(PacketError::FormatError),
        ],
    )
    .err()
    .unwrap();
    assert_eq!(err.id, Some(7));
    assert_eq!(err.error.rcode(), Rcode::ServFail);
}

#[test]
fn response_sorts_items_into_sections() {
    let p = respond(
        9,
        question("a.com"),
        vec![
            Answer::Additional(a_record("ns.com", 3, 1)),
            Answer::Answer(a_record("a.com", 1, 1)),
            Answer::NameServer(ns_record("com", "ns.com")),
            Answer::Answer(a_record("a.com", 2, 1)),
        ],
    );
    assert_eq!(p.get_id(), 9);
    assert!(!p.is_query());
    assert_eq!(p.header.get_rcode(), Rcode::NoError);
    assert_eq!(p.header.question_count(), 1);
    assert_eq!(p.header.answer_count(), 2);
    assert_eq!(p.header.authority_count(), 1);
    assert_eq!(p.header.addition_count(), 1);
    assert_eq!(p.questions[0].get_name().to_string(), "a.com.");
    assert_eq!(p.answers.len(), 2);
    assert!(p.can_emit());
    let back = Packet::parse_packet(p.into_bytes(), 0).unwrap();
    assert_eq!(back.answers.len(), 2);
    assert_eq!(back.authorities.len(), 1);
    assert_eq!(back.additions.len(), 1);
}

#[test]
fn response_to_fault_is_failure() {
    let p = respond(
        9,
        question("a.com"),
        vec![Answer::Answer(a_record("a.com", 1, 1)), Answer::Error(PacketError::ServFail)],
    );
    assert_eq!(p.header.get_rcode(), Rcode::ServFail);
    assert_eq!(p.into_bytes()[..], [0, 9, 0x80, 2, 0, 0, 0, 0, 0, 0, 0, 0]);
    let bytes = answer_datagram(
        9,
        question("a.com"),
        vec![Answer::Error(PacketError::NameError(Name::try_from("a.com").unwrap()))],
    );
    assert_eq!(bytes[..], [0, 9, 0x80, 3, 0, 0, 0, 0, 0, 0, 0, 0]);
}

#[test]
fn response_that_cannot_be_written_is_serv_fail() {
    let big = RR::new(
        Name::try_from("a").unwrap(),
        Duration::from_secs(1),
        RRClass::Internet,
        RRData::Null(Null::new(vec![0; 70000])),
    );
    let p = respond(4, question("a"), vec![Answer::Answer(big)]);
    assert_eq!(p.header.get_rcode(), Rcode::ServFail);
    assert_eq!(p.answers.len(), 0);
    assert_eq!(p.questions.len(), 0);
}

#[test]
fn failure_without_id_goes_under_zero() {
    let p = failure(TransactionError { id: None, error: PacketError::FormatError });
    assert_eq!(p.into_bytes()[..], [0, 0, 0x80, 1, 0, 0, 0, 0, 0, 0, 0, 0]);
    let p = failure(TransactionError { id: Some(0x0102), error: PacketError::ServFail });
    assert_eq!(p.into_bytes()[..], [1, 2, 0x80, 2, 0, 0, 0, 0, 0, 0, 0, 0]);
}

#[test]
fn upstream_datagrams() {
    // under 20 octets: dropped, though it parses
    let short = Packet::new_plain_answer(3).into_bytes();
    assert_eq!(short.len(), 12);
    assert!(matches!(upstream_datagram(short), Upstream::Ignore));
    // a response is delivered under its id
    match upstream_datagram(response(0x1234, 0x01020304)) {
        Upstream::Deliver(id, answers) => {
            assert_eq!(id, 0x1234);
            assert_eq!(kinds(&answers), ["answer"]);
            assert_eq!(address(&answers[0]), 0x01020304);
        }
        Upstream::Ignore => unreachable!(),
    }
    // a fault under a known id delivers the fault
    let mut cut = response(5, 1).to_vec();
    cut.truncate(30);
    match upstream_datagram(Bytes::from(cut)) {
        Upstream::Deliver(id, answers) => {
            assert_eq!(id, 5);
            assert_eq!(kinds(&answers), ["error"]);
            match &answers[0] {
                Answer::Error(e) => assert_eq!(e.rcode(), Rcode::FormatError),
                _ => unreachable!(),
            }
        }
        Upstream::Ignore => unreachable!(),
    }
    let mut two = vec![0u8, 6, 0x81, 0x80, 0, 2, 0, 0, 0, 0, 0, 0];
    two.extend_from_slice(&[0; 10]);
    match upstream_datagram(Bytes::from(two)) {
        Upstream::Deliver(id, answers) => {
            assert_eq!(id, 6);
            match &answers[0] {
                Answer::Error(e) => assert_eq!(e.rcode(), Rcode::ServFail),
                _ => unreachable!(),
            }
        }
        Upstream::Ignore => unreachable!(),
    }
}

#[test]
fn upstream_multiplexing() {
    let mut table: InFlight<usize> = InFlight::new();
    let mut datagrams = vec![];
    for caller in 0..100usize {
        let id = 1000 + 7 * caller as u16;
        assert!(table.insert(id, caller).is_none());
        let query = forward_datagram(id, question("example.com"));
        assert_eq!(Packet::parse_packet(query, 0).unwrap().get_id(), id);
        datagrams.push(response(id, caller as u32));
    }
    assert_eq!(table.len(), 100);
    // the upstream answers in reverse order
    for datagram in datagrams.into_iter().rev() {
        match upstream_datagram(datagram) {
            Upstream::Deliver(id, answers) => {
                let caller = table.take(id).unwrap();
                assert_eq!(id, 1000 + 7 * caller as u16);
                assert_eq!(answers.len(), 1);
                assert_eq!(address(&answers[0]), caller as u32);
                // a second datagram under the id finds no waiter
                assert!(!table.contains(id));
            }
            Upstream::Ignore => unreachable!(),
        }
    }
    assert!(table.is_empty());
    assert_eq!(table.len(), 0);
}

#[test]
fn timeout_gives_serv_fail() {
    assert_eq!(TIME_OUT_SECS, 5);
    let mut table: InFlight<&str> = InFlight::new();
    assert!(table.insert(42, "waiter").is_none());
    // the datagram is lost: when the time is up the waiter is taken out
    assert_eq!(table.take(42), Some("waiter"));
    let answers = timed_out();
    assert_eq!(answers.len(), 1);
    match &answers[0] {
        Answer::Error(e) => assert_eq!(e.rcode(), Rcode::ServFail),
        _ => unreachable!(),
    }
    assert!(table.is_empty());
    // an answer that comes late finds no waiter
    assert_eq!(table.take(42), None);
}

#[test]
fn in_flight_table() {
    let mut table: InFlight<u8> = InFlight::new();
    assert!(table.is_empty());
    assert_eq!(table.insert(1, 10), None);
    assert_eq!(table.insert(2, 20), None);
    assert_eq!(table.insert(1, 11), Some(10));
    assert_eq!(table.len(), 2);
    assert!(table.contains(2));
    assert_eq!(table.take(1), Some(11));
    assert_eq!(table.take(1), None);
    assert_eq!(table.take(2), Some(20));
    assert!(table.is_empty());
}

#[test]
fn upstream_stream_answers() {
    // a clean end of the stream is no answer and no fault
    assert!(stream_answers(Bytes::new()).is_empty());
    let framed = respond(
        1,
        question("a.com"),
        vec![Answer::Answer(a_record("a.com", 9, 1)), Answer::Additional(a_record("b.com", 8, 1))],
    )
    .into_frame();
    let answers = stream_answers(framed.clone());
    assert_eq!(kinds(&answers), ["answer", "additional"]);
    assert_eq!(address(&answers[1]), 8);
    let cut = framed.slice(..framed.len() - 1);
    let answers = stream_answers(cut);
    assert_eq!(kinds(&answers), ["error"]);
    match &answers[0] {
        Answer::Error(e) => assert_eq!(e.rcode(), Rcode::FormatError),
        _ => unreachable!(),
    }
}

#[test]
fn forwarded_query_frame() {
    let plain = forward_datagram(0x0a0b, question("a.b"));
    assert_eq!(plain[..4], [0x0a, 0x0b, 1, 0]);
    let framed = forward_frame(0x0a0b, question("a.b"));
    assert_eq!(framed[..2], [0, plain.len() as u8]);
    assert_eq!(framed[2..], plain[..]);
}

#[test]
fn client_datagrams() {
    assert!(matches!(client_datagram(Bytes::from(vec![0u8; 11])), Datagram::Ignore));
    // a header alone that does not parse: two questions
    let two = Bytes::from(vec![0u8, 6, 1, 0, 0, 2, 0, 0, 0, 0, 0, 0]);
    match client_datagram(two) {
        Datagram::Reply(b) => assert_eq!(b[..], [0, 6, 0x80, 2, 0, 0, 0, 0, 0, 0, 0, 0]),
        _ => unreachable!(),
    }
    // a question cut off
    let mut cut = forward_datagram(8, question("example.com")).to_vec();
    cut.truncate(20);
    match client_datagram(Bytes::from(cut)) {
        Datagram::Reply(b) => assert_eq!(b[..], [0, 8, 0x80, 1, 0, 0, 0, 0, 0, 0, 0, 0]),
        _ => unreachable!(),
    }
    // a response is no query
    match client_datagram(response(9, 1)) {
        Datagram::Reply(b) => assert_eq!(b[..], [0, 9, 0x80, 2, 0, 0, 0, 0, 0, 0, 0, 0]),
        _ => unreachable!(),
    }
    // a query without a question
    let bare = Bytes::from(vec![0u8, 10, 1, 0, 0, 0, 0, 0, 0, 0, 0, 0]);
    match client_datagram(bare) {
        Datagram::Reply(b) => assert_eq!(b[..], [0, 10, 0x80, 1, 0, 0, 0, 0, 0, 0, 0, 0]),
        _ => unreachable!(),
    }
    match client_datagram(forward_datagram(11, question("example.com"))) {
        Datagram::Query(id, q) => {
            assert_eq!(id, 11);
            assert_eq!(q.get_name().to_string(), "example.com.");
            assert_eq!(q.get_type(), RRType::A);
        }
        _ => unreachable!(),
    }
}

fn query_frame(id: u16) -> Bytes {
    forward_frame(id, question("example.com"))
}

fn malformed_frame() -> Bytes {
    // a frame of twelve octets whose header claims two questions would be a
    // server failure; a question cut off is a format error
    let mut frame = vec![0u8, 14];
    frame.extend_from_slice(&[0, 77, 1, 0, 0, 1, 0, 0, 0, 0, 0, 0, 3, b'c']);
    Bytes::from(frame)
}

fn expect_write(action: Action) -> Bytes {
    match action {
        Action::Write(bytes) => bytes,
        other => panic!("expected a write, got {:?}", other),
    }
}

#[test]
fn suspect_client() {
    let state = State::new();
    assert_eq!(state.notice(), Notice::Update);

    // (a) a well-formed query is answered
    let (state, action) = state.step(Event::Read(query_frame(1)));
    assert!(matches!(state, State::Dispatching(1, _)));
    match action {
        Action::Dispatch(q) => assert_eq!(q.get_name().to_string(), "example.com."),
        other => panic!("expected a dispatch, got {:?}", other),
    }
    let answers = vec![Answer::Answer(a_record("example.com", 0x13135100, 60))];
    let (state, action) = state.step(Event::Answers(answers));
    let written = expect_write(action);
    let reply = Packet::parse_stream(written).unwrap();
    assert_eq!(reply.get_id(), 1);
    assert_eq!(reply.answers.len(), 1);
    assert_eq!(reply.questions[0].get_name().to_string(), "example.com.");
    let (state, action) = state.step(Event::Written(true));
    assert!(matches!(state, State::Reading));
    assert!(matches!(action, Action::Read));

    // (b) a malformed message gets one failure response; the connection stays open
    let (state, action) = state.step(Event::Read(malformed_frame()));
    let written = expect_write(action);
    assert_eq!(written[..], [0, 12, 0, 77, 0x80, 1, 0, 0, 0, 0, 0, 0, 0, 0]);
    assert_eq!(state.notice(), Notice::Update);
    let (state, action) = state.step(Event::Written(true));
    assert!(matches!(state, State::Suspect));
    assert!(matches!(action, Action::Read));

    // (c) another malformed message gets a failure response and closes the connection
    let (state, action) = state.step(Event::Read(malformed_frame()));
    let written = expect_write(action);
    assert_eq!(written[..], [0, 12, 0, 77, 0x80, 1, 0, 0, 0, 0, 0, 0, 0, 0]);
    let (state, action) = state.step(Event::Written(true));
    assert!(state.is_closed());
    assert!(matches!(action, Action::Stop));
    assert_eq!(state.notice(), Notice::ShutDown);
    let (state, action) = state.step(Event::Read(query_frame(2)));
    assert!(state.is_closed());
    assert!(matches!(action, Action::Stop));

    // (d) a new connection is served as usual
    let state = State::new();
    let (state, action) = state.step(Event::Read(query_frame(3)));
    assert!(matches!(state, State::Dispatching(3, _)));
    assert!(matches!(action, Action::Dispatch(_)));
}

#[test]
fn good_query_clears_suspicion() {
    let (state, _) = State::new().step(Event::Read(malformed_frame()));
    let (state, _) = state.step(Event::Written(true));
    assert!(matches!(state, State::Suspect));
    let (state, action) = state.step(Event::Read(query_frame(5)));
    assert!(matches!(action, Action::Dispatch(_)));
    let (state, _) = state.step(Event::Answers(vec![]));
    let (state, _) = state.step(Event::Written(true));
    assert!(matches!(state, State::Reading));
    // so that the next malformed message does not close the connection
    let (state, _) = state.step(Event::Read(malformed_frame()));
    let (state, action) = state.step(Event::Written(true));
    assert!(matches!(state, State::Suspect));
    assert!(matches!(action, Action::Read));
}

#[test]
fn worker_closes_on_end_of_stream_and_failed_write() {
    let (state, action) = State::new().step(Event::Read(Bytes::new()));
    assert!(state.is_closed());
    assert!(matches!(action, Action::Stop));

    let (state, _) = State::new().step(Event::Read(query_frame(1)));
    let (state, _) = state.step(Event::Answers(vec![]));
    let (state, action) = state.step(Event::Written(false));
    assert!(state.is_closed());
    assert!(matches!(action, Action::Stop));

    let (state, action) = State::new().step(Event::ShutDown);
    assert!(state.is_closed());
    assert!(matches!(action, Action::Stop));

    // an event out of turn closes the worker
    let (state, action) = State::new().step(Event::Written(true));
    assert!(state.is_closed());
    assert!(matches!(action, Action::Stop));
}

#[test]
fn worker_refuses_what_is_no_query() {
    let frame = respond(21, question("a.com"), vec![]).into_frame();
    let (state, action) = State::new().step(Event::Read(frame));
    let written = expect_write(action);
    assert_eq!(written[..], [0, 12, 0, 21, 0x80, 1, 0, 0, 0, 0, 0, 0, 0, 0]);
    let (state, _) = state.step(Event::Written(true));
    assert!(matches!(state, State::Suspect));
    // a frame whose length is under twelve has no id
    let (_, action) = State::new().step(Event::Read(Bytes::from(vec![0u8, 3, 1, 2, 3])));
    let written = expect_write(action);
    assert_eq!(written[..], [0, 12, 0, 0, 0x80, 1, 0, 0, 0, 0, 0, 0, 0, 0]);
}

#[test]
fn worker_reports_upstream_fault() {
    let (state, _) = State::new().step(Event::Read(query_frame(31)));
    let (state, action) = state.step(Event::Answers(timed_out()));
    let written = expect_write(action);
    assert_eq!(written[..], [0, 12, 0, 31, 0x80, 2, 0, 0, 0, 0, 0, 0, 0, 0]);
    let (state, action) = state.step(Event::Written(true));
    assert!(matches!(state, State::Reading));
    assert!(matches!(action, Action::Read));
}

#[test]
fn transactions_through_the_table() {
    let mut table: InFlight<&str> = InFlight::new();
    let (query, displaced) = table.launch(7, "first", question("example.com"));
    assert!(displaced.is_none());
    assert_eq!(query[..], forward_datagram(7, question("example.com"))[..]);
    assert!(table.contains(7));
    let (_, displaced) = table.launch(7, "second", question("example.org"));
    assert_eq!(displaced, Some("first"));
    let (_, _) = table.launch(8, "third", question("example.net"));

    // an answer for nobody, and a datagram that says nothing, change nothing
    assert!(table.deliver(response(9, 1)).is_none());
    assert!(table.deliver(Bytes::from(vec![0u8; 5])).is_none());
    assert_eq!(table.len(), 2);

    let (waiter, answers) = table.deliver(response(7, 0x0a000001)).unwrap();
    assert_eq!(waiter, "second");
    assert_eq!(address(&answers[0]), 0x0a000001);
    assert!(table.deliver(response(7, 0x0a000001)).is_none());

    let (waiter, answers) = table.expire(8).unwrap();
    assert_eq!(waiter, "third");
    assert_eq!(kinds(&answers), ["error"]);
    assert!(table.expire(8).is_none());
    assert!(table.is_empty());
}
