use bytes::{BufMut, Bytes, BytesMut};
use tsein_dns::protocol::domain::Name;
use tsein_dns::protocol::error::{IpAddress, PacketError, TransactionError};
use tsein_dns::protocol::header::{Header, Op, Rcode};

fn example_packet() -> Bytes {
    let mut packet = BytesMut::new();
    // create header
    packet.put_u16(0); // id == 0;
    // query = True (0); Opcode = QUERY (0); AA = FALSE (0); TC = FALSE (0); RD = TRUE (1)
    packet.put_u8(1);
    packet.put_u8(0x20); // z = 2; rcode = 0;
    packet.put_u16(1); // QDCOUNT = 1;
    packet.put_u16(0); // ANCOUNT = 0;
    packet.put_u16(0); // NSCOUNT = 0;
    packet.put_u16(0); // ARCOUNT = 0;
    Bytes::from(packet)
}

#[test]
fn test_parse_header() {
    let packet = example_packet();

    let h_result = Header::parse(packet, 0);
    assert!(h_result.is_ok());
    let h = h_result.unwrap();

    assert_eq!(h.get_id(), 0);
    assert!(h.is_query());
    assert_eq!(h.get_op(), Op::Query);
    assert!(!h.is_auth());
    assert!(!h.is_trunc());
    assert!(h.is_rec_des());

    assert!(!h.is_rec_avl());
    assert_eq!(h.get_z(), 2);
    assert_eq!(h.get_rcode(), Rcode::NoError);

    assert_eq!(h.question_count(), 1);
    assert_eq!(h.answer_count(), 0);
    assert_eq!(h.authority_count(), 0);
    assert_eq!(h.addition_count(), 0);
}

#[test]
fn header_test_to_bytes() {
    let h = Header::parse(example_packet(), 0).unwrap();
    let bin = h.try_into_bytes().unwrap();
    let raw = example_packet();
    assert_eq!(bin.len(), raw.len());
    assert_eq!(&bin[..], &raw[..]);
}

#[test]
fn test_parse_stream() {
    let h = Header::parse_stream(example_packet());
    assert!(h.is_ok());
    let h = h.unwrap();
    let raw = Bytes::from(h.try_into_bytes().unwrap());
    assert_eq!(raw, example_packet());
}

#[test]
fn header_literal_octets() {
    let raw = Bytes::from(vec![0u8, 0, 0x01, 0x20, 0, 1, 0, 0, 0, 0, 0, 0]);
    let h = Header::parse(raw.clone(), 0).unwrap();
    assert_eq!(h.get_id(), 0);
    assert!(h.is_query());
    assert_eq!(h.get_op(), Op::Query);
    assert!(h.is_rec_des());
    assert!(!h.is_auth());
    assert!(!h.is_trunc());
    assert!(!h.is_rec_avl());
    assert_eq!(h.get_z(), 2);
    assert_eq!(h.get_rcode(), Rcode::NoError);
    assert_eq!(
        (h.question_count(), h.answer_count(), h.authority_count(), h.addition_count()),
        (1, 0, 0, 0)
    );
    assert_eq!(&h.try_into_bytes().unwrap()[..], &raw[..]);
    assert_eq!(h.size(), 12);
}

#[test]
fn header_every_flag_round_trips() {
    // QR=1 Opcode=2 AA=1 TC=1 RD=0 | RA=1 Z=5 RCODE=3
    let raw = Bytes::from(vec![0xbeu8, 0xef, 0x96, 0xd3, 0, 0, 0, 2, 0, 3, 0, 4]);
    let h = Header::parse(raw.clone(), 0).unwrap();
    assert_eq!(h.get_id(), 0xbeef);
    assert!(!h.is_query());
    assert_eq!(h.get_op(), Op::Status);
    assert!(h.is_auth());
    assert!(h.is_trunc());
    assert!(!h.is_rec_des());
    assert!(h.is_rec_avl());
    assert_eq!(h.get_z(), 5);
    assert_eq!(h.get_rcode(), Rcode::NameError);
    assert_eq!(h.answer_count(), 2);
    assert_eq!(h.authority_count(), 3);
    assert_eq!(h.addition_count(), 4);
    assert_eq!(&h.try_into_bytes().unwrap()[..], &raw[..]);
}

#[test]
fn header_is_read_at_its_offset() {
    let mut raw = vec![0xffu8, 0xff, 0xff];
    raw.extend_from_slice(&example_packet());
    raw[3] = 0x12;
    raw[4] = 0x34;
    let h = Header::parse(Bytes::from(raw), 3).unwrap();
    assert_eq!(h.get_id(), 0x1234);
    assert_eq!(h.question_count(), 1);
}

fn fault(r: Result<Header, TransactionError>) -> (Option<u16>, Rcode) {
    let e = r.err().unwrap();
    (e.id, e.error.rcode())
}

#[test]
fn header_too_short_is_format_error() {
    let raw = Bytes::from(vec![0u8; 11]);
    assert_eq!(fault(Header::parse(raw, 0)), (None, Rcode::FormatError));
    assert_eq!(fault(Header::parse(example_packet(), 1)), (None, Rcode::FormatError));
    assert_eq!(fault(Header::parse(example_packet(), 13)), (None, Rcode::FormatError));
}

#[test]
fn header_two_questions_is_serv_fail() {
    let raw = Bytes::from(vec![0x00u8, 0x07, 0x01, 0x00, 0, 2, 0, 0, 0, 0, 0, 0]);
    assert_eq!(fault(Header::parse(raw.clone(), 0)), (Some(7), Rcode::ServFail));
    assert_eq!(fault(Header::parse_stream(raw)), (Some(7), Rcode::ServFail));
}

#[test]
fn header_stream_cut_off() {
    let whole = vec![0x00u8, 0x07, 0x01, 0x00, 0, 1, 0, 0, 0, 0, 0, 0];
    assert_eq!(fault(Header::parse_stream(Bytes::new())), (None, Rcode::FormatError));
    assert_eq!(
        fault(Header::parse_stream(Bytes::from(whole[..1].to_vec()))),
        (None, Rcode::FormatError)
    );
    assert_eq!(
        fault(Header::parse_stream(Bytes::from(whole[..5].to_vec()))),
        (Some(7), Rcode::FormatError)
    );
    assert_eq!(
        fault(Header::parse_stream(Bytes::from(whole[..11].to_vec()))),
        (Some(7), Rcode::FormatError)
    );
    assert!(Header::parse_stream(Bytes::from(whole)).is_ok());
}

#[test]
fn header_constructors() {
    let q = Header::new_query(9);
    assert_eq!(&q.try_into_bytes().unwrap()[..], &[0, 9, 0x01, 0x00, 0, 1, 0, 0, 0, 0, 0, 0]);
    let a = Header::new_answer(9, 1, 2, 3);
    assert_eq!(&a.try_into_bytes().unwrap()[..], &[0, 9, 0x81, 0x80, 0, 0, 0, 1, 0, 2, 0, 3]);
    let codes = [
        (PacketError::FormatError, 1u8),
        (PacketError::ServFail, 2),
        (PacketError::NotImpl(Op::IQuery), 4),
    ];
    for (error, code) in codes {
        let f = Header::new_failure(9, error);
        assert_eq!(u8::from(f.get_rcode()), code);
        assert_eq!(&f.try_into_bytes().unwrap()[..], &[0, 9, 0x80, code, 0, 0, 0, 0, 0, 0, 0, 0]);
    }
}

#[test]
fn header_setters() {
    let mut h = Header::new_answer(1, 0, 0, 0);
    h.set_questions(1);
    h.set_answers(2);
    h.set_authorities(3);
    h.set_additional(4);
    assert_eq!(
        (h.question_count(), h.answer_count(), h.authority_count(), h.addition_count()),
        (1, 2, 3, 4)
    );
    assert_eq!(h.get_id(), 1);
}

#[test]
fn op_and_rcode_codes() {
    assert_eq!(Op::from(0), Op::Query);
    assert_eq!(Op::from(1), Op::IQuery);
    assert_eq!(Op::from(2), Op::Status);
    assert_eq!(Op::from(9), Op::Reserved(9));
    assert_eq!(u8::from(Op::Reserved(9)), 9);
    assert_eq!(Rcode::from(5), Rcode::Refused);
    assert_eq!(Rcode::from(6), Rcode::Reserved(6));
    assert_eq!(u8::from(Rcode::NameError), 3);
    assert_eq!(Op::Query.to_string(), "Query");
    assert_eq!(Op::IQuery.to_string(), "Inverse Query");
    assert_eq!(Op::Status.to_string(), "Status");
    assert_eq!(Op::Reserved(7).to_string(), "Unknown Operation Code: 7");
    assert_eq!(Op::Reserved(10).to_string(), "Unknown Operation Code: 10");
    assert_eq!(Op::Reserved(15).to_string(), "Unknown Operation Code: 15");
    assert_eq!(Op::Reserved(255).to_string(), "Unknown Operation Code: 255");
}

#[test]
fn every_fault_has_its_code() {
    let faults = [
        (PacketError::FormatError, Rcode::FormatError, 1u8),
        (PacketError::ServFail, Rcode::ServFail, 2),
        (PacketError::NameError(Name::try_from("no.such.name").unwrap()), Rcode::NameError, 3),
        (PacketError::NotImpl(Op::Status), Rcode::NotImpl, 4),
        (PacketError::Refused(IpAddress::V4(0x7f000001)), Rcode::Refused, 5),
        (PacketError::Refused(IpAddress::V6(1)), Rcode::Refused, 5),
    ];
    for (fault, rcode, code) in faults {
        assert_eq!(fault.rcode(), rcode);
        assert_eq!(fault.clone().rcode(), rcode);
        assert_eq!(u8::from(rcode), code);
        assert_eq!(Rcode::from(code), rcode);
        let failed = TransactionError { id: Some(1), error: fault };
        assert_eq!(failed.clone().error.rcode(), rcode);
        assert_eq!(Header::new_failure(1, failed.error).get_rcode(), rcode);
    }
}
