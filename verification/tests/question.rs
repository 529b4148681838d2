use bytes::Bytes;
use std::collections::hash_map::DefaultHasher;
use std::hash::{Hash, Hasher};
use tsein_dns::protocol::domain::Name;
use tsein_dns::protocol::question::{Fingerprint, Question};
use tsein_dns::protocol::types::{RRClass, RRType};

#[test]
fn test_build() {
    let name = Name::try_from("example.com").unwrap();
    let ty = RRType::from(1);
    let class = RRClass::from(1);
    let question = Question::build(name.clone(), ty, class);
    assert_eq!(question.get_name(), name);
    assert_eq!(question.get_type(), ty);
    assert_eq!(question.get_class(), class);
}

#[test]
fn question_test_parse() {
    let bytes = Bytes::from(vec![
        7, b'e', b'x', b'a', b'm', b'p', b'l', b'e', 3, b'c', b'o', b'm', 0, // domain name
        0, 1, // type
        0, 1, // class
    ]);

    let size = bytes.len();

    let parsed = Question::parse(bytes, 0);
    assert!(parsed.is_ok());
    let ques = parsed.unwrap();
    let name = ques.get_name();
    let ty = ques.get_type();
    let class = ques.get_class();

    let n = name.to_string();
    assert_eq!(n, "example.com.");
    assert_eq!(ty, RRType::A);
    assert_eq!(class, RRClass::Internet);
    assert_eq!(size, ques.size());
}

#[test]
fn question_round_trip() {
    let name = Name::try_from("www.example.org").unwrap();
    let q = Question::build(name.clone(), RRType::Aaaa, RRClass::Chaos);
    assert_eq!(q.size(), 16 + 1 + 4);
    let wire = Bytes::from(q.into_bytes().unwrap());
    assert_eq!(wire[wire.len() - 4..], [0, 28, 0, 3]);
    let back = Question::parse(wire.clone(), 0).unwrap();
    assert_eq!(back.get_name(), name);
    assert_eq!(back.get_type(), RRType::Aaaa);
    assert_eq!(back.get_class(), RRClass::Chaos);
    assert_eq!(back.size(), wire.len());
}

#[test]
fn question_cut_off_is_refused() {
    let bytes = Bytes::from(vec![3, b'c', b'o', b'm', 0, 0, 1, 0]);
    assert!(Question::parse(bytes, 0).is_err());
    let bytes = Bytes::from(vec![3, b'c', b'o', b'm']);
    assert!(Question::parse(bytes, 0).is_err());
}

#[test]
fn question_setters() {
    let mut q = Question::build(Name::try_from("a.b").unwrap(), RRType::A, RRClass::Internet);
    q.set_name(Name::try_from("c.d").unwrap());
    assert_eq!(q.get_name().to_string(), "c.d.");
    q.set_name_unchecked("e.f");
    assert_eq!(q.get_name().to_string(), "e.f.");
    assert_eq!(q.get_type(), RRType::A);
}

#[test]
fn test_pub_map_enum() {
    let my_foo = RRClass::from(0);
    assert_eq!(my_foo, RRClass::Reserved);
    let unknown = RRClass::from(11451);
    assert_eq!(unknown, RRClass::Unknown(11451));
    assert_eq!(u16::from(my_foo), 0);
    assert_eq!(u16::from(unknown), 11451);
}

#[test]
fn record_type_codes() {
    let known = [
        (1u16, RRType::A, "A"),
        (2, RRType::Ns, "NS"),
        (5, RRType::Cname, "CNAME"),
        (6, RRType::Soa, "SOA"),
        (7, RRType::Mb, "MB"),
        (8, RRType::Mg, "MG"),
        (9, RRType::Mr, "MR"),
        (10, RRType::Null, "NULL"),
        (11, RRType::Wks, "WKS"),
        (12, RRType::Ptr, "PTR"),
        (13, RRType::HInfo, "HINFO"),
        (14, RRType::MInfo, "MINFO"),
        (15, RRType::Mx, "MX"),
        (16, RRType::Txt, "TXT"),
        (28, RRType::Aaaa, "AAAA"),
    ];
    for (code, ty, name) in known {
        assert_eq!(RRType::from(code), ty);
        assert_eq!(u16::from(ty), code);
        assert_eq!(ty.to_string(), name);
    }
    assert_eq!(RRType::from(3), RRType::UNKNOWN(3));
    assert_eq!(RRType::UNKNOWN(3).to_string(), "UNKNOWN(3)");
    assert_eq!(RRType::UNKNOWN(0).to_string(), "UNKNOWN(0)");
    assert_eq!(RRType::UNKNOWN(100).to_string(), "UNKNOWN(100)");
    assert_eq!(RRType::UNKNOWN(4097).to_string(), "UNKNOWN(4097)");
    assert_eq!(RRType::UNKNOWN(65535).to_string(), "UNKNOWN(65535)");
    for code in 0..=u16::MAX {
        assert_eq!(u16::from(RRType::from(code)), code);
        assert_eq!(u16::from(RRClass::from(code)), code);
    }
    assert_eq!(RRClass::from(1), RRClass::Internet);
    assert_eq!(RRClass::from(3), RRClass::Chaos);
    assert_eq!(RRClass::from(4), RRClass::Hesiod);
}

#[test]
fn fingerprint_tells_questions_apart() {
    let built =
        Question::build(Name::try_from("example.com").unwrap(), RRType::A, RRClass::Internet);
    // the same question, read from a message where its name is compressed
    let mut wire = b"\x03com\x00".to_vec();
    wire.extend_from_slice(b"\x07example\xc0\x00\x00\x01\x00\x01");
    let parsed = Question::parse(Bytes::from(wire), 5).unwrap();
    assert_eq!(parsed.size(), 14);
    assert_eq!(built.size(), 17);
    assert_eq!(parsed.fingerprint(), built.fingerprint());
    assert_eq!(hash_of(&parsed.fingerprint()), hash_of(&built.fingerprint()));

    let other_type =
        Question::build(Name::try_from("example.com").unwrap(), RRType::Aaaa, RRClass::Internet);
    let other_name =
        Question::build(Name::try_from("example.org").unwrap(), RRType::A, RRClass::Internet);
    let other_class =
        Question::build(Name::try_from("example.com").unwrap(), RRType::A, RRClass::Chaos);
    assert_ne!(other_type.fingerprint(), built.fingerprint());
    assert_ne!(other_name.fingerprint(), built.fingerprint());
    assert_ne!(other_class.fingerprint(), built.fingerprint());

    let again = built.fingerprint().clone().question();
    assert_eq!(again.get_name(), built.get_name());
    assert_eq!(again.get_type(), RRType::A);
    assert_eq!(again.size(), 17);
}

fn hash_of(key: &Fingerprint) -> u64 {
    let mut hasher = DefaultHasher::new();
    key.hash(&mut hasher);
    hasher.finish()
}
