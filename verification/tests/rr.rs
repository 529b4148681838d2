use bytes::Bytes;
use std::time::Duration;
use tsein_dns::protocol::domain::Name;
use tsein_dns::protocol::rr::rdata::a::A;
use tsein_dns::protocol::rr::rdata::aaaa::Aaaa;
use tsein_dns::protocol::rr::rdata::cname::Cname;
use tsein_dns::protocol::rr::rdata::hinfo::HInfo;
use tsein_dns::protocol::rr::rdata::mb::Mb;
use tsein_dns::protocol::rr::rdata::mg::Mg;
use tsein_dns::protocol::rr::rdata::minfo::MInfo;
use tsein_dns::protocol::rr::rdata::mr::Mr;
use tsein_dns::protocol::rr::rdata::mx::Mx;
use tsein_dns::protocol::rr::rdata::nl::Null;
use tsein_dns::protocol::rr::rdata::ns::Ns;
use tsein_dns::protocol::rr::rdata::pt::Ptr;
use tsein_dns::protocol::rr::rdata::soa::SOA;
use tsein_dns::protocol::rr::rdata::txt::Txt;
use tsein_dns::protocol::rr::rdata::unknown::Unknown;
use tsein_dns::protocol::rr::rdata::wks::Wks;
use tsein_dns::protocol::rr::{rdata_parse, RRData, RR};
use tsein_dns::protocol::types::{RRClass, RRType};

fn v4(a: u8, b: u8, c: u8, d: u8) -> u32 {
    u32::from_be_bytes([a, b, c, d])
}

#[test]
fn test_getters() {
    let a = A::from(v4(11, 4, 5, 14));
    let name = Name::try_from("example.com").unwrap();
    let du = Duration::from_secs(114514);
    let rr = RR::new(name, du, RRClass::Internet, RRData::A(a));
    assert_eq!(rr.get_ttl(), du);
    assert_eq!(rr.get_domain().to_string(), "example.com.");
    assert_eq!(rr.get_type(), RRType::A);
}

#[test]
fn test_setters() {
    let a = A::from(v4(11, 4, 5, 14));
    let name = Name::try_from("example.com").unwrap();
    let du = Duration::from_secs(114514);
    let mut rr = RR::new(name, du, RRClass::Internet, RRData::A(a));

    assert_eq!(rr.get_ttl(), du);
    let new_du = Duration::from_secs(1919810);
    rr.set_ttl(new_du);
    assert_eq!(rr.get_ttl(), new_du);
}

#[test]
fn test_to_bytes_and_parse() {
    let a = A::from(v4(19, 19, 81, 0));
    let name = Name::try_from("example.com").unwrap();
    let du = Duration::from_secs(114514);
    let rr = RR::new(name, du, RRClass::Internet, RRData::A(a));
    let rdata = match rr.clone().into_rdata() {
        RRData::A(a) => a,
        _ => {
            unreachable!()
        }
    };
    assert_eq!(rdata, a);
    let bytes = rr.clone().into_bytes().unwrap();
    let parsed = RR::parse(bytes.into(), 0);
    assert!(parsed.is_ok());
    let parsed_rr = parsed.unwrap();
    assert_eq!(parsed_rr.get_ttl(), du);
    assert_eq!(parsed_rr.get_type(), rr.get_type());
    assert_eq!(parsed_rr.get_domain(), rr.get_domain());
}

#[test]
fn rr_literal_octets() {
    let rr = RR::new(
        Name::try_from("a.io").unwrap(),
        Duration::from_secs(0x01020304),
        RRClass::Internet,
        RRData::A(A::from(v4(19, 19, 81, 0))),
    );
    assert_eq!(rr.size(), 0);
    let wire = rr.into_bytes().unwrap();
    assert_eq!(
        wire[..],
        [1, b'a', 2, b'i', b'o', 0, 0, 1, 0, 1, 1, 2, 3, 4, 0, 4, 19, 19, 81, 0]
    );
    let back = RR::parse(Bytes::from(wire.clone()), 0).unwrap();
    assert_eq!(back.size(), wire.len());
    assert_eq!(back.ttl_secs(), 0x01020304);
    assert_eq!(back.get_class(), RRClass::Internet);
}

#[test]
fn rr_ttl_keeps_32_bits_of_seconds() {
    let mut rr = RR::new(
        Name::try_from("a").unwrap(),
        Duration::new((1u64 << 32) + 7, 999_999_999),
        RRClass::Internet,
        RRData::A(A::from(0)),
    );
    assert_eq!(rr.ttl_secs(), 7);
    assert_eq!(rr.get_ttl(), Duration::from_secs(7));
    rr.set_ttl(Duration::from_millis(2500));
    assert_eq!(rr.ttl_secs(), 2);
}

fn name(text: &str) -> Name {
    Name::try_from(text).unwrap()
}

fn every_kind() -> Vec<RRData> {
    vec![
        RRData::A(A::from(v4(192, 0, 2, 1))),
        RRData::Aaaa(Aaaa::from(0x2001_0db8_0000_0000_0000_0000_0000_0001)),
        RRData::Cname(Cname::from(name("c.example"))),
        RRData::HInfo(HInfo::new(b"arm".to_vec(), b"bsd".to_vec())),
        RRData::Ptr(Ptr::from(name("p.example"))),
        RRData::Mx(Mx::new(20, name("mail.example"))),
        RRData::Mb(Mb::from(name("mb.example"))),
        RRData::Mg(Mg::from(name("mg.example"))),
        RRData::Mr(Mr::from(name("mr.example"))),
        RRData::Wks(Wks::new(v4(192, 0, 2, 2), 6, vec![1, 2, 3])),
        RRData::Null(Null::new(vec![9, 8, 7])),
        RRData::MInfo(MInfo::new(name("r.example"), name("e.example"))),
        RRData::Ns(Ns::from(name("ns.example"))),
        RRData::Soa(SOA::new(name("ns.example"), name("root.example"), 1, 2, 3, 4, 5)),
        RRData::Txt(Txt::new(vec![b"hello".to_vec(), b"world".to_vec()])),
        RRData::Unknown(Unknown::new(99, Bytes::from(vec![1, 2, 3, 4]))),
    ]
}

#[test]
fn every_kind_of_data_round_trips() {
    let types = [
        RRType::A,
        RRType::Aaaa,
        RRType::Cname,
        RRType::HInfo,
        RRType::Ptr,
        RRType::Mx,
        RRType::Mb,
        RRType::Mg,
        RRType::Mr,
        RRType::Wks,
        RRType::Null,
        RRType::MInfo,
        RRType::Ns,
        RRType::Soa,
        RRType::Txt,
        RRType::UNKNOWN(99),
    ];
    let costs = [5, 1, 1, 0, 0, 1, 0, 0, 0, 0, 0, 0, 2, 5, 0, 0];
    for ((data, ty), cost) in every_kind().into_iter().zip(types).zip(costs) {
        assert_eq!(data.get_type(), ty);
        assert_eq!(data.cost(), cost);
        let wire = Bytes::from(data.clone().try_into_bytes().unwrap());
        let (back, end) = rdata_parse(ty, wire.clone(), 0).unwrap();
        assert_eq!(end, wire.len());
        assert_eq!(back.get_type(), ty);
        assert_eq!(back.try_into_bytes().unwrap()[..], wire[..]);

        let rr = RR::new(name("owner.example"), Duration::from_secs(300), RRClass::Internet, data);
        let wire = Bytes::from(rr.clone().into_bytes().unwrap());
        let back = RR::parse(wire.clone(), 0).unwrap();
        assert_eq!(back.size(), wire.len());
        assert_eq!(back.get_type(), ty);
        assert_eq!(back.get_domain(), rr.get_domain());
        assert_eq!(back.ttl_secs(), 300);
        assert_eq!(back.into_bytes().unwrap()[..], wire[..]);
    }
}

#[test]
fn rr_that_cannot_be_written() {
    let rr = RR::new(
        name("a"),
        Duration::from_secs(1),
        RRClass::Internet,
        RRData::Null(Null::new(vec![0; 70000])),
    );
    assert!(rr.into_bytes().is_err());
    let rr = RR::new(
        name("a"),
        Duration::from_secs(1),
        RRClass::Internet,
        RRData::Txt(Txt::new(vec![vec![0; 300]])),
    );
    assert!(rr.into_bytes().is_err());
}

#[test]
fn rr_cut_off_is_refused() {
    let rr = RR::new(
        name("a.io"),
        Duration::from_secs(1),
        RRClass::Internet,
        RRData::A(A::from(1)),
    );
    let wire = rr.into_bytes().unwrap();
    for cut in 0..wire.len() {
        assert!(RR::parse(Bytes::from(wire[..cut].to_vec()), 0).is_err());
    }
}
