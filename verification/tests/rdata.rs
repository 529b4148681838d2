use bytes::{BufMut, Bytes, BytesMut};
use tsein_dns::protocol::domain::Name;
use tsein_dns::protocol::rr::rdata::a::A;
use tsein_dns::protocol::rr::rdata::aaaa::Aaaa;
use tsein_dns::protocol::rr::rdata::cname::Cname;
use tsein_dns::protocol::rr::rdata::hinfo::HInfo;
use tsein_dns::protocol::rr::rdata::mb::Mb;
use tsein_dns::protocol::rr::rdata::mg::Mg;
use tsein_dns::protocol::rr::rdata::minfo::MInfo;
use tsein_dns::protocol::rr::rdata::mr::Mr;
use tsein_dns::protocol::rr::rdata::mx::Mx;
use tsein_dns::protocol::rr::rdata::nl::Null;
use tsein_dns::protocol::rr::rdata::ns::Ns;
use tsein_dns::protocol::rr::rdata::pt::Ptr;
use tsein_dns::protocol::rr::rdata::soa::SOA;
use tsein_dns::protocol::rr::rdata::try_into_rdata_length;
use tsein_dns::protocol::rr::rdata::Rdata;
use tsein_dns::protocol::rr::rdata::txt::Txt;
use tsein_dns::protocol::rr::rdata::unknown::Unknown;
use tsein_dns::protocol::rr::rdata::wks::Wks;
use tsein_dns::protocol::types::RRType;

fn v4(a: u8, b: u8, c: u8, d: u8) -> u32 {
    u32::from_be_bytes([a, b, c, d])
}

#[test]
fn a_test_parse() {
    // test parse invalid data
    let invalid = Bytes::from(vec![0_u8, 1_u8, 114, 5, 1, 4]);
    let parsed = A::parse(invalid, 0);
    assert!(parsed.is_err());

    let rdata = Bytes::from(vec![0, 4_u8, 114, 5, 1, 4]); // RDLENGTH and RDATA
    let pos = 0;
    let parsed = A::parse(rdata, pos);
    assert!(parsed.is_ok());
    let (a, end) = parsed.unwrap();
    assert_eq!(a, A::from(v4(114, 5, 1, 4)));
    assert_eq!(end, 6);
}

#[test]
fn a_test_to_bytes() {
    let rdata = Bytes::from(vec![0_u8, 4, 191, 9, 8, 10]);
    let a = A::from(v4(191, 9, 8, 10));
    let result = a.try_into_bytes();
    assert!(result.is_ok());
    let bytes = result.unwrap();
    assert_eq!(bytes[..], rdata[..]);
}

fn v6_ones() -> u128 {
    u128::from_be_bytes([0, 1, 0, 1, 0, 1, 0, 1, 0, 1, 0, 1, 0, 1, 0, 1])
}

#[test]
fn aaaa_test_parse() {
    let addr = v6_ones();

    // test invalid data
    let mut invalid_buf = BytesMut::new();
    invalid_buf.put_u16(23);
    invalid_buf.put_u8(23);
    assert!(Aaaa::parse(Bytes::from(invalid_buf), 0).is_err());

    let mut buf = BytesMut::new();
    buf.put_u16(16);
    buf.put_u128(addr);
    let rdata = Bytes::from(buf);
    let parsed = Aaaa::parse(rdata, 0);
    assert!(parsed.is_ok());
    let (aaaa, end) = parsed.unwrap();
    assert_eq!(aaaa, Aaaa::from(addr));
    assert_eq!(end, 18);
}

#[test]
fn aaaa_test_to_bytes() {
    let addr = v6_ones();
    let aaaa = Aaaa::from(addr);
    let bytes = aaaa.try_into_bytes();
    assert!(bytes.is_ok());
    let bytes = bytes.unwrap();
    let rdata = [0_u8, 16, 0, 1, 0, 1, 0, 1, 0, 1, 0, 1, 0, 1, 0, 1, 0, 1];
    assert_eq!(bytes[..], rdata[..]);
}

#[test]
fn cname_test_parse() {
    // test invalid
    let invalid = Bytes::from(b"\x00\x0f\x07example\x03com\x00".to_vec());
    let parsed = Cname::parse(invalid, 0);
    assert!(parsed.is_err());

    let rdata = Bytes::from(b"\x00\x0d\x07example\x03com\x00".to_vec());
    let parsed = Cname::parse(rdata.clone(), 0);
    assert!(parsed.is_ok());
    let (cname, end) = parsed.unwrap();
    let target = Cname::from(Name::try_from("example.com").unwrap());
    assert_eq!(end, rdata.len());
    assert_eq!(cname, target);
}

#[test]
fn cname_test_to_bytes() {
    let rdata = Bytes::from(b"\x00\x0d\x07example\x03com\x00".to_vec());
    let cname = Cname::from(Name::try_from("example.com").unwrap());
    let bytes = cname.try_into_bytes();
    assert!(bytes.is_ok());
    let bytes = bytes.unwrap();
    assert_eq!(bytes[..], rdata[..]);
}

#[test]
fn mb_test_parse() {
    // test invalid
    let invalid = Bytes::from(b"\x00\x0f\x07example\x03com\x00".to_vec());
    let parsed = Mb::parse(invalid, 0);
    assert!(parsed.is_err());

    let rdata = Bytes::from(b"\x00\x0d\x07example\x03com\x00".to_vec());
    let parsed = Mb::parse(rdata.clone(), 0);
    assert!(parsed.is_ok());
    let (mb, end) = parsed.unwrap();
    let target = Mb::from(Name::try_from("example.com").unwrap());
    assert_eq!(end, rdata.len());
    assert_eq!(mb, target);
}

#[test]
fn mb_test_to_bytes() {
    let rdata = Bytes::from(b"\x00\x0d\x07example\x03com\x00".to_vec());
    let mb = Mb::from(Name::try_from("example.com").unwrap());
    let bytes = mb.try_into_bytes();
    assert!(bytes.is_ok());
    let bytes = bytes.unwrap();
    assert_eq!(bytes[..], rdata[..]);
}

#[test]
fn mr_test_parse() {
    // test invalid
    let invalid = Bytes::from(b"\x00\x0f\x07example\x03com\x00".to_vec());
    let parsed = Mr::parse(invalid, 0);
    assert!(parsed.is_err());

    let rdata = Bytes::from(b"\x00\x0d\x07example\x03com\x00".to_vec());
    let parsed = Mr::parse(rdata.clone(), 0);
    assert!(parsed.is_ok());
    let (mr, end) = parsed.unwrap();
    let target = Mr::from(Name::try_from("example.com").unwrap());
    assert_eq!(end, rdata.len());
    assert_eq!(mr, target);
}

#[test]
fn mr_test_to_bytes() {
    let rdata = Bytes::from(b"\x00\x0d\x07example\x03com\x00".to_vec());
    let mr = Mr::from(Name::try_from("example.com").unwrap());
    let bytes = mr.try_into_bytes();
    assert!(bytes.is_ok());
    let bytes = bytes.unwrap();
    assert_eq!(bytes[..], rdata[..]);
}

#[test]
fn mx_test_parse() {
    // test invalid
    let invalid = Bytes::from(b"\x00\x08\x00\x0a\x07example\x03com\x00".to_vec());
    let parsed = Mx::parse(invalid, 0);
    assert!(parsed.is_err());

    let target = Bytes::from(b"\x00\x0f\x00\x0a\x07example\x03com\x00".to_vec());
    let parsed = Mx::parse(target.clone(), 0);
    assert!(parsed.is_ok());
    let (mx, end) = parsed.unwrap();
    assert_eq!(end, target.len());
    assert_eq!(mx.get_preference(), 10);
    assert_eq!(mx.get_domain(), Name::try_from("example.com").unwrap());
}

#[test]
fn mx_test_to_bytes() {
    let target = Bytes::from(b"\x00\x0f\x00\x0a\x07example\x03com\x00".to_vec());
    let mx = Mx::new(10, Name::try_from("example.com").unwrap());
    let bytes = mx.try_into_bytes();
    assert!(bytes.is_ok());
    let bytes = bytes.unwrap();
    assert_eq!(bytes[..], target[..]);
}

#[test]
fn ns_test_parse() {
    // test invalid
    let invalid = Bytes::from(b"\x00\x0f\x07example\x03com\x00".to_vec());
    let parsed = Ns::parse(invalid, 0);
    assert!(parsed.is_err());

    let rdata = Bytes::from(b"\x00\x0d\x07example\x03com\x00".to_vec());
    let parsed = Ns::parse(rdata.clone(), 0);
    assert!(parsed.is_ok());
    let (ns, end) = parsed.unwrap();
    let target = Ns::from(Name::try_from("example.com").unwrap());
    assert_eq!(end, rdata.len());
    assert_eq!(ns, target);
}

#[test]
fn ns_test_to_bytes() {
    let rdata = Bytes::from(b"\x00\x0d\x07example\x03com\x00".to_vec());
    let ns = Ns::from(Name::try_from("example.com").unwrap());
    let bytes = ns.try_into_bytes();
    assert!(bytes.is_ok());
    let bytes = bytes.unwrap();
    assert_eq!(bytes[..], rdata[..]);
}

#[test]
fn pt_test_parse() {
    // test invalid
    let invalid = Bytes::from(b"\x00\x0f\x07example\x03com\x00".to_vec());
    let parsed = Ptr::parse(invalid, 0);
    assert!(parsed.is_err());

    let rdata = Bytes::from(b"\x00\x0d\x07example\x03com\x00".to_vec());
    let parsed = Ptr::parse(rdata.clone(), 0);
    assert!(parsed.is_ok());
    let (pt, end) = parsed.unwrap();
    let target = Ptr::from(Name::try_from("example.com").unwrap());
    assert_eq!(end, rdata.len());
    assert_eq!(pt, target);
}

#[test]
fn pt_test_to_bytes() {
    let rdata = Bytes::from(b"\x00\x0d\x07example\x03com\x00".to_vec());
    let pt = Ptr::from(Name::try_from("example.com").unwrap());
    let bytes = pt.try_into_bytes();
    assert!(bytes.is_ok());
    let bytes = bytes.unwrap();
    assert_eq!(bytes[..], rdata[..]);
}

#[test]
fn mg_parse_and_to_bytes() {
    let invalid = Bytes::from(b"\x00\x0f\x07example\x03com\x00".to_vec());
    assert!(Mg::parse(invalid, 0).is_err());
    let rdata = Bytes::from(b"\x00\x0d\x07example\x03com\x00".to_vec());
    let (mg, end) = Mg::parse(rdata.clone(), 0).unwrap();
    assert_eq!(end, rdata.len());
    assert_eq!(mg, Mg::from(Name::try_from("example.com").unwrap()));
    assert_eq!(mg.to_string(), "example.com.");
    assert_eq!(mg.try_into_bytes().unwrap()[..], rdata[..]);
    assert_eq!(mg.into_name(), Name::try_from("example.com").unwrap());
}

#[test]
fn soa_test_parse_and_to_bytes() {
    let mname = Name::try_from("alpha.com").unwrap().as_bytes_uncompressed();
    let rname = Name::try_from("bravo.com").unwrap().as_bytes_uncompressed();
    let serial = 114_u32;
    let refresh = 514_u32;
    let retry = 19_u32;
    let expires = 19_u32;
    let minimum = 810_u32;
    let mut invalid = BytesMut::new();

    // test invalid
    invalid.put_u16(73);
    invalid.put_slice(&mname[..]);
    invalid.put_slice(&rname[..]);
    let invalid = Bytes::from(invalid);

    let parsed = SOA::parse(invalid, 0);
    assert!(parsed.is_err());

    let target = SOA::new(
        Name::try_from("alpha.com").unwrap(),
        Name::try_from("bravo.com").unwrap(),
        serial,
        refresh,
        retry,
        expires,
        minimum,
    );

    let mut buf = BytesMut::new();
    let length = try_into_rdata_length(mname.len() + rname.len() + 4 * 5).unwrap();
    buf.put_u16(length);
    buf.put_slice(&mname[..]);
    buf.put_slice(&rname[..]);
    buf.put_u32(serial);
    buf.put_u32(refresh);
    buf.put_u32(retry);
    buf.put_u32(expires);
    buf.put_u32(minimum);

    let buf = Bytes::from(buf);
    let len = buf.len();

    let parsed = SOA::parse(buf.clone(), 0);
    assert!(parsed.is_ok());
    let (soa, end) = parsed.unwrap();
    assert_eq!(end, len);
    assert_eq!(soa, target);

    let bytes = soa.to_bytes();
    assert!(bytes.is_ok());
    let bytes = bytes.unwrap();
    assert_eq!(bytes[..], buf[..]);
}

#[test]
fn txt_test_parse() {
    // test parse invalid data
    let invalid = Bytes::from(vec![0_u8, 7, 6, b'1', b'1', b'4', b'5', b'1']);
    let parsed = Txt::parse(invalid, 0);
    assert!(parsed.is_err());

    let rdata = Bytes::from(vec![0_u8, 7, 6, b'1', b'1', b'4', b'5', b'1', b'4']);
    let parsed = Txt::parse(rdata, 0);
    assert!(parsed.is_ok());
    let (txt, end) = parsed.unwrap();
    assert_eq!(txt.try_into_string().unwrap(), "114514\n".to_string());
    assert_eq!(end, 9);
}

#[test]
fn txt_test_to_bytes() {
    let s = String::from("114514");
    let rdata = Txt::from(s);
    let b = rdata.try_into_bytes().unwrap();
    let rdata = [0_u8, 7, 6, b'1', b'1', b'4', b'5', b'1', b'4'];
    assert_eq!(&rdata, b.as_ref());
}

#[test]
fn txt_strings_must_tile_the_length() {
    // two strings, the second reaching one octet behind the length
    let over = Bytes::from(vec![0_u8, 5, 1, b'a', 3, b'b', b'c', b'd']);
    assert!(Txt::parse(over, 0).is_err());
    let exact = Bytes::from(vec![0_u8, 6, 1, b'a', 3, b'b', b'c', b'd', 9, 9]);
    let (txt, end) = Txt::parse(exact, 0).unwrap();
    assert_eq!(end, 8);
    assert_eq!(txt.get_text(), vec![b"a".to_vec(), b"bcd".to_vec()]);
    assert_eq!(txt.to_string(), "a\nbcd\n");
    // no string at all
    let (txt, end) = Txt::parse(Bytes::from(vec![0_u8, 0]), 0).unwrap();
    assert_eq!(end, 2);
    assert!(txt.get_text().is_empty());
}

#[test]
fn txt_splits_at_white_space_and_checks_lengths() {
    let txt = Txt::from(String::from("  v=spf1 \t include:example.com\n-all "));
    assert_eq!(
        txt.get_text(),
        vec![b"v=spf1".to_vec(), b"include:example.com".to_vec(), b"-all".to_vec()]
    );
    let long = Txt::new(vec![vec![b'x'; 256]]);
    assert!(long.try_into_bytes().is_err());
    let fits = Txt::new(vec![vec![b'x'; 255]]);
    let wire = fits.try_into_bytes().unwrap();
    assert_eq!(wire.len(), 2 + 256);
    assert_eq!(wire[..3], [1, 0, 255]);
    // 256 strings of 255 octets are 65536 octets
    let many = Txt::new(vec![vec![b'y'; 255]; 256]);
    assert!(many.try_into_bytes().is_err());
    let text = Txt::new(vec![vec![0xff, 0xfe]]);
    assert!(text.try_into_string().is_err());
    assert_eq!(text.to_string(), "[[255, 254]]");
    let mixed = Txt::new(vec![vec![], vec![0xff], b"ok".to_vec(), vec![0, 10, 200]]);
    assert_eq!(mixed.to_string(), "[[], [255], [111, 107], [0, 10, 200]]");
}

#[test]
fn test_set_rtype() {
    let rtype = RRType::UNKNOWN(233);
    let data = Bytes::new();
    let mut u = Unknown::new(233, data);
    assert_eq!(u.get_type(), rtype);

    let rtype = 114;
    u.set_type(rtype);
    assert_eq!(u.get_type(), RRType::from(rtype));
}

#[test]
fn unknown_test_parse_and_to_bytes() {
    // test invalid
    let invalid = Bytes::from([0_u8, 10, 0, 0, 2, 0].to_vec());
    let parsed = Unknown::parse(invalid, 0);
    assert!(parsed.is_err());
    // test without type
    let data = Bytes::from([0_u8, 4, 0, 0, 2, 0].to_vec());
    let parsed = Unknown::parse(data.clone(), 0);
    assert!(parsed.is_err());
    // test parse_typeless and to_bytes()
    let parsed = Unknown::parse_typeless(data.clone(), 0);
    let (unknown, end) = parsed.unwrap();
    assert_eq!(end, data.len());
    assert_eq!(unknown.try_into_bytes().unwrap()[..], data[..]);
    // test parse()
    let full_data = Bytes::from(
        [
            0, 233_u8, 0, 0, 0, 0, 0, 0, // 233 is the unknown type
            0_u8, 4, 0, 0, 2, 0, // this line is rdlength and rdata section
        ]
        .to_vec(),
    );
    let parsed = Unknown::parse(full_data.clone(), 8);
    assert!(parsed.is_ok());
    let (unknown, end) = parsed.unwrap();
    assert_eq!(end, full_data.len());
    assert_eq!(unknown.get_type(), RRType::from(233));
    assert_eq!(unknown.try_into_bytes().unwrap()[..], data[..]);
}

#[test]
fn unknown_typeless_reads_at_its_offset() {
    let data = Bytes::from(vec![9_u8, 9, 9, 0, 2, 7, 8]);
    let (unknown, end) = Unknown::parse_typeless(data.clone(), 3).unwrap();
    assert_eq!(end, 7);
    assert_eq!(unknown.get_type(), RRType::UNKNOWN(255));
    assert_eq!(unknown.get_data()[..], [7, 8]);
    assert!(Unknown::parse_typeless(data.clone(), 4).is_err());
    assert!(Unknown::parse_typeless(data, 6).is_err());
    let big = Unknown::new(300, Bytes::from(vec![0_u8; 65536]));
    assert!(big.try_into_bytes().is_err());
}

#[test]
fn wks_test_parse() {
    let invalid = Bytes::from(b"\x00\x0f\x01\x01".to_vec());
    let parsed = Wks::parse(invalid, 0);
    assert!(parsed.is_err());
}

#[test]
fn wks_parse_and_to_bytes() {
    let wire = Bytes::from(vec![0_u8, 7, 10, 0, 0, 1, 6, 0x80, 0x01]);
    let (wks, end) = Wks::parse(wire.clone(), 0).unwrap();
    assert_eq!(end, 9);
    assert_eq!(wks.get_addr(), v4(10, 0, 0, 1));
    assert_eq!(wks.get_proto(), 6);
    assert_eq!(wks.get_bitmap(), vec![0x80, 0x01]);
    assert_eq!(wks.try_into_bytes().unwrap()[..], wire[..]);
    // a length under five has no room for address and protocol
    assert!(Wks::parse(Bytes::from(vec![0_u8, 4, 10, 0, 0, 1]), 0).is_err());
    let (bare, end) = Wks::parse(Bytes::from(vec![0_u8, 5, 10, 0, 0, 1, 17]), 0).unwrap();
    assert_eq!(end, 7);
    assert!(bare.get_bitmap().is_empty());
    assert!(Wks::new(0, 0, vec![0; 65531]).try_into_bytes().is_err());
    assert!(Wks::new(0, 0, vec![0; 65530]).try_into_bytes().is_ok());
}

#[test]
fn null_parse_and_to_bytes() {
    let wire = Bytes::from(vec![0_u8, 3, 1, 2, 3]);
    let (null, end) = Null::parse(wire.clone(), 0).unwrap();
    assert_eq!(end, 5);
    assert_eq!(null.get_data(), vec![1, 2, 3]);
    assert_eq!(null.try_into_bytes().unwrap()[..], wire[..]);
    let (empty, end) = Null::parse(Bytes::from(vec![7_u8, 0, 0]), 1).unwrap();
    assert_eq!(end, 3);
    assert!(empty.get_data().is_empty());
    assert!(Null::parse(Bytes::from(vec![0_u8, 4, 1, 2, 3]), 0).is_err());
    assert!(Null::parse(Bytes::from(vec![0_u8]), 0).is_err());
    assert!(Null::new(vec![0; 65536]).try_into_bytes().is_err());
    assert_eq!(Null::new(vec![0; 65535]).try_into_bytes().unwrap().len(), 65537);
}

#[test]
fn hinfo_parse_and_to_bytes() {
    let wire = Bytes::from(b"\x00\x0a\x03x86\x05linux".to_vec());
    let (hinfo, end) = HInfo::parse(wire.clone(), 0).unwrap();
    assert_eq!(end, 12);
    assert_eq!(hinfo.get_cpu(), b"x86".to_vec());
    assert_eq!(hinfo.get_os(), b"linux".to_vec());
    assert_eq!(hinfo.try_into_bytes().unwrap()[..], wire[..]);
    // the second string reaches behind the length
    let over = Bytes::from(b"\x00\x09\x03x86\x05linux".to_vec());
    assert!(HInfo::parse(over, 0).is_err());
    // the first string leaves no room for the second
    let tight = Bytes::from(b"\x00\x04\x03x86".to_vec());
    assert!(HInfo::parse(tight, 0).is_err());
    let long = HInfo::new(vec![b'c'; 256], vec![]);
    assert!(long.try_into_bytes().is_err());
    let empty = HInfo::new(vec![], vec![]);
    assert_eq!(empty.try_into_bytes().unwrap()[..], [0, 2, 0, 0]);
}

#[test]
fn minfo_parse_and_to_bytes() {
    let wire = Bytes::from(b"\x00\x08\x01a\x01b\x00\x01c\x00".to_vec());
    let (minfo, end) = MInfo::parse(wire.clone(), 0).unwrap();
    assert_eq!(end, 10);
    assert_eq!(minfo.get_r_mail_box().to_string(), "a.b.");
    assert_eq!(minfo.get_e_mail_box().to_string(), "c.");
    assert_eq!(minfo.try_into_bytes().unwrap()[..], wire[..]);
    let built = MInfo::new(Name::try_from("a.b").unwrap(), Name::try_from("c").unwrap());
    assert_eq!(built.try_into_bytes().unwrap()[..], wire[..]);
    assert!(MInfo::parse(Bytes::from(b"\x00\x08\x01a\x01b\x00\x01c".to_vec()), 0).is_err());
}

#[test]
fn rdata_length_fits_16_bits() {
    assert_eq!(try_into_rdata_length(0).unwrap(), 0);
    assert_eq!(try_into_rdata_length(65535).unwrap(), 65535);
    assert!(try_into_rdata_length(65536).is_err());
}

#[test]
fn name_rdata_follows_compression() {
    // "com" at offset 0, then data that names "example" + pointer to 0
    let wire = Bytes::from(b"\x03com\x00\x00\x0a\x07example\xc0\x00".to_vec());
    let (cname, end) = Cname::parse(wire.clone(), 5).unwrap();
    assert_eq!(end, wire.len());
    assert_eq!(cname.to_string(), "example.com.");
    // written again, the pointer is spelled out
    assert_eq!(cname.try_into_bytes().unwrap()[..], b"\x00\x0d\x07example\x03com\x00"[..]);
}

#[test]
fn mx_needs_room_for_a_name() {
    // a length of two holds the preference and no name
    let bare = Bytes::from(b"\x00\x02\x00\x0a\x00".to_vec());
    assert!(Mx::parse(bare, 0).is_err());
    // a length of three holds the preference and the root
    let root = Bytes::from(b"\x00\x03\x00\x0a\x00".to_vec());
    let (mx, end) = Mx::parse(root.clone(), 0).unwrap();
    assert_eq!(end, 5);
    assert_eq!(mx.get_preference(), 10);
    assert_eq!(mx.get_domain().to_string(), ".");
    assert_eq!(mx.try_into_bytes().unwrap()[..], root[..]);
    assert!(Mx::parse(Bytes::from(b"\x00\x03\x00".to_vec()), 0).is_err());
}

#[test]
fn name_data_at_the_end_of_a_message() {
    // the root alone fills a length of one
    let root = Bytes::from(b"\x00\x01\x00".to_vec());
    let (ns, end) = Ns::parse(root.clone(), 0).unwrap();
    assert_eq!(end, 3);
    assert_eq!(ns.to_string(), ".");
    assert_eq!(ns.try_into_bytes().unwrap()[..], root[..]);
    // no room for the length
    assert!(Ns::parse(Bytes::from(b"\x00".to_vec()), 0).is_err());
    assert!(Ns::parse(root, 3).is_err());
}

fn round<T: Rdata>(wire: &[u8]) {
    let (data, end) = <T as Rdata>::parse(Bytes::from(wire.to_vec()), 0).unwrap();
    assert_eq!(end, wire.len());
    assert_eq!(<T as Rdata>::try_into_bytes(&data).unwrap()[..], wire[..]);
}

#[test]
fn data_is_parsed_through_its_trait() {
    round::<A>(&[0, 4, 1, 2, 3, 4]);
    round::<Cname>(b"\x00\x06\x01a\x02bc\x00");
    round::<Mx>(b"\x00\x08\x00\x05\x01a\x02bc\x00");
    round::<Txt>(b"\x00\x04\x01x\x01y");
    round::<Null>(&[0, 2, 9, 9]);
    let mut whole = vec![0, 77, 0, 1, 0, 0, 0, 0];
    whole.extend_from_slice(&[0, 2, 9, 9]);
    let (unknown, end) = <Unknown as Rdata>::parse(Bytes::from(whole), 8).unwrap();
    assert_eq!(end, 12);
    assert_eq!(unknown.get_type(), RRType::UNKNOWN(77));
}
