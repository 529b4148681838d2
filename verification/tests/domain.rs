use bytes::{Buf, BufMut, Bytes, BytesMut};
use tsein_dns::protocol::domain::{InvalidName, Name, PTR_MASK};
use tsein_dns::text::{decimal_string, list_string, octets_string};

#[test]
fn test_len() {
    let d1 = Name::try_from("example.com").unwrap();
    let d2 = Name::try_from("example.com.").unwrap();
    assert_eq!(d1.len(), 12);
    assert_eq!(d1.len(), d2.len());
}

#[test]
fn test_subdomain() {
    let domain = Name::try_from("example.com").unwrap();
    let subdomain = Name::try_from("example.example.com").unwrap();
    assert!(subdomain.is_subdomain_of(&domain));
}

#[test]
fn test_try_from() {
    let rs = Name::try_from("example.com");
    assert!(rs.is_ok());
    let n = rs.unwrap();
    assert_eq!(n.to_string(), "example.com.".to_string());

    let rs = Name::try_from(".");
    assert!(rs.is_ok());
    let n = rs.unwrap();
    assert_eq!(n.len(), 1);
}

fn gen_simple_domain_name(domain: &str) -> Bytes {
    let mut buf = vec![];

    domain
        .split('.')
        .filter(|p| !p.is_empty())
        .for_each(|label| {
            let len = label.len() as u8;
            buf.push(len);
            buf.append(&mut label.as_bytes().to_vec());
        });

    buf.push(0);
    Bytes::from(buf)
}

#[test]
fn domain_test_parse() {
    // test empty domain
    let empty = Bytes::from(b"\0".to_vec());
    let parsed = Name::parse(empty, 0);
    assert!(parsed.is_ok());
    let (d, p) = parsed.unwrap();
    assert_eq!(d.to_string(), ".");
    assert_eq!(p, 1);

    // test invalid domain
    let invalid = Bytes::from(b"\x03com\x03".to_vec());
    let parsed = Name::parse(invalid, 0);
    assert!(parsed.is_err());
    let invalid = Bytes::from(b"\x03com".to_vec());
    let parsed = Name::parse(invalid, 0);
    assert!(parsed.is_err());

    // test simple domain
    let packet = gen_simple_domain_name("example.com");
    let (pd, pos) = Name::parse(packet.clone(), 0).unwrap();
    let domain_str = pd.to_string();
    assert_eq!(domain_str, String::from("example.com."));

    // test continually read and compressing
    let mut packet = BytesMut::from(packet.chunk());
    packet.put_u8(7);
    packet.put(&b"example"[..]);
    packet.put_u8(PTR_MASK);
    packet.put_u8(0);
    let packet = packet.copy_to_bytes(packet.len());
    let (pd, end) = Name::parse(packet.clone(), pos).unwrap();
    assert_eq!(pd.to_string(), String::from("example.example.com."));
    assert_eq!(end, packet.len());
}

#[test]
fn test_as_bytes_uncompressed() {
    // test empty domain
    let name = Name::try_from(".").unwrap();
    let encoded: &[u8] = &[0];
    assert_eq!(name.as_bytes_uncompressed(), encoded);

    // test normal domain
    let name = Name::try_from("sm.ms").unwrap();
    let encoded: &[u8] = &[2, b's', b'm', 2, b'm', b's', 0];
    assert_eq!(name.as_bytes_uncompressed(), encoded);
}

#[test]
fn name_round_trip() {
    for text in ["example.com", "a.b.c.d", ".", "xn--caf-dma.example"] {
        let name = Name::try_from(text).unwrap();
        let wire = Bytes::from(name.as_bytes_uncompressed());
        let (parsed, end) = Name::parse(wire.clone(), 0).unwrap();
        assert!(parsed == name);
        assert_eq!(end, wire.len());
    }
}

#[test]
fn name_text_gets_trailing_dot() {
    assert_eq!(Name::try_from("example.com").unwrap().to_string(), "example.com.");
    assert_eq!(Name::try_from("example.com.").unwrap().to_string(), "example.com.");
    assert_eq!(Name::try_from("").unwrap().to_string(), ".");
    // empty pieces are left out
    assert_eq!(Name::try_from("a..b").unwrap().to_string(), "a.b.");
}

#[test]
fn label_of_64_octets_is_refused() {
    let long = "a".repeat(64);
    assert_eq!(Name::try_from(&long).err(), Some(InvalidName::LabelTooLong));
    let ok = "a".repeat(63);
    assert!(Name::try_from(&ok).is_ok());
    let inside = format!("www.{}.com", long);
    assert_eq!(Name::try_from(&inside).err(), Some(InvalidName::LabelTooLong));
}

#[test]
fn name_over_253_octets_is_refused() {
    // four labels of 62 octets take 4 * 63 = 252 octets, 253 with the zero
    let label = "b".repeat(62);
    let fits = format!("{0}.{0}.{0}.{0}", label);
    let name = Name::try_from(&fits).unwrap();
    assert_eq!(name.as_bytes_uncompressed().len(), 253);
    // one octet more does not fit
    let over = format!("{0}.{0}.{0}.{1}", label, "b".repeat(63));
    assert_eq!(Name::try_from(&over).err(), Some(InvalidName::NameTooLong));
}

#[test]
fn parse_refuses_name_over_253_octets() {
    let mut wire = vec![];
    for _ in 0..3 {
        wire.push(62);
        wire.extend(std::iter::repeat(b'c').take(62));
    }
    wire.push(63);
    wire.extend(std::iter::repeat(b'c').take(63));
    wire.push(0);
    assert_eq!(wire.len(), 254);
    assert!(Name::parse(Bytes::from(wire.clone()), 0).is_err());
    // one octet less is accepted
    let mut fits = vec![];
    for _ in 0..4 {
        fits.push(62);
        fits.extend(std::iter::repeat(b'c').take(62));
    }
    fits.push(0);
    let (name, end) = Name::parse(Bytes::from(fits), 0).unwrap();
    assert_eq!(end, 253);
    assert_eq!(name.len(), 252);
}

#[test]
fn parse_follows_five_pointers_and_no_more() {
    // offset 0: the name "a"; then a chain of pointers, each to the one before
    let mut wire = vec![1, b'a', 0];
    let mut target = 0u8;
    let mut starts = vec![];
    for _ in 0..6 {
        starts.push(wire.len());
        let here = wire.len() as u8;
        wire.push(0xc0);
        wire.push(target);
        target = here;
    }
    let packet = Bytes::from(wire);
    // the fifth pointer is followed through five hops
    let (name, end) = Name::parse(packet.clone(), starts[4]).unwrap();
    assert_eq!(name.to_string(), "a.");
    assert_eq!(end, starts[4] + 2);
    // the sixth needs six hops
    assert!(Name::parse(packet, starts[5]).is_err());
}

#[test]
fn parse_refuses_pointer_out_of_packet() {
    let packet = Bytes::from(vec![0xc0, 0x10, 0]);
    assert!(Name::parse(packet, 0).is_err());
    // a pointer cut in half
    let packet = Bytes::from(vec![0xc0]);
    assert!(Name::parse(packet, 0).is_err());
    // a pointer to itself never ends and is refused
    let packet = Bytes::from(vec![0xc0, 0x00]);
    assert!(Name::parse(packet, 0).is_err());
}

#[test]
fn parse_refuses_reserved_length_bits_and_bad_text() {
    // top bits 01 and 10 are neither a length nor a pointer
    assert!(Name::parse(Bytes::from(vec![0x41, b'a', 0]), 0).is_err());
    assert!(Name::parse(Bytes::from(vec![0x81, b'a', 0]), 0).is_err());
    // a label that is not UTF-8
    assert!(Name::parse(Bytes::from(vec![1, 0xff, 0]), 0).is_err());
    // an offset behind the packet
    assert!(Name::parse(Bytes::from(vec![0]), 1).is_err());
}

#[test]
fn subdomain_holds_the_whole_domain_at_its_end() {
    let a = Name::try_from("a.b").unwrap();
    let other = Name::try_from("x.b").unwrap();
    let short = Name::try_from("b").unwrap();
    let root = Name::try_from(".").unwrap();
    // a name lies within itself
    assert!(a.is_subdomain_of(&a));
    assert!(root.is_subdomain_of(&root));
    assert!(!a.is_subdomain_of(&other));
    assert!(a.is_subdomain_of(&short));
    // a name with fewer labels never lies within a longer one
    assert!(!short.is_subdomain_of(&a));
    assert!(!root.is_subdomain_of(&a));
    let com = Name::try_from("com").unwrap();
    let e_com = Name::try_from("e.com").unwrap();
    assert!(!com.is_subdomain_of(&e_com));
    assert!(e_com.is_subdomain_of(&com));
    // every name lies within the root
    assert!(a.is_subdomain_of(&root));
    // the labels must be the last ones, not just some
    let inner = Name::try_from("b.c").unwrap();
    assert!(!Name::try_from("a.b.c.d").unwrap().is_subdomain_of(&inner));
    assert!(Name::try_from("a.b.c").unwrap().is_subdomain_of(&inner));
    // labels compare octet by octet
    let upper = Name::try_from("A.B").unwrap();
    assert!(!a.is_subdomain_of(&upper));
    assert!(a != upper);
    assert!(!a.is_empty());
    assert!(!root.is_empty());
}

#[test]
fn numbers_and_lists_as_text() {
    assert_eq!(decimal_string(0), "0");
    assert_eq!(decimal_string(9), "9");
    assert_eq!(decimal_string(10), "10");
    assert_eq!(decimal_string(1234), "1234");
    assert_eq!(decimal_string(65535), "65535");
    for n in 0..=u16::MAX {
        assert_eq!(decimal_string(n), n.to_string());
    }
    assert_eq!(octets_string(&vec![]), "[]");
    assert_eq!(octets_string(&vec![7]), "[7]");
    assert_eq!(octets_string(&vec![0, 255, 16]), format!("{:?}", vec![0u8, 255, 16]));
    assert_eq!(list_string(&vec![]), "[]");
    assert_eq!(list_string(&vec!["a".to_string(), "bc".to_string()]), "[a, bc]");
}
