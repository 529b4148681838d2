//! What is written can be read back: a well-formed value of each kind,
//! put on the wire and parsed again, is the same value.

use super::domain::{
    lemma_name_wire_len, lemma_parse_name_wire, lemma_parsed_name_valid, name_wire, parse_name,
    valid_name,
};
use super::error::Fault;
use super::header::{
    flags_high, flags_low, header_at, header_wire, op_code, op_of, parse_header, rcode_code,
    rcode_of, HeaderView, Op, Rcode,
};
use super::packet::{
    packet_wire, parse_frame, parse_packet, questions_at, questions_wire, records_at,
    records_wire, sections_at, PacketView,
};
use super::question::{parse_question, question_wire, QuestionView};
use super::rr::rdata::{
    a_at, aaaa_at, hinfo_at, minfo_at, mx_at, name_rdata, name_rdata_at, octets_at, parse_rdata,
    rdata_end, rdata_wire, soa_at, strings_in, strings_wire, txt_at, wks_at, RDataView, SoaView,
};
use super::rr::{parse_rr, rr_wire, RRView};
use super::types::{rr_class_code, rr_class_of, rr_type_code, rr_type_of, RRClass, RRType};
use crate::buffer::{
    lemma_int_bytes_len, lemma_u128_round_trip, lemma_u16_round_trip, lemma_u32_round_trip,
    u128_bytes, u16_at, u16_bytes, u32_at, u32_bytes,
};
use vstd::prelude::*;

verus! {

/// Where `a + b` stands at `pos` of `s`, `a` stands at `pos` and `b`
/// right behind it.
pub proof fn lemma_split(s: Seq<u8>, pos: int, a: Seq<u8>, b: Seq<u8>)
    requires
        0 <= pos,
        pos + a.len() + b.len() <= s.len(),
        s.subrange(pos, pos + a.len() + b.len()) == a + b,
    ensures
        s.subrange(pos, pos + a.len()) == a,
        s.subrange(pos + a.len(), pos + a.len() + b.len()) == b,
{
    let whole = s.subrange(pos, pos + a.len() + b.len());
    assert(s.subrange(pos, pos + a.len()) =~= a) by {
        assert forall|j: int| 0 <= j < a.len() implies #[trigger] s.subrange(pos, pos + a.len())[j]
            == a[j] by {
            assert(whole[j] == (a + b)[j]);
        }
    }
    assert(s.subrange(pos + a.len(), pos + a.len() + b.len()) =~= b) by {
        assert forall|j: int| 0 <= j < b.len() implies #[trigger] s.subrange(
            pos + a.len(),
            pos + a.len() + b.len(),
        )[j] == b[j] by {
            assert(whole[a.len() + j] == (a + b)[a.len() + j]);
        }
    }
}

/// The flags of the third octet come out of it as they went in.
proof fn lemma_flags_high(q: u8, op: u8, aa: u8, tc: u8, rd: u8)
    requires
        q <= 1,
        op <= 15,
        aa <= 1,
        tc <= 1,
        rd <= 1,
    ensures
        ({
            let a = (q << 7) | (op << 3) | (aa << 2) | (tc << 1) | rd;
            &&& (a & 0x80 != 0x80) == (q == 0)
            &&& (a & 0x78) >> 3 == op
            &&& (a & 0x04 == 0x04) == (aa == 1)
            &&& (a & 0x02 == 0x02) == (tc == 1)
            &&& (a & 0x01 == 0x01) == (rd == 1)
        }),
{
    let a = (q << 7) | (op << 3) | (aa << 2) | (tc << 1) | rd;
    assert((a & 0x80 != 0x80) == (q == 0) && (a & 0x78) >> 3 == op && (a & 0x04 == 0x04) == (aa
        == 1) && (a & 0x02 == 0x02) == (tc == 1) && (a & 0x01 == 0x01) == (rd == 1))
        by (bit_vector)
        requires
            q <= 1,
            op <= 15,
            aa <= 1,
            tc <= 1,
            rd <= 1,
            a == (q << 7) | (op << 3) | (aa << 2) | (tc << 1) | rd,
    ;
}

/// The flags of the fourth octet come out of it as they went in.
proof fn lemma_flags_low(ra: u8, z: u8, rc: u8)
    requires
        ra <= 1,
        z <= 7,
        rc <= 15,
    ensures
        ({
            let b = (ra << 7) | (z << 4) | rc;
            &&& (b & 0x80 == 0x80) == (ra == 1)
            &&& (b & 0x70) >> 4 == z
            &&& b & 0x0f == rc
        }),
{
    let b = (ra << 7) | (z << 4) | rc;
    assert((b & 0x80 == 0x80) == (ra == 1) && (b & 0x70) >> 4 == z && b & 0x0f == rc)
        by (bit_vector)
        requires
            ra <= 1,
            z <= 7,
            rc <= 15,
            b == (ra << 7) | (z << 4) | rc,
    ;
}

/// A header read from the wire is well formed.
pub proof fn lemma_header_at_wf(s: Seq<u8>, pos: int)
    ensures
        header_at(s, pos).wf(),
{
    let a = s[pos + 2];
    let b = s[pos + 3];
    assert((a & 0x78) >> 3 <= 15 && (b & 0x70) >> 4 <= 7 && b & 0x0f <= 15) by (bit_vector);
}

/// Where the wire form of a well-formed header stands at `pos` of `s`,
/// the header read there is that header.
#[verifier::rlimit(50)]
pub proof fn lemma_header_at_wire(s: Seq<u8>, pos: int, h: HeaderView)
    requires
        h.wf(),
        0 <= pos,
        pos + 12 <= s.len(),
        s.subrange(pos, pos + 12) == header_wire(h),
    ensures
        header_at(s, pos) == h,
{
    lemma_int_bytes_len();
    let id = u16_bytes(h.id);
    let flags = seq![flags_high(h), flags_low(h)];
    let qd = u16_bytes(h.questions);
    let an = u16_bytes(h.answers);
    let ns = u16_bytes(h.authorities);
    let ar = u16_bytes(h.additional);
    assert(header_wire(h) =~= id + (flags + (qd + (an + (ns + ar)))));
    lemma_split(s, pos, id, flags + (qd + (an + (ns + ar))));
    lemma_split(s, pos + 2, flags, qd + (an + (ns + ar)));
    lemma_split(s, pos + 4, qd, an + (ns + ar));
    lemma_split(s, pos + 6, an, ns + ar);
    lemma_split(s, pos + 8, ns, ar);
    lemma_u16_round_trip(s, pos, h.id);
    lemma_u16_round_trip(s, pos + 4, h.questions);
    lemma_u16_round_trip(s, pos + 6, h.answers);
    lemma_u16_round_trip(s, pos + 8, h.authorities);
    lemma_u16_round_trip(s, pos + 10, h.additional);
    assert(s.subrange(pos + 2, pos + 4)[0] == s[pos + 2]);
    assert(s.subrange(pos + 2, pos + 4)[1] == s[pos + 3]);
    assert(s[pos + 2] == flags_high(h));
    assert(s[pos + 3] == flags_low(h));
    let q: u8 = if h.is_query { 0 } else { 1 };
    let aa: u8 = if h.is_auth { 1 } else { 0 };
    let tc: u8 = if h.is_trunc { 1 } else { 0 };
    let rd: u8 = if h.is_rec_des { 1 } else { 0 };
    let ra: u8 = if h.is_rec_avl { 1 } else { 0 };
    lemma_flags_high(q, op_code(h.opcode), aa, tc, rd);
    lemma_flags_low(ra, h.z, rcode_code(h.response));
}

/// The octets of a 16-bit number that was read are the octets it was
/// read from.
pub proof fn lemma_u16_bytes_at(s: Seq<u8>, pos: int)
    requires
        0 <= pos,
        pos + 2 <= s.len(),
    ensures
        u16_bytes(u16_at(s, pos)) == s.subrange(pos, pos + 2),
{
    assert(u16_bytes(u16_at(s, pos)) =~= s.subrange(pos, pos + 2));
}

/// The flags that come out of the third octet make up that octet.
proof fn lemma_flags_high_back(a: u8, q: u8, op: u8, aa: u8, tc: u8, rd: u8)
    requires
        q == (if a & 0x80 != 0x80 { 0u8 } else { 1u8 }),
        op == (a & 0x78) >> 3,
        aa == (if a & 0x04 == 0x04 { 1u8 } else { 0u8 }),
        tc == (if a & 0x02 == 0x02 { 1u8 } else { 0u8 }),
        rd == (if a & 0x01 == 0x01 { 1u8 } else { 0u8 }),
    ensures
        (q << 7) | (op << 3) | (aa << 2) | (tc << 1) | rd == a,
{
    assert((q << 7) | (op << 3) | (aa << 2) | (tc << 1) | rd == a) by (bit_vector)
        requires
            q == (if a & 0x80 != 0x80 { 0u8 } else { 1u8 }),
            op == (a & 0x78) >> 3,
            aa == (if a & 0x04 == 0x04 { 1u8 } else { 0u8 }),
            tc == (if a & 0x02 == 0x02 { 1u8 } else { 0u8 }),
            rd == (if a & 0x01 == 0x01 { 1u8 } else { 0u8 }),
    ;
}

/// The flags that come out of the fourth octet make up that octet.
proof fn lemma_flags_low_back(b: u8, ra: u8, z: u8, rc: u8)
    requires
        ra == (if b & 0x80 == 0x80 { 1u8 } else { 0u8 }),
        z == (b & 0x70) >> 4,
        rc == b & 0x0f,
    ensures
        (ra << 7) | (z << 4) | rc == b,
{
    assert((ra << 7) | (z << 4) | rc == b) by (bit_vector)
        requires
            ra == (if b & 0x80 == 0x80 { 1u8 } else { 0u8 }),
            z == (b & 0x70) >> 4,
            rc == b & 0x0f,
    ;
}

/// A header that is read from the wire and written again gives the twelve
/// octets it was read from, reserved bits and codes included.
pub proof fn lemma_header_wire_of_parsed(s: Seq<u8>, pos: int)
    requires
        0 <= pos,
        pos + 12 <= s.len(),
    ensures
        header_wire(header_at(s, pos)) == s.subrange(pos, pos + 12),
{
    lemma_int_bytes_len();
    let h = header_at(s, pos);
    let a = s[pos + 2];
    let b = s[pos + 3];
    lemma_u16_bytes_at(s, pos);
    lemma_u16_bytes_at(s, pos + 4);
    lemma_u16_bytes_at(s, pos + 6);
    lemma_u16_bytes_at(s, pos + 8);
    lemma_u16_bytes_at(s, pos + 10);
    let q: u8 = if h.is_query { 0 } else { 1 };
    let aa: u8 = if h.is_auth { 1 } else { 0 };
    let tc: u8 = if h.is_trunc { 1 } else { 0 };
    let rd: u8 = if h.is_rec_des { 1 } else { 0 };
    let ra: u8 = if h.is_rec_avl { 1 } else { 0 };
    assert(op_code(h.opcode) == (a & 0x78) >> 3);
    assert(rcode_code(h.response) == b & 0x0f);
    lemma_flags_high_back(a, q, op_code(h.opcode), aa, tc, rd);
    lemma_flags_low_back(b, ra, h.z, rcode_code(h.response));
    assert(flags_high(h) == a);
    assert(flags_low(h) == b);
    assert(seq![a, b] =~= s.subrange(pos + 2, pos + 4));
    assert(header_wire(h) =~= s.subrange(pos, pos + 12));
}

/// A well-formed header with at most one question, written and parsed
/// again, is the same header.
pub proof fn lemma_header_round_trip(h: HeaderView)
    requires
        h.wf(),
        h.questions <= 1,
    ensures
        parse_header(header_wire(h), 0) == Ok::<HeaderView, Fault>(h),
{
    lemma_int_bytes_len();
    let wire = header_wire(h);
    assert(wire.subrange(0, 12) =~= wire);
    lemma_header_at_wire(wire, 0, h);
}

/// A header that counts more than one question is a server failure
/// under its id.
pub proof fn lemma_two_questions_refused(s: Seq<u8>, pos: int)
    requires
        0 <= pos,
        pos + 12 <= s.len(),
        u16_at(s, pos + 4) > 1,
    ensures
        parse_header(s, pos) == Err::<HeaderView, Fault>((Some(u16_at(s, pos)), Rcode::ServFail)),
        parse_packet(s, pos) == Err::<PacketView, Fault>((Some(u16_at(s, pos)), Rcode::ServFail)),
{
}

/// A frame whose length says less than twelve octets is a format error.
pub proof fn lemma_short_frame_refused(s: Seq<u8>)
    requires
        s.len() >= 2,
        u16_at(s, 0) < 12,
    ensures
        parse_frame(s) == Err::<PacketView, Fault>((None, Rcode::FormatError)),
{
}

/// Character strings of at most 255 octets each, written one after
/// another, are read back as the same strings.
pub proof fn lemma_strings_round_trip(strings: Seq<Seq<u8>>)
    requires
        forall|i: int| 0 <= i < strings.len() ==> (#[trigger] strings[i]).len() <= 255,
    ensures
        strings_in(strings_wire(strings)) == Some(strings),
    decreases strings.len(),
{
    if strings.len() == 0 {
        assert(strings =~= Seq::<Seq<u8>>::empty());
    } else {
        let first = strings[0];
        let rest = strings.drop_first();
        let wire = strings_wire(strings);
        assert(wire[0] == first.len() as u8);
        let n: int = first.len() as int;
        assert(wire.subrange(1, 1 + n) =~= first);
        assert(wire.skip(1 + n) =~= strings_wire(rest));
        assert forall|i: int| 0 <= i < rest.len() implies (#[trigger] rest[i]).len() <= 255 by {
            assert(rest[i] == strings[i + 1]);
        }
        lemma_strings_round_trip(rest);
        assert(seq![first] + rest =~= strings);
    }
}

/// Data that is one name, written and read again, is the same name.
proof fn lemma_name_rdata_round_trip(s: Seq<u8>, pos: int, name: Seq<Seq<u8>>)
    requires
        valid_name(name),
        0 <= pos,
        pos + 2 + name_wire(name).len() <= s.len(),
        s.subrange(pos, pos + 2 + name_wire(name).len()) == u16_bytes(
            name_wire(name).len() as u16,
        ) + name_wire(name),
    ensures
        name_rdata_at(s, pos) == Some((name, pos + 2 + name_wire(name).len())),
{
    lemma_int_bytes_len();
    lemma_name_wire_len(name);
    let wire = name_wire(name);
    lemma_split(s, pos, u16_bytes(wire.len() as u16), wire);
    lemma_u16_round_trip(s, pos, wire.len() as u16);
    lemma_parse_name_wire(s, pos + 2, name);
}

#[verifier::rlimit(50)]
/// A start of authority, written and read again, is the same.
proof fn lemma_soa_round_trip(s: Seq<u8>, pos: int, soa: SoaView)
    requires
        RDataView::Soa(soa).wf(),
        0 <= pos,
        pos + rdata_wire(RDataView::Soa(soa)).len() <= s.len(),
        s.subrange(pos, pos + rdata_wire(RDataView::Soa(soa)).len()) == rdata_wire(
            RDataView::Soa(soa),
        ),
    ensures
        soa_at(s, pos) == Some(
            (RDataView::Soa(soa), pos + rdata_wire(RDataView::Soa(soa)).len()),
        ),
{
    lemma_int_bytes_len();
    let v = RDataView::Soa(soa);
    let payload = v.payload();
    let m = name_wire(soa.mname);
    let r = name_wire(soa.rname);
    lemma_name_wire_len(soa.mname);
    lemma_name_wire_len(soa.rname);
    lemma_split(s, pos, u16_bytes(payload.len() as u16), payload);
    lemma_u16_round_trip(s, pos, payload.len() as u16);
    let numbers = u32_bytes(soa.serial) + u32_bytes(soa.refresh) + u32_bytes(soa.retry)
        + u32_bytes(soa.expires) + u32_bytes(soa.minimum);
    assert(payload =~= m + (r + numbers));
    lemma_split(s, pos + 2, m, r + numbers);
    lemma_split(s, pos + 2 + m.len(), r, numbers);
    lemma_parse_name_wire(s, pos + 2, soa.mname);
    lemma_parse_name_wire(s, pos + 2 + m.len(), soa.rname);
    let at = pos + 2 + m.len() + r.len();
    let tail = u32_bytes(soa.refresh) + u32_bytes(soa.retry) + u32_bytes(soa.expires)
        + u32_bytes(soa.minimum);
    assert(numbers =~= u32_bytes(soa.serial) + tail);
    lemma_split(s, at, u32_bytes(soa.serial), tail);
    let tail2 = u32_bytes(soa.retry) + u32_bytes(soa.expires) + u32_bytes(soa.minimum);
    assert(tail =~= u32_bytes(soa.refresh) + tail2);
    lemma_split(s, at + 4, u32_bytes(soa.refresh), tail2);
    let tail3 = u32_bytes(soa.expires) + u32_bytes(soa.minimum);
    assert(tail2 =~= u32_bytes(soa.retry) + tail3);
    lemma_split(s, at + 8, u32_bytes(soa.retry), tail3);
    lemma_split(s, at + 12, u32_bytes(soa.expires), u32_bytes(soa.minimum));
    lemma_u32_round_trip(s, at, soa.serial);
    lemma_u32_round_trip(s, at + 4, soa.refresh);
    lemma_u32_round_trip(s, at + 8, soa.retry);
    lemma_u32_round_trip(s, at + 12, soa.expires);
    lemma_u32_round_trip(s, at + 16, soa.minimum);
}

/// Host information, written and read again, is the same.
proof fn lemma_hinfo_round_trip(s: Seq<u8>, pos: int, cpu: Seq<u8>, os: Seq<u8>)
    requires
        RDataView::HInfo(cpu, os).wf(),
        0 <= pos,
        pos + rdata_wire(RDataView::HInfo(cpu, os)).len() <= s.len(),
        s.subrange(pos, pos + rdata_wire(RDataView::HInfo(cpu, os)).len()) == rdata_wire(
            RDataView::HInfo(cpu, os),
        ),
    ensures
        hinfo_at(s, pos) == Some(
            (RDataView::HInfo(cpu, os), pos + rdata_wire(RDataView::HInfo(cpu, os)).len()),
        ),
{
    lemma_int_bytes_len();
    let v = RDataView::HInfo(cpu, os);
    let payload = v.payload();
    lemma_split(s, pos, u16_bytes(payload.len() as u16), payload);
    lemma_u16_round_trip(s, pos, payload.len() as u16);
    let body = s.subrange(pos + 2, pos + 2 + payload.len());
    assert(s[pos + 2] == body[0]);
    let c: int = cpu.len() as int;
    assert(s[pos + 3 + c] == body[c + 1]);
    assert(s.subrange(pos + 3, pos + 3 + cpu.len()) =~= cpu) by {
        assert forall|j: int| 0 <= j < cpu.len() implies #[trigger] s.subrange(
            pos + 3,
            pos + 3 + cpu.len(),
        )[j] == cpu[j] by {
            assert(s[pos + 3 + j] == body[j + 1]);
        }
    }
    assert(s.subrange(pos + 4 + cpu.len(), pos + 4 + cpu.len() + os.len()) =~= os) by {
        assert forall|j: int| 0 <= j < os.len() implies #[trigger] s.subrange(
            pos + 4 + cpu.len(),
            pos + 4 + cpu.len() + os.len(),
        )[j] == os[j] by {
            assert(s[pos + 4 + cpu.len() + j] == body[cpu.len() + j + 2]);
        }
    }
}

/// Well-known services, written and read again, are the same.
proof fn lemma_wks_round_trip(s: Seq<u8>, pos: int, addr: u32, proto: u8, bmp: Seq<u8>)
    requires
        RDataView::Wks(addr, proto, bmp).wf(),
        0 <= pos,
        pos + rdata_wire(RDataView::Wks(addr, proto, bmp)).len() <= s.len(),
        s.subrange(pos, pos + rdata_wire(RDataView::Wks(addr, proto, bmp)).len()) == rdata_wire(
            RDataView::Wks(addr, proto, bmp),
        ),
    ensures
        wks_at(s, pos) == Some(
            (
                RDataView::Wks(addr, proto, bmp),
                pos + rdata_wire(RDataView::Wks(addr, proto, bmp)).len(),
            ),
        ),
{
    lemma_int_bytes_len();
    let v = RDataView::Wks(addr, proto, bmp);
    let payload = v.payload();
    lemma_split(s, pos, u16_bytes(payload.len() as u16), payload);
    lemma_u16_round_trip(s, pos, payload.len() as u16);
    assert(payload =~= u32_bytes(addr) + (seq![proto] + bmp));
    lemma_split(s, pos + 2, u32_bytes(addr), seq![proto] + bmp);
    lemma_u32_round_trip(s, pos + 2, addr);
    lemma_split(s, pos + 6, seq![proto], bmp);
    assert(s.subrange(pos + 6, pos + 7)[0] == s[pos + 6]);
}

/// Where the wire form of well-formed record data stands at `pos` of
/// `s`, the data of its type read there is that data, and it ends where
/// the wire form ends.
#[verifier::rlimit(50)]
pub proof fn lemma_rdata_at_wire(s: Seq<u8>, pos: int, v: RDataView)
    requires
        v.wf(),
        0 <= pos,
        pos + rdata_wire(v).len() <= s.len(),
        s.subrange(pos, pos + rdata_wire(v).len()) == rdata_wire(v),
    ensures
        parse_rdata(v.ty(), s, pos) == Some((v, pos + rdata_wire(v).len())),
{
    reveal(parse_rdata);
    lemma_int_bytes_len();
    let payload = v.payload();
    lemma_split(s, pos, u16_bytes(payload.len() as u16), payload);
    lemma_u16_round_trip(s, pos, payload.len() as u16);
    match v {
        RDataView::A(addr) => {
            lemma_u32_round_trip(s, pos + 2, addr);
        },
        RDataView::Aaaa(addr) => {
            lemma_u128_round_trip(s, pos + 2, addr);
        },
        RDataView::Cname(name) => {
            lemma_name_rdata_round_trip(s, pos, name);
        },
        RDataView::Ns(name) => {
            lemma_name_rdata_round_trip(s, pos, name);
        },
        RDataView::Ptr(name) => {
            lemma_name_rdata_round_trip(s, pos, name);
        },
        RDataView::Mb(name) => {
            lemma_name_rdata_round_trip(s, pos, name);
        },
        RDataView::Mg(name) => {
            lemma_name_rdata_round_trip(s, pos, name);
        },
        RDataView::Mr(name) => {
            lemma_name_rdata_round_trip(s, pos, name);
        },
        RDataView::Mx(preference, name) => {
            lemma_name_wire_len(name);
            lemma_split(s, pos + 2, u16_bytes(preference), name_wire(name));
            lemma_u16_round_trip(s, pos + 2, preference);
            lemma_parse_name_wire(s, pos + 4, name);
        },
        RDataView::Soa(soa) => {
            lemma_soa_round_trip(s, pos, soa);
        },
        RDataView::HInfo(cpu, os) => {
            lemma_hinfo_round_trip(s, pos, cpu, os);
        },
        RDataView::MInfo(r, e) => {
            lemma_name_wire_len(r);
            lemma_name_wire_len(e);
            lemma_split(s, pos + 2, name_wire(r), name_wire(e));
            lemma_parse_name_wire(s, pos + 2, r);
            lemma_parse_name_wire(s, pos + 2 + name_wire(r).len(), e);
        },
        RDataView::Txt(strings) => {
            lemma_strings_round_trip(strings);
        },
        RDataView::Wks(addr, proto, bmp) => {
            lemma_wks_round_trip(s, pos, addr, proto, bmp);
        },
        RDataView::Null(data) => {},
        RDataView::Unknown(code, data) => {},
    }
}

/// Well-formed record data of every kind, written and parsed again as
/// data of its type, is the same data, and the parser stops right behind
/// it.
pub proof fn lemma_rdata_round_trip(v: RDataView)
    requires
        v.wf(),
    ensures
        parse_rdata(v.ty(), rdata_wire(v), 0) == Some((v, rdata_wire(v).len() as int)),
{
    let wire = rdata_wire(v);
    assert(wire.subrange(0, wire.len() as int) =~= wire);
    lemma_rdata_at_wire(wire, 0, v);
}

/// The type of well-formed data is written as the code that reads as that
/// type.
pub proof fn lemma_rdata_type_code(v: RDataView)
    requires
        v.wf(),
    ensures
        rr_type_of(rr_type_code(v.ty())) == v.ty(),
{
}

/// Where the wire form of a well-formed question stands at `pos` of `s`,
/// the question read there is that question, and it ends where the wire
/// form ends.
pub proof fn lemma_question_at_wire(s: Seq<u8>, pos: int, q: QuestionView)
    requires
        q.wf(),
        0 <= pos,
        pos + question_wire(q).len() <= s.len(),
        s.subrange(pos, pos + question_wire(q).len()) == question_wire(q),
    ensures
        parse_question(s, pos) == Some((q, pos + question_wire(q).len())),
{
    lemma_int_bytes_len();
    lemma_name_wire_len(q.name);
    let name = name_wire(q.name);
    let codes = u16_bytes(rr_type_code(q.ty)) + u16_bytes(rr_class_code(q.class));
    assert(question_wire(q) =~= name + codes);
    lemma_split(s, pos, name, codes);
    lemma_split(
        s,
        pos + name.len(),
        u16_bytes(rr_type_code(q.ty)),
        u16_bytes(rr_class_code(q.class)),
    );
    lemma_parse_name_wire(s, pos, q.name);
    lemma_u16_round_trip(s, pos + name.len(), rr_type_code(q.ty));
    lemma_u16_round_trip(s, pos + name.len() + 2, rr_class_code(q.class));
}

/// A well-formed question, written and parsed again, is the same
/// question.
pub proof fn lemma_question_round_trip(q: QuestionView)
    requires
        q.wf(),
    ensures
        parse_question(question_wire(q), 0) == Some((q, question_wire(q).len() as int)),
{
    let wire = question_wire(q);
    assert(wire.subrange(0, wire.len() as int) =~= wire);
    lemma_question_at_wire(wire, 0, q);
}

/// Where the wire form of a well-formed record stands at `pos` of `s`,
/// the record read there is that record, and it ends where the wire form
/// ends.
#[verifier::rlimit(50)]
pub proof fn lemma_rr_at_wire(s: Seq<u8>, pos: int, rr: RRView)
    requires
        rr.wf(),
        0 <= pos,
        pos + rr_wire(rr).len() <= s.len(),
        s.subrange(pos, pos + rr_wire(rr).len()) == rr_wire(rr),
    ensures
        parse_rr(s, pos) == Some((rr, pos + rr_wire(rr).len())),
{
    reveal(parse_rr);
    lemma_int_bytes_len();
    lemma_name_wire_len(rr.name);
    let name = name_wire(rr.name);
    let ty = u16_bytes(rr_type_code(rr.ty()));
    let class = u16_bytes(rr_class_code(rr.class));
    let ttl = u32_bytes(rr.ttl);
    let rdata = rdata_wire(rr.rdata);
    assert(rr_wire(rr) =~= name + (ty + (class + (ttl + rdata))));
    lemma_split(s, pos, name, ty + (class + (ttl + rdata)));
    lemma_split(s, pos + name.len(), ty, class + (ttl + rdata));
    lemma_split(s, pos + name.len() + 2, class, ttl + rdata);
    lemma_split(s, pos + name.len() + 4, ttl, rdata);
    lemma_parse_name_wire(s, pos, rr.name);
    lemma_u16_round_trip(s, pos + name.len(), rr_type_code(rr.ty()));
    lemma_u16_round_trip(s, pos + name.len() + 2, rr_class_code(rr.class));
    lemma_u32_round_trip(s, pos + name.len() + 4, rr.ttl);
    lemma_rdata_type_code(rr.rdata);
    lemma_rdata_at_wire(s, pos + name.len() + 8, rr.rdata);
}

/// A well-formed record, written and parsed again, is the same record.
pub proof fn lemma_rr_round_trip(rr: RRView)
    requires
        rr.wf(),
    ensures
        parse_rr(rr_wire(rr), 0) == Some((rr, rr_wire(rr).len() as int)),
{
    let wire = rr_wire(rr);
    assert(wire.subrange(0, wire.len() as int) =~= wire);
    lemma_rr_at_wire(wire, 0, rr);
}

/// Records go on the wire first to last.
proof fn lemma_records_wire_front(rrs: Seq<RRView>)
    requires
        rrs.len() > 0,
    ensures
        records_wire(rrs) == rr_wire(rrs[0]) + records_wire(rrs.drop_first()),
    decreases rrs.len(),
{
    if rrs.len() == 1 {
        assert(rrs.drop_last() =~= Seq::<RRView>::empty());
        assert(rrs.drop_first() =~= Seq::<RRView>::empty());
        assert(records_wire(rrs) =~= rr_wire(rrs[0]) + records_wire(rrs.drop_first()));
    } else {
        lemma_records_wire_front(rrs.drop_last());
        assert(rrs.drop_last().drop_first() =~= rrs.drop_first().drop_last());
        assert(rrs.drop_last()[0] == rrs[0]);
        assert(rrs.drop_first().last() == rrs.last());
        assert(records_wire(rrs) =~= rr_wire(rrs[0]) + records_wire(rrs.drop_first()));
    }
}

/// Where the wire forms of well-formed records stand one after another
/// at `pos` of `s`, as many records read there are those records, and
/// they end where the wire forms end.
#[verifier::rlimit(50)]
pub proof fn lemma_records_at_wire(s: Seq<u8>, pos: int, rrs: Seq<RRView>)
    requires
        forall|i: int| 0 <= i < rrs.len() ==> (#[trigger] rrs[i]).wf(),
        0 <= pos,
        pos + records_wire(rrs).len() <= s.len(),
        s.subrange(pos, pos + records_wire(rrs).len()) == records_wire(rrs),
    ensures
        records_at(s, pos, rrs.len()) == Some((rrs, pos + records_wire(rrs).len())),
    decreases rrs.len(),
{
    if rrs.len() == 0 {
        assert(rrs =~= Seq::<RRView>::empty());
    } else {
        let first = rrs[0];
        let rest = rrs.drop_first();
        lemma_records_wire_front(rrs);
        lemma_split(s, pos, rr_wire(first), records_wire(rest));
        lemma_rr_at_wire(s, pos, first);
        assert forall|i: int| 0 <= i < rest.len() implies (#[trigger] rest[i]).wf() by {
            assert(rest[i] == rrs[i + 1]);
        }
        lemma_records_at_wire(s, pos + rr_wire(first).len(), rest);
        assert(seq![first] + rest =~= rrs);
    }
}

/// Where the wire forms of at most one well-formed question stand at
/// `pos` of `s`, as many questions read there are those questions.
pub proof fn lemma_questions_at_wire(s: Seq<u8>, pos: int, qs: Seq<QuestionView>)
    requires
        qs.len() <= 1,
        forall|i: int| 0 <= i < qs.len() ==> (#[trigger] qs[i]).wf(),
        0 <= pos,
        pos + questions_wire(qs).len() <= s.len(),
        s.subrange(pos, pos + questions_wire(qs).len()) == questions_wire(qs),
    ensures
        questions_at(s, pos, qs.len()) == Some((qs, pos + questions_wire(qs).len())),
{
    reveal_with_fuel(questions_at, 2);
    reveal_with_fuel(questions_wire, 2);
    if qs.len() == 1 {
        let question = qs[0];
        assert(qs.drop_last() =~= Seq::<QuestionView>::empty());
        assert(questions_wire(qs) =~= question_wire(question));
        lemma_question_at_wire(s, pos, question);
        assert(seq![question] + Seq::<QuestionView>::empty() =~= qs);
    } else {
        assert(qs =~= Seq::<QuestionView>::empty());
    }
}

/// Where the sections of a well-formed message stand on the wire at
/// `pos` of `s`, the sections read there under the message's header are
/// that message.
#[verifier::rlimit(50)]
pub proof fn lemma_sections_at_wire(s: Seq<u8>, pos: int, p: PacketView)
    requires
        p.wf(),
        0 <= pos,
        s.len() == pos + questions_wire(p.questions).len() + records_wire(p.answers).len()
            + records_wire(p.authorities).len() + records_wire(p.additions).len(),
        s.subrange(pos, s.len() as int) == questions_wire(p.questions) + (records_wire(
            p.answers,
        ) + (records_wire(p.authorities) + records_wire(p.additions))),
    ensures
        sections_at(s, pos, p.header) == Some(p),
{
    reveal(sections_at);
    let q = questions_wire(p.questions);
    let an = records_wire(p.answers);
    let ns = records_wire(p.authorities);
    let ar = records_wire(p.additions);
    let at_an: int = pos + q.len();
    let at_ns: int = at_an + an.len();
    let at_ar: int = at_ns + ns.len();
    assert((an + (ns + ar)).len() == an.len() + ns.len() + ar.len());
    lemma_split(s, pos, q, an + (ns + ar));
    lemma_split(s, at_an, an, ns + ar);
    lemma_split(s, at_ns, ns, ar);
    lemma_questions_at_wire(s, pos, p.questions);
    lemma_records_at_wire(s, at_an, p.answers);
    lemma_records_at_wire(s, at_ns, p.authorities);
    lemma_records_at_wire(s, at_ar, p.additions);
}

/// Where the wire form of a well-formed header with at most one
/// question stands at `pos` of `s`, parsing a header there gives that
/// header.
pub proof fn lemma_parse_header_at_wire(s: Seq<u8>, pos: int, h: HeaderView)
    requires
        h.wf(),
        h.questions <= 1,
        0 <= pos,
        pos + 12 <= s.len(),
        s.subrange(pos, pos + 12) == header_wire(h),
    ensures
        parse_header(s, pos) == Ok::<HeaderView, Fault>(h),
{
    lemma_header_at_wire(s, pos, h);
}

/// The wire form of a message is its header, twelve octets long, and its
/// sections behind it.
pub proof fn lemma_packet_wire_parts(p: PacketView)
    ensures
        header_wire(p.header).len() == 12,
        packet_wire(p) == header_wire(p.header) + (questions_wire(p.questions) + (records_wire(
            p.answers,
        ) + (records_wire(p.authorities) + records_wire(p.additions)))),
{
    lemma_int_bytes_len();
    assert(packet_wire(p) =~= header_wire(p.header) + (questions_wire(p.questions) + (
    records_wire(p.answers) + (records_wire(p.authorities) + records_wire(p.additions)))));
}

/// The character strings that are read from the wire have at most 255
/// octets each, and take on the wire what they were read from.
pub proof fn lemma_strings_in_fit(s: Seq<u8>)
    requires
        strings_in(s) is Some,
    ensures
        forall|i: int|
            0 <= i < strings_in(s).unwrap().len() ==> (#[trigger] strings_in(s).unwrap()[i]).len()
                <= 255,
        strings_wire(strings_in(s).unwrap()) == s,
    decreases s.len(),
{
    if s.len() == 0 {
        assert(strings_wire(strings_in(s).unwrap()) =~= s);
    } else {
        let n: int = s[0] as int;
        let tail = s.skip(1 + n);
        lemma_strings_in_fit(tail);
        let rest = strings_in(tail).unwrap();
        let all = strings_in(s).unwrap();
        let first = s.subrange(1, 1 + n);
        assert(all =~= seq![first] + rest);
        assert forall|i: int| 0 <= i < all.len() implies (#[trigger] all[i]).len() <= 255 by {
            if i > 0 {
                assert(all[i] == rest[i - 1]);
            }
        }
        assert(all.drop_first() =~= rest);
        assert(strings_wire(all) =~= s);
    }
}

/// Record data that is parsed is well formed, and of the type it was
/// parsed as.
pub proof fn lemma_parsed_rdata_wf(ty: RRType, s: Seq<u8>, pos: int)
    requires
        rr_type_of(rr_type_code(ty)) == ty,
        parse_rdata(ty, s, pos) is Some,
    ensures
        parse_rdata(ty, s, pos).unwrap().0.wf(),
        parse_rdata(ty, s, pos).unwrap().0.ty() == ty,
{
    lemma_parsed_rdata_encodable(ty, s, pos);
    reveal(parse_rdata);
}

/// Record data that is parsed can be written, whatever type it was
/// parsed as.
#[verifier::rlimit(50)]
pub proof fn lemma_parsed_rdata_encodable(ty: RRType, s: Seq<u8>, pos: int)
    requires
        parse_rdata(ty, s, pos) is Some,
    ensures
        parse_rdata(ty, s, pos).unwrap().0.encodable(),
{
    reveal(parse_rdata);
    lemma_int_bytes_len();
    let v = parse_rdata(ty, s, pos).unwrap().0;
    match v {
        RDataView::A(_) => {},
        RDataView::Aaaa(_) => {},
        RDataView::Cname(name) => {
            lemma_parsed_name_valid(s, pos + 2);
            lemma_name_wire_len(name);
        },
        RDataView::Ns(name) => {
            lemma_parsed_name_valid(s, pos + 2);
            lemma_name_wire_len(name);
        },
        RDataView::Ptr(name) => {
            lemma_parsed_name_valid(s, pos + 2);
            lemma_name_wire_len(name);
        },
        RDataView::Mb(name) => {
            lemma_parsed_name_valid(s, pos + 2);
            lemma_name_wire_len(name);
        },
        RDataView::Mg(name) => {
            lemma_parsed_name_valid(s, pos + 2);
            lemma_name_wire_len(name);
        },
        RDataView::Mr(name) => {
            lemma_parsed_name_valid(s, pos + 2);
            lemma_name_wire_len(name);
        },
        RDataView::Mx(_, name) => {
            lemma_parsed_name_valid(s, pos + 4);
            lemma_name_wire_len(name);
        },
        RDataView::Soa(soa) => {
            lemma_parsed_name_valid(s, pos + 2);
            lemma_parsed_name_valid(s, parse_name(s, pos + 2).unwrap().1);
            lemma_name_wire_len(soa.mname);
            lemma_name_wire_len(soa.rname);
        },
        RDataView::HInfo(_, _) => {},
        RDataView::MInfo(r, e) => {
            lemma_parsed_name_valid(s, pos + 2);
            lemma_parsed_name_valid(s, parse_name(s, pos + 2).unwrap().1);
            lemma_name_wire_len(r);
            lemma_name_wire_len(e);
        },
        RDataView::Txt(_) => {
            lemma_strings_in_fit(s.subrange(pos + 2, rdata_end(s, pos)));
        },
        RDataView::Wks(_, _, _) => {},
        RDataView::Null(_) => {},
        RDataView::Unknown(_, _) => {},
    }
}

/// A question that is parsed is well formed.
pub proof fn lemma_parsed_question_wf(s: Seq<u8>, pos: int)
    requires
        parse_question(s, pos) is Some,
    ensures
        parse_question(s, pos).unwrap().0.wf(),
{
    lemma_parsed_name_valid(s, pos);
}

/// A record that is parsed is well formed.
pub proof fn lemma_parsed_rr_wf(s: Seq<u8>, pos: int)
    requires
        parse_rr(s, pos) is Some,
    ensures
        parse_rr(s, pos).unwrap().0.wf(),
{
    reveal(parse_rr);
    lemma_parsed_name_valid(s, pos);
    let name_end = parse_name(s, pos).unwrap().1;
    lemma_parsed_rdata_wf(rr_type_of(u16_at(s, name_end)), s, name_end + 8);
}

/// Records that are parsed are as many as were asked for, and well
/// formed.
pub proof fn lemma_parsed_records_wf(s: Seq<u8>, pos: int, count: nat)
    requires
        records_at(s, pos, count) is Some,
    ensures
        records_at(s, pos, count).unwrap().0.len() == count,
        forall|i: int|
            0 <= i < count ==> (#[trigger] records_at(s, pos, count).unwrap().0[i]).wf(),
    decreases count,
{
    if count > 0 {
        lemma_parsed_rr_wf(s, pos);
        let next = parse_rr(s, pos).unwrap().1;
        lemma_parsed_records_wf(s, next, (count - 1) as nat);
        let rest = records_at(s, next, (count - 1) as nat).unwrap().0;
        let all = records_at(s, pos, count).unwrap().0;
        assert forall|i: int| 0 <= i < count implies (#[trigger] all[i]).wf() by {
            if i > 0 {
                assert(all[i] == rest[i - 1]);
            }
        }
    }
}

/// A message that is parsed is well formed: it can be written, and
/// written it reads as the same message. So a message that came
/// compressed is written out in full, and still says the same.
#[verifier::rlimit(50)]
pub proof fn lemma_parsed_packet_wf(s: Seq<u8>, offset: int)
    requires
        parse_packet(s, offset) is Ok,
    ensures
        parse_packet(s, offset).unwrap().wf(),
        parse_packet(s, offset).unwrap().emittable(),
        parse_packet(packet_wire(parse_packet(s, offset).unwrap()), 0) == parse_packet(s, offset),
{
    reveal(sections_at);
    reveal_with_fuel(questions_at, 2);
    let h = parse_header(s, offset).unwrap();
    lemma_header_at_wf(s, offset);
    let start = offset + 12;
    if h.questions == 1 {
        lemma_parsed_question_wf(s, start);
    }
    let at_answers = questions_at(s, start, h.questions as nat).unwrap().1;
    lemma_parsed_records_wf(s, at_answers, h.answers as nat);
    let at_authorities = records_at(s, at_answers, h.answers as nat).unwrap().1;
    lemma_parsed_records_wf(s, at_authorities, h.authorities as nat);
    let at_additions = records_at(s, at_authorities, h.authorities as nat).unwrap().1;
    lemma_parsed_records_wf(s, at_additions, h.additional as nat);
    let p = parse_packet(s, offset).unwrap();
    assert(p.wf());
    lemma_packet_round_trip(p);
}

/// A well-formed message, written and parsed again, is the same message.
/// What was compressed when the message was first read is written out in
/// full, so that a message read from the wire and written again reads as
/// the same message, if not as the same octets.
#[verifier::rlimit(50)]
pub proof fn lemma_packet_round_trip(p: PacketView)
    requires
        p.wf(),
    ensures
        parse_packet(packet_wire(p), 0) == Ok::<PacketView, Fault>(p),
{
    let s = packet_wire(p);
    let h = header_wire(p.header);
    let rest = questions_wire(p.questions) + (records_wire(p.answers) + (records_wire(
        p.authorities,
    ) + records_wire(p.additions)));
    lemma_packet_wire_parts(p);
    assert(s.subrange(0, s.len() as int) =~= s);
    lemma_split(s, 0, h, rest);
    lemma_parse_header_at_wire(s, 0, p.header);
    lemma_sections_at_wire(s, 12, p);
}

} // verus!
