//! The data of a resource record, by record type. On the wire each kind
//! stands behind a 16-bit length.

use crate::buffer::{
    buf_as_slice, buf_put_slice, buf_put_u16, buf_seq, bytes_seq, read_u16, u128_at, u128_bytes,
    u16_at, u16_bytes, u32_at, u32_bytes,
};
use crate::protocol::domain::{
    lemma_name_end_bounds, lemma_name_wire_len, name_wire, parse_name, valid_name, Name,
};
use crate::protocol::error::PacketError;
use crate::protocol::header::Rcode;
use crate::protocol::types::{rr_type_of, RRType};
use bytes::{Bytes, BytesMut};
use vstd::prelude::*;

pub mod a;
pub mod aaaa;
pub mod cname;
pub mod hinfo;
pub mod mb;
pub mod mg;
pub mod minfo;
pub mod mr;
pub mod mx;
pub mod nl;
pub mod ns;
pub mod pt;
pub mod soa;
pub mod txt;
pub mod unknown;
pub mod wks;

verus! {

/// The fields of a start-of-authority record.
pub struct SoaView {
    pub mname: Seq<Seq<u8>>,
    pub rname: Seq<Seq<u8>>,
    pub serial: u32,
    pub refresh: u32,
    pub retry: u32,
    pub expires: u32,
    pub minimum: u32,
}

/// What the data of a record says, by kind.
pub enum RDataView {
    /// An IPv4 address.
    A(u32),
    /// An IPv6 address.
    Aaaa(u128),
    /// The canonical name.
    Cname(Seq<Seq<u8>>),
    /// Two character strings: CPU and operating system.
    HInfo(Seq<u8>, Seq<u8>),
    /// A name that the owner points to.
    Ptr(Seq<Seq<u8>>),
    /// A preference and a mail exchange.
    Mx(u16, Seq<Seq<u8>>),
    /// A mailbox host.
    Mb(Seq<Seq<u8>>),
    /// A mail group member.
    Mg(Seq<Seq<u8>>),
    /// A mail rename name.
    Mr(Seq<Seq<u8>>),
    /// An address, a protocol and a bitmap of services.
    Wks(u32, u8, Seq<u8>),
    /// Any octets.
    Null(Seq<u8>),
    /// A responsible mailbox and an error mailbox.
    MInfo(Seq<Seq<u8>>, Seq<Seq<u8>>),
    /// An authoritative name server.
    Ns(Seq<Seq<u8>>),
    /// The start of a zone of authority.
    Soa(SoaView),
    /// Character strings.
    Txt(Seq<Seq<u8>>),
    /// The octets of a record whose type has no name here, with the
    /// type's code.
    Unknown(u16, Seq<u8>),
}

/// Character strings on the wire: each behind its length octet.
pub open spec fn strings_wire(strings: Seq<Seq<u8>>) -> Seq<u8>
    decreases strings.len(),
{
    if strings.len() == 0 {
        Seq::empty()
    } else {
        seq![strings[0].len() as u8] + strings[0] + strings_wire(strings.drop_first())
    }
}

/// The character strings that tile `s` exactly, or nothing where the last
/// one is cut off.
pub open spec fn strings_in(s: Seq<u8>) -> Option<Seq<Seq<u8>>>
    decreases s.len(),
{
    if s.len() == 0 {
        Some(Seq::empty())
    } else if 1 + s[0] > s.len() {
        None
    } else {
        match strings_in(s.skip(1 + s[0])) {
            Some(rest) => Some(seq![s.subrange(1, 1 + s[0])] + rest),
            None => None,
        }
    }
}

impl RDataView {
    /// The record type that goes with this kind of data.
    pub open spec fn ty(self) -> RRType {
        match self {
            RDataView::A(_) => RRType::A,
            RDataView::Aaaa(_) => RRType::Aaaa,
            RDataView::Cname(_) => RRType::Cname,
            RDataView::HInfo(_, _) => RRType::HInfo,
            RDataView::Ptr(_) => RRType::Ptr,
            RDataView::Mx(_, _) => RRType::Mx,
            RDataView::Mb(_) => RRType::Mb,
            RDataView::Mg(_) => RRType::Mg,
            RDataView::Mr(_) => RRType::Mr,
            RDataView::Wks(_, _, _) => RRType::Wks,
            RDataView::Null(_) => RRType::Null,
            RDataView::MInfo(_, _) => RRType::MInfo,
            RDataView::Ns(_) => RRType::Ns,
            RDataView::Soa(_) => RRType::Soa,
            RDataView::Txt(_) => RRType::Txt,
            RDataView::Unknown(code, _) => RRType::UNKNOWN(code),
        }
    }

    /// The octets of the data, without the length in front.
    pub open spec fn payload(self) -> Seq<u8> {
        match self {
            RDataView::A(addr) => u32_bytes(addr),
            RDataView::Aaaa(addr) => u128_bytes(addr),
            RDataView::Cname(name) => name_wire(name),
            RDataView::HInfo(cpu, os) => seq![cpu.len() as u8] + cpu + seq![os.len() as u8] + os,
            RDataView::Ptr(name) => name_wire(name),
            RDataView::Mx(preference, name) => u16_bytes(preference) + name_wire(name),
            RDataView::Mb(name) => name_wire(name),
            RDataView::Mg(name) => name_wire(name),
            RDataView::Mr(name) => name_wire(name),
            RDataView::Wks(addr, proto, bmp) => u32_bytes(addr) + seq![proto] + bmp,
            RDataView::Null(data) => data,
            RDataView::MInfo(r, e) => name_wire(r) + name_wire(e),
            RDataView::Ns(name) => name_wire(name),
            RDataView::Soa(soa) => name_wire(soa.mname) + name_wire(soa.rname) + u32_bytes(
                soa.serial,
            ) + u32_bytes(soa.refresh) + u32_bytes(soa.retry) + u32_bytes(soa.expires)
                + u32_bytes(soa.minimum),
            RDataView::Txt(strings) => strings_wire(strings),
            RDataView::Unknown(_, data) => data,
        }
    }

    /// The parts fit their fields: names are valid, a character string
    /// has at most 255 octets.
    pub open spec fn parts_fit(self) -> bool {
        match self {
            RDataView::A(_) => true,
            RDataView::Aaaa(_) => true,
            RDataView::Cname(name) => valid_name(name),
            RDataView::HInfo(cpu, os) => cpu.len() <= 255 && os.len() <= 255,
            RDataView::Ptr(name) => valid_name(name),
            RDataView::Mx(_, name) => valid_name(name),
            RDataView::Mb(name) => valid_name(name),
            RDataView::Mg(name) => valid_name(name),
            RDataView::Mr(name) => valid_name(name),
            RDataView::Wks(_, _, _) => true,
            RDataView::Null(_) => true,
            RDataView::MInfo(r, e) => valid_name(r) && valid_name(e),
            RDataView::Ns(name) => valid_name(name),
            RDataView::Soa(soa) => valid_name(soa.mname) && valid_name(soa.rname),
            RDataView::Txt(strings) => forall|i: int|
                0 <= i < strings.len() ==> (#[trigger] strings[i]).len() <= 255,
            RDataView::Unknown(_, _) => true,
        }
    }

    /// The data can be written: its parts fit and its length fits 16
    /// bits.
    pub open spec fn encodable(self) -> bool {
        self.parts_fit() && self.payload().len() <= u16::MAX
    }

    /// The data can be written and read back as the same value: it is
    /// encodable, and the code of an unknown type is not the code of a
    /// named one.
    pub open spec fn wf(self) -> bool {
        &&& self.encodable()
        &&& self matches RDataView::Unknown(code, _) ==> rr_type_of(code) == RRType::UNKNOWN(code)
    }
}

/// The wire form of record data: its length in 16 bits, then its octets.
pub open spec fn rdata_wire(v: RDataView) -> Seq<u8> {
    u16_bytes(v.payload().len() as u16) + v.payload()
}

/// Where the data that starts with its length at `pos` ends.
pub open spec fn rdata_end(s: Seq<u8>, pos: int) -> int {
    pos + 2 + u16_at(s, pos)
}

/// An address record's data at `pos`: length 4 and a 32-bit address.
pub open spec fn a_at(s: Seq<u8>, pos: int) -> Option<(RDataView, int)> {
    if 0 <= pos && pos + 6 <= s.len() && u16_at(s, pos) == 4 {
        Some((RDataView::A(u32_at(s, pos + 2)), pos + 6))
    } else {
        None
    }
}

/// An IPv6 address record's data at `pos`: length 16 and a 128-bit
/// address.
pub open spec fn aaaa_at(s: Seq<u8>, pos: int) -> Option<(RDataView, int)> {
    if 0 <= pos && pos + 18 <= s.len() && u16_at(s, pos) == 16 {
        Some((RDataView::Aaaa(u128_at(s, pos + 2)), pos + 18))
    } else {
        None
    }
}

/// Data at `pos` that is exactly one name: the name must end where the
/// length says the data ends.
pub open spec fn name_rdata_at(s: Seq<u8>, pos: int) -> Option<(Seq<Seq<u8>>, int)> {
    if 0 <= pos && pos + 2 <= s.len() {
        match parse_name(s, pos + 2) {
            Some((name, end)) => if end == rdata_end(s, pos) {
                Some((name, end))
            } else {
                None
            },
            None => None,
        }
    } else {
        None
    }
}

/// A mail exchange record's data at `pos`: a length of at least 3, a
/// preference, and a name that ends where the data ends.
pub open spec fn mx_at(s: Seq<u8>, pos: int) -> Option<(RDataView, int)> {
    if 0 <= pos && pos + 4 <= s.len() && u16_at(s, pos) >= 3 {
        match parse_name(s, pos + 4) {
            Some((name, end)) => if end == rdata_end(s, pos) {
                Some((RDataView::Mx(u16_at(s, pos + 2), name), end))
            } else {
                None
            },
            None => None,
        }
    } else {
        None
    }
}

/// A start-of-authority record's data at `pos`: two names back to back
/// and five 32-bit numbers, which together are as long as the length
/// says.
pub open spec fn soa_at(s: Seq<u8>, pos: int) -> Option<(RDataView, int)> {
    if 0 <= pos && pos + 2 <= s.len() {
        match parse_name(s, pos + 2) {
            Some((mname, m_end)) => match parse_name(s, m_end) {
                Some((rname, r_end)) => if r_end + 20 <= s.len() && r_end + 20 == rdata_end(
                    s,
                    pos,
                ) {
                    Some(
                        (
                            RDataView::Soa(
                                SoaView {
                                    mname,
                                    rname,
                                    serial: u32_at(s, r_end),
                                    refresh: u32_at(s, r_end + 4),
                                    retry: u32_at(s, r_end + 8),
                                    expires: u32_at(s, r_end + 12),
                                    minimum: u32_at(s, r_end + 16),
                                },
                            ),
                            r_end + 20,
                        ),
                    )
                } else {
                    None
                },
                None => None,
            },
            None => None,
        }
    } else {
        None
    }
}

/// A host information record's data at `pos`: two character strings
/// within the length given.
pub open spec fn hinfo_at(s: Seq<u8>, pos: int) -> Option<(RDataView, int)> {
    if 0 <= pos && pos + 2 <= s.len() && rdata_end(s, pos) <= s.len() && u16_at(s, pos) >= 2 {
        let rdlen = u16_at(s, pos) as int;
        let c_len = s[pos + 2] as int;
        if c_len + 1 < rdlen {
            let o_len = s[pos + 3 + c_len] as int;
            if c_len + 1 + o_len + 1 <= rdlen {
                Some(
                    (
                        RDataView::HInfo(
                            s.subrange(pos + 3, pos + 3 + c_len),
                            s.subrange(pos + 4 + c_len, pos + 4 + c_len + o_len),
                        ),
                        rdata_end(s, pos),
                    ),
                )
            } else {
                None
            }
        } else {
            None
        }
    } else {
        None
    }
}

/// A mailbox information record's data at `pos`: two names back to back
/// behind the length. The data ends where the second name ends.
pub open spec fn minfo_at(s: Seq<u8>, pos: int) -> Option<(RDataView, int)> {
    if 0 <= pos && pos + 2 <= s.len() {
        match parse_name(s, pos + 2) {
            Some((r, m_end)) => match parse_name(s, m_end) {
                Some((e, end)) => Some((RDataView::MInfo(r, e), end)),
                None => None,
            },
            None => None,
        }
    } else {
        None
    }
}

/// A text record's data at `pos`: character strings that cover exactly
/// the length given.
pub open spec fn txt_at(s: Seq<u8>, pos: int) -> Option<(RDataView, int)> {
    if 0 <= pos && pos + 2 <= s.len() && rdata_end(s, pos) <= s.len() {
        match strings_in(s.subrange(pos + 2, rdata_end(s, pos))) {
            Some(strings) => Some((RDataView::Txt(strings), rdata_end(s, pos))),
            None => None,
        }
    } else {
        None
    }
}

/// A well-known-services record's data at `pos`: an address, a protocol,
/// and a bitmap that fills the rest of the length.
pub open spec fn wks_at(s: Seq<u8>, pos: int) -> Option<(RDataView, int)> {
    if 0 <= pos && pos + 2 <= s.len() && rdata_end(s, pos) <= s.len() && u16_at(s, pos) >= 5 {
        Some(
            (
                RDataView::Wks(
                    u32_at(s, pos + 2),
                    s[pos + 6],
                    s.subrange(pos + 7, rdata_end(s, pos)),
                ),
                rdata_end(s, pos),
            ),
        )
    } else {
        None
    }
}

/// The octets of the data at `pos`, taken as they are.
pub open spec fn octets_at(s: Seq<u8>, pos: int) -> Option<(Seq<u8>, int)> {
    if 0 <= pos && pos + 2 <= s.len() && rdata_end(s, pos) <= s.len() {
        Some((s.subrange(pos + 2, rdata_end(s, pos)), rdata_end(s, pos)))
    } else {
        None
    }
}

/// `name` made into data of the kind that `ty` names, where that kind is
/// a single name.
pub open spec fn name_rdata(ty: RRType, name: Seq<Seq<u8>>) -> RDataView {
    match ty {
        RRType::Cname => RDataView::Cname(name),
        RRType::Ns => RDataView::Ns(name),
        RRType::Ptr => RDataView::Ptr(name),
        RRType::Mb => RDataView::Mb(name),
        RRType::Mg => RDataView::Mg(name),
        _ => RDataView::Mr(name),
    }
}

/// Parsing the data of a record of type `ty` whose length stands at
/// `pos` of `s`: the data and the offset behind it, or nothing where it
/// is malformed.
#[verifier::opaque]
pub open spec fn parse_rdata(ty: RRType, s: Seq<u8>, pos: int) -> Option<(RDataView, int)> {
    match ty {
        RRType::A => a_at(s, pos),
        RRType::Aaaa => aaaa_at(s, pos),
        RRType::Cname | RRType::Ns | RRType::Ptr | RRType::Mb | RRType::Mg | RRType::Mr => named_at(
            ty,
            s,
            pos,
        ),
        RRType::Mx => mx_at(s, pos),
        RRType::Soa => soa_at(s, pos),
        RRType::HInfo => hinfo_at(s, pos),
        RRType::MInfo => minfo_at(s, pos),
        RRType::Txt => txt_at(s, pos),
        RRType::Wks => wks_at(s, pos),
        RRType::Null => match octets_at(s, pos) {
            Some((data, end)) => Some((RDataView::Null(data), end)),
            None => None,
        },
        RRType::UNKNOWN(code) => match octets_at(s, pos) {
            Some((data, end)) => Some((RDataView::Unknown(code, data), end)),
            None => None,
        },
    }
}

/// Record data that is read within `s` ends within `s`, behind its
/// length.
pub proof fn lemma_rdata_end_bounds(ty: RRType, s: Seq<u8>, pos: int)
    requires
        parse_rdata(ty, s, pos) is Some,
    ensures
        pos + 2 <= parse_rdata(ty, s, pos).unwrap().1 <= s.len(),
{
    reveal(parse_rdata);
    if ty == RRType::Cname || ty == RRType::Ns || ty == RRType::Ptr || ty == RRType::Mb || ty
        == RRType::Mg || ty == RRType::Mr {
        lemma_name_end_bounds(s, pos + 2);
    } else if ty == RRType::Mx {
        lemma_name_end_bounds(s, pos + 4);
    } else if ty == RRType::Soa {
        lemma_name_end_bounds(s, pos + 2);
    } else if ty == RRType::MInfo {
        lemma_name_end_bounds(s, pos + 2);
        lemma_name_end_bounds(s, parse_name(s, pos + 2).unwrap().1);
    }
}

/// The fault reported for data of this kind that cannot be written.
pub open spec fn write_fault(v: RDataView) -> Rcode {
    match v {
        RDataView::Txt(_) => Rcode::FormatError,
        RDataView::HInfo(_, _) => Rcode::FormatError,
        _ => Rcode::ServFail,
    }
}

/// What every kind of record data can do: be parsed from a message, and
/// be written.
pub trait Rdata: Sized + View<V = RDataView> {
    /// Data of this kind whose length stands at `pos` of `s`, and the
    /// offset behind it.
    spec fn at(s: Seq<u8>, pos: int) -> Option<(RDataView, int)>;

    /// Parses the data whose length stands at `pos` of `packet`; gives the
    /// data and the offset behind it.
    fn parse(packet: Bytes, pos: usize) -> (r: Result<(Self, usize), PacketError>)
        ensures
            match r {
                Ok((data, end)) => Self::at(bytes_seq(packet), pos as int) == Some(
                    (data@, end as int),
                ),
                Err(e) => e is FormatError && Self::at(bytes_seq(packet), pos as int) is None,
            },
    ;

    /// The data's wire form, or the error of its kind where it cannot be
    /// written.
    fn try_into_bytes(&self) -> (r: Result<BytesMut, PacketError>)
        ensures
            match r {
                Ok(buf) => self@.encodable() && buf_seq(buf) == rdata_wire(self@),
                Err(e) => !self@.encodable() && e.spec_rcode() == write_fault(self@),
            },
    ;
}

/// Data at `pos` that is one name, as data of the kind that `ty` names.
pub open spec fn named_at(ty: RRType, s: Seq<u8>, pos: int) -> Option<(RDataView, int)> {
    match name_rdata_at(s, pos) {
        Some((name, end)) => Some((name_rdata(ty, name), end)),
        None => None,
    }
}

/// The length of record data as the 16 bits that the wire has for it: a
/// server failure where it does not fit.
pub fn try_into_rdata_length(rdata_length: usize) -> (r: Result<u16, PacketError>)
    ensures
        match r {
            Ok(n) => n == rdata_length,
            Err(e) => e is ServFail && rdata_length > u16::MAX,
        },
{
    if rdata_length > 0xffff {
        Err(PacketError::ServFail)
    } else {
        Ok(rdata_length as u16)
    }
}

/// Parses data that is exactly one name.
pub(crate) fn parse_name_rdata(packet: &Bytes, pos: usize) -> (r: Result<
    (Name, usize),
    PacketError,
>)
    ensures
        match r {
            Ok((name, end)) => name_rdata_at(bytes_seq(*packet), pos as int) == Some(
                (name@, end as int),
            ),
            Err(e) => e is FormatError && name_rdata_at(bytes_seq(*packet), pos as int) is None,
        },
{
    let length = match read_u16(packet, pos) {
        Some(length) => length as usize,
        None => {
            return Err(PacketError::FormatError);
        },
    };
    let (name, name_end) = match Name::parse(packet.clone(), pos + 2) {
        Ok(found) => found,
        Err(e) => {
            return Err(e);
        },
    };
    proof {
        lemma_name_end_bounds(bytes_seq(*packet), pos + 2);
    }
    if name_end - (pos + 2) == length {
        Ok((name, name_end))
    } else {
        Err(PacketError::FormatError)
    }
}

/// Writes data that is exactly one name.
pub(crate) fn name_rdata_bytes(name: &Name) -> (r: Result<BytesMut, PacketError>)
    ensures
        r is Ok,
        buf_seq(r.unwrap()) == u16_bytes(name_wire(name@).len() as u16) + name_wire(name@),
        name_wire(name@).len() <= u16::MAX,
{
    proof {
        use_type_invariant(name);
        lemma_name_wire_len(name@);
    }
    let v = name.as_bytes_uncompressed();
    let rdlength = match try_into_rdata_length(v.len()) {
        Ok(n) => n,
        Err(e) => {
            return Err(e);
        },
    };
    let mut buf = BytesMut::with_capacity(v.len() + 2);
    buf_put_u16(&mut buf, rdlength);
    buf_put_slice(&mut buf, buf_as_slice(&v));
    Ok(buf)
}

} // verus!
