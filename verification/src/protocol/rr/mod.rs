//! Resource records.
//!
//! ```text
//!   0  1  2  3  4  5  6  7  8  9 10 11 12 13 14 15
//! +--+--+--+--+--+--+--+--+--+--+--+--+--+--+--+--+
//! /                      NAME                     /
//! |                      TYPE                     |
//! |                     CLASS                     |
//! |                      TTL                      |
//! |                                               |
//! |                   RDLENGTH                    |
//! /                     RDATA                     /
//! +--+--+--+--+--+--+--+--+--+--+--+--+--+--+--+--+
//! ```

use self::rdata::a::A;
use self::rdata::aaaa::Aaaa;
use self::rdata::cname::Cname;
use self::rdata::hinfo::HInfo;
use self::rdata::mb::Mb;
use self::rdata::mg::Mg;
use self::rdata::minfo::MInfo;
use self::rdata::mr::Mr;
use self::rdata::mx::Mx;
use self::rdata::nl::Null;
use self::rdata::ns::Ns;
use self::rdata::pt::Ptr;
use self::rdata::soa::SOA;
use self::rdata::txt::Txt;
use self::rdata::unknown::Unknown;
use self::rdata::wks::Wks;
use self::rdata::{parse_rdata, rdata_wire, write_fault, RDataView};
use super::domain::{lemma_name_end_bounds, name_wire, parse_name, valid_name, Name};
use super::error::PacketError;
use super::header::Rcode;
use super::types::{rr_class_code, rr_class_of, rr_type_code, rr_type_of, RRClass, RRType};
use crate::buffer::{
    buf_as_slice, buf_put_slice, buf_put_u16, buf_put_u32, buf_seq, bytes_seq, read_u16, read_u32,
    u16_at, u16_bytes, u32_at, u32_bytes,
};
use crate::time::{duration_secs, duration_subsec_nanos};
use bytes::{Bytes, BytesMut};
use std::time::Duration;
use vstd::prelude::*;

pub mod rdata;

verus! {

/// The data of a resource record. Its kind is the record's type.
#[derive(Debug)]
pub enum RRData {
    A(A),
    Aaaa(Aaaa),
    Cname(Cname),
    HInfo(HInfo),
    Ptr(Ptr),
    Mx(Mx),
    Mb(Mb),
    Mg(Mg),
    Mr(Mr),
    Wks(Wks),
    Null(Null),
    MInfo(MInfo),
    Ns(Ns),
    Soa(SOA),
    Txt(Txt),
    Unknown(Unknown),
}

impl View for RRData {
    type V = RDataView;

    open spec fn view(&self) -> RDataView {
        match self {
            RRData::A(d) => d@,
            RRData::Aaaa(d) => d@,
            RRData::Cname(d) => d@,
            RRData::HInfo(d) => d@,
            RRData::Ptr(d) => d@,
            RRData::Mx(d) => d@,
            RRData::Mb(d) => d@,
            RRData::Mg(d) => d@,
            RRData::Mr(d) => d@,
            RRData::Wks(d) => d@,
            RRData::Null(d) => d@,
            RRData::MInfo(d) => d@,
            RRData::Ns(d) => d@,
            RRData::Soa(d) => d@,
            RRData::Txt(d) => d@,
            RRData::Unknown(d) => d@,
        }
    }
}

impl Clone for RRData {
    fn clone(&self) -> (r: Self)
        ensures
            r@ == self@,
    {
        match self {
            RRData::A(d) => RRData::A(*d),
            RRData::Aaaa(d) => RRData::Aaaa(*d),
            RRData::Cname(d) => RRData::Cname(d.clone()),
            RRData::HInfo(d) => RRData::HInfo(d.clone()),
            RRData::Ptr(d) => RRData::Ptr(d.clone()),
            RRData::Mx(d) => RRData::Mx(d.clone()),
            RRData::Mb(d) => RRData::Mb(d.clone()),
            RRData::Mg(d) => RRData::Mg(d.clone()),
            RRData::Mr(d) => RRData::Mr(d.clone()),
            RRData::Wks(d) => RRData::Wks(d.clone()),
            RRData::Null(d) => RRData::Null(d.clone()),
            RRData::MInfo(d) => RRData::MInfo(d.clone()),
            RRData::Ns(d) => RRData::Ns(d.clone()),
            RRData::Soa(d) => RRData::Soa(d.clone()),
            RRData::Txt(d) => RRData::Txt(d.clone()),
            RRData::Unknown(d) => RRData::Unknown(d.clone()),
        }
    }
}

/// What a record of this kind costs the cache.
pub open spec fn rdata_cost(v: RDataView) -> u32 {
    match v {
        RDataView::A(_) => 5,
        RDataView::Soa(_) => 5,
        RDataView::Ns(_) => 2,
        RDataView::Aaaa(_) => 1,
        RDataView::Cname(_) => 1,
        RDataView::Mx(_, _) => 1,
        _ => 0,
    }
}

impl RRData {
    /// The record type that goes with the data.
    pub fn get_type(&self) -> (r: RRType)
        ensures
            r == self@.ty(),
    {
        match self {
            Self::A(_) => RRType::A,
            Self::Aaaa(_) => RRType::Aaaa,
            Self::Cname(_) => RRType::Cname,
            Self::Mx(_) => RRType::Mx,
            Self::Ns(_) => RRType::Ns,
            Self::Mb(_) => RRType::Mb,
            Self::Mg(_) => RRType::Mg,
            Self::Soa(_) => RRType::Soa,
            Self::Txt(_) => RRType::Txt,
            Self::Wks(_) => RRType::Wks,
            Self::Ptr(_) => RRType::Ptr,
            Self::Mr(_) => RRType::Mr,
            Self::MInfo(_) => RRType::MInfo,
            Self::HInfo(_) => RRType::HInfo,
            Self::Null(_) => RRType::Null,
            Self::Unknown(unknown) => unknown.get_type(),
        }
    }

    /// What the record costs the cache.
    pub fn cost(&self) -> (r: u32)
        ensures
            r == rdata_cost(self@),
    {
        match self {
            Self::A(_) => 5,
            Self::Soa(_) => 5,
            Self::Ns(_) => 2,
            Self::Aaaa(_) => 1,
            Self::Cname(_) => 1,
            Self::Mx(_) => 1,
            _ => 0,
        }
    }

    /// The data's wire form. Where the data cannot be written, the
    /// error of its kind: a format error for text and host information,
    /// a server failure for the others.
    pub fn try_into_bytes(self) -> (r: Result<BytesMut, PacketError>)
        ensures
            match r {
                Ok(buf) => self@.encodable() && buf_seq(buf) == rdata_wire(self@),
                Err(e) => !self@.encodable() && e.spec_rcode() == write_fault(self@),
            },
    {
        match self {
            Self::A(a) => a.try_into_bytes(),
            Self::Aaaa(aaaa) => aaaa.try_into_bytes(),
            Self::Cname(cname) => cname.try_into_bytes(),
            Self::Mx(mx) => mx.try_into_bytes(),
            Self::Mb(mb) => mb.try_into_bytes(),
            Self::Mg(mg) => mg.try_into_bytes(),
            Self::Ns(ns) => ns.try_into_bytes(),
            Self::Soa(soa) => soa.try_into_bytes(),
            Self::Ptr(ptr) => ptr.try_into_bytes(),
            Self::Mr(mr) => mr.try_into_bytes(),
            Self::Wks(wks) => wks.try_into_bytes(),
            Self::MInfo(m_info) => m_info.try_into_bytes(),
            Self::HInfo(h_info) => h_info.try_into_bytes(),
            Self::Null(null) => null.try_into_bytes(),
            Self::Txt(txt) => txt.try_into_bytes(),
            Self::Unknown(unknown) => unknown.try_into_bytes(),
        }
    }
}

/// Parses the data of a record of type `ty` whose length stands at
/// `offset` of `packet`. What it gives can be written.
#[verifier::rlimit(50)]
pub fn rdata_parse(ty: RRType, packet: Bytes, offset: usize) -> (r: Result<
    (RRData, usize),
    PacketError,
>)
    ensures
        match r {
            Ok((data, end)) => parse_rdata(ty, bytes_seq(packet), offset as int) == Some(
                (data@, end as int),
            ) && data@.encodable(),
            Err(e) => e is FormatError && parse_rdata(ty, bytes_seq(packet), offset as int)
                is None,
        },
{
    proof {
        reveal(parse_rdata);
        if parse_rdata(ty, bytes_seq(packet), offset as int) is Some {
            super::laws::lemma_parsed_rdata_encodable(ty, bytes_seq(packet), offset as int);
        }
    }
    match ty {
        RRType::A => match A::parse(packet, offset) {
            Ok((d, end)) => Ok((RRData::A(d), end)),
            Err(e) => Err(e),
        },
        RRType::Aaaa => match Aaaa::parse(packet, offset) {
            Ok((d, end)) => Ok((RRData::Aaaa(d), end)),
            Err(e) => Err(e),
        },
        RRType::Ns => match Ns::parse(packet, offset) {
            Ok((d, end)) => Ok((RRData::Ns(d), end)),
            Err(e) => Err(e),
        },
        RRType::Cname => match Cname::parse(packet, offset) {
            Ok((d, end)) => Ok((RRData::Cname(d), end)),
            Err(e) => Err(e),
        },
        RRType::Mb => match Mb::parse(packet, offset) {
            Ok((d, end)) => Ok((RRData::Mb(d), end)),
            Err(e) => Err(e),
        },
        RRType::Mg => match Mg::parse(packet, offset) {
            Ok((d, end)) => Ok((RRData::Mg(d), end)),
            Err(e) => Err(e),
        },
        RRType::Mr => match Mr::parse(packet, offset) {
            Ok((d, end)) => Ok((RRData::Mr(d), end)),
            Err(e) => Err(e),
        },
        RRType::MInfo => match MInfo::parse(packet, offset) {
            Ok((d, end)) => Ok((RRData::MInfo(d), end)),
            Err(e) => Err(e),
        },
        RRType::HInfo => match HInfo::parse(packet, offset) {
            Ok((d, end)) => Ok((RRData::HInfo(d), end)),
            Err(e) => Err(e),
        },
        RRType::Null => match Null::parse(packet, offset) {
            Ok((d, end)) => Ok((RRData::Null(d), end)),
            Err(e) => Err(e),
        },
        RRType::Ptr => match Ptr::parse(packet, offset) {
            Ok((d, end)) => Ok((RRData::Ptr(d), end)),
            Err(e) => Err(e),
        },
        RRType::Wks => match Wks::parse(packet, offset) {
            Ok((d, end)) => Ok((RRData::Wks(d), end)),
            Err(e) => Err(e),
        },
        RRType::Soa => match SOA::parse(packet, offset) {
            Ok((d, end)) => Ok((RRData::Soa(d), end)),
            Err(e) => Err(e),
        },
        RRType::Txt => match Txt::parse(packet, offset) {
            Ok((d, end)) => Ok((RRData::Txt(d), end)),
            Err(e) => Err(e),
        },
        RRType::Mx => match Mx::parse(packet, offset) {
            Ok((d, end)) => Ok((RRData::Mx(d), end)),
            Err(e) => Err(e),
        },
        RRType::UNKNOWN(x) => match Unknown::parse_typeless(packet, offset) {
            Ok((mut unknown, end)) => {
                unknown.set_type(x);
                Ok((RRData::Unknown(unknown), end))
            },
            Err(e) => Err(e),
        },
    }
}

/// What a resource record says.
pub struct RRView {
    pub name: Seq<Seq<u8>>,
    pub class: RRClass,
    pub ttl: u32,
    pub rdata: RDataView,
}

impl RRView {
    /// The record's type: the kind of its data.
    pub open spec fn ty(self) -> RRType {
        self.rdata.ty()
    }

    /// The record can be written and read back as the same record.
    pub open spec fn wf(self) -> bool {
        &&& valid_name(self.name)
        &&& rr_class_of(rr_class_code(self.class)) == self.class
        &&& self.rdata.wf()
    }
}

/// The wire form of a record: name, type, class, time to live, and the
/// data behind its length.
pub open spec fn rr_wire(rr: RRView) -> Seq<u8> {
    name_wire(rr.name) + u16_bytes(rr_type_code(rr.ty())) + u16_bytes(rr_class_code(rr.class))
        + u32_bytes(rr.ttl) + rdata_wire(rr.rdata)
}

/// Parsing a record at `pos` of `s`: the record and the offset behind
/// it. Type, class and time to live stand behind the name, the length of
/// the data eight octets behind the name, the data itself ten.
#[verifier::opaque]
pub open spec fn parse_rr(s: Seq<u8>, pos: int) -> Option<(RRView, int)> {
    match parse_name(s, pos) {
        Some((name, name_end)) => if name_end + 8 <= s.len() {
            match parse_rdata(rr_type_of(u16_at(s, name_end)), s, name_end + 8) {
                Some((rdata, end)) => Some(
                    (
                        RRView {
                            name,
                            class: rr_class_of(u16_at(s, name_end + 2)),
                            ttl: u32_at(s, name_end + 4),
                            rdata,
                        },
                        end,
                    ),
                ),
                None => None,
            }
        } else {
            None
        },
        None => None,
    }
}

/// A record that is read within `s` ends within `s`, behind where it
/// starts.
pub proof fn lemma_parse_rr_bounds(s: Seq<u8>, pos: int)
    requires
        0 <= pos,
        parse_rr(s, pos) is Some,
    ensures
        pos < parse_rr(s, pos).unwrap().1 <= s.len(),
{
    reveal(parse_rr);
    lemma_name_end_bounds(s, pos);
    let name_end = parse_name(s, pos).unwrap().1;
    self::rdata::lemma_rdata_end_bounds(rr_type_of(u16_at(s, name_end)), s, name_end + 8);
}

/// A resource record, with the number of octets that it took in the
/// message it was parsed from.
#[derive(Debug)]
pub struct RR {
    domain: Name,
    ttl: u32,
    class: RRClass,
    size: usize,
    r_data: RRData,
}

impl RR {
    /// What the record says.
    pub closed spec fn parts(&self) -> RRView {
        RRView { name: self.domain@, class: self.class, ttl: self.ttl, rdata: self.r_data@ }
    }

    /// The number of octets that the record took in the message it was
    /// parsed from; 0 for a record that was built.
    pub closed spec fn spec_size(&self) -> usize {
        self.size
    }
}

impl View for RR {
    type V = RRView;

    open spec fn view(&self) -> RRView {
        self.parts()
    }
}

impl Clone for RR {
    fn clone(&self) -> (r: Self)
        ensures
            r@ == self@,
            r.spec_size() == self.spec_size(),
    {
        RR {
            domain: self.domain.clone(),
            ttl: self.ttl,
            class: self.class,
            size: self.size,
            r_data: self.r_data.clone(),
        }
    }
}

/// The seconds of a span of time as a record keeps them: in 32 bits,
/// what does not fit cut off.
pub open spec fn ttl_of(d: Duration) -> u32 {
    (duration_secs(d) % 0x1_0000_0000) as u32
}

impl RR {
    /// A record for `domain` with the given time to live, class and data.
    /// Its type is the kind of the data.
    pub fn new(domain: Name, ttl: Duration, class: RRClass, r_data: RRData) -> (r: Self)
        ensures
            r@ == (RRView { name: domain@, class, ttl: ttl_of(ttl), rdata: r_data@ }),
            r.spec_size() == 0,
    {
        let seconds = (ttl.as_secs() % 0x1_0000_0000) as u32;
        RR { domain, ttl: seconds, class, size: 0, r_data }
    }

    pub fn get_domain(&self) -> (r: Name)
        ensures
            r@ == self@.name,
    {
        self.domain.clone()
    }

    pub fn get_type(&self) -> (r: RRType)
        ensures
            r == self@.ty(),
    {
        self.r_data.get_type()
    }

    pub fn get_class(&self) -> (r: RRClass)
        ensures
            r == self@.class,
    {
        self.class
    }

    /// What the record costs the cache.
    pub fn cost(&self) -> (r: u32)
        ensures
            r == rdata_cost(self@.rdata),
    {
        self.r_data.cost()
    }

    pub fn into_rdata(self) -> (r: RRData)
        ensures
            r@ == self@.rdata,
    {
        self.r_data
    }

    /// The time to live, a whole number of seconds.
    pub fn get_ttl(&self) -> (r: Duration)
        ensures
            duration_secs(r) == self@.ttl,
            duration_subsec_nanos(r) == 0,
    {
        Duration::from_secs(self.ttl as u64)
    }

    /// The time to live in seconds.
    pub fn ttl_secs(&self) -> (r: u32)
        ensures
            r == self@.ttl,
    {
        self.ttl
    }

    pub fn set_ttl(&mut self, ttl: Duration)
        ensures
            final(self)@ == (RRView { ttl: ttl_of(ttl), ..old(self)@ }),
            final(self).spec_size() == old(self).spec_size(),
    {
        self.ttl = (ttl.as_secs() % 0x1_0000_0000) as u32;
    }

    /// The number of octets that the record took in the message it was
    /// parsed from.
    #[inline]
    pub fn size(&self) -> (r: usize)
        ensures
            r == self.spec_size(),
    {
        self.size
    }

    /// Parses the record that starts at `pos` of `packet`. What it gives
    /// is well formed.
    #[verifier::rlimit(50)]
    pub fn parse(packet: Bytes, pos: usize) -> (r: Result<Self, PacketError>)
        ensures
            match r {
                Ok(rr) => parse_rr(bytes_seq(packet), pos as int) == Some(
                    (rr@, pos + rr.spec_size()),
                ) && rr@.wf(),
                Err(e) => e is FormatError && parse_rr(bytes_seq(packet), pos as int) is None,
            },
    {
        let len = packet.len();
        proof {
            reveal(parse_rr);
        }
        let (domain, name_end) = match Name::parse(packet.clone(), pos) {
            Ok(found) => found,
            Err(e) => {
                return Err(e);
            },
        };
        proof {
            lemma_name_end_bounds(bytes_seq(packet), pos as int);
        }
        if len - name_end < 8 {
            return Err(PacketError::FormatError);
        }
        let ty = RRType::from(read_u16(&packet, name_end).unwrap());
        let class = RRClass::from(read_u16(&packet, name_end + 2).unwrap());
        let ttl = read_u32(&packet, name_end + 4).unwrap();
        let rdata_begin = name_end + 8;
        let (rdata, rdata_end) = match rdata_parse(ty, packet.clone(), rdata_begin) {
            Ok(found) => found,
            Err(e) => {
                return Err(e);
            },
        };
        proof {
            self::rdata::lemma_rdata_end_bounds(ty, bytes_seq(packet), rdata_begin as int);
        }
        let size = rdata_end - pos;
        proof {
            super::laws::lemma_parsed_rr_wf(bytes_seq(packet), pos as int);
        }
        Ok(Self { domain, class, ttl, size, r_data: rdata })
    }

    /// The record's wire form, or the error of its data where that cannot
    /// be written.
    pub fn into_bytes(self) -> (r: Result<BytesMut, PacketError>)
        ensures
            match r {
                Ok(buf) => self@.rdata.encodable() && buf_seq(buf) == rr_wire(self@),
                Err(e) => !self@.rdata.encodable() && e.spec_rcode() == write_fault(
                    self@.rdata,
                ),
            },
    {
        let mut buf = BytesMut::new();
        let name = self.domain.as_bytes_uncompressed();
        buf_put_slice(&mut buf, buf_as_slice(&name));
        buf_put_u16(&mut buf, self.r_data.get_type().into());
        buf_put_u16(&mut buf, self.class.into());
        buf_put_u32(&mut buf, self.ttl);
        let rdata = match self.r_data.try_into_bytes() {
            Ok(rdata) => rdata,
            Err(e) => {
                return Err(e);
            },
        };
        buf_put_slice(&mut buf, buf_as_slice(&rdata));
        Ok(buf)
    }
}

} // verus!
