//! Record data of the start of a zone of authority.

use super::{rdata_wire, soa_at, try_into_rdata_length, RDataView, Rdata, SoaView};
use crate::buffer::{
    buf_as_slice, buf_put_slice, buf_put_u16, buf_put_u32, buf_seq, bytes_seq, read_u16, read_u32,
};
use crate::protocol::domain::{lemma_name_end_bounds, lemma_name_wire_len, Name};
use crate::protocol::error::PacketError;
use bytes::{Bytes, BytesMut};
use vstd::prelude::*;

verus! {

/// The start of a zone of authority.
#[derive(Debug, PartialEq, Eq)]
pub struct SOA {
    mname: Name,
    rname: Name,
    serial: u32,
    refresh: u32,
    retry: u32,
    expires: u32,
    minimum: u32,
}

impl SOA {
    /// The fields held.
    pub closed spec fn parts(&self) -> SoaView {
        SoaView {
            mname: self.mname@,
            rname: self.rname@,
            serial: self.serial,
            refresh: self.refresh,
            retry: self.retry,
            expires: self.expires,
            minimum: self.minimum,
        }
    }
}

impl View for SOA {
    type V = RDataView;

    open spec fn view(&self) -> RDataView {
        RDataView::Soa(self.parts())
    }
}

impl Clone for SOA {
    fn clone(&self) -> (r: Self)
        ensures
            r@ == self@,
    {
        SOA {
            mname: self.mname.clone(),
            rname: self.rname.clone(),
            serial: self.serial,
            refresh: self.refresh,
            retry: self.retry,
            expires: self.expires,
            minimum: self.minimum,
        }
    }
}

impl SOA {
    /// The data with the given primary server, responsible mailbox and
    /// timers.
    pub fn new(
        mname: Name,
        rname: Name,
        serial: u32,
        refresh: u32,
        retry: u32,
        expires: u32,
        minimum: u32,
    ) -> (r: Self)
        ensures
            r@ == RDataView::Soa(
                SoaView { mname: mname@, rname: rname@, serial, refresh, retry, expires, minimum },
            ),
    {
        Self { mname, rname, serial, refresh, retry, expires, minimum }
    }

    /// Parses the data whose length stands at `pos` of `packet`: two
    /// names and five numbers that fill the length exactly.
    pub fn parse(packet: Bytes, pos: usize) -> (r: Result<(Self, usize), PacketError>)
        ensures
            match r {
                Ok((data, end)) => soa_at(bytes_seq(packet), pos as int) == Some(
                    (data@, end as int),
                ) && data@.wf(),
                Err(e) => e is FormatError && soa_at(bytes_seq(packet), pos as int) is None,
            },
    {
        let packet_len = packet.len();
        let length = match read_u16(&packet, pos) {
            Some(length) => length as usize,
            None => {
                return Err(PacketError::FormatError);
            },
        };
        let begin = pos + 2;
        let (mname, m_end) = match Name::parse(packet.clone(), begin) {
            Ok(found) => found,
            Err(e) => {
                return Err(e);
            },
        };
        proof {
            lemma_name_end_bounds(bytes_seq(packet), begin as int);
        }
        let (rname, r_end) = match Name::parse(packet.clone(), m_end) {
            Ok(found) => found,
            Err(e) => {
                return Err(e);
            },
        };
        proof {
            lemma_name_end_bounds(bytes_seq(packet), m_end as int);
        }
        if packet_len - r_end < 20 {
            return Err(PacketError::FormatError);
        }
        let serial = read_u32(&packet, r_end).unwrap();
        let refresh = read_u32(&packet, r_end + 4).unwrap();
        let retry = read_u32(&packet, r_end + 8).unwrap();
        let expires = read_u32(&packet, r_end + 12).unwrap();
        let minimum = read_u32(&packet, r_end + 16).unwrap();
        let end = r_end + 20;
        if end - begin != length {
            Err(PacketError::FormatError)
        } else {
            proof {
                lemma_name_wire_len(mname@);
                lemma_name_wire_len(rname@);
                crate::buffer::lemma_int_bytes_len();
            }
            Ok((SOA { mname, rname, serial, refresh, retry, expires, minimum }, end))
        }
    }

    /// The data's wire form: the length, the two names uncompressed, and
    /// the five numbers.
    pub fn to_bytes(&self) -> (r: Result<BytesMut, PacketError>)
        ensures
            r is Ok,
            buf_seq(r.unwrap()) == rdata_wire(self@),
            self@.wf(),
    {
        proof {
            use_type_invariant(&self.mname);
            use_type_invariant(&self.rname);
            lemma_name_wire_len(self.mname@);
            lemma_name_wire_len(self.rname@);
            crate::buffer::lemma_int_bytes_len();
        }
        let mname = self.mname.as_bytes_uncompressed();
        let rname = self.rname.as_bytes_uncompressed();
        let length = mname.len() + rname.len() + 4 * 5;
        let rdlength = match try_into_rdata_length(length) {
            Ok(n) => n,
            Err(e) => {
                return Err(e);
            },
        };
        let mut buf = BytesMut::with_capacity(length + 2);
        buf_put_u16(&mut buf, rdlength);
        buf_put_slice(&mut buf, buf_as_slice(&mname));
        buf_put_slice(&mut buf, buf_as_slice(&rname));
        buf_put_u32(&mut buf, self.serial);
        buf_put_u32(&mut buf, self.refresh);
        buf_put_u32(&mut buf, self.retry);
        buf_put_u32(&mut buf, self.expires);
        buf_put_u32(&mut buf, self.minimum);
        assert(buf_seq(buf) =~= rdata_wire(self@));
        Ok(buf)
    }

    /// The data's wire form.
    pub fn try_into_bytes(&self) -> (r: Result<BytesMut, PacketError>)
        ensures
            r is Ok,
            buf_seq(r.unwrap()) == rdata_wire(self@),
            self@.wf(),
    {
        self.to_bytes()
    }
}

impl Rdata for SOA {
    open spec fn at(s: Seq<u8>, pos: int) -> Option<(RDataView, int)> {
        soa_at(s, pos)
    }

    fn parse(packet: Bytes, pos: usize) -> (r: Result<(Self, usize), PacketError>) {
        SOA::parse(packet, pos)
    }

    fn try_into_bytes(&self) -> (r: Result<BytesMut, PacketError>) {
        SOA::try_into_bytes(self)
    }
}

} // verus!
