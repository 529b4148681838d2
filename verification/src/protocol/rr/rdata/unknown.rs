//! Record data of a type that has no name here.

use super::{octets_at, rdata_wire, try_into_rdata_length, RDataView, Rdata};
use crate::buffer::{
    buf_put_slice, buf_put_u16, buf_seq, bytes_as_slice, bytes_seq, copy_range, read_u16, u16_at,
};
use crate::protocol::error::PacketError;
use crate::protocol::types::RRType;
use bytes::{Bytes, BytesMut};
use vstd::prelude::*;

verus! {

/// The type code given to data that was parsed without one.
pub const TYPELESS: u16 = 255;

/// The octets of a record of an unknown type, kept as they came, with the
/// code of the type.
#[derive(Debug)]
pub struct Unknown {
    rtype: u16,
    data: Bytes,
}

impl Unknown {
    /// The type code and the octets held.
    pub closed spec fn parts(&self) -> (u16, Seq<u8>) {
        (self.rtype, bytes_seq(self.data))
    }
}

impl View for Unknown {
    type V = RDataView;

    open spec fn view(&self) -> RDataView {
        RDataView::Unknown(self.parts().0, self.parts().1)
    }
}

impl Clone for Unknown {
    fn clone(&self) -> (r: Self)
        ensures
            r@ == self@,
    {
        Unknown { rtype: self.rtype, data: self.data.clone() }
    }
}

/// The data of a record that stands with its whole header in `s`, its
/// length at `pos`: the type code is read eight octets before the
/// length.
pub open spec fn typed_octets_at(s: Seq<u8>, pos: int) -> Option<(RDataView, int)> {
    if 8 <= pos <= s.len() {
        match octets_at(s, pos) {
            Some((data, end)) => Some((RDataView::Unknown(u16_at(s, pos - 8), data), end)),
            None => None,
        }
    } else {
        None
    }
}

impl Unknown {
    /// The data of type code `rtype` that holds `data`.
    pub fn new(rtype: u16, data: Bytes) -> (r: Self)
        ensures
            r@ == RDataView::Unknown(rtype, bytes_seq(data)),
    {
        Self { rtype, data }
    }

    pub fn get_type(&self) -> (r: RRType)
        ensures
            self@ is Unknown,
            r == RRType::UNKNOWN(self@->Unknown_0),
    {
        RRType::UNKNOWN(self.rtype)
    }

    pub fn set_type(&mut self, rtype: u16)
        ensures
            old(self)@ is Unknown,
            final(self)@ == RDataView::Unknown(rtype, old(self)@->Unknown_1),
    {
        self.rtype = rtype;
    }

    /// The octets held.
    pub fn get_data(&self) -> (r: Bytes)
        ensures
            self@ is Unknown,
            bytes_seq(r) == self@->Unknown_1,
    {
        self.data.clone()
    }

    /// Parses the data whose length stands at `pos` of `packet`, and
    /// gives it the type code 255.
    pub fn parse_typeless(packet: Bytes, pos: usize) -> (r: Result<(Self, usize), PacketError>)
        ensures
            match r {
                Ok((data, end)) => octets_at(bytes_seq(packet), pos as int) == Some(
                    (data@->Unknown_1, end as int),
                ) && data@ is Unknown && data@->Unknown_0 == TYPELESS && data@.encodable(),
                Err(e) => e is FormatError && octets_at(bytes_seq(packet), pos as int) is None,
            },
    {
        let packet_len = packet.len();
        let length = match read_u16(&packet, pos) {
            Some(length) => length as usize,
            None => {
                return Err(PacketError::FormatError);
            },
        };
        if packet_len - (pos + 2) < length {
            return Err(PacketError::FormatError);
        }
        let end = pos + 2 + length;
        let octets = copy_range(&packet, pos + 2, end);
        let data = Bytes::copy_from_slice(octets.as_slice());
        Ok((Self { rtype: TYPELESS, data }, end))
    }

    /// Parses the data whose length stands at `pos` of `packet`, and
    /// reads its type code from the record's header, eight octets before.
    /// For use on a whole record only.
    pub fn parse(packet: Bytes, pos: usize) -> (r: Result<(Self, usize), PacketError>)
        ensures
            match r {
                Ok((data, end)) => typed_octets_at(bytes_seq(packet), pos as int) == Some(
                    (data@, end as int),
                ) && data@.encodable(),
                Err(e) => e is FormatError && typed_octets_at(bytes_seq(packet), pos as int)
                    is None,
            },
    {
        let packet_len = packet.len();
        if pos < 8 || pos > packet_len {
            return Err(PacketError::FormatError);
        }
        let tp = read_u16(&packet, pos - 8).unwrap();
        match Self::parse_typeless(packet, pos) {
            Ok((mut unknown, end)) => {
                unknown.set_type(tp);
                Ok((unknown, end))
            },
            Err(e) => Err(e),
        }
    }

    /// The data's wire form: the length and the octets. A server failure
    /// where the length does not fit 16 bits.
    pub fn try_into_bytes(&self) -> (r: Result<BytesMut, PacketError>)
        ensures
            match r {
                Ok(buf) => self@.encodable() && buf_seq(buf) == rdata_wire(self@),
                Err(e) => e is ServFail && !self@.encodable(),
            },
    {
        let len = match try_into_rdata_length(self.data.len()) {
            Ok(n) => n,
            Err(e) => {
                return Err(e);
            },
        };
        let mut buf = BytesMut::with_capacity(self.data.len() + 2);
        buf_put_u16(&mut buf, len);
        buf_put_slice(&mut buf, bytes_as_slice(&self.data));
        Ok(buf)
    }
}

impl Rdata for Unknown {
    open spec fn at(s: Seq<u8>, pos: int) -> Option<(RDataView, int)> {
        typed_octets_at(s, pos)
    }

    fn parse(packet: Bytes, pos: usize) -> (r: Result<(Self, usize), PacketError>) {
        Unknown::parse(packet, pos)
    }

    fn try_into_bytes(&self) -> (r: Result<BytesMut, PacketError>) {
        Unknown::try_into_bytes(self)
    }
}

} // verus!
