//! Record data of well-known services.

use super::{rdata_wire, try_into_rdata_length, wks_at, RDataView, Rdata};
use crate::buffer::{
    buf_put_slice, buf_put_u16, buf_put_u32, buf_put_u8, buf_seq, bytes_seq, copy_range, read_u16,
    read_u32, read_u8,
};
use crate::protocol::error::PacketError;
use crate::text::clone_octets;
use bytes::{Bytes, BytesMut};
use vstd::prelude::*;

verus! {

/// The services that a host offers over one protocol, as a bitmap of
/// ports.
#[derive(Debug)]
pub struct Wks {
    addr: u32,
    proto: u8,
    bmp: Vec<u8>,
}

impl Wks {
    /// The address, the protocol and the bitmap held.
    pub closed spec fn parts(&self) -> (u32, u8, Seq<u8>) {
        (self.addr, self.proto, self.bmp@)
    }
}

impl View for Wks {
    type V = RDataView;

    open spec fn view(&self) -> RDataView {
        RDataView::Wks(self.parts().0, self.parts().1, self.parts().2)
    }
}

impl Clone for Wks {
    fn clone(&self) -> (r: Self)
        ensures
            r@ == self@,
    {
        Wks { addr: self.addr, proto: self.proto, bmp: clone_octets(&self.bmp) }
    }
}

impl Wks {
    /// The data with the given address, protocol and bitmap.
    pub fn new(addr: u32, proto: u8, bmp: Vec<u8>) -> (r: Self)
        ensures
            r@ == RDataView::Wks(addr, proto, bmp@),
    {
        Self { addr, proto, bmp }
    }

    /// The address.
    pub fn get_addr(&self) -> (r: u32)
        ensures
            self@ is Wks,
            r == self@->Wks_0,
    {
        self.addr
    }

    /// The protocol.
    pub fn get_proto(&self) -> (r: u8)
        ensures
            self@ is Wks,
            r == self@->Wks_1,
    {
        self.proto
    }

    /// The bitmap.
    pub fn get_bitmap(&self) -> (r: Vec<u8>)
        ensures
            self@ is Wks,
            r@ == self@->Wks_2,
    {
        clone_octets(&self.bmp)
    }

    /// Parses the data whose length stands at `pos` of `packet`: an
    /// address, a protocol, and a bitmap that fills the rest of the
    /// length.
    pub fn parse(packet: Bytes, pos: usize) -> (r: Result<(Self, usize), PacketError>)
        ensures
            match r {
                Ok((data, end)) => wks_at(bytes_seq(packet), pos as int) == Some(
                    (data@, end as int),
                ) && data@.wf(),
                Err(e) => e is FormatError && wks_at(bytes_seq(packet), pos as int) is None,
            },
    {
        let len = packet.len();
        let rdata_length = match read_u16(&packet, pos) {
            Some(length) => length as usize,
            None => {
                return Err(PacketError::FormatError);
            },
        };
        if len - (pos + 2) < rdata_length || rdata_length < 5 {
            return Err(PacketError::FormatError);
        }
        let end = rdata_length + pos + 2;
        let addr = read_u32(&packet, pos + 2).unwrap();
        let proto = read_u8(&packet, pos + 6).unwrap();
        let bmp = copy_range(&packet, pos + 7, end);
        proof {
            crate::buffer::lemma_int_bytes_len();
        }
        Ok((Wks { addr, proto, bmp }, end))
    }

    /// The data's wire form: the length, the address, the protocol and
    /// the bitmap. A server failure where the length does not fit 16
    /// bits.
    pub fn try_into_bytes(&self) -> (r: Result<BytesMut, PacketError>)
        ensures
            match r {
                Ok(buf) => self@.encodable() && buf_seq(buf) == rdata_wire(self@),
                Err(e) => e is ServFail && !self@.encodable(),
            },
    {
        proof {
            crate::buffer::lemma_int_bytes_len();
        }
        if self.bmp.len() > 0xffff {
            return Err(PacketError::ServFail);
        }
        let len = match try_into_rdata_length(self.bmp.len() + 5) {
            Ok(n) => n,
            Err(e) => {
                return Err(e);
            },
        };
        let mut buf = BytesMut::new();
        buf_put_u16(&mut buf, len);
        buf_put_u32(&mut buf, self.addr);
        buf_put_u8(&mut buf, self.proto);
        buf_put_slice(&mut buf, self.bmp.as_slice());
        assert(buf_seq(buf) =~= rdata_wire(self@));
        Ok(buf)
    }
}

impl Rdata for Wks {
    open spec fn at(s: Seq<u8>, pos: int) -> Option<(RDataView, int)> {
        wks_at(s, pos)
    }

    fn parse(packet: Bytes, pos: usize) -> (r: Result<(Self, usize), PacketError>) {
        Wks::parse(packet, pos)
    }

    fn try_into_bytes(&self) -> (r: Result<BytesMut, PacketError>) {
        Wks::try_into_bytes(self)
    }
}

} // verus!
