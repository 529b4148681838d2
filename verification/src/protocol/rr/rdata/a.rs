//! Record data of an IPv4 address.

use super::{a_at, rdata_wire, RDataView, Rdata};
use crate::buffer::{buf_put_u16, buf_put_u32, buf_seq, bytes_seq, read_u16, read_u32};
use crate::protocol::error::PacketError;
use bytes::{Bytes, BytesMut};
use vstd::prelude::*;

verus! {

/// An IPv4 address, as the 32-bit number that its four octets spell.
#[derive(PartialEq, Eq, Clone, Copy, Debug, Structural)]
pub struct A {
    addr: u32,
}

impl A {
    /// The address held.
    pub closed spec fn parts(&self) -> u32 {
        self.addr
    }
}

impl View for A {
    type V = RDataView;

    open spec fn view(&self) -> RDataView {
        RDataView::A(self.parts())
    }
}

impl A {
    /// The record data for the address `addr`.
    pub fn from(addr: u32) -> (r: Self)
        ensures
            r@ == RDataView::A(addr),
    {
        Self { addr }
    }

    /// The address.
    pub fn addr(&self) -> (r: u32)
        ensures
            self@ == RDataView::A(r),
    {
        self.addr
    }

    /// Parses the data whose length stands at `pos` of `packet`: the
    /// length must be 4.
    pub fn parse(packet: Bytes, pos: usize) -> (r: Result<(Self, usize), PacketError>)
        ensures
            match r {
                Ok((data, end)) => a_at(bytes_seq(packet), pos as int) == Some(
                    (data@, end as int),
                ) && data@.wf(),
                Err(e) => e is FormatError && a_at(bytes_seq(packet), pos as int) is None,
            },
    {
        let len = packet.len();
        if pos > len || len - pos < 6 {
            return Err(PacketError::FormatError);
        }
        let length = read_u16(&packet, pos).unwrap();
        if length != 4 {
            Err(PacketError::FormatError)
        } else {
            let addr = read_u32(&packet, pos + 2).unwrap();
            proof {
                crate::buffer::lemma_int_bytes_len();
            }
            Ok((Self { addr }, pos + 6))
        }
    }

    /// The data's wire form: the length 4 and the address.
    pub fn try_into_bytes(&self) -> (r: Result<BytesMut, PacketError>)
        ensures
            r is Ok,
            buf_seq(r.unwrap()) == rdata_wire(self@),
    {
        let mut buf = BytesMut::with_capacity(2 + 4);
        buf_put_u16(&mut buf, 4);
        buf_put_u32(&mut buf, self.addr);
        proof {
            crate::buffer::lemma_int_bytes_len();
        }
        Ok(buf)
    }
}

impl Rdata for A {
    open spec fn at(s: Seq<u8>, pos: int) -> Option<(RDataView, int)> {
        a_at(s, pos)
    }

    fn parse(packet: Bytes, pos: usize) -> (r: Result<(Self, usize), PacketError>) {
        A::parse(packet, pos)
    }

    fn try_into_bytes(&self) -> (r: Result<BytesMut, PacketError>) {
        A::try_into_bytes(self)
    }
}

} // verus!
