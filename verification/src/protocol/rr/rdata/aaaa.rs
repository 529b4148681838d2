//! Record data of an IPv6 address.

use super::{aaaa_at, rdata_wire, RDataView, Rdata};
use crate::buffer::{buf_put_u128, buf_put_u16, buf_seq, bytes_seq, read_u128, read_u16};
use crate::protocol::error::PacketError;
use bytes::{Bytes, BytesMut};
use vstd::prelude::*;

verus! {

/// An IPv6 address, as the 128-bit number that its sixteen octets spell.
#[derive(Clone, Copy, PartialEq, Eq, Debug, Structural)]
pub struct Aaaa {
    addr: u128,
}

impl Aaaa {
    /// The address held.
    pub closed spec fn parts(&self) -> u128 {
        self.addr
    }
}

impl View for Aaaa {
    type V = RDataView;

    open spec fn view(&self) -> RDataView {
        RDataView::Aaaa(self.parts())
    }
}

impl Aaaa {
    /// The record data for the address `addr`.
    pub fn from(addr: u128) -> (r: Self)
        ensures
            r@ == RDataView::Aaaa(addr),
    {
        Self { addr }
    }

    /// The address.
    pub fn addr(&self) -> (r: u128)
        ensures
            self@ == RDataView::Aaaa(r),
    {
        self.addr
    }

    /// Parses the data whose length stands at `pos` of `packet`: the
    /// length must be 16.
    pub fn parse(packet: Bytes, pos: usize) -> (r: Result<(Self, usize), PacketError>)
        ensures
            match r {
                Ok((data, end)) => aaaa_at(bytes_seq(packet), pos as int) == Some(
                    (data@, end as int),
                ) && data@.wf(),
                Err(e) => e is FormatError && aaaa_at(bytes_seq(packet), pos as int) is None,
            },
    {
        let len = packet.len();
        if pos > len || len - pos < 18 {
            return Err(PacketError::FormatError);
        }
        let length = read_u16(&packet, pos).unwrap();
        if length != 16 {
            Err(PacketError::FormatError)
        } else {
            let addr = read_u128(&packet, pos + 2).unwrap();
            proof {
                crate::buffer::lemma_int_bytes_len();
            }
            Ok((Self { addr }, pos + 18))
        }
    }

    /// The data's wire form: the length 16 and the address.
    pub fn try_into_bytes(&self) -> (r: Result<BytesMut, PacketError>)
        ensures
            r is Ok,
            buf_seq(r.unwrap()) == rdata_wire(self@),
    {
        let mut buf = BytesMut::with_capacity(18);
        buf_put_u16(&mut buf, 16);
        buf_put_u128(&mut buf, self.addr);
        proof {
            crate::buffer::lemma_int_bytes_len();
        }
        Ok(buf)
    }
}

impl Rdata for Aaaa {
    open spec fn at(s: Seq<u8>, pos: int) -> Option<(RDataView, int)> {
        aaaa_at(s, pos)
    }

    fn parse(packet: Bytes, pos: usize) -> (r: Result<(Self, usize), PacketError>) {
        Aaaa::parse(packet, pos)
    }

    fn try_into_bytes(&self) -> (r: Result<BytesMut, PacketError>) {
        Aaaa::try_into_bytes(self)
    }
}

} // verus!
