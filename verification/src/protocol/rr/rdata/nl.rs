//! Record data of any octets.

use super::{octets_at, rdata_wire, try_into_rdata_length, RDataView, Rdata};
use crate::buffer::{buf_put_slice, buf_put_u16, buf_seq, bytes_seq, copy_range, read_u16};
use crate::protocol::error::PacketError;
use crate::text::clone_octets;
use bytes::{Bytes, BytesMut};
use vstd::prelude::*;

verus! {

/// Octets with no meaning given to them.
#[derive(Debug)]
pub struct Null {
    data: Vec<u8>,
}

impl Null {
    /// The octets held.
    pub closed spec fn parts(&self) -> Seq<u8> {
        self.data@
    }
}

impl View for Null {
    type V = RDataView;

    open spec fn view(&self) -> RDataView {
        RDataView::Null(self.parts())
    }
}

impl Clone for Null {
    fn clone(&self) -> (r: Self)
        ensures
            r@ == self@,
    {
        Null { data: clone_octets(&self.data) }
    }
}

impl Null {
    /// The data that holds `data`.
    pub fn new(data: Vec<u8>) -> (r: Self)
        ensures
            r@ == RDataView::Null(data@),
    {
        Self { data }
    }

    /// The octets held.
    pub fn get_data(&self) -> (r: Vec<u8>)
        ensures
            self@ == RDataView::Null(r@),
    {
        clone_octets(&self.data)
    }

    /// Parses the data whose length stands at `pos` of `packet`: as many
    /// octets as the length says.
    pub fn parse(packet: Bytes, pos: usize) -> (r: Result<(Self, usize), PacketError>)
        ensures
            match r {
                Ok((data, end)) => octets_at(bytes_seq(packet), pos as int) == Some(
                    (data@->Null_0, end as int),
                ) && data@ is Null && data@.wf(),
                Err(e) => e is FormatError && octets_at(bytes_seq(packet), pos as int) is None,
            },
    {
        let packet_len = packet.len();
        let len = match read_u16(&packet, pos) {
            Some(length) => length as usize,
            None => {
                return Err(PacketError::FormatError);
            },
        };
        if packet_len - (pos + 2) < len {
            return Err(PacketError::FormatError);
        }
        let end = len + pos + 2;
        let data = copy_range(&packet, pos + 2, end);
        Ok((Null { data }, end))
    }

    /// The data's wire form: the length and the octets. A server failure
    /// where the length does not fit 16 bits.
    pub fn try_into_bytes(&self) -> (r: Result<BytesMut, PacketError>)
        ensures
            match r {
                Ok(buf) => self@.encodable() && buf_seq(buf) == rdata_wire(self@),
                Err(e) => e is ServFail && !self@.encodable(),
            },
    {
        let len = match try_into_rdata_length(self.data.len()) {
            Ok(n) => n,
            Err(e) => {
                return Err(e);
            },
        };
        let mut buf = BytesMut::new();
        buf_put_u16(&mut buf, len);
        buf_put_slice(&mut buf, self.data.as_slice());
        Ok(buf)
    }
}

impl Rdata for Null {
    open spec fn at(s: Seq<u8>, pos: int) -> Option<(RDataView, int)> {
        match octets_at(s, pos) {
            Some((data, end)) => Some((RDataView::Null(data), end)),
            None => None,
        }
    }

    fn parse(packet: Bytes, pos: usize) -> (r: Result<(Self, usize), PacketError>) {
        Null::parse(packet, pos)
    }

    fn try_into_bytes(&self) -> (r: Result<BytesMut, PacketError>) {
        Null::try_into_bytes(self)
    }
}

} // verus!
