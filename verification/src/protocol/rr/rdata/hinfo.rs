//! Record data of host information.

use super::{hinfo_at, rdata_wire, RDataView, Rdata};
use crate::buffer::{
    buf_put_slice, buf_put_u16, buf_put_u8, buf_seq, bytes_seq, copy_range, read_u16, read_u8,
};
use crate::protocol::error::PacketError;
use crate::text::clone_octets;
use bytes::{Bytes, BytesMut};
use vstd::prelude::*;

verus! {

/// The CPU and the operating system of a host, as character strings.
#[derive(Debug)]
pub struct HInfo {
    cpu: Vec<u8>,
    os: Vec<u8>,
}

impl HInfo {
    /// The two strings held.
    pub closed spec fn parts(&self) -> (Seq<u8>, Seq<u8>) {
        (self.cpu@, self.os@)
    }
}

impl View for HInfo {
    type V = RDataView;

    open spec fn view(&self) -> RDataView {
        RDataView::HInfo(self.parts().0, self.parts().1)
    }
}

impl Clone for HInfo {
    fn clone(&self) -> (r: Self)
        ensures
            r@ == self@,
    {
        HInfo { cpu: clone_octets(&self.cpu), os: clone_octets(&self.os) }
    }
}

impl HInfo {
    /// The data with the given strings.
    pub fn new(cpu: Vec<u8>, os: Vec<u8>) -> (r: Self)
        ensures
            r@ == RDataView::HInfo(cpu@, os@),
    {
        Self { cpu, os }
    }

    /// The CPU string.
    pub fn get_cpu(&self) -> (r: Vec<u8>)
        ensures
            self@ is HInfo,
            r@ == self@->HInfo_0,
    {
        clone_octets(&self.cpu)
    }

    /// The operating system string.
    pub fn get_os(&self) -> (r: Vec<u8>)
        ensures
            self@ is HInfo,
            r@ == self@->HInfo_1,
    {
        clone_octets(&self.os)
    }

    /// Parses the data whose length stands at `pos` of `packet`: two
    /// character strings within the length.
    pub fn parse(packet: Bytes, pos: usize) -> (r: Result<(Self, usize), PacketError>)
        ensures
            match r {
                Ok((data, end)) => hinfo_at(bytes_seq(packet), pos as int) == Some(
                    (data@, end as int),
                ) && data@.wf(),
                Err(e) => e is FormatError && hinfo_at(bytes_seq(packet), pos as int) is None,
            },
    {
        let len = packet.len();
        let rdlen = match read_u16(&packet, pos) {
            Some(length) => length as usize,
            None => {
                return Err(PacketError::FormatError);
            },
        };
        if len - (pos + 2) < rdlen || rdlen < 2 {
            return Err(PacketError::FormatError);
        }
        let end = pos + 2 + rdlen;
        let c_len = read_u8(&packet, pos + 2).unwrap() as usize;
        if c_len + 1 >= rdlen {
            return Err(PacketError::FormatError);
        }
        let cpu = copy_range(&packet, pos + 3, pos + 3 + c_len);
        let o_len = read_u8(&packet, pos + 3 + c_len).unwrap() as usize;
        if c_len + 1 + o_len + 1 > rdlen {
            return Err(PacketError::FormatError);
        }
        let os = copy_range(&packet, pos + 4 + c_len, pos + 4 + c_len + o_len);
        Ok((Self { cpu, os }, end))
    }

    /// The data's wire form: the length and the two strings, each behind
    /// its own length. A format error where a string has more than 255
    /// octets.
    pub fn try_into_bytes(&self) -> (r: Result<BytesMut, PacketError>)
        ensures
            match r {
                Ok(buf) => self@.encodable() && buf_seq(buf) == rdata_wire(self@),
                Err(e) => e is FormatError && !self@.encodable(),
            },
    {
        if self.cpu.len() > 255 || self.os.len() > 255 {
            return Err(PacketError::FormatError);
        }
        let total_len = self.cpu.len() + self.os.len() + 2;
        let mut buf = BytesMut::with_capacity(total_len + 2);
        buf_put_u16(&mut buf, total_len as u16);
        buf_put_u8(&mut buf, self.cpu.len() as u8);
        buf_put_slice(&mut buf, self.cpu.as_slice());
        buf_put_u8(&mut buf, self.os.len() as u8);
        buf_put_slice(&mut buf, self.os.as_slice());
        assert(buf_seq(buf) =~= rdata_wire(self@));
        Ok(buf)
    }
}

impl Rdata for HInfo {
    open spec fn at(s: Seq<u8>, pos: int) -> Option<(RDataView, int)> {
        hinfo_at(s, pos)
    }

    fn parse(packet: Bytes, pos: usize) -> (r: Result<(Self, usize), PacketError>) {
        HInfo::parse(packet, pos)
    }

    fn try_into_bytes(&self) -> (r: Result<BytesMut, PacketError>) {
        HInfo::try_into_bytes(self)
    }
}

} // verus!
