//! Record data of a mail exchange.

use super::{mx_at, rdata_wire, try_into_rdata_length, RDataView, Rdata};
use crate::buffer::{
    buf_as_slice, buf_put_slice, buf_put_u16, buf_seq, bytes_seq, read_u16,
};
use crate::protocol::domain::{lemma_name_wire_len, Name};
use crate::protocol::error::PacketError;
use bytes::{Bytes, BytesMut};
use vstd::prelude::*;

verus! {

/// A mail exchange and the preference given to it.
#[derive(Debug, PartialEq, Eq)]
pub struct Mx {
    preference: u16,
    domain: Name,
}

impl Mx {
    /// The preference and the labels of the exchange.
    pub closed spec fn parts(&self) -> (u16, Seq<Seq<u8>>) {
        (self.preference, self.domain@)
    }
}

impl View for Mx {
    type V = RDataView;

    open spec fn view(&self) -> RDataView {
        RDataView::Mx(self.parts().0, self.parts().1)
    }
}

impl Clone for Mx {
    fn clone(&self) -> (r: Self)
        ensures
            r@ == self@,
    {
        Mx { preference: self.preference, domain: self.domain.clone() }
    }
}

impl Mx {
    /// The data for the exchange `domain` with the given preference.
    pub fn new(preference: u16, domain: Name) -> (r: Self)
        ensures
            r@ == RDataView::Mx(preference, domain@),
    {
        Self { preference, domain }
    }

    pub fn get_preference(&self) -> (r: u16)
        ensures
            r == self@->Mx_0,
            self@ is Mx,
    {
        self.preference
    }

    pub fn get_domain(&self) -> (r: Name)
        ensures
            r@ == self@->Mx_1,
            self@ is Mx,
    {
        self.domain.clone()
    }

    /// Parses the data whose length stands at `pos` of `packet`: a
    /// preference and a name that fills the rest of the length.
    pub fn parse(packet: Bytes, pos: usize) -> (r: Result<(Self, usize), PacketError>)
        ensures
            match r {
                Ok((data, end)) => mx_at(bytes_seq(packet), pos as int) == Some(
                    (data@, end as int),
                ) && data@.wf(),
                Err(e) => e is FormatError && mx_at(bytes_seq(packet), pos as int) is None,
            },
    {
        let len = packet.len();
        if pos > len || len - pos < 4 {
            return Err(PacketError::FormatError);
        }
        let length = read_u16(&packet, pos).unwrap() as usize;
        let preference = read_u16(&packet, pos + 2).unwrap();
        if length < 3 {
            return Err(PacketError::FormatError);
        }
        let (domain, domain_end) = match Name::parse(packet.clone(), pos + 4) {
            Ok(found) => found,
            Err(e) => {
                return Err(e);
            },
        };
        proof {
            crate::protocol::domain::lemma_name_end_bounds(bytes_seq(packet), pos + 4);
        }
        if domain_end - (pos + 2) == length {
            proof {
                lemma_name_wire_len(domain@);
                crate::buffer::lemma_int_bytes_len();
            }
            Ok((Mx { preference, domain }, domain_end))
        } else {
            Err(PacketError::FormatError)
        }
    }

    /// The data's wire form: the length, the preference, and the name
    /// uncompressed.
    pub fn try_into_bytes(&self) -> (r: Result<BytesMut, PacketError>)
        ensures
            r is Ok,
            buf_seq(r.unwrap()) == rdata_wire(self@),
            self@.wf(),
    {
        proof {
            use_type_invariant(&self.domain);
            lemma_name_wire_len(self.domain@);
            crate::buffer::lemma_int_bytes_len();
        }
        let v = self.domain.as_bytes_uncompressed();
        let mut buf = BytesMut::with_capacity(v.len() + 4);
        let rdlength = match try_into_rdata_length(v.len()) {
            Ok(n) => n,
            Err(e) => {
                return Err(e);
            },
        };
        buf_put_u16(&mut buf, rdlength + 2);
        buf_put_u16(&mut buf, self.preference);
        buf_put_slice(&mut buf, buf_as_slice(&v));
        assert(buf_seq(buf) =~= rdata_wire(self@));
        Ok(buf)
    }
}

impl Rdata for Mx {
    open spec fn at(s: Seq<u8>, pos: int) -> Option<(RDataView, int)> {
        mx_at(s, pos)
    }

    fn parse(packet: Bytes, pos: usize) -> (r: Result<(Self, usize), PacketError>) {
        Mx::parse(packet, pos)
    }

    fn try_into_bytes(&self) -> (r: Result<BytesMut, PacketError>) {
        Mx::try_into_bytes(self)
    }
}

} // verus!
