//! Record data that names a mail rename name.

use super::{
    name_rdata_at, name_rdata_bytes, named_at, parse_name_rdata, rdata_wire, RDataView, Rdata,
};
use crate::buffer::{buf_seq, bytes_seq};
use crate::protocol::domain::{decode_name_text, valid_name, Name};
use crate::protocol::error::PacketError;
use crate::protocol::types::RRType;
use bytes::{Bytes, BytesMut};
use vstd::prelude::*;

verus! {

/// The data of a record that names a mail rename name.
#[derive(Debug, PartialEq, Eq)]
pub struct Mr {
    domain: Name,
}

impl Mr {
    /// The labels of the name held.
    pub closed spec fn parts(&self) -> Seq<Seq<u8>> {
        self.domain@
    }
}

impl View for Mr {
    type V = RDataView;

    open spec fn view(&self) -> RDataView {
        RDataView::Mr(self.parts())
    }
}

impl Clone for Mr {
    fn clone(&self) -> (r: Self)
        ensures
            r@ == self@,
    {
        Mr { domain: self.domain.clone() }
    }
}

impl Mr {
    /// The data that names `name`.
    pub fn from(name: Name) -> (r: Self)
        ensures
            r@ == RDataView::Mr(name@),
    {
        Self { domain: name }
    }

    /// The name that the data holds.
    pub fn into_name(self) -> (r: Name)
        ensures
            self@ == RDataView::Mr(r@),
    {
        self.domain
    }

    /// Parses the data whose length stands at `pos` of `packet`: one
    /// name that fills the length exactly.
    pub fn parse(packet: Bytes, pos: usize) -> (r: Result<(Self, usize), PacketError>)
        ensures
            match r {
                Ok((data, end)) => name_rdata_at(bytes_seq(packet), pos as int) == Some(
                    (data@->Mr_0, end as int),
                ) && data@ is Mr && data@.wf(),
                Err(e) => e is FormatError && name_rdata_at(bytes_seq(packet), pos as int)
                    is None,
            },
    {
        match parse_name_rdata(&packet, pos) {
            Ok((domain, end)) => {
                proof {
                    use_type_invariant(&domain);
                    crate::protocol::domain::lemma_name_wire_len(domain@);
                }
                Ok((Self { domain }, end))
            },
            Err(e) => Err(e),
        }
    }

    /// The data's wire form: its length, then the name uncompressed.
    pub fn try_into_bytes(&self) -> (r: Result<BytesMut, PacketError>)
        ensures
            r is Ok,
            buf_seq(r.unwrap()) == rdata_wire(self@),
            self@.wf(),
    {
        proof {
            use_type_invariant(&self.domain);
        }
        name_rdata_bytes(&self.domain)
    }

    /// The name as text.
    pub fn to_string(&self) -> (s: String)
        ensures
            s@ == decode_name_text(self@->Mr_0),
    {
        self.domain.to_string()
    }
}

impl Rdata for Mr {
    open spec fn at(s: Seq<u8>, pos: int) -> Option<(RDataView, int)> {
        named_at(RRType::Mr, s, pos)
    }

    fn parse(packet: Bytes, pos: usize) -> (r: Result<(Self, usize), PacketError>) {
        Mr::parse(packet, pos)
    }

    fn try_into_bytes(&self) -> (r: Result<BytesMut, PacketError>) {
        Mr::try_into_bytes(self)
    }
}

} // verus!
