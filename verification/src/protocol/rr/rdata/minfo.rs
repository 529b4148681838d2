//! Record data of mailbox information.

use super::{minfo_at, rdata_wire, RDataView, Rdata};
use crate::buffer::{buf_as_slice, buf_put_slice, buf_put_u16, buf_seq, bytes_seq};
use crate::protocol::domain::{lemma_name_end_bounds, lemma_name_wire_len, Name};
use crate::protocol::error::PacketError;
use bytes::{Bytes, BytesMut};
use vstd::prelude::*;

verus! {

/// The mailbox responsible for a list and the mailbox for its errors.
#[derive(Debug)]
pub struct MInfo {
    r_mail_box: Name,
    e_mail_box: Name,
}

impl MInfo {
    /// The labels of the two mailboxes held.
    pub closed spec fn parts(&self) -> (Seq<Seq<u8>>, Seq<Seq<u8>>) {
        (self.r_mail_box@, self.e_mail_box@)
    }
}

impl View for MInfo {
    type V = RDataView;

    open spec fn view(&self) -> RDataView {
        RDataView::MInfo(self.parts().0, self.parts().1)
    }
}

impl Clone for MInfo {
    fn clone(&self) -> (r: Self)
        ensures
            r@ == self@,
    {
        MInfo { r_mail_box: self.r_mail_box.clone(), e_mail_box: self.e_mail_box.clone() }
    }
}

impl MInfo {
    /// The data with the given mailboxes.
    pub fn new(r_mail_box: Name, e_mail_box: Name) -> (r: Self)
        ensures
            r@ == RDataView::MInfo(r_mail_box@, e_mail_box@),
    {
        Self { r_mail_box, e_mail_box }
    }

    /// The responsible mailbox.
    pub fn get_r_mail_box(&self) -> (r: Name)
        ensures
            self@ is MInfo,
            r@ == self@->MInfo_0,
    {
        self.r_mail_box.clone()
    }

    /// The error mailbox.
    pub fn get_e_mail_box(&self) -> (r: Name)
        ensures
            self@ is MInfo,
            r@ == self@->MInfo_1,
    {
        self.e_mail_box.clone()
    }

    /// Parses the data whose length stands at `pos` of `packet`: two
    /// names back to back. The data ends where the second name ends.
    pub fn parse(packet: Bytes, pos: usize) -> (r: Result<(Self, usize), PacketError>)
        ensures
            match r {
                Ok((data, end)) => minfo_at(bytes_seq(packet), pos as int) == Some(
                    (data@, end as int),
                ) && data@.wf(),
                Err(e) => e is FormatError && minfo_at(bytes_seq(packet), pos as int) is None,
            },
    {
        let len = packet.len();
        if pos > len || len - pos < 2 {
            return Err(PacketError::FormatError);
        }
        let (r_mail_box, m_end) = match Name::parse(packet.clone(), pos + 2) {
            Ok(found) => found,
            Err(e) => {
                return Err(e);
            },
        };
        let (e_mail_box, end) = match Name::parse(packet.clone(), m_end) {
            Ok(found) => found,
            Err(e) => {
                return Err(e);
            },
        };
        proof {
            lemma_name_wire_len(r_mail_box@);
            lemma_name_wire_len(e_mail_box@);
        }
        Ok((MInfo { r_mail_box, e_mail_box }, end))
    }

    /// The data's wire form: the length and the two names uncompressed.
    pub fn try_into_bytes(&self) -> (r: Result<BytesMut, PacketError>)
        ensures
            r is Ok,
            buf_seq(r.unwrap()) == rdata_wire(self@),
            self@.wf(),
    {
        proof {
            use_type_invariant(&self.r_mail_box);
            use_type_invariant(&self.e_mail_box);
            lemma_name_wire_len(self.r_mail_box@);
            lemma_name_wire_len(self.e_mail_box@);
        }
        let n1 = self.r_mail_box.as_bytes_uncompressed();
        let n2 = self.e_mail_box.as_bytes_uncompressed();
        let len = (n1.len() + n2.len()) as u16;
        let mut buf = BytesMut::new();
        buf_put_u16(&mut buf, len);
        buf_put_slice(&mut buf, buf_as_slice(&n1));
        buf_put_slice(&mut buf, buf_as_slice(&n2));
        assert(buf_seq(buf) =~= rdata_wire(self@));
        Ok(buf)
    }
}

impl Rdata for MInfo {
    open spec fn at(s: Seq<u8>, pos: int) -> Option<(RDataView, int)> {
        minfo_at(s, pos)
    }

    fn parse(packet: Bytes, pos: usize) -> (r: Result<(Self, usize), PacketError>) {
        MInfo::parse(packet, pos)
    }

    fn try_into_bytes(&self) -> (r: Result<BytesMut, PacketError>) {
        MInfo::try_into_bytes(self)
    }
}

} // verus!
