//! What can go wrong with a DNS message, and how a fault is reported to
//! the peer.

use super::domain::Name;
use super::header::{Op, Rcode};
use vstd::prelude::*;

verus! {

/// An IP address as a plain number: the peer that a refusal names.
#[derive(Clone, Copy, Debug, PartialEq, Eq, Structural)]
pub enum IpAddress {
    V4(u32),
    V6(u128),
}

/// A fault found while handling a DNS message.
#[derive(Debug)]
pub enum PacketError {
    /// The wire data is malformed.
    FormatError,
    /// The server could not serve; a stream decoder also reports a clean
    /// end of stream this way.
    ServFail,
    /// The name does not exist.
    NameError(Name),
    /// The operation is not implemented.
    NotImpl(Op),
    /// The peer is refused.
    Refused(IpAddress),
}

/// What a fault says.
pub enum PacketErrorView {
    FormatError,
    ServFail,
    NameError(Seq<Seq<u8>>),
    NotImpl(Op),
    Refused(IpAddress),
}

impl View for PacketError {
    type V = PacketErrorView;

    open spec fn view(&self) -> PacketErrorView {
        match self {
            PacketError::FormatError => PacketErrorView::FormatError,
            PacketError::ServFail => PacketErrorView::ServFail,
            PacketError::NameError(name) => PacketErrorView::NameError(name@),
            PacketError::NotImpl(op) => PacketErrorView::NotImpl(*op),
            PacketError::Refused(addr) => PacketErrorView::Refused(*addr),
        }
    }
}

impl PacketErrorView {
    /// The response code that reports this fault.
    pub open spec fn rcode(self) -> Rcode {
        match self {
            PacketErrorView::FormatError => Rcode::FormatError,
            PacketErrorView::ServFail => Rcode::ServFail,
            PacketErrorView::NameError(_) => Rcode::NameError,
            PacketErrorView::NotImpl(_) => Rcode::NotImpl,
            PacketErrorView::Refused(_) => Rcode::Refused,
        }
    }
}

impl Clone for PacketError {
    fn clone(&self) -> (r: Self)
        ensures
            r@ == self@,
    {
        match self {
            PacketError::FormatError => PacketError::FormatError,
            PacketError::ServFail => PacketError::ServFail,
            PacketError::NameError(name) => PacketError::NameError(name.clone()),
            PacketError::NotImpl(op) => PacketError::NotImpl(*op),
            PacketError::Refused(addr) => PacketError::Refused(*addr),
        }
    }
}

impl PacketError {
    /// The response code that reports this fault.
    pub open spec fn spec_rcode(&self) -> Rcode {
        match self {
            PacketError::FormatError => Rcode::FormatError,
            PacketError::ServFail => Rcode::ServFail,
            PacketError::NameError(_) => Rcode::NameError,
            PacketError::NotImpl(_) => Rcode::NotImpl,
            PacketError::Refused(_) => Rcode::Refused,
        }
    }

    /// The response code that reports this fault to the peer.
    #[verifier::when_used_as_spec(spec_rcode)]
    pub fn rcode(&self) -> (r: Rcode)
        ensures
            r == self.spec_rcode(),
    {
        match self {
            PacketError::FormatError => Rcode::FormatError,
            PacketError::ServFail => Rcode::ServFail,
            PacketError::NameError(_) => Rcode::NameError,
            PacketError::NotImpl(_) => Rcode::NotImpl,
            PacketError::Refused(_) => Rcode::Refused,
        }
    }
}

/// A fault together with the id of the transaction it belongs to, where
/// the header was read far enough to know it.
#[derive(Debug)]
pub struct TransactionError {
    pub id: Option<u16>,
    pub error: PacketError,
}

impl Clone for TransactionError {
    fn clone(&self) -> (r: Self)
        ensures
            r.id == self.id,
            r.error@ == self.error@,
    {
        TransactionError { id: self.id, error: self.error.clone() }
    }
}

/// A fault as the codec's specification names it: the transaction id, if
/// known, and the response code of the fault.
pub type Fault = (Option<u16>, Rcode);

impl TransactionError {
    /// The id and response code of this fault.
    pub open spec fn fault(&self) -> Fault {
        (self.id, self.error.spec_rcode())
    }
}

} // verus!
