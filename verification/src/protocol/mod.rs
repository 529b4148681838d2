//! DNS messages: what they hold and how they look on the wire.

pub mod domain;
pub mod error;
pub mod header;
pub mod laws;
pub mod packet;
pub mod question;
pub mod rr;
pub mod types;

pub use self::domain::Name;
pub use self::error::{IpAddress, PacketError, TransactionError};
pub use self::header::Header;
pub use self::packet::Packet;
pub use self::question::{Fingerprint, Question};
pub use self::rr::{RRData, RR};
pub use self::types::{RRClass, RRType};
