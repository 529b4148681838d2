//! The type and the class of a resource record.

use crate::text::{decimal, decimal_string};
use vstd::prelude::*;
use vstd::string::StringExecFns;
use vstd::std_specs::convert::FromSpecImpl;

verus! {

/// Type of a resource record.
#[derive(PartialEq, Eq, Debug, Copy, Clone, Hash, Structural)]
pub enum RRType {
    A,
    Ns,
    Cname,
    Soa,
    Mb,
    Mg,
    Mr,
    Null,
    Wks,
    Ptr,
    HInfo,
    MInfo,
    Mx,
    Txt,
    Aaaa,
    UNKNOWN(u16),
}

/// The record type that a code stands for.
pub open spec fn rr_type_of(value: u16) -> RRType {
    if value == 1 {
        RRType::A
    } else if value == 2 {
        RRType::Ns
    } else if value == 5 {
        RRType::Cname
    } else if value == 6 {
        RRType::Soa
    } else if value == 7 {
        RRType::Mb
    } else if value == 8 {
        RRType::Mg
    } else if value == 9 {
        RRType::Mr
    } else if value == 10 {
        RRType::Null
    } else if value == 11 {
        RRType::Wks
    } else if value == 12 {
        RRType::Ptr
    } else if value == 13 {
        RRType::HInfo
    } else if value == 14 {
        RRType::MInfo
    } else if value == 15 {
        RRType::Mx
    } else if value == 16 {
        RRType::Txt
    } else if value == 28 {
        RRType::Aaaa
    } else {
        RRType::UNKNOWN(value)
    }
}

/// The code of a record type.
pub open spec fn rr_type_code(ty: RRType) -> u16 {
    match ty {
        RRType::A => 1,
        RRType::Ns => 2,
        RRType::Cname => 5,
        RRType::Soa => 6,
        RRType::Mb => 7,
        RRType::Mg => 8,
        RRType::Mr => 9,
        RRType::Null => 10,
        RRType::Wks => 11,
        RRType::Ptr => 12,
        RRType::HInfo => 13,
        RRType::MInfo => 14,
        RRType::Mx => 15,
        RRType::Txt => 16,
        RRType::Aaaa => 28,
        RRType::UNKNOWN(value) => value,
    }
}

impl From<u16> for RRType {
    fn from(value: u16) -> (r: Self)
        ensures
            r == rr_type_of(value),
    {
        match value {
            1 => RRType::A,
            2 => RRType::Ns,
            5 => RRType::Cname,
            6 => RRType::Soa,
            7 => RRType::Mb,
            8 => RRType::Mg,
            9 => RRType::Mr,
            10 => RRType::Null,
            11 => RRType::Wks,
            12 => RRType::Ptr,
            13 => RRType::HInfo,
            14 => RRType::MInfo,
            15 => RRType::Mx,
            16 => RRType::Txt,
            28 => RRType::Aaaa,
            value => RRType::UNKNOWN(value),
        }
    }
}

impl FromSpecImpl<u16> for RRType {
    open spec fn obeys_from_spec() -> bool {
        true
    }

    open spec fn from_spec(value: u16) -> Self {
        rr_type_of(value)
    }
}

impl From<RRType> for u16 {
    fn from(key: RRType) -> (r: Self)
        ensures
            r == rr_type_code(key),
    {
        match key {
            RRType::A => 1,
            RRType::Ns => 2,
            RRType::Cname => 5,
            RRType::Soa => 6,
            RRType::Mb => 7,
            RRType::Mg => 8,
            RRType::Mr => 9,
            RRType::Null => 10,
            RRType::Wks => 11,
            RRType::Ptr => 12,
            RRType::HInfo => 13,
            RRType::MInfo => 14,
            RRType::Mx => 15,
            RRType::Txt => 16,
            RRType::Aaaa => 28,
            RRType::UNKNOWN(value) => value,
        }
    }
}

impl FromSpecImpl<RRType> for u16 {
    open spec fn obeys_from_spec() -> bool {
        true
    }

    open spec fn from_spec(key: RRType) -> Self {
        rr_type_code(key)
    }
}

/// A record type without a name as text: the word `UNKNOWN` and the
/// code in decimal between round brackets.
pub open spec fn unknown_type_text(code: u16) -> Seq<char> {
    "UNKNOWN("@ + decimal(code as nat) + ")"@
}

/// A record type without a name as text.
fn unknown_type(code: u16) -> (s: String)
    ensures
        s@ == unknown_type_text(code),
{
    let mut s = "UNKNOWN(".to_owned();
    let digits = decimal_string(code);
    s.append(digits.as_str());
    s.append(")");
    s
}

/// The mnemonic of a record type, and the code in words for a type that
/// has none.
pub open spec fn rr_type_name(ty: RRType) -> Seq<char> {
    match ty {
        RRType::A => "A"@,
        RRType::Ns => "NS"@,
        RRType::Cname => "CNAME"@,
        RRType::Soa => "SOA"@,
        RRType::Mb => "MB"@,
        RRType::Mg => "MG"@,
        RRType::Mr => "MR"@,
        RRType::Null => "NULL"@,
        RRType::Wks => "WKS"@,
        RRType::Ptr => "PTR"@,
        RRType::HInfo => "HINFO"@,
        RRType::MInfo => "MINFO"@,
        RRType::Mx => "MX"@,
        RRType::Txt => "TXT"@,
        RRType::Aaaa => "AAAA"@,
        RRType::UNKNOWN(value) => unknown_type_text(value),
    }
}

impl RRType {
    /// The record type's mnemonic.
    pub fn to_string(&self) -> (s: String)
        ensures
            s@ == rr_type_name(*self),
    {
        match *self {
            RRType::A => "A".to_owned(),
            RRType::Ns => "NS".to_owned(),
            RRType::Cname => "CNAME".to_owned(),
            RRType::Soa => "SOA".to_owned(),
            RRType::Mb => "MB".to_owned(),
            RRType::Mg => "MG".to_owned(),
            RRType::Mr => "MR".to_owned(),
            RRType::Null => "NULL".to_owned(),
            RRType::Wks => "WKS".to_owned(),
            RRType::Ptr => "PTR".to_owned(),
            RRType::HInfo => "HINFO".to_owned(),
            RRType::MInfo => "MINFO".to_owned(),
            RRType::Mx => "MX".to_owned(),
            RRType::Txt => "TXT".to_owned(),
            RRType::Aaaa => "AAAA".to_owned(),
            RRType::UNKNOWN(val) => unknown_type(val),
        }
    }
}

/// Class of a resource record.
#[derive(PartialEq, Eq, Debug, Copy, Clone, Hash, Structural)]
pub enum RRClass {
    Reserved,
    Internet,
    Chaos,
    Hesiod,
    Unknown(u16),
}

/// The class that a code stands for.
pub open spec fn rr_class_of(value: u16) -> RRClass {
    if value == 0 {
        RRClass::Reserved
    } else if value == 1 {
        RRClass::Internet
    } else if value == 3 {
        RRClass::Chaos
    } else if value == 4 {
        RRClass::Hesiod
    } else {
        RRClass::Unknown(value)
    }
}

/// The code of a class.
pub open spec fn rr_class_code(class: RRClass) -> u16 {
    match class {
        RRClass::Reserved => 0,
        RRClass::Internet => 1,
        RRClass::Chaos => 3,
        RRClass::Hesiod => 4,
        RRClass::Unknown(value) => value,
    }
}

impl From<u16> for RRClass {
    fn from(value: u16) -> (r: Self)
        ensures
            r == rr_class_of(value),
    {
        match value {
            0 => RRClass::Reserved,
            1 => RRClass::Internet,
            3 => RRClass::Chaos,
            4 => RRClass::Hesiod,
            value => RRClass::Unknown(value),
        }
    }
}

impl FromSpecImpl<u16> for RRClass {
    open spec fn obeys_from_spec() -> bool {
        true
    }

    open spec fn from_spec(value: u16) -> Self {
        rr_class_of(value)
    }
}

impl From<RRClass> for u16 {
    fn from(key: RRClass) -> (r: Self)
        ensures
            r == rr_class_code(key),
    {
        match key {
            RRClass::Reserved => 0,
            RRClass::Internet => 1,
            RRClass::Chaos => 3,
            RRClass::Hesiod => 4,
            RRClass::Unknown(value) => value,
        }
    }
}

impl FromSpecImpl<RRClass> for u16 {
    open spec fn obeys_from_spec() -> bool {
        true
    }

    open spec fn from_spec(key: RRClass) -> Self {
        rr_class_code(key)
    }
}

/// A code and its record type stand for each other.
pub proof fn lemma_rr_type_code(value: u16)
    ensures
        rr_type_code(rr_type_of(value)) == value,
{
}

/// A code and its class stand for each other.
pub proof fn lemma_rr_class_code(value: u16)
    ensures
        rr_class_code(rr_class_of(value)) == value,
{
}

} // verus!
