//! The question of a DNS message: a name, a record type and a class.

use super::domain::{name_text_len, name_wire, parse_name, text_labels, valid_name, Name};
use super::error::PacketError;
use super::types::{rr_class_code, rr_class_of, rr_type_code, rr_type_of, RRClass, RRType};
use crate::buffer::{
    buf_as_slice, buf_put_slice, buf_put_u16, buf_seq, bytes_seq, read_u16, u16_at, u16_bytes,
};
use bytes::{Bytes, BytesMut};
use vstd::prelude::*;
use vstd::string::StringSliceAdditionalSpecFns;

verus! {

/// What a question asks.
pub struct QuestionView {
    pub name: Seq<Seq<u8>>,
    pub ty: RRType,
    pub class: RRClass,
}

impl QuestionView {
    /// The name is valid, and type and class are written as their codes
    /// read.
    pub open spec fn wf(self) -> bool {
        &&& valid_name(self.name)
        &&& rr_type_of(rr_type_code(self.ty)) == self.ty
        &&& rr_class_of(rr_class_code(self.class)) == self.class
    }
}

/// The wire form of a question: the name, then type and class.
pub open spec fn question_wire(q: QuestionView) -> Seq<u8> {
    name_wire(q.name) + u16_bytes(rr_type_code(q.ty)) + u16_bytes(rr_class_code(q.class))
}

/// Parsing a question at `pos` of `s`: the question and the offset behind
/// it, or nothing where the name is malformed or type and class are cut
/// off.
pub open spec fn parse_question(s: Seq<u8>, pos: int) -> Option<(QuestionView, int)> {
    match parse_name(s, pos) {
        Some((name, end)) => if end + 4 <= s.len() {
            Some(
                (
                    QuestionView {
                        name,
                        ty: rr_type_of(u16_at(s, end)),
                        class: rr_class_of(u16_at(s, end + 2)),
                    },
                    end + 4,
                ),
            )
        } else {
            None
        },
        None => None,
    }
}

/// A question that is read within `s` ends within `s`, behind where it
/// starts.
pub proof fn lemma_parse_question_bounds(s: Seq<u8>, pos: int)
    requires
        0 <= pos,
        parse_question(s, pos) is Some,
    ensures
        pos < parse_question(s, pos).unwrap().1 <= s.len(),
{
    super::domain::lemma_name_end_bounds(s, pos);
}

/// A question, with the number of octets that it takes in its message.
#[derive(Debug)]
pub struct Question {
    name: Name,
    ty: RRType,
    class: RRClass,
    size: usize,
}

impl View for Question {
    type V = QuestionView;

    closed spec fn view(&self) -> QuestionView {
        QuestionView { name: self.name@, ty: self.ty, class: self.class }
    }
}

impl Clone for Question {
    fn clone(&self) -> (r: Self)
        ensures
            r@ == self@,
            r.spec_size() == self.spec_size(),
    {
        Question { name: self.name.clone(), ty: self.ty, class: self.class, size: self.size }
    }
}

/// What a question asks, as the key under which its answer is kept and
/// under which lookups for it are joined: two questions have the same
/// fingerprint if they ask the same, wherever they were read.
#[derive(Debug, PartialEq, Eq, Hash)]
pub struct Fingerprint {
    name: Name,
    ty: RRType,
    class: RRClass,
}

impl View for Fingerprint {
    type V = QuestionView;

    closed spec fn view(&self) -> QuestionView {
        QuestionView { name: self.name@, ty: self.ty, class: self.class }
    }
}

impl Clone for Fingerprint {
    fn clone(&self) -> (r: Self)
        ensures
            r@ == self@,
    {
        Fingerprint { name: self.name.clone(), ty: self.ty, class: self.class }
    }
}

impl Fingerprint {
    /// The question that asks this.
    pub fn question(&self) -> (r: Question)
        ensures
            r@ == self@,
            r.spec_size() == name_text_len(self@.name) + 5,
    {
        Question::build(self.name.clone(), self.ty, self.class)
    }
}

impl Question {
    /// The number of octets that the question is recorded to take in its
    /// message.
    pub closed spec fn spec_size(&self) -> usize {
        self.size
    }

    /// What the question asks, as a key.
    pub fn fingerprint(&self) -> (r: Fingerprint)
        ensures
            r@ == self@,
    {
        Fingerprint { name: self.name.clone(), ty: self.ty, class: self.class }
    }

    /// A question for `name`, `ty` and `class`. Its recorded size is the
    /// length of the name as text, one more, and four for type and class.
    pub fn build(name: Name, ty: RRType, class: RRClass) -> (r: Self)
        ensures
            r@ == (QuestionView { name: name@, ty, class }),
            r.spec_size() == name_text_len(name@) + 5,
    {
        proof {
            use_type_invariant(&name);
        }
        let size = name.len() + 1 + 2 * 2;
        Self { name, ty, class, size }
    }

    pub fn get_name(&self) -> (r: Name)
        ensures
            r@ == self@.name,
    {
        self.name.clone()
    }

    pub fn get_type(&self) -> (r: RRType)
        ensures
            r == self@.ty,
    {
        self.ty
    }

    pub fn get_class(&self) -> (r: RRClass)
        ensures
            r == self@.class,
    {
        self.class
    }

    pub fn set_name(&mut self, name: Name)
        ensures
            final(self)@ == (QuestionView { name: name@, ..old(self)@ }),
            final(self).spec_size() == old(self).spec_size(),
    {
        self.name = name;
    }

    /// Sets the name from text that spells a valid name.
    pub fn set_name_unchecked(&mut self, name: &str)
        requires
            valid_name(text_labels(name.spec_bytes())),
        ensures
            final(self)@ == (QuestionView {
                name: text_labels(name.spec_bytes()),
                ..old(self)@
            }),
            final(self).spec_size() == old(self).spec_size(),
    {
        match Name::try_from(name) {
            Ok(name) => {
                self.name = name;
            },
            Err(_) => {
                assert(false);
            },
        }
    }

    /// The number of octets that the question takes in its message.
    pub fn size(&self) -> (r: usize)
        ensures
            r == self.spec_size(),
    {
        self.size
    }

    /// Parses the question that starts at `pos` of `packet`.
    pub fn parse(packet: Bytes, pos: usize) -> (r: Result<Self, PacketError>)
        ensures
            match r {
                Ok(q) => parse_question(bytes_seq(packet), pos as int) == Some(
                    (q@, pos + q.spec_size()),
                ) && q@.wf(),
                Err(e) => e is FormatError && parse_question(bytes_seq(packet), pos as int)
                    is None,
            },
    {
        let len = packet.len();
        let (name, end) = match Name::parse(packet.clone(), pos) {
            Ok(found) => found,
            Err(e) => {
                return Err(e);
            },
        };
        proof {
            super::domain::lemma_name_end_bounds(bytes_seq(packet), pos as int);
        }
        if len - end < 4 {
            return Err(PacketError::FormatError);
        }
        let ty = RRType::from(read_u16(&packet, end).unwrap());
        let class = RRClass::from(read_u16(&packet, end + 2).unwrap());
        let size = end + 4 - pos;
        Ok(Self { name, ty, class, size })
    }

    /// The question's wire form.
    pub fn into_bytes(self) -> (r: Result<BytesMut, PacketError>)
        ensures
            r is Ok,
            buf_seq(r.unwrap()) == question_wire(self@),
    {
        let mut buf = BytesMut::with_capacity(259);
        let name = self.name.as_bytes_uncompressed();
        buf_put_slice(&mut buf, buf_as_slice(&name));
        buf_put_u16(&mut buf, u16::from(self.ty));
        buf_put_u16(&mut buf, u16::from(self.class));
        Ok(buf)
    }
}

} // verus!
