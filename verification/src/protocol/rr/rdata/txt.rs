//! Record data of text.

use super::{rdata_wire, strings_in, strings_wire, txt_at, RDataView, Rdata};
use crate::buffer::{
    buf_put_slice, buf_put_u16, buf_put_u8, buf_seq, bytes_seq, copy_range, read_u16, read_u8,
};
use crate::protocol::error::PacketError;
use crate::text::{
    clone_octets, list_string, list_text, octets_string, octets_text, string_from_utf8,
    texts_view,
};
use bytes::{Bytes, BytesMut};
use vstd::prelude::*;
use vstd::string::StringExecFns;
use vstd::utf8::{decode_utf8, valid_utf8};

verus! {

/// Character strings.
#[derive(Debug)]
pub struct Txt {
    text: Vec<Vec<u8>>,
}

/// The strings that a vector of octet vectors holds.
pub open spec fn strings_view(v: Seq<Vec<u8>>) -> Seq<Seq<u8>> {
    Seq::new(v.len(), |i: int| v[i]@)
}

impl Txt {
    /// The strings held.
    pub closed spec fn parts(&self) -> Seq<Seq<u8>> {
        strings_view(self.text@)
    }
}

impl View for Txt {
    type V = RDataView;

    open spec fn view(&self) -> RDataView {
        RDataView::Txt(self.parts())
    }
}

/// Copies a vector of octet vectors.
fn clone_strings(text: &Vec<Vec<u8>>) -> (r: Vec<Vec<u8>>)
    ensures
        strings_view(r@) == strings_view(text@),
{
    let mut out: Vec<Vec<u8>> = Vec::new();
    let n = text.len();
    let mut i: usize = 0;
    while i < n
        invariant
            n == text@.len(),
            0 <= i <= n,
            out@.len() == i,
            forall|j: int| 0 <= j < i ==> (#[trigger] out@[j])@ == text@[j]@,
        decreases n - i,
    {
        out.push(clone_octets(&text[i]));
        i += 1;
    }
    assert(strings_view(out@) =~= strings_view(text@));
    out
}

impl Clone for Txt {
    fn clone(&self) -> (r: Self)
        ensures
            r@ == self@,
    {
        Txt { text: clone_strings(&self.text) }
    }
}

/// The strings of a text record as lines: every string decoded, with a
/// line feed behind it.
pub open spec fn lines_text(strings: Seq<Seq<u8>>) -> Seq<char>
    decreases strings.len(),
{
    if strings.len() == 0 {
        Seq::empty()
    } else {
        lines_text(strings.drop_last()) + decode_utf8(strings.last()) + seq!['\n']
    }
}

/// Every string is well-formed UTF-8.
pub open spec fn all_utf8(strings: Seq<Seq<u8>>) -> bool {
    forall|i: int| 0 <= i < strings.len() ==> valid_utf8(#[trigger] strings[i])
}

/// The pieces of a text between white space, as `str::split_whitespace`
/// finds them, each as its UTF-8 octets.
pub uninterp spec fn whitespace_pieces(text: Seq<char>) -> Seq<Seq<u8>>;

/// `str::split_whitespace`: the pieces of the text between white space,
/// in order, each copied out as octets.
#[verifier::external_body]
fn split_whitespace(s: &str) -> (r: Vec<Vec<u8>>)
    ensures
        strings_view(r@) == whitespace_pieces(s@),
{
    s.split_whitespace().map(|p| p.as_bytes().to_vec()).collect()
}

/// Strings that are not text, as a list of lists of numbers: the octets
/// of each string in decimal.
pub open spec fn octets_debug_text(strings: Seq<Seq<u8>>) -> Seq<char> {
    list_text(Seq::new(strings.len(), |i: int| octets_text(strings[i])))
}

/// The strings as a list of lists of numbers.
fn octets_debug(text: &Vec<Vec<u8>>) -> (s: String)
    ensures
        s@ == octets_debug_text(strings_view(text@)),
{
    let mut lists: Vec<String> = Vec::new();
    let n = text.len();
    let mut i: usize = 0;
    while i < n
        invariant
            n == text@.len(),
            0 <= i <= n,
            lists@.len() == i,
            forall|j: int| 0 <= j < i ==> (#[trigger] lists@[j])@ == octets_text(text@[j]@),
        decreases n - i,
    {
        lists.push(octets_string(&text[i]));
        i += 1;
    }
    assert(texts_view(lists@) =~= Seq::new(
        strings_view(text@).len(),
        |i: int| octets_text(strings_view(text@)[i]),
    ));
    list_string(&lists)
}

/// One more string goes on the wire behind the others, with its length.
pub proof fn lemma_strings_wire_push(strings: Seq<Seq<u8>>, last: Seq<u8>)
    ensures
        strings_wire(strings.push(last)) == strings_wire(strings) + seq![last.len() as u8] + last,
    decreases strings.len(),
{
    reveal_with_fuel(strings_wire, 2);
    if strings.len() == 0 {
        assert(strings.push(last).drop_first() =~= Seq::<Seq<u8>>::empty());
        assert(strings_wire(strings.push(last)) =~= strings_wire(strings) + seq![
            last.len() as u8,
        ] + last);
    } else {
        assert(strings.push(last).drop_first() =~= strings.drop_first().push(last));
        lemma_strings_wire_push(strings.drop_first(), last);
        assert(strings_wire(strings.push(last)) =~= strings_wire(strings) + seq![
            last.len() as u8,
        ] + last);
    }
}

/// Strings put together go on the wire as they go apart, one lot behind
/// the other.
pub proof fn lemma_strings_wire_add(a: Seq<Seq<u8>>, b: Seq<Seq<u8>>)
    ensures
        strings_wire(a + b) == strings_wire(a) + strings_wire(b),
    decreases b.len(),
{
    if b.len() == 0 {
        assert(a + b =~= a);
        assert(strings_wire(a) + strings_wire(b) =~= strings_wire(a));
    } else {
        assert(a + b =~= (a + b.drop_last()).push(b.last()));
        lemma_strings_wire_add(a, b.drop_last());
        lemma_strings_wire_push(a + b.drop_last(), b.last());
        assert(b =~= b.drop_last().push(b.last()));
        lemma_strings_wire_push(b.drop_last(), b.last());
        assert(strings_wire(a + b) =~= strings_wire(a) + strings_wire(b));
    }
}

/// `strings` put before what the rest of the data gives.
pub open spec fn prepend_strings(strings: Seq<Seq<u8>>, rest: Option<Seq<Seq<u8>>>) -> Option<
    Seq<Seq<u8>>,
> {
    match rest {
        Some(r) => Some(strings + r),
        None => None,
    }
}

impl Txt {
    /// The data that holds `text`.
    pub fn new(text: Vec<Vec<u8>>) -> (r: Self)
        ensures
            r@ == RDataView::Txt(strings_view(text@)),
    {
        Self { text }
    }

    /// The data whose strings are the pieces of `s` between white space.
    pub fn from(s: String) -> (r: Self)
        ensures
            r@ == RDataView::Txt(whitespace_pieces(s@)),
    {
        Self::new(split_whitespace(s.as_str()))
    }

    /// The strings held.
    pub fn get_text(&self) -> (r: Vec<Vec<u8>>)
        ensures
            self@ == RDataView::Txt(strings_view(r@)),
    {
        clone_strings(&self.text)
    }

    /// The strings as lines of text. A format error where one of them is
    /// not UTF-8.
    pub fn try_into_string(&self) -> (r: Result<String, PacketError>)
        ensures
            self@ is Txt,
            match r {
                Ok(s) => all_utf8(self@->Txt_0) && s@ == lines_text(self@->Txt_0),
                Err(e) => e is FormatError && !all_utf8(self@->Txt_0),
            },
    {
        let mut st = String::new();
        let n = self.text.len();
        let ghost strings = strings_view(self.text@);
        let mut i: usize = 0;
        while i < n
            invariant
                n == self.text@.len(),
                strings == strings_view(self.text@),
                0 <= i <= n,
                all_utf8(strings.take(i as int)),
                st@ == lines_text(strings.take(i as int)),
            decreases n - i,
        {
            let piece = clone_octets(&self.text[i]);
            let s = match string_from_utf8(piece) {
                Some(s) => s,
                None => {
                    assert(!valid_utf8(strings[i as int]));
                    return Err(PacketError::FormatError);
                },
            };
            proof {
                reveal_strlit("\n");
                assert("\n"@ =~= seq!['\n']);
                assert(strings.take(i as int + 1).drop_last() =~= strings.take(i as int));
                assert(strings.take(i as int + 1).last() == strings[i as int]);
                assert forall|j: int| 0 <= j < i + 1 implies valid_utf8(
                    #[trigger] strings.take(i as int + 1)[j],
                ) by {
                    if j < i {
                        assert(strings.take(i as int)[j] == strings[j]);
                    }
                }
            }
            st.append(s.as_str());
            st.append("\n");
            i += 1;
        }
        assert(strings.take(n as int) =~= strings);
        Ok(st)
    }

    /// The strings as lines of text or, where they are not all UTF-8, as
    /// lists of numbers.
    pub fn to_string(&self) -> (s: String)
        ensures
            self@ is Txt,
            all_utf8(self@->Txt_0) ==> s@ == lines_text(self@->Txt_0),
            !all_utf8(self@->Txt_0) ==> s@ == octets_debug_text(self@->Txt_0),
    {
        match self.try_into_string() {
            Ok(s) => s,
            Err(_) => octets_debug(&self.text),
        }
    }

    /// Parses the data whose length stands at `pos` of `packet`: character
    /// strings that cover the length exactly.
    #[verifier::rlimit(50)]
    pub fn parse(packet: Bytes, pos: usize) -> (r: Result<(Self, usize), PacketError>)
        ensures
            match r {
                Ok((data, end)) => txt_at(bytes_seq(packet), pos as int) == Some(
                    (data@, end as int),
                ) && data@.wf(),
                Err(e) => e is FormatError && txt_at(bytes_seq(packet), pos as int) is None,
            },
    {
        let packet_len = packet.len();
        let ghost s = bytes_seq(packet);
        let len = match read_u16(&packet, pos) {
            Some(length) => length as usize,
            None => {
                return Err(PacketError::FormatError);
            },
        };
        if packet_len - (pos + 2) < len {
            return Err(PacketError::FormatError);
        }
        let end = pos + 2 + len;
        let mut v: Vec<Vec<u8>> = Vec::new();
        let mut cur = pos + 2;
        assert(strings_view(v@) =~= Seq::<Seq<u8>>::empty());
        proof {
            match strings_in(s.subrange(cur as int, end as int)) {
                Some(rest) => {
                    assert(Seq::<Seq<u8>>::empty() + rest =~= rest);
                },
                None => {},
            }
        }
        while cur < end
            invariant
                s == bytes_seq(packet),
                pos + 2 <= cur <= end <= s.len(),
                s.len() <= usize::MAX,
                end == super::rdata_end(s, pos as int),
                strings_in(s.subrange(pos + 2, end as int)) == prepend_strings(
                    strings_view(v@),
                    strings_in(s.subrange(cur as int, end as int)),
                ),
            decreases end - cur,
        {
            let ghost window = s.subrange(cur as int, end as int);
            let ghost before = strings_view(v@);
            let m_len = read_u8(&packet, cur).unwrap() as usize;
            assert(window[0] == s[cur as int]);
            if end - cur - 1 < m_len {
                return Err(PacketError::FormatError);
            }
            let txt = copy_range(&packet, cur + 1, cur + 1 + m_len);
            proof {
                assert(window.subrange(1, 1 + m_len) =~= txt@);
                assert(window.skip(1 + m_len) =~= s.subrange(cur + 1 + m_len, end as int));
            }
            v.push(txt);
            proof {
                assert(strings_view(v@) =~= before.push(txt@));
                match strings_in(s.subrange(cur + 1 + m_len, end as int)) {
                    Some(rest) => {
                        assert(before + (seq![txt@] + rest) =~= before.push(txt@) + rest);
                    },
                    None => {},
                }
            }
            cur = cur + 1 + m_len;
        }
        proof {
            assert(s.subrange(cur as int, end as int) =~= Seq::<u8>::empty());
            assert(strings_view(v@) + Seq::<Seq<u8>>::empty() =~= strings_view(v@));
            crate::protocol::laws::lemma_strings_in_fit(s.subrange(pos + 2, end as int));
        }
        Ok((Self { text: v }, end))
    }

    /// The data's wire form: the length and the strings, each behind its
    /// own length. A format error where a string has more than 255 octets
    /// or the length does not fit 16 bits.
    #[verifier::rlimit(50)]
    pub fn try_into_bytes(&self) -> (r: Result<BytesMut, PacketError>)
        ensures
            match r {
                Ok(buf) => self@.encodable() && buf_seq(buf) == rdata_wire(self@),
                Err(e) => e is FormatError && !self@.encodable(),
            },
    {
        let n = self.text.len();
        let ghost strings = strings_view(self.text@);
        let mut body = BytesMut::new();
        let mut i: usize = 0;
        while i < n
            invariant
                n == self.text@.len(),
                strings == strings_view(self.text@),
                0 <= i <= n,
                buf_seq(body) == strings_wire(strings.take(i as int)),
                buf_seq(body).len() <= u16::MAX,
                forall|j: int| 0 <= j < i ==> (#[trigger] strings[j]).len() <= 255,
            decreases n - i,
        {
            let txt = &self.text[i];
            proof {
                assert(strings.take(i as int + 1) =~= strings.take(i as int).push(txt@));
                lemma_strings_wire_push(strings.take(i as int), txt@);
                assert(strings =~= strings.take(i as int + 1) + strings.skip(i as int + 1));
                lemma_strings_wire_add(strings.take(i as int + 1), strings.skip(i as int + 1));
            }
            if txt.len() > 255 {
                assert(strings[i as int].len() > 255);
                return Err(PacketError::FormatError);
            }
            if body.len() + txt.len() + 1 > 0xffff {
                return Err(PacketError::FormatError);
            }
            buf_put_u8(&mut body, txt.len() as u8);
            buf_put_slice(&mut body, txt.as_slice());
            i += 1;
        }
        assert(strings.take(n as int) =~= strings);
        let mut buf = BytesMut::with_capacity(2 + body.len());
        buf_put_u16(&mut buf, body.len() as u16);
        buf_put_slice(&mut buf, crate::buffer::buf_as_slice(&body));
        Ok(buf)
    }
}

impl Rdata for Txt {
    open spec fn at(s: Seq<u8>, pos: int) -> Option<(RDataView, int)> {
        txt_at(s, pos)
    }

    fn parse(packet: Bytes, pos: usize) -> (r: Result<(Self, usize), PacketError>) {
        Txt::parse(packet, pos)
    }

    fn try_into_bytes(&self) -> (r: Result<BytesMut, PacketError>) {
        Txt::try_into_bytes(self)
    }
}

} // verus!
