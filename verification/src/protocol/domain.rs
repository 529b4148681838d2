//! Domain names: a sequence of labels, written on the wire as
//! length-prefixed octet strings that end with a zero octet, and read
//! from the wire through compression pointers.

use super::error::PacketError;
use crate::buffer::{
    buf_put_slice, buf_put_u8, buf_seq, bytes_as_slice, bytes_seq, copy_range, read_u8,
};
use crate::text::{clone_octets, is_utf8, string_from_utf8};
use bytes::{Bytes, BytesMut};
use vstd::prelude::*;
use vstd::std_specs::cmp::PartialEqSpecImpl;
use vstd::string::StringExecFns;
use vstd::string::StringSliceAdditionalSpecFns;
use vstd::utf8::{decode_utf8, encode_utf8, valid_utf8};

verus! {

/// The longest label, in octets.
pub const MAX_LABEL_LENGTH: usize = 63;

/// The longest encoded name, its final zero octet included.
pub const MAX_NAME_LENGTH: usize = 253;

/// The two top bits that mark a compression pointer.
pub const PTR_MASK: u8 = 0xc0;

/// The most compression pointers that one name may follow.
pub const MAX_JUMPS: usize = 5;

/// The octet of the separator `.`.
pub const DOT: u8 = 0x2e;

/// The octets that the labels take on the wire, each with its length
/// octet, without the final zero.
pub open spec fn labels_size(labels: Seq<Seq<u8>>) -> nat
    decreases labels.len(),
{
    if labels.len() == 0 {
        0
    } else {
        labels[0].len() + 1 + labels_size(labels.drop_first())
    }
}

/// A label holds 1 to 63 octets of well-formed UTF-8.
pub open spec fn valid_label(label: Seq<u8>) -> bool {
    1 <= label.len() <= MAX_LABEL_LENGTH && valid_utf8(label)
}

/// A name holds valid labels and takes at most 253 octets on the wire,
/// the final zero included.
pub open spec fn valid_name(labels: Seq<Seq<u8>>) -> bool {
    &&& forall|i: int| 0 <= i < labels.len() ==> valid_label(#[trigger] labels[i])
    &&& labels_size(labels) < MAX_NAME_LENGTH
}

/// The uncompressed wire form of a name: each label behind its length
/// octet, then a zero octet.
pub open spec fn name_wire(labels: Seq<Seq<u8>>) -> Seq<u8>
    decreases labels.len(),
{
    if labels.len() == 0 {
        seq![0u8]
    } else {
        seq![labels[0].len() as u8] + labels[0] + name_wire(labels.drop_first())
    }
}

/// The length of a name written as text: 1 for the root, else every
/// label with the dot behind it.
pub open spec fn name_text_len(labels: Seq<Seq<u8>>) -> nat {
    if labels.len() == 0 {
        1
    } else {
        labels_size(labels)
    }
}

/// The labels written one after another, a dot behind each.
pub open spec fn dotted(labels: Seq<Seq<u8>>) -> Seq<u8>
    decreases labels.len(),
{
    if labels.len() == 0 {
        Seq::empty()
    } else {
        labels[0] + seq![DOT] + dotted(labels.drop_first())
    }
}

/// A name as text, in octets: a single dot for the root, else every label
/// with a dot behind it.
pub open spec fn name_text(labels: Seq<Seq<u8>>) -> Seq<u8> {
    if labels.len() == 0 {
        seq![DOT]
    } else {
        dotted(labels)
    }
}

/// A name as text, in characters.
pub open spec fn decode_name_text(labels: Seq<Seq<u8>>) -> Seq<char> {
    decode_utf8(name_text(labels))
}

/// Where the first dot of `text` stands, or its length if it has none.
pub open spec fn first_dot(text: Seq<u8>) -> int
    decreases text.len(),
{
    if text.len() == 0 || text[0] == DOT {
        0
    } else {
        1 + first_dot(text.drop_first())
    }
}

/// The labels of a name given as text: the pieces between dots that are
/// not empty, in order.
pub open spec fn text_labels(text: Seq<u8>) -> Seq<Seq<u8>>
    decreases text.len(),
{
    if text.len() == 0 {
        Seq::empty()
    } else {
        let i = first_dot(text);
        let rest = if 0 <= i < text.len() {
            text_labels(text.skip(i + 1))
        } else {
            Seq::empty()
        };
        if i <= 0 {
            rest
        } else {
            seq![text.take(i)] + rest
        }
    }
}

/// An octet whose two top bits are set starts a compression pointer.
pub open spec fn is_pointer(b: u8) -> bool {
    b & PTR_MASK == PTR_MASK
}

/// An octet whose two top bits are clear is the length of a label.
pub open spec fn is_label_length(b: u8) -> bool {
    b & PTR_MASK == 0
}

/// The offset that a pointer names: the low six bits of its first octet,
/// then its second octet.
pub open spec fn pointer_target(b0: u8, b1: u8) -> int {
    (((b0 ^ PTR_MASK) as u16) << 8 | (b1 as u16)) as int
}

/// The labels of the name that starts at `pos` of `s`, after `hops`
/// pointers have been followed to get there. Nothing where the name runs
/// out of `s`, a length octet has the top bits `01` or `10`, a label is
/// not UTF-8, a pointer leaves `s`, or a sixth pointer was followed.
pub open spec fn labels_at(s: Seq<u8>, pos: int, hops: int) -> Option<Seq<Seq<u8>>>
    decreases MAX_JUMPS + 1 - hops, s.len() - pos,
{
    if hops < 0 || hops > MAX_JUMPS || pos < 0 || pos >= s.len() {
        None
    } else if s[pos] == 0 {
        Some(Seq::empty())
    } else if is_pointer(s[pos]) {
        if pos + 1 >= s.len() {
            None
        } else if pointer_target(s[pos], s[pos + 1]) >= s.len() {
            None
        } else {
            labels_at(s, pointer_target(s[pos], s[pos + 1]), hops + 1)
        }
    } else if !is_label_length(s[pos]) {
        None
    } else {
        let end = pos + 1 + s[pos];
        if end > s.len() || !valid_utf8(s.subrange(pos + 1, end)) {
            None
        } else {
            match labels_at(s, end, hops) {
                Some(rest) => Some(seq![s.subrange(pos + 1, end)] + rest),
                None => None,
            }
        }
    }
}

/// Where the name that starts at `pos` of `s` ends in place: behind its
/// zero octet, or behind its first pointer.
pub open spec fn name_end(s: Seq<u8>, pos: int) -> int
    decreases s.len() - pos,
{
    if pos < 0 || pos >= s.len() {
        pos
    } else if s[pos] == 0 {
        pos + 1
    } else if is_pointer(s[pos]) {
        pos + 2
    } else if !is_label_length(s[pos]) || pos + 1 + s[pos] > s.len() {
        pos
    } else {
        name_end(s, pos + 1 + s[pos])
    }
}

/// Parsing a name at `pos` of `s`: its labels and the offset behind it,
/// or nothing where the wire data is malformed or the name is too long.
pub open spec fn parse_name(s: Seq<u8>, pos: int) -> Option<(Seq<Seq<u8>>, int)> {
    match labels_at(s, pos, 0) {
        Some(labels) => if labels_size(labels) < MAX_NAME_LENGTH {
            Some((labels, name_end(s, pos)))
        } else {
            None
        },
        None => None,
    }
}

/// `labels` put before what the rest of a name gives.
pub open spec fn prepend(labels: Seq<Seq<u8>>, rest: Option<Seq<Seq<u8>>>) -> Option<
    Seq<Seq<u8>>,
> {
    match rest {
        Some(r) => Some(labels + r),
        None => None,
    }
}

/// The labels that a vector of octet vectors holds.
pub open spec fn labels_view(v: Seq<Vec<u8>>) -> Seq<Seq<u8>> {
    Seq::new(v.len(), |i: int| v[i]@)
}

/// Why a text is not a name.
#[derive(Clone, Copy, Debug, PartialEq, Eq, Structural)]
pub enum InvalidName {
    /// A label is longer than 63 octets.
    LabelTooLong,
    /// The name takes more than 253 octets on the wire, its final zero
    /// included.
    NameTooLong,
}

/// A domain name: its labels, leftmost first. Empty for the root.
#[derive(Debug, Hash)]
pub struct Name {
    labels: Vec<Vec<u8>>,
}

impl View for Name {
    type V = Seq<Seq<u8>>;

    closed spec fn view(&self) -> Seq<Seq<u8>> {
        labels_view(self.labels@)
    }
}

/// One more label takes its octets and one for its length.
pub proof fn lemma_labels_size_push(labels: Seq<Seq<u8>>, label: Seq<u8>)
    ensures
        labels_size(labels.push(label)) == labels_size(labels) + label.len() + 1,
    decreases labels.len(),
{
    reveal_with_fuel(labels_size, 2);
    if labels.len() == 0 {
        assert(labels.push(label).drop_first() =~= Seq::<Seq<u8>>::empty());
    } else {
        assert(labels.push(label).drop_first() =~= labels.drop_first().push(label));
        lemma_labels_size_push(labels.drop_first(), label);
    }
}

/// Labels put together take what they take apart.
pub proof fn lemma_labels_size_add(a: Seq<Seq<u8>>, b: Seq<Seq<u8>>)
    ensures
        labels_size(a + b) == labels_size(a) + labels_size(b),
    decreases a.len(),
{
    if a.len() == 0 {
        assert(a + b =~= b);
    } else {
        assert((a + b).drop_first() =~= a.drop_first() + b);
        lemma_labels_size_add(a.drop_first(), b);
    }
}

/// One more label goes on the wire before the final zero octet.
pub proof fn lemma_name_wire_push(labels: Seq<Seq<u8>>, label: Seq<u8>)
    ensures
        name_wire(labels.push(label)) == name_wire(labels).drop_last() + seq![label.len() as u8]
            + label + seq![0u8],
        name_wire(labels).len() == labels_size(labels) + 1,
        name_wire(labels).last() == 0,
    decreases labels.len(),
{
    reveal_with_fuel(name_wire, 2);
    if labels.len() == 0 {
        assert(labels.push(label).drop_first() =~= Seq::<Seq<u8>>::empty());
        assert(name_wire(labels.push(label)) =~= name_wire(labels).drop_last() + seq![
            label.len() as u8,
        ] + label + seq![0u8]);
    } else {
        assert(labels.push(label).drop_first() =~= labels.drop_first().push(label));
        lemma_name_wire_push(labels.drop_first(), label);
        assert(name_wire(labels.push(label)) =~= name_wire(labels).drop_last() + seq![
            label.len() as u8,
        ] + label + seq![0u8]);
    }
}

/// The two top bits of an octet, in numbers.
proof fn lemma_pointer_bits(b0: u8, b1: u8)
    ensures
        is_pointer(b0) <==> b0 >= 192,
        is_label_length(b0) <==> b0 <= 63,
        is_pointer(b0) ==> pointer_target(b0, b1) == (b0 - 192) * 256 + b1,
{
    assert((b0 & 0xc0u8 == 0xc0u8) <==> b0 >= 192) by (bit_vector);
    assert((b0 & 0xc0u8 == 0) <==> b0 <= 63) by (bit_vector);
    assert(b0 >= 192 ==> (((b0 ^ 0xc0u8) as u16) << 8 | (b1 as u16)) == (b0 - 192) as u16 * 256
        + b1 as u16) by (bit_vector);
}

/// Where no dot stands before `k`, and `k` is a dot or the end, the first
/// dot is at `k`.
pub proof fn lemma_first_dot(text: Seq<u8>, k: int)
    requires
        0 <= k <= text.len(),
        forall|j: int| 0 <= j < k ==> text[j] != DOT,
        k == text.len() || text[k] == DOT,
    ensures
        first_dot(text) == k,
    decreases k,
{
    if k > 0 {
        let rest = text.drop_first();
        assert forall|j: int| 0 <= j < k - 1 implies rest[j] != DOT by {
            assert(rest[j] == text[j + 1]);
        }
        lemma_first_dot(rest, k - 1);
    }
}

/// The first dot of a text stands within it or at its end, and no dot
/// stands before it.
pub proof fn lemma_first_dot_bounds(text: Seq<u8>)
    ensures
        0 <= first_dot(text) <= text.len(),
        first_dot(text) < text.len() ==> text[first_dot(text)] == DOT,
        forall|j: int| 0 <= j < first_dot(text) ==> text[j] != DOT,
    decreases text.len(),
{
    if text.len() == 0 || text[0] == DOT {
    } else {
        let rest = text.drop_first();
        lemma_first_dot_bounds(rest);
        assert forall|j: int| 0 <= j < first_dot(text) implies text[j] != DOT by {
            if j > 0 {
                assert(rest[j - 1] == text[j]);
            }
        }
    }
}

/// The labels of a text, once the piece before its first dot is known.
pub proof fn lemma_text_labels_step(text: Seq<u8>, k: int)
    requires
        0 <= k <= text.len(),
        forall|j: int| 0 <= j < k ==> text[j] != DOT,
        k == text.len() || text[k] == DOT,
    ensures
        text_labels(text) == (if k == 0 {
            Seq::<Seq<u8>>::empty()
        } else {
            seq![text.take(k)]
        }) + (if k < text.len() {
            text_labels(text.skip(k + 1))
        } else {
            Seq::<Seq<u8>>::empty()
        }),
{
    lemma_first_dot(text, k);
    if text.len() == 0 {
        assert(text_labels(text) =~= Seq::<Seq<u8>>::empty() + Seq::<Seq<u8>>::empty());
    } else {
        let rest = if k < text.len() {
            text_labels(text.skip(k + 1))
        } else {
            Seq::<Seq<u8>>::empty()
        };
        if k == 0 {
            assert(text_labels(text) =~= Seq::<Seq<u8>>::empty() + rest);
        } else {
        }
    }
}

/// Every label of a text of well-formed UTF-8 is not empty and is
/// well-formed UTF-8 itself.
pub proof fn lemma_text_labels_utf8(text: Seq<u8>)
    requires
        valid_utf8(text),
    ensures
        forall|i: int|
            0 <= i < text_labels(text).len() ==> (#[trigger] text_labels(text)[i]).len() >= 1
                && valid_utf8(text_labels(text)[i]),
    decreases text.len(),
{
    if text.len() == 0 {
    } else {
        let k = first_dot(text);
        lemma_first_dot_bounds(text);
        lemma_text_labels_step(text, k);
        if k < text.len() {
            vstd::utf8::is_char_boundary_iff_not_is_continuation_byte(text, k);
            vstd::utf8::valid_utf8_split(text, k);
            let tail = text.subrange(k, text.len() as int);
            assert(tail[0] == DOT);
            assert(vstd::utf8::pop_first_scalar(tail) =~= text.skip(k + 1));
            assert(text.take(k) =~= text.subrange(0, k));
            lemma_text_labels_utf8(text.skip(k + 1));
        } else {
            assert(text.take(k) =~= text);
        }
    }
}

/// Labels of well-formed UTF-8, with a dot behind each, are well-formed
/// UTF-8.
pub proof fn lemma_dotted_utf8(labels: Seq<Seq<u8>>)
    requires
        forall|i: int| 0 <= i < labels.len() ==> valid_utf8(#[trigger] labels[i]),
    ensures
        valid_utf8(dotted(labels)),
        valid_utf8(name_text(labels)),
    decreases labels.len(),
{
    reveal_with_fuel(valid_utf8, 2);
    let dot = seq![DOT];
    assert(vstd::utf8::pop_first_scalar(dot) =~= Seq::<u8>::empty());
    assert(valid_utf8(dot));
    if labels.len() > 0 {
        let rest = labels.drop_first();
        assert forall|i: int| 0 <= i < rest.len() implies valid_utf8(#[trigger] rest[i]) by {
            assert(rest[i] == labels[i + 1]);
        }
        lemma_dotted_utf8(rest);
        vstd::utf8::valid_utf8_concat(labels[0], dot);
        vstd::utf8::valid_utf8_concat(labels[0] + dot, dotted(rest));
    }
}

/// One more label is written behind the others, with its dot.
pub proof fn lemma_dotted_push(labels: Seq<Seq<u8>>, label: Seq<u8>)
    ensures
        dotted(labels.push(label)) == dotted(labels) + label + seq![DOT],
    decreases labels.len(),
{
    reveal_with_fuel(dotted, 2);
    if labels.len() == 0 {
        assert(labels.push(label).drop_first() =~= Seq::<Seq<u8>>::empty());
        assert(dotted(labels.push(label)) =~= dotted(labels) + label + seq![DOT]);
    } else {
        assert(labels.push(label).drop_first() =~= labels.drop_first().push(label));
        lemma_dotted_push(labels.drop_first(), label);
        assert(dotted(labels.push(label)) =~= dotted(labels) + label + seq![DOT]);
    }
}

/// The name `a` lies within the domain `b`: the labels of `b` are the
/// last labels of `a`, octet for octet. A name lies within itself, and
/// every name within the root; a name with fewer labels than `b` never
/// lies within `b`.
pub open spec fn subdomain_of(a: Seq<Seq<u8>>, b: Seq<Seq<u8>>) -> bool {
    &&& b.len() <= a.len()
    &&& forall|k: int| 0 <= k < b.len() ==> #[trigger] from_end(a, k) == from_end(b, k)
}

/// A name lies within itself.
pub proof fn lemma_subdomain_of_itself(a: Seq<Seq<u8>>)
    ensures
        subdomain_of(a, a),
{
}

/// A name that lies within a domain which lies within a third lies within
/// the third.
pub proof fn lemma_subdomain_chain(a: Seq<Seq<u8>>, b: Seq<Seq<u8>>, c: Seq<Seq<u8>>)
    requires
        subdomain_of(a, b),
        subdomain_of(b, c),
    ensures
        subdomain_of(a, c),
{
    assert forall|k: int| 0 <= k < c.len() implies #[trigger] from_end(a, k) == from_end(c, k) by {
        assert(from_end(a, k) == from_end(b, k));
        assert(from_end(b, k) == from_end(c, k));
    }
}

/// Two names that lie within each other are the same name.
pub proof fn lemma_subdomain_both_ways(a: Seq<Seq<u8>>, b: Seq<Seq<u8>>)
    requires
        subdomain_of(a, b),
        subdomain_of(b, a),
    ensures
        a == b,
{
    assert forall|i: int| 0 <= i < a.len() implies a[i] == b[i] by {
        assert(from_end(a, a.len() - 1 - i) == from_end(b, a.len() - 1 - i));
    }
    assert(a =~= b);
}

/// The label that stands `k` places before the last.
pub open spec fn from_end(a: Seq<Seq<u8>>, k: int) -> Seq<u8> {
    a[a.len() - 1 - k]
}

/// Whether two vectors hold the same octets.
fn same_octets(a: &Vec<u8>, b: &Vec<u8>) -> (r: bool)
    ensures
        r == (a@ == b@),
{
    if a.len() != b.len() {
        return false;
    }
    let n = a.len();
    let mut i: usize = 0;
    while i < n
        invariant
            n == a@.len(),
            n == b@.len(),
            0 <= i <= n,
            forall|j: int| 0 <= j < i ==> a@[j] == b@[j],
        decreases n - i,
    {
        if a[i] != b[i] {
            return false;
        }
        i += 1;
    }
    assert(a@ =~= b@);
    true
}

impl PartialEq for Name {
    fn eq(&self, other: &Self) -> (r: bool) {
        let n = self.labels.len();
        if n != other.labels.len() {
            assert(self@.len() != other@.len());
            return false;
        }
        let mut i: usize = 0;
        while i < n
            invariant
                n == self.labels@.len(),
                n == other.labels@.len(),
                0 <= i <= n,
                forall|j: int| 0 <= j < i ==> self@[j] == other@[j],
            decreases n - i,
        {
            if !same_octets(&self.labels[i], &other.labels[i]) {
                assert(self@[i as int] != other@[i as int]);
                return false;
            }
            i += 1;
        }
        assert(self@ =~= other@);
        true
    }
}

impl PartialEqSpecImpl for Name {
    open spec fn obeys_eq_spec() -> bool {
        true
    }

    open spec fn eq_spec(&self, other: &Self) -> bool {
        self@ == other@
    }
}

impl Eq for Name {

}

/// A name that is read within `s` ends within `s`, behind where it
/// starts.
pub proof fn lemma_name_end_bounds(s: Seq<u8>, pos: int)
    requires
        0 <= pos,
        labels_at(s, pos, 0) is Some,
    ensures
        pos < name_end(s, pos) <= s.len(),
{
    lemma_name_end_bounds_from(s, pos, 0);
}

/// What `lemma_name_end_bounds` says, after any number of pointers.
proof fn lemma_name_end_bounds_from(s: Seq<u8>, pos: int, hops: int)
    requires
        0 <= pos,
        labels_at(s, pos, hops) is Some,
    ensures
        pos < name_end(s, pos) <= s.len(),
    decreases s.len() - pos,
{
    if s[pos] != 0 && !is_pointer(s[pos]) {
        lemma_name_end_bounds_from(s, pos + 1 + s[pos], hops);
    }
}

/// The wire form of a name is one octet longer than its labels take.
pub proof fn lemma_name_wire_len(labels: Seq<Seq<u8>>)
    ensures
        name_wire(labels).len() == labels_size(labels) + 1,
    decreases labels.len(),
{
    if labels.len() > 0 {
        lemma_name_wire_len(labels.drop_first());
    }
}

/// Where the octets of `s` from `pos` on are the uncompressed wire form of
/// a valid name, reading a name there gives that name back and ends
/// right behind it, however many pointers led there.
#[verifier::rlimit(50)]
pub proof fn lemma_labels_at_wire(s: Seq<u8>, pos: int, labels: Seq<Seq<u8>>, hops: int)
    requires
        valid_name(labels),
        0 <= hops <= MAX_JUMPS,
        0 <= pos,
        pos + name_wire(labels).len() <= s.len(),
        s.subrange(pos, pos + name_wire(labels).len()) == name_wire(labels),
    ensures
        labels_at(s, pos, hops) == Some(labels),
        name_end(s, pos) == pos + name_wire(labels).len(),
    decreases labels.len(),
{
    let wire = name_wire(labels);
    let piece = s.subrange(pos, pos + wire.len());
    lemma_name_wire_len(labels);
    assert(s[pos] == piece[0]);
    if labels.len() == 0 {
        assert(labels =~= Seq::<Seq<u8>>::empty());
    } else {
        let first = labels[0];
        let rest = labels.drop_first();
        assert(valid_label(first));
        lemma_name_wire_len(rest);
        lemma_pointer_bits(first.len() as u8, 0);
        let end = pos + 1 + first.len();
        assert(s.subrange(pos + 1, end) =~= first) by {
            assert forall|j: int| 0 <= j < first.len() implies s.subrange(pos + 1, end)[j]
                == first[j] by {
                assert(s[pos + 1 + j] == piece[1 + j]);
            }
        }
        assert(s.subrange(end, end + name_wire(rest).len()) =~= name_wire(rest)) by {
            assert forall|j: int| 0 <= j < name_wire(rest).len() implies s.subrange(
                end,
                end + name_wire(rest).len(),
            )[j] == name_wire(rest)[j] by {
                assert(s[end + j] == piece[1 + first.len() + j]);
            }
        }
        assert forall|i: int| 0 <= i < rest.len() implies valid_label(#[trigger] rest[i]) by {
            assert(rest[i] == labels[i + 1]);
        }
        lemma_labels_at_wire(s, end, rest, hops);
        assert(seq![first] + rest =~= labels);
    }
}

/// A valid name that is written uncompressed and parsed again is the same
/// name, and the parser stops right behind it.
pub proof fn lemma_name_round_trip(labels: Seq<Seq<u8>>)
    requires
        valid_name(labels),
    ensures
        parse_name(name_wire(labels), 0) == Some((labels, name_wire(labels).len() as int)),
{
    let wire = name_wire(labels);
    assert(wire.subrange(0, wire.len() as int) =~= wire);
    lemma_labels_at_wire(wire, 0, labels, 0);
}

/// What `lemma_name_round_trip` says, for a name that stands at `pos`
/// inside a longer message.
pub proof fn lemma_parse_name_wire(s: Seq<u8>, pos: int, labels: Seq<Seq<u8>>)
    requires
        valid_name(labels),
        0 <= pos,
        pos + name_wire(labels).len() <= s.len(),
        s.subrange(pos, pos + name_wire(labels).len()) == name_wire(labels),
    ensures
        parse_name(s, pos) == Some((labels, pos + name_wire(labels).len())),
{
    lemma_labels_at_wire(s, pos, labels, 0);
}

/// Every dot of the text stands behind an octet that is no dot: the text
/// has no empty piece but, perhaps, behind its last dot.
pub open spec fn dot_separated(text: Seq<u8>) -> bool {
    forall|i: int| 0 <= i < text.len() && #[trigger] text[i] == DOT ==> i > 0 && text[i - 1] != DOT
}

/// A text splits into labels that spell it again: where every dot of the
/// text stands behind an octet that is no dot, the labels written with a
/// dot behind each are the text itself, with a dot added if it does not
/// end in one.
pub proof fn lemma_text_round_trip(text: Seq<u8>)
    requires
        dot_separated(text),
    ensures
        dotted(text_labels(text)) == (if text.len() == 0 || text.last() == DOT {
            text
        } else {
            text.push(DOT)
        }),
    decreases text.len(),
{
    if text.len() == 0 {
    } else {
        let k = first_dot(text);
        lemma_first_dot_bounds(text);
        lemma_text_labels_step(text, k);
        assert(k > 0);
        if k < text.len() {
            let tail = text.skip(k + 1);
            assert forall|i: int| 0 <= i < tail.len() && #[trigger] tail[i] == DOT implies i > 0
                && tail[i - 1] != DOT by {
                assert(tail[i] == text[k + 1 + i]);
                if i > 0 {
                    assert(tail[i - 1] == text[k + i]);
                }
            }
            lemma_text_round_trip(tail);
            assert((seq![text.take(k)] + text_labels(tail)).drop_first() =~= text_labels(tail));
            if tail.len() == 0 {
                assert(dotted(text_labels(text)) =~= text);
            } else if tail.last() == DOT {
                assert(dotted(text_labels(text)) =~= text);
            } else {
                assert(dotted(text_labels(text)) =~= text.push(DOT));
            }
        } else {
            reveal_with_fuel(dotted, 2);
            assert(text.take(k) =~= text);
            assert(text_labels(text) =~= seq![text]);
            assert(seq![text].drop_first() =~= Seq::<Seq<u8>>::empty());
            assert(dotted(seq![text]) =~= text.push(DOT));
        }
    }
}

/// The labels that are read from the wire are valid labels.
pub proof fn lemma_labels_at_valid(s: Seq<u8>, pos: int, hops: int)
    requires
        labels_at(s, pos, hops) is Some,
    ensures
        forall|i: int|
            0 <= i < labels_at(s, pos, hops).unwrap().len() ==> valid_label(
                #[trigger] labels_at(s, pos, hops).unwrap()[i],
            ),
    decreases MAX_JUMPS + 1 - hops, s.len() - pos,
{
    if s[pos] == 0 {
    } else if is_pointer(s[pos]) {
        lemma_labels_at_valid(s, pointer_target(s[pos], s[pos + 1]), hops + 1);
    } else {
        lemma_pointer_bits(s[pos], 0);
        let end = pos + 1 + s[pos];
        lemma_labels_at_valid(s, end, hops);
        let rest = labels_at(s, end, hops).unwrap();
        let all = labels_at(s, pos, hops).unwrap();
        assert forall|i: int| 0 <= i < all.len() implies valid_label(#[trigger] all[i]) by {
            if i > 0 {
                assert(all[i] == rest[i - 1]);
            }
        }
    }
}

/// A name that is parsed is a valid name.
pub proof fn lemma_parsed_name_valid(s: Seq<u8>, pos: int)
    requires
        parse_name(s, pos) is Some,
    ensures
        valid_name(parse_name(s, pos).unwrap().0),
{
    lemma_labels_at_valid(s, pos, 0);
}

/// Reading the name that starts at `pos` after `hops` pointers comes to
/// read at `at` after `hops_at` pointers: through labels that fit, and
/// through pointers that stay within `s`.
pub open spec fn leads_to(s: Seq<u8>, pos: int, hops: int, at: int, hops_at: int) -> bool
    decreases MAX_JUMPS + 1 - hops, s.len() - pos,
{
    if pos == at && hops == hops_at {
        true
    } else if hops < 0 || hops > MAX_JUMPS || pos < 0 || pos >= s.len() || s[pos] == 0 {
        false
    } else if is_pointer(s[pos]) {
        pos + 1 < s.len() && pointer_target(s[pos], s[pos + 1]) < s.len() && leads_to(
            s,
            pointer_target(s[pos], s[pos + 1]),
            hops + 1,
            at,
            hops_at,
        )
    } else {
        is_label_length(s[pos]) && pos + 1 + s[pos] <= s.len() && leads_to(
            s,
            pos + 1 + s[pos],
            hops,
            at,
            hops_at,
        )
    }
}

/// Where reading a name comes to a place at which nothing can be read,
/// nothing is read from where it started.
pub proof fn lemma_fails_where_it_leads(s: Seq<u8>, pos: int, hops: int, at: int, hops_at: int)
    requires
        leads_to(s, pos, hops, at, hops_at),
        labels_at(s, at, hops_at) is None,
    ensures
        labels_at(s, pos, hops) is None,
    decreases MAX_JUMPS + 1 - hops, s.len() - pos,
{
    if pos == at && hops == hops_at {
    } else if is_pointer(s[pos]) {
        lemma_fails_where_it_leads(s, pointer_target(s[pos], s[pos + 1]), hops + 1, at, hops_at);
    } else {
        lemma_fails_where_it_leads(s, pos + 1 + s[pos], hops, at, hops_at);
    }
}

/// A name that takes more than 253 octets on the wire, its final zero
/// included, is refused, however well it reads.
pub proof fn lemma_long_name_refused(s: Seq<u8>, pos: int)
    requires
        labels_at(s, pos, 0) is Some,
        name_wire(labels_at(s, pos, 0).unwrap()).len() > MAX_NAME_LENGTH,
    ensures
        parse_name(s, pos) is None,
{
    lemma_name_wire_len(labels_at(s, pos, 0).unwrap());
}

/// A name whose reading would follow a sixth pointer is refused.
pub proof fn lemma_sixth_pointer_refused(s: Seq<u8>, pos: int, at: int)
    requires
        leads_to(s, pos, 0, at, MAX_JUMPS + 1),
    ensures
        parse_name(s, pos) is None,
{
    lemma_fails_where_it_leads(s, pos, 0, at, MAX_JUMPS + 1);
}

/// A name whose reading comes to a pointer that is cut off, or that
/// points behind the end of the message, is refused.
pub proof fn lemma_stray_pointer_refused(s: Seq<u8>, pos: int, at: int, hops_at: int)
    requires
        leads_to(s, pos, 0, at, hops_at),
        0 <= at < s.len(),
        is_pointer(s[at]),
        at + 1 >= s.len() || pointer_target(s[at], s[at + 1]) >= s.len(),
    ensures
        parse_name(s, pos) is None,
{
    lemma_pointer_bits(s[at], 0);
    lemma_fails_where_it_leads(s, pos, 0, at, hops_at);
}

/// A name built from a text is written as that text with a dot behind
/// it, and further survives the wire: where the text's labels make a
/// valid name and no piece of the text is empty (the text may be a single
/// dot, or end in one), the name as text is the text itself, with a dot
/// added if it does not end in one; and the name written uncompressed
/// and parsed again is the same name.
pub proof fn lemma_name_from_text(text: Seq<u8>)
    requires
        valid_name(text_labels(text)),
        dot_separated(text) || text == seq![DOT],
    ensures
        name_text(text_labels(text)) == (if text.len() > 0 && text.last() == DOT {
            text
        } else {
            text.push(DOT)
        }),
        parse_name(name_wire(text_labels(text)), 0) == Some(
            (text_labels(text), name_wire(text_labels(text)).len() as int),
        ),
{
    lemma_name_round_trip(text_labels(text));
    if text == seq![DOT] {
        lemma_text_labels_step(text, 0);
        assert(text.skip(1) =~= Seq::<u8>::empty());
        assert(text_labels(text) =~= Seq::<Seq<u8>>::empty());
    } else if text.len() == 0 {
        assert(text.push(DOT) =~= seq![DOT]);
    } else {
        lemma_text_round_trip(text);
        lemma_first_dot_bounds(text);
        lemma_text_labels_step(text, first_dot(text));
        assert(text[0] != DOT);
        assert(text_labels(text).len() > 0);
    }
}

/// The single dot, as octets and as text.
proof fn lemma_dot_text()
    ensures
        valid_utf8(seq![DOT]),
        decode_utf8(seq![DOT]) == seq!['.'],
{
    reveal_with_fuel(valid_utf8, 2);
    reveal_with_fuel(decode_utf8, 2);
    let dot = seq![DOT];
    assert(vstd::utf8::pop_first_scalar(dot) =~= Seq::<u8>::empty());
    assert(0x2eu8 & 0x7f == 0x2e) by (bit_vector);
    assert(decode_utf8(dot) =~= seq!['.']);
}

/// A text with a dot added spells the text and a dot.
proof fn lemma_decode_with_dot(chars: Seq<char>)
    ensures
        decode_utf8(encode_utf8(chars).push(DOT)) == chars.push('.'),
{
    let t = encode_utf8(chars);
    let whole = t.push(DOT);
    lemma_dot_text();
    vstd::utf8::encode_utf8_valid_utf8(chars);
    vstd::utf8::encode_utf8_decode_utf8(chars);
    assert(whole =~= t + seq![DOT]);
    vstd::utf8::valid_utf8_concat(t, seq![DOT]);
    vstd::utf8::is_char_boundary_iff_not_is_continuation_byte(whole, t.len() as int);
    vstd::utf8::decode_utf8_split(whole, t.len() as int);
    assert(whole.subrange(0, t.len() as int) =~= t);
    assert(whole.subrange(t.len() as int, whole.len() as int) =~= seq![DOT]);
    assert(decode_utf8(whole) =~= chars.push('.'));
}

/// A name built from a text reads as that text with a dot behind it:
/// where the labels of the text make a valid name and no piece of the
/// text is empty (the text may be a single dot, or end in one), the name
/// written as text is the text itself, with a dot added if it does not
/// end in one.
pub proof fn lemma_name_reads_as_text(chars: Seq<char>)
    requires
        valid_name(text_labels(encode_utf8(chars))),
        dot_separated(encode_utf8(chars)) || encode_utf8(chars) == seq![DOT],
    ensures
        decode_name_text(text_labels(encode_utf8(chars))) == (if encode_utf8(chars).len() > 0
            && encode_utf8(chars).last() == DOT {
            chars
        } else {
            chars.push('.')
        }),
{
    let t = encode_utf8(chars);
    lemma_name_from_text(t);
    vstd::utf8::encode_utf8_decode_utf8(chars);
    lemma_decode_with_dot(chars);
}

impl Clone for Name {
    fn clone(&self) -> (r: Self)
        ensures
            r@ == self@,
    {
        proof {
            use_type_invariant(self);
        }
        let mut labels: Vec<Vec<u8>> = Vec::new();
        let n = self.labels.len();
        let mut i: usize = 0;
        while i < n
            invariant
                n == self.labels@.len(),
                0 <= i <= n,
                labels@.len() == i,
                forall|j: int| 0 <= j < i ==> (#[trigger] labels@[j])@ == self.labels@[j]@,
            decreases n - i,
        {
            let label = clone_octets(&self.labels[i]);
            labels.push(label);
            i += 1;
        }
        assert(labels_view(labels@) =~= self@);
        Name { labels }
    }
}

impl Name {
    /// The labels are valid and fit the wire. This holds of every `Name`.
    #[verifier::type_invariant]
    pub open spec fn wf(self) -> bool {
        valid_name(self@)
    }

    /// Parses a name from packet octets.
    ///
    /// Gives the name and the offset behind it in the packet, or
    /// `PacketError::FormatError`.
    #[verifier::loop_isolation(false)]
    #[verifier::rlimit(50)]
    pub fn parse(packet: Bytes, pos: usize) -> (r: Result<(Self, usize), PacketError>)
        ensures
            match r {
                Ok((name, end)) => parse_name(bytes_seq(packet), pos as int) == Some(
                    (name@, end as int),
                ) && valid_name(name@),
                Err(e) => e is FormatError && parse_name(bytes_seq(packet), pos as int) is None,
            },
    {
        let len = packet.len();
        let ghost s = bytes_seq(packet);
        let start = pos;
        let mut pos = pos;
        let mut jumps: usize = 0;
        let mut is_jumped = false;
        let mut domain_end: usize = 0;
        let mut labels: Vec<Vec<u8>> = Vec::new();
        let mut size: usize = 0;
        assert(labels_view(labels@) =~= Seq::<Seq<u8>>::empty());

        loop
            invariant
                s == bytes_seq(packet),
                len == s.len(),
                0 <= jumps <= MAX_JUMPS + 1,
                size == labels_size(labels_view(labels@)),
                size < MAX_NAME_LENGTH,
                forall|i: int|
                    0 <= i < labels@.len() ==> valid_label(#[trigger] labels_view(labels@)[i]),
                labels_at(s, start as int, 0) == prepend(
                    labels_view(labels@),
                    labels_at(s, pos as int, jumps as int),
                ),
                is_jumped ==> domain_end == name_end(s, start as int),
                !is_jumped ==> name_end(s, start as int) == name_end(s, pos as int),
            decreases MAX_JUMPS + 1 - jumps, len - pos,
        {
            if jumps > MAX_JUMPS || pos >= len {
                return Err(PacketError::FormatError);
            }
            let b = read_u8(&packet, pos).unwrap();
            proof {
                lemma_pointer_bits(b, 0);
            }
            if b == 0 {
                if !is_jumped {
                    domain_end = pos + 1;
                }
                assert(labels_view(labels@) + Seq::<Seq<u8>>::empty() =~= labels_view(labels@));
                let name = Name { labels };
                return Ok((name, domain_end));
            } else if b & PTR_MASK == PTR_MASK {
                if pos + 1 >= len {
                    return Err(PacketError::FormatError);
                }
                if !is_jumped {
                    domain_end = pos + 2;
                }
                is_jumped = true;
                let low = read_u8(&packet, pos + 1).unwrap();
                proof {
                    lemma_pointer_bits(b, low);
                }
                let jmp_high = (b ^ PTR_MASK) as usize;
                let jmp_low = low as usize;
                assert(jmp_high == b - 192) by (bit_vector)
                    requires
                        b >= 192,
                        jmp_high == (b ^ 0xc0u8) as usize,
                ;
                let jmp_to: usize = jmp_high * 256 + jmp_low;
                if jmp_to >= len {
                    return Err(PacketError::FormatError);
                }
                pos = jmp_to;
                jumps += 1;
            } else if b & PTR_MASK != 0 {
                return Err(PacketError::FormatError);
            } else {
                let label_len = b as usize;
                let begin = pos + 1;
                if len - begin < label_len {
                    return Err(PacketError::FormatError);
                }
                let end = begin + label_len;
                let label = copy_range(&packet, begin, end);
                if !is_utf8(label.as_slice()) {
                    return Err(PacketError::FormatError);
                }
                let ghost before = labels_view(labels@);
                labels.push(label);
                proof {
                    let piece = s.subrange(begin as int, end as int);
                    assert(labels_view(labels@) =~= before.push(piece));
                    lemma_labels_size_push(before, piece);
                    match labels_at(s, end as int, jumps as int) {
                        Some(rest) => {
                            assert(before + (seq![piece] + rest) =~= before.push(piece) + rest);
                            lemma_labels_size_add(before.push(piece), rest);
                        },
                        None => {},
                    }
                }
                size += label_len + 1;
                if size >= MAX_NAME_LENGTH {
                    return Err(PacketError::FormatError);
                }
                pos = end;
            }
        }
    }

    /// The name that a text spells: its pieces between dots, empty ones
    /// left out.
    #[verifier::rlimit(50)]
    pub fn try_from(s: &str) -> (r: Result<Self, InvalidName>)
        ensures
            match r {
                Ok(name) => name@ == text_labels(s.spec_bytes()) && valid_name(name@),
                Err(e) => !valid_name(text_labels(s.spec_bytes())) && (e
                    == InvalidName::LabelTooLong <==> exists|i: int|
                    0 <= i < text_labels(s.spec_bytes()).len() && (#[trigger] text_labels(
                        s.spec_bytes(),
                    )[i]).len() > MAX_LABEL_LENGTH),
            },
    {
        let text = s.as_bytes();
        let ghost t = s.spec_bytes();
        let n = text.len();
        proof {
            vstd::utf8::encode_utf8_valid_utf8(s@);
            lemma_text_labels_utf8(t);
            assert(t.skip(0) =~= t);
        }
        let mut labels: Vec<Vec<u8>> = Vec::new();
        let mut total: usize = 0;
        let mut start: usize = 0;
        let mut i: usize = 0;
        let mut done = false;
        assert(labels_view(labels@) =~= Seq::<Seq<u8>>::empty());
        assert(Seq::<Seq<u8>>::empty() + text_labels(t) =~= text_labels(t));
        while !done
            invariant
                text@ == t,
                t == s.spec_bytes(),
                n == t.len(),
                0 <= start <= i <= n,
                !done ==> forall|j: int| start <= j < i ==> t[j] != DOT,
                !done ==> text_labels(t) == labels_view(labels@) + text_labels(
                    t.skip(start as int),
                ),
                done ==> text_labels(t) == labels_view(labels@),
                forall|k: int|
                    0 <= k < labels@.len() ==> (#[trigger] labels_view(labels@)[k]).len()
                        <= MAX_LABEL_LENGTH,
                total < MAX_NAME_LENGTH ==> total == labels_size(labels_view(labels@)),
                total >= MAX_NAME_LENGTH ==> labels_size(labels_view(labels@)) >= MAX_NAME_LENGTH,
                total <= MAX_NAME_LENGTH + MAX_LABEL_LENGTH,
            decreases n - i, (if done { 0int } else { 1int }),
        {
            if i == n || text[i] == DOT {
                let ghost tail = t.skip(start as int);
                let ghost before = labels_view(labels@);
                let ghost rest = if i < n {
                    text_labels(t.skip(i + 1))
                } else {
                    Seq::<Seq<u8>>::empty()
                };
                proof {
                    assert forall|j: int| 0 <= j < i - start implies tail[j] != DOT by {
                        assert(tail[j] == t[start + j]);
                    }
                    lemma_text_labels_step(tail, i - start);
                    assert(tail.take(i - start) =~= t.subrange(start as int, i as int));
                    if i < n {
                        assert(tail.skip(i - start + 1) =~= t.skip(i + 1));
                    }
                }
                if i > start {
                    let piece = vstd::slice::slice_to_vec(
                        vstd::slice::slice_subrange(text, start, i),
                    );
                    assert(text_labels(t) =~= before.push(piece@) + rest);
                    if piece.len() > MAX_LABEL_LENGTH {
                        proof {
                            let all = text_labels(t);
                            let at = before.len() as int;
                            assert(all[at] == piece@);
                            assert(0 <= at < all.len() && all[at].len() > MAX_LABEL_LENGTH);
                            assert(!valid_label(all[at]));
                        }
                        return Err(InvalidName::LabelTooLong);
                    }
                    let len = piece.len();
                    labels.push(piece);
                    proof {
                        assert(labels_view(labels@) =~= before.push(piece@));
                        lemma_labels_size_push(before, piece@);
                    }
                    if total < MAX_NAME_LENGTH {
                        total += len + 1;
                    }
                } else {
                    assert(text_labels(t) =~= before + rest);
                }
                if i == n {
                    done = true;
                    assert(text_labels(t) =~= labels_view(labels@));
                } else {
                    start = i + 1;
                    i += 1;
                }
            } else {
                i += 1;
            }
        }
        if total >= MAX_NAME_LENGTH {
            proof {
                let all = text_labels(t);
                assert forall|k: int| 0 <= k < all.len() implies !((#[trigger] all[k]).len()
                    > MAX_LABEL_LENGTH) by {}
            }
            Err(InvalidName::NameTooLong)
        } else {
            Ok(Name { labels })
        }
    }

    /// The length of the name written as text.
    ///
    /// For `example.com.` it is 12, for the root 1.
    pub fn len(&self) -> (r: usize)
        ensures
            r == name_text_len(self@),
    {
        proof {
            use_type_invariant(self);
        }
        let n = self.labels.len();
        if n == 0 {
            return 1;
        }
        let mut sum: usize = 0;
        let mut i: usize = 0;
        while i < n
            invariant
                n == self.labels@.len(),
                0 <= i <= n,
                valid_name(self@),
                sum == labels_size(self@.take(i as int)),
                sum <= labels_size(self@),
            decreases n - i,
        {
            proof {
                assert(self@.take(i as int + 1) =~= self@.take(i as int).push(self@[i as int]));
                lemma_labels_size_push(self@.take(i as int), self@[i as int]);
                assert(self@ =~= self@.take(i as int + 1) + self@.skip(i as int + 1));
                lemma_labels_size_add(self@.take(i as int + 1), self@.skip(i as int + 1));
            }
            sum += self.labels[i].len() + 1;
            i += 1;
        }
        assert(self@.take(n as int) =~= self@);
        sum
    }

    /// Whether the name's text is empty, which it never is: the root is
    /// written as one dot.
    pub fn is_empty(&self) -> (r: bool)
        ensures
            r == (name_text_len(self@) == 0),
            !r,
    {
        self.len() == 0
    }

    /// Whether this name lies within the domain `other`: whether the
    /// labels of `other` are the last labels of this name, compared octet
    /// for octet. A name lies within itself; a name with fewer labels
    /// than `other` does not lie within it.
    pub fn is_subdomain_of(&self, other: &Self) -> (r: bool)
        ensures
            r == subdomain_of(self@, other@),
    {
        let n = self.labels.len();
        let m = other.labels.len();
        if m > n {
            return false;
        }
        let mut k: usize = 0;
        while k < m
            invariant
                n == self.labels@.len(),
                m == other.labels@.len(),
                m <= n,
                0 <= k <= m,
                forall|j: int|
                    0 <= j < k ==> #[trigger] from_end(self@, j) == from_end(other@, j),
            decreases m - k,
        {
            if !same_octets(&self.labels[n - 1 - k], &other.labels[m - 1 - k]) {
                assert(from_end(self@, k as int) != from_end(other@, k as int));
                return false;
            }
            k += 1;
        }
        true
    }

    /// The name written as text: every label with a dot behind it, and a
    /// single dot for the root.
    pub fn to_string(&self) -> (s: String)
        ensures
            s@ == decode_name_text(self@),
            encode_utf8(s@) == name_text(self@),
    {
        proof {
            use_type_invariant(self);
            lemma_dotted_utf8(self@);
            vstd::utf8::decode_utf8_encode_utf8(name_text(self@));
        }
        let mut text: Vec<u8> = Vec::new();
        let n = self.labels.len();
        if n == 0 {
            text.push(DOT);
            assert(text@ =~= name_text(self@));
        } else {
            let mut i: usize = 0;
            while i < n
                invariant
                    n == self.labels@.len(),
                    0 <= i <= n,
                    text@ == dotted(self@.take(i as int)),
                decreases n - i,
            {
                let label = &self.labels[i];
                proof {
                    assert(self@.take(i as int + 1) =~= self@.take(i as int).push(label@));
                    lemma_dotted_push(self@.take(i as int), label@);
                }
                let mut piece = clone_octets(label);
                text.append(&mut piece);
                text.push(DOT);
                i += 1;
                assert(text@ =~= dotted(self@.take(i as int)));
            }
            assert(self@.take(n as int) =~= self@);
        }
        match string_from_utf8(text) {
            Some(s) => s,
            None => {
                proof {
                    assert(false);
                }
                String::new()
            },
        }
    }

    /// The name's uncompressed wire form.
    pub fn as_bytes_uncompressed(&self) -> (buf: BytesMut)
        ensures
            buf_seq(buf) == name_wire(self@),
    {
        proof {
            use_type_invariant(self);
        }
        let mut buf = BytesMut::with_capacity(254);
        let n = self.labels.len();
        let mut i: usize = 0;
        while i < n
            invariant
                n == self.labels@.len(),
                0 <= i <= n,
                valid_name(self@),
                buf_seq(buf) + seq![0u8] == name_wire(self@.take(i as int)),
            decreases n - i,
        {
            let label = &self.labels[i];
            proof {
                assert(self@[i as int] == label@);
                assert(valid_label(self@[i as int]));
                assert(self@.take(i as int + 1) =~= self@.take(i as int).push(label@));
                lemma_name_wire_push(self@.take(i as int), label@);
                assert((buf_seq(buf) + seq![0u8]).drop_last() =~= buf_seq(buf));
            }
            buf_put_u8(&mut buf, label.len() as u8);
            buf_put_slice(&mut buf, label.as_slice());
            i += 1;
            assert(buf_seq(buf) + seq![0u8] =~= name_wire(self@.take(i as int)));
        }
        assert(self@.take(n as int) =~= self@);
        buf_put_u8(&mut buf, 0);
        assert(buf_seq(buf) =~= name_wire(self@));
        buf
    }
}

} // verus!
