//! Text and octets: what the standard library decides about UTF-8, and
//! numbers and lists written as text.

use vstd::prelude::*;
use vstd::string::StringExecFns;
use vstd::utf8::{decode_utf8, valid_utf8};

verus! {

/// `std::str::from_utf8`: succeeds on exactly the well-formed UTF-8
/// sequences.
#[verifier::external_body]
pub(crate) fn is_utf8(bytes: &[u8]) -> (r: bool)
    ensures
        r == valid_utf8(bytes@),
{
    std::str::from_utf8(bytes).is_ok()
}

/// `String::from_utf8`: the text that well-formed UTF-8 octets spell, and
/// nothing for octets that are not well formed.
#[verifier::external_body]
pub(crate) fn string_from_utf8(bytes: Vec<u8>) -> (r: Option<String>)
    ensures
        r is Some == valid_utf8(bytes@),
        r is Some ==> r->Some_0@ == decode_utf8(bytes@),
{
    String::from_utf8(bytes).ok()
}

/// The character of a decimal digit.
pub open spec fn digit(d: nat) -> char {
    if d == 0 {
        '0'
    } else if d == 1 {
        '1'
    } else if d == 2 {
        '2'
    } else if d == 3 {
        '3'
    } else if d == 4 {
        '4'
    } else if d == 5 {
        '5'
    } else if d == 6 {
        '6'
    } else if d == 7 {
        '7'
    } else if d == 8 {
        '8'
    } else {
        '9'
    }
}

/// A number written in decimal digits, without leading zeros.
pub open spec fn decimal(n: nat) -> Seq<char>
    decreases n,
{
    if n < 10 {
        seq![digit(n)]
    } else {
        decimal(n / 10).push(digit(n % 10))
    }
}

/// A decimal digit as text.
fn digit_str(d: u16) -> (s: &'static str)
    requires
        d < 10,
    ensures
        s@ == seq![digit(d as nat)],
{
    proof {
        reveal_strlit("0");
        reveal_strlit("1");
        reveal_strlit("2");
        reveal_strlit("3");
        reveal_strlit("4");
        reveal_strlit("5");
        reveal_strlit("6");
        reveal_strlit("7");
        reveal_strlit("8");
        reveal_strlit("9");
        assert("0"@ =~= seq!['0']);
        assert("1"@ =~= seq!['1']);
        assert("2"@ =~= seq!['2']);
        assert("3"@ =~= seq!['3']);
        assert("4"@ =~= seq!['4']);
        assert("5"@ =~= seq!['5']);
        assert("6"@ =~= seq!['6']);
        assert("7"@ =~= seq!['7']);
        assert("8"@ =~= seq!['8']);
        assert("9"@ =~= seq!['9']);
    }
    match d {
        0 => "0",
        1 => "1",
        2 => "2",
        3 => "3",
        4 => "4",
        5 => "5",
        6 => "6",
        7 => "7",
        8 => "8",
        _ => "9",
    }
}

/// A number written in decimal digits.
pub fn decimal_string(n: u16) -> (s: String)
    ensures
        s@ == decimal(n as nat),
    decreases n,
{
    if n < 10 {
        digit_str(n).to_owned()
    } else {
        let mut s = decimal_string(n / 10);
        let last = digit_str(n % 10);
        let ghost before = s@;
        s.append(last);
        assert(before + last@ =~= before.push(digit((n % 10) as nat)));
        s
    }
}

/// Texts written one after another, a comma and a blank between each
/// two.
pub open spec fn joined(items: Seq<Seq<char>>) -> Seq<char>
    decreases items.len(),
{
    if items.len() == 0 {
        Seq::empty()
    } else if items.len() == 1 {
        items[0]
    } else {
        joined(items.drop_last()) + ", "@ + items.last()
    }
}

/// Texts as a list: between square brackets, a comma and a blank between
/// each two.
pub open spec fn list_text(items: Seq<Seq<char>>) -> Seq<char> {
    "["@ + joined(items) + "]"@
}

/// Octets as a list of numbers in decimal.
pub open spec fn octets_text(octets: Seq<u8>) -> Seq<char> {
    list_text(Seq::new(octets.len(), |i: int| decimal(octets[i] as nat)))
}

/// The texts that a vector of strings holds.
pub open spec fn texts_view(v: Seq<String>) -> Seq<Seq<char>> {
    Seq::new(v.len(), |i: int| v[i]@)
}

/// Texts as a list.
pub fn list_string(items: &Vec<String>) -> (s: String)
    ensures
        s@ == list_text(texts_view(items@)),
{
    let ghost texts = texts_view(items@);
    let mut s = "[".to_owned();
    let n = items.len();
    let mut i: usize = 0;
    assert(s@ =~= "["@ + joined(texts.take(0)));
    while i < n
        invariant
            n == items@.len(),
            texts == texts_view(items@),
            0 <= i <= n,
            s@ == "["@ + joined(texts.take(i as int)),
        decreases n - i,
    {
        let ghost before = s@;
        proof {
            assert(texts.take(i as int + 1).drop_last() =~= texts.take(i as int));
            assert(texts.take(i as int + 1).last() == items@[i as int]@);
        }
        if i > 0 {
            s.append(", ");
        }
        s.append(items[i].as_str());
        i += 1;
        assert(s@ =~= "["@ + joined(texts.take(i as int)));
    }
    assert(texts.take(n as int) =~= texts);
    s.append("]");
    s
}

/// Octets as a list of numbers in decimal.
pub fn octets_string(octets: &Vec<u8>) -> (s: String)
    ensures
        s@ == octets_text(octets@),
{
    let mut numbers: Vec<String> = Vec::new();
    let n = octets.len();
    let mut i: usize = 0;
    while i < n
        invariant
            n == octets@.len(),
            0 <= i <= n,
            numbers@.len() == i,
            forall|j: int| 0 <= j < i ==> (#[trigger] numbers@[j])@ == decimal(octets@[j] as nat),
        decreases n - i,
    {
        numbers.push(decimal_string(octets[i] as u16));
        i += 1;
    }
    assert(texts_view(numbers@) =~= Seq::new(octets@.len(), |i: int| decimal(octets@[i] as nat)));
    list_string(&numbers)
}

/// A copy of a vector of octets.
pub fn clone_octets(v: &Vec<u8>) -> (r: Vec<u8>)
    ensures
        r@ == v@,
{
    vstd::slice::slice_to_vec(v.as_slice())
}

} // verus!
