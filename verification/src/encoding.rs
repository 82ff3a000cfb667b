//! Percent-encoding of text as the `urlencoding` crate performs it: over
//! the UTF-8 bytes of the input, ASCII alphanumerics and `-`, `_`, `.`,
//! `~` stay as they are; every other byte becomes `%` followed by two
//! uppercase hexadecimal digits.

use vstd::prelude::*;
use vstd::utf8::encode_scalar;

verus! {

/// Characters that percent-encoding leaves unchanged.
pub open spec fn is_unreserved(c: char) -> bool {
    ('a' <= c && c <= 'z') || ('A' <= c && c <= 'Z') || ('0' <= c && c <= '9') || c == '-' || c
        == '_' || c == '.' || c == '~'
}

/// The sixteen hexadecimal digit characters, upper case.
pub open spec fn hex_digit(n: int) -> char
    recommends
        0 <= n < 16,
{
    seq!['0', '1', '2', '3', '4', '5', '6', '7', '8', '9', 'A', 'B', 'C', 'D', 'E', 'F'][n]
}

/// One byte escaped as `%` plus two hexadecimal digits.
pub open spec fn percent_escape(b: u8) -> Seq<char> {
    seq!['%', hex_digit(b as int / 16), hex_digit(b as int % 16)]
}

/// Every byte of the sequence escaped, in order.
pub open spec fn percent_escape_all(bs: Seq<u8>) -> Seq<char>
    decreases bs.len(),
{
    if bs.len() == 0 {
        Seq::empty()
    } else {
        percent_escape(bs[0]) + percent_escape_all(bs.drop_first())
    }
}

/// How one character is rendered: an unreserved character stands as
/// itself, every other character as the escaped bytes of its UTF-8
/// encoding.
pub open spec fn encode_char(c: char) -> Seq<char> {
    if is_unreserved(c) {
        seq![c]
    } else {
        percent_escape_all(encode_scalar(c as u32))
    }
}

/// How a whole string is rendered: each character independently, in order.
pub open spec fn encode_chars(s: Seq<char>) -> Seq<char>
    decreases s.len(),
{
    if s.len() == 0 {
        Seq::empty()
    } else {
        encode_char(s[0]) + encode_chars(s.drop_first())
    }
}

/// Relies on `urlencoding::encode`: it percent-encodes every byte of the
/// input's UTF-8 form except ASCII alphanumerics and `-`, `_`, `.`, `~`,
/// writing `%` and two uppercase hexadecimal digits for each escaped byte.
#[verifier::external_body]
pub(crate) fn encode(s: &str) -> (r: String)
    ensures
        r@ == encode_chars(s@),
{
    urlencoding::encode(s).into_owned()
}

/// Round-trip neutrality: a string made of unreserved characters only is
/// rendered unchanged.
pub proof fn lemma_unreserved_unescaped(s: Seq<char>)
    requires
        forall|i: int| 0 <= i < s.len() ==> is_unreserved(s[i]),
    ensures
        encode_chars(s) == s,
    decreases s.len(),
{
    if s.len() == 0 {
        assert(encode_chars(s) =~= s);
    } else {
        lemma_unreserved_unescaped(s.drop_first());
        assert(encode_chars(s) =~= s);
    }
}

/// A space is rendered as `%20`, and a slash inside a segment as `%2F`:
/// neither survives unescaped.
pub proof fn lemma_space_and_slash_escaped()
    ensures
        encode_char(' ') == seq!['%', '2', '0'],
        encode_char('/') == seq!['%', '2', 'F'],
{
    assert(' ' as u32 == 32);
    assert('/' as u32 == 47);
    assert(32u32 & 0x7F == 32) by (bit_vector);
    assert(47u32 & 0x7F == 47) by (bit_vector);
    assert(encode_scalar(32) =~= seq![32u8]);
    assert(encode_scalar(47) =~= seq![47u8]);
    assert(percent_escape_all(Seq::<u8>::empty()) == Seq::<char>::empty());
    assert(seq![32u8].drop_first() =~= Seq::<u8>::empty());
    assert(seq![47u8].drop_first() =~= Seq::<u8>::empty());
    assert(percent_escape_all(seq![32u8]) =~= percent_escape(32u8));
    assert(percent_escape_all(seq![47u8]) =~= percent_escape(47u8));
    assert(encode_char(' ') =~= seq!['%', '2', '0']);
    assert(encode_char('/') =~= seq!['%', '2', 'F']);
}

} // verus!
