//! Texts as UTF-8 bytes: their length, prefixes that keep to a byte limit, and decoding.
use vstd::prelude::*;
use vstd::utf8::{decode_utf8, encode_scalar, encode_utf8, valid_utf8};
use crate::text::{slice_string, to_chars};

verus! {

/// The number of bytes of a character in UTF-8.
pub open spec fn char_bytes(c: char) -> nat {
    let n = c as u32;
    if n < 0x80 {
        1
    } else if n < 0x800 {
        2
    } else if n < 0x10000 {
        3
    } else {
        4
    }
}

/// The number of bytes of a text in UTF-8.
pub open spec fn byte_len(s: Seq<char>) -> nat
    decreases s.len(),
{
    if s.len() == 0 {
        0
    } else {
        char_bytes(s[0]) + byte_len(s.drop_first())
    }
}

/// The byte length counted here is the length of the UTF-8 encoding.
pub proof fn lemma_byte_len_is_encoding_len(s: Seq<char>)
    ensures
        byte_len(s) == encode_utf8(s).len(),
    decreases s.len(),
{
    if s.len() > 0 {
        vstd::utf8::char_is_scalar(s[0]);
        assert(encode_scalar(s[0] as u32).len() == char_bytes(s[0]));
        lemma_byte_len_is_encoding_len(s.drop_first());
    }
}

/// How many leading characters of `s` fit together in `max` bytes.
pub open spec fn fitting(s: Seq<char>, max: int) -> nat
    decreases s.len(),
{
    if s.len() > 0 && char_bytes(s[0]) <= max {
        1 + fitting(s.drop_first(), max - char_bytes(s[0]))
    } else {
        0
    }
}

/// The longest prefix of `s`, in whole characters, of at most `max` bytes.
pub open spec fn byte_prefix(s: Seq<char>, max: nat) -> Seq<char> {
    s.take(fitting(s, max as int) as int)
}

/// A byte-limited prefix keeps to the limit, and with one character more it would not.
pub proof fn lemma_byte_prefix_is_longest(s: Seq<char>, max: nat)
    ensures
        fitting(s, max as int) <= s.len(),
        byte_len(byte_prefix(s, max)) <= max,
        fitting(s, max as int) < s.len() ==> byte_len(
            s.take(fitting(s, max as int) as int + 1),
        ) > max,
        byte_len(s) <= max ==> byte_prefix(s, max) == s,
    decreases s.len(),
{
    if s.len() > 0 && char_bytes(s[0]) <= max {
        let rest = s.drop_first();
        let left = (max - char_bytes(s[0])) as nat;
        lemma_byte_prefix_is_longest(rest, left);
        let k = fitting(rest, left as int) as int;
        assert(s.take(k + 1).drop_first() =~= rest.take(k));
        if k < rest.len() {
            assert(s.take(k + 2).drop_first() =~= rest.take(k + 1));
        }
        if byte_len(s) <= max {
            assert(s.take(k + 1) =~= s);
        }
    } else if s.len() > 0 {
        assert(s.take(1).drop_first() =~= Seq::<char>::empty());
        assert(s.take(0) =~= Seq::<char>::empty());
    } else {
        assert(s.take(0) =~= s);
    }
}

/// The number of bytes of one character in UTF-8.
pub fn utf8_width(c: char) -> (n: usize)
    ensures
        n == char_bytes(c),
        1 <= n <= 4,
{
    let n: u32 = c as u32;
    if n < 0x80 {
        1
    } else if n < 0x800 {
        2
    } else if n < 0x10000 {
        3
    } else {
        4
    }
}

/// `str::len`: the number of bytes of a text.
pub fn text_len(s: &str) -> (n: usize)
    ensures
        n == byte_len(s@),
{
    proof {
        lemma_byte_len_is_encoding_len(s@);
    }
    s.as_bytes().len()
}

/// The longest prefix of `s`, in whole characters, of at most `max` bytes.
pub fn truncate_bytes(s: &str, max: usize) -> (r: String)
    ensures
        r@ == byte_prefix(s@, max as nat),
{
    let v = to_chars(s);
    let mut left: usize = max;
    let mut i: usize = 0;
    proof {
        assert(v@.skip(0) =~= v@);
        lemma_byte_prefix_is_longest(v@, max as nat);
    }
    while i < v.len() && utf8_width(v[i]) <= left
        invariant
            i <= v@.len(),
            fitting(v@, max as int) == i + fitting(v@.skip(i as int), left as int),
        decreases v.len() - i,
    {
        proof {
            assert(v@.skip(i as int).drop_first() =~= v@.skip(i + 1));
        }
        left -= utf8_width(v[i]);
        i += 1;
    }
    proof {
        assert(v@.subrange(0, i as int) =~= v@.take(i as int));
    }
    slice_string(&v, 0, i)
}

/// What `String::from_utf8_lossy` makes of bytes.
pub uninterp spec fn utf8_lossy(bytes: Seq<u8>) -> Seq<char>;

/// `String::from_utf8_lossy`: the text that valid bytes encode; for other bytes the result
/// is only named.
#[verifier::external_body]
pub(crate) fn decode_lossy(bytes: &[u8]) -> (r: String)
    ensures
        r@ == utf8_lossy(bytes@),
        valid_utf8(bytes@) ==> r@ == decode_utf8(bytes@),
{
    String::from_utf8_lossy(bytes).to_string()
}

} // verus!
