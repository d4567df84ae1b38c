//! The calls into `bstr` and `std` that the search relies on, each behind a
//! contract: the outside code computes, the library states what it computed.

use bstr::ByteSlice;
use vstd::prelude::*;

verus! {

/// The runs of non-whitespace of `s`, in order, as `bstr` splits them.
pub uninterp spec fn fields_of(s: Seq<u8>) -> Seq<Seq<u8>>;

/// The Unicode words of `s`, in order, as `bstr` segments them.
pub uninterp spec fn words_of(s: Seq<u8>) -> Seq<Seq<u8>>;

/// The Unicode lowercase form of the bytes `s`, as `bstr` computes it.
pub uninterp spec fn lower_of(s: Seq<u8>) -> Seq<u8>;

/// The lowercase form of the characters `s`, as `str::to_lowercase` computes it.
pub uninterp spec fn str_lower_of(s: Seq<char>) -> Seq<char>;

/// A byte that can take part in a word character: any byte of a multi-byte
/// UTF-8 sequence, an ASCII letter or digit, or `_`.
pub open spec fn is_word_byte(b: u8) -> bool {
    b >= 128 || (48 <= b <= 57) || (65 <= b <= 90) || (97 <= b <= 122) || b == 95
}

/// Some byte of `w` is ASCII and cannot take part in a word character:
/// punctuation, a space or a control byte.
pub open spec fn has_ascii_non_word_byte(w: Seq<u8>) -> bool {
    exists|j: int| 0 <= j < w.len() && w[j] < 128 && !is_word_byte(w[j])
}

/// Some byte of `w` can take part in a word character.
pub open spec fn has_word_byte(w: Seq<u8>) -> bool {
    exists|j: int| 0 <= j < w.len() && is_word_byte(w[j])
}

/// Relies on bstr's `ByteSlice::fields`: the fields of `line`, in order.
#[verifier::external_body]
pub(crate) fn fields_in(line: &[u8]) -> (r: Vec<Vec<u8>>)
    ensures
        r@.map_values(|f: Vec<u8>| f@) == fields_of(line@),
{
    line.fields().map(|f| f.to_vec()).collect()
}

/// Relies on bstr's `ByteSlice::words`: the words of `line`, in order. Its
/// documentation says that each word holds a word character (alphabetic,
/// decimal digit, mark, connector punctuation or join control); in ASCII
/// those are the letters, the digits and `_`.
#[verifier::external_body]
pub(crate) fn words_in(line: &[u8]) -> (r: Vec<Vec<u8>>)
    ensures
        r@.map_values(|w: Vec<u8>| w@) == words_of(line@),
        forall|i: int| 0 <= i < r@.len() ==> has_word_byte(#[trigger] r@[i]@),
{
    line.words().map(|w| w.as_bytes().to_vec()).collect()
}

/// Relies on bstr's `ByteSlice::to_lowercase_into`: it appends the Unicode
/// lowercase form of `line` to `buf`, and leaves what `buf` held before.
#[verifier::external_body]
pub(crate) fn lowercase_into(line: &[u8], buf: &mut Vec<u8>)
    ensures
        final(buf)@ == old(buf)@ + lower_of(line@),
{
    line.to_lowercase_into(buf)
}

/// Relies on `str::to_lowercase`: the lowercase form of `s`.
#[verifier::external_body]
pub(crate) fn lowercase_str(s: &str) -> (r: String)
    ensures
        r@ == str_lower_of(s@),
{
    s.to_lowercase()
}

} // verus!
