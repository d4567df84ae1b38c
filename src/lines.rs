//! How a byte stream divides into lines: each line runs up to and including
//! its `\n`; a last line without one ends with the stream. A line's
//! terminator is its final `\r\n` or `\n`, and only that is cut from a record.

use crate::bytes::{ends_with_bytes, has_suffix};
use vstd::prelude::*;

verus! {

/// The length of the first line of `s`, its `\n` included.
pub open spec fn first_line_len(s: Seq<u8>) -> nat
    decreases s.len(),
{
    if s.len() == 0 {
        0
    } else if s[0] == 10 {
        1
    } else {
        1 + first_line_len(s.drop_first())
    }
}

/// The lines of `s`, in order, each with its terminator.
pub open spec fn lines_of(s: Seq<u8>) -> Seq<Seq<u8>>
    decreases s.len(),
{
    if s.len() == 0 {
        seq![]
    } else {
        let k = first_line_len(s) as int;
        proof {
            lemma_first_line_len_bounds(s);
        }
        seq![s.take(k)] + lines_of(s.skip(k))
    }
}

/// A non-empty stream has a first line, and it lies within the stream.
pub proof fn lemma_first_line_len_bounds(s: Seq<u8>)
    ensures
        s.len() > 0 ==> 1 <= first_line_len(s) <= s.len(),
    decreases s.len(),
{
    if s.len() > 0 && s[0] != 10 {
        lemma_first_line_len_bounds(s.drop_first());
        assert(s.len() == 1 ==> first_line_len(s.drop_first()) == 0);
    }
}

/// The first line of `s` ends after the first `\n`, found at `m`, or with `s`
/// when `m` is its length.
proof fn lemma_first_line_len_at(s: Seq<u8>, m: int)
    requires
        0 <= m <= s.len(),
        forall|k: int| 0 <= k < m ==> s[k] != 10,
        m == s.len() || s[m] == 10,
    ensures
        first_line_len(s) == if m < s.len() {
            m + 1
        } else {
            m
        },
    decreases m,
{
    if m > 0 {
        lemma_first_line_len_at(s.drop_first(), m - 1);
    }
}

/// The end of the line that starts at `start`: one past its `\n`, or the
/// length of `s` for a last line without one.
pub fn line_end(s: &[u8], start: usize) -> (end: usize)
    requires
        start < s@.len(),
    ensures
        end == start + first_line_len(s@.skip(start as int)),
        start < end <= s@.len(),
{
    let mut j: usize = start;
    while j < s.len() && s[j] != 10
        invariant
            start <= j <= s@.len(),
            forall|k: int| start <= k < j ==> s@[k] != 10,
        decreases s@.len() - j,
    {
        j += 1;
    }
    let ghost t = s@.skip(start as int);
    assert forall|k: int| 0 <= k < j - start implies t[k] != 10 by {
        assert(t[k] == s@[start + k]);
    }
    proof {
        lemma_first_line_len_at(t, j - start);
    }
    if j < s.len() {
        j + 1
    } else {
        j
    }
}

/// `s` without its line terminator: a final `\r\n`, else a final `\n`, else
/// nothing. Every other byte stays, a `\r` that is not followed by the
/// final `\n` included.
pub open spec fn without_terminator(s: Seq<u8>) -> Seq<u8> {
    if has_suffix(s, seq![13u8, 10u8]) {
        s.drop_last().drop_last()
    } else if has_suffix(s, seq![10u8]) {
        s.drop_last()
    } else {
        s
    }
}

/// The terminator of `s`: `\r\n`, `\n`, or nothing.
pub open spec fn terminator_of(s: Seq<u8>) -> Seq<u8> {
    if has_suffix(s, seq![13u8, 10u8]) {
        seq![13u8, 10u8]
    } else if has_suffix(s, seq![10u8]) {
        seq![10u8]
    } else {
        seq![]
    }
}

/// A copy of `line` without its terminator.
pub fn trim_terminator(line: &[u8]) -> (r: Vec<u8>)
    ensures
        r@ == without_terminator(line@),
{
    let crlf: [u8; 2] = [13, 10];
    let lf: [u8; 1] = [10];
    assert(crlf@ =~= seq![13u8, 10u8]);
    assert(lf@ =~= seq![10u8]);
    let keep: usize = if ends_with_bytes(line, crlf.as_slice()) {
        line.len() - 2
    } else if ends_with_bytes(line, lf.as_slice()) {
        line.len() - 1
    } else {
        line.len()
    };
    let mut out: Vec<u8> = Vec::with_capacity(keep);
    let mut i: usize = 0;
    while i < keep
        invariant
            keep <= line@.len(),
            i <= keep,
            out@ == line@.take(i as int),
        decreases keep - i,
    {
        out.push(line[i]);
        assert(line@.take(i + 1) =~= line@.take(i as int).push(line@[i as int]));
        i += 1;
    }
    assert(line@.take(keep as int) =~= without_terminator(line@));
    out
}

} // verus!
