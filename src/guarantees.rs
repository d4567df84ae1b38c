//! What every search guarantees, stated over the model of `search` and proved.

use crate::bytes::contains;
use crate::ext::has_ascii_non_word_byte;
use crate::lines::{terminator_of, without_terminator};
use crate::matcher::{Matcher, MatcherType};
use crate::results::ScanOutcome;
use crate::search::{
    folded, hits, line_numbers_of, outcome, pattern_bytes, recorded, selects, stored_lines,
    tested_form, lemma_hits_ordered,
};
use vstd::prelude::*;

verus! {

/// The selected indices are exactly the indices of the lines that the
/// matcher selects.
pub proof fn lemma_hits_are_selected(m: Matcher, lines: Seq<Seq<u8>>)
    ensures
        forall|i: int|
            0 <= i < lines.len() ==> (selects(m, lines[i]) <==> hits(m, lines).contains(i)),
    decreases lines.len(),
{
    if lines.len() > 0 {
        let prev = lines.drop_last();
        lemma_hits_are_selected(m, prev);
        lemma_hits_ordered(m, prev);
        let h = hits(m, prev);
        let last = lines.len() - 1;
        assert forall|i: int| 0 <= i < lines.len() implies (selects(m, lines[i]) <==> hits(
            m,
            lines,
        ).contains(i)) by {
            if i < last {
                assert(prev[i] == lines[i]);
                if hits(m, lines).contains(i) {
                    let k = choose|k: int| 0 <= k < hits(m, lines).len() && hits(m, lines)[k] == i;
                    if k < h.len() {
                        assert(h[k] == i);
                    }
                }
                if h.contains(i) {
                    let k = choose|k: int| 0 <= k < h.len() && h[k] == i;
                    assert(hits(m, lines)[k] == i);
                }
            } else {
                if hits(m, lines).contains(i) {
                    let k = choose|k: int| 0 <= k < hits(m, lines).len() && hits(m, lines)[k] == i;
                    if k < h.len() {
                        assert(h[k] < prev.len());
                    }
                }
                if selects(m, lines[i]) {
                    assert(hits(m, lines)[h.len() as int] == i);
                }
            }
        }
    }
}

/// When the matcher selects no line, nothing is recorded.
proof fn lemma_nothing_selected(m: Matcher, lines: Seq<Seq<u8>>)
    requires
        forall|i: int| 0 <= i < lines.len() ==> !selects(m, #[trigger] lines[i]),
    ensures
        outcome(m, lines) == if m.config.count {
            ScanOutcome::Count { count: 0 }
        } else {
            ScanOutcome::Search { matches: Seq::empty(), line_numbers: None }
        },
{
    lemma_hits_are_selected(m, lines);
    lemma_hits_ordered(m, lines);
    let h = hits(m, lines);
    if h.len() > 0 {
        assert(h.contains(h[0]));
        assert(!selects(m, lines[h[0]]));
    }
    assert(stored_lines(lines, recorded(m, lines)) =~= Seq::empty());
}

/// When no line holds the pattern, nothing is recorded: the search returns
/// no lines and no numbers, and a count of zero in count mode.
pub proof fn lemma_no_match(m: Matcher, lines: Seq<Seq<u8>>)
    requires
        m.matcher_type == MatcherType::Base || m.matcher_type == MatcherType::MaxCount,
        forall|i: int|
            0 <= i < lines.len() ==> !contains(
                #[trigger] tested_form(m, lines[i]),
                pattern_bytes(m),
            ),
    ensures
        outcome(m, lines) == if m.config.count {
            ScanOutcome::Count { count: 0 }
        } else {
            ScanOutcome::Search { matches: Seq::empty(), line_numbers: None }
        },
{
    assert forall|i: int| 0 <= i < lines.len() implies !selects(m, #[trigger] lines[i]) by {
        assert(!contains(tested_form(m, lines[i]), pattern_bytes(m)));
    }
    lemma_nothing_selected(m, lines);
}

/// In whole-word mode, a pattern that holds punctuation, a space or a
/// control byte matches no line, even one that contains it: nothing is
/// recorded, and the count is zero.
pub proof fn lemma_word_mode_punctuation(m: Matcher, lines: Seq<Seq<u8>>)
    requires
        m.matcher_type == MatcherType::Words,
        has_ascii_non_word_byte(pattern_bytes(m)),
    ensures
        outcome(m, lines) == if m.config.count {
            ScanOutcome::Count { count: 0 }
        } else {
            ScanOutcome::Search { matches: Seq::empty(), line_numbers: None }
        },
{
    lemma_nothing_selected(m, lines);
}

/// Recorded lines come in stream order; their numbers, when present, are
/// one per recorded line, strictly increasing, and each is the 1-based
/// position of its line.
pub proof fn lemma_order_preserved(m: Matcher, lines: Seq<Seq<u8>>)
    ensures
        forall|a: int, b: int|
            0 <= a < b < recorded(m, lines).len() ==> recorded(m, lines)[a] < recorded(
                m,
                lines,
            )[b],
        outcome(m, lines) matches ScanOutcome::Search { matches, line_numbers } ==> {
            &&& matches == stored_lines(lines, recorded(m, lines))
            &&& line_numbers matches Some(ns) ==> {
                &&& ns.len() == matches.len()
                &&& forall|a: int, b: int| 0 <= a < b < ns.len() ==> ns[a] < ns[b]
                &&& forall|k: int| 0 <= k < ns.len() ==> 1 <= #[trigger] ns[k] <= lines.len()
            }
        },
{
    lemma_hits_ordered(m, lines);
    let h = hits(m, lines);
    let r = recorded(m, lines);
    assert forall|k: int| 0 <= k < r.len() implies r[k] == h[k] by {}
}

/// With a bound of `n`, at most `n` lines are recorded or counted, and they
/// are the first `n` selected lines, in order.
pub proof fn lemma_max_count_bound(m: Matcher, lines: Seq<Seq<u8>>, n: u64)
    requires
        m.config.max_count == Some(n),
    ensures
        recorded(m, lines).len() <= n,
        recorded(m, lines) == hits(m, lines).take(recorded(m, lines).len() as int),
        recorded(m, lines).len() == if hits(m, lines).len() < n {
            hits(m, lines).len()
        } else {
            n as nat
        },
        outcome(m, lines) matches ScanOutcome::Search { matches, line_numbers } ==> matches.len()
            <= n,
        outcome(m, lines) matches ScanOutcome::Count { count } ==> count <= n,
{
    let h = hits(m, lines);
    if h.len() <= n {
        assert(h.take(h.len() as int) =~= h);
    }
}

/// A record is its line without the terminator, and nothing else is cut: the
/// line is the record followed by its `\r\n`, `\n` or nothing, so a NUL or
/// any byte other than `\n` and `\r` stays in place.
pub proof fn lemma_record_keeps_bytes(line: Seq<u8>)
    ensures
        without_terminator(line) + terminator_of(line) == line,
        forall|j: int|
            0 <= j < line.len() && line[j] != 10 && line[j] != 13 ==> j < without_terminator(
                line,
            ).len() && without_terminator(line)[j] == line[j],
{
    let t = without_terminator(line);
    let e = terminator_of(line);
    if e.len() == 2 {
        assert(line.skip(line.len() - 2) == e);
        assert(line[line.len() - 2] == line.skip(line.len() - 2)[0]);
        assert(line[line.len() - 1] == line.skip(line.len() - 2)[1]);
    } else if e.len() == 1 {
        assert(line.skip(line.len() - 1) == e);
        assert(line[line.len() - 1] == line.skip(line.len() - 1)[0]);
    }
    assert(t + e =~= line);
    assert forall|j: int| 0 <= j < line.len() && line[j] != 10 && line[j] != 13 implies j < t.len()
        && t[j] == line[j] by {
        assert((t + e)[j] == line[j]);
    }
}

/// In the containment modes, without case folding, a line is selected
/// exactly when the pattern's bytes occur in it, NUL bytes and invalid UTF-8
/// included; what is stored is the line, byte for byte, up to its terminator.
pub proof fn lemma_binary_safe(m: Matcher, line: Seq<u8>)
    requires
        m.matcher_type == MatcherType::Base || m.matcher_type == MatcherType::MaxCount,
        !m.config.ignore_case,
    ensures
        selects(m, line) == contains(line, pattern_bytes(m)),
        without_terminator(line) + terminator_of(line) == line,
        forall|j: int|
            0 <= j < line.len() && line[j] != 10 && line[j] != 13 ==> j < without_terminator(
                line,
            ).len() && without_terminator(line)[j] == line[j],
{
    lemma_record_keeps_bytes(line);
}

/// When case is ignored, a line is selected exactly when its lowercase form
/// passes the test with the lowercased pattern; in the containment modes,
/// when the pattern occurs in that form. The form is the Unicode lowercasing
/// of the line, done byte-wise when the line is ASCII.
pub proof fn lemma_case_fold(m: Matcher, line: Seq<u8>)
    requires
        m.config.ignore_case,
    ensures
        tested_form(m, line) == folded(line),
        (m.matcher_type == MatcherType::Base || m.matcher_type == MatcherType::MaxCount) ==> (
        selects(m, line) <==> contains(folded(line), pattern_bytes(m))),
{
}

} // verus!
