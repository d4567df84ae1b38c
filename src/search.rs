//! The search itself: which lines a matcher selects, which of those it
//! records under its bound, the scan that gathers them one line at a time,
//! and the searcher that runs a scan over a whole byte stream.

use crate::bytes::{all_ascii, ascii_lower, ascii_lowercase_into, contains, is_ascii_bytes};
use crate::ext::{lower_of, lowercase_into};
use crate::lines::{first_line_len, line_end, lines_of, without_terminator};
use crate::matcher::{Matcher, MatcherType};
use crate::results::{
    check_contains, check_ends_with, check_starts_ends_with, check_starts_with, check_words,
    field_ends, field_starts, field_starts_ends, word_equals, CountResult, GenInnerResult,
    ScanOutcome, SearchInnerResult, SearchResult, numbers_view,
};
use vstd::prelude::*;
use vstd::slice::slice_subrange;
use vstd::utf8::encode_utf8;

verus! {

/// The lowercase form of a line: byte-wise when every byte is ASCII, the
/// full Unicode lowercasing otherwise.
pub open spec fn folded(line: Seq<u8>) -> Seq<u8> {
    if all_ascii(line) {
        ascii_lower(line)
    } else {
        lower_of(line)
    }
}

/// Whether `line` passes the test of kind `t` for pattern `p`.
pub open spec fn line_matches(t: MatcherType, line: Seq<u8>, p: Seq<u8>) -> bool {
    match t {
        MatcherType::Base => contains(line, p),
        MatcherType::MaxCount => contains(line, p),
        MatcherType::StartsWith => field_starts(line, p),
        MatcherType::EndsWith => field_ends(line, p),
        MatcherType::StartsEndsWith => field_starts_ends(line, p),
        MatcherType::Words => word_equals(line, p),
    }
}

/// The bytes of the matcher's pattern.
pub open spec fn pattern_bytes(m: Matcher) -> Seq<u8> {
    encode_utf8(m.pattern@)
}

/// The bytes that the test reads for `line`: the line, or its lowercase form
/// when case is ignored.
pub open spec fn tested_form(m: Matcher, line: Seq<u8>) -> Seq<u8> {
    if m.config.ignore_case {
        folded(line)
    } else {
        line
    }
}

/// Whether the matcher selects `line`.
pub open spec fn selects(m: Matcher, line: Seq<u8>) -> bool {
    line_matches(m.matcher_type, tested_form(m, line), pattern_bytes(m))
}

/// The indices, in order, of the lines that the matcher selects.
pub open spec fn hits(m: Matcher, lines: Seq<Seq<u8>>) -> Seq<int>
    decreases lines.len(),
{
    if lines.len() == 0 {
        seq![]
    } else {
        let before = hits(m, lines.drop_last());
        if selects(m, lines.last()) {
            before.push(lines.len() - 1)
        } else {
            before
        }
    }
}

/// The indices of the lines that a search records: the selected ones, cut
/// to the first `n` when the matcher is bounded by `n`.
pub open spec fn recorded(m: Matcher, lines: Seq<Seq<u8>>) -> Seq<int> {
    let h = hits(m, lines);
    match m.config.max_count {
        Some(n) => if h.len() > n {
            h.take(n as int)
        } else {
            h
        },
        None => h,
    }
}

/// The lines at `idx`, each without its terminator.
pub open spec fn stored_lines(lines: Seq<Seq<u8>>, idx: Seq<int>) -> Seq<Seq<u8>> {
    idx.map_values(|i: int| without_terminator(lines[i]))
}

/// The 1-based numbers of the lines at `idx`.
pub open spec fn line_numbers_of(idx: Seq<int>) -> Seq<int> {
    idx.map_values(|i: int| i + 1)
}

/// What a search of `lines` returns: the number of recorded lines in count
/// mode; else the recorded lines, without terminators, and their numbers,
/// which are absent when suppressed or when nothing was recorded.
pub open spec fn outcome(m: Matcher, lines: Seq<Seq<u8>>) -> ScanOutcome {
    let r = recorded(m, lines);
    if m.config.count {
        ScanOutcome::Count { count: r.len() as int }
    } else {
        ScanOutcome::Search {
            matches: stored_lines(lines, r),
            line_numbers: if m.config.no_line_number || r.len() == 0 {
                None
            } else {
                Some(line_numbers_of(r))
            },
        }
    }
}

/// One more line extends the selected indices by its own index exactly when
/// the matcher selects it.
pub proof fn lemma_hits_push(m: Matcher, lines: Seq<Seq<u8>>, line: Seq<u8>)
    ensures
        hits(m, lines.push(line)) == if selects(m, line) {
            hits(m, lines).push(lines.len() as int)
        } else {
            hits(m, lines)
        },
{
    assert(lines.push(line).drop_last() =~= lines);
}

/// The selected indices are indices of `lines`, in strictly increasing order.
pub proof fn lemma_hits_ordered(m: Matcher, lines: Seq<Seq<u8>>)
    ensures
        hits(m, lines).len() <= lines.len(),
        forall|k: int|
            0 <= k < hits(m, lines).len() ==> 0 <= #[trigger] hits(m, lines)[k] < lines.len(),
        forall|a: int, b: int|
            0 <= a < b < hits(m, lines).len() ==> hits(m, lines)[a] < hits(m, lines)[b],
    decreases lines.len(),
{
    if lines.len() > 0 {
        lemma_hits_ordered(m, lines.drop_last());
    }
}

/// While the budget is open, one more line is recorded exactly when the
/// matcher selects it.
proof fn lemma_recorded_open(m: Matcher, seen: Seq<Seq<u8>>, line: Seq<u8>)
    requires
        match m.config.max_count {
            Some(n) => recorded(m, seen).len() < n,
            None => true,
        },
    ensures
        recorded(m, seen.push(line)) == if selects(m, line) {
            recorded(m, seen).push(seen.len() as int)
        } else {
            recorded(m, seen)
        },
{
    lemma_hits_push(m, seen, line);
}

/// Once the budget is spent, more lines record nothing.
proof fn lemma_recorded_closed(m: Matcher, seen: Seq<Seq<u8>>, line: Seq<u8>)
    requires
        m.config.max_count is Some,
        recorded(m, seen).len() == m.config.max_count->0,
    ensures
        recorded(m, seen.push(line)) == recorded(m, seen),
{
    lemma_hits_push(m, seen, line);
    let n = m.config.max_count->0 as int;
    let h = hits(m, seen);
    assert(h.push(seen.len() as int).take(n) =~= h.take(n));
    assert(h.len() == n ==> h.take(n) =~= h);
}

/// Stored lines and numbers grow with the recorded indices, and do not
/// change when a later line is added to the stream.
proof fn lemma_stored_push(seen: Seq<Seq<u8>>, r: Seq<int>, line: Seq<u8>)
    requires
        forall|k: int| 0 <= k < r.len() ==> 0 <= #[trigger] r[k] < seen.len(),
    ensures
        stored_lines(seen.push(line), r) == stored_lines(seen, r),
        stored_lines(seen.push(line), r.push(seen.len() as int)) == stored_lines(seen, r).push(
            without_terminator(line),
        ),
        line_numbers_of(r.push(seen.len() as int)) == line_numbers_of(r).push(seen.len() as int + 1),
{
    let s2 = seen.push(line);
    assert forall|k: int| 0 <= k < r.len() implies s2[r[k]] == seen[r[k]] by {}
    assert(stored_lines(s2, r) =~= stored_lines(seen, r));
    assert(stored_lines(s2, r.push(seen.len() as int)) =~= stored_lines(seen, r).push(
        without_terminator(line),
    ));
    assert(line_numbers_of(r.push(seen.len() as int)) =~= line_numbers_of(r).push(seen.len() as int + 1));
}

/// The recorded indices are selected indices, so they too lie within the
/// stream, in strictly increasing order.
proof fn lemma_recorded_ordered(m: Matcher, lines: Seq<Seq<u8>>)
    ensures
        recorded(m, lines).len() <= lines.len(),
        forall|k: int|
            0 <= k < recorded(m, lines).len() ==> 0 <= #[trigger] recorded(m, lines)[k]
                < lines.len(),
        forall|a: int, b: int|
            0 <= a < b < recorded(m, lines).len() ==> recorded(m, lines)[a] < recorded(
                m,
                lines,
            )[b],
{
    lemma_hits_ordered(m, lines);
}

/// Whether `line` passes the test of kind `t` for `pattern`.
pub fn check_line(t: MatcherType, line: &[u8], pattern: &[u8]) -> (r: bool)
    ensures
        r == line_matches(t, line@, pattern@),
{
    match t {
        MatcherType::Base => check_contains(line, pattern),
        MatcherType::MaxCount => check_contains(line, pattern),
        MatcherType::StartsWith => check_starts_with(line, pattern),
        MatcherType::EndsWith => check_ends_with(line, pattern),
        MatcherType::StartsEndsWith => check_starts_ends_with(line, pattern),
        MatcherType::Words => check_words(line, pattern),
    }
}

/// A scan in progress: the lines seen so far, and what was gathered from
/// them. Feed it lines in stream order, then finish it.
pub struct Scan {
    line_number: u64,
    matches_left: Option<u64>,
    search: SearchInnerResult,
    count: CountResult,
    scratch: Vec<u8>,
    seen: Ghost<Seq<Seq<u8>>>,
}

impl Scan {
    /// The lines fed so far, in order.
    pub closed spec fn lines_seen(&self) -> Seq<Seq<u8>> {
        self.seen@
    }

    /// The scan agrees with the matcher `m` on the lines seen: its counter is
    /// their number, its budget is what the bound leaves, and its gathered
    /// lines, numbers or count are those of `outcome`.
    pub closed spec fn wf(&self, m: Matcher) -> bool {
        let seen = self.seen@;
        let r = recorded(m, seen);
        &&& self.line_number == seen.len()
        &&& match m.config.max_count {
            Some(n) => r.len() <= n && self.matches_left == Some((n - r.len()) as u64),
            None => self.matches_left is None,
        }
        &&& if m.config.count {
            &&& self.count.count == r.len()
            &&& self.search.matches@.len() == 0
            &&& self.search.line_numbers@.len() == 0
        } else {
            &&& self.count.count == 0
            &&& self.search.matches_view() == stored_lines(seen, r)
            &&& numbers_view(self.search.line_numbers@) == if m.config.no_line_number {
                Seq::<int>::empty()
            } else {
                line_numbers_of(r)
            }
        }
    }

    /// A scan that has seen no line.
    pub fn new(m: &Matcher) -> (r: Scan)
        ensures
            r.wf(*m),
            r.lines_seen() == Seq::<Seq<u8>>::empty(),
    {
        let s = Scan {
            line_number: 0,
            matches_left: m.config.max_count,
            search: SearchInnerResult::default(),
            count: CountResult::default(),
            scratch: Vec::new(),
            seen: Ghost(Seq::empty()),
        };
        assert(s.search.matches_view() =~= stored_lines(Seq::empty(), Seq::empty()));
        assert(numbers_view(s.search.line_numbers@) =~= Seq::<int>::empty());
        assert(line_numbers_of(Seq::<int>::empty()) =~= Seq::<int>::empty());
        s
    }

    /// Feeds the next line of the stream, terminator included. The line is
    /// tested only while the budget lasts, and counted in any case.
    pub fn feed_line(&mut self, m: &Matcher, line: &[u8])
        requires
            old(self).wf(*m),
            old(self).lines_seen().len() < u64::MAX,
        ensures
            final(self).wf(*m),
            final(self).lines_seen() == old(self).lines_seen().push(line@),
    {
        let ghost seen0 = self.seen@;
        let ghost r0 = recorded(*m, seen0);
        let ghost seen1 = seen0.push(line@);
        proof {
            lemma_recorded_ordered(*m, seen0);
            lemma_stored_push(seen0, r0, line@);
        }
        self.line_number = self.line_number + 1;
        self.seen = Ghost(seen1);
        let open = match self.matches_left {
            Some(n) => n > 0,
            None => true,
        };
        if !open {
            proof {
                lemma_recorded_closed(*m, seen0, line@);
            }
            return;
        }
        proof {
            lemma_recorded_open(*m, seen0, line@);
        }
        let pattern = m.pattern.as_str().as_bytes();
        let t = m.matcher_type;
        let check = |l: &[u8], p: &[u8]| -> (r: bool)
            ensures
                r == line_matches(t, l@, p@),
            { check_line(t, l, p) };
        if m.config.ignore_case {
            self.scratch.clear();
            if is_ascii_bytes(line) {
                ascii_lowercase_into(line, &mut self.scratch);
            } else {
                lowercase_into(line, &mut self.scratch);
            }
            assert(self.scratch@ =~= folded(line@));
        }
        let tested: &[u8] = if m.config.ignore_case {
            self.scratch.as_slice()
        } else {
            line
        };
        assert(tested@ == tested_form(*m, line@));
        assert(forall|hit: bool|
            check.ensures((tested, pattern), hit) ==> hit == selects(*m, line@));
        let number = self.line_number;
        if m.config.count {
            let before = self.count.count;
            self.count.check_and_add(pattern, tested, check);
            if self.count.count > before {
                if let Some(n) = self.matches_left {
                    self.matches_left = Some(n - 1);
                }
            }
        } else if m.config.no_line_number {
            match self.matches_left {
                Some(n) => {
                    let mut left = n;
                    self.search.check_and_store_separate_nln_max_count(
                        pattern,
                        tested,
                        line,
                        &mut left,
                        check,
                    );
                    self.matches_left = Some(left);
                },
                None => {
                    self.search.check_and_store_separate_nln(pattern, tested, line, check);
                },
            }
        } else {
            match self.matches_left {
                Some(n) => {
                    let mut left = n;
                    self.search.check_and_store_separate_max_count(
                        pattern,
                        number,
                        tested,
                        line,
                        &mut left,
                        check,
                    );
                    self.matches_left = Some(left);
                },
                None => {
                    self.search.check_and_store_separate(pattern, number, tested, line, check);
                },
            }
        }
        proof {
            assert(numbers_view(old(self).search.line_numbers@.push(number)) =~= numbers_view(
                old(self).search.line_numbers@,
            ).push(number as int));
        }
    }

    /// The result of the scan over the lines seen.
    pub fn finish(self, m: &Matcher) -> (r: GenInnerResult)
        requires
            self.wf(*m),
        ensures
            r@ == outcome(*m, self.lines_seen()),
    {
        proof {
            lemma_recorded_ordered(*m, self.seen@);
        }
        if m.config.count {
            self.count.upcast()
        } else {
            let ghost r = recorded(*m, self.seen@);
            let ghost nums = self.search.line_numbers@;
            assert(numbers_view(nums).len() == nums.len());
            assert(line_numbers_of(r).len() == r.len());
            let res = self.search.upcast();
            proof {
                if nums.len() > 0 {
                    assert(numbers_view(nums) =~= line_numbers_of(r));
                }
            }
            res
        }
    }
}

/// Runs a whole search over a byte stream held in memory.
pub struct Searcher<'a> {
    pub reader: &'a [u8],
    pub matcher: &'a Matcher,
}

impl<'a> Searcher<'a> {
    /// Searches every line of the stream, in order.
    pub fn search_matches(self) -> (r: GenInnerResult)
        ensures
            r@ == outcome(*self.matcher, lines_of(self.reader@)),
    {
        let input = self.reader;
        let m = self.matcher;
        let mut scan = Scan::new(m);
        let mut pos: usize = 0;
        assert(input@.skip(0) =~= input@);
        assert(Seq::<Seq<u8>>::empty() + lines_of(input@) =~= lines_of(input@));
        while pos < input.len()
            invariant
                pos <= input@.len(),
                scan.wf(*m),
                scan.lines_seen().len() <= pos,
                lines_of(input@) == scan.lines_seen() + lines_of(input@.skip(pos as int)),
            decreases input@.len() - pos,
        {
            let end = line_end(input, pos);
            let line = slice_subrange(input, pos, end);
            let ghost rest = input@.skip(pos as int);
            proof {
                assert(rest.take(first_line_len(rest) as int) =~= line@);
                assert(rest.skip(first_line_len(rest) as int) =~= input@.skip(end as int));
                assert(lines_of(rest) == seq![line@] + lines_of(input@.skip(end as int)));
            }
            let ghost before = scan.lines_seen();
            scan.feed_line(m, line);
            assert(before + (seq![line@] + lines_of(input@.skip(end as int))) =~= before.push(line@)
                + lines_of(input@.skip(end as int)));
            pos = end;
        }
        assert(input@.skip(pos as int) =~= Seq::<u8>::empty());
        assert(scan.lines_seen() + Seq::<Seq<u8>>::empty() =~= scan.lines_seen());
        scan.finish(m)
    }
}

} // verus!
