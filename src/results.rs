//! What a search produces, the accumulators that gather it line by line, and
//! the line tests that decide which lines it holds.

use crate::bytes::{
    contains, contains_bytes, ends_with_bytes, equal_bytes, has_prefix, has_suffix,
    starts_with_bytes,
};
use crate::ext::{
    fields_in, fields_of, has_ascii_non_word_byte, has_word_byte, is_word_byte, words_in,
    words_of,
};
use crate::lines::{trim_terminator, without_terminator};
use vstd::prelude::*;

verus! {

/// The line numbers of a search: absent when suppressed or when no line was
/// recorded, else one per match, in the same order.
pub type LineNumbers = Option<Vec<u64>>;

/// The lines a search recorded, without their terminators, and their numbers.
#[derive(Debug, PartialEq)]
pub struct SearchResult {
    pub matches: Vec<Vec<u8>>,
    pub line_numbers: LineNumbers,
}

impl Default for SearchResult {
    fn default() -> (r: SearchResult)
        ensures
            r.matches@.len() == 0,
            r.line_numbers is None,
    {
        SearchResult { matches: Vec::new(), line_numbers: None }
    }
}

/// The outcome of a search: recorded lines, or only their number.
#[derive(Debug, PartialEq)]
pub enum GenInnerResult {
    Search(SearchResult),
    Count(CountResult),
}

/// The mathematical form of a `GenInnerResult`.
pub enum ScanOutcome {
    Search { matches: Seq<Seq<u8>>, line_numbers: Option<Seq<int>> },
    Count { count: int },
}

/// The numbers of `v`, as integers.
pub open spec fn numbers_view(v: Seq<u64>) -> Seq<int> {
    v.map_values(|n: u64| n as int)
}

/// The bytes of each line of `v`.
pub open spec fn lines_view(v: Seq<Vec<u8>>) -> Seq<Seq<u8>> {
    v.map_values(|l: Vec<u8>| l@)
}

impl SearchResult {
    /// The line numbers, as integers.
    pub open spec fn numbers_view(&self) -> Option<Seq<int>> {
        match &self.line_numbers {
            Some(v) => Some(numbers_view(v@)),
            None => None,
        }
    }
}

impl View for GenInnerResult {
    type V = ScanOutcome;

    open spec fn view(&self) -> ScanOutcome {
        match self {
            GenInnerResult::Search(s) => ScanOutcome::Search {
                matches: lines_view(s.matches@),
                line_numbers: s.numbers_view(),
            },
            GenInnerResult::Count(c) => ScanOutcome::Count { count: c.count as int },
        }
    }
}

/// The gathering side of a search that records lines: every recorded line,
/// and the numbers of those lines where numbers are kept.
#[derive(Debug)]
pub struct SearchInnerResult {
    pub matches: Vec<Vec<u8>>,
    pub line_numbers: Vec<u64>,
}

/// The gathering side of a search that counts lines.
#[derive(Clone, Copy, Debug, PartialEq, Eq, Structural)]
pub struct CountResult {
    pub count: u64,
}

impl Default for SearchInnerResult {
    fn default() -> (r: SearchInnerResult)
        ensures
            r.matches@.len() == 0,
            r.line_numbers@.len() == 0,
    {
        SearchInnerResult { matches: Vec::new(), line_numbers: Vec::new() }
    }
}

impl Default for CountResult {
    fn default() -> (r: CountResult)
        ensures
            r.count == 0,
    {
        CountResult { count: 0 }
    }
}

impl SearchInnerResult {
    /// The finished result: the recorded lines, with their numbers when any
    /// number was kept.
    pub fn upcast(self) -> (r: GenInnerResult)
        ensures
            r == GenInnerResult::Search(
                SearchResult {
                    matches: self.matches,
                    line_numbers: if self.line_numbers@.len() == 0 {
                        None
                    } else {
                        Some(self.line_numbers)
                    },
                },
            ),
    {
        let line_numbers = if self.line_numbers.len() == 0 {
            None
        } else {
            Some(self.line_numbers)
        };
        GenInnerResult::Search(SearchResult { matches: self.matches, line_numbers })
    }
}

impl CountResult {
    /// The finished result: the count.
    pub fn upcast(self) -> (r: GenInnerResult)
        ensures
            r == GenInnerResult::Count(self),
    {
        GenInnerResult::Count(self)
    }
}

impl CountResult {
    /// Counts `line` when `check(line, pattern)` holds.
    pub fn check_and_add<F: Fn(&[u8], &[u8]) -> bool>(
        &mut self,
        pattern: &[u8],
        line: &[u8],
        check: F,
    )
        requires
            check.requires((line, pattern)),
            old(self).count < u64::MAX,
        ensures
            exists|hit: bool|
                check.ensures((line, pattern), hit) && final(self).count == old(self).count + (
                if hit {
                    1int
                } else {
                    0int
                }),
    {
        if check(line, pattern) {
            self.count = self.count + 1;
        }
    }
}

impl SearchInnerResult {
    /// The recorded lines, as byte sequences.
    pub open spec fn matches_view(&self) -> Seq<Seq<u8>> {
        lines_view(self.matches@)
    }

    /// Records `line_store` without its terminator, and `line_number`, when
    /// `check(line_check, pattern)` holds.
    pub fn check_and_store_separate<F: Fn(&[u8], &[u8]) -> bool>(
        &mut self,
        pattern: &[u8],
        line_number: u64,
        line_check: &[u8],
        line_store: &[u8],
        check: F,
    )
        requires
            check.requires((line_check, pattern)),
        ensures
            exists|hit: bool|
                check.ensures((line_check, pattern), hit) && if hit {
                    &&& final(self).matches_view() == old(self).matches_view().push(
                        without_terminator(line_store@),
                    )
                    &&& final(self).line_numbers@ == old(self).line_numbers@.push(line_number)
                } else {
                    *final(self) == *old(self)
                },
    {
        if check(line_check, pattern) {
            self.matches.push(trim_terminator(line_store));
            self.line_numbers.push(line_number);
            assert(self.matches_view() =~= old(self).matches_view().push(
                without_terminator(line_store@),
            ));
        }
    }

    /// Records `line_store` without its terminator, and no number, when
    /// `check(line_check, pattern)` holds.
    pub fn check_and_store_separate_nln<F: Fn(&[u8], &[u8]) -> bool>(
        &mut self,
        pattern: &[u8],
        line_check: &[u8],
        line_store: &[u8],
        check: F,
    )
        requires
            check.requires((line_check, pattern)),
        ensures
            exists|hit: bool|
                check.ensures((line_check, pattern), hit) && if hit {
                    &&& final(self).matches_view() == old(self).matches_view().push(
                        without_terminator(line_store@),
                    )
                    &&& final(self).line_numbers == old(self).line_numbers
                } else {
                    *final(self) == *old(self)
                },
    {
        if check(line_check, pattern) {
            self.matches.push(trim_terminator(line_store));
            assert(self.matches_view() =~= old(self).matches_view().push(
                without_terminator(line_store@),
            ));
        }
    }
}

impl SearchInnerResult {
    /// Records `line_store` without its terminator, and `line_number`, when
    /// `check(line_check, pattern)` holds, and then spends one unit of
    /// `matches_left`.
    pub fn check_and_store_separate_max_count<F: Fn(&[u8], &[u8]) -> bool>(
        &mut self,
        pattern: &[u8],
        line_number: u64,
        line_check: &[u8],
        line_store: &[u8],
        matches_left: &mut u64,
        check: F,
    )
        requires
            check.requires((line_check, pattern)),
            *old(matches_left) > 0,
        ensures
            exists|hit: bool|
                check.ensures((line_check, pattern), hit) && if hit {
                    &&& final(self).matches_view() == old(self).matches_view().push(
                        without_terminator(line_store@),
                    )
                    &&& final(self).line_numbers@ == old(self).line_numbers@.push(line_number)
                    &&& *final(matches_left) == *old(matches_left) - 1
                } else {
                    &&& *final(self) == *old(self)
                    &&& *final(matches_left) == *old(matches_left)
                },
    {
        if check(line_check, pattern) {
            *matches_left = *matches_left - 1;
            self.matches.push(trim_terminator(line_store));
            self.line_numbers.push(line_number);
            assert(self.matches_view() =~= old(self).matches_view().push(
                without_terminator(line_store@),
            ));
        }
    }

    /// Records `line_store` without its terminator, and no number, when
    /// `check(line_check, pattern)` holds, and then spends one unit of
    /// `matches_left`.
    pub fn check_and_store_separate_nln_max_count<F: Fn(&[u8], &[u8]) -> bool>(
        &mut self,
        pattern: &[u8],
        line_check: &[u8],
        line_store: &[u8],
        matches_left: &mut u64,
        check: F,
    )
        requires
            check.requires((line_check, pattern)),
            *old(matches_left) > 0,
        ensures
            exists|hit: bool|
                check.ensures((line_check, pattern), hit) && if hit {
                    &&& final(self).matches_view() == old(self).matches_view().push(
                        without_terminator(line_store@),
                    )
                    &&& final(self).line_numbers == old(self).line_numbers
                    &&& *final(matches_left) == *old(matches_left) - 1
                } else {
                    &&& *final(self) == *old(self)
                    &&& *final(matches_left) == *old(matches_left)
                },
    {
        if check(line_check, pattern) {
            *matches_left = *matches_left - 1;
            self.matches.push(trim_terminator(line_store));
            assert(self.matches_view() =~= old(self).matches_view().push(
                without_terminator(line_store@),
            ));
        }
    }

    /// Records `line` without its terminator, and `line_number`, when
    /// `check(line, pattern)` holds.
    pub fn check_and_store<F: Fn(&[u8], &[u8]) -> bool>(
        &mut self,
        pattern: &[u8],
        line_number: u64,
        line: &[u8],
        check: F,
    )
        requires
            check.requires((line, pattern)),
        ensures
            exists|hit: bool|
                check.ensures((line, pattern), hit) && if hit {
                    &&& final(self).matches_view() == old(self).matches_view().push(
                        without_terminator(line@),
                    )
                    &&& final(self).line_numbers@ == old(self).line_numbers@.push(line_number)
                } else {
                    *final(self) == *old(self)
                },
    {
        self.check_and_store_separate(pattern, line_number, line, line, check)
    }

    /// Records `line` without its terminator, and no number, when
    /// `check(line, pattern)` holds.
    pub fn check_and_store_nln<F: Fn(&[u8], &[u8]) -> bool>(
        &mut self,
        pattern: &[u8],
        line: &[u8],
        check: F,
    )
        requires
            check.requires((line, pattern)),
        ensures
            exists|hit: bool|
                check.ensures((line, pattern), hit) && if hit {
                    &&& final(self).matches_view() == old(self).matches_view().push(
                        without_terminator(line@),
                    )
                    &&& final(self).line_numbers == old(self).line_numbers
                } else {
                    *final(self) == *old(self)
                },
    {
        self.check_and_store_separate_nln(pattern, line, line, check)
    }

    /// Records `line` without its terminator, and `line_number`, when
    /// `check(line, pattern)` holds, and then spends one unit of
    /// `matches_left`.
    pub fn check_and_store_max_count<F: Fn(&[u8], &[u8]) -> bool>(
        &mut self,
        pattern: &[u8],
        line_number: u64,
        line: &[u8],
        matches_left: &mut u64,
        check: F,
    )
        requires
            check.requires((line, pattern)),
            *old(matches_left) > 0,
        ensures
            exists|hit: bool|
                check.ensures((line, pattern), hit) && if hit {
                    &&& final(self).matches_view() == old(self).matches_view().push(
                        without_terminator(line@),
                    )
                    &&& final(self).line_numbers@ == old(self).line_numbers@.push(line_number)
                    &&& *final(matches_left) == *old(matches_left) - 1
                } else {
                    &&& *final(self) == *old(self)
                    &&& *final(matches_left) == *old(matches_left)
                },
    {
        self.check_and_store_separate_max_count(pattern, line_number, line, line, matches_left, check)
    }

    /// Records `line` without its terminator, and no number, when
    /// `check(line, pattern)` holds, and then spends one unit of
    /// `matches_left`.
    pub fn check_and_store_nln_max_count<F: Fn(&[u8], &[u8]) -> bool>(
        &mut self,
        pattern: &[u8],
        line: &[u8],
        matches_left: &mut u64,
        check: F,
    )
        requires
            check.requires((line, pattern)),
            *old(matches_left) > 0,
        ensures
            exists|hit: bool|
                check.ensures((line, pattern), hit) && if hit {
                    &&& final(self).matches_view() == old(self).matches_view().push(
                        without_terminator(line@),
                    )
                    &&& final(self).line_numbers == old(self).line_numbers
                    &&& *final(matches_left) == *old(matches_left) - 1
                } else {
                    &&& *final(self) == *old(self)
                    &&& *final(matches_left) == *old(matches_left)
                },
    {
        self.check_and_store_separate_nln_max_count(pattern, line, line, matches_left, check)
    }
}

/// Some field of `fs` starts with `p`.
pub open spec fn some_starts(fs: Seq<Seq<u8>>, p: Seq<u8>) -> bool {
    exists|i: int| 0 <= i < fs.len() && has_prefix(#[trigger] fs[i], p)
}

/// Some field of `fs` ends with `p`.
pub open spec fn some_ends(fs: Seq<Seq<u8>>, p: Seq<u8>) -> bool {
    exists|i: int| 0 <= i < fs.len() && has_suffix(#[trigger] fs[i], p)
}

/// Some single field of `fs` both starts and ends with `p`.
pub open spec fn some_starts_ends(fs: Seq<Seq<u8>>, p: Seq<u8>) -> bool {
    exists|i: int| 0 <= i < fs.len() && has_prefix(#[trigger] fs[i], p) && has_suffix(fs[i], p)
}

/// Some word of `ws` equals `p`.
pub open spec fn some_equal(ws: Seq<Seq<u8>>, p: Seq<u8>) -> bool {
    exists|i: int| 0 <= i < ws.len() && #[trigger] ws[i] == p
}

/// Some field of `line` starts with `p`.
pub open spec fn field_starts(line: Seq<u8>, p: Seq<u8>) -> bool {
    some_starts(fields_of(line), p)
}

/// Some field of `line` ends with `p`.
pub open spec fn field_ends(line: Seq<u8>, p: Seq<u8>) -> bool {
    some_ends(fields_of(line), p)
}

/// Some single field of `line` both starts and ends with `p`.
pub open spec fn field_starts_ends(line: Seq<u8>, p: Seq<u8>) -> bool {
    some_starts_ends(fields_of(line), p)
}

/// `p` is a whole word of `line`: it holds no ASCII punctuation, space or
/// control byte, and some word of `line`, its terminator set aside, equals
/// it.
pub open spec fn word_equals(line: Seq<u8>, p: Seq<u8>) -> bool {
    !has_ascii_non_word_byte(p) && some_equal(words_of(without_terminator(line)), p)
}

/// Whether `p` holds an ASCII byte that cannot take part in a word.
pub fn has_non_word_byte(p: &[u8]) -> (r: bool)
    ensures
        r == has_ascii_non_word_byte(p@),
{
    let mut i: usize = 0;
    while i < p.len()
        invariant
            i <= p@.len(),
            forall|k: int| 0 <= k < i ==> !(p@[k] < 128 && !is_word_byte(#[trigger] p@[k])),
        decreases p@.len() - i,
    {
        let b = p[i];
        let word = b >= 128 || (48 <= b && b <= 57) || (65 <= b && b <= 90) || (97 <= b && b
            <= 122) || b == 95;
        if !word {
            assert(p@[i as int] < 128 && !is_word_byte(p@[i as int]));
            return true;
        }
        i += 1;
    }
    false
}

/// Whether one of `fields` starts with `pattern`.
pub fn fields_start_with(fields: &Vec<Vec<u8>>, pattern: &[u8]) -> (r: bool)
    ensures
        r == some_starts(lines_view(fields@), pattern@),
{
    let ghost fs = lines_view(fields@);
    let mut i: usize = 0;
    while i < fields.len()
        invariant
            fs == lines_view(fields@),
            i <= fields@.len(),
            forall|k: int| 0 <= k < i ==> !has_prefix(#[trigger] fs[k], pattern@),
        decreases fields@.len() - i,
    {
        assert(fs[i as int] == fields@[i as int]@);
        if starts_with_bytes(fields[i].as_slice(), pattern) {
            assert(has_prefix(fs[i as int], pattern@));
            return true;
        }
        i += 1;
    }
    false
}

/// Whether one of `fields` ends with `pattern`.
pub fn fields_end_with(fields: &Vec<Vec<u8>>, pattern: &[u8]) -> (r: bool)
    ensures
        r == some_ends(lines_view(fields@), pattern@),
{
    let ghost fs = lines_view(fields@);
    let mut i: usize = 0;
    while i < fields.len()
        invariant
            fs == lines_view(fields@),
            i <= fields@.len(),
            forall|k: int| 0 <= k < i ==> !has_suffix(#[trigger] fs[k], pattern@),
        decreases fields@.len() - i,
    {
        assert(fs[i as int] == fields@[i as int]@);
        if ends_with_bytes(fields[i].as_slice(), pattern) {
            assert(has_suffix(fs[i as int], pattern@));
            return true;
        }
        i += 1;
    }
    false
}

/// Whether one of `fields` both starts and ends with `pattern`.
pub fn fields_start_and_end_with(fields: &Vec<Vec<u8>>, pattern: &[u8]) -> (r: bool)
    ensures
        r == some_starts_ends(lines_view(fields@), pattern@),
{
    let ghost fs = lines_view(fields@);
    let mut i: usize = 0;
    while i < fields.len()
        invariant
            fs == lines_view(fields@),
            i <= fields@.len(),
            forall|k: int|
                0 <= k < i ==> !(has_prefix(#[trigger] fs[k], pattern@) && has_suffix(
                    fs[k],
                    pattern@,
                )),
        decreases fields@.len() - i,
    {
        assert(fs[i as int] == fields@[i as int]@);
        let field = fields[i].as_slice();
        if starts_with_bytes(field, pattern) && ends_with_bytes(field, pattern) {
            assert(has_prefix(fs[i as int], pattern@) && has_suffix(fs[i as int], pattern@));
            return true;
        }
        i += 1;
    }
    false
}

/// Whether one of `words` equals `pattern`. Where each word has a byte that
/// can take part in a word character, a pattern without one matches none.
pub fn words_equal(words: &Vec<Vec<u8>>, pattern: &[u8]) -> (r: bool)
    ensures
        r == some_equal(lines_view(words@), pattern@),
        (forall|k: int| 0 <= k < words@.len() ==> has_word_byte(#[trigger] words@[k]@)) && !has_word_byte(pattern@) ==> !r,
{
    let ghost ws = lines_view(words@);
    let mut i: usize = 0;
    while i < words.len()
        invariant
            ws == lines_view(words@),
            i <= words@.len(),
            forall|k: int| 0 <= k < i ==> #[trigger] ws[k] != pattern@,
        decreases words@.len() - i,
    {
        assert(ws[i as int] == words@[i as int]@);
        if equal_bytes(words[i].as_slice(), pattern) {
            assert(ws[i as int] == pattern@);
            return true;
        }
        i += 1;
    }
    false
}

/// Whether a field of `line` starts with `pattern`.
pub fn check_starts_with(line: &[u8], pattern: &[u8]) -> (r: bool)
    ensures
        r == field_starts(line@, pattern@),
{
    fields_start_with(&fields_in(line), pattern)
}

/// Whether a field of `line` ends with `pattern`.
pub fn check_ends_with(line: &[u8], pattern: &[u8]) -> (r: bool)
    ensures
        r == field_ends(line@, pattern@),
{
    fields_end_with(&fields_in(line), pattern)
}

/// Whether one field of `line` both starts and ends with `pattern`.
pub fn check_starts_ends_with(line: &[u8], pattern: &[u8]) -> (r: bool)
    ensures
        r == field_starts_ends(line@, pattern@),
{
    fields_start_and_end_with(&fields_in(line), pattern)
}

/// Whether `pattern` occurs in `line`.
pub fn check_contains(line: &[u8], pattern: &[u8]) -> (r: bool)
    ensures
        r == contains(line@, pattern@),
{
    contains_bytes(line, pattern)
}

/// Whether `pattern` is a whole word of `line`. A pattern that holds
/// punctuation, a space or a control byte never is, even where bstr's word
/// segmentation keeps such a byte inside a word (`can't`, `3.5`); nor is one
/// with no byte that can take part in a word character.
pub fn check_words(line: &[u8], pattern: &[u8]) -> (r: bool)
    ensures
        r == word_equals(line@, pattern@),
        has_ascii_non_word_byte(pattern@) ==> !r,
        !has_word_byte(pattern@) ==> !r,
{
    if has_non_word_byte(pattern) {
        return false;
    }
    let trimmed = trim_terminator(line);
    words_equal(&words_in(trimmed.as_slice()), pattern)
}

} // verus!
