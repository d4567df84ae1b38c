//! Renders a search result as the text a user reads: one line per match,
//! prefixed by its number and `:` when numbers are shown, or the count.

use crate::matcher::Config;
use crate::results::{lines_view, CountResult, GenInnerResult, ScanOutcome, SearchResult};
use vstd::prelude::*;
use vstd::utf8::valid_utf8;

verus! {

/// The decimal digits of `n`, in ASCII, without leading zeros.
pub open spec fn decimal(n: nat) -> Seq<u8>
    decreases n,
{
    if n < 10 {
        seq![(48 + n) as u8]
    } else {
        decimal(n / 10).push((48 + n % 10) as u8)
    }
}

/// Each of `ms`, followed by `\n`.
pub open spec fn plain_text(ms: Seq<Seq<u8>>) -> Seq<u8>
    decreases ms.len(),
{
    if ms.len() == 0 {
        seq![]
    } else {
        plain_text(ms.drop_last()) + ms.last() + seq![10u8]
    }
}

/// The first `k` of `ms`, each preceded by its number from `ns` and `:`, and
/// followed by `\n`.
pub open spec fn numbered_text(ns: Seq<int>, ms: Seq<Seq<u8>>, k: int) -> Seq<u8>
    decreases k,
{
    if k <= 0 {
        seq![]
    } else {
        numbered_text(ns, ms, k - 1) + decimal(ns[k - 1] as nat) + seq![58u8] + ms[k - 1] + seq![
            10u8,
        ]
    }
}

/// The text of a count: the number and `\n`, or nothing for zero.
pub open spec fn count_text(count: nat) -> Seq<u8> {
    if count == 0 {
        seq![]
    } else {
        decimal(count) + seq![10u8]
    }
}

/// How many matches a search result shows: all of them without numbers,
/// as many as there are numbers with them, none when numbers were asked for
/// and are absent.
pub open spec fn shown(ms: Seq<Seq<u8>>, ns: Option<Seq<int>>, nln: bool) -> int {
    if nln {
        ms.len() as int
    } else {
        match ns {
            Some(v) => if v.len() < ms.len() {
                v.len() as int
            } else {
                ms.len() as int
            },
            None => 0,
        }
    }
}

/// The text of the first `k` shown matches of a search result.
pub open spec fn text_upto(ms: Seq<Seq<u8>>, ns: Option<Seq<int>>, nln: bool, k: int) -> Seq<u8> {
    if nln {
        plain_text(ms.take(k))
    } else {
        match ns {
            Some(v) => numbered_text(v, ms, k),
            None => seq![],
        }
    }
}

/// The text of a search result.
pub open spec fn search_text(ms: Seq<Seq<u8>>, ns: Option<Seq<int>>, nln: bool) -> Seq<u8> {
    text_upto(ms, ns, nln, shown(ms, ns, nln))
}

/// The first `k` shown matches are valid UTF-8, and `k` is where that ends:
/// at an invalid match, or after the last shown one.
pub open spec fn printable_prefix(ms: Seq<Seq<u8>>, ns: Option<Seq<int>>, nln: bool, k: int) -> bool {
    &&& 0 <= k <= shown(ms, ns, nln)
    &&& forall|j: int| 0 <= j < k ==> valid_utf8(#[trigger] ms[j])
    &&& k < shown(ms, ns, nln) ==> !valid_utf8(ms[k])
}

/// Some shown match is not valid UTF-8.
pub open spec fn has_invalid_shown(ms: Seq<Seq<u8>>, ns: Option<Seq<int>>, nln: bool) -> bool {
    exists|k: int| 0 <= k < shown(ms, ns, nln) && !valid_utf8(#[trigger] ms[k])
}

/// The text of an outcome.
pub open spec fn outcome_text(o: ScanOutcome, nln: bool) -> Seq<u8> {
    match o {
        ScanOutcome::Count { count } => count_text(count as nat),
        ScanOutcome::Search { matches, line_numbers } => search_text(matches, line_numbers, nln),
    }
}

/// `text` is what is written of an outcome: the count, or the shown matches
/// up to the first one that is not valid UTF-8.
pub open spec fn outcome_written(o: ScanOutcome, nln: bool, text: Seq<u8>) -> bool {
    match o {
        ScanOutcome::Count { count } => text == count_text(count as nat),
        ScanOutcome::Search { matches, line_numbers } => exists|k: int|
            printable_prefix(matches, line_numbers, nln, k) && text == text_upto(
                matches,
                line_numbers,
                nln,
                k,
            ),
    }
}

/// An outcome that cannot be rendered: a match it shows is not valid UTF-8.
pub open spec fn outcome_unprintable(o: ScanOutcome, nln: bool) -> bool {
    match o {
        ScanOutcome::Count { .. } => false,
        ScanOutcome::Search { matches, line_numbers } => has_invalid_shown(
            matches,
            line_numbers,
            nln,
        ),
    }
}

/// Why a result could not be rendered.
#[derive(Clone, Copy, Debug, PartialEq, Eq, Structural)]
pub enum WriteError {
    /// A match to be shown is not valid UTF-8.
    InvalidUtf8,
}

/// Relies on `std::str::from_utf8`: it succeeds exactly on valid UTF-8.
#[verifier::external_body]
fn is_utf8(b: &[u8]) -> (r: bool)
    ensures
        r == valid_utf8(b@),
{
    std::str::from_utf8(b).is_ok()
}

/// Appends the decimal digits of `n` to `buf`.
fn push_decimal(buf: &mut Vec<u8>, n: u64)
    ensures
        final(buf)@ == old(buf)@ + decimal(n as nat),
    decreases n,
{
    if n >= 10 {
        push_decimal(buf, n / 10);
    }
    let digit = 48 + (n % 10) as u8;
    buf.push(digit);
    assert(buf@ =~= old(buf)@ + decimal(n as nat));
}

/// Collects rendered text in memory; the caller sends it on.
#[derive(Debug)]
pub struct Writer {
    pub wrt: Vec<u8>,
}

impl Writer {
    /// Appends the text of `gir`: its count, or its matches shown as
    /// `config` asks. Fails when a shown match is not valid UTF-8, after
    /// writing the matches before it.
    pub fn print_matches(&mut self, gir: &GenInnerResult, config: &Config) -> (r: Result<
        (),
        WriteError,
    >)
        ensures
            r is Err <==> outcome_unprintable(gir@, config.no_line_number),
            r is Ok ==> final(self).wrt@ == old(self).wrt@ + outcome_text(
                gir@,
                config.no_line_number,
            ),
            exists|text: Seq<u8>|
                final(self).wrt@ == old(self).wrt@ + text && outcome_written(
                    gir@,
                    config.no_line_number,
                    text,
                ),
    {
        match gir {
            GenInnerResult::Count(c) => {
                self.print_count(c);
                Ok(())
            },
            GenInnerResult::Search(s) => self.print_search(s, config.no_line_number),
        }
    }

    /// Appends the count and `\n`, or nothing for a count of zero.
    pub fn print_count(&mut self, count: &CountResult)
        ensures
            final(self).wrt@ == old(self).wrt@ + count_text(count.count as nat),
    {
        if count.count != 0 {
            push_decimal(&mut self.wrt, count.count);
            self.wrt.push(10);
            assert(self.wrt@ =~= old(self).wrt@ + count_text(count.count as nat));
        } else {
            assert(self.wrt@ =~= old(self).wrt@ + count_text(count.count as nat));
        }
    }

    /// Appends one line per shown match. Fails at the first shown match that
    /// is not valid UTF-8, after writing the matches before it.
    pub fn print_search(&mut self, search: &SearchResult, nln: bool) -> (r: Result<
        (),
        WriteError,
    >)
        ensures
            r is Err <==> has_invalid_shown(
                lines_view(search.matches@),
                search.numbers_view(),
                nln,
            ),
            r is Ok ==> final(self).wrt@ == old(self).wrt@ + search_text(
                lines_view(search.matches@),
                search.numbers_view(),
                nln,
            ),
            exists|k: int|
                printable_prefix(lines_view(search.matches@), search.numbers_view(), nln, k)
                    && final(self).wrt@ == old(self).wrt@ + text_upto(
                    lines_view(search.matches@),
                    search.numbers_view(),
                    nln,
                    k,
                ),
    {
        let ms = &search.matches;
        let n: usize = if nln {
            ms.len()
        } else {
            match &search.line_numbers {
                Some(v) => if v.len() < ms.len() {
                    v.len()
                } else {
                    ms.len()
                },
                None => 0,
            }
        };
        let mut end: usize = 0;
        while end < n && is_utf8(ms[end].as_slice())
            invariant
                n == shown(lines_view(search.matches@), search.numbers_view(), nln),
                ms@ == search.matches@,
                n <= ms@.len(),
                end <= n,
                forall|j: int| 0 <= j < end ==> valid_utf8(#[trigger] lines_view(ms@)[j]),
            decreases n - end,
        {
            end += 1;
        }
        let ghost base = self.wrt@;
        let ghost mv = lines_view(ms@);
        assert(printable_prefix(mv, search.numbers_view(), nln, end as int));
        let mut k: usize = 0;
        if nln {
            while k < end
                invariant
                    n == ms@.len(),
                    end <= n,
                    k <= end,
                    mv == lines_view(ms@),
                    self.wrt@ == base + plain_text(mv.take(k as int)),
                decreases end - k,
            {
                self.wrt.extend_from_slice(ms[k].as_slice());
                self.wrt.push(10);
                assert(mv.take(k + 1).drop_last() =~= mv.take(k as int));
                assert(self.wrt@ =~= base + plain_text(mv.take(k + 1)));
                k += 1;
            }
        } else {
            match &search.line_numbers {
                Some(v) => {
                    let ghost nv = search.numbers_view()->0;
                    while k < end
                        invariant
                            n == shown(lines_view(search.matches@), search.numbers_view(), nln),
                            n <= ms@.len(),
                            n <= v@.len(),
                            end <= n,
                            k <= end,
                            mv == lines_view(ms@),
                            nv == search.numbers_view()->0,
                            nv == crate::results::numbers_view(v@),
                            self.wrt@ == base + numbered_text(nv, mv, k as int),
                        decreases end - k,
                    {
                        push_decimal(&mut self.wrt, v[k]);
                        self.wrt.push(58);
                        self.wrt.extend_from_slice(ms[k].as_slice());
                        self.wrt.push(10);
                        assert(self.wrt@ =~= base + numbered_text(nv, mv, k + 1));
                        k += 1;
                    }
                },
                None => {},
            }
        }
        if end < n {
            assert(!valid_utf8(lines_view(search.matches@)[end as int]));
            Err(WriteError::InvalidUtf8)
        } else {
            Ok(())
        }
    }
}

} // verus!
