//! What a user asks for: a pattern, a file and the flags of the search, and
//! the run that searches the file's bytes and renders the result.

use crate::lines::lines_of;
use crate::matcher::{pattern_for, type_for, Config, Matcher, MatcherBuilder};
use crate::search::{outcome, Searcher};
use crate::writer::{outcome_text, outcome_unprintable, outcome_written, WriteError, Writer};
use vstd::prelude::*;

verus! {

#[verifier::external_type_specification]
#[verifier::external_body]
pub struct ExPathBuf(std::path::PathBuf);

/// The user's request.
#[derive(Debug)]
pub struct Input {
    /// A pattern used for matching a sub-slice.
    pub pattern: String,
    /// A file to search.
    pub path: std::path::PathBuf,
    /// Suppress normal output and show the number of matching lines.
    pub count: bool,
    /// Only show matches containing fields ending with the pattern.
    pub ends_with: bool,
    /// Case insensitive search.
    pub ignore_case: bool,
    /// Limit the number of shown matches.
    pub max_count: Option<u64>,
    /// Suppress line numbers, which are shown by default.
    pub no_line_number: bool,
    /// Only show matches containing fields starting with the pattern.
    pub starts_with: bool,
    /// Whole words search; overrides the field flags.
    pub words: bool,
}

/// The flags of a request, as a configuration.
pub open spec fn config_of(input: Input) -> Config {
    Config {
        count: input.count,
        ends_with: input.ends_with,
        ignore_case: input.ignore_case,
        max_count: input.max_count,
        no_line_number: input.no_line_number,
        starts_with: input.starts_with,
        words: input.words,
    }
}

/// `m` is the matcher that a request builds.
pub open spec fn built_from(m: Matcher, input: Input) -> bool {
    &&& m.config == config_of(input)
    &&& m.matcher_type == type_for(config_of(input))
    &&& m.pattern@ == pattern_for(config_of(input), input.pattern@)
}

impl Input {
    /// Searches `reader`, line by line, as the request asks, and appends the
    /// rendered result to `writer`. Fails when a match to be shown is not
    /// valid UTF-8, after appending the matches before it.
    pub fn show_matches(self, reader: &[u8], writer: &mut Writer) -> (r: Result<(), WriteError>)
        ensures
            exists|m: Matcher|
                #![trigger outcome(m, lines_of(reader@))]
                built_from(m, self) && {
                    let o = outcome(m, lines_of(reader@));
                    &&& r is Err <==> outcome_unprintable(o, self.no_line_number)
                    &&& r is Ok ==> final(writer).wrt@ == old(writer).wrt@ + outcome_text(
                        o,
                        self.no_line_number,
                    )
                    &&& exists|text: Seq<u8>|
                        final(writer).wrt@ == old(writer).wrt@ + text && outcome_written(
                            o,
                            self.no_line_number,
                            text,
                        )
                },
    {
        let ghost input = self;
        let mut builder = MatcherBuilder::new();
        builder
            .count(self.count)
            .ends_with(self.ends_with)
            .ignore_case(self.ignore_case)
            .max_count(self.max_count)
            .no_line_number(self.no_line_number)
            .starts_with(self.starts_with)
            .words(self.words);
        let matcher = builder.build(self.pattern);
        assert(matcher.config == config_of(input));
        let searcher = Searcher { reader, matcher: &matcher };
        let found = searcher.search_matches();
        let r = writer.print_matches(&found, &matcher.config);
        assert(built_from(matcher, input));
        r
    }
}

} // verus!
