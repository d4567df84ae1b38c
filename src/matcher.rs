//! The search configuration, and the builder that turns flags and a pattern
//! into a ready `Matcher`.

use crate::ext::{lowercase_str, str_lower_of};
use vstd::prelude::*;

verus! {

/// The flags of one search. Built once, never changed during a scan.
#[derive(Clone, Copy, Debug)]
pub struct Config {
    /// Report only the number of selected lines.
    pub count: bool,
    /// Select lines with a field that ends with the pattern.
    pub ends_with: bool,
    /// Compare the lowercase forms of line and pattern.
    pub ignore_case: bool,
    /// Record at most this many lines.
    pub max_count: Option<u64>,
    /// Leave line numbers out of the result.
    pub no_line_number: bool,
    /// Select lines with a field that starts with the pattern.
    pub starts_with: bool,
    /// Select lines with a word equal to the pattern.
    pub words: bool,
}

/// The configuration with every flag off and no bound on the matches.
pub open spec fn default_config() -> Config {
    Config {
        count: false,
        ends_with: false,
        ignore_case: false,
        max_count: None,
        no_line_number: false,
        starts_with: false,
        words: false,
    }
}

impl Default for Config {
    fn default() -> (r: Config)
        ensures
            r == default_config(),
    {
        Config {
            count: false,
            ends_with: false,
            ignore_case: false,
            max_count: None,
            no_line_number: false,
            starts_with: false,
            words: false,
        }
    }
}

/// Which test a line must pass. `Base` and `MaxCount` both test containment.
#[derive(Clone, Copy, Debug, PartialEq, Eq, Structural)]
pub enum MatcherType {
    Base,
    EndsWith,
    MaxCount,
    StartsEndsWith,
    StartsWith,
    Words,
}

/// The test that a configuration selects: whole words first, then fields
/// (both ends, the end, the start), then containment, bounded or not.
pub open spec fn type_for(c: Config) -> MatcherType {
    if c.words {
        MatcherType::Words
    } else if c.ends_with && c.starts_with {
        MatcherType::StartsEndsWith
    } else if c.ends_with {
        MatcherType::EndsWith
    } else if c.starts_with {
        MatcherType::StartsWith
    } else if c.max_count is Some {
        MatcherType::MaxCount
    } else {
        MatcherType::Base
    }
}

/// The pattern a matcher searches for: lowercased when case is ignored.
pub open spec fn pattern_for(c: Config, pattern: Seq<char>) -> Seq<char> {
    if c.ignore_case {
        str_lower_of(pattern)
    } else {
        pattern
    }
}

/// A pattern with its configuration and the test they select.
#[derive(Debug)]
pub struct Matcher {
    pub pattern: String,
    pub config: Config,
    pub matcher_type: MatcherType,
}

/// Collects flags, then builds a `Matcher`.
#[derive(Clone, Copy, Debug)]
pub struct MatcherBuilder {
    pub config: Config,
}

impl Default for MatcherBuilder {
    fn default() -> (r: MatcherBuilder)
        ensures
            r.config == default_config(),
    {
        MatcherBuilder::new()
    }
}

impl MatcherBuilder {
    /// A builder with every flag off and no bound on the matches.
    pub fn new() -> (r: MatcherBuilder)
        ensures
            r.config == default_config(),
    {
        MatcherBuilder { config: Config::default() }
    }

    /// Sets whether only the number of selected lines is reported.
    pub fn count(&mut self, v: bool) -> (r: &mut MatcherBuilder)
        ensures
            r.config == (Config { count: v, ..old(self).config }),
            *final(self) == *final(r),
    {
        self.config.count = v;
        self
    }

    /// Sets whether a field must end with the pattern.
    pub fn ends_with(&mut self, v: bool) -> (r: &mut MatcherBuilder)
        ensures
            r.config == (Config { ends_with: v, ..old(self).config }),
            *final(self) == *final(r),
    {
        self.config.ends_with = v;
        self
    }

    /// Sets whether case is ignored.
    pub fn ignore_case(&mut self, v: bool) -> (r: &mut MatcherBuilder)
        ensures
            r.config == (Config { ignore_case: v, ..old(self).config }),
            *final(self) == *final(r),
    {
        self.config.ignore_case = v;
        self
    }

    /// Sets the bound on the number of recorded lines.
    pub fn max_count(&mut self, v: Option<u64>) -> (r: &mut MatcherBuilder)
        ensures
            r.config == (Config { max_count: v, ..old(self).config }),
            *final(self) == *final(r),
    {
        self.config.max_count = v;
        self
    }

    /// Sets whether line numbers are left out.
    pub fn no_line_number(&mut self, v: bool) -> (r: &mut MatcherBuilder)
        ensures
            r.config == (Config { no_line_number: v, ..old(self).config }),
            *final(self) == *final(r),
    {
        self.config.no_line_number = v;
        self
    }

    /// Sets whether a field must start with the pattern.
    pub fn starts_with(&mut self, v: bool) -> (r: &mut MatcherBuilder)
        ensures
            r.config == (Config { starts_with: v, ..old(self).config }),
            *final(self) == *final(r),
    {
        self.config.starts_with = v;
        self
    }

    /// Sets whether a whole word must equal the pattern.
    pub fn words(&mut self, v: bool) -> (r: &mut MatcherBuilder)
        ensures
            r.config == (Config { words: v, ..old(self).config }),
            *final(self) == *final(r),
    {
        self.config.words = v;
        self
    }

    /// The matcher for `pattern` under the flags collected so far. The
    /// pattern is lowercased once, here, when case is ignored.
    pub fn build(&self, pattern: String) -> (r: Matcher)
        ensures
            r.config == self.config,
            r.matcher_type == type_for(self.config),
            r.pattern@ == pattern_for(self.config, pattern@),
    {
        let pattern = if self.config.ignore_case {
            lowercase_str(pattern.as_str())
        } else {
            pattern
        };
        let config = Config {
            count: self.config.count,
            ends_with: self.config.ends_with,
            ignore_case: self.config.ignore_case,
            max_count: self.config.max_count,
            no_line_number: self.config.no_line_number,
            starts_with: self.config.starts_with,
            words: self.config.words,
        };
        let matcher_type = if self.config.words {
            MatcherType::Words
        } else if self.config.ends_with && self.config.starts_with {
            MatcherType::StartsEndsWith
        } else if self.config.ends_with {
            MatcherType::EndsWith
        } else if self.config.starts_with {
            MatcherType::StartsWith
        } else if self.config.max_count.is_some() {
            MatcherType::MaxCount
        } else {
            MatcherType::Base
        };
        Matcher { pattern, config, matcher_type }
    }
}

} // verus!
