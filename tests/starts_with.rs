use grrs::matcher::MatcherBuilder;
use grrs::results::{CountResult, GenInnerResult, LineNumbers, SearchResult};
use grrs::search::Searcher;

const LINE: &str = "again\na\tgain\na\x00nd, gain\n&\u{2003}AΓain\nGain";
const LINE2: &str = "again\nGain\na\x00nd, gain\n& AΓain\nGain";

#[test]
fn starts_with_line_number() {
    let line = LINE.as_bytes();
    let pattern = "gain".to_owned();

    let matcher = MatcherBuilder::new()
        .ignore_case(false)
        .max_count(Some(2))
        .no_line_number(false)
        .starts_with(true)
        .build(pattern);

    let searcher = Searcher {
        reader: line,
        matcher: &matcher,
    };

    let gen_result = searcher.search_matches();
    let gir = gen_result;

    let mut sr = SearchResult::default();
    sr.matches.push("a\tgain".into());
    sr.matches.push("a\x00nd, gain".into());
    sr.line_numbers = LineNumbers::Some(vec![2, 3]);

    assert_eq!(gir, GenInnerResult::Search(sr));
}

#[test]
fn starts_with_line_number_caseless() {
    let line = LINE.as_bytes();
    let pattern = "aγain".to_owned();

    let matcher = MatcherBuilder::new()
        .ignore_case(true)
        .max_count(None)
        .no_line_number(false)
        .starts_with(true)
        .build(pattern);

    let searcher = Searcher {
        reader: line,
        matcher: &matcher,
    };

    let gen_result = searcher.search_matches();
    let gir = gen_result;

    let mut sr = SearchResult::default();
    sr.matches.push("&\u{2003}AΓain".into());
    sr.line_numbers = LineNumbers::Some(vec![4]);

    assert_eq!(gir, GenInnerResult::Search(sr));
}

#[test]
fn starts_with_no_line_number_caseless() {
    let line = LINE.as_bytes();
    let pattern = "gain".to_owned();

    let matcher = MatcherBuilder::new()
        .ignore_case(true)
        .no_line_number(true)
        .starts_with(true)
        .build(pattern);

    let searcher = Searcher {
        reader: line,
        matcher: &matcher,
    };

    let gen_result = searcher.search_matches();
    let gir = gen_result;

    let mut sr = SearchResult::default();
    sr.matches.push("a\tgain".into());
    sr.matches.push("a\x00nd, gain".into());
    sr.matches.push("Gain".into());

    assert_eq!(gir, GenInnerResult::Search(sr));
}

#[test]
fn starts_with_no_line_number_max_count() {
    let line = LINE.as_bytes();
    let pattern = "gain".to_owned();

    let matcher = MatcherBuilder::new()
        .max_count(Some(2))
        .no_line_number(true)
        .starts_with(true)
        .build(pattern);

    let searcher = Searcher {
        reader: line,
        matcher: &matcher,
    };

    let gen_result = searcher.search_matches();
    let gir = gen_result;

    let mut sr = SearchResult::default();
    sr.matches.push("a\tgain".into());
    sr.matches.push("a\x00nd, gain".into());

    assert_eq!(gir, GenInnerResult::Search(sr));
}

#[test]
fn starts_with_no_line_number_caseless_max_count() {
    let line = LINE2.as_bytes();
    let pattern = "gain".to_owned();

    let matcher = MatcherBuilder::new()
        .ignore_case(true)
        .max_count(Some(2))
        .no_line_number(true)
        .starts_with(true)
        .build(pattern);

    let searcher = Searcher {
        reader: line,
        matcher: &matcher,
    };

    let gen_result = searcher.search_matches();
    let gir = gen_result;

    let mut sr = SearchResult::default();
    sr.matches.push("Gain".into());
    sr.matches.push("a\x00nd, gain".into());

    assert_eq!(gir, GenInnerResult::Search(sr));
}

#[test]
fn starts_with_cnt_caseless() {
    let line = LINE.as_bytes();
    let pattern = "gain".to_owned();

    let matcher = MatcherBuilder::new()
        .count(true)
        .ignore_case(true)
        .starts_with(true)
        .build(pattern);

    let searcher = Searcher {
        reader: line,
        matcher: &matcher,
    };

    let gen_result = searcher.search_matches();
    let gir = gen_result;

    let cr = CountResult { count: 3 };
    assert_eq!(gir, GenInnerResult::Count(cr));
}
