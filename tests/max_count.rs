use grrs::matcher::MatcherBuilder;
use grrs::results::{CountResult, GenInnerResult, LineNumbers, SearchResult};
use grrs::search::Searcher;

const LINE: &str = "He started\nmade a run\n& stopped";
const LINE_MAX_NON_ASCII: &str = "He started again\na\x00nd again\n& AΓain";

fn search_part(gir: &GenInnerResult) -> &SearchResult {
    match gir {
        GenInnerResult::Search(sr) => sr,
        GenInnerResult::Count(_) => unreachable!(),
    }
}

#[test]
fn max_count_max_count_empty() {
    let line = LINE_MAX_NON_ASCII.as_bytes();
    let pattern = "again".to_owned();

    let matcher = MatcherBuilder::new()
        .max_count(Some(0))
        .no_line_number(false)
        .build(pattern);

    let searcher = Searcher {
        reader: line,
        matcher: &matcher,
    };

    let gen_result = searcher.search_matches();
    let gir = gen_result;

    let sr = SearchResult::default();
    let found = search_part(&gir);
    assert_eq!(found.matches.len(), 0);

    assert_eq!(gir, GenInnerResult::Search(sr));
}

#[test]
fn max_count_max_count_one() {
    let line = LINE_MAX_NON_ASCII.as_bytes();
    let pattern = "again".to_owned();

    let matcher = MatcherBuilder::new()
        .max_count(Some(1))
        .no_line_number(false)
        .build(pattern);

    let searcher = Searcher {
        reader: line,
        matcher: &matcher,
    };

    let gen_result = searcher.search_matches();
    let gir = gen_result;

    let mut sr = SearchResult::default();
    sr.matches.push("He started again".into());
    sr.line_numbers = LineNumbers::Some(vec![1]);

    let found = search_part(&gir);
    assert_eq!(found.matches.len(), 1);
    assert_eq!(found.matches[0], &b"He started again"[..]);

    assert_eq!(gir, GenInnerResult::Search(sr));
}

#[test]
fn max_count_max_count_large() {
    let line = LINE.as_bytes();
    let pattern = "made".to_owned();

    let matcher = MatcherBuilder::new()
        .max_count(Some(1000))
        .no_line_number(false)
        .build(pattern);

    let searcher = Searcher {
        reader: line,
        matcher: &matcher,
    };

    let gen_result = searcher.search_matches();
    let gir = gen_result;

    let mut sr = SearchResult::default();
    sr.matches.push("made a run".into());
    sr.line_numbers = LineNumbers::Some(vec![2]);

    let found = search_part(&gir);
    assert_eq!(found.matches.len(), 1);
    assert_eq!(found.matches[0], &b"made a run"[..]);

    assert_eq!(gir, GenInnerResult::Search(sr));
}

#[test]
fn max_count_line_number_caseless() {
    let line = LINE_MAX_NON_ASCII.as_bytes();
    let pattern = "again".to_owned();

    let matcher = MatcherBuilder::new()
        .ignore_case(true)
        .max_count(Some(2))
        .no_line_number(false)
        .build(pattern);

    let searcher = Searcher {
        reader: line,
        matcher: &matcher,
    };

    let gen_result = searcher.search_matches();
    let gir = gen_result;

    let mut sr = SearchResult::default();
    sr.matches.push("He started again".into());
    sr.matches.push("a\x00nd again".into());
    sr.line_numbers = LineNumbers::Some(vec![1, 2]);

    let found = search_part(&gir);
    assert!(found.matches.len() == 2);
    let line_number_inner: Vec<u64> = vec![1, 2];
    assert_eq!(&found.line_numbers, &LineNumbers::Some(line_number_inner));

    assert_eq!(gir, GenInnerResult::Search(sr));
}

#[test]
fn max_count_no_line_number_caseless() {
    let line = LINE_MAX_NON_ASCII.as_bytes();
    let pattern = "again".to_owned();

    let matcher = MatcherBuilder::new()
        .ignore_case(true)
        .max_count(Some(2))
        .no_line_number(true)
        .build(pattern);

    let searcher = Searcher {
        reader: line,
        matcher: &matcher,
    };

    let gen_result = searcher.search_matches();
    let gir = gen_result;

    let mut sr = SearchResult::default();
    sr.matches.push("He started again".into());
    sr.matches.push("a\x00nd again".into());

    let found = search_part(&gir);
    assert!(found.matches.len() == 2);
    assert_eq!(&found.line_numbers, &LineNumbers::None);

    assert_eq!(gir, GenInnerResult::Search(sr));
}

#[test]
fn cnt_max_count_zero() {
    let line = LINE_MAX_NON_ASCII.as_bytes();
    let pattern = " ".to_owned();

    let matcher = MatcherBuilder::new()
        .count(true)
        .max_count(Some(0))
        .build(pattern);

    let searcher = Searcher {
        reader: line,
        matcher: &matcher,
    };

    let gen_result = searcher.search_matches();
    let gir = gen_result;

    let cr = CountResult { count: 0 };
    assert_eq!(gir, GenInnerResult::Count(cr));
}

#[test]
fn cnt_max_count_two() {
    let line = LINE_MAX_NON_ASCII.as_bytes();
    let pattern = " ".to_owned();

    let matcher = MatcherBuilder::new()
        .count(true)
        .max_count(Some(2))
        .build(pattern);

    let searcher = Searcher {
        reader: line,
        matcher: &matcher,
    };

    let gen_result = searcher.search_matches();
    let gir = gen_result;

    // The bound holds for counted lines as for recorded ones: three lines
    // hold a space, the first two are counted.
    let cr = CountResult { count: 2 };
    assert_eq!(gir, GenInnerResult::Count(cr));
}
