use grrs::bytes::{ascii_lowercase_into, contains_bytes, ends_with_bytes, equal_bytes, is_ascii_bytes, starts_with_bytes};
use grrs::matcher::{Config, MatcherBuilder, MatcherType};
use grrs::results::{
    check_contains, check_ends_with, check_starts_ends_with, check_starts_with, check_words,
    fields_end_with, fields_start_and_end_with, fields_start_with, words_equal, CountResult, GenInnerResult, SearchInnerResult, SearchResult,
};
use grrs::search::{check_line, Scan, Searcher};

fn search(input: &str, builder: &MatcherBuilder, pattern: &str) -> GenInnerResult {
    let matcher = builder.build(pattern.to_owned());
    Searcher { reader: input.as_bytes(), matcher: &matcher }.search_matches()
}

fn lines_and_numbers(gir: GenInnerResult) -> (Vec<Vec<u8>>, Option<Vec<u64>>) {
    match gir {
        GenInnerResult::Search(SearchResult { matches, line_numbers }) => (matches, line_numbers),
        GenInnerResult::Count(_) => unreachable!(),
    }
}

#[test]
fn byte_primitives() {
    assert!(contains_bytes(b"foo bar", b"o b"));
    assert!(contains_bytes(b"foo", b""));
    assert!(!contains_bytes(b"foo", b"foobar"));
    assert!(starts_with_bytes(b"foo bar", b"foo"));
    assert!(!starts_with_bytes(b"foo bar", b"bar"));
    assert!(ends_with_bytes(b"foo bar", b"bar"));
    assert!(!ends_with_bytes(b"bar", b"foobar"));
    assert!(equal_bytes(b"a\x00b", b"a\x00b"));
    assert!(!equal_bytes(b"ab", b"abc"));
    assert!(is_ascii_bytes(b"plain\t\x00"));
    assert!(!is_ascii_bytes("AΓ".as_bytes()));
    let mut buf = b"x".to_vec();
    ascii_lowercase_into(b"HeLLo, W0RLD \xff", &mut buf);
    assert_eq!(buf, b"xhello, w0rld \xff".to_vec());
}

#[test]
fn field_tests() {
    assert!(check_starts_with(b"a\tgain\n", b"gain"));
    assert!(!check_starts_with(b"again\n", b"gain"));
    assert!(check_starts_with("&\u{2003}gain".as_bytes(), b"gain"));
    assert!(check_ends_with(b"a\x00nd, again\n", b"gain"));
    assert!(!check_ends_with(b"gains", b"gain"));
    assert!(check_starts_ends_with(b"x gain,gain, y", b"gain,"));
    assert!(!check_starts_ends_with(b"gain,x xgain,", b"gain,"));
    assert!(check_starts_ends_with(b"gaingain", b"gain"));
}

#[test]
fn word_tests() {
    assert!(check_words(b"?gain,\n", b"gain"));
    assert!(!check_words(b"?gain,\n", b"gain,"));
    assert!(!check_words(b"again\r\n", b"gain"));
    assert!(!check_words(b"can't stop\n", b"can't"));
    assert!(check_words(b"can't stop\n", b"stop"));
    assert!(!check_words(b"3.5 feet\n", b"3.5"));
    assert!(!check_words(b", ; .\n", b","));
    assert!(check_contains(b"a\x00b", b"\x00"));
}

#[test]
fn dispatch_follows_the_test_kind() {
    assert!(check_line(MatcherType::Base, b"xgainx", b"gain"));
    assert!(check_line(MatcherType::MaxCount, b"xgainx", b"gain"));
    assert!(!check_line(MatcherType::StartsWith, b"xgainx", b"gain"));
    assert!(!check_line(MatcherType::EndsWith, b"xgainx", b"gain"));
    assert!(!check_line(MatcherType::Words, b"xgainx", b"gain"));
    assert!(check_line(MatcherType::StartsEndsWith, b"gain", b"gain"));
}

#[test]
fn builder_defaults_and_selection() {
    let b = MatcherBuilder::new();
    let c: Config = b.config;
    assert!(!c.count && !c.ends_with && !c.ignore_case && !c.no_line_number);
    assert!(!c.starts_with && !c.words && c.max_count.is_none());
    assert_eq!(b.build("p".to_owned()).matcher_type, MatcherType::Base);
    assert_eq!(MatcherBuilder::new().max_count(Some(1)).build("p".to_owned()).matcher_type, MatcherType::MaxCount);
    assert_eq!(MatcherBuilder::new().starts_with(true).build("p".to_owned()).matcher_type, MatcherType::StartsWith);
    assert_eq!(MatcherBuilder::new().ends_with(true).build("p".to_owned()).matcher_type, MatcherType::EndsWith);
    assert_eq!(
        MatcherBuilder::new().ends_with(true).starts_with(true).build("p".to_owned()).matcher_type,
        MatcherType::StartsEndsWith
    );
    assert_eq!(
        MatcherBuilder::new().ends_with(true).starts_with(true).words(true).build("p".to_owned()).matcher_type,
        MatcherType::Words
    );
}

#[test]
fn pattern_is_lowercased_once_when_case_is_ignored() {
    let m = MatcherBuilder::new().ignore_case(true).build("AΓAIN".to_owned());
    assert_eq!(m.pattern, "aγain");
    let m = MatcherBuilder::new().build("AΓAIN".to_owned());
    assert_eq!(m.pattern, "AΓAIN");
}

#[test]
fn absent_pattern_records_nothing() {
    let input = "one\ntwo\nthree";
    let (matches, numbers) = lines_and_numbers(search(input, &MatcherBuilder::new(), "four"));
    assert!(matches.is_empty());
    assert_eq!(numbers, None);
    let gir = search(input, MatcherBuilder::new().count(true), "four");
    assert_eq!(gir, GenInnerResult::Count(CountResult { count: 0 }));
}

#[test]
fn matches_keep_stream_order() {
    let input = "b1\na\nb2\nb3\nc\nb4";
    let (matches, numbers) = lines_and_numbers(search(input, &MatcherBuilder::new(), "b"));
    assert_eq!(matches, vec![b"b1".to_vec(), b"b2".to_vec(), b"b3".to_vec(), b"b4".to_vec()]);
    assert_eq!(numbers, Some(vec![1, 3, 4, 6]));
}

#[test]
fn max_count_keeps_the_first_selected_lines() {
    let input = "b1\na\nb2\nb3\nc\nb4";
    let (matches, numbers) = lines_and_numbers(search(input, MatcherBuilder::new().max_count(Some(2)), "b"));
    assert_eq!(matches, vec![b"b1".to_vec(), b"b2".to_vec()]);
    assert_eq!(numbers, Some(vec![1, 3]));
    let (matches, numbers) = lines_and_numbers(search(input, MatcherBuilder::new().max_count(Some(0)), "b"));
    assert!(matches.is_empty());
    assert_eq!(numbers, None);
    let gir = search(input, MatcherBuilder::new().max_count(Some(3)).count(true), "b");
    assert_eq!(gir, GenInnerResult::Count(CountResult { count: 3 }));
}

#[test]
fn nul_bytes_are_plain_bytes() {
    let input = "x\na\x00b c\r\nz";
    let (matches, numbers) = lines_and_numbers(search(input, &MatcherBuilder::new(), "\x00b"));
    assert_eq!(matches, vec![b"a\x00b c".to_vec()]);
    assert_eq!(numbers, Some(vec![2]));
}

#[test]
fn case_folding_on_ascii_and_unicode_lines() {
    let input = "He SAID\n& AΓAIN\nnothing";
    let (matches, numbers) = lines_and_numbers(search(input, MatcherBuilder::new().ignore_case(true), "said"));
    assert_eq!(matches, vec![b"He SAID".to_vec()]);
    assert_eq!(numbers, Some(vec![1]));
    let (matches, _) = lines_and_numbers(search(input, MatcherBuilder::new().ignore_case(true), "ΓAIN"));
    assert_eq!(matches, vec!["& AΓAIN".as_bytes().to_vec()]);
    let (matches, _) = lines_and_numbers(search(input, &MatcherBuilder::new(), "said"));
    assert!(matches.is_empty());
}

#[test]
fn punctuated_pattern_never_equals_a_word() {
    let input = "gain's\n?gain,\ngain";
    let (matches, _) = lines_and_numbers(search(input, MatcherBuilder::new().words(true), "gain's"));
    assert!(matches.is_empty());
    let (matches, _) = lines_and_numbers(search(input, MatcherBuilder::new().words(true), "gain,"));
    assert!(matches.is_empty());
    let (matches, numbers) = lines_and_numbers(search(input, MatcherBuilder::new().words(true), "gain"));
    assert_eq!(matches, vec![b"?gain,".to_vec(), b"gain".to_vec()]);
    assert_eq!(numbers, Some(vec![2, 3]));
    let gir = search(input, MatcherBuilder::new().words(true).count(true), "gain,");
    assert_eq!(gir, GenInnerResult::Count(CountResult { count: 0 }));
}

#[test]
fn line_splitting_edges() {
    let (matches, numbers) = lines_and_numbers(search("", &MatcherBuilder::new(), ""));
    assert!(matches.is_empty());
    assert_eq!(numbers, None);
    let (matches, numbers) = lines_and_numbers(search("a\n\nb\n", &MatcherBuilder::new(), ""));
    assert_eq!(matches, vec![b"a".to_vec(), b"".to_vec(), b"b".to_vec()]);
    assert_eq!(numbers, Some(vec![1, 2, 3]));
    let (matches, _) = lines_and_numbers(search("a\r\r\nb\r\nc\r", &MatcherBuilder::new(), ""));
    assert_eq!(matches, vec![b"a\r".to_vec(), b"b".to_vec(), b"c\r".to_vec()]);
}

#[test]
fn scan_fed_line_by_line_agrees_with_searcher() {
    let matcher = MatcherBuilder::new().ignore_case(true).max_count(Some(2)).build("AGAIN".to_owned());
    let mut scan = Scan::new(&matcher);
    for line in [&b"He started again\n"[..], b"a\x00nd again\n", b"& again"] {
        scan.feed_line(&matcher, line);
    }
    let streamed = scan.finish(&matcher);
    let input = "He started again\na\x00nd again\n& again";
    let whole = Searcher { reader: input.as_bytes(), matcher: &matcher }.search_matches();
    assert_eq!(streamed, whole);
    let (matches, numbers) = lines_and_numbers(whole);
    assert_eq!(matches, vec![b"He started again".to_vec(), b"a\x00nd again".to_vec()]);
    assert_eq!(numbers, Some(vec![1, 2]));
}

#[test]
fn accumulators() {
    let mut cr = CountResult::default();
    cr.check_and_add(b"x", b"axb", check_contains);
    cr.check_and_add(b"x", b"ab", check_contains);
    assert_eq!(cr.count, 1);

    let mut sir = SearchInnerResult::default();
    sir.check_and_store(b"x", 3, b"axb\r\n", check_contains);
    sir.check_and_store_nln(b"x", b"no\n", check_contains);
    let mut left = 1;
    sir.check_and_store_max_count(b"x", 7, b"x7\n", &mut left, check_contains);
    assert_eq!(left, 0);
    sir.check_and_store_separate(b"x", 9, b"x", b"Stored\n", check_contains);
    assert_eq!(sir.matches, vec![b"axb".to_vec(), b"x7".to_vec(), b"Stored".to_vec()]);
    assert_eq!(sir.line_numbers, vec![3, 7, 9]);
    assert_eq!(
        SearchInnerResult::default().upcast(),
        GenInnerResult::Search(SearchResult::default())
    );
}

#[test]
fn tests_on_given_fields_and_words() {
    let fields = vec![b"again".to_vec(), b"gains".to_vec()];
    assert!(fields_start_with(&fields, b"gain"));
    assert!(!fields_start_with(&fields, b"ain"));
    assert!(fields_end_with(&fields, b"ain"));
    assert!(!fields_end_with(&fields, b"gain,"));
    assert!(!fields_start_and_end_with(&fields, b"gain"));
    assert!(fields_start_and_end_with(&vec![b"abab".to_vec()], b"ab"));
    let words = vec![b"can't".to_vec(), b"stop".to_vec()];
    assert!(words_equal(&words, b"stop"));
    assert!(!words_equal(&words, b"can"));
    assert!(!words_equal(&Vec::new(), b""));
}
