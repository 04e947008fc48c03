use shakey::arguments::{Arguments, ExampleArgs, Kind, Match, PatternError};

fn b(s: &str) -> Vec<u8> {
    s.as_bytes().to_vec()
}

fn extract(pattern: &str, input: &str) -> Match<Arguments> {
    let ea = ExampleArgs::parse(pattern.as_bytes()).expect("pattern should parse");
    ea.extract(input.as_bytes())
}

#[test]
fn pattern_parses_kinds() {
    let ea = ExampleArgs::parse(b"<a> <b?> <c..>").expect("pattern should parse");
    assert_eq!(ea.usage, b("<a> <b?> <c..>"));
    assert_eq!(ea.args.len(), 3);
    assert_eq!(ea.args[0].key, b("a"));
    assert!(matches!(ea.args[0].kind, Kind::Required));
    assert_eq!(ea.args[1].key, b("b"));
    assert!(matches!(ea.args[1].kind, Kind::Optional));
    assert_eq!(ea.args[2].key, b("c"));
    assert!(matches!(ea.args[2].kind, Kind::Variadic));
}

#[test]
fn pattern_ignores_other_tokens() {
    let ea = ExampleArgs::parse(b"say <msg..> loudly").expect("pattern should parse");
    assert_eq!(ea.args.len(), 1);
    assert_eq!(ea.args[0].key, b("msg"));
}

#[test]
fn extract_binds_all_three() {
    match extract("<a> <b?> <c..>", "1 2 3 4") {
        Match::Match(m) => {
            assert_eq!(m.get(b"a"), Some(&b("1")));
            assert_eq!(m.get(b"b"), Some(&b("2")));
            assert_eq!(m.get(b"c"), Some(&b("3 4")));
        }
        _ => panic!("expected a match"),
    }
}

#[test]
fn extract_binds_only_required() {
    match extract("<a> <b?> <c..>", "1") {
        Match::Match(m) => {
            assert_eq!(m.get(b"a"), Some(&b("1")));
            assert_eq!(m.get(b"b"), None);
            assert_eq!(m.get(b"c"), None);
        }
        _ => panic!("expected a match"),
    }
}

#[test]
fn extract_empty_asks_for_usage() {
    assert!(matches!(extract("<a> <b?> <c..>", ""), Match::Required));
}

#[test]
fn extract_no_args_with_text_is_no_match() {
    assert!(matches!(extract("", "anything"), Match::NoMatch));
}

#[test]
fn extract_optional_only_with_empty_matches() {
    match extract("<a?>", "") {
        Match::Match(m) => assert_eq!(m.get(b"a"), None),
        _ => panic!("expected a match"),
    }
}

#[test]
fn duplicate_names_fail_to_parse() {
    match ExampleArgs::parse(b"<a> <a?>") {
        Err(PatternError::DuplicateKey) => {}
        _ => panic!("expected a duplicate-name error"),
    }
}

#[test]
fn variadic_not_last_fails_to_parse() {
    match ExampleArgs::parse(b"<a..> <b>") {
        Err(PatternError::VariadicNotLast) => {}
        _ => panic!("expected a variadic-not-last error"),
    }
}

#[test]
fn get_parsed_reads_numbers() {
    match extract("<n>", "42") {
        Match::Match(m) => {
            assert_eq!(m.get_parsed(b"n"), Some(Some(42)));
            assert_eq!(m.get_parsed(b"x"), None);
        }
        _ => panic!("expected a match"),
    }
    match extract("<n>", "nope") {
        Match::Match(m) => assert_eq!(m.get_parsed(b"n"), Some(None)),
        _ => panic!("expected a match"),
    }
    // the largest value parses; one past it overflows
    match extract("<n..>", "18446744073709551615") {
        Match::Match(m) => assert_eq!(m.get_parsed(b"n"), Some(Some(u64::MAX))),
        _ => panic!("expected a match"),
    }
    match extract("<n..>", "18446744073709551616") {
        Match::Match(m) => assert_eq!(m.get_parsed(b"n"), Some(None)),
        _ => panic!("expected a match"),
    }
}
