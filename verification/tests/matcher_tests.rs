use pager::command::Command;
use pager::command::CommandBuilder;
use pager::command::CommandType;
use pager::command::SearchPattern;
use pager::command::find_first;

#[test]
fn substring_first_occurrence() {
    let p = SearchPattern::Substring("lo".to_string());
    assert_eq!(p.is_match(b"hello lo"), Some((3, 5)));
    assert_eq!(p.is_match(b"xyz"), None);
    // empty needle matches at the start
    let e = SearchPattern::Substring(String::new());
    assert_eq!(e.is_match(b"abc"), Some((0, 0)));
}

#[test]
fn substring_match_satisfies_matcher_again() {
    // the matched slice itself satisfies a substring matcher
    let p = SearchPattern::Substring("wor".to_string());
    let line = b"hello world";
    let (a, b) = p.is_match(line).unwrap();
    assert_eq!(&line[a..b], b"wor");
    assert!(p.is_match(&line[a..b]).is_some());
}

#[test]
fn regex_first_match_offsets() {
    let p = SearchPattern::Regex("h.t".to_string());
    assert_eq!(p.is_match(b"a hot hat"), Some((2, 5)));
    assert_eq!(p.is_match(b"nothing here"), None);
}

#[test]
fn invalid_regex_matches_nothing() {
    let p = SearchPattern::Regex("foo(bar".to_string());
    assert_eq!(p.is_match(b"foobar foo(bar"), None);
    let ok = SearchPattern::Regex("foo(bar)".to_string());
    assert_eq!(ok.is_match(b"xfoobar"), Some((1, 7)));
}

#[test]
fn composite_queries() {
    let a = Command::SearchFor(SearchPattern::Substring("aa".to_string()));
    let b = Command::SearchFor(SearchPattern::Substring("bb".to_string()));
    let any = Command::Any(vec![a, b]);
    // first member's match wins
    assert_eq!(any.is_match(b"xbbxaa"), Some((4, 6)));
    let a2 = Command::SearchFor(SearchPattern::Substring("aa".to_string()));
    let b2 = Command::SearchFor(SearchPattern::Substring("bb".to_string()));
    let every = Command::Every(vec![a2, b2]);
    // last member's match, or nothing when one misses
    assert_eq!(every.is_match(b"aaxbb"), Some((3, 5)));
    let a3 = Command::SearchFor(SearchPattern::Substring("aa".to_string()));
    let b3 = Command::SearchFor(SearchPattern::Substring("bb".to_string()));
    let every2 = Command::Every(vec![a3, b3]);
    assert_eq!(every2.is_match(b"aax"), None);
}

#[test]
fn ignore_inverts_the_gate_but_reports_the_range() {
    let ign = Command::Ignore(SearchPattern::Substring("noise".to_string()));
    assert_eq!(ign.is_match(b"some noise here"), Some((5, 10)));
    assert!(!ign.matches_line(b"some noise here"));
    assert!(ign.matches_line(b"clean line"));
}

#[test]
fn find_first_is_byte_exact() {
    assert_eq!(find_first(b"abcabc", b"bc"), Some(1));
    assert_eq!(find_first(b"abcabc", b"cab"), Some(2));
    assert_eq!(find_first(b"abc", b"zz"), None);
    assert_eq!(find_first(b"", b""), Some(0));
    // case-sensitive
    assert_eq!(find_first(b"ABC", b"abc"), None);
}

#[test]
fn builder_produces_the_commanded_query() {
    let mut b = CommandBuilder::new();
    b.cmd_type = CommandType::Search;
    b.cmd = "hit".to_string();
    match b.build().unwrap() {
        Command::SearchFor(SearchPattern::Substring(s)) => assert_eq!(s, "hit"),
        _ => panic!("wrong query"),
    }
    b.cmd_type = CommandType::Regex;
    b.cmd = "h(".to_string();
    assert!(b.build().is_none());
    b.cmd_type = CommandType::Ignore;
    b.cmd = "x".to_string();
    match b.build().unwrap() {
        Command::Ignore(SearchPattern::Substring(s)) => assert_eq!(s, "x"),
        _ => panic!("wrong query"),
    }
    b.clear();
    assert!(matches!(b.cmd_type, CommandType::Inactive));
    assert!(b.build().is_none());
}

#[test]
fn pattern_text_is_writable() {
    let mut p = SearchPattern::Substring("abc".to_string());
    p.get_mut_str().push('d');
    assert_eq!(p.is_match(b"xxabcdyy"), Some((2, 6)));
    let mut c = Command::SearchFor(SearchPattern::Substring("a".to_string()));
    c.get_mut_str().push('b');
    assert_eq!(c.is_match(b"zab"), Some((1, 3)));
}
