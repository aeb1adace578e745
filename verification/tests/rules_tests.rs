use std::collections::HashSet;

use kenshi::rules::{
    is_filter, is_match, parse_size_rule, size_rules_hit, FilterRules, Matches, RegexRule,
    SizeRule,
};

fn match_rules(
    regex: Option<RegexRule>,
    line_num: Option<usize>,
    resp_size: Option<usize>,
    and_mode: bool,
) -> Matches {
    Matches { regex, status_code: None, line_num, resp_size, and_and_and: and_mode }
}

fn filter_rules(
    regex: Option<RegexRule>,
    line_num: Option<HashSet<usize>>,
    resp_size: Option<Vec<String>>,
    and_mode: bool,
) -> FilterRules {
    FilterRules { regex, status_code: None, line_num, resp_size, and_and_and: and_mode }
}

#[test]
fn and_combination_needs_every_subrule() {
    let body = b"one\ntwo\nthree";
    // 13 bytes, 3 lines
    let both_true = match_rules(None, Some(3), Some(13), true);
    assert!(is_match(body, &both_true));
    let one_false = match_rules(None, Some(3), Some(12), true);
    assert!(!is_match(body, &one_false));
    let other_false = match_rules(None, Some(2), Some(13), true);
    assert!(!is_match(body, &other_false));
}

#[test]
fn or_combination_needs_one_subrule() {
    let body = b"one\ntwo\nthree";
    let one_true = match_rules(None, Some(3), Some(999), false);
    assert!(is_match(body, &one_true));
    let none_true = match_rules(None, Some(7), Some(999), false);
    assert!(!is_match(body, &none_true));
}

#[test]
fn empty_ruleset_matches_everything() {
    let body = b"whatever";
    let and_empty = match_rules(None, None, None, true);
    assert!(is_match(body, &and_empty));
    let or_empty = match_rules(None, None, None, false);
    assert!(is_match(body, &or_empty));
}

#[test]
fn regex_subrule_reads_the_body() {
    let re = RegexRule::compile("adm.n").unwrap();
    let rules = match_rules(Some(re), None, None, true);
    assert!(is_match(b"x admin z", &rules));
    let re2 = RegexRule::compile("adm.n").unwrap();
    let rules2 = match_rules(Some(re2), None, None, true);
    assert!(!is_match(b"nothing here", &rules2));
}

#[test]
fn bad_regex_is_a_compile_error() {
    assert!(RegexRule::compile("(unclosed").is_err());
}

#[test]
fn evaluate_is_idempotent() {
    let body = b"alpha\nbeta";
    let rules = match_rules(None, Some(2), Some(10), true);
    let first = is_match(body, &rules);
    let second = is_match(body, &rules);
    assert_eq!(first, second);

    let frules = filter_rules(None, None, Some(vec![String::from("10")]), true);
    let f1 = is_filter(body, &frules);
    let f2 = is_filter(body, &frules);
    assert_eq!(f1, f2);
}

#[test]
fn size_rule_range_is_inclusive() {
    let rule = parse_size_rule("10-50").unwrap();
    assert_eq!(rule, SizeRule::Range(10, 50));
    let list = vec![String::from("10-50")];
    assert!(size_rules_hit(&list, 10));
    assert!(size_rules_hit(&list, 30));
    assert!(size_rules_hit(&list, 50));
    assert!(!size_rules_hit(&list, 9));
    assert!(!size_rules_hit(&list, 51));
}

#[test]
fn size_rule_comparisons_are_strict() {
    let gt = vec![String::from(">100")];
    assert!(size_rules_hit(&gt, 101));
    assert!(!size_rules_hit(&gt, 100));
    let lt = vec![String::from("<100")];
    assert!(size_rules_hit(&lt, 99));
    assert!(!size_rules_hit(&lt, 100));
}

#[test]
fn size_rule_exact_matches_exactly() {
    let exact = vec![String::from("123")];
    assert!(size_rules_hit(&exact, 123));
    assert!(!size_rules_hit(&exact, 122));
    assert!(!size_rules_hit(&exact, 124));
}

#[test]
fn malformed_size_rules_never_match() {
    assert_eq!(parse_size_rule("abc"), None);
    assert_eq!(parse_size_rule("1-2-3"), None);
    assert_eq!(parse_size_rule(">1x0"), None);
    assert_eq!(parse_size_rule(""), None);
    assert_eq!(parse_size_rule("10-"), None);
    let list = vec![
        String::from("abc"),
        String::from("1-2-3"),
        String::from(">x"),
        String::from(""),
    ];
    assert!(!size_rules_hit(&list, 0));
    assert!(!size_rules_hit(&list, 123));
}

#[test]
fn first_satisfying_size_entry_wins() {
    let list = vec![String::from("abc"), String::from(">10"), String::from("5")];
    assert!(size_rules_hit(&list, 50));
    assert!(size_rules_hit(&list, 5));
    assert!(!size_rules_hit(&list, 7));
}

#[test]
fn filter_line_membership() {
    let mut lines: HashSet<usize> = HashSet::new();
    lines.insert(2);
    lines.insert(4);
    let rules = filter_rules(None, Some(lines), None, true);
    assert!(is_filter(b"a\nb", &rules));
    assert!(!is_filter(b"a\nb\nc", &rules));
}

#[test]
fn filter_or_with_no_subrules_filters_everything() {
    let rules = filter_rules(None, None, None, false);
    assert!(is_filter(b"anything", &rules));
}
