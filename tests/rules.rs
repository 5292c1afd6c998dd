use sitemap_from_files::config::Rule;
use sitemap_from_files::rules::{Rules, RulesError};

fn rule(pattern: &str) -> Rule {
    Rule {
        pattern: pattern.to_string(),
        replace: None,
        replace_limit: Rule::default_replace_limit(),
        in_sitemap: None,
        check_html_meta_robots: None,
    }
}

fn including(pattern: &str) -> Rule {
    Rule { in_sitemap: Some(true), ..rule(pattern) }
}

fn compile(rules: Vec<Rule>) -> Rules {
    match Rules::new(rules) {
        Ok(r) => r,
        Err(_) => panic!("rules should compile"),
    }
}

#[test]
fn default_replace_limit_is_zero() {
    assert_eq!(Rule::default_replace_limit(), 0);
}

#[test]
fn no_matching_rule_excludes() {
    let rules = compile(vec![including(r"\.html$")]);
    assert!(rules.apply("style.css").is_none());
}

#[test]
fn matching_including_rule_keeps_path() {
    let rules = compile(vec![including("")]);
    let a = rules.apply("foo/bar.html").unwrap();
    assert_eq!(a.path, "foo/bar.html");
    assert!(a.replacing_rule.is_none());
    assert!(!a.check_html_meta_robots);
}

#[test]
fn matching_rule_without_verdict_excludes() {
    let rules = compile(vec![rule("")]);
    assert!(rules.apply("index.html").is_none());
}

#[test]
fn last_matching_inclusion_wins() {
    let mut exclude_secret = rule("^secret/");
    exclude_secret.in_sitemap = Some(false);
    let rules = compile(vec![including(""), exclude_secret, rule("html")]);
    assert!(rules.apply("secret/a.html").is_none());
    assert!(rules.apply("public/a.html").is_some());

    let mut exclude_all = rule("");
    exclude_all.in_sitemap = Some(false);
    let rules = compile(vec![exclude_all, including("^keep/")]);
    assert!(rules.apply("keep/x").is_some());
    assert!(rules.apply("drop/x").is_none());
}

#[test]
fn last_matching_html_check_wins() {
    let mut check = including("");
    check.check_html_meta_robots = Some(true);
    let mut uncheck = rule(r"\.txt$");
    uncheck.check_html_meta_robots = Some(false);
    let rules = compile(vec![check, uncheck, rule("a")]);
    assert!(rules.apply("a.html").unwrap().check_html_meta_robots);
    assert!(!rules.apply("a.txt").unwrap().check_html_meta_robots);
}

#[test]
fn last_matching_replace_wins_with_its_own_pattern() {
    let mut first = including("html");
    first.replace = Some("HTML".to_string());
    let mut second = rule(r"^index\.html$");
    second.replace = Some("".to_string());
    let rules = compile(vec![first, second]);
    let a = rules.apply("index.html").unwrap();
    assert_eq!(a.path, "");
    assert_eq!(a.replacing_rule, Some(1));
    let b = rules.apply("about.html").unwrap();
    assert_eq!(b.path, "about.HTML");
    assert_eq!(b.replacing_rule, Some(0));
}

#[test]
fn replace_limit_zero_replaces_every_match() {
    let mut r = including("a");
    r.replace = Some("b".to_string());
    let rules = compile(vec![r]);
    assert_eq!(rules.apply("aaa/a.html").unwrap().path, "bbb/b.html");
}

#[test]
fn replace_limit_replaces_leftmost_matches() {
    let mut r = including("a");
    r.replace = Some("b".to_string());
    r.replace_limit = 2;
    let rules = compile(vec![r]);
    assert_eq!(rules.apply("aaa/a.html").unwrap().path, "bba/a.html");
}

#[test]
fn replace_template_uses_groups() {
    let mut r = including(r"^(\w+)/index\.html$");
    r.replace = Some("${1}/".to_string());
    let rules = compile(vec![r]);
    assert_eq!(rules.apply("blog/index.html").unwrap().path, "blog/");
}

#[test]
fn invalid_pattern_is_refused() {
    assert!(matches!(Rules::new(vec![including("(")]), Err(RulesError::InvalidPattern)));
}

#[test]
fn apply_twice_gives_same_result() {
    let mut r = including("o");
    r.replace = Some("0".to_string());
    let rules = compile(vec![r]);
    let a = rules.apply("foo/boo").unwrap();
    let b = rules.apply("foo/boo").unwrap();
    assert_eq!(a.path, b.path);
    assert_eq!(a.replacing_rule, b.replacing_rule);
}

#[test]
fn appended_unset_rule_changes_nothing() {
    let mut r = including("o");
    r.replace = Some("0".to_string());
    let mut r2 = including("o");
    r2.replace = Some("0".to_string());
    let base = compile(vec![r]);
    let extended = compile(vec![r2, rule("")]);
    for path in ["foo", "bar", "o/o"] {
        let a = base.apply(path);
        let b = extended.apply(path);
        assert_eq!(a.is_some(), b.is_some());
        if let (Some(a), Some(b)) = (a, b) {
            assert_eq!(a.path, b.path);
            assert_eq!(a.check_html_meta_robots, b.check_html_meta_robots);
        }
    }
}

#[test]
fn invalid_replacing_pattern_is_refused() {
    let mut r = including("[a-");
    r.replace = Some("x".to_string());
    assert!(matches!(Rules::new(vec![r]), Err(RulesError::InvalidPattern)));
}
