use sitemap_from_files::config::{Config, Rule};
use sitemap_from_files::html_meta::HtmlMeta;
use sitemap_from_files::scan::{
    check_sitemap_size, verdict_for, Located, ScanError, Scanner, SitemapEntry, Verdict, MAX_SITEMAP_BYTES,
    MAX_SITEMAP_URLS,
};

fn rule(pattern: &str, in_sitemap: Option<bool>, replace: Option<&str>) -> Rule {
    Rule {
        pattern: pattern.to_string(),
        replace: replace.map(|s| s.to_string()),
        replace_limit: 0,
        in_sitemap,
        check_html_meta_robots: None,
    }
}

fn config(root_url: &str, rules: Vec<Rule>) -> Config {
    Config { root_dir: "/site".to_string(), root_url: root_url.to_string(), sitemap_path: None, rules }
}

fn scanner(root_url: &str, rules: Vec<Rule>, robots: Option<&str>) -> Scanner {
    match Scanner::new(config(root_url, rules), robots.map(|r| r.as_bytes().to_vec())) {
        Ok(s) => s,
        Err(_) => panic!("scanner should start"),
    }
}

fn url_of(v: Result<Verdict, ScanError>) -> Option<String> {
    match v {
        Ok(Verdict::Include(l)) => Some(l.url),
        Ok(Verdict::Skip) => None,
        Err(_) => panic!("unexpected error"),
    }
}

fn entry(url: &str, t: Option<i64>) -> SitemapEntry {
    SitemapEntry { url: url.to_string(), last_modified: t }
}

#[test]
fn root_url_must_parse_and_be_a_base() {
    assert!(matches!(Scanner::new(config("not a url", vec![]), None), Err(ScanError::InvalidRootUrl)));
    assert!(matches!(Scanner::new(config("mailto:a@example.com", vec![]), None), Err(ScanError::UnusableRootUrl)));
    assert!(matches!(
        Scanner::new(config("https://example.com/", vec![rule("(", Some(true), None)]), None),
        Err(ScanError::InvalidPattern)
    ));
}

#[test]
fn root_url_is_normalized() {
    let s = scanner("https://example.com", vec![rule("", Some(true), None)], None);
    assert_eq!(url_of(s.classify("a.html")), Some("https://example.com/a.html".to_string()));
}

#[test]
fn match_everything_includes_each_file() {
    let s = scanner("https://example.com/", vec![rule("", Some(true), None)], None);
    assert_eq!(url_of(s.classify("index.html")), Some("https://example.com/index.html".to_string()));
    assert_eq!(url_of(s.classify("foo/bar.html")), Some("https://example.com/foo/bar.html".to_string()));
}

#[test]
fn excluded_file_is_skipped() {
    let s = scanner("https://example.com/", vec![rule(r"\.html$", Some(true), None)], None);
    assert!(matches!(s.classify("index.txt"), Ok(Verdict::Skip)));
    assert!(matches!(s.locate("index.txt"), Ok(None)));
}

#[test]
fn rewrite_outside_root_aborts() {
    let s = scanner("https://example.com/site/", vec![rule("^", Some(true), Some("../"))], None);
    match s.classify("a.html") {
        Err(ScanError::OutsideRoot { path, url }) => {
            assert_eq!(path, "a.html");
            assert_eq!(url, "https://example.com/a.html");
        },
        _ => panic!("expected an escape from the root URL"),
    }
    let s = scanner("https://example.com/", vec![rule("^", Some(true), Some("https://elsewhere.org/"))], None);
    assert!(matches!(s.locate("a.html"), Err(ScanError::OutsideRoot { .. })));
}

#[test]
fn rewrite_inside_root_is_used() {
    let s = scanner("https://example.com/", vec![rule(r"index\.html$", Some(true), Some(""))], None);
    assert_eq!(url_of(s.classify("docs/index.html")), Some("https://example.com/docs/".to_string()));
}

#[test]
fn invalid_rewrite_aborts() {
    let s = scanner("https://example.com/", vec![rule("^", Some(true), Some("http://["))], None);
    assert!(matches!(s.classify("a"), Err(ScanError::InvalidRewrite { .. })));
}

#[test]
fn robots_disallowed_subtree_is_skipped() {
    let robots = "User-agent: *\nDisallow: /secret/\n";
    let s = scanner("https://example.com/", vec![rule("", Some(true), None)], Some(robots));
    assert!(matches!(s.classify("secret/secrets.html"), Ok(Verdict::Skip)));
    assert!(matches!(s.classify("secret/deeper/x.html"), Ok(Verdict::Skip)));
    assert_eq!(url_of(s.classify("public.html")), Some("https://example.com/public.html".to_string()));
    assert!(!s.robots_allow("secret/a"));
    assert!(s.robots_allow("open/a"));
}

#[test]
fn robots_check_uses_path_before_rewrite() {
    let robots = "User-agent: *\nDisallow: /secret/\n";
    let s = scanner("https://example.com/", vec![rule("^secret/", Some(true), Some("public/"))], Some(robots));
    assert!(matches!(s.classify("secret/a.html"), Ok(Verdict::Skip)));
}

#[test]
fn robots_refusal_overrides_rules() {
    let l = Located { url: "https://example.com/a".to_string(), check_html_meta_robots: false };
    assert!(matches!(verdict_for(Some(l), false), Verdict::Skip));
    let l = Located { url: "https://example.com/a".to_string(), check_html_meta_robots: true };
    assert!(matches!(verdict_for(Some(l), true), Verdict::Include(l) if l.check_html_meta_robots));
    assert!(matches!(verdict_for(None, true), Verdict::Skip));
}

#[test]
fn html_check_flag_comes_from_rules() {
    let mut r = rule("", Some(true), None);
    r.check_html_meta_robots = Some(true);
    let s = scanner("https://example.com/", vec![r], None);
    assert!(matches!(s.classify("a.html"), Ok(Verdict::Include(l)) if l.check_html_meta_robots));
}

#[test]
fn entries_come_out_sorted() {
    let mut s = scanner("https://example.com/", vec![rule("", Some(true), None)], None);
    s.record(entry("https://example.com/index.html", Some(42))).unwrap_or_else(|_| panic!());
    s.record(entry("https://example.com/foo/bar.html", Some(101))).unwrap_or_else(|_| panic!());
    s.record(entry("https://example.com/b", None)).unwrap_or_else(|_| panic!());
    assert_eq!(s.len(), 3);
    let out = s.finish();
    let urls: Vec<&str> = out.iter().map(|e| e.url.as_str()).collect();
    assert_eq!(urls, vec!["https://example.com/b", "https://example.com/foo/bar.html", "https://example.com/index.html"]);
    assert_eq!(out[1].last_modified, Some(101));
    assert_eq!(out[2].last_modified, Some(42));
    assert_eq!(out[0].last_modified, None);
}

#[test]
fn two_files_scenario() {
    let mut s = scanner("https://example.com/", vec![rule("", Some(true), None)], None);
    for (path, t) in [("index.html", 42), ("foo/bar.html", 101)] {
        let url = url_of(s.classify(path)).unwrap();
        s.record(entry(&url, Some(t))).unwrap_or_else(|_| panic!());
    }
    let out = s.finish();
    assert_eq!(out.len(), 2);
    assert_eq!(out[0].url, "https://example.com/foo/bar.html");
    assert_eq!(out[0].last_modified, Some(101));
    assert_eq!(out[1].url, "https://example.com/index.html");
    assert_eq!(out[1].last_modified, Some(42));
}

#[test]
fn fifty_thousand_urls_fit_and_one_more_aborts() {
    let mut s = scanner("https://example.com/", vec![rule("", Some(true), None)], None);
    for i in 0..MAX_SITEMAP_URLS {
        assert!(s.record(entry(&format!("https://example.com/{i}"), None)).is_ok());
    }
    assert_eq!(MAX_SITEMAP_URLS, 50_000);
    assert!(matches!(s.record(entry("https://example.com/last", None)), Err(ScanError::TooManyUrls)));
    assert_eq!(s.len(), 50_000);
}

#[test]
fn sitemap_size_limit() {
    assert_eq!(MAX_SITEMAP_BYTES, 50_428_800);
    assert!(check_sitemap_size(0).is_ok());
    assert!(check_sitemap_size(50_428_800).is_ok());
    assert!(matches!(check_sitemap_size(50_428_801), Err(ScanError::TooLarge { size: 50_428_801 })));
}

#[test]
fn root_url_getter_gives_normalized_url() {
    let s = scanner("https://example.com", vec![rule("", Some(true), None)], None);
    assert_eq!(s.root_url(), "https://example.com/");
}

#[test]
fn offer_skips_noindex_only_when_checked() {
    let mut s = scanner("https://example.com/", vec![rule("", Some(true), None)], None);
    let checked = |url: &str| Located { url: url.to_string(), check_html_meta_robots: true };
    let unchecked = |url: &str| Located { url: url.to_string(), check_html_meta_robots: false };
    assert!(matches!(s.offer(checked("https://example.com/a"), Some(HtmlMeta { no_index: true }), None), Ok(false)));
    assert_eq!(s.len(), 0);
    assert!(matches!(s.offer(checked("https://example.com/b"), Some(HtmlMeta { no_index: false }), Some(7)), Ok(true)));
    assert!(matches!(
        s.offer(unchecked("https://example.com/c"), Some(HtmlMeta { no_index: true }), None),
        Ok(true)
    ));
    assert!(matches!(s.offer(unchecked("https://example.com/d"), None, None), Ok(true)));
    let out = s.finish();
    let urls: Vec<&str> = out.iter().map(|e| e.url.as_str()).collect();
    assert_eq!(urls, vec!["https://example.com/b", "https://example.com/c", "https://example.com/d"]);
    assert_eq!(out[0].last_modified, Some(7));
}

#[test]
fn robots_file_without_rules_for_path_allows_it() {
    let s = scanner("https://example.com/", vec![rule("", Some(true), None)], Some("User-agent: other\nDisallow: /\n"));
    assert!(s.robots_allow("a.html"));
    let s = scanner("https://example.com/", vec![rule("", Some(true), None)], Some("User-agent: *\nDisallow: /\n"));
    assert!(!s.robots_allow("a.html"));
}
