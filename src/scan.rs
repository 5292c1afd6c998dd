//! The per-file decisions of a scan, the limits of the sitemap protocol, and
//! the order of the finished entries.
//!
//! The caller walks the directory tree; for each regular file it asks
//! [`Scanner::classify`] what to do with its URL-path, reads the file when an
//! HTML check is asked for, and hands the entry to [`Scanner::record`].
use vstd::prelude::*;
use crate::config::{Config, Rule};
use crate::html_meta::HtmlMeta;
use crate::rules::{decision, regex_matches, rules_compile, single_including_rule_keeps_path, AppliedRules, Rules, RulesError};
use crate::text::{concat, starts_with};

verus! {

/// The most URLs one sitemap may hold.
pub const MAX_SITEMAP_URLS: usize = 50_000;

/// The most bytes one serialized sitemap may take.
pub const MAX_SITEMAP_BYTES: usize = 50_428_800;

/// The serialization of `s` parsed as an absolute URL, if it parses.
pub uninterp spec fn url_serialization(s: Seq<char>) -> Option<Seq<char>>;

/// Whether `s` parses as a URL that relative references resolve against.
pub uninterp spec fn url_is_base(s: Seq<char>) -> bool;

/// The serialization of the reference `rel` resolved against the URL `base`,
/// if both parse.
pub uninterp spec fn url_joined(base: Seq<char>, rel: Seq<char>) -> Option<Seq<char>>;

pub open spec fn opt_view(o: Option<String>) -> Option<Seq<char>> {
    match o {
        Some(s) => Some(s@),
        None => None,
    }
}

/// Relies on url::Url::parse: the serialization of the parsed URL.
#[verifier::external_body]
fn parse_url(s: &str) -> (r: Option<String>)
    ensures
        opt_view(r) == url_serialization(s@),
{
    match url::Url::parse(s) {
        Ok(u) => Some(u.into()),
        Err(_) => None,
    }
}

/// Relies on url::Url::parse and url::Url::cannot_be_a_base.
#[verifier::external_body]
fn is_base_url(s: &str) -> (r: bool)
    ensures
        r == url_is_base(s@),
{
    match url::Url::parse(s) {
        Ok(u) => !u.cannot_be_a_base(),
        Err(_) => false,
    }
}

/// Relies on url::Url::parse and url::Url::join: resolves `rel` against `base`.
#[verifier::external_body]
fn join_url(base: &str, rel: &str) -> (r: Option<String>)
    ensures
        opt_view(r) == url_joined(base@, rel@),
{
    match url::Url::parse(base) {
        Ok(b) => match b.join(rel) {
            Ok(u) => Some(u.into()),
            Err(_) => None,
        },
        Err(_) => None,
    }
}

/// Whether `txt` parses as a robots file for the user agent `agent`.
pub uninterp spec fn robots_parses(agent: Seq<char>, txt: Seq<u8>) -> bool;

/// Whether the robots file `txt`, read for the user agent `agent`, allows
/// the URL-path `path`.
pub uninterp spec fn robots_verdict(agent: Seq<char>, txt: Seq<u8>, path: Seq<char>) -> bool;

/// Relies on texting_robots::Robot::new: whether the file parses.
#[verifier::external_body]
fn robots_valid(agent: &str, txt: &[u8]) -> (r: bool)
    ensures
        r == robots_parses(agent@, txt@),
{
    texting_robots::Robot::new(agent, txt).is_ok()
}

/// Relies on texting_robots::Robot::new and texting_robots::Robot::allowed:
/// the verdict of the parsed file on `path`.
#[verifier::external_body]
fn robots_allowed(agent: &str, txt: &[u8], path: &str) -> (r: bool)
    requires
        robots_parses(agent@, txt@),
    ensures
        r == robots_verdict(agent@, txt@, path@),
{
    match texting_robots::Robot::new(agent, txt) {
        Ok(robot) => robot.allowed(path),
        Err(_) => true,
    }
}

/// The user agent whose rules of the robots file apply.
pub open spec fn robots_agent() -> Seq<char> {
    "*"@
}

/// Whether the robots file, if any, lets the URL-path `rel` (without its
/// leading slash) into the sitemap; it is asked about `/` followed by `rel`.
pub open spec fn robots_admit(robots: Option<Seq<u8>>, rel: Seq<char>) -> bool {
    match robots {
        None => true,
        Some(t) => robots_verdict(robots_agent(), t, "/"@ + rel),
    }
}

/// Lexicographic order of strings, character by character.
pub open spec fn text_le(a: Seq<char>, b: Seq<char>) -> bool
    decreases a.len(),
{
    if a.len() == 0 {
        true
    } else if b.len() == 0 {
        false
    } else if a[0] != b[0] {
        (a[0] as u32) < (b[0] as u32)
    } else {
        text_le(a.drop_first(), b.drop_first())
    }
}

/// The entries are in ascending order of URL.
pub open spec fn sorted_by_url(v: Seq<SitemapEntry>) -> bool {
    forall|i: int, j: int| 0 <= i < j < v.len() ==> text_le(#[trigger] v[i].url@, #[trigger] v[j].url@)
}

/// Relies on slice::sort_by with `str::cmp`, which orders strings
/// lexicographically by their UTF-8 bytes, the order of their characters.
#[verifier::external_body]
fn sort_by_url(v: &mut Vec<SitemapEntry>)
    ensures
        final(v)@.to_multiset() == old(v)@.to_multiset(),
        sorted_by_url(final(v)@),
{
    v.sort_by(|a, b| a.url.cmp(&b.url))
}

/// One entry of the sitemap.
pub struct SitemapEntry {
    /// The absolute URL; it starts with the configured root URL.
    pub url: String,
    /// Seconds since the Unix epoch, if the modification time is known.
    pub last_modified: Option<i64>,
}

/// A fatal error of a scan; no sitemap is written after one.
pub enum ScanError {
    /// The configured root URL does not parse.
    InvalidRootUrl,
    /// The configured root URL cannot serve as a base URL.
    UnusableRootUrl,
    /// The robots file does not parse.
    InvalidRobots,
    /// A rule's pattern does not compile.
    InvalidPattern,
    /// Rewriting `path` yielded `rewritten`, which is not a valid relative URL.
    InvalidRewrite { path: String, rewritten: String },
    /// Rewriting `path` yielded `url`, which is outside the root URL.
    OutsideRoot { path: String, url: String },
    /// More than the allowed number of files are to be listed.
    TooManyUrls,
    /// The serialized sitemap is `size` bytes, more than allowed.
    TooLarge { size: usize },
}

/// Where a file goes in the sitemap.
pub struct Located {
    pub url: String,
    /// Whether to check the file for `<meta name=robots content=noindex>`.
    pub check_html_meta_robots: bool,
}

/// What to do with one file.
pub enum Verdict {
    Skip,
    Include(Located),
}

/// What the rules and the root URL make of one URL-path.
pub enum Placement {
    Excluded,
    BadRewrite { rewritten: Seq<char> },
    Outside { url: Seq<char> },
    At { url: Seq<char>, check_html: bool },
}

/// Whether `prefix` begins `s`.
pub open spec fn has_prefix(s: Seq<char>, prefix: Seq<char>) -> bool {
    prefix.len() <= s.len() && s.subrange(0, prefix.len() as int) == prefix
}

/// What the rules and the root URL make of the URL-path `rel`.
pub open spec fn placement(rules: Seq<Rule>, root: Seq<char>, rel: Seq<char>) -> Placement {
    match decision(rules, rel) {
        None => Placement::Excluded,
        Some(d) => match url_joined(root, d.path) {
            None => Placement::BadRewrite { rewritten: d.path },
            Some(u) => if has_prefix(u, root) {
                Placement::At { url: u, check_html: d.check_html_meta_robots }
            } else {
                Placement::Outside { url: u }
            },
        },
    }
}

/// The result of [`Scanner::locate`] for the URL-path `rel` corresponds to `p`.
pub open spec fn located_as(r: Result<Option<Located>, ScanError>, rel: Seq<char>, p: Placement) -> bool {
    match p {
        Placement::Excluded => r matches Ok(None),
        Placement::BadRewrite { rewritten } => r matches Err(ScanError::InvalidRewrite { path, rewritten: w })
            && path@ == rel && w@ == rewritten,
        Placement::Outside { url } => r matches Err(ScanError::OutsideRoot { path, url: u }) && path@ == rel
            && u@ == url,
        Placement::At { url, check_html } => r matches Ok(Some(l)) && l.url@ == url
            && l.check_html_meta_robots == check_html,
    }
}

/// The result of [`Scanner::classify`] for the URL-path `rel` corresponds to
/// `p`, under the robots file `robots`.
pub open spec fn classified_as(
    r: Result<Verdict, ScanError>,
    rel: Seq<char>,
    p: Placement,
    robots: Option<Seq<u8>>,
) -> bool {
    match p {
        Placement::Excluded => r matches Ok(Verdict::Skip),
        Placement::BadRewrite { rewritten } => r matches Err(ScanError::InvalidRewrite { path, rewritten: w })
            && path@ == rel && w@ == rewritten,
        Placement::Outside { url } => r matches Err(ScanError::OutsideRoot { path, url: u }) && path@ == rel
            && u@ == url,
        Placement::At { url, check_html } => if robots_admit(robots, rel) {
            r matches Ok(Verdict::Include(l)) && l.url@ == url && l.check_html_meta_robots == check_html
        } else {
            r matches Ok(Verdict::Skip)
        },
    }
}

/// Whether the file at `located` goes into the sitemap once its HTML was
/// checked, if the rules asked for it: a `noindex` meta leaves it out.
pub open spec fn kept_after_html(located: Located, html: Option<HtmlMeta>) -> bool {
    !(located.check_html_meta_robots && html is Some && html->Some_0.no_index)
}

/// The verdict on a located file: robots refusal skips it, whatever the
/// rules said.
pub fn verdict_for(located: Option<Located>, robots_allowed: bool) -> (r: Verdict)
    ensures
        located is None ==> r is Skip,
        !robots_allowed ==> r is Skip,
        robots_allowed && located is Some ==> r == Verdict::Include(located->Some_0),
{
    match located {
        Some(l) => if robots_allowed {
            Verdict::Include(l)
        } else {
            Verdict::Skip
        },
        None => Verdict::Skip,
    }
}

/// Fails when a serialized sitemap of `size` bytes is over the protocol's limit.
pub fn check_sitemap_size(size: usize) -> (r: Result<(), ScanError>)
    ensures
        r is Ok <==> size <= MAX_SITEMAP_BYTES,
        r matches Err(e) ==> e == (ScanError::TooLarge { size }),
{
    if size <= MAX_SITEMAP_BYTES {
        Ok(())
    } else {
        Err(ScanError::TooLarge { size })
    }
}

/// The state of one scan: the compiled rules, the root URL, the robots
/// file, and the entries recorded so far.
pub struct Scanner {
    rules: Rules,
    root_url: String,
    robots_txt: Option<Vec<u8>>,
    urls: Vec<SitemapEntry>,
}

impl Scanner {
    pub closed spec fn spec_rules(&self) -> Seq<Rule> {
        self.rules.spec_rules()
    }

    /// The root URL, as the URL parser serializes it.
    pub closed spec fn spec_root_url(&self) -> Seq<char> {
        self.root_url@
    }

    /// The robots file in force, if any.
    pub closed spec fn spec_robots_txt(&self) -> Option<Seq<u8>> {
        match self.robots_txt {
            Some(t) => Some(t@),
            None => None,
        }
    }

    /// Whether a robots file is in force.
    pub open spec fn has_robots(&self) -> bool {
        self.spec_robots_txt() is Some
    }

    /// The entries recorded so far, in the order they came.
    pub closed spec fn spec_urls(&self) -> Seq<SitemapEntry> {
        self.urls@
    }

    /// The compiled rules, a parsed robots file, at most the allowed number
    /// of entries, each of them under the root URL.
    pub closed spec fn wf(&self) -> bool {
        &&& self.rules.wf()
        &&& self.urls@.len() <= MAX_SITEMAP_URLS
        &&& self.robots_txt matches Some(t) ==> robots_parses(robots_agent(), t@)
        &&& forall|i: int| 0 <= i < self.urls@.len() ==> has_prefix(#[trigger] self.urls@[i].url@, self.root_url@)
    }

    /// Starts a scan: checks the root URL, parses the robots file if there is
    /// one, and compiles the rules.
    pub fn new(config: Config, robots_txt: Option<Vec<u8>>) -> (r: Result<Scanner, ScanError>)
        ensures
            url_serialization(config.root_url@) is None <==> r matches Err(ScanError::InvalidRootUrl),
            (url_serialization(config.root_url@) matches Some(u) && !url_is_base(u)) <==> r matches Err(
                ScanError::UnusableRootUrl,
            ),
            (url_serialization(config.root_url@) matches Some(u) && url_is_base(u) && robots_txt is Some
                && !robots_parses(robots_agent(), robots_txt->Some_0@)) <==> r matches Err(
                ScanError::InvalidRobots,
            ),
            r is Ok <==> (url_serialization(config.root_url@) matches Some(u) && url_is_base(u) && (
            robots_txt is Some ==> robots_parses(robots_agent(), robots_txt->Some_0@)) && rules_compile(
                config.rules@,
            )),
            r matches Err(e) ==> e is InvalidRootUrl || e is UnusableRootUrl || e is InvalidRobots
                || e is InvalidPattern,
            r matches Ok(s) ==> {
                &&& s.wf()
                &&& url_serialization(config.root_url@) == Some(s.spec_root_url())
                &&& s.spec_rules() == config.rules@
                &&& s.spec_robots_txt() == match robots_txt {
                    Some(t) => Some(t@),
                    None => None,
                }
                &&& s.spec_urls().len() == 0
            },
    {
        let root_url = match parse_url(config.root_url.as_str()) {
            Some(u) => u,
            None => return Err(ScanError::InvalidRootUrl),
        };
        if !is_base_url(root_url.as_str()) {
            return Err(ScanError::UnusableRootUrl);
        }
        match &robots_txt {
            Some(txt) => if !robots_valid("*", txt.as_slice()) {
                return Err(ScanError::InvalidRobots);
            },
            None => {},
        }
        let rules = match Rules::new(config.rules) {
            Ok(rules) => rules,
            Err(RulesError::InvalidPattern) => return Err(ScanError::InvalidPattern),
        };
        Ok(Scanner { rules, root_url, robots_txt, urls: Vec::new() })
    }

    /// The root URL, as the URL parser serializes it.
    pub fn root_url(&self) -> (r: &str)
        ensures
            r@ == self.spec_root_url(),
    {
        self.root_url.as_str()
    }

    /// Applies the rules to the URL-path `rel` (relative to the root
    /// directory, without a leading slash) and resolves the result against
    /// the root URL, which the URL must keep as its prefix.
    pub fn locate(&self, rel: &str) -> (r: Result<Option<Located>, ScanError>)
        requires
            self.wf(),
        ensures
            located_as(r, rel@, placement(self.spec_rules(), self.spec_root_url(), rel@)),
    {
        let applied: AppliedRules = match self.rules.apply(rel) {
            Some(a) => a,
            None => return Ok(None),
        };
        let web_url = match join_url(self.root_url.as_str(), applied.path.as_str()) {
            Some(u) => u,
            None => return Err(ScanError::InvalidRewrite { path: rel.to_owned(), rewritten: applied.path }),
        };
        if !starts_with(web_url.as_str(), self.root_url.as_str()) {
            return Err(ScanError::OutsideRoot { path: rel.to_owned(), url: web_url });
        }
        Ok(Some(Located { url: web_url, check_html_meta_robots: applied.check_html_meta_robots }))
    }

    /// Whether the robots file, if any, allows the URL-path `rel`; it is
    /// asked about `rel` with a leading slash.
    pub fn robots_allow(&self, rel: &str) -> (r: bool)
        requires
            self.wf(),
        ensures
            r == robots_admit(self.spec_robots_txt(), rel@),
    {
        match &self.robots_txt {
            Some(txt) => {
                let path = concat("/", rel);
                robots_allowed("*", txt.as_slice(), path.as_str())
            },
            None => true,
        }
    }

    /// Decides what to do with the file at the URL-path `rel`: the rules and
    /// the root URL place it, then the robots file may refuse it.
    pub fn classify(&self, rel: &str) -> (r: Result<Verdict, ScanError>)
        requires
            self.wf(),
        ensures
            classified_as(r, rel@, placement(self.spec_rules(), self.spec_root_url(), rel@), self.spec_robots_txt()),
            r matches Ok(Verdict::Include(l)) ==> has_prefix(l.url@, self.spec_root_url()),
    {
        match self.locate(rel) {
            Err(e) => Err(e),
            Ok(None) => Ok(Verdict::Skip),
            Ok(Some(l)) => {
                let allowed = self.robots_allow(rel);
                Ok(verdict_for(Some(l), allowed))
            },
        }
    }

    /// Adds an entry; fails when the sitemap already holds the most URLs
    /// the protocol allows.
    pub fn record(&mut self, entry: SitemapEntry) -> (r: Result<(), ScanError>)
        requires
            old(self).wf(),
            has_prefix(entry.url@, old(self).spec_root_url()),
        ensures
            final(self).wf(),
            final(self).spec_rules() == old(self).spec_rules(),
            final(self).spec_root_url() == old(self).spec_root_url(),
            final(self).spec_robots_txt() == old(self).spec_robots_txt(),
            r is Ok <==> old(self).spec_urls().len() < MAX_SITEMAP_URLS,
            r is Ok ==> final(self).spec_urls() == old(self).spec_urls().push(entry),
            r matches Err(e) ==> e is TooManyUrls && final(self).spec_urls() == old(self).spec_urls(),
    {
        if self.urls.len() >= MAX_SITEMAP_URLS {
            return Err(ScanError::TooManyUrls);
        }
        self.urls.push(entry);
        Ok(())
    }

    /// Records the file at `located` unless its HTML check, when the rules
    /// asked for one, found a `noindex` meta; `html` is that check's outcome.
    /// Returns whether the file was recorded.
    pub fn offer(&mut self, located: Located, html: Option<HtmlMeta>, last_modified: Option<i64>) -> (r: Result<
        bool,
        ScanError,
    >)
        requires
            old(self).wf(),
            has_prefix(located.url@, old(self).spec_root_url()),
        ensures
            final(self).wf(),
            final(self).spec_rules() == old(self).spec_rules(),
            final(self).spec_root_url() == old(self).spec_root_url(),
            final(self).spec_robots_txt() == old(self).spec_robots_txt(),
            !kept_after_html(located, html) ==> r == Ok::<bool, ScanError>(false) && final(self).spec_urls()
                == old(self).spec_urls(),
            kept_after_html(located, html) ==> (r is Ok <==> old(self).spec_urls().len() < MAX_SITEMAP_URLS),
            r == Ok::<bool, ScanError>(true) ==> final(self).spec_urls() == old(self).spec_urls().push(
                SitemapEntry { url: located.url, last_modified },
            ),
            r matches Err(e) ==> e is TooManyUrls && final(self).spec_urls() == old(self).spec_urls(),
    {
        if located.check_html_meta_robots {
            match html {
                Some(h) => if h.no_index {
                    return Ok(false);
                },
                None => {},
            }
        }
        match self.record(SitemapEntry { url: located.url, last_modified }) {
            Ok(()) => Ok(true),
            Err(e) => Err(e),
        }
    }

    /// How many entries are recorded.
    pub fn len(&self) -> (r: usize)
        ensures
            r == self.spec_urls().len(),
    {
        self.urls.len()
    }

    /// The recorded entries, in ascending order of URL, each under the root
    /// URL.
    pub fn finish(self) -> (r: Vec<SitemapEntry>)
        requires
            self.wf(),
        ensures
            r@.to_multiset() == self.spec_urls().to_multiset(),
            sorted_by_url(r@),
            forall|i: int| 0 <= i < r@.len() ==> has_prefix(#[trigger] r@[i].url@, self.spec_root_url()),
    {
        let ghost before = self.urls@;
        let ghost root = self.root_url@;
        let mut urls = self.urls;
        sort_by_url(&mut urls);
        proof {
            broadcast use vstd::seq_lib::group_to_multiset_ensures;

            assert forall|i: int| 0 <= i < urls@.len() implies has_prefix(#[trigger] urls@[i].url@, root) by {
                assert(urls@.to_multiset().count(urls@[i]) > 0);
                assert(before.to_multiset().count(urls@[i]) > 0);
                assert(before.contains(urls@[i]));
                let j = choose|j: int| 0 <= j < before.len() && before[j] == urls@[i];
                assert(has_prefix(before[j].url@, root));
            }
        }
        urls
    }
}

/// A rewrite whose URL leaves the root URL aborts the scan: no outcome that
/// meets the contract of `Scanner::classify` for it is a success.
pub proof fn escape_from_root_is_fatal(
    r: Result<Verdict, ScanError>,
    rules: Seq<Rule>,
    root: Seq<char>,
    rel: Seq<char>,
    robots: Option<Seq<u8>>,
)
    requires
        placement(rules, root, rel) is Outside,
        classified_as(r, rel, placement(rules, root, rel), robots),
    ensures
        r matches Err(ScanError::OutsideRoot { path, url }) && path@ == rel,
{
}

/// A robots file that refuses a path skips the file there, whatever the
/// rules decide: no outcome that meets the contract of `Scanner::classify`
/// includes it.
pub proof fn robots_refusal_skips(
    r: Result<Verdict, ScanError>,
    rules: Seq<Rule>,
    root: Seq<char>,
    rel: Seq<char>,
    txt: Seq<u8>,
)
    requires
        !robots_verdict(robots_agent(), txt, "/"@ + rel),
        classified_as(r, rel, placement(rules, root, rel), Some(txt)),
    ensures
        !(r matches Ok(Verdict::Include(_))),
{
}

/// Under a single rule that matches every path and includes it, with no
/// robots file, every file whose URL resolves inside the root URL is
/// included at that URL.
pub proof fn single_rule_includes_every_file(
    r: Result<Verdict, ScanError>,
    rule: Rule,
    root: Seq<char>,
    rel: Seq<char>,
)
    requires
        forall|p: Seq<char>| #[trigger] regex_matches(rule.pattern@, p),
        rule.in_sitemap == Some(true),
        rule.replace is None,
        url_joined(root, rel) matches Some(u) && has_prefix(u, root),
        classified_as(r, rel, placement(seq![rule], root, rel), None),
    ensures
        r matches Ok(Verdict::Include(l)) && Some(l.url@) == url_joined(root, rel),
{
    assert(regex_matches(rule.pattern@, rel));
    single_including_rule_keeps_path(rule, rel);
}

} // verus!
