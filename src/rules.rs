//! The rule engine: which rules match a URL-path, and what they decide.
use vstd::prelude::*;
use crate::config::Rule;

verus! {

/// Whether `pattern` compiles on its own as a regular expression.
pub uninterp spec fn regex_valid(pattern: Seq<char>) -> bool;

/// Whether `patterns` compile together into one regex set.
pub uninterp spec fn regex_set_compiles(patterns: Seq<Seq<char>>) -> bool;

/// Whether the regular expression `pattern` matches somewhere in `text`.
pub uninterp spec fn regex_matches(pattern: Seq<char>, text: Seq<char>) -> bool;

/// The patterns a compiled regex set was built from, in order.
pub uninterp spec fn regex_set_patterns(set: regex::RegexSet) -> Seq<Seq<char>>;

/// The pattern a compiled regex was built from.
pub uninterp spec fn regex_source(re: regex::Regex) -> Seq<char>;

/// `text` with the first `limit` matches of `pattern` (all of them when
/// `limit` is 0) replaced by the expansion of the template `rep`.
pub uninterp spec fn regex_replacen(pattern: Seq<char>, text: Seq<char>, limit: nat, rep: Seq<char>) -> Seq<char>;

#[verifier::external_type_specification]
#[verifier::external_body]
pub struct ExRegexSet(regex::RegexSet);

#[verifier::external_type_specification]
#[verifier::external_body]
pub struct ExRegex(regex::Regex);

#[verifier::external_type_specification]
#[verifier::external_body]
pub struct ExRegexError(regex::Error);

/// The patterns of `rules`, in order.
pub open spec fn patterns_of(rules: Seq<Rule>) -> Seq<Seq<char>> {
    rules.map_values(|r: Rule| r.pattern@)
}

/// Whether a rule list compiles: all patterns as one set, and on its own the
/// pattern of each rule that rewrites.
pub open spec fn rules_compile(rules: Seq<Rule>) -> bool {
    &&& regex_set_compiles(patterns_of(rules))
    &&& forall|i: int| 0 <= i < rules.len() && (#[trigger] rules[i]).replace is Some ==> regex_valid(rules[i].pattern@)
}

/// Relies on regex::RegexSet::new: compiles the patterns, in their order, into
/// one set.
#[verifier::external_body]
fn compile_set(patterns: &Vec<String>) -> (r: Result<regex::RegexSet, regex::Error>)
    ensures
        r is Ok <==> regex_set_compiles(patterns@.map_values(|p: String| p@)),
        r is Ok ==> regex_set_patterns(r->Ok_0) == patterns@.map_values(|p: String| p@),
{
    regex::RegexSet::new(patterns)
}

/// Relies on regex::Regex::new: compiles one pattern.
#[verifier::external_body]
fn compile_regex(pattern: &str) -> (r: Option<regex::Regex>)
    ensures
        r is Some <==> regex_valid(pattern@),
        r matches Some(re) ==> regex_source(re) == pattern@,
{
    regex::Regex::new(pattern).ok()
}

/// Relies on regex::RegexSet::matches: the indices, ascending, of the
/// patterns of the set that match somewhere in `text`.
#[verifier::external_body]
fn set_matches(set: &regex::RegexSet, text: &str) -> (r: Vec<usize>)
    ensures
        forall|k: int| 0 <= k < r@.len() ==> #[trigger] r@[k] < regex_set_patterns(*set).len(),
        forall|i: int|
            0 <= i < regex_set_patterns(*set).len() ==> (regex_matches(#[trigger] regex_set_patterns(*set)[i], text@)
                <==> exists|k: int| 0 <= k < r@.len() && r@[k] == i),
{
    set.matches(text).into_iter().collect()
}

/// Relies on regex::Regex::replacen: rewrites the first `limit` matches (all
/// when 0) of the regex in `text` with the template `rep`.
#[verifier::external_body]
fn replace_matches(re: &regex::Regex, text: &str, limit: usize, rep: &str) -> (r: String)
    ensures
        r@ == regex_replacen(regex_source(*re), text@, limit as nat, rep@),
{
    re.replacen(text, limit, rep).into_owned()
}

/// Which rules of `rules` match `path`.
pub open spec fn matching(rules: Seq<Rule>, path: Seq<char>) -> Seq<bool> {
    Seq::new(rules.len(), |i: int| regex_matches(rules[i].pattern@, path))
}

/// The inclusion verdict after the first `n` rules: the last matching rule
/// that sets one wins, and `false` when none does.
pub open spec fn fold_in_sitemap(rules: Seq<Rule>, m: Seq<bool>, n: int) -> bool
    decreases n,
{
    if n <= 0 {
        false
    } else if m[n - 1] && rules[n - 1].in_sitemap is Some {
        rules[n - 1].in_sitemap->Some_0
    } else {
        fold_in_sitemap(rules, m, n - 1)
    }
}

/// The HTML meta robots flag after the first `n` rules: last matching rule
/// that sets it wins, and `false` when none does.
pub open spec fn fold_check_html(rules: Seq<Rule>, m: Seq<bool>, n: int) -> bool
    decreases n,
{
    if n <= 0 {
        false
    } else if m[n - 1] && rules[n - 1].check_html_meta_robots is Some {
        rules[n - 1].check_html_meta_robots->Some_0
    } else {
        fold_check_html(rules, m, n - 1)
    }
}

/// The index of the last matching rule among the first `n` that has a
/// replacement template.
pub open spec fn fold_replacer(rules: Seq<Rule>, m: Seq<bool>, n: int) -> Option<usize>
    decreases n,
{
    if n <= 0 {
        None
    } else if m[n - 1] && rules[n - 1].replace is Some {
        Some((n - 1) as usize)
    } else {
        fold_replacer(rules, m, n - 1)
    }
}

/// The URL-path that `path` becomes under the replacing rule, if any.
pub open spec fn rewritten(rules: Seq<Rule>, replacer: Option<usize>, path: Seq<char>) -> Seq<char> {
    match replacer {
        None => path,
        Some(k) => regex_replacen(
            rules[k as int].pattern@,
            path,
            rules[k as int].replace_limit as nat,
            rules[k as int].replace->Some_0@,
        ),
    }
}

/// What applying `rules` to `path` yields: `None` to leave the file out.
pub open spec fn decision(rules: Seq<Rule>, path: Seq<char>) -> Option<RuleDecision> {
    let m = matching(rules, path);
    let n = rules.len() as int;
    if !fold_in_sitemap(rules, m, n) {
        None
    } else {
        let replacer = fold_replacer(rules, m, n);
        Some(RuleDecision {
            replacing_rule: replacer,
            path: rewritten(rules, replacer, path),
            check_html_meta_robots: fold_check_html(rules, m, n),
        })
    }
}

/// The mathematical value of an executable decision.
pub open spec fn decision_view(r: Option<AppliedRules>) -> Option<RuleDecision> {
    match r {
        Some(a) => Some(a@),
        None => None,
    }
}

/// What the rules decide for one included file, as a mathematical value.
pub struct RuleDecision {
    /// The index of the rule whose `replace` was applied, if any.
    pub replacing_rule: Option<usize>,
    /// The URL-path for the sitemap entry, after replacement.
    pub path: Seq<char>,
    /// Whether to parse the file as HTML and look for `<meta name=robots>`.
    pub check_html_meta_robots: bool,
}

/// What the rules decide for one included file.
pub struct AppliedRules {
    /// The index of the rule whose `replace` was applied, if any.
    pub replacing_rule: Option<usize>,
    /// The URL-path for the sitemap entry, after replacement.
    pub path: String,
    /// Whether to parse the file as HTML and look for `<meta name=robots>`.
    pub check_html_meta_robots: bool,
}

impl View for AppliedRules {
    type V = RuleDecision;

    open spec fn view(&self) -> RuleDecision {
        RuleDecision {
            replacing_rule: self.replacing_rule,
            path: self.path@,
            check_html_meta_robots: self.check_html_meta_robots,
        }
    }
}

/// An ordered list of rules with their patterns compiled into one set, and
/// the pattern of each rule that rewrites compiled on its own.
pub struct Rules {
    rules: Vec<Rule>,
    regex_set: regex::RegexSet,
    replacers: Vec<Option<regex::Regex>>,
}

/// Why a rule list could not be compiled.
pub enum RulesError {
    InvalidPattern,
}

impl Rules {
    /// The rules, in their order.
    pub closed spec fn spec_rules(&self) -> Seq<Rule> {
        self.rules@
    }

    pub closed spec fn wf(&self) -> bool {
        &&& regex_set_patterns(self.regex_set) == patterns_of(self.rules@)
        &&& self.replacers@.len() == self.rules@.len()
        &&& self.rules@.len() <= usize::MAX
        &&& forall|i: int|
            0 <= i < self.rules@.len() && (#[trigger] self.rules@[i]).replace is Some ==> (
            self.replacers@[i] matches Some(re) && regex_source(re) == self.rules@[i].pattern@)
    }

    /// A rule list never has more rules than `usize` counts.
    pub proof fn lemma_len_bound(&self)
        requires
            self.wf(),
        ensures
            self.spec_rules().len() <= usize::MAX,
    {
    }

    /// Compiles the patterns of `rules`; fails exactly when the regex crate
    /// refuses them.
    pub fn new(rules: Vec<Rule>) -> (r: Result<Rules, RulesError>)
        ensures
            r is Ok <==> rules_compile(rules@),
            r is Ok ==> r->Ok_0.wf() && r->Ok_0.spec_rules() == rules@,
    {
        let mut patterns: Vec<String> = Vec::new();
        let mut replacers: Vec<Option<regex::Regex>> = Vec::new();
        let mut i: usize = 0;
        while i < rules.len()
            invariant
                i <= rules@.len(),
                patterns@.len() == i,
                replacers@.len() == i,
                forall|j: int| 0 <= j < i ==> #[trigger] patterns@[j]@ == rules@[j].pattern@,
                forall|j: int|
                    0 <= j < i && (#[trigger] rules@[j]).replace is Some ==> (replacers@[j] matches Some(re)
                        && regex_source(re) == rules@[j].pattern@ && regex_valid(rules@[j].pattern@)),
            decreases rules@.len() - i,
        {
            let rule = &rules[i];
            if rule.replace.is_some() {
                match compile_regex(rule.pattern.as_str()) {
                    Some(re) => replacers.push(Some(re)),
                    None => {
                        proof {
                            assert(!rules_compile(rules@));
                        }
                        return Err(RulesError::InvalidPattern);
                    },
                }
            } else {
                replacers.push(None);
            }
            patterns.push(rule.pattern.clone());
            i = i + 1;
        }
        assert(patterns@.map_values(|p: String| p@) =~= patterns_of(rules@));
        match compile_set(&patterns) {
            Ok(regex_set) => Ok(Rules { rules, regex_set, replacers }),
            Err(_) => Err(RulesError::InvalidPattern),
        }
    }

    /// Determines what happens to the file at the URL-path `path`: `None` to
    /// leave it out of the sitemap, `Some` to include it.
    pub fn apply(&self, path: &str) -> (r: Option<AppliedRules>)
        requires
            self.wf(),
        ensures
            decision_view(r) == decision(self.spec_rules(), path@),
    {
        let n = self.rules.len();
        let hits = set_matches(&self.regex_set, path);
        let ghost m = matching(self.rules@, path@);
        let ghost pats = regex_set_patterns(self.regex_set);
        assert(pats.len() == n);

        // Turn the ascending indices into one flag per rule.
        let mut matched: Vec<bool> = Vec::new();
        let mut i: usize = 0;
        while i < n
            invariant
                i <= n,
                n == self.rules@.len(),
                matched@.len() == i,
                forall|j: int| 0 <= j < i ==> #[trigger] matched@[j] == false,
            decreases n - i,
        {
            matched.push(false);
            i = i + 1;
        }
        let mut k: usize = 0;
        while k < hits.len()
            invariant
                k <= hits@.len(),
                matched@.len() == n,
                pats.len() == n,
                forall|j: int| 0 <= j < hits@.len() ==> #[trigger] hits@[j] < pats.len(),
                forall|j: int|
                    0 <= j < n ==> (#[trigger] matched@[j] <==> exists|q: int| 0 <= q < k && hits@[q] == j),
            decreases hits@.len() - k,
        {
            let h = hits[k];
            matched.set(h, true);
            assert forall|j: int| 0 <= j < n implies (#[trigger] matched@[j] <==> exists|q: int|
                0 <= q < k + 1 && hits@[q] == j) by {
                if j == h {
                    assert(hits@[k as int] == j);
                }
            }
            k = k + 1;
        }
        assert forall|j: int| 0 <= j < n implies #[trigger] matched@[j] == m[j] by {
            assert(pats[j] == self.rules@[j].pattern@);
            assert(regex_matches(pats[j], path@) == m[j]);
        }
        assert(matched@ =~= m);

        // Fold over the matching rules, in declaration order.
        let mut in_sitemap = false;
        let mut check_html = false;
        let mut replacer: Option<usize> = None;
        let mut i: usize = 0;
        while i < n
            invariant
                i <= n,
                n == self.rules@.len(),
                matched@ == m,
                m.len() == n,
                in_sitemap == fold_in_sitemap(self.rules@, m, i as int),
                check_html == fold_check_html(self.rules@, m, i as int),
                replacer == fold_replacer(self.rules@, m, i as int),
            decreases n - i,
        {
            if matched[i] {
                let rule = &self.rules[i];
                match rule.in_sitemap {
                    Some(b) => in_sitemap = b,
                    None => {},
                }
                match rule.check_html_meta_robots {
                    Some(b) => check_html = b,
                    None => {},
                }
                if rule.replace.is_some() {
                    replacer = Some(i);
                }
            }
            i = i + 1;
        }
        if !in_sitemap {
            return None;
        }
        proof {
            lemma_replacer_has_replace(self.rules@, m, n as int);
        }
        let new_path = match replacer {
            None => path.to_owned(),
            Some(k) => {
                let rule = &self.rules[k];
                match (&rule.replace, &self.replacers[k]) {
                    (Some(rep), Some(re)) => replace_matches(re, path, rule.replace_limit, rep.as_str()),
                    _ => path.to_owned(),
                }
            },
        };
        Some(AppliedRules { replacing_rule: replacer, path: new_path, check_html_meta_robots: check_html })
    }
}

/// The replacing rule found by the fold has a template and is in range.
proof fn lemma_replacer_has_replace(rules: Seq<Rule>, m: Seq<bool>, n: int)
    requires
        0 <= n <= rules.len() <= usize::MAX,
        m.len() == rules.len(),
    ensures
        fold_replacer(rules, m, n) matches Some(k) ==> k < n && m[k as int] && rules[k as int].replace is Some,
    decreases n,
{
    if n > 0 {
        lemma_replacer_has_replace(rules, m, n - 1);
    }
}


/// Applying rules is a function of the rule list and the path alone: two
/// outcomes that both meet the contract of `Rules::apply` for the same rules
/// and path are the same.
pub proof fn apply_is_deterministic(rules: Rules, path: Seq<char>, a: Option<AppliedRules>, b: Option<AppliedRules>)
    requires
        decision_view(a) == decision(rules.spec_rules(), path),
        decision_view(b) == decision(rules.spec_rules(), path),
    ensures
        decision_view(a) == decision_view(b),
{
}

/// When no pattern matches the path, the file is left out.
pub proof fn no_match_excludes(rules: Seq<Rule>, path: Seq<char>)
    requires
        forall|i: int| 0 <= i < rules.len() ==> !regex_matches(#[trigger] rules[i].pattern@, path),
    ensures
        decision(rules, path) is None,
{
    let m = matching(rules, path);
    lemma_nothing_matched_in_sitemap(rules, m, rules.len() as int);
}

proof fn lemma_nothing_matched_in_sitemap(rules: Seq<Rule>, m: Seq<bool>, n: int)
    requires
        0 <= n <= m.len(),
        forall|i: int| 0 <= i < n ==> !#[trigger] m[i],
    ensures
        !fold_in_sitemap(rules, m, n),
    decreases n,
{
    if n > 0 {
        lemma_nothing_matched_in_sitemap(rules, m, n - 1);
    }
}

proof fn lemma_in_sitemap_from(rules: Seq<Rule>, m: Seq<bool>, k: int, n: int)
    requires
        0 <= k < n <= m.len(),
        m[k],
        rules[k].in_sitemap is Some,
        forall|j: int| k < j < n && #[trigger] m[j] ==> rules[j].in_sitemap is None,
    ensures
        fold_in_sitemap(rules, m, n) == rules[k].in_sitemap->Some_0,
    decreases n,
{
    if n > k + 1 {
        lemma_in_sitemap_from(rules, m, k, n - 1);
    }
}

proof fn lemma_check_html_from(rules: Seq<Rule>, m: Seq<bool>, k: int, n: int)
    requires
        0 <= k < n <= m.len(),
        m[k],
        rules[k].check_html_meta_robots is Some,
        forall|j: int| k < j < n && #[trigger] m[j] ==> rules[j].check_html_meta_robots is None,
    ensures
        fold_check_html(rules, m, n) == rules[k].check_html_meta_robots->Some_0,
    decreases n,
{
    if n > k + 1 {
        lemma_check_html_from(rules, m, k, n - 1);
    }
}

proof fn lemma_replacer_from(rules: Seq<Rule>, m: Seq<bool>, k: int, n: int)
    requires
        0 <= k < n <= m.len() <= usize::MAX,
        m[k],
        rules[k].replace is Some,
        forall|j: int| k < j < n && #[trigger] m[j] ==> rules[j].replace is None,
    ensures
        fold_replacer(rules, m, n) == Some(k as usize),
    decreases n,
{
    if n > k + 1 {
        lemma_replacer_from(rules, m, k, n - 1);
    }
}

/// Inclusion follows the last matching rule that sets it: when rule `k`
/// matches and sets it, and no later matching rule does, the file is in the
/// sitemap exactly when rule `k` says so.
pub proof fn last_match_sets_in_sitemap(rules: Seq<Rule>, path: Seq<char>, k: int)
    requires
        0 <= k < rules.len(),
        regex_matches(rules[k].pattern@, path),
        rules[k].in_sitemap is Some,
        forall|j: int|
            k < j < rules.len() && regex_matches(#[trigger] rules[j].pattern@, path)
                ==> rules[j].in_sitemap is None,
    ensures
        decision(rules, path) is Some <==> rules[k].in_sitemap->Some_0,
{
    let m = matching(rules, path);
    assert forall|j: int| k < j < rules.len() && #[trigger] m[j] implies rules[j].in_sitemap is None by {
        assert(regex_matches(rules[j].pattern@, path));
    }
    lemma_in_sitemap_from(rules, m, k, rules.len() as int);
}

/// The HTML meta robots flag follows the last matching rule that sets it.
pub proof fn last_match_sets_check_html(rules: Seq<Rule>, path: Seq<char>, k: int)
    requires
        0 <= k < rules.len(),
        regex_matches(rules[k].pattern@, path),
        rules[k].check_html_meta_robots is Some,
        forall|j: int|
            k < j < rules.len() && regex_matches(#[trigger] rules[j].pattern@, path)
                ==> rules[j].check_html_meta_robots is None,
    ensures
        decision(rules, path) matches Some(d) ==> d.check_html_meta_robots
            == rules[k].check_html_meta_robots->Some_0,
{
    let m = matching(rules, path);
    assert forall|j: int| k < j < rules.len() && #[trigger] m[j] implies rules[j].check_html_meta_robots is None by {
        assert(regex_matches(rules[j].pattern@, path));
    }
    lemma_check_html_from(rules, m, k, rules.len() as int);
}

/// The rewrite follows the last matching rule with a template: its pattern,
/// template and limit are applied together, and earlier templates not at all.
pub proof fn last_match_sets_replace(rules: Seq<Rule>, path: Seq<char>, k: int)
    requires
        0 <= k < rules.len() <= usize::MAX,
        regex_matches(rules[k].pattern@, path),
        rules[k].replace is Some,
        forall|j: int|
            k < j < rules.len() && regex_matches(#[trigger] rules[j].pattern@, path)
                ==> rules[j].replace is None,
    ensures
        decision(rules, path) matches Some(d) ==> d.replacing_rule == Some(k as usize) && d.path
            == regex_replacen(
            rules[k].pattern@,
            path,
            rules[k].replace_limit as nat,
            rules[k].replace->Some_0@,
        ),
{
    let m = matching(rules, path);
    assert forall|j: int| k < j < rules.len() && #[trigger] m[j] implies rules[j].replace is None by {
        assert(regex_matches(rules[j].pattern@, path));
    }
    lemma_replacer_from(rules, m, k, rules.len() as int);
}

/// A single rule that matches the path, includes it and sets no template
/// keeps the path as it is, with the rule's HTML check (off when unset).
pub proof fn single_including_rule_keeps_path(rule: Rule, path: Seq<char>)
    requires
        regex_matches(rule.pattern@, path),
        rule.in_sitemap == Some(true),
        rule.replace is None,
    ensures
        decision(seq![rule], path) == Some(
            RuleDecision {
                replacing_rule: None,
                path,
                check_html_meta_robots: rule.check_html_meta_robots == Some(true),
            },
        ),
{
    let rules = seq![rule];
    let m = matching(rules, path);
    assert(m[0]);
    assert(fold_in_sitemap(rules, m, 0) == false);
    assert(fold_replacer(rules, m, 0) is None);
    assert(fold_check_html(rules, m, 0) == false);
}

proof fn lemma_folds_on_prefix(rules: Seq<Rule>, m: Seq<bool>, rules2: Seq<Rule>, m2: Seq<bool>, n: int)
    requires
        0 <= n <= rules.len() <= rules2.len(),
        m.len() == rules.len(),
        m2.len() == rules2.len(),
        forall|i: int| 0 <= i < n ==> #[trigger] rules2[i] == rules[i] && m2[i] == m[i],
    ensures
        fold_in_sitemap(rules2, m2, n) == fold_in_sitemap(rules, m, n),
        fold_check_html(rules2, m2, n) == fold_check_html(rules, m, n),
        fold_replacer(rules2, m2, n) == fold_replacer(rules, m, n),
    decreases n,
{
    if n > 0 {
        assert(rules2[n - 1] == rules[n - 1]);
        lemma_folds_on_prefix(rules, m, rules2, m2, n - 1);
    }
}

/// A rule that sets none of its fields changes nothing, wherever it matches:
/// appending it to a rule list leaves every decision as it was.
pub proof fn unset_rule_changes_nothing(rules: Seq<Rule>, extra: Rule, path: Seq<char>)
    requires
        rules.len() < usize::MAX,
        extra.in_sitemap is None,
        extra.replace is None,
        extra.check_html_meta_robots is None,
    ensures
        decision(rules.push(extra), path) == decision(rules, path),
{
    let rules2 = rules.push(extra);
    let n = rules.len() as int;
    let m = matching(rules, path);
    let m2 = matching(rules2, path);
    assert forall|i: int| 0 <= i < n implies #[trigger] rules2[i] == rules[i] && m2[i] == m[i] by {
        assert(rules2[i] == rules[i]);
    }
    lemma_folds_on_prefix(rules, m, rules2, m2, n);
    assert(rules2[n] == extra);
    assert(fold_in_sitemap(rules2, m2, n + 1) == fold_in_sitemap(rules2, m2, n));
    assert(fold_check_html(rules2, m2, n + 1) == fold_check_html(rules2, m2, n));
    assert(fold_replacer(rules2, m2, n + 1) == fold_replacer(rules2, m2, n));
    lemma_replacer_has_replace(rules, m, n);
    let replacer = fold_replacer(rules, m, n);
    if let Some(k) = replacer {
        assert(rules2[k as int] == rules[k as int]);
    }
    assert(rewritten(rules2, replacer, path) == rewritten(rules, replacer, path));
}

} // verus!
