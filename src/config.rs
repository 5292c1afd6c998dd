//! The resolved configuration that the library works from.
use vstd::prelude::*;

verus! {

/// One rule of the configuration.
///
/// `pattern` is a regular expression matched against the URL-path of a file,
/// relative to the root directory, without a leading slash and with `/` as
/// separator (for example `neighbors/you.html`).
pub struct Rule {
    pub pattern: String,
    /// Replacement template for the matches of `pattern` (may refer to groups).
    pub replace: Option<String>,
    /// How many matches `replace` rewrites, leftmost first; 0 means all.
    pub replace_limit: usize,
    /// Whether a matching file goes into the sitemap; unset leaves the earlier verdict.
    pub in_sitemap: Option<bool>,
    pub check_html_meta_robots: Option<bool>,
}

/// The configuration, with its paths already made absolute.
pub struct Config {
    pub root_dir: String,
    pub root_url: String,
    pub sitemap_path: Option<String>,
    pub rules: Vec<Rule>,
}

impl Rule {
    /// The replacement limit used when the configuration names none.
    pub fn default_replace_limit() -> (r: usize)
        ensures
            r == 0,
    {
        0
    }
}

} // verus!
