//! The command line's settings, and where the sitemap goes.
use vstd::prelude::*;
use crate::config::Config;

verus! {

/// Where to write the sitemap.
pub enum OutputTo {
    Stdout,
    File(String),
}

/// The command line: where to write, whether to explain exclusions, and the
/// configuration file.
pub struct Cmd {
    /// `Some` when the command line names an output, overriding the
    /// configuration's `sitemap_path`.
    pub output: Option<OutputTo>,
    pub verbose: bool,
    pub config_file: String,
}

/// `a` and `b` name the same place.
pub open spec fn same_target(a: OutputTo, b: OutputTo) -> bool {
    match (a, b) {
        (OutputTo::Stdout, OutputTo::Stdout) => true,
        (OutputTo::File(x), OutputTo::File(y)) => x@ == y@,
        _ => false,
    }
}

/// `o` names the file at `path`.
pub open spec fn names_file(o: OutputTo, path: Seq<char>) -> bool {
    match o {
        OutputTo::File(p) => p@ == path,
        OutputTo::Stdout => false,
    }
}

impl OutputTo {
    /// `-` names standard output; anything else a file path.
    pub fn parse(s: &str) -> (r: OutputTo)
        ensures
            s@ == "-"@ ==> r is Stdout,
            s@ != "-"@ ==> names_file(r, s@),
    {
        if crate::text::str_eq(s, "-") {
            OutputTo::Stdout
        } else {
            OutputTo::File(s.to_owned())
        }
    }
}

impl std::str::FromStr for OutputTo {
    type Err = std::convert::Infallible;

    fn from_str(s: &str) -> Result<OutputTo, std::convert::Infallible> {
        Ok(OutputTo::parse(s))
    }
}

impl Cmd {
    /// Where to write the sitemap: the command line's choice, else the
    /// configuration's `sitemap_path`, else standard output.
    pub fn output(&self, cfg: &Config) -> (r: OutputTo)
        ensures
            self.output matches Some(o) ==> same_target(r, o),
            self.output is None && cfg.sitemap_path is Some ==> names_file(r, cfg.sitemap_path->Some_0@),
            self.output is None && cfg.sitemap_path is None ==> r is Stdout,
    {
        match &self.output {
            Some(OutputTo::Stdout) => OutputTo::Stdout,
            Some(OutputTo::File(path)) => OutputTo::File(copy_string(path)),
            None => match &cfg.sitemap_path {
                Some(p) => OutputTo::File(copy_string(p)),
                None => OutputTo::Stdout,
            },
        }
    }
}

fn copy_string(s: &String) -> (r: String)
    ensures
        r@ == s@,
{
    s.as_str().to_owned()
}

} // verus!
