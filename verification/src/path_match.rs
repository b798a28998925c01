//! Pure predicates over filesystem entries: match by extension, by exact
//! file name, or by glob pattern.

use vstd::prelude::*;

use crate::fs_tree::FsEntry;

verus! {

/// Whether the glob engine accepts `pattern` as a well-formed pattern.
pub uninterp spec fn glob_ok(pattern: Seq<char>) -> bool;

/// Whether a well-formed glob `pattern` matches `path`, under the glob
/// engine's default match options.
pub uninterp spec fn glob_matches(pattern: Seq<char>, path: Seq<char>) -> bool;

/// Relies on `glob::Pattern::new` and `glob::Pattern::matches`: whether the
/// pattern text compiles, and whether a compiled pattern matches a string
/// under the default match options, are functions of the two strings alone.
/// Returns `None` exactly when the pattern text is rejected by the engine.
#[verifier::external_body]
fn glob_match(pattern: &str, path: &str) -> (r: Option<bool>)
    ensures
        r is Some <==> glob_ok(pattern@),
        r matches Some(m) ==> m == glob_matches(pattern@, path@),
{
    match glob::Pattern::new(pattern) {
        Ok(p) => Some(p.matches(path)),
        Err(_) => None,
    }
}

/// A matcher over filesystem entries: by extension, by exact final path
/// component, or by glob pattern over the recorded path text. The glob
/// pattern is held as its source text and handed to the glob engine when
/// the matcher is evaluated.
pub enum PathMatch {
    Extension(String),
    Name(String),
    Glob(String),
}

/// Mathematical model of a [`PathMatch`]: the same three variants over
/// character sequences.
pub enum MatcherModel {
    Extension(Seq<char>),
    Name(Seq<char>),
    Glob(Seq<char>),
}

impl View for PathMatch {
    type V = MatcherModel;

    open spec fn view(&self) -> MatcherModel {
        match self {
            PathMatch::Extension(s) => MatcherModel::Extension(s@),
            PathMatch::Name(s) => MatcherModel::Name(s@),
            PathMatch::Glob(s) => MatcherModel::Glob(s@),
        }
    }
}

impl DeepView for PathMatch {
    type V = MatcherModel;

    open spec fn deep_view(&self) -> MatcherModel {
        self.view()
    }
}

/// What it means for a matcher to accept an entry: an `Extension` matcher
/// demands an extension equal to its text, a `Name` matcher an equal final
/// component, and a `Glob` matcher a well-formed pattern that matches the
/// entry's recorded path. An entry with no extension matches no
/// `Extension` matcher, and a rejected pattern matches nothing.
pub open spec fn matcher_accepts(m: MatcherModel, e: FsEntry) -> bool {
    match m {
        MatcherModel::Extension(x) => e.ext matches Some(s) && s@ == x,
        MatcherModel::Name(n) => e.name@ == n,
        MatcherModel::Glob(p) => glob_ok(p) && glob_matches(p, e.path@),
    }
}

impl PathMatch {
    /// Evaluate this matcher against one entry.
    pub fn matches(&self, entry: &FsEntry) -> (r: bool)
        ensures
            r == matcher_accepts(self@, *entry),
    {
        match self {
            PathMatch::Extension(ext) => {
                match &entry.ext {
                    Some(e) => *e == *ext,
                    None => false,
                }
            },
            PathMatch::Name(ful) => entry.name == *ful,
            PathMatch::Glob(glb) => {
                match glob_match(glb.as_str(), entry.path.as_str()) {
                    Some(m) => m,
                    None => false,
                }
            },
        }
    }
}

} // verus!
