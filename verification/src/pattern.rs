//! Compiled glob patterns.
//!
//! Pattern compilation and matching are done by the `glob` crate. Both are
//! pure functions of the pattern string and the matched text, so the
//! library names their results with the uninterpreted functions
//! [`glob_valid`] and [`glob_match`] and states every contract over those
//! names. A [`GlobPattern`] pairs the compiled pattern with the source
//! string it was compiled from; its view is that source string.

use vstd::prelude::*;

verus! {

#[verifier::external_type_specification]
#[verifier::external_body]
pub struct ExPattern(glob::Pattern);

/// Whether `glob::Pattern::new` accepts the pattern string. Compilation is
/// deterministic in the string alone.
pub uninterp spec fn glob_valid(pattern: Seq<char>) -> bool;

/// Whether the compiled form of `pattern` matches `text` under
/// `glob::Pattern::matches` with the default match options. The outcome is
/// deterministic in the two strings alone.
pub uninterp spec fn glob_match(pattern: Seq<char>, text: Seq<char>) -> bool;

/// A glob pattern together with the string it was compiled from.
///
/// Values exist only through [`GlobPattern::compile`], so the compiled form
/// always corresponds to the stored source. The view of a `GlobPattern` is
/// the source string's view.
pub struct GlobPattern {
    compiled: glob::Pattern,
    source: String,
}

impl View for GlobPattern {
    type V = Seq<char>;

    closed spec fn view(&self) -> Seq<char> {
        self.source@
    }
}

impl DeepView for GlobPattern {
    type V = Seq<char>;

    open spec fn deep_view(&self) -> Seq<char> {
        self@
    }
}

impl GlobPattern {
    /// Relies on `glob::Pattern::new`: whether a pattern compiles depends
    /// on the pattern string alone, and the catch-all pattern `.*` (a
    /// literal dot followed by a plain wildcard) always compiles.
    #[verifier::external_body]
    pub(crate) fn compile(source: &str) -> (r: Option<GlobPattern>)
        ensures
            r is Some <==> glob_valid(source@),
            r matches Some(p) ==> p@ == source@,
            source@ == ".*"@ ==> r is Some,
    {
        match glob::Pattern::new(source) {
            Ok(compiled) => Some(GlobPattern { compiled, source: source.to_string() }),
            Err(_) => None,
        }
    }

    /// Relies on `glob::Pattern::matches`: the outcome depends on the
    /// pattern string and the matched text alone.
    #[verifier::external_body]
    pub fn matches(&self, text: &str) -> (r: bool)
        ensures
            r == glob_match(self@, text@),
    {
        self.compiled.matches(text)
    }

    /// The pattern string this pattern was compiled from.
    pub fn source_str(&self) -> (r: &str)
        ensures
            r@ == self@,
    {
        self.source.as_str()
    }
}

} // verus!
