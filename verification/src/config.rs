//! Run configuration and the rules derived from it.
//!
//! A [`Config`] is an immutable snapshot of the caller's settings: ignore
//! patterns, an optional project type with project-specific ignores,
//! include-hidden patterns, and the literal file/directory overrides. The
//! methods here assemble the effective ignore-pattern list, test hidden
//! names against the include-hidden patterns, and resolve the few
//! placeholder paths the configuration may carry.

use vstd::prelude::*;
use vstd::string::*;

use crate::pattern::{glob_match, glob_valid, GlobPattern};
use crate::text::{contains_seq, contains_sub, replace_all, replace_seq, str_eq};

verus! {

/// Parsed command-line choices, handed in by the caller.
pub struct Cli {
    /// Path to the configuration file.
    pub config: Option<String>,
    /// Generate a default config file instead of running.
    pub generate_config: bool,
    /// Hidden names or paths to include despite being hidden.
    pub include_hidden: Option<Vec<String>>,
    /// Use plain text output format instead of Markdown.
    pub plain_text: bool,
    /// Files to include by exact relative path, overriding ignore rules.
    pub include_file: Option<Vec<String>>,
    /// Directories whose files escape directory-shaped ignore rules.
    pub include_dir: Option<Vec<String>>,
}

/// The errors the configuration layer can surface.
#[derive(Debug, PartialEq, Eq)]
pub enum ConfigError {
    /// A configured pattern string does not compile as a glob; the
    /// offending string is carried along.
    InvalidPattern(String),
    /// The home directory could not be determined.
    HomeDirUnavailable,
    /// The desktop directory could not be determined.
    DesktopDirUnavailable,
}

/// A snapshot of the caller's settings for one run.
pub struct Config {
    pub input_dir: String,
    pub output_dir: String,
    pub ignore_patterns: Vec<String>,
    pub project_type: Option<String>,
    pub project_specific_ignores: Vec<(String, Vec<String>)>,
    pub include_hidden_patterns: Vec<String>,
    pub include_file_overrides: Vec<String>,
    pub include_dir_overrides: Vec<String>,
}

/// The input directory used when the configuration names none.
pub fn default_input_dir() -> (r: String)
    ensures
        r@ == "."@,
{
    String::from_str(".")
}

/// The value bound to `key` by the first entry of `m` with that key.
pub open spec fn assoc_lookup(m: Seq<(Seq<char>, Seq<Seq<char>>)>, key: Seq<char>) -> Option<
    Seq<Seq<char>>,
>
    decreases m.len(),
{
    if m.len() == 0 {
        None
    } else if m[0].0 == key {
        Some(m[0].1)
    } else {
        assoc_lookup(m.drop_first(), key)
    }
}

/// The project-specific ignore patterns that apply to `c`: the list
/// registered for its project type, or nothing.
pub open spec fn spec_project_extras(c: Config) -> Seq<Seq<char>> {
    match c.project_type {
        None => Seq::empty(),
        Some(t) => match assoc_lookup(c.project_specific_ignores.deep_view(), t@) {
            None => Seq::empty(),
            Some(l) => l,
        },
    }
}

/// The effective ignore-pattern list of `c`: the explicit patterns, then
/// the project-specific ones, then the hidden catch-all `.*` unless the
/// include-hidden patterns already name it.
pub open spec fn spec_ignore_patterns(c: Config) -> Seq<Seq<char>> {
    let base = c.ignore_patterns.deep_view() + spec_project_extras(c);
    if c.include_hidden_patterns.deep_view().contains(".*"@) {
        base
    } else {
        base.push(".*"@)
    }
}

/// Some include-hidden pattern both compiles and matches `path`.
pub open spec fn spec_include_hidden_applies(patterns: Seq<Seq<char>>, path: Seq<char>) -> bool {
    exists|i: int|
        0 <= i < patterns.len() && glob_valid(patterns[i]) && #[trigger] glob_match(
            patterns[i],
            path,
        )
}

proof fn lemma_assoc_lookup_at(m: Seq<(Seq<char>, Seq<Seq<char>>)>, key: Seq<char>, j: int)
    requires
        0 <= j < m.len(),
        forall|k: int| 0 <= k < j ==> m[k].0 != key,
        m[j].0 == key,
    ensures
        assoc_lookup(m, key) == Some(m[j].1),
    decreases j,
{
    if j > 0 {
        lemma_assoc_lookup_at(m.drop_first(), key, j - 1);
    }
}

proof fn lemma_assoc_lookup_none(m: Seq<(Seq<char>, Seq<Seq<char>>)>, key: Seq<char>)
    requires
        forall|k: int| 0 <= k < m.len() ==> m[k].0 != key,
    ensures
        assoc_lookup(m, key) is None,
    decreases m.len(),
{
    if m.len() > 0 {
        lemma_assoc_lookup_none(m.drop_first(), key);
    }
}

/// Appends a copy of every string of `src` to `dst`.
pub(crate) fn append_clones(dst: &mut Vec<String>, src: &Vec<String>)
    ensures
        final(dst)@ == old(dst)@ + src@,
{
    let mut j: usize = 0;
    while j < src.len()
        invariant
            j <= src@.len(),
            dst@ == old(dst)@ + src@.subrange(0, j as int),
        decreases src@.len() - j,
    {
        dst.push(src[j].clone());
        proof {
            assert(old(dst)@ + src@.subrange(0, j as int) + seq![src@[j as int]] =~= old(dst)@
                + src@.subrange(0, j + 1));
        }
        j = j + 1;
    }
    proof {
        assert(src@.subrange(0, src@.len() as int) =~= src@);
    }
}

/// Whether some string of `v` equals `s`.
pub(crate) fn contains_str(v: &Vec<String>, s: &str) -> (r: bool)
    ensures
        r == v.deep_view().contains(s@),
{
    let mut j: usize = 0;
    while j < v.len()
        invariant
            j <= v@.len(),
            forall|k: int| 0 <= k < j ==> v.deep_view()[k] != s@,
        decreases v@.len() - j,
    {
        if str_eq(v[j].as_str(), s) {
            assert(v.deep_view()[j as int] == s@);
            return true;
        }
        j = j + 1;
    }
    false
}

impl Config {
    /// The effective ignore patterns: the configured ones, those of the
    /// active project type, and the hidden catch-all `.*` unless the
    /// include-hidden patterns already name it.
    pub fn get_ignore_patterns(&self) -> (r: Vec<String>)
        ensures
            r.deep_view() == spec_ignore_patterns(*self),
    {
        let mut patterns: Vec<String> = Vec::new();
        append_clones(&mut patterns, &self.ignore_patterns);
        proof {
            assert(Seq::<String>::empty() + self.ignore_patterns@ =~= self.ignore_patterns@);
        }
        match &self.project_type {
            None => {
                proof {
                    assert(patterns.deep_view() =~= self.ignore_patterns.deep_view()
                        + spec_project_extras(*self));
                }
            },
            Some(t) => {
                let mut j: usize = 0;
                let n: usize = self.project_specific_ignores.len();
                let mut found: bool = false;
                while j < n && !found
                    invariant
                        j <= n,
                        n == self.project_specific_ignores@.len(),
                        self.project_type matches Some(pt) && pt == t,
                        !found ==> forall|k: int|
                            0 <= k < j ==> self.project_specific_ignores.deep_view()[k].0 != t@,
                        !found ==> patterns@ == self.ignore_patterns@,
                        found ==> j < n && self.project_specific_ignores.deep_view()[
                            j as int
                        ].0 == t@ && forall|k: int|
                            0 <= k < j ==> self.project_specific_ignores.deep_view()[k].0 != t@,
                        found ==> patterns@ == self.ignore_patterns@
                            + self.project_specific_ignores@[j as int].1@,
                    decreases n - j + (if found { 0int } else { 1int }),
                {
                    if str_eq(self.project_specific_ignores[j].0.as_str(), t.as_str()) {
                        append_clones(&mut patterns, &self.project_specific_ignores[j].1);
                        found = true;
                    } else {
                        j = j + 1;
                    }
                }
                proof {
                    let dv = self.project_specific_ignores.deep_view();
                    if found {
                        lemma_assoc_lookup_at(dv, t@, j as int);
                        assert(dv[j as int].1 =~= self.project_specific_ignores@[j as int].1.deep_view());
                        assert(patterns.deep_view() =~= self.ignore_patterns.deep_view()
                            + spec_project_extras(*self));
                    } else {
                        lemma_assoc_lookup_none(dv, t@);
                        assert(patterns.deep_view() =~= self.ignore_patterns.deep_view()
                            + spec_project_extras(*self));
                    }
                }
            },
        }
        if !contains_str(&self.include_hidden_patterns, ".*") {
            patterns.push(String::from_str(".*"));
            proof {
                assert(patterns.deep_view() =~= (self.ignore_patterns.deep_view()
                    + spec_project_extras(*self)).push(".*"@));
            }
        }
        patterns
    }

    /// Whether a (typically hidden) name should be included: some
    /// include-hidden pattern compiles and matches it. A pattern that does
    /// not compile never matches.
    pub fn should_include_hidden(&self, path: &str) -> (r: bool)
        ensures
            r == spec_include_hidden_applies(self.include_hidden_patterns.deep_view(), path@),
    {
        let n: usize = self.include_hidden_patterns.len();
        let mut j: usize = 0;
        while j < n
            invariant
                j <= n,
                n == self.include_hidden_patterns@.len(),
                forall|k: int|
                    0 <= k < j ==> !(glob_valid(
                        self.include_hidden_patterns.deep_view()[k],
                    ) && #[trigger] glob_match(
                        self.include_hidden_patterns.deep_view()[k],
                        path@,
                    )),
            decreases n - j,
        {
            match GlobPattern::compile(self.include_hidden_patterns[j].as_str()) {
                Some(p) => {
                    if p.matches(path) {
                        assert(glob_match(self.include_hidden_patterns.deep_view()[j as int], path@));
                        return true;
                    }
                },
                None => {},
            }
            j = j + 1;
        }
        false
    }

    /// The configured output directory with each `{DESKTOP}` placeholder
    /// replaced by the given desktop path; an error when the placeholder
    /// occurs but no desktop path is at hand.
    pub fn resolve_output_dir_with(output_dir: &str, desktop: Option<&str>) -> (r: Result<
        String,
        ConfigError,
    >)
        ensures
            !contains_seq(output_dir@, "{DESKTOP}"@) ==> (r matches Ok(s) && s@ == output_dir@),
            contains_seq(output_dir@, "{DESKTOP}"@) ==> (desktop matches Some(d) ==> (r matches Ok(
                s,
            ) && s@ == replace_seq(output_dir@, "{DESKTOP}"@, d@))),
            contains_seq(output_dir@, "{DESKTOP}"@) && desktop is None ==> r == Err::<
                String,
                ConfigError,
            >(ConfigError::DesktopDirUnavailable),
    {
        if !contains_sub(output_dir, "{DESKTOP}") {
            return Ok(String::from_str(output_dir));
        }
        match desktop {
            None => Err(ConfigError::DesktopDirUnavailable),
            Some(d) => {
                proof {
                    reveal_strlit("{DESKTOP}");
                }
                Ok(replace_all(output_dir, "{DESKTOP}", d))
            },
        }
    }

    /// Resolves the output directory, replacing `{DESKTOP}` with the
    /// machine's desktop path when the placeholder is present.
    pub fn resolve_output_dir(&mut self) -> (r: Result<(), ConfigError>)
        ensures
            final(self).input_dir == old(self).input_dir,
            final(self).ignore_patterns == old(self).ignore_patterns,
            final(self).project_type == old(self).project_type,
            final(self).project_specific_ignores == old(self).project_specific_ignores,
            final(self).include_hidden_patterns == old(self).include_hidden_patterns,
            final(self).include_file_overrides == old(self).include_file_overrides,
            final(self).include_dir_overrides == old(self).include_dir_overrides,
            !contains_seq(old(self).output_dir@, "{DESKTOP}"@) ==> r is Ok
                && final(self).output_dir@ == old(self).output_dir@,
            r is Ok && contains_seq(old(self).output_dir@, "{DESKTOP}"@) ==> exists|d: Seq<char>|
                final(self).output_dir@ == #[trigger] replace_seq(
                    old(self).output_dir@,
                    "{DESKTOP}"@,
                    d,
                ),
            r is Err ==> r == Err::<(), ConfigError>(ConfigError::DesktopDirUnavailable)
                && contains_seq(old(self).output_dir@, "{DESKTOP}"@)
                && final(self).output_dir@ == old(self).output_dir@,
    {
        let desktop: Option<String> = desktop_dir_string();
        let resolved: Result<String, ConfigError> = match &desktop {
            Some(d) => Self::resolve_output_dir_with(self.output_dir.as_str(), Some(d.as_str())),
            None => Self::resolve_output_dir_with(self.output_dir.as_str(), None),
        };
        match resolved {
            Ok(s) => {
                proof {
                    if contains_seq(self.output_dir@, "{DESKTOP}"@) {
                        let d = desktop->Some_0;
                        assert(s@ == replace_seq(self.output_dir@, "{DESKTOP}"@, d@));
                    }
                }
                self.output_dir = s;
                Ok(())
            },
            Err(e) => Err(e),
        }
    }

    /// The default config file path under the standard location in the
    /// home directory.
    pub fn default_config_path() -> (r: Result<String, ConfigError>)
        ensures
            r matches Ok(p) ==> exists|h: Seq<char>|
                p@ == #[trigger] (h + "/.config/conag/config.toml"@),
            r is Err ==> r == Err::<String, ConfigError>(ConfigError::HomeDirUnavailable),
    {
        Self::default_config_path_with_home(None)
    }

    /// The default config file path, under the given home directory when
    /// one is supplied and under the machine's home directory otherwise.
    pub fn default_config_path_with_home(home_override: Option<&str>) -> (r: Result<
        String,
        ConfigError,
    >)
        ensures
            home_override matches Some(h) ==> (r matches Ok(p) && p@ == h@
                + "/.config/conag/config.toml"@),
            r matches Ok(p) ==> exists|h: Seq<char>|
                p@ == #[trigger] (h + "/.config/conag/config.toml"@),
            r is Err ==> home_override is None && r == Err::<String, ConfigError>(
                ConfigError::HomeDirUnavailable,
            ),
    {
        let mut home: String = match home_override {
            Some(h) => String::from_str(h),
            None => match home_dir_string() {
                Some(h) => h,
                None => {
                    return Err(ConfigError::HomeDirUnavailable);
                },
            },
        };
        let ghost home_view: Seq<char> = home@;
        home.append("/.config/conag/config.toml");
        proof {
            assert(home@ == home_view + "/.config/conag/config.toml"@);
        }
        Ok(home)
    }

    /// This configuration with the overrides the command line carries.
    pub fn with_cli_overrides(self, cli: &Cli) -> (r: Config)
        ensures
            r.include_file_overrides@ == (match cli.include_file {
                Some(v) => v@,
                None => self.include_file_overrides@,
            }),
            r.include_dir_overrides@ == (match cli.include_dir {
                Some(v) => v@,
                None => self.include_dir_overrides@,
            }),
            r.input_dir == self.input_dir,
            r.output_dir == self.output_dir,
            r.ignore_patterns == self.ignore_patterns,
            r.project_type == self.project_type,
            r.project_specific_ignores == self.project_specific_ignores,
            r.include_hidden_patterns == self.include_hidden_patterns,
    {
        let mut updated = self;
        match &cli.include_file {
            Some(inc) => {
                let mut copy: Vec<String> = Vec::new();
                append_clones(&mut copy, inc);
                proof {
                    assert(Seq::<String>::empty() + inc@ =~= inc@);
                }
                updated.include_file_overrides = copy;
            },
            None => {},
        }
        match &cli.include_dir {
            Some(inc) => {
                let mut copy: Vec<String> = Vec::new();
                append_clones(&mut copy, inc);
                proof {
                    assert(Seq::<String>::empty() + inc@ =~= inc@);
                }
                updated.include_dir_overrides = copy;
            },
            None => {},
        }
        updated
    }

    /// This configuration with the given output directory.
    pub fn with_output_dir(self, output_dir: String) -> (r: Config)
        ensures
            r.output_dir == output_dir,
            r.input_dir == self.input_dir,
            r.ignore_patterns == self.ignore_patterns,
            r.project_type == self.project_type,
            r.project_specific_ignores == self.project_specific_ignores,
            r.include_hidden_patterns == self.include_hidden_patterns,
            r.include_file_overrides == self.include_file_overrides,
            r.include_dir_overrides == self.include_dir_overrides,
    {
        let mut updated = self;
        updated.output_dir = output_dir;
        updated
    }
}

/// Relies on `dirs::home_dir`: yields the home directory as a string, or
/// `None` when it is unknown or its path is not UTF-8. The outcome depends
/// on the machine, so nothing is promised of it.
#[verifier::external_body]
fn home_dir_string() -> (r: Option<String>) {
    dirs::home_dir().and_then(|p| p.to_str().map(|s| s.to_string()))
}

/// Relies on `dirs::desktop_dir`: yields the desktop directory as a
/// string, or `None` when it is unknown or its path is not UTF-8. The
/// outcome depends on the machine, so nothing is promised of it.
#[verifier::external_body]
fn desktop_dir_string() -> (r: Option<String>) {
    dirs::desktop_dir().and_then(|p| p.to_str().map(|s| s.to_string()))
}

} // verus!
