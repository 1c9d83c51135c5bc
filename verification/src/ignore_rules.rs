//! The selection engine: compiled rules and the per-candidate decision.
//!
//! An [`IgnoreRules`] value holds the compiled ignore patterns, the
//! compiled include-hidden patterns and the hidden catch-all, built once
//! from a [`Config`]. [`apply_ignore_rules`] keeps exactly the candidates
//! that [`spec_included`] admits: a file override wins unconditionally; a
//! hidden file needs an include-hidden match; an ignore pattern excludes,
//! except that a directory-shaped pattern is suspended for files under a
//! directory override.

use vstd::prelude::*;
use vstd::seq_lib::*;

use crate::config::{contains_str, spec_ignore_patterns, Config, ConfigError};
use crate::pattern::{glob_match, glob_valid, GlobPattern};
use crate::text::{base_name, base_name_of, dir_prefix, dir_prefix_match, is_dir_pattern,
    is_dir_pattern_str, is_hidden_name, str_eq};

verus! {

/// The compiled rules of one run.
pub struct IgnoreRules {
    /// Compiled ignore patterns, the hidden catch-all excluded.
    pub rules: Vec<GlobPattern>,
    /// Compiled patterns for hidden names to include anyway.
    pub include_hidden: Vec<GlobPattern>,
    /// The catch-all pattern matching hidden names.
    pub ignore_hidden: GlobPattern,
}

/// The predicate of one selection pass: whether a candidate path is kept.
pub open spec fn included_pred(
    rules: Seq<Seq<char>>,
    include_hidden: Seq<Seq<char>>,
    file_overrides: Seq<Seq<char>>,
    dir_overrides: Seq<Seq<char>>,
) -> spec_fn(Seq<char>) -> bool {
    |file: Seq<char>| spec_included(file, rules, include_hidden, file_overrides, dir_overrides)
}

/// The decision for one candidate `file`, a path relative to the scan
/// root. In precedence order: an exact file override includes the file
/// unconditionally; a hidden base name excludes it unless an
/// include-hidden pattern matches the base name; an ignore pattern
/// matching the path excludes it, where directory-shaped patterns (ending
/// in `/*`) are skipped for files under a directory override.
pub open spec fn spec_included(
    file: Seq<char>,
    rules: Seq<Seq<char>>,
    include_hidden: Seq<Seq<char>>,
    file_overrides: Seq<Seq<char>>,
    dir_overrides: Seq<Seq<char>>,
) -> bool {
    let base = base_name(file);
    let hidden = is_hidden_name(base);
    let include_hidden_match = exists|i: int|
        0 <= i < include_hidden.len() && #[trigger] glob_match(include_hidden[i], base);
    let dir_included = exists|i: int|
        0 <= i < dir_overrides.len() && #[trigger] dir_prefix(dir_overrides[i], file);
    let ignored = exists|i: int|
        0 <= i < rules.len() && #[trigger] glob_match(rules[i], file) && !(is_dir_pattern(
            rules[i],
        ) && dir_included);
    file_overrides.contains(file) || ((!hidden || include_hidden_match) && !ignored)
}

/// The candidates of `files` that the rules keep, in input order.
pub open spec fn spec_selected(
    files: Seq<Seq<char>>,
    rules: Seq<Seq<char>>,
    include_hidden: Seq<Seq<char>>,
    file_overrides: Seq<Seq<char>>,
    dir_overrides: Seq<Seq<char>>,
) -> Seq<Seq<char>> {
    files.filter(included_pred(rules, include_hidden, file_overrides, dir_overrides))
}

/// The ignore-pattern sources of `c` with the literal catch-all `.*`
/// removed; those are the patterns compiled into [`IgnoreRules::rules`].
pub open spec fn spec_rule_sources(c: Config) -> Seq<Seq<char>> {
    spec_ignore_patterns(c).filter(not_catch_all())
}

/// Keeps every pattern other than the literal `.*`.
pub open spec fn not_catch_all() -> spec_fn(Seq<char>) -> bool {
    |p: Seq<char>| p != ".*"@
}

/// Every pattern that [`IgnoreRules::new`] would compile for `c` is a
/// valid glob.
pub open spec fn spec_patterns_valid(c: Config) -> bool {
    (forall|i: int|
        0 <= i < spec_rule_sources(c).len() ==> #[trigger] glob_valid(spec_rule_sources(c)[i]))
        && (forall|i: int|
        0 <= i < c.include_hidden_patterns.deep_view().len() ==> #[trigger] glob_valid(
            c.include_hidden_patterns.deep_view()[i],
        ))
}

/// Filtering one more element keeps the filtered prefix and appends the
/// element exactly when it satisfies the predicate.
proof fn lemma_filter_push<A>(s: Seq<A>, pred: spec_fn(A) -> bool, x: A)
    ensures
        s.push(x).filter(pred) == if pred(x) {
            s.filter(pred).push(x)
        } else {
            s.filter(pred)
        },
{
    reveal(Seq::filter);
    assert(s.push(x).drop_last() =~= s);
}

/// A sequence whose elements all satisfy the predicate filters to itself.
proof fn lemma_filter_all<A>(s: Seq<A>, pred: spec_fn(A) -> bool)
    requires
        forall|i: int| 0 <= i < s.len() ==> pred(#[trigger] s[i]),
    ensures
        s.filter(pred) == s,
    decreases s.len(),
{
    reveal(Seq::filter);
    if s.len() > 0 {
        lemma_filter_all(s.drop_last(), pred);
        assert(s.drop_last().filter(pred).push(s.last()) =~= s);
    }
}

/// Every element of a filtered sequence comes from the unfiltered one and
/// satisfies the predicate.
proof fn lemma_filter_subset<A>(s: Seq<A>, pred: spec_fn(A) -> bool, x: A)
    requires
        s.filter(pred).contains(x),
    ensures
        s.contains(x) && pred(x),
    decreases s.len(),
{
    reveal(Seq::filter);
    if s.len() > 0 {
        if s.last() == x && pred(x) {
            assert(s.contains(x));
        } else {
            lemma_filter_subset(s.drop_last(), pred, x);
            let i = choose|i: int| 0 <= i < s.drop_last().len() && s.drop_last()[i] == x;
            assert(s[i] == x);
        }
    }
}

/// Filtering a sequence and taking its set is taking its set and
/// filtering that.
proof fn lemma_filter_to_set<A>(s: Seq<A>, pred: spec_fn(A) -> bool)
    ensures
        s.filter(pred).to_set() == s.to_set().filter(pred),
{
    broadcast use group_filter_ensures;

    assert forall|x: A| s.filter(pred).to_set().contains(x) implies s.to_set().filter(
        pred,
    ).contains(x) by {
        lemma_filter_subset(s, pred, x);
    }
    assert forall|x: A| s.to_set().filter(pred).contains(x) implies s.filter(
        pred,
    ).to_set().contains(x) by {
        let i = choose|i: int| 0 <= i < s.len() && s[i] == x;
        assert(s.filter(pred).contains(s[i]));
    }
    assert(s.filter(pred).to_set() =~= s.to_set().filter(pred));
}

/// Compiles every pattern string of `sources`, or reports the first one
/// that does not compile.
fn compile_all(sources: &Vec<String>) -> (r: Result<Vec<GlobPattern>, ConfigError>)
    ensures
        r matches Ok(ps) ==> ps.deep_view() == sources.deep_view() && (forall|i: int|
            0 <= i < sources.deep_view().len() ==> #[trigger] glob_valid(sources.deep_view()[i])),
        r matches Err(e) ==> (e matches ConfigError::InvalidPattern(p) && !glob_valid(p@)
            && sources.deep_view().contains(p@)),
        r is Err ==> !(forall|i: int|
            0 <= i < sources.deep_view().len() ==> #[trigger] glob_valid(sources.deep_view()[i])),
{
    let n: usize = sources.len();
    let mut out: Vec<GlobPattern> = Vec::new();
    let mut j: usize = 0;
    while j < n
        invariant
            j <= n,
            n == sources@.len(),
            out@.len() == j,
            forall|k: int| 0 <= k < j ==> (#[trigger] out@[k])@ == sources@[k]@,
            forall|k: int|
                0 <= k < j ==> #[trigger] glob_valid(sources.deep_view()[k]),
        decreases n - j,
    {
        match GlobPattern::compile(sources[j].as_str()) {
            Some(p) => {
                proof {
                    assert(sources.deep_view()[j as int] == sources@[j as int]@);
                }
                out.push(p);
            },
            None => {
                assert(sources.deep_view()[j as int] == sources@[j as int]@);
                return Err(ConfigError::InvalidPattern(sources[j].clone()));
            },
        }
        j = j + 1;
    }
    proof {
        assert forall|k: int| 0 <= k < n implies out.deep_view()[k] == sources.deep_view()[k] by {
            assert(out.deep_view()[k] == out@[k]@);
            assert(sources.deep_view()[k] == sources@[k]@);
        }
        assert(out.deep_view() =~= sources.deep_view());
    }
    Ok(out)
}

/// Copies every pattern string of `patterns` but the literal `.*`.
fn remove_catch_all(patterns: &Vec<String>) -> (r: Vec<String>)
    ensures
        r.deep_view() == patterns.deep_view().filter(not_catch_all()),
{
    let n: usize = patterns.len();
    let mut out: Vec<String> = Vec::new();
    let mut j: usize = 0;
    proof {
        reveal(Seq::filter);
        assert(patterns.deep_view().subrange(0, 0) =~= Seq::<Seq<char>>::empty());
    }
    while j < n
        invariant
            j <= n,
            n == patterns@.len(),
            out.deep_view() =~= patterns.deep_view().subrange(0, j as int).filter(not_catch_all()),
        decreases n - j,
    {
        proof {
            assert(patterns.deep_view().subrange(0, j + 1) =~= patterns.deep_view().subrange(
                0,
                j as int,
            ).push(patterns.deep_view()[j as int]));
            lemma_filter_push(
                patterns.deep_view().subrange(0, j as int),
                not_catch_all(),
                patterns.deep_view()[j as int],
            );
        }
        if !str_eq(patterns[j].as_str(), ".*") {
            out.push(patterns[j].clone());
            proof {
                assert(out.deep_view() =~= patterns.deep_view().subrange(0, j + 1).filter(
                    not_catch_all(),
                ));
            }
        }
        j = j + 1;
    }
    proof {
        assert(patterns.deep_view().subrange(0, n as int) =~= patterns.deep_view());
    }
    out
}

impl IgnoreRules {
    /// Compiles the rules derived from `config`: the effective ignore
    /// patterns (the catch-all `.*` set aside), the include-hidden
    /// patterns, and the catch-all itself. Fails with the first pattern
    /// string that is not a valid glob.
    pub fn new(config: &Config) -> (r: Result<IgnoreRules, ConfigError>)
        ensures
            r is Ok <==> spec_patterns_valid(*config),
            r matches Ok(ir) ==> ir.rules.deep_view() == spec_rule_sources(*config)
                && ir.include_hidden.deep_view() == config.include_hidden_patterns.deep_view()
                && ir.ignore_hidden@ == ".*"@,
            r matches Err(e) ==> (e matches ConfigError::InvalidPattern(p) && !glob_valid(p@) && (
            spec_rule_sources(*config).contains(p@)
                || config.include_hidden_patterns.deep_view().contains(p@))),
    {
        let patterns = config.get_ignore_patterns();
        let rule_sources = remove_catch_all(&patterns);
        let rules = match compile_all(&rule_sources) {
            Ok(v) => v,
            Err(e) => {
                proof {
                    assert(rule_sources.deep_view() == spec_rule_sources(*config));
                    assert(!spec_patterns_valid(*config));
                }
                return Err(e);
            },
        };
        let include_hidden = match compile_all(&config.include_hidden_patterns) {
            Ok(v) => v,
            Err(e) => {
                return Err(e);
            },
        };
        let ignore_hidden = GlobPattern::compile(".*").unwrap();
        Ok(IgnoreRules { rules, include_hidden, ignore_hidden })
    }
}

/// Whether some directory override is a segment-wise prefix of `path`.
fn any_dir_override(dirs: &Vec<String>, path: &str) -> (r: bool)
    ensures
        r == exists|i: int|
            0 <= i < dirs.deep_view().len() && #[trigger] dir_prefix(dirs.deep_view()[i], path@),
{
    let n: usize = dirs.len();
    let mut j: usize = 0;
    while j < n
        invariant
            j <= n,
            n == dirs@.len(),
            forall|k: int| 0 <= k < j ==> !#[trigger] dir_prefix(dirs.deep_view()[k], path@),
        decreases n - j,
    {
        if dir_prefix_match(dirs[j].as_str(), path) {
            assert(dir_prefix(dirs.deep_view()[j as int], path@));
            return true;
        }
        j = j + 1;
    }
    false
}

/// Whether some pattern of `patterns` matches `text`.
fn any_glob_match(patterns: &Vec<GlobPattern>, text: &str) -> (r: bool)
    ensures
        r == exists|i: int|
            0 <= i < patterns.deep_view().len() && #[trigger] glob_match(
                patterns.deep_view()[i],
                text@,
            ),
{
    let n: usize = patterns.len();
    let mut j: usize = 0;
    while j < n
        invariant
            j <= n,
            n == patterns@.len(),
            forall|k: int| 0 <= k < j ==> !#[trigger] glob_match(patterns.deep_view()[k], text@),
        decreases n - j,
    {
        if patterns[j].matches(text) {
            assert(glob_match(patterns.deep_view()[j as int], text@));
            return true;
        }
        j = j + 1;
    }
    false
}

/// Whether some ignore pattern applies to `path`: it matches, and it is
/// not a directory-shaped pattern suspended by a directory override.
fn any_ignore_match(patterns: &Vec<GlobPattern>, path: &str, dir_included: bool) -> (r: bool)
    ensures
        r == exists|i: int|
            0 <= i < patterns.deep_view().len() && #[trigger] glob_match(
                patterns.deep_view()[i],
                path@,
            ) && !(is_dir_pattern(patterns.deep_view()[i]) && dir_included),
{
    let n: usize = patterns.len();
    let mut j: usize = 0;
    while j < n
        invariant
            j <= n,
            n == patterns@.len(),
            forall|k: int|
                0 <= k < j ==> !(#[trigger] glob_match(patterns.deep_view()[k], path@)
                    && !(is_dir_pattern(patterns.deep_view()[k]) && dir_included)),
        decreases n - j,
    {
        let skip_rule: bool = dir_included && is_dir_pattern_str(patterns[j].source_str());
        if !skip_rule && patterns[j].matches(path) {
            assert(glob_match(patterns.deep_view()[j as int], path@));
            return true;
        }
        j = j + 1;
    }
    false
}

/// The decision for one candidate, as a single pure function of the rules
/// and the overrides.
pub fn candidate_included(
    ignore_rules: &IgnoreRules,
    file: &str,
    include_file_overrides: &Vec<String>,
    include_dir_overrides: &Vec<String>,
) -> (r: bool)
    ensures
        r == spec_included(
            file@,
            ignore_rules.rules.deep_view(),
            ignore_rules.include_hidden.deep_view(),
            include_file_overrides.deep_view(),
            include_dir_overrides.deep_view(),
        ),
{
    if contains_str(include_file_overrides, file) {
        return true;
    }
    let base = base_name_of(file);
    let hidden: bool = base.unicode_len() > 0 && base.get_char(0) == '.';
    let include_hidden_match = any_glob_match(&ignore_rules.include_hidden, base);
    let dir_included = any_dir_override(include_dir_overrides, file);
    let ignored = any_ignore_match(&ignore_rules.rules, file, dir_included);
    (!hidden || include_hidden_match) && !ignored
}

/// Applies the rules to every candidate independently and keeps, in input
/// order, exactly those that [`spec_included`] admits.
pub fn apply_ignore_rules(
    ignore_rules: &IgnoreRules,
    files: &Vec<String>,
    include_file_overrides: &Vec<String>,
    include_dir_overrides: &Vec<String>,
) -> (included: Vec<String>)
    ensures
        included.deep_view() == spec_selected(
            files.deep_view(),
            ignore_rules.rules.deep_view(),
            ignore_rules.include_hidden.deep_view(),
            include_file_overrides.deep_view(),
            include_dir_overrides.deep_view(),
        ),
{
    let ghost pred = included_pred(
        ignore_rules.rules.deep_view(),
        ignore_rules.include_hidden.deep_view(),
        include_file_overrides.deep_view(),
        include_dir_overrides.deep_view(),
    );
    let n: usize = files.len();
    let mut included: Vec<String> = Vec::new();
    let mut i: usize = 0;
    proof {
        reveal(Seq::filter);
        assert(files.deep_view().subrange(0, 0) =~= Seq::<Seq<char>>::empty());
    }
    while i < n
        invariant
            i <= n,
            n == files@.len(),
            pred == included_pred(
                ignore_rules.rules.deep_view(),
                ignore_rules.include_hidden.deep_view(),
                include_file_overrides.deep_view(),
                include_dir_overrides.deep_view(),
            ),
            included.deep_view() =~= files.deep_view().subrange(0, i as int).filter(pred),
        decreases n - i,
    {
        proof {
            assert(files.deep_view().subrange(0, i + 1) =~= files.deep_view().subrange(
                0,
                i as int,
            ).push(files.deep_view()[i as int]));
            lemma_filter_push(
                files.deep_view().subrange(0, i as int),
                pred,
                files.deep_view()[i as int],
            );
        }
        if candidate_included(
            ignore_rules,
            files[i].as_str(),
            include_file_overrides,
            include_dir_overrides,
        ) {
            included.push(files[i].clone());
            proof {
                assert(included.deep_view() =~= files.deep_view().subrange(0, i + 1).filter(pred));
            }
        }
        i = i + 1;
    }
    proof {
        assert(files.deep_view().subrange(0, n as int) =~= files.deep_view());
    }
    included
}

/// A file whose base name is not hidden and that no ignore pattern
/// matches is included.
pub proof fn lemma_visible_unmatched_included(
    file: Seq<char>,
    rules: Seq<Seq<char>>,
    include_hidden: Seq<Seq<char>>,
    file_overrides: Seq<Seq<char>>,
    dir_overrides: Seq<Seq<char>>,
)
    requires
        !is_hidden_name(base_name(file)),
        forall|i: int| 0 <= i < rules.len() ==> !#[trigger] glob_match(rules[i], file),
    ensures
        spec_included(file, rules, include_hidden, file_overrides, dir_overrides),
{
}

/// A file whose base name is hidden and that no include-hidden pattern
/// matches is excluded, whatever the ignore patterns say, as long as no
/// file override names it.
pub proof fn lemma_hidden_unrescued_excluded(
    file: Seq<char>,
    rules: Seq<Seq<char>>,
    include_hidden: Seq<Seq<char>>,
    file_overrides: Seq<Seq<char>>,
    dir_overrides: Seq<Seq<char>>,
)
    requires
        is_hidden_name(base_name(file)),
        forall|i: int|
            0 <= i < include_hidden.len() ==> !#[trigger] glob_match(
                include_hidden[i],
                base_name(file),
            ),
        !file_overrides.contains(file),
    ensures
        !spec_included(file, rules, include_hidden, file_overrides, dir_overrides),
{
}

/// A file named by a file override is included, even when it is hidden or
/// matched by ignore patterns.
pub proof fn lemma_file_override_included(
    file: Seq<char>,
    rules: Seq<Seq<char>>,
    include_hidden: Seq<Seq<char>>,
    file_overrides: Seq<Seq<char>>,
    dir_overrides: Seq<Seq<char>>,
)
    requires
        file_overrides.contains(file),
    ensures
        spec_included(file, rules, include_hidden, file_overrides, dir_overrides),
{
}

/// Under a directory override, only non-directory-shaped ignore patterns
/// still exclude: a file under an overridden directory, not hidden, and
/// matched by no non-directory pattern is included.
pub proof fn lemma_dir_override_neutralizes_dir_rules(
    file: Seq<char>,
    rules: Seq<Seq<char>>,
    include_hidden: Seq<Seq<char>>,
    file_overrides: Seq<Seq<char>>,
    dir_overrides: Seq<Seq<char>>,
)
    requires
        exists|i: int| 0 <= i < dir_overrides.len() && #[trigger] dir_prefix(dir_overrides[i], file),
        forall|i: int|
            0 <= i < rules.len() && !is_dir_pattern(rules[i]) ==> !#[trigger] glob_match(
                rules[i],
                file,
            ),
        !is_hidden_name(base_name(file)),
    ensures
        spec_included(file, rules, include_hidden, file_overrides, dir_overrides),
{
}

/// A directory override does not rescue a file from a non-directory
/// ignore pattern that matches it: without a file override, such a file
/// stays excluded.
pub proof fn lemma_non_dir_rule_still_excludes(
    file: Seq<char>,
    rules: Seq<Seq<char>>,
    include_hidden: Seq<Seq<char>>,
    file_overrides: Seq<Seq<char>>,
    dir_overrides: Seq<Seq<char>>,
)
    requires
        exists|i: int|
            0 <= i < rules.len() && !is_dir_pattern(rules[i]) && #[trigger] glob_match(
                rules[i],
                file,
            ),
        !file_overrides.contains(file),
    ensures
        !spec_included(file, rules, include_hidden, file_overrides, dir_overrides),
{
}

/// Selection is idempotent: filtering the selected files again with the
/// same rules keeps every one of them.
pub proof fn lemma_selection_idempotent(
    files: Seq<Seq<char>>,
    rules: Seq<Seq<char>>,
    include_hidden: Seq<Seq<char>>,
    file_overrides: Seq<Seq<char>>,
    dir_overrides: Seq<Seq<char>>,
)
    ensures
        spec_selected(
            spec_selected(files, rules, include_hidden, file_overrides, dir_overrides),
            rules,
            include_hidden,
            file_overrides,
            dir_overrides,
        ) == spec_selected(files, rules, include_hidden, file_overrides, dir_overrides),
{
    broadcast use group_filter_ensures;

    let pred = included_pred(rules, include_hidden, file_overrides, dir_overrides);
    let sel = spec_selected(files, rules, include_hidden, file_overrides, dir_overrides);
    assert(forall|i: int| 0 <= i < sel.len() ==> pred(#[trigger] sel[i]));
    lemma_filter_all(sel, pred);
}

/// Selection is order independent: as sets, two candidate lists with the
/// same elements select the same files.
pub proof fn lemma_selection_order_independent(
    files1: Seq<Seq<char>>,
    files2: Seq<Seq<char>>,
    rules: Seq<Seq<char>>,
    include_hidden: Seq<Seq<char>>,
    file_overrides: Seq<Seq<char>>,
    dir_overrides: Seq<Seq<char>>,
)
    requires
        files1.to_set() == files2.to_set(),
    ensures
        spec_selected(files1, rules, include_hidden, file_overrides, dir_overrides).to_set()
            == spec_selected(files2, rules, include_hidden, file_overrides, dir_overrides).to_set(),
{
    let pred = included_pred(rules, include_hidden, file_overrides, dir_overrides);
    lemma_filter_to_set(files1, pred);
    lemma_filter_to_set(files2, pred);
}

} // verus!
