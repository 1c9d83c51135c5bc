//! Verified string utilities over path-like strings.
//!
//! Paths are plain `String`s whose segments are separated by `/`. The spec
//! functions here give the mathematical meaning (over `Seq<char>`) of the
//! few string operations the selection engine and the configuration layer
//! need: base names, segment-aware prefix tests, substring search and
//! replacement.

use vstd::prelude::*;
use vstd::string::*;

verus! {

/// The part of `s` strictly after the last occurrence of `c`, or `None`
/// when `c` does not occur in `s`.
pub open spec fn after_last(s: Seq<char>, c: char) -> Option<Seq<char>>
    decreases s.len(),
{
    if s.len() == 0 {
        None
    } else if s.last() == c {
        Some(Seq::empty())
    } else {
        match after_last(s.drop_last(), c) {
            None => None,
            Some(t) => Some(t.push(s.last())),
        }
    }
}

/// The base name of a path: everything after the last `/`, or the whole
/// path when it has no `/`.
pub open spec fn base_name(p: Seq<char>) -> Seq<char> {
    match after_last(p, '/') {
        None => p,
        Some(b) => b,
    }
}

/// A name is hidden when it begins with `.`.
pub open spec fn is_hidden_name(name: Seq<char>) -> bool {
    name.len() > 0 && name[0] == '.'
}

/// Directory-override prefix relation: `d` is a segment-wise prefix of `p`,
/// that is `p` equals `d` or continues it at a `/` boundary.
pub open spec fn dir_prefix(d: Seq<char>, p: Seq<char>) -> bool {
    p == d || (d.len() < p.len() && p.subrange(0, d.len() as int) == d && p[d.len() as int]
        == '/')
}

/// A directory-shaped ignore pattern: its literal form ends in `/*`.
pub open spec fn is_dir_pattern(p: Seq<char>) -> bool {
    p.len() >= 2 && p[p.len() - 2] == '/' && p[p.len() - 1] == '*'
}

/// `pat` occurs in `s` starting at some position.
pub open spec fn contains_seq(s: Seq<char>, pat: Seq<char>) -> bool {
    exists|i: int| 0 <= i && i + pat.len() <= s.len() && #[trigger] s.subrange(i, i + pat.len())
        == pat
}

/// `s` with every occurrence of `pat` replaced by `repl`, scanning left to
/// right over non-overlapping occurrences. An empty `pat` leaves `s` as it
/// is.
pub open spec fn replace_seq(s: Seq<char>, pat: Seq<char>, repl: Seq<char>) -> Seq<char>
    decreases s.len(),
{
    if pat.len() == 0 {
        s
    } else if s.len() == 0 {
        s
    } else if pat.len() <= s.len() && s.subrange(0, pat.len() as int) == pat {
        repl + replace_seq(s.skip(pat.len() as int), pat, repl)
    } else {
        seq![s[0]] + replace_seq(s.skip(1), pat, repl)
    }
}

/// Where the scan of `base_name_of` stops, the tail of the string is its
/// base name.
proof fn lemma_after_last_at(s: Seq<char>, c: char, i: int)
    requires
        0 <= i <= s.len(),
        forall|j: int| i <= j < s.len() ==> s[j] != c,
        i > 0 ==> s[i - 1] == c,
    ensures
        after_last(s, c) == if i == 0 {
            Option::<Seq<char>>::None
        } else {
            Some(s.subrange(i, s.len() as int))
        },
    decreases s.len(),
{
    if i == s.len() {
        if i > 0 {
            assert(s.last() == c);
            assert(s.subrange(i, s.len() as int) =~= Seq::<char>::empty());
        }
    } else {
        assert(s.last() != c);
        lemma_after_last_at(s.drop_last(), c, i);
        if i > 0 {
            assert(after_last(s.drop_last(), c) == Some(
                s.drop_last().subrange(i, s.len() - 1),
            ));
            assert(s.drop_last().subrange(i, s.len() - 1).push(s.last()) =~= s.subrange(
                i,
                s.len() as int,
            ));
        }
    }
}

/// Returns the base name of `s`: the part after the last `/`.
pub fn base_name_of<'a>(s: &'a str) -> (r: &'a str)
    ensures
        r@ == base_name(s@),
{
    let n: usize = s.unicode_len();
    let mut i: usize = n;
    while i > 0 && s.get_char(i - 1) != '/'
        invariant
            i <= n,
            n == s@.len(),
            forall|j: int| i <= j < s@.len() ==> s@[j] != '/',
        decreases i,
    {
        i = i - 1;
    }
    proof {
        lemma_after_last_at(s@, '/', i as int);
        if i == 0 {
            assert(s@.subrange(0, s@.len() as int) =~= s@);
        }
    }
    s.substring_char(i, n)
}

/// The extension of a file name: the part after the last `.`, except that
/// a name whose only `.` is its first character (a hidden name such as a
/// dot-file) has none.
pub open spec fn extension_of(name: Seq<char>) -> Option<Seq<char>> {
    match after_last(name, '.') {
        None => None,
        Some(e) => if name.len() > 0 && name[0] == '.' && e.len() == name.len() - 1 {
            None
        } else {
            Some(e)
        },
    }
}

/// Returns the extension of the file name `name`, when it has one.
pub fn extension_of_name<'a>(name: &'a str) -> (r: Option<&'a str>)
    ensures
        r matches Some(e) ==> extension_of(name@) == Some(e@),
        r is None ==> extension_of(name@) is None,
{
    let n: usize = name.unicode_len();
    let mut i: usize = n;
    while i > 0 && name.get_char(i - 1) != '.'
        invariant
            i <= n,
            n == name@.len(),
            forall|j: int| i <= j < name@.len() ==> name@[j] != '.',
        decreases i,
    {
        i = i - 1;
    }
    proof {
        lemma_after_last_at(name@, '.', i as int);
    }
    if i <= 1 {
        None
    } else {
        Some(name.substring_char(i, n))
    }
}

/// Character-for-character string equality.
pub fn str_eq(a: &str, b: &str) -> (r: bool)
    ensures
        r == (a@ == b@),
{
    let n: usize = a.unicode_len();
    if n != b.unicode_len() {
        return false;
    }
    let mut j: usize = 0;
    while j < n
        invariant
            j <= n,
            n == a@.len(),
            n == b@.len(),
            forall|k: int| 0 <= k < j ==> a@[k] == b@[k],
        decreases n - j,
    {
        if a.get_char(j) != b.get_char(j) {
            return false;
        }
        j = j + 1;
    }
    proof {
        assert(a@ =~= b@);
    }
    true
}

/// Whether `pat` occurs in `s` starting exactly at position `i`.
pub fn occurs_at(s: &str, i: usize, pat: &str) -> (r: bool)
    requires
        i <= s@.len(),
    ensures
        r == (i + pat@.len() <= s@.len() && s@.subrange(i as int, i + pat@.len()) == pat@),
{
    let n: usize = s.unicode_len();
    let m: usize = pat.unicode_len();
    if m > n - i {
        return false;
    }
    let mut j: usize = 0;
    while j < m
        invariant
            j <= m,
            i + m <= n,
            n == s@.len(),
            m == pat@.len(),
            forall|k: int| 0 <= k < j ==> s@[i + k] == pat@[k],
        decreases m - j,
    {
        if s.get_char(i + j) != pat.get_char(j) {
            assert(s@.subrange(i as int, i + pat@.len()) != pat@) by {
                assert(s@.subrange(i as int, i + pat@.len())[j as int] == s@[i + j]);
            }
            return false;
        }
        j = j + 1;
    }
    proof {
        assert(s@.subrange(i as int, i + pat@.len()) =~= pat@);
    }
    true
}

/// Whether `pat` occurs anywhere in `s`.
pub fn contains_sub(s: &str, pat: &str) -> (r: bool)
    ensures
        r == contains_seq(s@, pat@),
{
    let n: usize = s.unicode_len();
    let m: usize = pat.unicode_len();
    if m > n {
        return false;
    }
    if m == 0 {
        proof {
            assert(contains_seq(s@, pat@)) by {
                assert(s@.subrange(0, 0 + pat@.len() as int) =~= pat@);
            }
        }
        return true;
    }
    let mut i: usize = 0;
    while i <= n - m
        invariant
            m == pat@.len(),
            n == s@.len(),
            1 <= m <= n,
            i <= n - m + 1,
            forall|k: int| 0 <= k < i ==> #[trigger] s@.subrange(k, k + pat@.len()) != pat@,
        decreases n - i,
    {
        if occurs_at(s, i, pat) {
            return true;
        }
        i = i + 1;
    }
    false
}

/// Whether `dir` is a segment-wise prefix of `path`.
pub fn dir_prefix_match(dir: &str, path: &str) -> (r: bool)
    ensures
        r == dir_prefix(dir@, path@),
{
    if str_eq(dir, path) {
        return true;
    }
    let dn: usize = dir.unicode_len();
    let pn: usize = path.unicode_len();
    if dn < pn {
        if occurs_at(path, 0, dir) {
            return path.get_char(dn) == '/';
        }
    }
    false
}

/// Whether the pattern string ends in `/*`.
pub fn is_dir_pattern_str(p: &str) -> (r: bool)
    ensures
        r == is_dir_pattern(p@),
{
    let n: usize = p.unicode_len();
    n >= 2 && p.get_char(n - 2) == '/' && p.get_char(n - 1) == '*'
}

/// `s` with every occurrence of `pat` replaced by `repl`.
pub fn replace_all(s: &str, pat: &str, repl: &str) -> (r: String)
    requires
        pat@.len() > 0,
    ensures
        r@ == replace_seq(s@, pat@, repl@),
{
    let n: usize = s.unicode_len();
    let m: usize = pat.unicode_len();
    let mut out: String = String::new();
    let mut i: usize = 0;
    proof {
        assert(s@.skip(0) =~= s@);
        assert(out@ + replace_seq(s@, pat@, repl@) =~= replace_seq(s@, pat@, repl@));
    }
    while i < n
        invariant
            i <= n,
            n == s@.len(),
            m == pat@.len(),
            m > 0,
            out@ + replace_seq(s@.skip(i as int), pat@, repl@) == replace_seq(s@, pat@, repl@),
        decreases n - i,
    {
        if occurs_at(s, i, pat) {
            proof {
                assert(s@.skip(i as int).subrange(0, pat@.len() as int) =~= s@.subrange(
                    i as int,
                    i + pat@.len(),
                ));
                assert(s@.skip(i as int).skip(m as int) =~= s@.skip(i + m));
            }
            out.append(repl);
            i = i + m;
        } else {
            proof {
                if i + m <= n {
                    assert(s@.skip(i as int).subrange(0, pat@.len() as int) =~= s@.subrange(
                        i as int,
                        i + pat@.len(),
                    ));
                } else {
                    assert(pat@.len() > s@.skip(i as int).len());
                }
                assert(s@.skip(i as int).skip(1) =~= s@.skip(i + 1));
                assert(seq![s@.skip(i as int)[0]] =~= s@.subrange(i as int, i + 1));
            }
            let c: &str = s.substring_char(i, i + 1);
            out.append(c);
            i = i + 1;
        }
    }
    proof {
        assert(s@.skip(n as int) =~= Seq::<char>::empty());
        assert(out@ + Seq::<char>::empty() =~= out@);
    }
    out
}

} // verus!
