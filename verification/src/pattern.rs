//! Glob patterns, as the archive's privacy rules and collectors write them.
//!
//! A glob is turned into a regular expression by plain text replacement
//! (`.` escaped, `*` and `?` widened), and the expression is run by the
//! `regex` crate. Hosts are read from URLs by the `url` crate.

use vstd::prelude::*;
use crate::text::{chars_of, contains, contains_seq, ends_with, has_char, has_prefix, has_suffix,
    lowercase, push_chars, push_str, slice_chars, starts_with, string_of, to_lowercase, chars_eq};

verus! {

/// `s` with every occurrence of `from` replaced by `to`, scanning left to
/// right without overlap (`str::replace` with a non-empty pattern).
pub open spec fn replace_all(s: Seq<char>, from: Seq<char>, to: Seq<char>) -> Seq<char>
    recommends
        from.len() > 0,
    decreases s.len(),
{
    if s.len() == 0 || from.len() == 0 {
        s
    } else if starts_with(s, from) {
        to + replace_all(s.skip(from.len() as int), from, to)
    } else {
        seq![s[0]] + replace_all(s.drop_first(), from, to)
    }
}

/// Replaces every occurrence of `from` in `s` by `to`.
pub fn replace(s: &Vec<char>, from: &Vec<char>, to: &Vec<char>) -> (r: Vec<char>)
    requires
        from@.len() > 0,
    ensures
        r@ == replace_all(s@, from@, to@),
{
    let mut out: Vec<char> = Vec::new();
    let mut i: usize = 0;
    assert(s@.skip(0) =~= s@);
    while i < s.len()
        invariant
            from@.len() > 0,
            i <= s@.len(),
            out@ + replace_all(s@.skip(i as int), from@, to@) == replace_all(s@, from@, to@),
        decreases s@.len() - i,
    {
        let ghost rest = s@.skip(i as int);
        if crate::text::matches_at(s, from, i) {
            assert(rest.subrange(0, from@.len() as int) =~= s@.subrange(i as int, i + from@.len()));
            assert(starts_with(rest, from@));
            assert(rest.skip(from@.len() as int) =~= s@.skip(i + from@.len()));
            push_chars(&mut out, to);
            i = i + from.len();
            assert(out@ + replace_all(s@.skip(i as int), from@, to@) =~= replace_all(s@, from@, to@));
        } else {
            assert(!starts_with(rest, from@)) by {
                if from@.len() <= rest.len() {
                    assert(rest.subrange(0, from@.len() as int) =~= s@.subrange(i as int, i + from@.len()));
                }
            }
            assert(rest.drop_first() =~= s@.skip(i + 1));
            out.push(s[i]);
            i = i + 1;
            assert(out@ + replace_all(s@.skip(i as int), from@, to@) =~= replace_all(s@, from@, to@));
        }
    }
    assert(s@.skip(i as int).len() == 0);
    assert(out@ + replace_all(s@.skip(i as int), from@, to@) =~= out@);
    out
}

fn one(c: char) -> (r: Vec<char>)
    ensures
        r@ == seq![c],
{
    let mut r = Vec::new();
    r.push(c);
    r
}

fn two(a: char, b: char) -> (r: Vec<char>)
    ensures
        r@ == seq![a, b],
{
    let mut r = Vec::new();
    r.push(a);
    r.push(b);
    r
}

/// The body of the regular expression for a glob: `.` is escaped, `*`
/// becomes `.*` and `?` becomes `.`.
pub open spec fn glob_body(p: Seq<char>) -> Seq<char> {
    replace_all(replace_all(replace_all(p, seq!['.'], seq!['\\', '.']), seq!['*'], seq!['.', '*']),
        seq!['?'], seq!['.'])
}

/// Computes `glob_body`.
pub fn glob_body_of(p: &Vec<char>) -> (r: Vec<char>)
    ensures
        r@ == glob_body(p@),
{
    let s1 = replace(p, &one('.'), &two('\\', '.'));
    let s2 = replace(&s1, &one('*'), &two('.', '*'));
    replace(&s2, &one('?'), &one('.'))
}

/// The body of the regular expression for a path glob: `/` matches either
/// path separator, `.` is escaped, `**` becomes `.*`, a single `*` matches
/// within one path component and `?` becomes `.`; `§§` stands in for `**`
/// while the single stars are replaced.
pub open spec fn path_glob_body(p: Seq<char>) -> Seq<char> {
    let s0 = replace_all(p, seq!['/'], seq!['[', '/', '\\', '\\', ']']);
    let s1 = replace_all(s0, seq!['.'], seq!['\\', '.']);
    let s2 = replace_all(s1, seq!['*', '*'], seq!['§', '§']);
    let s3 = replace_all(s2, seq!['*'], seq!['[', '^', '/', '\\', '\\', ']', '*']);
    let s4 = replace_all(s3, seq!['§', '§'], seq!['.', '*']);
    replace_all(s4, seq!['?'], seq!['.'])
}

/// Computes `path_glob_body`.
pub fn path_glob_body_of(p: &Vec<char>) -> (r: Vec<char>)
    ensures
        r@ == path_glob_body(p@),
{
    let mut sep: Vec<char> = Vec::new();
    sep.push('[');
    sep.push('/');
    sep.push('\\');
    sep.push('\\');
    sep.push(']');
    assert(sep@ =~= seq!['[', '/', '\\', '\\', ']']);
    let s0 = replace(p, &one('/'), &sep);
    let s1 = replace(&s0, &one('.'), &two('\\', '.'));
    let s2 = replace(&s1, &two('*', '*'), &two('§', '§'));
    let mut cls: Vec<char> = Vec::new();
    cls.push('[');
    cls.push('^');
    cls.push('/');
    cls.push('\\');
    cls.push('\\');
    cls.push(']');
    cls.push('*');
    assert(cls@ =~= seq!['[', '^', '/', '\\', '\\', ']', '*']);
    let s3 = replace(&s2, &one('*'), &cls);
    let s4 = replace(&s3, &two('§', '§'), &two('.', '*'));
    replace(&s4, &one('?'), &one('.'))
}

/// What `regex::Regex::new(re)` followed by `is_match(hay)` gives:
/// `None` when the expression does not compile, else whether it matches.
pub uninterp spec fn regex_match(re: Seq<char>, hay: Seq<char>) -> Option<bool>;

/// Compiles `re` with `regex::Regex::new` and, if it compiles, asks
/// `Regex::is_match` about `hay`. The result is named `regex_match` of the
/// two texts; the regular-expression semantics are not written out.
#[verifier::external_body]
pub(crate) fn regex_is_match(re: &str, hay: &str) -> (r: Option<bool>)
    ensures
        r == regex_match(re@, hay@),
{
    match regex::Regex::new(re) {
        Ok(compiled) => Some(compiled.is_match(hay)),
        Err(_) => None,
    }
}

/// What `url::Url::parse(url)` followed by `host_str()` gives: `None` when
/// the text does not parse as a URL or the URL has no host.
pub uninterp spec fn url_host(url: Seq<char>) -> Option<Seq<char>>;

/// Parses `url` with `url::Url::parse` and takes `Url::host_str` of the
/// result. The result is named `url_host` of the text.
#[verifier::external_body]
pub(crate) fn host_of(url: &str) -> (r: Option<String>)
    ensures
        r matches Some(h) ==> url_host(url@) == Some(h@),
        r is None ==> url_host(url@) is None,
{
    match url::Url::parse(url) {
        Ok(parsed) => parsed.host_str().map(|h| h.to_string()),
        Err(_) => None,
    }
}

/// A glob holds a wildcard (`*` or `?`).
pub open spec fn has_wildcard(p: Seq<char>) -> bool {
    p.contains('*') || p.contains('?')
}

/// The expression a privacy rule's glob stands for: whole-text,
/// case-insensitive.
pub open spec fn privacy_regex(p: Seq<char>) -> Seq<char> {
    seq!['(', '?', 'i', ')', '^'] + glob_body(p) + seq!['$']
}

/// Whether a value matches a privacy pattern: a glob with a wildcard is run
/// as `privacy_regex`; a pattern without one, or one whose expression does
/// not compile, is compared with the value case-insensitively.
pub open spec fn privacy_match(value: Seq<char>, pattern: Seq<char>) -> bool {
    if has_wildcard(pattern) && regex_match(privacy_regex(pattern), value) is Some {
        regex_match(privacy_regex(pattern), value)->0
    } else {
        lowercase(value) == lowercase(pattern)
    }
}

/// Checks a value against a privacy pattern (see `privacy_match`).
pub fn matches_privacy_pattern(value: &str, pattern: &str) -> (r: bool)
    ensures
        r == privacy_match(value@, pattern@),
{
    let p = chars_of(pattern);
    if has_char(&p, '*') || has_char(&p, '?') {
        let mut re: Vec<char> = Vec::new();
        push_str(&mut re, "(?i)^");
        let body = glob_body_of(&p);
        push_chars(&mut re, &body);
        re.push('$');
        proof {
            reveal_strlit("(?i)^");
        }
        assert(re@ =~= privacy_regex(pattern@));
        let rs = string_of(&re);
        match regex_is_match(rs.as_str(), value) {
            Some(b) => {
                return b;
            },
            None => {},
        }
    }
    let lv = to_lowercase(value);
    let lp = to_lowercase(pattern);
    chars_eq(&chars_of(lv.as_str()), &chars_of(lp.as_str()))
}

/// The expression an event pipeline glob stands for: whole-text,
/// case-sensitive.
pub open spec fn anchored_regex(p: Seq<char>) -> Seq<char> {
    seq!['^'] + glob_body(p) + seq!['$']
}

/// Whether a value matches a pipeline pattern: a glob with `*` is run as
/// `anchored_regex`; otherwise, or when it does not compile, the value must
/// equal the pattern.
pub open spec fn pipeline_match(value: Seq<char>, pattern: Seq<char>) -> bool {
    if pattern.contains('*') && regex_match(anchored_regex(pattern), value) is Some {
        regex_match(anchored_regex(pattern), value)->0
    } else {
        value == pattern
    }
}

/// Checks a value against a pipeline pattern (see `pipeline_match`).
pub fn matches_pipeline_pattern(value: &str, pattern: &str) -> (r: bool)
    ensures
        r == pipeline_match(value@, pattern@),
{
    let p = chars_of(pattern);
    if has_char(&p, '*') {
        let mut re: Vec<char> = Vec::new();
        re.push('^');
        let body = glob_body_of(&p);
        push_chars(&mut re, &body);
        re.push('$');
        assert(re@ =~= anchored_regex(pattern@));
        let rs = string_of(&re);
        match regex_is_match(rs.as_str(), value) {
            Some(b) => {
                return b;
            },
            None => {},
        }
    }
    chars_eq(&chars_of(value), &p)
}

/// The expression a path-exclusion glob stands for: case-insensitive and
/// matching anywhere in the path.
pub open spec fn path_regex(p: Seq<char>) -> Seq<char> {
    seq!['(', '?', 'i', ')'] + path_glob_body(p)
}

/// One path-exclusion pattern excludes a path: a glob with `*` whose
/// expression compiles and matches, or a pattern without `*` that occurs in
/// the path.
pub open spec fn path_pattern_excludes(path: Seq<char>, pattern: Seq<char>) -> bool {
    if pattern.contains('*') {
        regex_match(path_regex(pattern), path) == Some(true)
    } else {
        contains_seq(path, pattern)
    }
}

/// Whether some pattern excludes the path.
pub open spec fn path_excluded(path: Seq<char>, patterns: Seq<String>) -> bool {
    exists|i: int| 0 <= i < patterns.len() && path_pattern_excludes(path, #[trigger] patterns[i]@)
}

/// Whether a path is excluded by any of the patterns (file collector rule).
pub fn is_path_excluded(path: &str, patterns: &Vec<String>) -> (r: bool)
    ensures
        r == path_excluded(path@, patterns@),
{
    let pv = chars_of(path);
    let mut i: usize = 0;
    while i < patterns.len()
        invariant
            i <= patterns@.len(),
            pv@ == path@,
            forall|j: int| 0 <= j < i ==> !path_pattern_excludes(path@, #[trigger] patterns@[j]@),
        decreases patterns@.len() - i,
    {
        let pat = chars_of(patterns[i].as_str());
        if has_char(&pat, '*') {
            let mut re: Vec<char> = Vec::new();
            push_str(&mut re, "(?i)");
            let body = path_glob_body_of(&pat);
            push_chars(&mut re, &body);
            proof {
                reveal_strlit("(?i)");
            }
            assert(re@ =~= path_regex(patterns@[i as int]@));
            let rs = string_of(&re);
            match regex_is_match(rs.as_str(), path) {
                Some(true) => {
                    return true;
                },
                _ => {},
            }
        } else if contains(&pv, &pat) {
            return true;
        }
        i = i + 1;
    }
    false
}

/// One domain pattern covers a (lowercased) host: `*.example.com` covers
/// `example.com` and every host ending in `.example.com`; any other pattern
/// must equal the host. Patterns are compared lowercased.
pub open spec fn domain_pattern_covers(host: Seq<char>, pattern: Seq<char>) -> bool {
    let pat = lowercase(pattern);
    if starts_with(pat, seq!['*', '.']) {
        ends_with(host, pat.skip(1)) || host == pat.skip(2)
    } else {
        host == pat
    }
}

/// Whether a visited URL is excluded: its host, lowercased, is covered by
/// some pattern. A URL without a host is never excluded.
pub open spec fn url_excluded(url: Seq<char>, patterns: Seq<String>) -> bool {
    match url_host(url) {
        Some(host) => exists|i: int|
            0 <= i < patterns.len() && domain_pattern_covers(lowercase(host), #[trigger] patterns[i]@),
        None => false,
    }
}

/// A wildcard domain pattern `*.d` excludes every visit whose lowercased
/// host is `d` itself or ends in `.d`.
pub proof fn lemma_wildcard_domain_excludes(url: Seq<char>, patterns: Seq<String>, i: int, d: Seq<char>)
    requires
        0 <= i < patterns.len(),
        lowercase(patterns[i]@) == seq!['*', '.'] + d,
        url_host(url) matches Some(h) && (lowercase(h) == d || ends_with(lowercase(h), seq!['.'] + d)),
    ensures
        url_excluded(url, patterns),
{
    let pat = lowercase(patterns[i]@);
    assert(pat.subrange(0, 2) =~= seq!['*', '.']);
    assert(pat.skip(1) =~= seq!['.'] + d);
    assert(pat.skip(2) =~= d);
    assert(domain_pattern_covers(lowercase(url_host(url)->0), patterns[i]@));
}

/// A pattern without a leading `*.` excludes exactly the visits to its own
/// host, compared lowercased.
pub proof fn lemma_plain_domain_excludes(url: Seq<char>, patterns: Seq<String>, i: int)
    requires
        0 <= i < patterns.len(),
        !starts_with(lowercase(patterns[i]@), seq!['*', '.']),
        url_host(url) matches Some(h) && lowercase(h) == lowercase(patterns[i]@),
    ensures
        url_excluded(url, patterns),
{
    assert(domain_pattern_covers(lowercase(url_host(url)->0), patterns[i]@));
}

/// A visit is excluded only when its URL has a host and some pattern covers
/// the lowercased host: a pattern `*.d` when the host is `d` or ends in
/// `.d`, any other pattern when it is the host.
pub proof fn lemma_excluded_has_cover(url: Seq<char>, patterns: Seq<String>)
    requires
        url_excluded(url, patterns),
    ensures
        url_host(url) matches Some(h) && exists|i: int| 0 <= i < patterns.len() && {
            let pat = #[trigger] lowercase(patterns[i]@);
            if starts_with(pat, seq!['*', '.']) {
                ends_with(lowercase(h), pat.skip(1)) || lowercase(h) == pat.skip(2)
            } else {
                lowercase(h) == pat
            }
        },
{
    let h = url_host(url)->0;
    let i = choose|i: int| 0 <= i < patterns.len() && domain_pattern_covers(lowercase(h), #[trigger] patterns[i]@);
    assert(lowercase(patterns[i]@) == lowercase(patterns[i]@));
}

/// Whether a visited URL is excluded by the domain patterns (browser
/// collector rule).
pub fn is_url_excluded(url: &str, patterns: &Vec<String>) -> (r: bool)
    ensures
        r == url_excluded(url@, patterns@),
{
    let host = match host_of(url) {
        Some(h) => h,
        None => {
            return false;
        },
    };
    let hl = to_lowercase(host.as_str());
    let hv = chars_of(hl.as_str());
    let mut i: usize = 0;
    while i < patterns.len()
        invariant
            i <= patterns@.len(),
            url_host(url@) == Some(host@),
            hv@ == lowercase(host@),
            forall|j: int| 0 <= j < i ==> !domain_pattern_covers(hv@, #[trigger] patterns@[j]@),
        decreases patterns@.len() - i,
    {
        let pl = to_lowercase(patterns[i].as_str());
        let pat = chars_of(pl.as_str());
        if has_prefix(&pat, &two('*', '.')) {
            let suffix = slice_chars(&pat, 1, pat.len());
            let rest = slice_chars(&pat, 2, pat.len());
            assert(suffix@ =~= pat@.skip(1));
            assert(rest@ =~= pat@.skip(2));
            if has_suffix(&hv, &suffix) || chars_eq(&hv, &rest) {
                return true;
            }
        } else if chars_eq(&hv, &pat) {
            return true;
        }
        i = i + 1;
    }
    false
}

} // verus!
