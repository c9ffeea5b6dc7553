//! The regular expressions of the library, matched by the `regex` crate.
use vstd::prelude::*;
use crate::common::text::first_index;

verus! {

/// A character of `[a-zA-Z0-9.\-_]`.
pub open spec fn is_component_name_char(c: char) -> bool {
    ('a' <= c && c <= 'z') || ('A' <= c && c <= 'Z') || ('0' <= c && c <= '9') || c == '.'
        || c == '-' || c == '_'
}

/// `s` matches `^[a-zA-Z0-9.\-_]+$`, the shape of a component name.
pub open spec fn is_component_name(s: Seq<char>) -> bool {
    s.len() > 0 && forall|i: int| 0 <= i < s.len() ==> is_component_name_char(#[trigger] s[i])
}

/// A component name is a non-empty run of ASCII letters, digits, `.`, `-`
/// and `_`, and nothing else.
pub proof fn law_component_name(s: Seq<char>)
    ensures
        is_component_name(s) <==> (s.len() > 0 && forall|i: int|
            #![trigger s[i]]
            0 <= i < s.len() ==> (('a' <= s[i] && s[i] <= 'z') || ('A' <= s[i] && s[i] <= 'Z') || ('0' <= s[i] && s[i]
                <= '9') || s[i] == '.' || s[i] == '-' || s[i] == '_')),
{
}

/// `s` matches `^[1-5]XX$`, a wildcard response status range.
pub open spec fn is_status_range(s: Seq<char>) -> bool {
    s.len() == 3 && '1' <= s[0] && s[0] <= '5' && s[1] == 'X' && s[2] == 'X'
}

/// Whether `s` matches `^3\.0\.\d+(-.+)?$` (with the crate's Unicode-aware `\d`
/// and `.`): what the `regex` crate answers is named, not restated.
pub uninterp spec fn matches_version_3_0(s: Seq<char>) -> bool;

/// `str::to_lowercase` of `s` (full Unicode case mapping): named, not restated.
pub uninterp spec fn lowercase(s: Seq<char>) -> Seq<char>;

/// The match of `\{([^}]+)\}` that starts at the front of `s`, if any: the end
/// position of the closing `}`.
pub open spec fn brace_match_end(s: Seq<char>) -> Option<int> {
    let j = first_index(s, '}');
    if s.len() > 0 && s[0] == '{' && 2 <= j < s.len() {
        Some(j)
    } else {
        None
    }
}

/// The capture groups of the successive non-overlapping matches of
/// `\{([^}]+)\}` in `s`, scanning from the left: the names of a path
/// template's `{name}` placeholders, in order of appearance.
pub open spec fn template_vars(s: Seq<char>) -> Seq<Seq<char>>
    decreases s.len(),
{
    if s.len() == 0 {
        seq![]
    } else {
        match brace_match_end(s) {
            Some(j) => seq![s.subrange(1, j)] + template_vars(s.skip(j + 1)),
            None => template_vars(s.drop_first()),
        }
    }
}

/// `s` with every match of `\{[^}]+\}` replaced by `{}`, scanning from the left.
pub open spec fn canonical_template(s: Seq<char>) -> Seq<char>
    decreases s.len(),
{
    if s.len() == 0 {
        s
    } else {
        match brace_match_end(s) {
            Some(j) => seq!['{', '}'] + canonical_template(s.skip(j + 1)),
            None => seq![s[0]] + canonical_template(s.drop_first()),
        }
    }
}

/// The views of a list of strings.
pub open spec fn views(v: Seq<String>) -> Seq<Seq<char>> {
    v.map_values(|x: String| x@)
}

/// `regex::Regex::is_match` for `^[a-zA-Z0-9.\-_]+$`: whether every character
/// of the non-empty `name` is an ASCII letter, digit, `.`, `-` or `_`.
#[verifier::external_body]
pub(crate) fn component_name_matches(name: &str) -> (res: bool)
    ensures
        res == is_component_name(name@),
{
    regex::Regex::new(r"^[a-zA-Z0-9.\-_]+$").unwrap().is_match(name)
}

/// `regex::Regex::is_match` for `^[1-5]XX$`: whether `key` is one of `1XX` .. `5XX`.
#[verifier::external_body]
pub(crate) fn status_range_matches(key: &str) -> (res: bool)
    ensures
        res == is_status_range(key@),
{
    regex::Regex::new(r"^[1-5]XX$").unwrap().is_match(key)
}

/// `regex::Regex::is_match` for `^3\.0\.\d+(-.+)?$`; the answer is the named
/// `matches_version_3_0` of the input, nothing more is claimed of it.
#[verifier::external_body]
pub(crate) fn version_3_0_matches(s: &str) -> (res: bool)
    ensures
        res == matches_version_3_0(s@),
{
    regex::Regex::new(r"^3\.0\.\d+(-.+)?$").unwrap().is_match(s)
}

/// `regex::Regex::captures_iter` for `\{([^}]+)\}`, keeping capture group 1 of
/// each match: the contract states the leftmost-first, non-overlapping scan.
#[verifier::external_body]
pub(crate) fn template_variables(template: &str) -> (res: Vec<String>)
    ensures
        views(res@) == template_vars(template@),
{
    let re = regex::Regex::new(r"\{([^}]+)\}").unwrap();
    re.captures_iter(template).map(|c| c.get(1).unwrap().as_str().to_owned()).collect()
}

/// `regex::Regex::replace_all` of `\{[^}]+\}` by the literal `{}`.
#[verifier::external_body]
pub(crate) fn canonical_path(template: &str) -> (res: String)
    ensures
        res@ == canonical_template(template@),
{
    regex::Regex::new(r"\{[^}]+\}").unwrap().replace_all(template, "{}").into_owned()
}

/// The ASCII lowercase of an ASCII character: `A`..`Z` become `a`..`z`.
pub open spec fn ascii_lower(c: char) -> char {
    if 'A' <= c && c <= 'Z' {
        ((c as u32) + 32) as char
    } else {
        c
    }
}

/// `str::to_lowercase`; the result is the named `lowercase` of the input.
/// Where every character of the input is ASCII, std's documentation gives
/// the result: each character in its ASCII lowercase.
#[verifier::external_body]
pub(crate) fn to_lowercase(s: &str) -> (res: String)
    ensures
        res@ == lowercase(s@),
        (forall|i: int| 0 <= i < s@.len() ==> (#[trigger] s@[i] as u32) < 128) ==> res@ == s@.map_values(
            |c: char| ascii_lower(c),
        ),
{
    s.to_lowercase()
}


/// The length of the run of `[a-zA-Z0-9.\-_]` characters at the front of `s`.
pub open spec fn name_run(s: Seq<char>) -> nat
    decreases s.len(),
{
    if s.len() > 0 && is_component_name_char(s[0]) {
        1 + name_run(s.drop_first())
    } else {
        0
    }
}

/// The match of `\{([a-zA-Z0-9.\-_]+)}` that starts at the front of `s`, if
/// any: the position of the closing `}`.
pub open spec fn server_var_match_end(s: Seq<char>) -> Option<int> {
    let n = name_run(s.drop_first()) as int;
    if s.len() > 0 && s[0] == '{' && n >= 1 && n + 1 < s.len() && s[n + 1] == '}' {
        Some(n + 1)
    } else {
        None
    }
}

/// The capture groups of the successive non-overlapping matches of
/// `\{([a-zA-Z0-9.\-_]+)}` in `s`, scanning from the left: the variables
/// that a server URL names.
pub open spec fn server_vars(s: Seq<char>) -> Seq<Seq<char>>
    decreases s.len(),
{
    if s.len() == 0 {
        seq![]
    } else {
        match server_var_match_end(s) {
            Some(j) => seq![s.subrange(1, j)] + server_vars(s.skip(j + 1)),
            None => server_vars(s.drop_first()),
        }
    }
}

/// `regex::Regex::captures_iter` for `\{([a-zA-Z0-9.\-_]+)}`, keeping
/// capture group 1 of each match: the contract states the leftmost-first,
/// non-overlapping scan.
#[verifier::external_body]
pub(crate) fn server_url_variables(url: &str) -> (res: Vec<String>)
    ensures
        views(res@) == server_vars(url@),
{
    let re = regex::Regex::new(r"\{([a-zA-Z0-9.\-_]+)}").unwrap();
    re.captures_iter(url).map(|c| c.get(1).unwrap().as_str().to_owned()).collect()
}


/// Whether `regex::Regex::new` accepts `p`: named, not restated.
pub uninterp spec fn regex_compiles(p: Seq<char>) -> bool;

/// `regex::Regex::new(p).is_ok()`: whether the `regex` crate compiles the
/// pattern `p`; the answer is the named `regex_compiles` of the input.
#[verifier::external_body]
pub(crate) fn pattern_compiles(p: &str) -> (res: bool)
    ensures
        res == regex_compiles(p@),
{
    regex::Regex::new(p).is_ok()
}

} // verus!
