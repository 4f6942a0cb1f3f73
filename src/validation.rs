use vstd::prelude::*;
use crate::text::{chars_of, lower_of, lowercase, split, split_chars, string_of};

verus! {

/// Whether `regex::Regex::new` accepts `pattern`.
pub uninterp spec fn regex_valid(pattern: Seq<char>) -> bool;

/// Whether the regex compiled from `pattern` matches somewhere in `text`.
pub uninterp spec fn regex_accepts(pattern: Seq<char>, text: Seq<char>) -> bool;

/// Relies on `regex::Regex::new`, which fails exactly on patterns it does
/// not accept, and on `regex::Regex::is_match`, whose verdict depends on the
/// pattern and the text alone.
#[verifier::external_body]
fn regex_is_match(pattern: &str, text: &str) -> (r: Option<bool>)
    ensures
        r is Some <==> regex_valid(pattern@),
        r matches Some(b) ==> b == regex_accepts(pattern@, text@),
{
    match regex::Regex::new(pattern) {
        Ok(re) => Some(re.is_match(text)),
        Err(_) => None,
    }
}

/// The pattern that package names must match as a whole.
pub open spec fn package_name_pattern() -> Seq<char> {
    "^[a-zA-Z0-9_-]+$"@
}

/// The pattern that version strings must match as a whole.
pub open spec fn version_pattern() -> Seq<char> {
    "^\\d+(\\.\\d+)*([a-zA-Z0-9\\-\\.]*)?$"@
}

/// Whether `name` is made of ASCII letters, digits, `_` and `-` only, and is
/// not empty, by the package-name pattern.
pub fn is_valid_package_name(name: &str) -> (r: bool)
    ensures
        r == (regex_valid(package_name_pattern()) && regex_accepts(package_name_pattern(), name@)),
{
    match regex_is_match("^[a-zA-Z0-9_-]+$", name) {
        Some(b) => b,
        None => false,
    }
}

/// Whether `version` is dotted numbers with an optional suffix, by the
/// version pattern.
pub fn is_valid_version(version: &str) -> (r: bool)
    ensures
        r == (regex_valid(version_pattern()) && regex_accepts(version_pattern(), version@)),
{
    match regex_is_match("^\\d+(\\.\\d+)*([a-zA-Z0-9\\-\\.]*)?$", version) {
        Some(b) => b,
        None => false,
    }
}

/// `c` with `_` written as `-`.
pub open spec fn dash_for_underscore(c: char) -> char {
    if c == '_' {
        '-'
    } else {
        c
    }
}

/// A package name in normal form: lower case, with `-` for `_`.
pub open spec fn normalized_name(name: Seq<char>) -> Seq<char> {
    lower_of(name).map_values(|c: char| dash_for_underscore(c))
}

/// Lowers `name` and writes `-` for `_`.
pub fn normalize_package_name(name: &str) -> (r: String)
    ensures
        r@ == normalized_name(name@),
{
    let lower = lowercase(name);
    normalize_lowered_name(lower.as_str())
}

/// Writes `-` for each `_` of a name that is already lower case.
pub fn normalize_lowered_name(lower: &str) -> (r: String)
    ensures
        r@ == lower@.map_values(|c: char| dash_for_underscore(c)),
{
    let cs = chars_of(lower);
    let mut out: Vec<char> = Vec::new();
    let mut i: usize = 0;
    while i < cs.len()
        invariant
            i <= cs@.len(),
            out@ == cs@.take(i as int).map_values(|c: char| dash_for_underscore(c)),
        decreases cs@.len() - i,
    {
        let c = cs[i];
        out.push(if c == '_' { '-' } else { c });
        assert(out@ =~= cs@.take(i + 1).map_values(|c: char| dash_for_underscore(c)));
        i = i + 1;
    }
    assert(cs@.take(i as int) =~= cs@);
    string_of(&out)
}

/// The path as given; paths are carried as strings.
pub fn sanitize_path(path: &str) -> (r: String)
    ensures
        r@ == path@,
{
    path.to_owned()
}

/// Whether a `/`-separated path has no `..` component, so that it cannot
/// climb out of the directory it is resolved against.
pub open spec fn safe_path(path: Seq<char>) -> bool {
    forall|i: int| 0 <= i < split(path, '/').len() ==> #[trigger] split(path, '/')[i] != seq!['.', '.']
}

/// Whether `path` has no parent-directory component.
pub fn is_safe_path(path: &str) -> (r: bool)
    ensures
        r == safe_path(path@),
{
    let cs = chars_of(path);
    let parts = split_chars(&cs, '/');
    let mut i: usize = 0;
    while i < parts.len()
        invariant
            i <= parts@.len(),
            cs@ == path@,
            parts@.len() == split(cs@, '/').len(),
            forall|k: int| 0 <= k < parts@.len() ==> #[trigger] parts@[k]@ == split(cs@, '/')[k],
            forall|k: int| 0 <= k < i ==> #[trigger] split(cs@, '/')[k] != seq!['.', '.'],
        decreases parts@.len() - i,
    {
        let p = &parts[i];
        if p.len() == 2 && p[0] == '.' && p[1] == '.' {
            assert(p@ =~= seq!['.', '.']);
            return false;
        }
        assert(p@ != seq!['.', '.']) by {
            if p@ == seq!['.', '.'] {
                assert(p@[0] == '.' && p@[1] == '.');
            }
        }
        i = i + 1;
    }
    true
}

} // verus!
