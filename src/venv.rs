use vstd::prelude::*;
use crate::models::VenvInfo;
use crate::reconcile::opt_view;
use crate::text::{chars_of, slice_chars, split, split_chars, starts_with, starts_with_chars, string_of};

verus! {

/// A line as `str::lines` gives it: without one trailing carriage return.
pub open spec fn line_text(piece: Seq<char>) -> Seq<char> {
    if piece.len() > 0 && piece.last() == '\r' {
        piece.drop_last()
    } else {
        piece
    }
}

/// The value of the last line of `lines` that begins with `key`.
pub open spec fn last_value(lines: Seq<Seq<char>>, key: Seq<char>) -> Option<Seq<char>>
    decreases lines.len(),
{
    if lines.len() == 0 {
        None
    } else {
        let l = line_text(lines.last());
        if starts_with(l, key) {
            Some(l.skip(key.len() as int))
        } else {
            last_value(lines.drop_last(), key)
        }
    }
}

/// The value of the first line of `lines` that begins with `key`.
pub open spec fn first_value(lines: Seq<Seq<char>>, key: Seq<char>) -> Option<Seq<char>>
    decreases lines.len(),
{
    if lines.len() == 0 {
        None
    } else {
        let l = line_text(lines[0]);
        if starts_with(l, key) {
            Some(l.skip(key.len() as int))
        } else {
            first_value(lines.drop_first(), key)
        }
    }
}

/// The `home` that a marker file records (empty when it records none).
pub open spec fn cfg_home(contents: Seq<char>) -> Seq<char> {
    match last_value(split(contents, '\n'), "home = "@) {
        Some(h) => h,
        None => Seq::empty(),
    }
}

/// The `prompt` that a marker file records.
pub open spec fn cfg_prompt(contents: Seq<char>) -> Option<Seq<char>> {
    last_value(split(contents, '\n'), "prompt = "@)
}

fn line_text_chars(piece: &Vec<char>) -> (r: Vec<char>)
    ensures
        r@ == line_text(piece@),
{
    let n = piece.len();
    if n > 0 && piece[n - 1] == '\r' {
        let r = slice_chars(piece, 0, n - 1);
        assert(r@ =~= piece@.drop_last());
        r
    } else {
        slice_chars(piece, 0, n)
    }
}

fn line_value(lines: &Vec<Vec<char>>, key: &Vec<char>, last: bool) -> (r: Option<Vec<char>>)
    ensures
        ({
            let ls = lines@.map_values(|v: Vec<char>| v@);
            let want = if last { last_value(ls, key@) } else { first_value(ls, key@) };
            match want {
                Some(v) => r matches Some(x) && x@ == v,
                None => r is None,
            }
        }),
{
    let ghost ls = lines@.map_values(|v: Vec<char>| v@);
    let n = lines.len();
    let mut k: usize = 0;
    assert(ls.take(n as int) =~= ls && ls.skip(0) =~= ls);
    while k < n
        invariant
            n == lines@.len(),
            k <= n,
            ls == lines@.map_values(|v: Vec<char>| v@),
            last ==> last_value(ls, key@) == last_value(ls.take(n - k), key@),
            !last ==> first_value(ls, key@) == first_value(ls.skip(k as int), key@),
        decreases n - k,
    {
        let i = if last { n - 1 - k } else { k };
        let l = line_text_chars(&lines[i]);
        if last {
            assert(ls.take(n - k).drop_last() =~= ls.take(n - k - 1));
            assert(ls.take(n - k).last() == lines@[i as int]@);
        } else {
            assert(ls.skip(k as int).drop_first() =~= ls.skip(k + 1));
            assert(ls.skip(k as int)[0] == lines@[i as int]@);
        }
        if starts_with_chars(&l, key) {
            let ln = l.len();
            let v = slice_chars(&l, key.len(), ln);
            assert(v@ =~= l@.skip(key@.len() as int));
            return Some(v);
        }
        k = k + 1;
    }
    assert(ls.take(0) =~= Seq::<Seq<char>>::empty());
    assert(ls.skip(n as int) =~= Seq::<Seq<char>>::empty());
    None
}

fn split_lines(contents: &str) -> (r: Vec<Vec<char>>)
    ensures
        r@.map_values(|v: Vec<char>| v@) == split(contents@, '\n'),
{
    let cs = chars_of(contents);
    let r = split_chars(&cs, '\n');
    assert(r@.map_values(|v: Vec<char>| v@) =~= split(contents@, '\n'));
    r
}

/// The `home` and `prompt` entries of a venv marker file; when a key occurs
/// more than once the last occurrence counts.
pub fn parse_pyvenv_cfg(contents: &str) -> (r: (String, Option<String>))
    ensures
        r.0@ == cfg_home(contents@),
        match cfg_prompt(contents@) {
            Some(p) => r.1 matches Some(x) && x@ == p,
            None => r.1 is None,
        },
{
    let lines = split_lines(contents);
    let home_key = chars_of("home = ");
    let prompt_key = chars_of("prompt = ");
    let home = match line_value(&lines, &home_key, true) {
        Some(h) => string_of(&h),
        None => String::new(),
    };
    let prompt = match line_value(&lines, &prompt_key, true) {
        Some(p) => Some(string_of(&p)),
        None => None,
    };
    (home, prompt)
}

/// The base that a venv's marker file names: the value of its first `home`
/// line, or the directory that holds the marker when the file could not be
/// read or names none.
pub fn venv_base_from_cfg(dir: &str, contents: Option<&str>) -> (r: String)
    ensures
        r@ == match contents {
            Some(c) => match first_value(split(c@, '\n'), "home = "@) {
                Some(h) => h,
                None => dir@,
            },
            None => dir@,
        },
{
    match contents {
        Some(c) => {
            let lines = split_lines(c);
            let key = chars_of("home = ");
            match line_value(&lines, &key, false) {
                Some(h) => string_of(&h),
                None => dir.to_owned(),
            }
        },
        None => dir.to_owned(),
    }
}

/// How many directories above an interpreter are searched for a marker file.
pub const VENV_SEARCH_DEPTH: usize = 5;

/// The nearest of the directories above an interpreter (`marked[0]` being its
/// own directory, then each parent in turn) that holds a marker file, among
/// the first `VENV_SEARCH_DEPTH` of them.
pub fn nearest_marker_level(marked: &Vec<bool>) -> (r: Option<usize>)
    ensures
        match r {
            Some(i) => i < VENV_SEARCH_DEPTH && i < marked@.len() && marked@[i as int] && forall|j: int|
                0 <= j < i ==> !#[trigger] marked@[j],
            None => forall|j: int|
                0 <= j < marked@.len() && j < VENV_SEARCH_DEPTH ==> !#[trigger] marked@[j],
        },
{
    let mut i: usize = 0;
    while i < marked.len() && i < VENV_SEARCH_DEPTH
        invariant
            i <= marked@.len(),
            i <= VENV_SEARCH_DEPTH,
            forall|j: int| 0 <= j < i ==> !#[trigger] marked@[j],
        decreases marked@.len() - i,
    {
        if marked[i] {
            return Some(i);
        }
        i = i + 1;
    }
    None
}

/// Whether a directory is a usable venv: its marker file and the interpreter
/// inside it must both exist.
pub fn is_recognized_venv(marker_exists: bool, interpreter_exists: bool) -> (r: bool)
    ensures
        r == (marker_exists && interpreter_exists),
{
    marker_exists && interpreter_exists
}

/// The record of the venv at `path`, whose interpreter would be at
/// `python_path`: none unless both the marker file and the interpreter exist.
/// `cfg` is the marker file's text, if it could be read.
pub fn examine_venv(
    path: &str,
    python_path: &str,
    marker_exists: bool,
    cfg: Option<&str>,
    interpreter_exists: bool,
) -> (r: Option<VenvInfo>)
    ensures
        r is Some <==> (marker_exists && interpreter_exists),
        r matches Some(v) ==> {
            &&& v.path@ == path@
            &&& v.python_path@ == python_path@
            &&& v.home@ == match cfg {
                Some(c) => cfg_home(c@),
                None => Seq::empty(),
            }
            &&& opt_view(v.prompt) == match cfg {
                Some(c) => cfg_prompt(c@),
                None => None,
            }
        },
{
    if !is_recognized_venv(marker_exists, interpreter_exists) {
        return None;
    }
    let (home, prompt) = match cfg {
        Some(c) => parse_pyvenv_cfg(c),
        None => (String::new(), None),
    };
    Some(VenvInfo { path: path.to_owned(), python_path: python_path.to_owned(), home, prompt })
}

/// Whether some record of `venvs` has the path `p`.
pub open spec fn has_path(venvs: Seq<VenvInfo>, p: Seq<char>) -> bool {
    exists|i: int| 0 <= i < venvs.len() && (#[trigger] venvs[i]).path@ == p
}

/// Adds `v` unless a record with the same path is already there.
pub fn add_venv_unique(venvs: &mut Vec<VenvInfo>, v: VenvInfo)
    ensures
        has_path(old(venvs)@, v.path@) ==> final(venvs)@ == old(venvs)@,
        !has_path(old(venvs)@, v.path@) ==> final(venvs)@ == old(venvs)@.push(v),
{
    let mut i: usize = 0;
    while i < venvs.len()
        invariant
            i <= venvs@.len(),
            venvs@ == old(venvs)@,
            forall|k: int| 0 <= k < i ==> (#[trigger] venvs@[k]).path@ != v.path@,
        decreases venvs@.len() - i,
    {
        if venvs[i].path == v.path {
            return;
        }
        i = i + 1;
    }
    venvs.push(v);
}

} // verus!
