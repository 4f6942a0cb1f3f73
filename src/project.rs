use vstd::prelude::*;
use crate::discovery::strings_view;

verus! {

/// The manifest files a project directory may hold, in reporting order.
pub open spec fn project_file_names() -> Seq<Seq<char>> {
    seq![
        "pyproject.toml"@,
        "requirements.txt"@,
        "requirements-dev.txt"@,
        "setup.py"@,
        "Pipfile"@,
        "poetry.lock"@,
    ]
}

/// The names among `names` whose flag is set, in order.
pub open spec fn flagged(names: Seq<Seq<char>>, flags: Seq<bool>) -> Seq<Seq<char>>
    decreases names.len(),
{
    if names.len() == 0 || flags.len() != names.len() {
        Seq::empty()
    } else {
        let prev = flagged(names.drop_last(), flags.drop_last());
        if flags.last() {
            prev.push(names.last())
        } else {
            prev
        }
    }
}

/// The manifest file names that a project directory is checked for.
pub fn project_file_candidates() -> (r: Vec<String>)
    ensures
        strings_view(r@) == project_file_names(),
{
    let v = vec![
        "pyproject.toml".to_owned(),
        "requirements.txt".to_owned(),
        "requirements-dev.txt".to_owned(),
        "setup.py".to_owned(),
        "Pipfile".to_owned(),
        "poetry.lock".to_owned(),
    ];
    assert(strings_view(v@) =~= project_file_names());
    v
}

/// The manifest files found: `exists[i]` tells whether the `i`-th candidate
/// of `project_file_candidates` is present.
pub fn present_project_files(exists: &Vec<bool>) -> (r: Vec<String>)
    requires
        exists@.len() == project_file_names().len(),
    ensures
        strings_view(r@) == flagged(project_file_names(), exists@),
{
    let names = project_file_candidates();
    let mut out: Vec<String> = Vec::new();
    let mut i: usize = 0;
    while i < names.len()
        invariant
            i <= names@.len(),
            names@.len() == exists@.len(),
            strings_view(names@) == project_file_names(),
            strings_view(out@) == flagged(
                project_file_names().take(i as int),
                exists@.take(i as int),
            ),
        decreases names@.len() - i,
    {
        let ghost ns = project_file_names();
        assert(ns.take(i + 1).drop_last() =~= ns.take(i as int));
        assert(exists@.take(i + 1).drop_last() =~= exists@.take(i as int));
        assert(ns.take(i + 1).last() == names@[i as int]@);
        if exists[i] {
            out.push(names[i].clone());
            assert(strings_view(out@) =~= flagged(ns.take(i + 1), exists@.take(i + 1)));
        }
        i = i + 1;
    }
    assert(project_file_names().take(i as int) =~= project_file_names());
    assert(exists@.take(i as int) =~= exists@);
    out
}

} // verus!
