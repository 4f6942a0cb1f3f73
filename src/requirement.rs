use vstd::prelude::*;
use crate::models::{DependencyStatus, ProjectDependency};
use crate::text::{
    lemma_before_char_lacks, lemma_trim_within, before_char, before_char_exec, chars_of, find_chars, find_from, slice_chars, split,
    split_chars, starts_with, starts_with_chars, string_of, strip_both, strip_both_chars, trim,
    trim_chars,
};

verus! {

/// The version operators, in the order in which they are looked for.
pub open spec fn operator(k: int) -> Seq<char> {
    if k == 0 {
        seq!['=', '=']
    } else if k == 1 {
        seq!['>', '=']
    } else if k == 2 {
        seq!['<', '=']
    } else if k == 3 {
        seq!['>']
    } else {
        seq!['<']
    }
}

/// The split of `req` at the first operator from the `k`-th on that occurs in
/// it; with none, the whole text is the name and the specifier is `*`.
pub open spec fn split_from_operator(req: Seq<char>, k: int) -> (Seq<char>, Seq<char>)
    decreases 5 - k,
{
    if k < 0 || k >= 5 {
        (trim(before_char(req, '[')), seq!['*'])
    } else {
        match find_from(req, operator(k), 0) {
            Some(i) => (
                before_char(trim(req.take(i)), '['),
                operator(k) + trim(req.skip(i + operator(k).len())),
            ),
            None => split_from_operator(req, k + 1),
        }
    }
}

/// The name and specifier of one requirement expression.
pub open spec fn requirement(req: Seq<char>) -> (Seq<char>, Seq<char>) {
    split_from_operator(req, 0)
}

/// The requirement that a manifest line declares: none for a blank line, a
/// comment or a flag.
pub open spec fn line_requirement(line: Seq<char>) -> Option<(Seq<char>, Seq<char>)> {
    let t = trim(line);
    if t.len() == 0 || t[0] == '#' || t[0] == '-' {
        None
    } else {
        Some(requirement(t))
    }
}

/// The requirements of a line-oriented requirements file, one per line that
/// declares one, in order.
pub open spec fn requirements_file(contents: Seq<char>) -> Seq<(Seq<char>, Seq<char>)> {
    split(contents, '\n').filter_map(|l: Seq<char>| line_requirement(l))
}

/// Whether a manifest line declares a requirement: it is not blank, a comment
/// or a flag.
pub open spec fn declares_requirement(line: Seq<char>) -> bool {
    line_requirement(line) is Some
}

proof fn lemma_split_from_operator_name(req: Seq<char>, k: int)
    ensures
        !split_from_operator(req, k).0.contains('['),
    decreases 5 - k,
{
    if k < 0 || k >= 5 {
        lemma_before_char_lacks(req, '[');
        lemma_trim_within(before_char(req, '['), '[');
    } else {
        match find_from(req, operator(k), 0) {
            Some(i) => lemma_before_char_lacks(trim(req.take(i)), '['),
            None => lemma_split_from_operator_name(req, k + 1),
        }
    }
}

/// A requirement's name never keeps a bracketed extras suffix.
pub proof fn law_requirement_name_has_no_extras(req: Seq<char>)
    ensures
        !requirement(req).0.contains('['),
{
    lemma_split_from_operator_name(req, 0);
}

proof fn lemma_one_per_line(lines: Seq<Seq<char>>)
    ensures
        lines.filter_map(|l: Seq<char>| line_requirement(l)).len()
            == lines.filter(|l: Seq<char>| declares_requirement(l)).len(),
    decreases lines.len(),
{
    reveal(Seq::filter);
    if lines.len() > 0 {
        lemma_one_per_line(lines.drop_last());
    }
}

/// Each line of a requirements file that is not blank, a comment or a flag
/// declares exactly one requirement, and the others declare none.
pub proof fn law_one_requirement_per_line(contents: Seq<char>)
    ensures
        requirements_file(contents).len() == split(contents, '\n').filter(
            |l: Seq<char>| declares_requirement(l),
        ).len(),
        forall|i: int|
            0 <= i < requirements_file(contents).len() ==> !(#[trigger] requirements_file(
                contents,
            )[i]).0.contains('['),
{
    lemma_one_per_line(split(contents, '\n'));
    assert forall|i: int|
        0 <= i < requirements_file(contents).len() implies !(#[trigger] requirements_file(
            contents,
        )[i]).0.contains('[') by {
        let ls = split(contents, '\n');
        let f = |l: Seq<char>| line_requirement(l);
        ls.lemma_filter_map_contains(f, requirements_file(contents)[i]);
        assert(requirements_file(contents).contains(requirements_file(contents)[i]));
        let j = choose|j: int| 0 <= j < ls.len() && f(ls[j]) == Some(requirements_file(contents)[i]);
        law_requirement_name_has_no_extras(trim(ls[j]));
    }
}

/// A freshly parsed dependency: not yet matched against what is installed.
pub open spec fn fresh_dependency(d: ProjectDependency, r: (Seq<char>, Seq<char>)) -> bool {
    &&& d.name@ == r.0
    &&& d.version_spec@ == r.1
    &&& d.status == DependencyStatus::Missing
    &&& d.installed_version is None
}

fn operator_exec(k: usize) -> (r: Vec<char>)
    requires
        k < 5,
    ensures
        r@ == operator(k as int),
{
    let r = if k == 0 {
        vec!['=', '=']
    } else if k == 1 {
        vec!['>', '=']
    } else if k == 2 {
        vec!['<', '=']
    } else if k == 3 {
        vec!['>']
    } else {
        vec!['<']
    };
    assert(r@ =~= operator(k as int));
    r
}

fn requirement_chars(req: &Vec<char>) -> (r: (Vec<char>, Vec<char>))
    ensures
        (r.0@, r.1@) == requirement(req@),
{
    let mut k: usize = 0;
    while k < 5
        invariant
            k <= 5,
            requirement(req@) == split_from_operator(req@, k as int),
        decreases 5 - k,
    {
        let op = operator_exec(k);
        match find_chars(req, &op) {
            Some(i) => {
                let head = slice_chars(req, 0, i);
                assert(head@ =~= req@.take(i as int));
                let name = before_char_exec(&trim_chars(&head), '[');
                let n = req.len();
                let rest = slice_chars(req, i + op.len(), n);
                assert(rest@ =~= req@.skip(i + op@.len()));
                let mut spec = op;
                let mut tail = trim_chars(&rest);
                spec.append(&mut tail);
                return (name, spec);
            },
            None => {},
        }
        k = k + 1;
    }
    let name = trim_chars(&before_char_exec(req, '['));
    let star = vec!['*'];
    assert(star@ =~= seq!['*']);
    (name, star)
}

/// Splits one requirement expression into its name, without any `[extras]`,
/// and its specifier (`*` when it has no operator).
pub fn parse_requirement_string(req: &str) -> (r: Option<(String, String)>)
    ensures
        match r {
            Some(p) => (p.0@, p.1@) == requirement(req@),
            None => false,
        },
{
    let cs = chars_of(req);
    let (name, spec) = requirement_chars(&cs);
    Some((string_of(&name), string_of(&spec)))
}

fn line_requirement_chars(line: &Vec<char>) -> (r: Option<(Vec<char>, Vec<char>)>)
    ensures
        match line_requirement(line@) {
            Some(p) => match r {
                Some(q) => (q.0@, q.1@) == p,
                None => false,
            },
            None => r is None,
        },
{
    let t = trim_chars(line);
    if t.len() == 0 || t[0] == '#' || t[0] == '-' {
        None
    } else {
        Some(requirement_chars(&t))
    }
}

/// The dependencies declared in a requirements file, one for each line that is
/// not blank, a comment or a flag, all marked missing.
pub fn parse_requirements_txt(contents: &str) -> (r: Vec<ProjectDependency>)
    ensures
        r@.len() == requirements_file(contents@).len(),
        forall|i: int|
            0 <= i < r@.len() ==> fresh_dependency(#[trigger] r@[i], requirements_file(contents@)[i]),
{
    let cs = chars_of(contents);
    let lines = split_chars(&cs, '\n');
    let ghost ls = split(cs@, '\n');
    let ghost f = |l: Seq<char>| line_requirement(l);
    let mut out: Vec<ProjectDependency> = Vec::new();
    let mut i: usize = 0;
    while i < lines.len()
        invariant
            i <= lines@.len(),
            lines@.len() == ls.len(),
            ls == split(cs@, '\n'),
            cs@ == contents@,
            f == (|l: Seq<char>| line_requirement(l)),
            forall|k: int| 0 <= k < lines@.len() ==> #[trigger] lines@[k]@ == ls[k],
            out@.len() == ls.take(i as int).filter_map(f).len(),
            forall|k: int|
                0 <= k < out@.len() ==> fresh_dependency(#[trigger] out@[k], ls.take(i as int).filter_map(f)[k]),
        decreases lines@.len() - i,
    {
        assert(ls.take(i + 1).drop_last() =~= ls.take(i as int));
        assert(ls.take(i + 1).last() == lines@[i as int]@);
        match line_requirement_chars(&lines[i]) {
            Some(p) => {
                let d = ProjectDependency {
                    name: string_of(&p.0),
                    version_spec: string_of(&p.1),
                    status: DependencyStatus::Missing,
                    installed_version: None,
                };
                out.push(d);
            },
            None => {},
        }
        i = i + 1;
    }
    assert(ls.take(i as int) =~= ls);
    out
}

/// The list that follows `dependencies =` on a line, with the brackets and
/// quotes around it taken off; none when no `=` follows the key.
pub open spec fn dependency_list(t: Seq<char>) -> Option<Seq<char>> {
    let r = trim(t.skip("dependencies"@.len() as int));
    if r.len() > 0 && r[0] == '=' {
        Some(strip_both(strip_both(strip_both(trim(r.drop_first()), '['), ']'), '"'))
    } else {
        None
    }
}

/// What one trimmed line of a project file does: whether the dependencies
/// key is in scope after it, and the requirements it declares.
pub open spec fn project_line(in_scope: bool, t: Seq<char>) -> (bool, Seq<(Seq<char>, Seq<char>)>) {
    if starts_with(t, "[project]"@) {
        (true, Seq::empty())
    } else {
        let scope = if t.len() > 0 && t[0] == '[' { false } else { in_scope };
        if scope && starts_with(t, "dependencies"@) {
            match dependency_list(t) {
                Some(list) => (scope, split(list, ',').map_values(|d: Seq<char>| requirement(trim(d)))),
                None => (scope, Seq::empty()),
            }
        } else {
            (scope, Seq::empty())
        }
    }
}

/// The scan of a project file's lines, in order.
pub open spec fn project_scan(lines: Seq<Seq<char>>) -> (bool, Seq<(Seq<char>, Seq<char>)>)
    decreases lines.len(),
{
    if lines.len() == 0 {
        (false, Seq::empty())
    } else {
        let prev = project_scan(lines.drop_last());
        let step = project_line(prev.0, trim(lines.last()));
        (step.0, prev.1 + step.1)
    }
}

/// The requirements that a project file declares under its `[project]` table.
pub open spec fn project_requirements(contents: Seq<char>) -> Seq<(Seq<char>, Seq<char>)> {
    project_scan(split(contents, '\n')).1
}

fn dependency_list_chars(t: &Vec<char>, key: &Vec<char>) -> (r: Option<Vec<char>>)
    requires
        key@ == "dependencies"@,
        starts_with(t@, key@),
    ensures
        match dependency_list(t@) {
            Some(l) => r matches Some(v) && v@ == l,
            None => r is None,
        },
{
    let rest = slice_chars(t, key.len(), t.len());
    assert(rest@ =~= t@.skip(key@.len() as int));
    let r = trim_chars(&rest);
    if r.len() > 0 && r[0] == '=' {
        let n = r.len();
        let after = slice_chars(&r, 1, n);
        assert(after@ =~= r@.drop_first());
        let a = trim_chars(&after);
        let b = strip_both_chars(&a, '[');
        let c = strip_both_chars(&b, ']');
        Some(strip_both_chars(&c, '"'))
    } else {
        None
    }
}

/// The requirements declared on one line, all marked missing.
fn push_line_requirements(out: &mut Vec<ProjectDependency>, list: &Vec<char>)
    ensures
        final(out)@.len() == old(out)@.len() + split(list@, ',').len(),
        forall|k: int| 0 <= k < old(out)@.len() ==> #[trigger] final(out)@[k] == old(out)@[k],
        forall|k: int|
            old(out)@.len() <= k < final(out)@.len() ==> fresh_dependency(
                #[trigger] final(out)@[k],
                requirement(trim(split(list@, ',')[k - old(out)@.len()])),
            ),
{
    let parts = split_chars(list, ',');
    let ghost start = out@.len();
    let mut i: usize = 0;
    while i < parts.len()
        invariant
            i <= parts@.len(),
            parts@.len() == split(list@, ',').len(),
            forall|k: int| 0 <= k < parts@.len() ==> #[trigger] parts@[k]@ == split(list@, ',')[k],
            out@.len() == start + i,
            start == old(out)@.len(),
            forall|k: int| 0 <= k < old(out)@.len() ==> #[trigger] out@[k] == old(out)@[k],
            forall|k: int|
                start <= k < out@.len() ==> fresh_dependency(
                    #[trigger] out@[k],
                    requirement(trim(split(list@, ',')[k - start])),
                ),
        decreases parts@.len() - i,
    {
        let (name, spec) = requirement_chars(&trim_chars(&parts[i]));
        out.push(
            ProjectDependency {
                name: string_of(&name),
                version_spec: string_of(&spec),
                status: DependencyStatus::Missing,
                installed_version: None,
            },
        );
        i = i + 1;
    }
}

/// The dependencies that a project file lists under `dependencies` in its
/// `[project]` table, by a line-oriented scan, all marked missing.
pub fn parse_pyproject_toml(contents: &str) -> (r: Vec<ProjectDependency>)
    ensures
        r@.len() == project_requirements(contents@).len(),
        forall|i: int|
            0 <= i < r@.len() ==> fresh_dependency(#[trigger] r@[i], project_requirements(contents@)[i]),
{
    let cs = chars_of(contents);
    let lines = split_chars(&cs, '\n');
    let project = chars_of("[project]");
    let key = chars_of("dependencies");
    let ghost ls = split(cs@, '\n');
    let mut in_scope = false;
    let mut out: Vec<ProjectDependency> = Vec::new();
    let mut i: usize = 0;
    while i < lines.len()
        invariant
            i <= lines@.len(),
            lines@.len() == ls.len(),
            ls == split(contents@, '\n'),
            project@ == "[project]"@,
            key@ == "dependencies"@,
            forall|k: int| 0 <= k < lines@.len() ==> #[trigger] lines@[k]@ == ls[k],
            in_scope == project_scan(ls.take(i as int)).0,
            out@.len() == project_scan(ls.take(i as int)).1.len(),
            forall|k: int|
                0 <= k < out@.len() ==> fresh_dependency(
                    #[trigger] out@[k],
                    project_scan(ls.take(i as int)).1[k],
                ),
        decreases lines@.len() - i,
    {
        assert(ls.take(i + 1).drop_last() =~= ls.take(i as int));
        assert(ls.take(i + 1).last() == lines@[i as int]@);
        let t = trim_chars(&lines[i]);
        let ghost before = out@;
        let ghost step = project_line(in_scope, t@);
        if starts_with_chars(&t, &project) {
            in_scope = true;
        } else {
            if t.len() > 0 && t[0] == '[' {
                in_scope = false;
            }
            if in_scope && starts_with_chars(&t, &key) {
                match dependency_list_chars(&t, &key) {
                    Some(list) => {
                        push_line_requirements(&mut out, &list);
                        assert(step.1 == split(list@, ',').map_values(
                            |d: Seq<char>| requirement(trim(d)),
                        ));
                    },
                    None => {},
                }
            }
        }
        assert(project_scan(ls.take(i + 1)) == (step.0, project_scan(ls.take(i as int)).1 + step.1));
        assert(out@.len() == before.len() + step.1.len());
        assert forall|k: int| 0 <= k < out@.len() implies fresh_dependency(
            #[trigger] out@[k],
            project_scan(ls.take(i + 1)).1[k],
        ) by {
            if k >= before.len() {
                assert(project_scan(ls.take(i + 1)).1[k] == step.1[k - before.len()]);
            } else {
                assert(project_scan(ls.take(i + 1)).1[k] == project_scan(ls.take(i as int)).1[k]);
            }
        }
        i = i + 1;
    }
    assert(ls.take(i as int) =~= ls);
    out
}

/// The requirements of each manifest that could be read, in order: the
/// project file, the requirements file, the development requirements file.
pub open spec fn manifest_requirements(
    pyproject: Option<Seq<char>>,
    requirements: Option<Seq<char>>,
    requirements_dev: Option<Seq<char>>,
) -> Seq<(Seq<char>, Seq<char>)> {
    (match pyproject {
        Some(c) => project_requirements(c),
        None => Seq::empty(),
    }) + (match requirements {
        Some(c) => requirements_file(c),
        None => Seq::empty(),
    }) + (match requirements_dev {
        Some(c) => requirements_file(c),
        None => Seq::empty(),
    })
}

pub open spec fn opt_str(o: Option<&str>) -> Option<Seq<char>> {
    match o {
        Some(s) => Some(s@),
        None => None,
    }
}

fn append_fresh(
    out: &mut Vec<ProjectDependency>,
    more: Vec<ProjectDependency>,
    reqs: Ghost<Seq<(Seq<char>, Seq<char>)>>,
    extra: Ghost<Seq<(Seq<char>, Seq<char>)>>,
)
    requires
        old(out)@.len() == reqs@.len(),
        forall|i: int| 0 <= i < old(out)@.len() ==> fresh_dependency(#[trigger] old(out)@[i], reqs@[i]),
        more@.len() == extra@.len(),
        forall|i: int| 0 <= i < more@.len() ==> fresh_dependency(#[trigger] more@[i], extra@[i]),
    ensures
        final(out)@.len() == (reqs@ + extra@).len(),
        forall|i: int|
            0 <= i < final(out)@.len() ==> fresh_dependency(#[trigger] final(out)@[i], (reqs@ + extra@)[i]),
{
    let mut more = more;
    let ghost m = more@;
    out.append(&mut more);
    assert forall|i: int| 0 <= i < out@.len() implies fresh_dependency(
        #[trigger] out@[i],
        (reqs@ + extra@)[i],
    ) by {
        if i >= reqs@.len() {
            assert(out@[i] == m[i - reqs@.len()]);
        }
    }
}

/// The dependencies of a project from each manifest that could be read, in
/// order, all marked missing. A name declared in two manifests gives two
/// entries.
pub fn collect_dependencies(
    pyproject: Option<&str>,
    requirements: Option<&str>,
    requirements_dev: Option<&str>,
) -> (r: Vec<ProjectDependency>)
    ensures
        r@.len() == manifest_requirements(opt_str(pyproject), opt_str(requirements), opt_str(requirements_dev)).len(),
        forall|i: int|
            0 <= i < r@.len() ==> fresh_dependency(
                #[trigger] r@[i],
                manifest_requirements(opt_str(pyproject), opt_str(requirements), opt_str(requirements_dev))[i],
            ),
{
    let mut out: Vec<ProjectDependency> = Vec::new();
    let ghost a = match pyproject {
        Some(c) => project_requirements(c@),
        None => Seq::empty(),
    };
    let ghost b = match requirements {
        Some(c) => requirements_file(c@),
        None => Seq::empty(),
    };
    let ghost d = match requirements_dev {
        Some(c) => requirements_file(c@),
        None => Seq::empty(),
    };
    let v = match pyproject {
        Some(c) => parse_pyproject_toml(c),
        None => Vec::new(),
    };
    append_fresh(&mut out, v, Ghost(Seq::empty()), Ghost(a));
    assert(Seq::<(Seq<char>, Seq<char>)>::empty() + a =~= a);
    let v = match requirements {
        Some(c) => parse_requirements_txt(c),
        None => Vec::new(),
    };
    append_fresh(&mut out, v, Ghost(a), Ghost(b));
    let v = match requirements_dev {
        Some(c) => parse_requirements_txt(c),
        None => Vec::new(),
    };
    append_fresh(&mut out, v, Ghost(a + b), Ghost(d));
    out
}

} // verus!
