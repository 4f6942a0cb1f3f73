use vstd::prelude::*;
use std::cmp::Ordering;
use crate::models::{DependencyStatus, InstalledPackage, ProjectDependency};
use crate::text::{lower_of, lowercase, chars_of, starts_with, starts_with_chars, slice_chars, string_of};
use crate::version::{compare_versions, version_cmp};

verus! {

pub open spec fn opt_view(o: Option<String>) -> Option<Seq<char>> {
    match o {
        Some(s) => Some(s@),
        None => None,
    }
}

/// `s` with every leading repetition of the non-empty `p` removed, as
/// `str::trim_start_matches` leaves it.
pub open spec fn strip_prefix_all(s: Seq<char>, p: Seq<char>) -> Seq<char>
    decreases s.len(),
{
    if p.len() > 0 && starts_with(s, p) {
        strip_prefix_all(s.skip(p.len() as int), p)
    } else {
        s
    }
}

/// Whether an installed version meets a specifier: `*` or an empty one is met
/// by any version; the operators go by the version order; a specifier with no
/// operator is not checked.
pub open spec fn satisfies(installed: Seq<char>, spec: Seq<char>) -> bool {
    if spec.len() == 0 || spec == seq!['*'] {
        true
    } else if starts_with(spec, seq!['=', '=']) {
        version_cmp(installed, strip_prefix_all(spec, seq!['=', '='])) == Ordering::Equal
    } else if starts_with(spec, seq!['>', '=']) {
        version_cmp(installed, strip_prefix_all(spec, seq!['>', '='])) != Ordering::Less
    } else if starts_with(spec, seq!['<', '=']) {
        version_cmp(installed, strip_prefix_all(spec, seq!['<', '='])) != Ordering::Greater
    } else if starts_with(spec, seq!['>']) {
        version_cmp(installed, strip_prefix_all(spec, seq!['>'])) == Ordering::Greater
    } else if starts_with(spec, seq!['<']) {
        version_cmp(installed, strip_prefix_all(spec, seq!['<'])) == Ordering::Less
    } else {
        true
    }
}

/// The status of a requirement given the version installed under its name.
pub open spec fn status_of(installed: Option<Seq<char>>, spec: Seq<char>) -> DependencyStatus {
    match installed {
        None => DependencyStatus::Missing,
        Some(v) => if satisfies(v, spec) {
            DependencyStatus::Installed
        } else {
            DependencyStatus::VersionMismatch
        },
    }
}

/// The version recorded for `key`; a later entry wins over an earlier one.
pub open spec fn lookup(index: Seq<(Seq<char>, Seq<char>)>, key: Seq<char>) -> Option<Seq<char>>
    decreases index.len(),
{
    if index.len() == 0 {
        None
    } else if index.last().0 == key {
        Some(index.last().1)
    } else {
        lookup(index.drop_last(), key)
    }
}

/// The snapshot as (case-normalized name, version) pairs.
pub open spec fn index_of(packages: Seq<InstalledPackage>) -> Seq<(Seq<char>, Seq<char>)> {
    packages.map_values(|p: InstalledPackage| (lower_of(p.name@), p.version@))
}

pub open spec fn index_view(index: Seq<(String, String)>) -> Seq<(Seq<char>, Seq<char>)> {
    index.map_values(|e: (String, String)| (e.0@, e.1@))
}

/// A dependency after reconciliation: name and specifier kept, the version
/// found recorded, and the status that follows from them.
pub open spec fn resolved(d: ProjectDependency, from: ProjectDependency, found: Option<Seq<char>>) -> bool {
    &&& d.name@ == from.name@
    &&& d.version_spec@ == from.version_spec@
    &&& opt_view(d.installed_version) == found
    &&& d.status == status_of(found, from.version_spec@)
}

fn strip_prefix_all_chars(s: &Vec<char>, p: &Vec<char>) -> (r: Vec<char>)
    requires
        p@.len() > 0,
    ensures
        r@ == strip_prefix_all(s@, p@),
{
    let mut cur = slice_chars(s, 0, s.len());
    assert(cur@ =~= s@);
    while starts_with_chars(&cur, p)
        invariant
            p@.len() > 0,
            strip_prefix_all(s@, p@) == strip_prefix_all(cur@, p@),
        decreases cur@.len(),
    {
        let n = cur.len();
        cur = slice_chars(&cur, p.len(), n);
    }
    cur
}

/// Whether `installed` meets the specifier `spec`.
pub fn is_version_match(installed: &str, spec: &str) -> (r: bool)
    ensures
        r == satisfies(installed@, spec@),
{
    let sc = chars_of(spec);
    let star = vec!['*'];
    assert(star@ =~= seq!['*']);
    if sc.len() == 0 || (sc.len() == 1 && sc[0] == '*') {
        if sc.len() == 1 {
            assert(sc@ =~= seq!['*']);
        }
        return true;
    }
    assert(sc@ != seq!['*']) by {
        if sc@ == seq!['*'] {
            assert(sc@[0] == '*');
        }
    }
    let ops: Vec<Vec<char>> = vec![vec!['=', '='], vec!['>', '='], vec!['<', '='], vec!['>'], vec!['<']];
    let mut k: usize = 0;
    while k < 5
        invariant
            k <= 5,
            ops@.len() == 5,
            ops@[0]@ == seq!['=', '='],
            ops@[1]@ == seq!['>', '='],
            ops@[2]@ == seq!['<', '='],
            ops@[3]@ == seq!['>'],
            ops@[4]@ == seq!['<'],
            sc@ == spec@,
            sc@.len() > 0,
            sc@ != seq!['*'],
            forall|j: int| 0 <= j < k ==> !starts_with(sc@, #[trigger] ops@[j]@),
        decreases 5 - k,
    {
        let op = &ops[k];
        if starts_with_chars(&sc, op) {
            let bound = string_of(&strip_prefix_all_chars(&sc, op));
            let c = compare_versions(installed, bound.as_str());
            let r = if k == 0 {
                matches!(c, Ordering::Equal)
            } else if k == 1 {
                !matches!(c, Ordering::Less)
            } else if k == 2 {
                !matches!(c, Ordering::Greater)
            } else if k == 3 {
                matches!(c, Ordering::Greater)
            } else {
                matches!(c, Ordering::Less)
            };
            return r;
        }
        k = k + 1;
    }
    true
}

/// The status of a requirement with specifier `spec`, given the version
/// installed under its name, if any.
pub fn dependency_status(installed: Option<&str>, spec: &str) -> (r: DependencyStatus)
    ensures
        r == status_of(
            match installed {
                Some(v) => Some(v@),
                None => None,
            },
            spec@,
        ),
{
    match installed {
        None => DependencyStatus::Missing,
        Some(v) => if is_version_match(v, spec) {
            DependencyStatus::Installed
        } else {
            DependencyStatus::VersionMismatch
        },
    }
}

/// The version recorded for `key`, the last entry winning.
pub fn lookup_installed(index: &Vec<(String, String)>, key: &String) -> (r: Option<String>)
    ensures
        opt_view(r) == lookup(index_view(index@), key@),
{
    let mut i: usize = index.len();
    assert(index@.take(i as int) =~= index@);
    while i > 0
        invariant
            i <= index@.len(),
            lookup(index_view(index@), key@) == lookup(index_view(index@.take(i as int)), key@),
        decreases i,
    {
        let ghost pre = index_view(index@.take(i as int));
        assert(pre.drop_last() =~= index_view(index@.take(i - 1)));
        assert(pre.last() == (index@[i - 1].0@, index@[i - 1].1@));
        if index[i - 1].0 == *key {
            return Some(index[i - 1].1.clone());
        }
        i = i - 1;
    }
    assert(index_view(index@.take(0)) =~= Seq::empty());
    None
}

/// The snapshot of installed packages as (case-normalized name, version)
/// pairs, in order.
pub fn installed_index(packages: &Vec<InstalledPackage>) -> (r: Vec<(String, String)>)
    ensures
        index_view(r@) == index_of(packages@),
{
    let mut out: Vec<(String, String)> = Vec::new();
    let mut i: usize = 0;
    while i < packages.len()
        invariant
            i <= packages@.len(),
            out@.len() == i,
            index_view(out@) == index_of(packages@.take(i as int)),
        decreases packages@.len() - i,
    {
        let p = &packages[i];
        let e = (lowercase(p.name.as_str()), p.version.clone());
        let ghost old_out = out@;
        out.push(e);
        assert forall|k: int| 0 <= k < i + 1 implies #[trigger] index_view(out@)[k] == index_of(
            packages@.take(i + 1),
        )[k] by {
            if k < i {
                assert(index_view(old_out)[k] == index_of(packages@.take(i as int))[k]);
            } else {
                assert(packages@.take(i + 1)[k] == packages@[i as int]);
            }
        }
        assert(index_view(out@) =~= index_of(packages@.take(i + 1)));
        i = i + 1;
    }
    assert(packages@.take(i as int) =~= packages@);
    out
}

/// `dep` with the version found under its name and the status that follows.
pub fn resolve_dependency(dep: &ProjectDependency, found: Option<String>) -> (r: ProjectDependency)
    ensures
        resolved(r, *dep, opt_view(found)),
{
    let status = match &found {
        Some(v) => dependency_status(Some(v.as_str()), dep.version_spec.as_str()),
        None => dependency_status(None, dep.version_spec.as_str()),
    };
    ProjectDependency {
        name: dep.name.clone(),
        version_spec: dep.version_spec.clone(),
        status,
        installed_version: found,
    }
}

/// `r` is the reconciliation of `deps` against `installed`: entry by entry,
/// in the same order.
pub open spec fn reconciled(
    r: Seq<ProjectDependency>,
    deps: Seq<ProjectDependency>,
    installed: Seq<InstalledPackage>,
) -> bool {
    &&& r.len() == deps.len()
    &&& forall|i: int|
        0 <= i < r.len() ==> resolved(
            #[trigger] r[i],
            deps[i],
            lookup(index_of(installed), lower_of(deps[i].name@)),
        )
}

/// Reconciliation is deterministic: any two reconciliations of the same
/// requirements against the same snapshot agree on every entry, and each
/// entry keeps the name and specifier it was declared with.
pub proof fn law_reconcile_deterministic(
    deps: Seq<ProjectDependency>,
    installed: Seq<InstalledPackage>,
    r1: Seq<ProjectDependency>,
    r2: Seq<ProjectDependency>,
)
    requires
        reconciled(r1, deps, installed),
        reconciled(r2, deps, installed),
    ensures
        r1.len() == r2.len(),
        forall|i: int|
            0 <= i < r1.len() ==> {
                &&& (#[trigger] r1[i]).status == r2[i].status
                &&& opt_view(r1[i].installed_version) == opt_view(r2[i].installed_version)
                &&& r1[i].name@ == deps[i].name@ && r2[i].name@ == deps[i].name@
                &&& r1[i].version_spec@ == deps[i].version_spec@
                &&& r2[i].version_spec@ == deps[i].version_spec@
            },
{
    assert forall|i: int| 0 <= i < r1.len() implies {
        &&& (#[trigger] r1[i]).status == r2[i].status
        &&& opt_view(r1[i].installed_version) == opt_view(r2[i].installed_version)
        &&& r1[i].name@ == deps[i].name@ && r2[i].name@ == deps[i].name@
        &&& r1[i].version_spec@ == deps[i].version_spec@
        &&& r2[i].version_spec@ == deps[i].version_spec@
    } by {
        assert(resolved(r1[i], deps[i], lookup(index_of(installed), lower_of(deps[i].name@))));
        assert(resolved(r2[i], deps[i], lookup(index_of(installed), lower_of(deps[i].name@))));
    }
}

/// Assigns each requirement its status against the installed snapshot,
/// matching names case-insensitively. The list keeps its order and length,
/// and only status and installed version change.
pub fn reconcile(deps: &Vec<ProjectDependency>, installed: &Vec<InstalledPackage>) -> (r: Vec<
    ProjectDependency,
>)
    ensures
        reconciled(r@, deps@, installed@),
{
    let index = installed_index(installed);
    let mut out: Vec<ProjectDependency> = Vec::new();
    let mut i: usize = 0;
    while i < deps.len()
        invariant
            i <= deps@.len(),
            out@.len() == i,
            index_view(index@) == index_of(installed@),
            forall|k: int|
                0 <= k < i ==> resolved(
                    #[trigger] out@[k],
                    deps@[k],
                    lookup(index_of(installed@), lower_of(deps@[k].name@)),
                ),
        decreases deps@.len() - i,
    {
        let key = lowercase(deps[i].name.as_str());
        let found = lookup_installed(&index, &key);
        out.push(resolve_dependency(&deps[i], found));
        i = i + 1;
    }
    out
}

} // verus!
