use vstd::prelude::*;
use std::cmp::Ordering;
use crate::models::DirectoryEntry;
use crate::platform::Platform;
use crate::text::chars_of;
use crate::version::{cmp_parts, compare_parts, lemma_cmp_parts_flip, lemma_cmp_parts_ge_trans};

verus! {

/// The code points of `s`, in order.
pub open spec fn code_points(s: Seq<char>) -> Seq<u32> {
    s.map_values(|c: char| c as u32)
}

/// The order of names: by code point, a strict prefix first (the order of
/// `str`'s `Ord`).
pub open spec fn name_order(a: Seq<char>, b: Seq<char>) -> Ordering {
    cmp_parts(code_points(a), code_points(b))
}

/// Directories come before files.
pub open spec fn rank(e: DirectoryEntry) -> int {
    if e.is_dir {
        0
    } else {
        1
    }
}

/// Whether `a` may be listed before `b`: directories first, then by name.
pub open spec fn listed_before(a: DirectoryEntry, b: DirectoryEntry) -> bool {
    rank(a) < rank(b) || (rank(a) == rank(b) && name_order(a.name@, b.name@) != Ordering::Greater)
}

/// Directories first, then by name.
pub open spec fn listing_ordered(v: Seq<DirectoryEntry>) -> bool {
    forall|i: int, j: int| 0 <= i < j < v.len() ==> listed_before(#[trigger] v[i], #[trigger] v[j])
}

/// Whether an entry of this name is shown: on platforms other than Windows,
/// hidden names (leading `.`) are left out, except `.venv`.
pub open spec fn shown_name(name: Seq<char>, platform: Platform) -> bool {
    platform == Platform::Windows || !(name.len() > 0 && name[0] == '.') || name
        == seq!['.', 'v', 'e', 'n', 'v']
}

/// Whether a directory entry of this name is listed.
pub fn is_listed_name(name: &str, platform: Platform) -> (r: bool)
    ensures
        r == shown_name(name@, platform),
{
    if platform == Platform::Windows {
        return true;
    }
    let cs = chars_of(name);
    if cs.len() == 0 || cs[0] != '.' {
        return true;
    }
    let venv = vec!['.', 'v', 'e', 'n', 'v'];
    let mut same = cs.len() == 5;
    let mut i: usize = 0;
    while same && i < 5
        invariant
            i <= 5,
            venv@ == seq!['.', 'v', 'e', 'n', 'v'],
            same ==> cs@.len() == 5,
            same ==> forall|k: int| 0 <= k < i ==> cs@[k] == venv@[k],
            !same ==> cs@ != venv@,
        decreases 5 - i,
    {
        if cs[i] != venv[i] {
            same = false;
        }
        i = i + 1;
    }
    if same {
        assert(cs@ =~= venv@);
    }
    same
}

fn code_points_exec(s: &str) -> (r: Vec<u32>)
    ensures
        r@ == code_points(s@),
{
    let cs = chars_of(s);
    let mut out: Vec<u32> = Vec::new();
    let mut i: usize = 0;
    while i < cs.len()
        invariant
            i <= cs@.len(),
            out@ == code_points(cs@.take(i as int)),
        decreases cs@.len() - i,
    {
        out.push(cs[i] as u32);
        assert(out@ =~= code_points(cs@.take(i + 1)));
        i = i + 1;
    }
    assert(cs@.take(i as int) =~= cs@);
    out
}

/// Compares two names by code point.
pub fn compare_names(a: &str, b: &str) -> (r: Ordering)
    ensures
        r == name_order(a@, b@),
{
    compare_parts(&code_points_exec(a), &code_points_exec(b))
}

proof fn lemma_listed_trans(a: DirectoryEntry, b: DirectoryEntry, c: DirectoryEntry)
    requires
        listed_before(a, b),
        listed_before(b, c),
    ensures
        listed_before(a, c),
{
    if rank(a) == rank(b) && rank(b) == rank(c) {
        let (x, y, z) = (code_points(a.name@), code_points(b.name@), code_points(c.name@));
        lemma_cmp_parts_flip(x, y);
        lemma_cmp_parts_flip(y, z);
        lemma_cmp_parts_flip(x, z);
        lemma_cmp_parts_ge_trans(z, y, x);
    }
}

proof fn lemma_listed_total(a: DirectoryEntry, b: DirectoryEntry)
    ensures
        !listed_before(a, b) ==> listed_before(b, a),
{
    lemma_cmp_parts_flip(code_points(a.name@), code_points(b.name@));
}

/// Whether `a` must be listed before `b`.
fn strictly_before(a: &DirectoryEntry, b: &DirectoryEntry) -> (r: bool)
    ensures
        r == !listed_before(*b, *a),
{
    proof {
        lemma_cmp_parts_flip(code_points(a.name@), code_points(b.name@));
    }
    if a.is_dir != b.is_dir {
        a.is_dir
    } else {
        matches!(compare_names(a.name.as_str(), b.name.as_str()), Ordering::Less)
    }
}

/// The entries with directories first, then by name.
pub fn order_entries(entries: Vec<DirectoryEntry>) -> (r: Vec<DirectoryEntry>)
    ensures
        r@.to_multiset() == entries@.to_multiset(),
        listing_ordered(r@),
{
    let ghost all = entries@;
    let mut rest = entries;
    let mut out: Vec<DirectoryEntry> = Vec::new();
    let n = rest.len();
    let mut i: usize = 0;
    assert(all.skip(0) =~= all);
    assert(all.take(0) =~= out@);
    while i < n
        invariant
            n == all.len(),
            i <= n,
            rest@ == all.skip(i as int),
            out@.to_multiset() == all.take(i as int).to_multiset(),
            listing_ordered(out@),
        decreases n - i,
    {
        let x = rest.remove(0);
        assert(x == all[i as int]);
        assert(rest@ =~= all.skip(i + 1));
        let mut p: usize = 0;
        while p < out.len() && !strictly_before(&x, &out[p])
            invariant
                p <= out@.len(),
                forall|k: int| 0 <= k < p ==> listed_before(#[trigger] out@[k], x),
            decreases out@.len() - p,
        {
            proof { lemma_listed_total(x, out@[p as int]); }
            p = p + 1;
        }
        let ghost before = out@;
        out.insert(p, x);
        proof {
            out@.to_multiset_ensures();
            before.to_multiset_ensures();
            all.take(i as int).to_multiset_ensures();
        }
        assert(out@.remove(p as int) =~= before);
        assert(all.take(i + 1) =~= all.take(i as int).push(x));
        assert(out@.remove(p as int).to_multiset() == out@.to_multiset().remove(out@[p as int]));
        assert(out@.contains(x));
        assert(out@.to_multiset() =~= before.to_multiset().insert(x));
        assert forall|a: int, b: int| 0 <= a < b < out@.len() implies listed_before(
            #[trigger] out@[a],
            #[trigger] out@[b],
        ) by {
            if b < p {
                assert(out@[a] == before[a] && out@[b] == before[b]);
            } else if b == p {
                assert(out@[a] == before[a]);
            } else if a > p {
                assert(out@[a] == before[a - 1] && out@[b] == before[b - 1]);
            } else if a == p {
                assert(out@[b] == before[b - 1]);
                lemma_listed_total(before[p as int], x);
                if b - 1 > p {
                    lemma_listed_trans(x, before[p as int], before[b - 1]);
                }
            } else {
                assert(out@[a] == before[a] && out@[b] == before[b - 1]);
            }
        }
        i = i + 1;
    }
    assert(all.take(n as int) =~= all);
    out
}

} // verus!
