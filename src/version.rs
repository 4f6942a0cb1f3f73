use vstd::prelude::*;
use std::cmp::Ordering;
use crate::text::{chars_of, split, split_chars};

verus! {

/// Whether every character of `s` is an ASCII digit.
pub open spec fn all_digits(s: Seq<char>) -> bool {
    forall|i: int| 0 <= i < s.len() ==> '0' <= #[trigger] s[i] && s[i] <= '9'
}

/// The decimal value of a string of digits.
pub open spec fn digits_value(s: Seq<char>) -> int
    decreases s.len(),
{
    if s.len() == 0 {
        0
    } else {
        digits_value(s.drop_last()) * 10 + (s.last() as u32 - '0' as u32)
    }
}

/// `s` without one leading `+`.
pub open spec fn unsigned_digits(s: Seq<char>) -> Seq<char> {
    if s.len() > 0 && s[0] == '+' {
        s.drop_first()
    } else {
        s
    }
}

/// What `str::parse::<u32>` gives: an optional `+`, then one or more digits
/// whose value fits in 32 bits.
pub open spec fn parse_u32(s: Seq<char>) -> Option<u32> {
    let d = unsigned_digits(s);
    if d.len() > 0 && all_digits(d) && digits_value(d) <= u32::MAX {
        Some(digits_value(d) as u32)
    } else {
        None
    }
}

/// The numbers among `parts`, in order; the others are left out.
pub open spec fn numeric_parts(parts: Seq<Seq<char>>) -> Seq<u32>
    decreases parts.len(),
{
    if parts.len() == 0 {
        Seq::empty()
    } else {
        let prev = numeric_parts(parts.drop_last());
        match parse_u32(parts.last()) {
            Some(v) => prev.push(v),
            None => prev,
        }
    }
}

/// The numeric components of a dotted version string.
pub open spec fn version_key(s: Seq<char>) -> Seq<u32> {
    numeric_parts(split(s, '.'))
}

pub open spec fn cmp_int(a: int, b: int) -> Ordering {
    if a < b {
        Ordering::Less
    } else if a == b {
        Ordering::Equal
    } else {
        Ordering::Greater
    }
}

/// Lexicographic order: the first unequal pair decides, and a strict prefix
/// comes first.
pub open spec fn cmp_parts(a: Seq<u32>, b: Seq<u32>) -> Ordering
    decreases a.len(),
{
    if a.len() == 0 || b.len() == 0 {
        cmp_int(a.len() as int, b.len() as int)
    } else if a[0] != b[0] {
        cmp_int(a[0] as int, b[0] as int)
    } else {
        cmp_parts(a.drop_first(), b.drop_first())
    }
}

/// The order of two version strings.
pub open spec fn version_cmp(a: Seq<char>, b: Seq<char>) -> Ordering {
    cmp_parts(version_key(a), version_key(b))
}

proof fn lemma_digits_value_nonneg(s: Seq<char>)
    requires
        all_digits(s),
    ensures
        digits_value(s) >= 0,
    decreases s.len(),
{
    if s.len() > 0 {
        lemma_digits_value_nonneg(s.drop_last());
    }
}

/// The value of a segment, as `str::parse::<u32>` reads it.
pub fn parse_segment(s: &Vec<char>) -> (r: Option<u32>)
    ensures
        r == parse_u32(s@),
{
    let mut start: usize = 0;
    if s.len() > 0 && s[0] == '+' {
        start = 1;
    }
    let ghost d = unsigned_digits(s@);
    assert(d =~= s@.skip(start as int));
    if start >= s.len() {
        return None;
    }
    let mut acc: u64 = 0;
    let mut over = false;
    let mut i: usize = start;
    while i < s.len()
        invariant
            start <= i <= s@.len(),
            d == s@.skip(start as int),
            d == unsigned_digits(s@),
            all_digits(s@.subrange(start as int, i as int)),
            !over ==> acc as int == digits_value(s@.subrange(start as int, i as int)),
            !over ==> acc <= u32::MAX,
            over ==> digits_value(s@.subrange(start as int, i as int)) > u32::MAX,
        decreases s@.len() - i,
    {
        let c = s[i];
        if c < '0' || c > '9' {
            assert(d[i - start] == c);
            assert(!all_digits(d));
            return None;
        }
        let ghost pre = s@.subrange(start as int, i as int);
        let ghost nxt = s@.subrange(start as int, i + 1);
        assert(nxt.drop_last() =~= pre);
        assert(all_digits(nxt)) by {
            assert forall|k: int| 0 <= k < nxt.len() implies '0' <= #[trigger] nxt[k] && nxt[k] <= '9' by {
                if k < pre.len() {
                    assert(nxt[k] == pre[k]);
                }
            }
        }
        proof { lemma_digits_value_nonneg(pre); }
        let dv: u64 = (c as u32 - '0' as u32) as u64;
        if !over {
            acc = acc * 10 + dv;
            if acc > u32::MAX as u64 {
                over = true;
            }
        } else {
            assert(digits_value(nxt) == digits_value(pre) * 10 + dv);
            assert(digits_value(nxt) > u32::MAX) by (nonlinear_arith)
                requires
                    digits_value(nxt) == digits_value(pre) * 10 + dv,
                    digits_value(pre) > u32::MAX,
                    dv >= 0,
            ;
        }
        i = i + 1;
    }
    assert(s@.subrange(start as int, i as int) =~= d);
    if over {
        None
    } else {
        Some(acc as u32)
    }
}

/// The numeric components of a dotted version string; segments that are not
/// numbers are left out.
pub fn version_components(s: &str) -> (r: Vec<u32>)
    ensures
        r@ == version_key(s@),
{
    let cs = chars_of(s);
    let parts = split_chars(&cs, '.');
    let mut out: Vec<u32> = Vec::new();
    let mut i: usize = 0;
    while i < parts.len()
        invariant
            i <= parts@.len(),
            parts@.len() == split(cs@, '.').len(),
            forall|k: int| 0 <= k < parts@.len() ==> #[trigger] parts@[k]@ == split(cs@, '.')[k],
            out@ == numeric_parts(split(cs@, '.').take(i as int)),
        decreases parts@.len() - i,
    {
        let ghost ps = split(cs@, '.');
        assert(ps.take(i + 1).drop_last() =~= ps.take(i as int));
        assert(ps.take(i + 1).last() == parts@[i as int]@);
        match parse_segment(&parts[i]) {
            Some(v) => out.push(v),
            None => {},
        }
        i = i + 1;
    }
    assert(split(cs@, '.').take(i as int) =~= split(cs@, '.'));
    out
}

/// Compares two component lists lexicographically.
pub fn compare_parts(a: &Vec<u32>, b: &Vec<u32>) -> (r: Ordering)
    ensures
        r == cmp_parts(a@, b@),
{
    let mut i: usize = 0;
    assert(a@.skip(0) =~= a@ && b@.skip(0) =~= b@);
    while i < a.len() && i < b.len()
        invariant
            i <= a@.len(),
            i <= b@.len(),
            cmp_parts(a@, b@) == cmp_parts(a@.skip(i as int), b@.skip(i as int)),
        decreases a@.len() - i,
    {
        let ghost (sa, sb) = (a@.skip(i as int), b@.skip(i as int));
        assert(sa[0] == a@[i as int] && sb[0] == b@[i as int]);
        if a[i] != b[i] {
            if a[i] < b[i] {
                return Ordering::Less;
            } else {
                return Ordering::Greater;
            }
        }
        assert(sa.drop_first() =~= a@.skip(i + 1));
        assert(sb.drop_first() =~= b@.skip(i + 1));
        i = i + 1;
    }
    if a.len() < b.len() {
        Ordering::Less
    } else if a.len() == b.len() {
        Ordering::Equal
    } else {
        Ordering::Greater
    }
}

/// Compares two dotted version strings component by component.
pub fn compare_versions(a: &str, b: &str) -> (r: Ordering)
    ensures
        r == version_cmp(a@, b@),
{
    let pa = version_components(a);
    let pb = version_components(b);
    compare_parts(&pa, &pb)
}

pub(crate) proof fn lemma_cmp_parts_equal(a: Seq<u32>, b: Seq<u32>)
    ensures
        cmp_parts(a, b) == Ordering::Equal <==> a == b,
    decreases a.len(),
{
    if a.len() > 0 && b.len() > 0 && a[0] == b[0] {
        lemma_cmp_parts_equal(a.drop_first(), b.drop_first());
        if a.drop_first() == b.drop_first() {
            assert(a =~= seq![a[0]] + a.drop_first());
            assert(b =~= seq![b[0]] + b.drop_first());
        }
    } else if a.len() == 0 && b.len() == 0 {
        assert(a =~= b);
    }
}

pub(crate) proof fn lemma_cmp_parts_flip(a: Seq<u32>, b: Seq<u32>)
    ensures
        cmp_parts(a, b) == Ordering::Less <==> cmp_parts(b, a) == Ordering::Greater,
        cmp_parts(a, b) == Ordering::Greater <==> cmp_parts(b, a) == Ordering::Less,
    decreases a.len(),
{
    if a.len() > 0 && b.len() > 0 && a[0] == b[0] {
        lemma_cmp_parts_flip(a.drop_first(), b.drop_first());
    }
}

proof fn lemma_cmp_parts_less_trans(a: Seq<u32>, b: Seq<u32>, c: Seq<u32>)
    requires
        cmp_parts(a, b) == Ordering::Less,
        cmp_parts(b, c) == Ordering::Less,
    ensures
        cmp_parts(a, c) == Ordering::Less,
    decreases a.len(),
{
    if a.len() > 0 && b.len() > 0 && c.len() > 0 && a[0] == b[0] && b[0] == c[0] {
        lemma_cmp_parts_less_trans(a.drop_first(), b.drop_first(), c.drop_first());
    }
}

/// A version compares equal to itself.
pub proof fn law_compare_reflexive(a: Seq<char>)
    ensures
        version_cmp(a, a) == Ordering::Equal,
{
    lemma_cmp_parts_equal(version_key(a), version_key(a));
}

/// Swapping the arguments swaps `Less` and `Greater` and keeps `Equal`.
pub proof fn law_compare_antisymmetric(a: Seq<char>, b: Seq<char>)
    ensures
        version_cmp(a, b) == Ordering::Less <==> version_cmp(b, a) == Ordering::Greater,
        version_cmp(a, b) == Ordering::Equal <==> version_cmp(b, a) == Ordering::Equal,
{
    lemma_cmp_parts_flip(version_key(a), version_key(b));
    lemma_cmp_parts_equal(version_key(a), version_key(b));
    lemma_cmp_parts_equal(version_key(b), version_key(a));
}

/// `Less` is transitive.
pub proof fn law_compare_transitive(a: Seq<char>, b: Seq<char>, c: Seq<char>)
    requires
        version_cmp(a, b) == Ordering::Less,
        version_cmp(b, c) == Ordering::Less,
    ensures
        version_cmp(a, c) == Ordering::Less,
{
    lemma_cmp_parts_less_trans(version_key(a), version_key(b), version_key(c));
}

/// Two versions compare equal exactly when their numeric components are the
/// same, so equality of versions is an equivalence.
pub proof fn law_compare_equal_components(a: Seq<char>, b: Seq<char>)
    ensures
        version_cmp(a, b) == Ordering::Equal <==> version_key(a) == version_key(b),
{
    lemma_cmp_parts_equal(version_key(a), version_key(b));
}

pub(crate) proof fn lemma_cmp_parts_ge_trans(a: Seq<u32>, b: Seq<u32>, c: Seq<u32>)
    requires
        cmp_parts(a, b) != Ordering::Less,
        cmp_parts(b, c) != Ordering::Less,
    ensures
        cmp_parts(a, c) != Ordering::Less,
{
    lemma_cmp_parts_equal(a, b);
    lemma_cmp_parts_equal(b, c);
    lemma_cmp_parts_flip(a, b);
    lemma_cmp_parts_flip(b, c);
    lemma_cmp_parts_flip(a, c);
    if cmp_parts(a, c) == Ordering::Less && cmp_parts(a, b) == Ordering::Greater && cmp_parts(b, c)
        == Ordering::Greater {
        lemma_cmp_parts_less_trans(c, b, a);
    }
}

/// Newest first: no version comes before one that is greater.
pub open spec fn descending(v: Seq<String>) -> bool {
    forall|i: int, j: int|
        0 <= i < j < v.len() ==> version_cmp((#[trigger] v[i])@, (#[trigger] v[j])@) != Ordering::Less
}

/// The versions of `versions`, newest first, by the version order.
pub fn sort_versions_descending(versions: &Vec<String>) -> (r: Vec<String>)
    ensures
        r@.to_multiset() == versions@.to_multiset(),
        descending(r@),
{
    broadcast use vstd::seq_lib::group_to_multiset_ensures;
    let mut out: Vec<String> = Vec::new();
    let mut i: usize = 0;
    while i < versions.len()
        invariant
            i <= versions@.len(),
            out@.to_multiset() == versions@.take(i as int).to_multiset(),
            descending(out@),
        decreases versions@.len() - i,
    {
        let x = versions[i].clone();
        let mut p: usize = 0;
        while p < out.len() && !matches!(compare_versions(out[p].as_str(), x.as_str()), Ordering::Less)
            invariant
                p <= out@.len(),
                forall|k: int| 0 <= k < p ==> version_cmp((#[trigger] out@[k])@, x@) != Ordering::Less,
            decreases out@.len() - p,
        {
            p = p + 1;
        }
        let ghost before = out@;
        out.insert(p, x);
        assert(out@.remove(p as int) =~= before);
        assert(versions@.take(i + 1) =~= versions@.take(i as int).push(versions@[i as int]));
        assert(out@[p as int] == x);
        proof {
            out@.to_multiset_ensures();
            before.to_multiset_ensures();
            versions@.take(i as int).to_multiset_ensures();
        }
        assert(out@.remove(p as int).to_multiset() == out@.to_multiset().remove(out@[p as int]));
        assert(out@.contains(x));
        assert(out@.to_multiset() =~= before.to_multiset().insert(x));
        assert forall|a: int, b: int| 0 <= a < b < out@.len() implies version_cmp(
            (#[trigger] out@[a])@,
            (#[trigger] out@[b])@,
        ) != Ordering::Less by {
            if b < p {
                assert(out@[a] == before[a] && out@[b] == before[b]);
            } else if b == p {
                assert(out@[a] == before[a]);
            } else if a > p {
                assert(out@[a] == before[a - 1] && out@[b] == before[b - 1]);
            } else if a == p {
                assert(out@[b] == before[b - 1]);
                lemma_cmp_parts_flip(version_key(before[p as int]@), version_key(x@));
                if b - 1 > p {
                    lemma_cmp_parts_ge_trans(
                        version_key(x@),
                        version_key(before[p as int]@),
                        version_key(before[b - 1]@),
                    );
                }
            } else {
                assert(out@[a] == before[a] && out@[b] == before[b - 1]);
            }
        }
        i = i + 1;
    }
    assert(versions@.take(i as int) =~= versions@);
    out
}

} // verus!
