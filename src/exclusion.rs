//! Removal of the regions of a module text whose imports need no mock.
//!
//! A region opens with `//#region not-mocked` and closes at the nearest
//! following `//#endregion`; both markers and everything between them are
//! removed. A start marker with no end marker after it removes nothing.
use crate::text::{
    chars_of, contains, find_from, find_from_exec, lemma_find_first, lemma_find_from_bounds, lemma_find_shift,
    lemma_occurs_shift, occurs_at, occurs_at_exec,
};
use vstd::prelude::*;

verus! {

/// The marker that opens an exclusion region.
pub open spec fn region_start() -> Seq<char> {
    "//#region not-mocked"@
}

/// The marker that closes an exclusion region.
pub open spec fn region_end() -> Seq<char> {
    "//#endregion"@
}

/// `s` from position `i` on, with every exclusion region removed.
pub open spec fn strip_from(s: Seq<char>, i: int) -> Seq<char>
    decreases s.len() - i,
{
    if i < 0 || i >= s.len() {
        Seq::empty()
    } else {
        let end = find_from(s, region_end(), i + region_start().len());
        proof {
            reveal_strlit("//#endregion");
            lemma_find_from_bounds(s, region_end(), i + region_start().len());
        }
        if occurs_at(s, i, region_start()) && end is Some {
            strip_from(s, end->0 + region_end().len())
        } else {
            seq![s[i]] + strip_from(s, i + 1)
        }
    }
}

/// `s` with every exclusion region removed.
pub open spec fn strip_regions(s: Seq<char>) -> Seq<char> {
    strip_from(s, 0)
}

pub proof fn lemma_strip_shift(a: Seq<char>, b: Seq<char>, k: int)
    requires
        0 <= k,
    ensures
        strip_from(a + b, a.len() + k) == strip_from(b, k),
    decreases b.len() - k,
{
    reveal_strlit("//#region not-mocked");
    reveal_strlit("//#endregion");
    if k < b.len() {
        let t = a + b;
        lemma_occurs_shift(a, b, k, region_start());
        lemma_find_shift(a, b, region_end(), k + region_start().len());
        lemma_find_from_bounds(b, region_end(), k + region_start().len());
        assert(t[a.len() + k] == b[k]);
        let end = find_from(b, region_end(), k + region_start().len());
        if occurs_at(b, k, region_start()) && end is Some {
            lemma_strip_shift(a, b, end->0 + region_end().len());
        } else {
            lemma_strip_shift(a, b, k + 1);
        }
    }
}

pub proof fn lemma_strip_prefix(t: Seq<char>, n: int, i: int)
    requires
        0 <= i <= n <= t.len(),
        forall|j: int|
            i <= j < n && #[trigger] occurs_at(t, j, region_start()) ==> find_from(
                t,
                region_end(),
                j + region_start().len(),
            ) is None,
    ensures
        strip_from(t, i) == t.subrange(i, n) + strip_from(t, n),
    decreases n - i,
{
    if i < n {
        lemma_strip_prefix(t, n, i + 1);
        assert(t.subrange(i, n) =~= seq![t[i]] + t.subrange(i + 1, n));
    } else {
        assert(t.subrange(i, n) =~= Seq::<char>::empty());
    }
}

/// Two occurrences of the start marker never overlap.
pub proof fn lemma_start_apart(t: Seq<char>, i: int, j: int)
    requires
        occurs_at(t, i, region_start()),
        occurs_at(t, j, region_start()),
        i < j,
    ensures
        j >= i + region_start().len(),
{
    reveal_strlit("//#region not-mocked");
    if j < i + 20 {
        let k = j - i;
        assert(t.subrange(j, j + 20)[0] == t[j]);
        assert(t.subrange(i, i + 20)[k] == t[j]);
        assert(t.subrange(j, j + 20)[1] == t[j + 1]);
        assert(t.subrange(i, i + 20)[k + 1] == t[j + 1]);
        assert(forall|m: int| 2 <= m < 20 ==> region_start()[m] != '/');
    }
}

/// Two occurrences of the end marker never overlap.
pub proof fn lemma_end_apart(t: Seq<char>, i: int, j: int)
    requires
        occurs_at(t, i, region_end()),
        occurs_at(t, j, region_end()),
        i < j,
    ensures
        j >= i + region_end().len(),
{
    reveal_strlit("//#endregion");
    if j < i + 12 {
        let k = j - i;
        assert(t.subrange(j, j + 12)[0] == t[j]);
        assert(t.subrange(i, i + 12)[k] == t[j]);
        assert(t.subrange(j, j + 12)[1] == t[j + 1]);
        assert(t.subrange(i, i + 12)[k + 1] == t[j + 1]);
        assert(forall|m: int| 2 <= m < 12 ==> region_end()[m] != '/');
    }
}

/// With no start marker in `p`, no end marker in `x`, and neither marker
/// in `s`, the region between `p` and `s` is removed and nothing else is.
pub proof fn lemma_region_removed(p: Seq<char>, x: Seq<char>, s: Seq<char>)
    requires
        !contains(p, region_start()),
        !contains(x, region_end()),
        !contains(s, region_start()),
        !contains(s, region_end()),
    ensures
        strip_regions(p + region_start() + x + region_end() + s) == p + s,
        strip_regions(p + s) == p + s,
{
    reveal_strlit("//#region not-mocked");
    reveal_strlit("//#endregion");
    let n = p.len() as int;
    let head = p + region_start();
    let closed = x + region_end();
    let t = head + (closed + s);
    assert(t =~= p + region_start() + x + region_end() + s);
    assert(t.subrange(n, n + 20) =~= region_start());
    // Before the region nothing is removed.
    assert forall|i: int| 0 <= i < n implies !#[trigger] occurs_at(t, i, region_start()) by {
        if occurs_at(t, i, region_start()) {
            if i + 20 <= n {
                assert(p.subrange(i, i + 20) =~= t.subrange(i, i + 20));
                assert(occurs_at(p, i, region_start()));
            } else {
                lemma_start_apart(t, i, n);
            }
        }
    }
    lemma_strip_prefix(t, n, 0);
    assert(t.subrange(0, n) =~= p);
    // The region closes at its own end marker.
    let e = n + 20 + x.len();
    assert(t.subrange(e, e + 12) =~= region_end());
    assert forall|j: int| n + 20 <= j < e implies !#[trigger] occurs_at(t, j, region_end()) by {
        if occurs_at(t, j, region_end()) {
            if j + 12 <= e {
                let o = j - (n + 20);
                assert(x.subrange(o, o + 12) =~= t.subrange(j, j + 12));
                assert(occurs_at(x, o, region_end()));
            } else {
                lemma_end_apart(t, j, e);
            }
        }
    }
    lemma_find_first(t, region_end(), n + 20, e);
    // After the region, `s` is kept whole.
    lemma_strip_shift(head + closed, s, 0);
    assert(head + closed + s =~= t);
    lemma_strip_prefix(s, s.len() as int, 0);
    assert(s.subrange(0, s.len() as int) =~= s);
    assert(strip_from(t, n) == s);
    assert(p + s =~= t.subrange(0, n) + strip_from(t, n));
    // Without the region, a start marker can only span the seam of `p + s`,
    // and no end marker follows it.
    let u = p + s;
    assert forall|i: int|
        0 <= i < u.len() && #[trigger] occurs_at(u, i, region_start()) implies find_from(
        u,
        region_end(),
        i + region_start().len(),
    ) is None by {
        if i + 20 <= n {
            assert(p.subrange(i, i + 20) =~= u.subrange(i, i + 20));
            assert(occurs_at(p, i, region_start()));
        } else if i >= n {
            assert(s.subrange(i - n, i - n + 20) =~= u.subrange(i, i + 20));
            assert(occurs_at(s, i - n, region_start()));
        } else {
            lemma_find_from_bounds(u, region_end(), i + 20);
            if find_from(u, region_end(), i + 20) is Some {
                let j = find_from(u, region_end(), i + 20)->0;
                assert(s.subrange(j - n, j - n + 12) =~= u.subrange(j, j + 12));
                assert(occurs_at(s, j - n, region_end()));
            }
        }
    }
    lemma_strip_prefix(u, u.len() as int, 0);
    assert(u.subrange(0, u.len() as int) =~= u);
}

/// `s` with every exclusion region removed.
pub fn strip_regions_exec(s: &Vec<char>) -> (r: Vec<char>)
    ensures
        r@ == strip_regions(s@),
{
    let start = chars_of("//#region not-mocked");
    let end = chars_of("//#endregion");
    proof {
        reveal_strlit("//#region not-mocked");
        reveal_strlit("//#endregion");
    }
    let mut out: Vec<char> = Vec::new();
    let mut i: usize = 0;
    while i < s.len()
        invariant
            i <= s.len(),
            start@ == region_start(),
            end@ == region_end(),
            out@ + strip_from(s@, i as int) == strip_from(s@, 0),
        decreases s.len() - i,
    {
        let mut skipped = false;
        if occurs_at_exec(s, i, &start) {
            let found = find_from_exec(s, &end, i + start.len());
            proof {
                reveal_strlit("//#region not-mocked");
                reveal_strlit("//#endregion");
                lemma_find_from_bounds(s@, region_end(), i + region_start().len());
            }
            if let Some(j) = found {
                i = j + end.len();
                skipped = true;
            }
        }
        if !skipped {
            let ghost before = out@;
            out.push(s[i]);
            assert(out@ + strip_from(s@, i + 1) =~= before + strip_from(s@, i as int));
            i = i + 1;
        }
    }
    assert(out@ =~= out@ + strip_from(s@, i as int));
    out
}

} // verus!
