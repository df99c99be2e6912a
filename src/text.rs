//! Character-level helpers shared by the extraction and verification steps.
use vstd::prelude::*;

verus! {

/// `p` occurs in `s` starting at position `i`.
pub open spec fn occurs_at(s: Seq<char>, i: int, p: Seq<char>) -> bool {
    0 <= i && i + p.len() <= s.len() && s.subrange(i, i + p.len()) == p
}

/// `p` occurs somewhere in `s`.
pub open spec fn contains(s: Seq<char>, p: Seq<char>) -> bool {
    exists|i: int| #[trigger] occurs_at(s, i, p)
}

/// The first position at or after `from` where `p` occurs in `s`.
pub open spec fn find_from(s: Seq<char>, p: Seq<char>, from: int) -> Option<int>
    decreases s.len() + 1 - from,
{
    if from < 0 || from + p.len() > s.len() {
        None
    } else if occurs_at(s, from, p) {
        Some(from)
    } else {
        find_from(s, p, from + 1)
    }
}

pub proof fn lemma_find_from_bounds(s: Seq<char>, p: Seq<char>, from: int)
    ensures
        find_from(s, p, from) matches Some(j) ==> from <= j && j + p.len() <= s.len()
            && occurs_at(s, j, p),
        0 <= from && find_from(s, p, from) is None ==> forall|j: int|
            from <= j ==> !#[trigger] occurs_at(s, j, p),
    decreases s.len() + 1 - from,
{
    if from >= 0 && from + p.len() <= s.len() && !occurs_at(s, from, p) {
        lemma_find_from_bounds(s, p, from + 1);
    }
}

pub proof fn lemma_occurs_shift(a: Seq<char>, b: Seq<char>, k: int, p: Seq<char>)
    requires
        0 <= k,
    ensures
        occurs_at(a + b, a.len() + k, p) == occurs_at(b, k, p),
{
    if k + p.len() <= b.len() {
        assert((a + b).subrange(a.len() + k, a.len() + k + p.len()) =~= b.subrange(
            k,
            k + p.len(),
        ));
    }
}

pub proof fn lemma_find_shift(a: Seq<char>, b: Seq<char>, p: Seq<char>, k: int)
    requires
        0 <= k,
    ensures
        find_from(a + b, p, a.len() + k) == match find_from(b, p, k) {
            Some(j) => Some(j + a.len()),
            None => None,
        },
    decreases b.len() + 1 - k,
{
    lemma_occurs_shift(a, b, k, p);
    if k + p.len() <= b.len() && !occurs_at(b, k, p) {
        lemma_find_shift(a, b, p, k + 1);
    }
}

pub proof fn lemma_find_first(s: Seq<char>, p: Seq<char>, from: int, target: int)
    requires
        0 <= from <= target,
        occurs_at(s, target, p),
        forall|j: int| from <= j < target ==> !#[trigger] occurs_at(s, j, p),
    ensures
        find_from(s, p, from) == Some(target),
    decreases target - from,
{
    if from < target {
        lemma_find_first(s, p, from + 1, target);
    }
}

/// An occurrence at or after `from` means that a first one is found.
pub proof fn lemma_find_from_found(s: Seq<char>, p: Seq<char>, from: int, j: int)
    requires
        0 <= from <= j,
        occurs_at(s, j, p),
    ensures
        find_from(s, p, from) is Some,
{
    lemma_find_from_bounds(s, p, from);
}

/// The first position at or after `from` where `p` occurs in `s`.
pub fn find_from_exec(s: &Vec<char>, p: &Vec<char>, from: usize) -> (r: Option<usize>)
    ensures
        r matches Some(j) ==> find_from(s@, p@, from as int) == Some(j as int),
        r is None ==> find_from(s@, p@, from as int) is None,
{
    if p.len() > s.len() {
        return None;
    }
    let last: usize = s.len() - p.len();
    if from > last {
        return None;
    }
    let mut k: usize = from;
    while k < last
        invariant
            last == s.len() - p.len(),
            from <= k <= last,
            find_from(s@, p@, k as int) == find_from(s@, p@, from as int),
        decreases last - k,
    {
        if occurs_at_exec(s, k, p) {
            return Some(k);
        }
        k = k + 1;
    }
    if occurs_at_exec(s, last, p) {
        Some(last)
    } else {
        assert(find_from(s@, p@, last + 1) is None);
        None
    }
}

/// Relies on `String::push`: the character is appended at the end.
#[verifier::external_body]
pub(crate) fn push_char(s: &mut String, c: char)
    ensures
        final(s)@ == old(s)@.push(c),
{
    s.push(c)
}

/// The characters of `s`, in order.
pub fn chars_of(s: &str) -> (r: Vec<char>)
    ensures
        r@ == s@,
{
    let mut r: Vec<char> = Vec::new();
    for c in it: s.chars()
        invariant
            r@ == it.seq().take(it.index() as int),
    {
        r.push(c);
    }
    r
}

/// The string holding `cs[from..to]`.
pub fn string_of(cs: &Vec<char>, from: usize, to: usize) -> (r: String)
    requires
        from <= to <= cs.len(),
    ensures
        r@ == cs@.subrange(from as int, to as int),
{
    let mut r = String::new();
    let mut k: usize = from;
    while k < to
        invariant
            from <= k <= to <= cs.len(),
            r@ == cs@.subrange(from as int, k as int),
        decreases to - k,
    {
        push_char(&mut r, cs[k]);
        k = k + 1;
        assert(r@ =~= cs@.subrange(from as int, k as int));
    }
    r
}

/// Whether `p` occurs in `s` at position `i`.
pub fn occurs_at_exec(s: &Vec<char>, i: usize, p: &Vec<char>) -> (r: bool)
    ensures
        r == occurs_at(s@, i as int, p@),
{
    if i > s.len() || p.len() > s.len() - i {
        return false;
    }
    let mut k: usize = 0;
    while k < p.len()
        invariant
            i + p.len() <= s.len(),
            k <= p.len(),
            s@.subrange(i as int, i + k) == p@.subrange(0, k as int),
        decreases p.len() - k,
    {
        if s[i + k] != p[k] {
            assert(s@.subrange(i as int, i + p.len())[k as int] != p@[k as int]);
            return false;
        }
        k = k + 1;
        assert(s@.subrange(i as int, i + k) =~= p@.subrange(0, k as int));
    }
    assert(p@.subrange(0, k as int) =~= p@);
    true
}

/// Whether `p` occurs anywhere in `s`.
pub fn contains_exec(s: &Vec<char>, p: &Vec<char>) -> (r: bool)
    ensures
        r == contains(s@, p@),
{
    if p.len() > s.len() {
        return false;
    }
    let last: usize = s.len() - p.len();
    let mut i: usize = 0;
    while i < last
        invariant
            i <= last == s.len() - p.len(),
            forall|j: int| 0 <= j < i ==> !#[trigger] occurs_at(s@, j, p@),
        decreases last - i,
    {
        if occurs_at_exec(s, i, p) {
            return true;
        }
        i = i + 1;
    }
    let r = occurs_at_exec(s, last, p);
    assert(!r ==> forall|j: int| !#[trigger] occurs_at(s@, j, p@));
    r
}

} // verus!
