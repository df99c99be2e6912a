//! Checking a test file's mock declarations against the imports of its
//! module under test.
use crate::module::{is_mocked, mock_declaration, mock_prefix, module_names, Module};
use crate::text::occurs_at;
use vstd::prelude::*;

verus! {

/// The paths of `ms` that `test_file` does not mock, in their order.
pub open spec fn missing_paths(ms: Seq<Seq<char>>, test_file: Seq<char>) -> Seq<Seq<char>>
    decreases ms.len(),
{
    if ms.len() == 0 {
        Seq::empty()
    } else {
        let rest = missing_paths(ms.drop_last(), test_file);
        if is_mocked(test_file, ms.last()) {
            rest
        } else {
            rest.push(ms.last())
        }
    }
}

/// `t` with the mock declaration of `m` added on a line of its own.
pub open spec fn with_mock_added(t: Seq<char>, m: Seq<char>) -> Seq<char> {
    t + "\n"@ + mock_declaration(m)
}

/// `s` holds no `c`.
pub open spec fn lacks(s: Seq<char>, c: char) -> bool {
    forall|i: int| 0 <= i < s.len() ==> s[i] != c
}

/// Adding the declaration for `m` mocks `m`, keeps every mock there was,
/// and mocks no other module without a line break in its path, when `m`
/// holds no quote.
pub proof fn lemma_added_mock_verdict(t: Seq<char>, m: Seq<char>, b: Seq<char>)
    requires
        lacks(m, '"'),
    ensures
        is_mocked(with_mock_added(t, m), m),
        is_mocked(t, b) ==> is_mocked(with_mock_added(t, m), b),
        b != m && lacks(b, '\n') ==> (is_mocked(with_mock_added(t, m), b) == is_mocked(t, b)),
{
    reveal_strlit("jest.mock(\"");
    reveal_strlit("\"");
    reveal_strlit("\")");
    reveal_strlit("\n");
    let d = mock_declaration(m);
    let big = with_mock_added(t, m);
    let head = t + "\n"@;
    assert(big == head + d);
    // The new line mocks `m`.
    let pm = mock_prefix(m);
    assert(big.subrange(head.len() as int, head.len() + pm.len() as int) =~= pm);
    assert(occurs_at(big, head.len() as int, pm));
    // What `t` mocked stays mocked.
    if is_mocked(t, b) {
        let pb = mock_prefix(b);
        let i = choose|i: int| #[trigger] occurs_at(t, i, pb);
        assert(big.subrange(i, i + pb.len()) =~= t.subrange(i, i + pb.len()));
        assert(occurs_at(big, i, pb));
    }
    if b != m && lacks(b, '\n') && is_mocked(big, b) && !is_mocked(t, b) {
        let pb = mock_prefix(b);
        let j = choose|j: int| #[trigger] occurs_at(big, j, pb);
        assert(big.subrange(j, j + pb.len())[0] == big[j]);
        if j + pb.len() <= t.len() {
            assert(big.subrange(j, j + pb.len()) =~= t.subrange(j, j + pb.len()));
            assert(occurs_at(t, j, pb));
        } else if j <= t.len() {
            // The line break at the end of `t` would fall inside the prefix.
            let o = t.len() - j;
            assert(big[t.len() as int] == '\n');
            assert(big.subrange(j, j + pb.len())[o] == pb[o]);
            if o >= 11 && o < 11 + b.len() {
                assert(pb[o] == b[o - 11]);
            }
        } else {
            // The prefix lies in the declaration, whose quotes are at 10
            // and just after `m`.
            let u = j - head.len();
            assert(big.subrange(j, j + pb.len())[10] == pb[10]);
            assert(big[j + 10] == d[u + 10]);
            if u + 10 >= 11 && u + 10 < 11 + m.len() {
                assert(d[u + 10] == m[u - 1]);
            }
            if u == 0 {
                let k = 11 + b.len() as int;
                assert(big.subrange(j, j + pb.len())[k] == pb[k]);
                if b.len() < m.len() {
                    assert(d[k] == m[b.len() as int]);
                } else if b.len() == m.len() {
                    assert forall|i: int| 0 <= i < b.len() implies b[i] == m[i] by {
                        assert(big.subrange(j, j + pb.len())[11 + i] == pb[11 + i]);
                    }
                    assert(b =~= m);
                } else {
                    assert(big.subrange(j, j + pb.len())[12 + m.len() as int] == pb[12 + m.len() as int]);
                }
            } else {
                assert(big.subrange(j, j + pb.len())[11] == pb[11]);
            }
        }
    }
}

/// Adding the missing mock declaration of `m` to a test file takes `m`
/// out of the missing paths and leaves every other verdict as it was.
/// This holds when `m` holds no quote (no extracted path does) and no
/// checked path holds a line break.
pub proof fn adding_a_mock_removes_it(ms: Seq<Seq<char>>, t: Seq<char>, m: Seq<char>)
    requires
        lacks(m, '"'),
        forall|k: int| 0 <= k < ms.len() ==> lacks(#[trigger] ms[k], '\n'),
    ensures
        missing_paths(ms, with_mock_added(t, m)) == missing_paths(ms, t).filter(
            |b: Seq<char>| b != m,
        ),
    decreases ms.len(),
{
    reveal(Seq::filter);
    if ms.len() > 0 {
        let rest = ms.drop_last();
        assert forall|k: int| 0 <= k < rest.len() implies lacks(#[trigger] rest[k], '\n') by {
            assert(rest[k] == ms[k]);
        }
        adding_a_mock_removes_it(rest, t, m);
        assert(ms[ms.len() - 1] == ms.last());
        lemma_added_mock_verdict(t, m, ms.last());
        let kept = missing_paths(rest, t);
        if !is_mocked(t, ms.last()) {
            assert(kept.push(ms.last()).drop_last() =~= kept);
        }
    }
}

/// The outcome of checking one test file.
pub enum Verdict {
    /// The module under test imports nothing, so nothing was checked.
    NoImports,
    /// Every import has a mock declaration.
    AllMocked,
    /// The imports without a mock declaration, in import order.
    Missing(Vec<Module>),
}

/// The modules of `modules` that `test_file` does not mock, in their order.
pub fn missing_mocks(modules: &Vec<Module>, test_file: &str) -> (r: Vec<Module>)
    ensures
        module_names(r@) == missing_paths(module_names(modules@), test_file@),
{
    let mut out: Vec<Module> = Vec::new();
    let mut i: usize = 0;
    while i < modules.len()
        invariant
            i <= modules.len(),
            module_names(out@) == missing_paths(module_names(modules@).take(i as int), test_file@),
        decreases modules.len() - i,
    {
        let ghost names = module_names(modules@);
        assert(names.take(i + 1).drop_last() =~= names.take(i as int));
        assert(names.take(i + 1).last() == modules@[i as int]@);
        if !modules[i].mock_with_in(test_file) {
            let ghost before = module_names(out@);
            out.push(modules[i].duplicate());
            assert(module_names(out@) =~= before.push(modules@[i as int]@));
        }
        i = i + 1;
    }
    assert(module_names(modules@).take(i as int) =~= module_names(modules@));
    out
}

/// Checks `test_file` for a mock declaration of each of `modules`. With no
/// modules nothing is checked and the verdict is neither a success nor a
/// failure.
pub fn check_test_for_jest_mocks(modules: &Vec<Module>, test_file: &str) -> (r: Verdict)
    ensures
        modules@.len() == 0 <==> r is NoImports,
        modules@.len() > 0 ==> (r is AllMocked <==> missing_paths(
            module_names(modules@),
            test_file@,
        ).len() == 0),
        r matches Verdict::Missing(v) ==> module_names(v@) == missing_paths(
            module_names(modules@),
            test_file@,
        ),
{
    if modules.len() == 0 {
        return Verdict::NoImports;
    }
    let missing = missing_mocks(modules, test_file);
    if missing.len() == 0 {
        Verdict::AllMocked
    } else {
        Verdict::Missing(missing)
    }
}

} // verus!
