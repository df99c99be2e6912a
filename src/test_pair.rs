//! Pairing test files with the modules they test.
//!
//! A test file's name holds the marker `.test` or `.spec`; its module
//! under test has the same path with the first occurrence of that marker
//! in the file name removed (`src/a.test.ts` tests `src/a.ts`). Paths are
//! separated by `/`. What the file system holds is probed by the caller and
//! handed in.
use crate::text::{
    chars_of, contains, find_from, find_from_exec, lemma_find_from_bounds, lemma_find_from_found,
    occurs_at, string_of,
};
use vstd::prelude::*;
use vstd::string::StringExecFns;

verus! {

/// The marker of a test file.
pub open spec fn test_marker() -> Seq<char> {
    ".test"@
}

/// The marker of a spec file, a test file too.
pub open spec fn spec_marker() -> Seq<char> {
    ".spec"@
}

/// Where the file name starts among the first `k` characters of `path`:
/// just after the last `/` before `k`, or at 0.
pub open spec fn name_start_before(path: Seq<char>, k: int) -> int
    decreases k,
{
    if k <= 0 {
        0
    } else if path[k - 1] == '/' {
        k
    } else {
        name_start_before(path, k - 1)
    }
}

/// Where the file name of `path` starts.
pub open spec fn file_name_start(path: Seq<char>) -> int {
    name_start_before(path, path.len() as int)
}

/// The file name of `path`: what follows its last `/`.
pub open spec fn file_name(path: Seq<char>) -> Seq<char> {
    path.subrange(file_name_start(path), path.len() as int)
}

/// `s` without the `n` characters at position `k`.
pub open spec fn remove_at(s: Seq<char>, k: int, n: int) -> Seq<char> {
    s.subrange(0, k) + s.subrange(k + n, s.len() as int)
}

/// The path of the module that the file at `path` tests, or `None` when
/// its file name holds neither marker. The test marker is looked for
/// first.
pub open spec fn under_test_path(path: Seq<char>) -> Option<Seq<char>> {
    let start = file_name_start(path);
    let t = find_from(path, test_marker(), start);
    let s = find_from(path, spec_marker(), start);
    if t is Some {
        Some(remove_at(path, t->0, test_marker().len() as int))
    } else if s is Some {
        Some(remove_at(path, s->0, spec_marker().len() as int))
    } else {
        None
    }
}

/// The names of the directories that a scan never enters.
pub open spec fn is_ignored_name(name: Seq<char>) -> bool {
    name == "node_modules"@ || name == "build"@ || name == "__snapshots__"@
}

pub proof fn lemma_name_start_bounds(path: Seq<char>, k: int)
    requires
        k <= path.len(),
    ensures
        0 <= name_start_before(path, k) <= if k < 0 { 0 } else { k },
        forall|j: int|
            name_start_before(path, k) <= j < k ==> #[trigger] path[j] != '/',
    decreases k,
{
    if k > 0 && path[k - 1] != '/' {
        lemma_name_start_bounds(path, k - 1);
    }
}

fn file_name_start_exec(path: &Vec<char>) -> (r: usize)
    ensures
        r == file_name_start(path@),
{
    let mut k: usize = path.len();
    while k > 0 && path[k - 1] != '/'
        invariant
            k <= path.len(),
            name_start_before(path@, k as int) == file_name_start(path@),
        decreases k,
    {
        k = k - 1;
    }
    k
}

/// The string `cs` without the characters from `k` to `k + n`.
fn remove_at_exec(cs: &Vec<char>, k: usize, n: usize) -> (r: String)
    requires
        k + n <= cs.len(),
    ensures
        r@ == remove_at(cs@, k as int, n as int),
{
    let mut r = string_of(cs, 0, k);
    let rest = string_of(cs, k + n, cs.len());
    r.append(rest.as_str());
    r
}

/// Whether a scan skips directories named `name`.
pub fn is_ignored_dir(name: &str) -> (r: bool)
    ensures
        r == is_ignored_name(name@),
{
    let n = chars_of(name);
    let a = chars_of("node_modules");
    let b = chars_of("build");
    let c = chars_of("__snapshots__");
    proof {
        reveal_strlit("node_modules");
        reveal_strlit("build");
        reveal_strlit("__snapshots__");
    }
    same_chars(&n, &a) || same_chars(&n, &b) || same_chars(&n, &c)
}

fn same_chars(a: &Vec<char>, b: &Vec<char>) -> (r: bool)
    ensures
        r == (a@ == b@),
{
    if a.len() != b.len() {
        return false;
    }
    let mut k: usize = 0;
    while k < a.len()
        invariant
            a.len() == b.len(),
            k <= a.len(),
            a@.subrange(0, k as int) == b@.subrange(0, k as int),
        decreases a.len() - k,
    {
        if a[k] != b[k] {
            return false;
        }
        k = k + 1;
        assert(a@.subrange(0, k as int) =~= a@.subrange(0, k - 1).push(a@[k - 1]));
        assert(b@.subrange(0, k as int) =~= b@.subrange(0, k - 1).push(b@[k - 1]));
    }
    assert(a@ =~= a@.subrange(0, k as int));
    assert(b@ =~= b@.subrange(0, k as int));
    true
}

/// A test file and the module it tests.
pub struct TestPair {
    pub test_file: String,
    pub module_file: String,
}

/// Why a test file could not be paired with its module.
pub enum Error {
    /// The test file does not exist.
    TestFileDoesNotExist(String),
    /// The file name holds neither test marker.
    NotTestFile(String),
    /// The module under test does not exist; it holds the module's path.
    UnderTestFileDoesNotExist(String),
}

/// What a scan learned of one entry: its path, whether it is a regular
/// file, and whether the module that its name points to is a regular file.
pub struct Probe {
    pub path: String,
    pub is_file: bool,
    pub module_is_file: bool,
}

/// The pair that a probe yields, as (test file, module file) paths: only
/// for a test file that is a regular file and whose module is one too.
pub open spec fn probe_pair(p: Probe) -> Option<(Seq<char>, Seq<char>)> {
    if p.is_file && p.module_is_file && under_test_path(p.path@) is Some {
        Some((p.path@, under_test_path(p.path@)->0))
    } else {
        None
    }
}

/// The pairs that a sequence of probes yields, in probe order.
pub open spec fn pairs_of(ps: Seq<Probe>) -> Seq<(Seq<char>, Seq<char>)>
    decreases ps.len(),
{
    if ps.len() == 0 {
        Seq::empty()
    } else {
        let rest = pairs_of(ps.drop_last());
        match probe_pair(ps.last()) {
            Some(pair) => rest.push(pair),
            None => rest,
        }
    }
}

/// The (test file, module file) paths of each pair.
pub open spec fn pair_views(v: Seq<TestPair>) -> Seq<(Seq<char>, Seq<char>)> {
    v.map_values(|t: TestPair| (t.test_file@, t.module_file@))
}

impl TestPair {
    pub fn new(test_file: String, module_file: String) -> (r: TestPair)
        ensures
            r.test_file == test_file,
            r.module_file == module_file,
    {
        TestPair { test_file, module_file }
    }

    /// The pair as `<test file> -> <module file>`.
    pub fn describe(&self) -> (r: String)
        ensures
            r@ == self.test_file@ + " -> "@ + self.module_file@,
    {
        let mut r = self.test_file.clone();
        r.append(" -> ");
        r.append(self.module_file.as_str());
        r
    }

    /// The path of the module that the file at `test_file` tests, or
    /// `None` when it is not a test file.
    pub fn under_test_path(test_file: &str) -> (r: Option<String>)
        ensures
            r matches Some(m) ==> under_test_path(test_file@) == Some(m@),
            r is None ==> under_test_path(test_file@) is None,
    {
        let path = chars_of(test_file);
        let start = file_name_start_exec(&path);
        let test = chars_of(".test");
        let spec = chars_of(".spec");
        proof {
            reveal_strlit(".test");
            reveal_strlit(".spec");
            lemma_find_from_bounds(path@, test_marker(), start as int);
            lemma_find_from_bounds(path@, spec_marker(), start as int);
        }
        match find_from_exec(&path, &test, start) {
            Some(k) => Some(remove_at_exec(&path, k, 5)),
            None => match find_from_exec(&path, &spec, start) {
                Some(k) => Some(remove_at_exec(&path, k, 5)),
                None => None,
            },
        }
    }
}

impl TestPair {
    /// Pairs the file at `test_file` with its module under test, given
    /// whether the test file exists and whether the module that its name
    /// points to is a regular file.
    pub fn resolve(test_file: &str, test_exists: bool, module_is_file: bool) -> (r: Result<
        TestPair,
        Error,
    >)
        ensures
            !test_exists ==> (r matches Err(Error::TestFileDoesNotExist(p)) && p@ == test_file@),
            test_exists && under_test_path(test_file@) is None ==> (r matches Err(
                Error::NotTestFile(p),
            ) && p@ == test_file@),
            test_exists && under_test_path(test_file@) is Some && !module_is_file ==> (r matches Err(
                Error::UnderTestFileDoesNotExist(p),
            ) && Some(p@) == under_test_path(test_file@)),
            test_exists && under_test_path(test_file@) is Some && module_is_file ==> (r matches Ok(
                pair,
            ) && pair.test_file@ == test_file@ && Some(pair.module_file@) == under_test_path(
                test_file@,
            )),
    {
        if !test_exists {
            return Err(Error::TestFileDoesNotExist(test_file.to_owned()));
        }
        match TestPair::under_test_path(test_file) {
            None => Err(Error::NotTestFile(test_file.to_owned())),
            Some(module_file) => {
                if !module_is_file {
                    Err(Error::UnderTestFileDoesNotExist(module_file))
                } else {
                    Ok(TestPair::new(test_file.to_owned(), module_file))
                }
            },
        }
    }
}

/// The pairs found by a scan, in the order of its probes. A probe whose
/// entry or module is not a regular file, or whose name is not a test file's,
/// yields nothing.
pub fn find_pairs(probes: &Vec<Probe>) -> (r: Vec<TestPair>)
    ensures
        pair_views(r@) == pairs_of(probes@),
{
    let mut out: Vec<TestPair> = Vec::new();
    let mut i: usize = 0;
    while i < probes.len()
        invariant
            i <= probes.len(),
            pair_views(out@) == pairs_of(probes@.take(i as int)),
        decreases probes.len() - i,
    {
        let probe = &probes[i];
        assert(probes@.take(i + 1).drop_last() =~= probes@.take(i as int));
        assert(probes@.take(i + 1).last() == probes@[i as int]);
        let found = TestPair::resolve(probe.path.as_str(), probe.is_file, probe.module_is_file);
        if let Ok(pair) = found {
            let ghost before = pair_views(out@);
            out.push(pair);
            assert(pair_views(out@) =~= before.push(probe_pair(*probe)->0));
        }
        i = i + 1;
    }
    assert(probes@.take(i as int) =~= probes@);
    out
}

/// Some probe of `ps` is of a regular test file at `pair.0` whose module,
/// at `pair.1`, is a regular file.
pub open spec fn probed_pair(ps: Seq<Probe>, pair: (Seq<char>, Seq<char>)) -> bool {
    exists|j: int|
        0 <= j < ps.len() && #[trigger] ps[j].is_file && ps[j].module_is_file && ps[j].path@
            == pair.0 && under_test_path(ps[j].path@) == Some(pair.1)
}

/// A scan never yields a pair whose files are not both there: each pair
/// comes from a probe of a regular test file whose module is a regular
/// file, and names that module.
pub proof fn found_pairs_exist(ps: Seq<Probe>)
    ensures
        forall|k: int| 0 <= k < pairs_of(ps).len() ==> probed_pair(ps, #[trigger] pairs_of(ps)[k]),
    decreases ps.len(),
{
    if ps.len() > 0 {
        let rest = ps.drop_last();
        found_pairs_exist(rest);
        assert forall|k: int| 0 <= k < pairs_of(ps).len() implies probed_pair(
            ps,
            #[trigger] pairs_of(ps)[k],
        ) by {
            if k < pairs_of(rest).len() {
                let pair = pairs_of(rest)[k];
                assert(probed_pair(rest, pair));
                let j = choose|j: int|
                    0 <= j < rest.len() && #[trigger] rest[j].is_file && rest[j].module_is_file
                        && rest[j].path@ == pair.0 && under_test_path(rest[j].path@) == Some(
                        pair.1,
                    );
                assert(ps[j] == rest[j]);
            } else {
                assert(ps[ps.len() - 1] == ps.last());
            }
        }
    }
}

/// A file whose name holds a test marker is a test file: it has a module
/// under test, so checked on its own while that module is missing it
/// yields `UnderTestFileDoesNotExist` and never a pair (see
/// `TestPair::resolve`).
pub proof fn marked_name_is_test_file(path: Seq<char>)
    requires
        contains(file_name(path), test_marker()) || contains(file_name(path), spec_marker()),
    ensures
        under_test_path(path) is Some,
{
    let start = file_name_start(path);
    lemma_name_start_bounds(path, path.len() as int);
    let name = file_name(path);
    let marker = if contains(name, test_marker()) {
        test_marker()
    } else {
        spec_marker()
    };
    let i = choose|i: int| #[trigger] occurs_at(name, i, marker);
    assert(path.subrange(start + i, start + i + marker.len()) =~= name.subrange(
        i,
        i + marker.len(),
    ));
    lemma_find_from_found(path, marker, start, start + i);
}

} // verus!
