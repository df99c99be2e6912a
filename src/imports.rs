//! Extraction of the module paths that a module text imports.
//!
//! Two statement shapes are recognised, each followed by `from "<path>"`:
//! a braced list of names (`import { a, b } from "./x"`), and a namespace
//! or default import (`import * as x from "./x"`, `import x from "./x"`).
//! Whitespace, line breaks included, may stand between the parts. Matches
//! are taken left to right and never overlap.
use crate::exclusion::{
    lemma_region_removed, region_end, region_start, strip_regions, strip_regions_exec,
};
use crate::module::{module_names, Module};
use crate::text::{
    chars_of, contains, find_from, find_from_exec, lemma_find_from_bounds, occurs_at, occurs_at_exec, string_of,
};
use vstd::prelude::*;

verus! {

/// Unicode white space, as `char::is_whitespace` and the `\s` class of
/// regular expressions define it.
pub open spec fn is_space(c: char) -> bool {
    ('\u{9}' <= c && c <= '\u{d}') || c == ' ' || c == '\u{85}' || c == '\u{a0}'
        || c == '\u{1680}' || ('\u{2000}' <= c && c <= '\u{200a}') || c == '\u{2028}'
        || c == '\u{2029}' || c == '\u{202f}' || c == '\u{205f}' || c == '\u{3000}'
}

/// A character of an identifier: a Unicode word character, as the `\w`
/// class of regular expressions defines it (letters, marks, decimal
/// digits, connector punctuation and join controls).
pub uninterp spec fn is_word(c: char) -> bool;

/// Relies on `regex_syntax::is_word_character`, which decides membership
/// in the Unicode `\w` class; it depends on the character alone. It
/// panics only without the crate's `unicode-perl` feature, which its
/// default features enable.
#[verifier::external_body]
fn is_word_exec(c: char) -> (r: bool)
    ensures
        r == is_word(c),
{
    regex_syntax::is_word_character(c)
}

/// A class of characters that a statement lets run on.
pub enum CharClass {
    Space,
    Word,
}

pub open spec fn in_class(c: char, class: CharClass) -> bool {
    match class {
        CharClass::Space => is_space(c),
        CharClass::Word => is_word(c),
    }
}

/// The end of the longest run of `class` characters that starts at `k`.
pub open spec fn skip_run(s: Seq<char>, k: int, class: CharClass) -> int
    decreases s.len() - k,
{
    if k < 0 || k >= s.len() || !in_class(s[k], class) {
        k
    } else {
        skip_run(s, k + 1, class)
    }
}

pub proof fn lemma_skip_run_bounds(s: Seq<char>, k: int, class: CharClass)
    requires
        0 <= k <= s.len(),
    ensures
        k <= skip_run(s, k, class) <= s.len(),
    decreases s.len() - k,
{
    if k < s.len() && in_class(s[k], class) {
        lemma_skip_run_bounds(s, k + 1, class);
    }
}

/// Where the clause between `import` and `from` ends, when one of the
/// recognised shapes starts at `b`.
pub open spec fn clause_end(s: Seq<char>, b: int) -> Option<int> {
    if !(0 <= b < s.len()) {
        None
    } else if s[b] == '{' {
        let close = find_from(s, seq!['}'], b + 1);
        if close is Some && close->0 > b + 1 {
            Some(close->0 + 1)
        } else {
            None
        }
    } else if s[b] == '*' {
        let p = skip_run(s, b + 1, CharClass::Space);
        let q = p + "as"@.len();
        let r = skip_run(s, q + 1, CharClass::Word);
        if p > b + 1 && occurs_at(s, p, "as"@) && q < s.len() && is_space(s[q]) && r > q + 1 {
            Some(r)
        } else {
            None
        }
    } else if is_word(s[b]) {
        Some(skip_run(s, b, CharClass::Word))
    } else {
        None
    }
}

pub proof fn lemma_clause_end_bounds(s: Seq<char>, b: int)
    ensures
        clause_end(s, b) matches Some(c) ==> b < c <= s.len(),
{
    reveal_strlit("as");
    if clause_end(s, b) is Some {
        if s[b] == '{' {
            lemma_find_from_bounds(s, seq!['}'], b + 1);
        } else if s[b] == '*' {
            lemma_skip_run_bounds(s, b + 1, CharClass::Space);
            let p = skip_run(s, b + 1, CharClass::Space);
            lemma_skip_run_bounds(s, p + 3, CharClass::Word);
        } else {
            lemma_skip_run_bounds(s, b + 1, CharClass::Word);
        }
    }
}

/// The bounds of the path literal of an import statement that starts at
/// `i`, quotes excluded.
pub open spec fn import_at(s: Seq<char>, i: int) -> Option<(int, int)> {
    if !occurs_at(s, i, "import"@) {
        None
    } else {
        let a = i + "import"@.len();
        let b = skip_run(s, a, CharClass::Space);
        match clause_end(s, b) {
            None => None,
            Some(c) => {
                let d = skip_run(s, c, CharClass::Space);
                let e = d + "from"@.len();
                let f = skip_run(s, e, CharClass::Space);
                let close = find_from(s, seq!['"'], f + 1);
                if b > a && d > c && occurs_at(s, d, "from"@) && f > e && f < s.len() && s[f]
                    == '"' && close is Some && close->0 > f + 1 {
                    Some((f + 1, close->0))
                } else {
                    None
                }
            },
        }
    }
}

pub proof fn lemma_import_at_bounds(s: Seq<char>, i: int)
    ensures
        import_at(s, i) matches Some((g, h)) ==> i < g < h < s.len(),
{
    reveal_strlit("import");
    reveal_strlit("from");
    reveal_strlit("as");
    if let Some((g, h)) = import_at(s, i) {
        let a = i + 6;
        let b = skip_run(s, a, CharClass::Space);
        lemma_skip_run_bounds(s, a, CharClass::Space);
        let c = clause_end(s, b)->0;
        lemma_clause_end_bounds(s, b);
        lemma_skip_run_bounds(s, c, CharClass::Space);
        let d = skip_run(s, c, CharClass::Space);
        lemma_skip_run_bounds(s, d + 4, CharClass::Space);
        let f = skip_run(s, d + 4, CharClass::Space);
        lemma_find_from_bounds(s, seq!['"'], f + 1);
    }
}

/// The path literals of the import statements in `s` from `i` on.
pub open spec fn scan_from(s: Seq<char>, i: int) -> Seq<Seq<char>>
    decreases s.len() - i,
{
    if i < 0 || i >= s.len() {
        Seq::empty()
    } else {
        proof {
            lemma_import_at_bounds(s, i);
        }
        match import_at(s, i) {
            Some((g, h)) => seq![s.subrange(g, h)] + scan_from(s, h + 1),
            None => scan_from(s, i + 1),
        }
    }
}

/// The module paths that a module text imports, in order of appearance,
/// with repeats kept, once its exclusion regions are removed.
pub open spec fn import_paths(text: Seq<char>) -> Seq<Seq<char>> {
    scan_from(strip_regions(text), 0)
}

/// Each path that a scan reports is a piece of the scanned text.
pub proof fn lemma_scan_pieces(s: Seq<char>, i: int)
    ensures
        forall|k: int|
            0 <= k < scan_from(s, i).len() ==> contains(s, #[trigger] scan_from(s, i)[k]),
    decreases s.len() - i,
{
    if 0 <= i < s.len() {
        lemma_import_at_bounds(s, i);
        match import_at(s, i) {
            Some((g, h)) => {
                lemma_scan_pieces(s, h + 1);
                let piece = s.subrange(g, h);
                assert(s.subrange(g, g + piece.len()) =~= piece);
                assert(occurs_at(s, g, piece));
                let rest = scan_from(s, h + 1);
                assert(scan_from(s, i) == seq![piece] + rest);
                assert forall|k: int| 0 <= k < scan_from(s, i).len() implies contains(
                    s,
                    #[trigger] scan_from(s, i)[k],
                ) by {
                    if k > 0 {
                        assert(scan_from(s, i)[k] == rest[k - 1]);
                    } else {
                        assert(scan_from(s, i)[0] == piece);
                    }
                }
            },
            None => {
                lemma_scan_pieces(s, i + 1);
                assert(scan_from(s, i) == scan_from(s, i + 1));
            },
        }
    }
}

/// An exclusion region is as if it were not there: with the region
/// `region_start() + x + region_end()` standing between `p` and `s`, the
/// imports extracted are exactly those of `p + s`, in the same order, and
/// every reported path is a piece of `p + s`, so an import that appears
/// only inside the region is never reported. This holds when `x` holds no
/// end marker, `p` no start marker, and `s` neither marker.
pub proof fn excluded_region_is_ignored(p: Seq<char>, x: Seq<char>, s: Seq<char>)
    requires
        !contains(p, region_start()),
        !contains(x, region_end()),
        !contains(s, region_start()),
        !contains(s, region_end()),
    ensures
        import_paths(p + region_start() + x + region_end() + s) == import_paths(p + s),
        import_paths(p + s) == scan_from(p + s, 0),
        forall|k: int|
            0 <= k < import_paths(p + s).len() ==> contains(
                p + s,
                #[trigger] import_paths(p + s)[k],
            ),
{
    lemma_region_removed(p, x, s);
    lemma_scan_pieces(p + s, 0);
}

/// Extraction is a function of the text alone: two runs on the same text
/// give the same paths in the same order.
pub proof fn extraction_is_deterministic(first: Seq<char>, second: Seq<char>)
    requires
        first == second,
    ensures
        import_paths(first) == import_paths(second),
{
}

fn in_class_exec(c: char, class: &CharClass) -> (r: bool)
    ensures
        r == in_class(c, *class),
{
    match class {
        CharClass::Space => ('\u{9}' <= c && c <= '\u{d}') || c == ' ' || c == '\u{85}' || c
            == '\u{a0}' || c == '\u{1680}' || ('\u{2000}' <= c && c <= '\u{200a}') || c
            == '\u{2028}' || c == '\u{2029}' || c == '\u{202f}' || c == '\u{205f}' || c
            == '\u{3000}',
        CharClass::Word => is_word_exec(c),
    }
}

fn skip_run_exec(s: &Vec<char>, k: usize, class: CharClass) -> (r: usize)
    requires
        k <= s.len(),
    ensures
        r == skip_run(s@, k as int, class),
{
    let mut j: usize = k;
    while j < s.len() && in_class_exec(s[j], &class)
        invariant
            k <= j <= s.len(),
            skip_run(s@, j as int, class) == skip_run(s@, k as int, class),
        decreases s.len() - j,
    {
        j = j + 1;
    }
    j
}

fn clause_end_exec(s: &Vec<char>, b: usize) -> (r: Option<usize>)
    ensures
        r matches Some(c) ==> clause_end(s@, b as int) == Some(c as int),
        r is None ==> clause_end(s@, b as int) is None,
{
    if b >= s.len() {
        return None;
    }
    if s[b] == '{' {
        let close_brace = vec!['}'];
        assert(close_brace@ == seq!['}']);
        match find_from_exec(s, &close_brace, b + 1) {
            Some(k) => {
                proof {
                    lemma_find_from_bounds(s@, seq!['}'], b + 1);
                }
                if k > b + 1 {
                    Some(k + 1)
                } else {
                    None
                }
            },
            None => None,
        }
    } else if s[b] == '*' {
        let p = skip_run_exec(s, b + 1, CharClass::Space);
        let as_word = chars_of("as");
        proof {
            reveal_strlit("as");
        }
        if p > b + 1 && occurs_at_exec(s, p, &as_word) && p + 2 < s.len() && in_class_exec(
            s[p + 2],
            &CharClass::Space,
        ) {
            let r = skip_run_exec(s, p + 3, CharClass::Word);
            if r > p + 3 {
                Some(r)
            } else {
                None
            }
        } else {
            None
        }
    } else if in_class_exec(s[b], &CharClass::Word) {
        Some(skip_run_exec(s, b, CharClass::Word))
    } else {
        None
    }
}

fn import_at_exec(s: &Vec<char>, i: usize) -> (r: Option<(usize, usize)>)
    ensures
        r matches Some((g, h)) ==> import_at(s@, i as int) == Some((g as int, h as int)),
        r is None ==> import_at(s@, i as int) is None,
{
    let keyword = chars_of("import");
    let from_word = chars_of("from");
    proof {
        reveal_strlit("import");
        reveal_strlit("from");
        assert(keyword@.len() == 6);
        assert(from_word@.len() == 4);
    }
    if !occurs_at_exec(s, i, &keyword) {
        return None;
    }
    assert(i + 6 <= s.len());
    let a = i + 6;
    let b = skip_run_exec(s, a, CharClass::Space);
    proof {
        lemma_skip_run_bounds(s@, a as int, CharClass::Space);
    }
    if b == a {
        return None;
    }
    let c = match clause_end_exec(s, b) {
        Some(c) => c,
        None => {
            return None;
        },
    };
    proof {
        lemma_clause_end_bounds(s@, b as int);
        lemma_skip_run_bounds(s@, c as int, CharClass::Space);
    }
    let d = skip_run_exec(s, c, CharClass::Space);
    if d == c || !occurs_at_exec(s, d, &from_word) {
        return None;
    }
    assert(d + 4 <= s.len());
    let e = d + 4;
    let f = skip_run_exec(s, e, CharClass::Space);
    proof {
        lemma_skip_run_bounds(s@, e as int, CharClass::Space);
    }
    if f == e || f >= s.len() || s[f] != '"' {
        return None;
    }
    let quote = vec!['"'];
    assert(quote@ == seq!['"']);
    match find_from_exec(s, &quote, f + 1) {
        Some(h) => {
            proof {
                lemma_find_from_bounds(s@, seq!['"'], f + 1);
            }
            if h > f + 1 {
                Some((f + 1, h))
            } else {
                None
            }
        },
        None => None,
    }
}

/// The path literals of the import statements in `s`.
pub fn scan_exec(s: &Vec<char>) -> (r: Vec<Module>)
    ensures
        module_names(r@) == scan_from(s@, 0),
{
    let mut out: Vec<Module> = Vec::new();
    let mut i: usize = 0;
    while i < s.len()
        invariant
            i <= s.len(),
            module_names(out@) + scan_from(s@, i as int) == scan_from(s@, 0),
        decreases s.len() - i,
    {
        proof {
            lemma_import_at_bounds(s@, i as int);
        }
        match import_at_exec(s, i) {
            Some((g, h)) => {
                let path = string_of(s, g, h);
                let ghost before = module_names(out@);
                out.push(Module::new(path.as_str()));
                assert(module_names(out@) =~= before.push(s@.subrange(g as int, h as int)));
                assert(module_names(out@) + scan_from(s@, h + 1) =~= before + scan_from(
                    s@,
                    i as int,
                ));
                i = h + 1;
            },
            None => {
                i = i + 1;
            },
        }
    }
    assert(module_names(out@) =~= module_names(out@) + scan_from(s@, i as int));
    out
}

/// The modules that a module text imports, in order of appearance, with
/// repeats kept. Imports inside exclusion regions are left out.
pub fn imports_from_text(contents: &str) -> (r: Vec<Module>)
    ensures
        module_names(r@) == import_paths(contents@),
{
    let text = chars_of(contents);
    let visible = strip_regions_exec(&text);
    scan_exec(&visible)
}

} // verus!
