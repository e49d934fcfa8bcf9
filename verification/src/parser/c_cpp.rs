//! Symbols, imports and chunks of C and C++ source.
use vstd::prelude::*;

use crate::chunker::{chunk_by_lines, chunked_by_lines, chunks_are};
use crate::parser::extract::{
    has_import_match, has_symbol_match, imports_are, lemma_imports_push, lemma_symbols_push, make_import, make_symbol,
    root_boundary_rows, symbols_are, ImportMatch, SymbolMatch,
};
use crate::syntax::{node_text_or_empty, source_text, spec_node_text_or_empty, spec_source_text, SyntaxTree};
use crate::text::chars_of;
use crate::ts::{c_grammar, cpp_grammar, syntax_tree};
use crate::parser::{
    chunks_at_some_tree, import_kind_of, import_matches_of, imports_of_some_tree, symbol_matches_of,
    symbols_of_some_tree,
};
use crate::types::{Chunk, Import, ImportKind, Language, Symbol, SymbolKind};
use tree_sitter::Language as TsLanguage;

verus! {

/// The name node of a child `d` that stands in its parent's `declarator` field as a function
/// declarator: that declarator's own `declarator`, when it is an identifier.
pub open spec fn declarator_name(t: SyntaxTree, d: int) -> Option<int> {
    if t.child_fits(d, Some("declarator"@), Some("function_declarator"@)) {
        t.find_child(d, Some("declarator"@), Some("identifier"@))
    } else {
        None
    }
}

/// The name nodes of the functions that node `i` names through its children from position
/// `j` on, in order: one for each function declarator whose name is an identifier.
pub open spec fn function_names_from(t: SyntaxTree, i: int, j: int) -> Seq<int>
    decreases t.nodes@[i].children@.len() - j,
{
    if j < 0 || j >= t.nodes@[i].children@.len() {
        Seq::empty()
    } else {
        let rest = function_names_from(t, i, j + 1);
        match declarator_name(t, t.nodes@[i].children@[j] as int) {
            Some(c) => seq![c] + rest,
            None => rest,
        }
    }
}

/// The match of a function defined or declared at node `i` and named by node `c`.
pub open spec fn function_match(i: int, c: int) -> SymbolMatch {
    SymbolMatch { node: i, name_node: c, kind: SymbolKind::Function, doc: None, visibility: None, parent: None }
}

/// The type match at node `i`: structs and enums by their type identifier.
pub open spec fn c_type_match(t: SyntaxTree, i: int) -> Seq<SymbolMatch> {
    let k = t.kind_of(i);
    let sk = if k == "struct_specifier"@ { SymbolKind::Struct } else { SymbolKind::Enum };
    if k == "struct_specifier"@ || k == "enum_specifier"@ {
        match t.find_child(i, Some("name"@), Some("type_identifier"@)) {
            Some(c) => seq![SymbolMatch { node: i, name_node: c, kind: sk, doc: None, visibility: None, parent: None }],
            None => Seq::empty(),
        }
    } else {
        Seq::empty()
    }
}

/// The symbol matches at node `i`: one for each function that a definition or declaration
/// names, in the order of its declarators; structs and enums by their type identifier.
pub open spec fn c_node_match(t: SyntaxTree, i: int) -> Seq<SymbolMatch> {
    let k = t.kind_of(i);
    if k == "function_definition"@ || k == "declaration"@ {
        function_names_from(t, i, 0).map_values(|c: int| function_match(i, c))
    } else {
        c_type_match(t, i)
    }
}

/// The symbol matches among the first `n` nodes, in preorder.
pub open spec fn c_symbols_upto(t: SyntaxTree, n: int) -> Seq<SymbolMatch>
    decreases n,
{
    if n <= 0 {
        Seq::empty()
    } else {
        c_symbols_upto(t, n - 1) + c_node_match(t, n - 1)
    }
}

// ---------------------------------------------------------------------------
// What C and C++ nodes yield
// ---------------------------------------------------------------------------

/// The node kinds' names differ in their first characters.
proof fn lemma_c_kinds_distinct()
    ensures
        "function_definition"@[0] == 'f',
        "declaration"@[0] == 'd',
        "struct_specifier"@[0] == 's',
        "enum_specifier"@[0] == 'e',
{
    reveal_strlit("function_definition");
    reveal_strlit("declaration");
    reveal_strlit("struct_specifier");
    reveal_strlit("enum_specifier");
}

proof fn lemma_function_names_contain(t: SyntaxTree, i: int, j0: int, j: int, c: int)
    requires
        0 <= j0 <= j < t.nodes@[i].children@.len(),
        declarator_name(t, t.nodes@[i].children@[j] as int) == Some(c),
    ensures
        function_names_from(t, i, j0).contains(c),
    decreases j - j0,
{
    let rest = function_names_from(t, i, j0 + 1);
    if j0 == j {
        assert((seq![c] + rest)[0] == c);
    } else {
        lemma_function_names_contain(t, i, j0 + 1, j, c);
        let q = choose|q: int| 0 <= q < rest.len() && rest[q] == c;
        match declarator_name(t, t.nodes@[i].children@[j0] as int) {
            Some(x) => {
                assert((seq![x] + rest)[q + 1] == c);
            },
            None => {},
        }
    }
}

/// Whether match `m` has the symbol kind its node declares.
spec fn c_kind_fits(t: SyntaxTree, m: SymbolMatch) -> bool {
    let k = t.kind_of(m.node);
    if k == "function_definition"@ || k == "declaration"@ {
        m.kind == SymbolKind::Function
    } else if k == "struct_specifier"@ {
        m.kind == SymbolKind::Struct
    } else if k == "enum_specifier"@ {
        m.kind == SymbolKind::Enum
    } else {
        false
    }
}

proof fn lemma_c_symbols_upto_fit(t: SyntaxTree, n: int)
    ensures
        forall|j: int| 0 <= j < c_symbols_upto(t, n).len() ==> c_kind_fits(t, #[trigger] c_symbols_upto(t, n)[j]),
    decreases n,
{
    if n > 0 {
        lemma_c_symbols_upto_fit(t, n - 1);
        let prev = c_symbols_upto(t, n - 1);
        let here = c_node_match(t, n - 1);
        let all = c_symbols_upto(t, n);
        assert(all == prev + here);
        assert forall|j: int| 0 <= j < all.len() implies c_kind_fits(t, #[trigger] all[j]) by {
            if j < prev.len() {
                assert(all[j] == prev[j]);
            } else {
                assert(all[j] == here[j - prev.len()]);
            }
        }
    }
}

proof fn lemma_c_symbols_upto_contains(t: SyntaxTree, n: int, i: int, q: int)
    requires
        0 <= i < n,
        0 <= q < c_node_match(t, i).len(),
    ensures
        exists|j: int| 0 <= j < c_symbols_upto(t, n).len() && #[trigger] c_symbols_upto(t, n)[j] == c_node_match(t, i)[q],
    decreases n,
{
    let prev = c_symbols_upto(t, n - 1);
    let all = c_symbols_upto(t, n);
    assert(all == prev + c_node_match(t, n - 1));
    if i == n - 1 {
        assert(all[prev.len() + q] == c_node_match(t, i)[q]);
    } else {
        lemma_c_symbols_upto_contains(t, n - 1, i, q);
        let j = choose|j: int| 0 <= j < prev.len() && #[trigger] prev[j] == c_node_match(t, i)[q];
        assert(all[j] == prev[j]);
    }
}

/// C and C++ nodes yield symbols of the kind they declare, at any depth: a struct specifier
/// named by a type identifier yields a `Struct`, an enum specifier so named an `Enum`; a
/// function definition or declaration yields a `Function` for each of its `declarator`
/// children that is a function declarator named by an identifier.
pub proof fn lemma_c_nodes_yield_symbols(t: SyntaxTree, i: int)
    requires
        t.wf(),
        0 <= i < t.nodes@.len(),
    ensures
        t.kind_of(i) == "struct_specifier"@ ==> (t.find_child(i, Some("name"@), Some("type_identifier"@)) matches Some(c)
            ==> has_symbol_match(c_symbols_upto(t, t.nodes@.len() as int), i, c, SymbolKind::Struct)),
        t.kind_of(i) == "enum_specifier"@ ==> (t.find_child(i, Some("name"@), Some("type_identifier"@)) matches Some(c)
            ==> has_symbol_match(c_symbols_upto(t, t.nodes@.len() as int), i, c, SymbolKind::Enum)),
        forall|j: int|
            (t.kind_of(i) == "function_definition"@ || t.kind_of(i) == "declaration"@) && 0 <= j
                < t.nodes@[i].children@.len() && t.child_fits(
                #[trigger] t.nodes@[i].children@[j] as int,
                Some("declarator"@),
                Some("function_declarator"@),
            ) ==> (t.find_child(t.nodes@[i].children@[j] as int, Some("declarator"@), Some("identifier"@)) matches Some(c)
                ==> has_symbol_match(c_symbols_upto(t, t.nodes@.len() as int), i, c, SymbolKind::Function)),
{
    let n = t.nodes@.len() as int;
    let all = c_symbols_upto(t, n);
    let m = c_node_match(t, i);
    lemma_c_kinds_distinct();
    if m.len() > 0 && !(t.kind_of(i) == "function_definition"@ || t.kind_of(i) == "declaration"@) {
        lemma_c_symbols_upto_contains(t, n, i, 0);
        let j = choose|j: int| 0 <= j < all.len() && #[trigger] all[j] == m[0];
        assert(all[j] == m[0]);
    }
    assert forall|j: int|
        (t.kind_of(i) == "function_definition"@ || t.kind_of(i) == "declaration"@) && 0 <= j
            < t.nodes@[i].children@.len() && t.child_fits(
            #[trigger] t.nodes@[i].children@[j] as int,
            Some("declarator"@),
            Some("function_declarator"@),
        ) implies (t.find_child(t.nodes@[i].children@[j] as int, Some("declarator"@), Some("identifier"@)) matches Some(c)
            ==> has_symbol_match(all, i, c, SymbolKind::Function)) by {
        let d = t.nodes@[i].children@[j] as int;
        if let Some(c) = t.find_child(d, Some("declarator"@), Some("identifier"@)) {
            let names = function_names_from(t, i, 0);
            lemma_function_names_contain(t, i, 0, j, c);
            let q = choose|q: int| 0 <= q < names.len() && names[q] == c;
            assert(m == names.map_values(|x: int| function_match(i, x)));
            assert(m[q] == function_match(i, c));
            lemma_c_symbols_upto_contains(t, n, i, q);
            let p = choose|p: int| 0 <= p < all.len() && #[trigger] all[p] == m[q];
            assert(all[p] == m[q]);
        }
    }
}

/// Every C or C++ symbol has the kind its node declares: `Struct` exactly at struct
/// specifiers, `Enum` at enum specifiers, and `Function` at function definitions and
/// declarations; no other kind occurs.
pub proof fn lemma_c_symbol_kinds_follow_nodes(t: SyntaxTree, j: int)
    requires
        t.wf(),
        0 <= j < c_symbols_upto(t, t.nodes@.len() as int).len(),
    ensures
        ({
            let m = c_symbols_upto(t, t.nodes@.len() as int)[j];
            let k = t.kind_of(m.node);
            &&& (m.kind == SymbolKind::Struct <==> k == "struct_specifier"@)
            &&& (m.kind == SymbolKind::Enum <==> k == "enum_specifier"@)
            &&& (m.kind == SymbolKind::Function <==> (k == "function_definition"@ || k == "declaration"@))
        }),
{
    lemma_c_symbols_upto_fit(t, t.nodes@.len() as int);
    lemma_c_kinds_distinct();
    assert(c_kind_fits(t, c_symbols_upto(t, t.nodes@.len() as int)[j]));
}

/// The name nodes of the functions that node `i` names, in the order of its children.
fn function_names(t: &SyntaxTree, i: usize) -> (r: Vec<usize>)
    requires
        t.wf(),
        i < t.nodes@.len(),
    ensures
        r@.map_values(|c: usize| c as int) == function_names_from(*t, i as int, 0),
        forall|k: int| 0 <= k < r@.len() ==> #[trigger] r@[k] < t.nodes@.len(),
{
    let n = t.nodes[i].children.len();
    let mut r: Vec<usize> = Vec::new();
    let mut j: usize = 0;
    assert(r@.map_values(|c: usize| c as int) + function_names_from(*t, i as int, 0) =~= function_names_from(*t, i as int, 0));
    while j < n
        invariant
            t.wf(),
            i < t.nodes@.len(),
            n == t.nodes@[i as int].children@.len(),
            j <= n,
            function_names_from(*t, i as int, 0) == r@.map_values(|c: usize| c as int)
                + function_names_from(*t, i as int, j as int),
            forall|k: int| 0 <= k < r@.len() ==> #[trigger] r@[k] < t.nodes@.len(),
        decreases n - j,
    {
        let d = t.nodes[i].children[j];
        assert(i < d < t.nodes@.len()) by {
            assert(t.nodes@[i as int].children@[j as int] == d);
        }
        let ghost before = r@.map_values(|c: usize| c as int);
        let ghost rest = function_names_from(*t, i as int, j + 1);
        if t.fits(d, Some("declarator"), Some("function_declarator")) {
            match t.first_child(d, Some("declarator"), Some("identifier")) {
                Some(c) => {
                    r.push(c);
                    assert(r@.map_values(|x: usize| x as int) =~= before + seq![c as int]);
                    assert(before + (seq![c as int] + rest) =~= (before + seq![c as int]) + rest);
                },
                None => {},
            }
        }
        j = j + 1;
    }
    assert(r@.map_values(|c: usize| c as int) + function_names_from(*t, i as int, n as int) =~= r@.map_values(|c: usize| c as int));
    r
}

fn type_match_of(t: &SyntaxTree, i: usize) -> (r: Option<(usize, SymbolKind)>)
    requires
        t.wf(),
        i < t.nodes@.len(),
    ensures
        match r {
            Some((c, k)) => c_type_match(*t, i as int) =~= seq![
                SymbolMatch { node: i as int, name_node: c as int, kind: k, doc: None, visibility: None, parent: None },
            ] && c < t.nodes@.len(),
            None => c_type_match(*t, i as int).len() == 0,
        },
{
    if t.is_kind(i, "struct_specifier") {
        match t.first_child(i, Some("name"), Some("type_identifier")) {
            Some(c) => Some((c, SymbolKind::Struct)),
            None => None,
        }
    } else if t.is_kind(i, "enum_specifier") {
        match t.first_child(i, Some("name"), Some("type_identifier")) {
            Some(c) => Some((c, SymbolKind::Enum)),
            None => None,
        }
    } else {
        None
    }
}

/// The symbols of a C or C++ syntax tree, in preorder.
pub fn c_family_symbols(t: &SyntaxTree, language: Language, source: &[u8], path: &str) -> (res: Vec<Symbol>)
    requires
        t.wf(),
    ensures
        symbols_are(res@, *t, source@, path@, language, c_symbols_upto(*t, t.nodes@.len() as int)),
{
    let mut res: Vec<Symbol> = Vec::new();
    let n = t.nodes.len();
    let mut i: usize = 0;
    while i < n
        invariant
            t.wf(),
            n == t.nodes@.len(),
            i <= n,
            symbols_are(res@, *t, source@, path@, language, c_symbols_upto(*t, i as int)),
        decreases n - i,
    {
        let ghost prev = c_symbols_upto(*t, i as int);
        let ghost ms = c_node_match(*t, i as int);
        assert(c_symbols_upto(*t, i + 1) == prev + ms);
        if t.is_kind(i, "function_definition") || t.is_kind(i, "declaration") {
            let names = function_names(t, i);
            assert forall|q: int| 0 <= q < names@.len() implies ms[q] == function_match(
                i as int,
                #[trigger] names@[q] as int,
            ) by {
                assert(names@.map_values(|c: usize| c as int)[q] == names@[q] as int);
            }
            assert(ms.len() == names@.len()) by {
                assert(names@.map_values(|c: usize| c as int).len() == names@.len());
            }
            assert(prev + ms.take(0) =~= prev);
            let mut k: usize = 0;
            while k < names.len()
                invariant
                    t.wf(),
                    n == t.nodes@.len(),
                    i < n,
                    ms.len() == names@.len(),
                    forall|q: int| 0 <= q < names@.len() ==> ms[q] == function_match(i as int, #[trigger] names@[q] as int),
                    forall|q: int| 0 <= q < names@.len() ==> #[trigger] names@[q] < t.nodes@.len(),
                    k <= names@.len(),
                    symbols_are(res@, *t, source@, path@, language, prev + ms.take(k as int)),
                decreases names@.len() - k,
            {
                let c = names[k];
                let s = make_symbol(t, source, path, language, i, c, SymbolKind::Function, None, None, None);
                proof {
                    assert(ms[k as int] == function_match(i as int, names@[k as int] as int));
                    lemma_symbols_push(res@, s, *t, source@, path@, language, prev + ms.take(k as int), ms[k as int]);
                    assert((prev + ms.take(k as int)).push(ms[k as int]) =~= prev + ms.take(k + 1));
                }
                res.push(s);
                k = k + 1;
            }
            assert(ms.take(names@.len() as int) =~= ms);
        } else {
            assert(ms == c_type_match(*t, i as int));
            match type_match_of(t, i) {
                Some((c, k)) => {
                    let s = make_symbol(t, source, path, language, i, c, k, None, None, None);
                    proof {
                        lemma_symbols_push(res@, s, *t, source@, path@, language, prev, ms[0]);
                    }
                    res.push(s);
                },
                None => {
                    assert(prev + ms =~= prev);
                },
            }
        }
        i = i + 1;
    }
    res
}

/// Whether `c` is one of the characters that delimit an include path: `"`, `<` or `>`.
pub open spec fn is_include_delimiter(c: char) -> bool {
    c == '"' || c == '<' || c == '>'
}

/// Index of the first character of `s` at or after `i` that is not an include delimiter.
pub open spec fn skip_delims(s: Seq<char>, i: int) -> int
    decreases s.len() - i,
{
    if i < 0 || i >= s.len() {
        s.len() as int
    } else if is_include_delimiter(s[i]) {
        skip_delims(s, i + 1)
    } else {
        i
    }
}

/// Index just past the last character of `s[..j]` that is not an include delimiter, or `lo`.
pub open spec fn skip_delims_back(s: Seq<char>, lo: int, j: int) -> int
    decreases j - lo,
{
    if j <= lo || j > s.len() {
        lo
    } else if is_include_delimiter(s[j - 1]) {
        skip_delims_back(s, lo, j - 1)
    } else {
        j
    }
}

/// An include path without its delimiters at both ends (what `trim_matches` on `"`, `<` and
/// `>` returns).
pub open spec fn trim_delimiters(s: Seq<char>) -> Seq<char> {
    let a = skip_delims(s, 0);
    s.subrange(a, skip_delims_back(s, a, s.len() as int))
}

proof fn lemma_skip_delims(s: Seq<char>, i: int)
    requires
        0 <= i <= s.len(),
    ensures
        i <= skip_delims(s, i) <= s.len(),
    decreases s.len() - i,
{
    if i < s.len() && is_include_delimiter(s[i]) {
        lemma_skip_delims(s, i + 1);
    }
}

/// An include path without its delimiters at both ends.
pub fn trim_include_delimiters(text: &str) -> (res: String)
    ensures
        res@ == trim_delimiters(text@),
{
    let s = chars_of(text);
    let ghost g = s@;
    let mut a: usize = 0;
    while a < s.len() && (s[a] == '"' || s[a] == '<' || s[a] == '>')
        invariant
            a <= s@.len(),
            skip_delims(g, 0) == skip_delims(g, a as int),
            g == s@,
        decreases s@.len() - a,
    {
        a = a + 1;
    }
    proof {
        lemma_skip_delims(g, 0);
    }
    let mut b: usize = s.len();
    while b > a && (s[b - 1] == '"' || s[b - 1] == '<' || s[b - 1] == '>')
        invariant
            a <= b <= s@.len(),
            a == skip_delims(g, 0),
            skip_delims_back(g, a as int, s@.len() as int) == skip_delims_back(g, a as int, b as int),
            g == s@,
        decreases b,
    {
        b = b - 1;
    }
    let mut res = String::new();
    crate::text::append_range(&mut res, &s, a, b);
    assert(res@ =~= g.subrange(a as int, b as int));
    res
}

/// The import match at node `i`: a `#include` and its path without delimiters.
pub open spec fn c_import_match(t: SyntaxTree, source: Seq<u8>, i: int) -> Seq<ImportMatch> {
    if t.kind_of(i) == "preproc_include"@ {
        match t.find_child(i, Some("path"@), None) {
            Some(c) => seq![
                ImportMatch { node: i, target: trim_delimiters(spec_node_text_or_empty(source, t.nodes@[c])) },
            ],
            None => Seq::empty(),
        }
    } else {
        Seq::empty()
    }
}

/// The import matches among the first `n` nodes, in preorder.
pub open spec fn c_imports_upto(t: SyntaxTree, source: Seq<u8>, n: int) -> Seq<ImportMatch>
    decreases n,
{
    if n <= 0 {
        Seq::empty()
    } else {
        c_imports_upto(t, source, n - 1) + c_import_match(t, source, n - 1)
    }
}

proof fn lemma_c_imports_upto_contains(t: SyntaxTree, source: Seq<u8>, n: int, i: int)
    requires
        0 <= i < n,
        c_import_match(t, source, i).len() > 0,
    ensures
        exists|j: int|
            0 <= j < c_imports_upto(t, source, n).len() && #[trigger] c_imports_upto(t, source, n)[j]
                == c_import_match(t, source, i)[0],
    decreases n,
{
    let prev = c_imports_upto(t, source, n - 1);
    let all = c_imports_upto(t, source, n);
    assert(all == prev + c_import_match(t, source, n - 1));
    if i == n - 1 {
        assert(all[prev.len() as int] == c_import_match(t, source, i)[0]);
    } else {
        lemma_c_imports_upto_contains(t, source, n - 1, i);
        let j = choose|j: int| 0 <= j < prev.len() && #[trigger] prev[j] == c_import_match(t, source, i)[0];
        assert(all[j] == prev[j]);
    }
}

proof fn lemma_c_imports_upto_ordered(t: SyntaxTree, source: Seq<u8>, n: int)
    ensures
        forall|j: int|
            0 <= j < c_imports_upto(t, source, n).len() ==> {
                let m = #[trigger] c_imports_upto(t, source, n)[j];
                &&& 0 <= m.node < n
                &&& t.kind_of(m.node) == "preproc_include"@
            },
        forall|j1: int, j2: int|
            0 <= j1 < j2 < c_imports_upto(t, source, n).len() ==> (#[trigger] c_imports_upto(
                t,
                source,
                n,
            )[j1]).node < (#[trigger] c_imports_upto(t, source, n)[j2]).node,
    decreases n,
{
    if n > 0 {
        lemma_c_imports_upto_ordered(t, source, n - 1);
        let prev = c_imports_upto(t, source, n - 1);
        let all = c_imports_upto(t, source, n);
        let here = c_import_match(t, source, n - 1);
        assert(all == prev + here);
        assert forall|j: int| 0 <= j < all.len() implies {
            let m = #[trigger] all[j];
            &&& 0 <= m.node < n
            &&& t.kind_of(m.node) == "preproc_include"@
        } by {
            if j < prev.len() {
                assert(all[j] == prev[j]);
            } else {
                assert(all[j] == here[j - prev.len()]);
            }
        }
        assert forall|j1: int, j2: int| 0 <= j1 < j2 < all.len() implies (#[trigger] all[j1]).node
            < (#[trigger] all[j2]).node by {
            if j2 < prev.len() {
                assert(all[j1] == prev[j1]);
                assert(all[j2] == prev[j2]);
            } else {
                assert(all[j2] == here[j2 - prev.len()]);
                assert(j1 < prev.len());
                assert(all[j1] == prev[j1]);
            }
        }
    }
}

/// Every `#include` of a C or C++ tree, at any depth, with a `path` child yields an import of
/// that path's text without its `"`, `<` and `>` delimiters at that directive; each import
/// comes from a distinct directive, in preorder, so no directive yields two.
pub proof fn lemma_c_includes_yield_imports(t: SyntaxTree, source: Seq<u8>, i: int)
    requires
        t.wf(),
        0 <= i < t.nodes@.len(),
    ensures
        t.kind_of(i) == "preproc_include"@ ==> (t.find_child(i, Some("path"@), None) matches Some(c)
            ==> has_import_match(
            c_imports_upto(t, source, t.nodes@.len() as int),
            i,
            trim_delimiters(spec_node_text_or_empty(source, t.nodes@[c])),
        )),
        forall|j: int|
            0 <= j < c_imports_upto(t, source, t.nodes@.len() as int).len() ==> t.kind_of(
                (#[trigger] c_imports_upto(t, source, t.nodes@.len() as int)[j]).node,
            ) == "preproc_include"@,
        forall|j1: int, j2: int|
            0 <= j1 < j2 < c_imports_upto(t, source, t.nodes@.len() as int).len() ==> (#[trigger] c_imports_upto(
                t,
                source,
                t.nodes@.len() as int,
            )[j1]).node < (#[trigger] c_imports_upto(t, source, t.nodes@.len() as int)[j2]).node,
{
    let n = t.nodes@.len() as int;
    let all = c_imports_upto(t, source, n);
    lemma_c_imports_upto_ordered(t, source, n);
    let m = c_import_match(t, source, i);
    if m.len() > 0 {
        lemma_c_imports_upto_contains(t, source, n, i);
        let j = choose|j: int| 0 <= j < all.len() && #[trigger] all[j] == m[0];
        assert(all[j].node == i);
    }
}

/// The includes of a C or C++ syntax tree, in preorder.
pub fn c_family_imports(t: &SyntaxTree, source: &[u8], path: &str) -> (res: Vec<Import>)
    requires
        t.wf(),
    ensures
        imports_are(res@, *t, path@, ImportKind::Include, c_imports_upto(*t, source@, t.nodes@.len() as int)),
{
    let mut res: Vec<Import> = Vec::new();
    let n = t.nodes.len();
    let mut i: usize = 0;
    while i < n
        invariant
            t.wf(),
            n == t.nodes@.len(),
            i <= n,
            imports_are(res@, *t, path@, ImportKind::Include, c_imports_upto(*t, source@, i as int)),
        decreases n - i,
    {
        let ghost prev = c_imports_upto(*t, source@, i as int);
        let found = if t.is_kind(i, "preproc_include") {
            t.first_child(i, Some("path"), None)
        } else {
            None
        };
        match found {
            Some(c) => {
                let text = node_text_or_empty(source, &t.nodes[c]);
                let target = trim_include_delimiters(text.as_str());
                let imp = make_import(t, path, i, target, ImportKind::Include);
                proof {
                    let m = ImportMatch { node: i as int, target: target@ };
                    assert(c_import_match(*t, source@, i as int) =~= seq![m]);
                    lemma_imports_push(res@, imp, *t, path@, ImportKind::Include, prev, m);
                }
                res.push(imp);
            },
            None => {
                assert(prev + c_import_match(*t, source@, i as int) =~= prev);
            },
        }
        i = i + 1;
    }
    res
}

fn c_family_parse_symbols(grammar: &TsLanguage, language: Language, source: &[u8], file_path: &str) -> (res: Vec<Symbol>)
    requires
        language == Language::C || language == Language::Cpp,
    ensures
        symbols_of_some_tree(res@, source@, file_path@, language),
        forall|k: int| 0 <= k < res@.len() ==> (#[trigger] res@[k]).language == language && res@[k].file_path@ == file_path@,
{
    proof {
        reveal(symbols_of_some_tree);
    }
    match syntax_tree(grammar, source) {
        Some(t) => {
            let res = c_family_symbols(&t, language, source, file_path);
            assert(symbols_are(res@, t, source@, file_path@, language, symbol_matches_of(language, t, source@)));
            assert forall|k: int| 0 <= k < res@.len() implies (#[trigger] res@[k]).language == language
                && res@[k].file_path@ == file_path@ by {
                assert(crate::parser::extract::symbol_is(res@[k], t, source@, file_path@, language, c_symbols_upto(t, t.nodes@.len() as int)[k]));
            }
            res
        },
        None => Vec::new(),
    }
}

fn c_family_parse_imports(grammar: &TsLanguage, language: Language, source: &[u8], file_path: &str) -> (res: Vec<Import>)
    requires
        language == Language::C || language == Language::Cpp,
    ensures
        imports_of_some_tree(res@, source@, file_path@, language),
        forall|k: int| 0 <= k < res@.len() ==> (#[trigger] res@[k]).source_file@ == file_path@,
{
    proof {
        reveal(imports_of_some_tree);
    }
    match syntax_tree(grammar, source) {
        Some(t) => {
            let res = c_family_imports(&t, source, file_path);
            assert(imports_are(res@, t, file_path@, import_kind_of(language), import_matches_of(language, t, source@)));
            assert forall|k: int| 0 <= k < res@.len() implies (#[trigger] res@[k]).source_file@ == file_path@ by {
                let ms = c_imports_upto(t, source@, t.nodes@.len() as int);
                assert(crate::parser::extract::import_is(res@[k], t, file_path@, ms[k].node, ms[k].target, ImportKind::Include));
            }
            res
        },
        None => Vec::new(),
    }
}

fn c_family_chunks(grammar: &TsLanguage, language: Language, source: &[u8], file_path: &str) -> (res: Vec<Chunk>)
    ensures
        chunks_at_some_tree(res@, source@, file_path@, language),
        chunked_by_lines(res@, spec_source_text(source@), file_path@, language),
{
    let text = source_text(source);
    let b = match syntax_tree(grammar, source) {
        Some(t) => root_boundary_rows(&t),
        None => Vec::new(),
    };
    let res = chunk_by_lines(text.as_str(), file_path, language, b.as_slice());
    assert(chunks_are(res@, spec_source_text(source@), file_path@, language, b@));
    proof {
        if b@.len() == 0 {
            assert(b@ =~= Seq::<usize>::empty());
        }
        reveal(chunked_by_lines);
        reveal(chunks_at_some_tree);
    }
    res
}

/// The C parser.
pub struct CParser {
    grammar: TsLanguage,
}

/// The C++ parser.
pub struct CppParser {
    grammar: TsLanguage,
}

impl CParser {
    /// A parser with the C grammar.
    pub fn new() -> Self {
        CParser { grammar: c_grammar() }
    }
}

impl CppParser {
    /// A parser with the C++ grammar.
    pub fn new() -> Self {
        CppParser { grammar: cpp_grammar() }
    }
}

impl crate::parser::LanguageParser for CParser {
    open spec fn spec_language(&self) -> Language {
        Language::C
    }

    fn language(&self) -> (l: Language) {
        Language::C
    }

    fn extensions(&self) -> (res: Vec<&'static str>) {
        Language::C.extensions()
    }

    /// The symbols of the syntax tree the parser gives, as `c_family_symbols` extracts them.
    fn parse_symbols(&self, source: &[u8], file_path: &str) -> (res: Vec<Symbol>)
        ensures
            symbols_of_some_tree(res@, source@, file_path@, Language::C),
    {
        c_family_parse_symbols(&self.grammar, Language::C, source, file_path)
    }

    /// The includes of the syntax tree the parser gives, as `c_family_imports` extracts them.
    fn parse_imports(&self, source: &[u8], file_path: &str) -> (res: Vec<Import>)
        ensures
            imports_of_some_tree(res@, source@, file_path@, Language::C),
    {
        c_family_parse_imports(&self.grammar, Language::C, source, file_path)
    }

    /// The source text cut at the start rows of the top-level items of the syntax tree, or at
    /// no boundary when the parser gives no tree.
    fn chunk_file(&self, source: &[u8], file_path: &str) -> (res: Vec<Chunk>)
        ensures
            chunks_at_some_tree(res@, source@, file_path@, Language::C),
    {
        c_family_chunks(&self.grammar, Language::C, source, file_path)
    }
}

impl crate::parser::LanguageParser for CppParser {
    open spec fn spec_language(&self) -> Language {
        Language::Cpp
    }

    fn language(&self) -> (l: Language) {
        Language::Cpp
    }

    fn extensions(&self) -> (res: Vec<&'static str>) {
        Language::Cpp.extensions()
    }

    /// The symbols of the syntax tree the parser gives, as `c_family_symbols` extracts them.
    fn parse_symbols(&self, source: &[u8], file_path: &str) -> (res: Vec<Symbol>)
        ensures
            symbols_of_some_tree(res@, source@, file_path@, Language::Cpp),
    {
        c_family_parse_symbols(&self.grammar, Language::Cpp, source, file_path)
    }

    /// The includes of the syntax tree the parser gives, as `c_family_imports` extracts them.
    fn parse_imports(&self, source: &[u8], file_path: &str) -> (res: Vec<Import>)
        ensures
            imports_of_some_tree(res@, source@, file_path@, Language::Cpp),
    {
        c_family_parse_imports(&self.grammar, Language::Cpp, source, file_path)
    }

    /// The source text cut at the start rows of the top-level items of the syntax tree, or at
    /// no boundary when the parser gives no tree.
    fn chunk_file(&self, source: &[u8], file_path: &str) -> (res: Vec<Chunk>)
        ensures
            chunks_at_some_tree(res@, source@, file_path@, Language::Cpp),
    {
        c_family_chunks(&self.grammar, Language::Cpp, source, file_path)
    }
}

} // verus!
