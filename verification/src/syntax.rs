//! A plain-value model of a concrete syntax tree, and the text operations that symbol
//! extraction performs on node text.
use vstd::prelude::*;
use vstd::utf8::{decode_utf8, valid_utf8};

use crate::text::{chars_of, line_spans, text_lines};

verus! {

/// One node of a syntax tree.
#[derive(Debug, Clone)]
pub struct SyntaxNode {
    /// The grammar's name for the node type.
    pub kind: String,
    /// The field name under which the parent holds this node, if any.
    pub field: Option<String>,
    /// Whether the node is a named node (not anonymous punctuation).
    pub named: bool,
    /// 0-based row of the first character.
    pub start_row: usize,
    /// 0-based row of the position just after the last character.
    pub end_row: usize,
    /// Byte offset of the node's start in the source.
    pub start_byte: usize,
    /// Byte offset just past the node's end in the source.
    pub end_byte: usize,
    /// Index of the parent node, if any.
    pub parent: Option<usize>,
    /// Position of this node among its parent's children.
    pub index_in_parent: usize,
    /// Indices of the children, in order.
    pub children: Vec<usize>,
}

/// A syntax tree in preorder: node 0 is the root, and every node comes before its children.
#[derive(Debug, Clone)]
pub struct SyntaxTree {
    pub nodes: Vec<SyntaxNode>,
}

/// Parent and child links agree and point forward in preorder.
pub open spec fn nodes_wf(nodes: Seq<SyntaxNode>) -> bool {
    &&& forall|i: int|
        0 <= i < nodes.len() ==> (#[trigger] nodes[i]).start_row < usize::MAX && nodes[i].end_row
            < usize::MAX
    &&& forall|i: int, j: int|
        0 <= i < nodes.len() && 0 <= j < nodes[i].children@.len() ==> {
            let c = #[trigger] nodes[i].children@[j] as int;
            &&& i < c < nodes.len()
            &&& nodes[c].parent == Some(i as usize)
            &&& nodes[c].index_in_parent == j
        }
    &&& forall|i: int|
        0 <= i < nodes.len() ==> match #[trigger] nodes[i].parent {
            Some(p) => {
                &&& 0 <= p < i
                &&& nodes[i].index_in_parent < nodes[p as int].children@.len()
                &&& nodes[p as int].children@[nodes[i].index_in_parent as int] == i
            },
            None => true,
        }
}

impl SyntaxTree {
    /// Parent and child links agree and point forward in preorder.
    pub open spec fn wf(&self) -> bool {
        nodes_wf(self.nodes@)
    }

    /// The kind of node `i`.
    pub open spec fn kind_of(&self, i: int) -> Seq<char> {
        self.nodes@[i].kind@
    }

    /// Whether child `c` carries field `field` and, when `kind` is given, is a named node of
    /// that kind (with no kind given, any named node qualifies).
    pub open spec fn child_fits(&self, c: int, field: Option<Seq<char>>, kind: Option<Seq<char>>) -> bool {
        &&& self.nodes@[c].named
        &&& match field {
            Some(f) => self.nodes@[c].field matches Some(g) && g@ == f,
            None => true,
        }
        &&& match kind {
            Some(k) => self.nodes@[c].kind@ == k,
            None => true,
        }
    }

    /// The first child of node `i`, from position `j` on, that fits `field` and `kind`.
    pub open spec fn find_child_from(
        &self,
        i: int,
        j: int,
        field: Option<Seq<char>>,
        kind: Option<Seq<char>>,
    ) -> Option<int>
        decreases self.nodes@[i].children@.len() - j,
    {
        if j < 0 || j >= self.nodes@[i].children@.len() {
            None
        } else if self.child_fits(self.nodes@[i].children@[j] as int, field, kind) {
            Some(self.nodes@[i].children@[j] as int)
        } else {
            self.find_child_from(i, j + 1, field, kind)
        }
    }

    /// The first child of node `i` that fits `field` and `kind`.
    pub open spec fn find_child(&self, i: int, field: Option<Seq<char>>, kind: Option<Seq<char>>) -> Option<
        int,
    > {
        self.find_child_from(i, 0, field, kind)
    }

    /// The first child of node `i` that fits `field` and `kind`.
    pub fn first_child(&self, i: usize, field: Option<&str>, kind: Option<&str>) -> (res: Option<usize>)
        requires
            self.wf(),
            i < self.nodes@.len(),
        ensures
            res matches Some(c) ==> Some(c as int) == self.find_child(
                i as int,
                opt_view(field),
                opt_view(kind),
            ),
            res is None ==> self.find_child(i as int, opt_view(field), opt_view(kind)) is None,
            res matches Some(c) ==> i < c < self.nodes@.len(),
    {
        let ghost f = opt_view(field);
        let ghost k = opt_view(kind);
        let n = self.nodes[i].children.len();
        let mut j: usize = n;
        let mut found: Option<usize> = None;
        while j > 0
            invariant
                self.wf(),
                i < self.nodes@.len(),
                n == self.nodes@[i as int].children@.len(),
                f == opt_view(field),
                k == opt_view(kind),
                j <= n,
                found is None ==> self.find_child_from(i as int, j as int, f, k) is None,
                found matches Some(c) ==> Some(c as int) == self.find_child_from(
                    i as int,
                    j as int,
                    f,
                    k,
                ) && i < c < self.nodes@.len(),
            decreases j,
        {
            j = j - 1;
            let c = self.nodes[i].children[j];
            assert(i < c < self.nodes@.len()) by {
                assert(self.nodes@[i as int].children@[j as int] == c);
            }
            let fit = self.fits(c, field, kind);
            assert(self.find_child_from(i as int, j as int, f, k) == if self.child_fits(c as int, f, k) {
                Some(c as int)
            } else {
                self.find_child_from(i as int, j + 1, f, k)
            });
            if fit {
                found = Some(c);
            }
        }
        found
    }

    /// Whether child `c` fits `field` and `kind`.
    pub fn fits(&self, c: usize, field: Option<&str>, kind: Option<&str>) -> (r: bool)
        requires
            c < self.nodes@.len(),
        ensures
            r == self.child_fits(c as int, opt_view(field), opt_view(kind)),
    {
        let node = &self.nodes[c];
        if !node.named {
            return false;
        }
        let field_ok = match field {
            Some(f) => match &node.field {
                Some(g) => crate::text::str_eq(g.as_str(), f),
                None => false,
            },
            None => true,
        };
        let kind_ok = match kind {
            Some(k) => crate::text::str_eq(node.kind.as_str(), k),
            None => true,
        };
        field_ok && kind_ok
    }

    /// Whether node `i` has kind `k`.
    pub fn is_kind(&self, i: usize, k: &str) -> (r: bool)
        requires
            i < self.nodes@.len(),
        ensures
            r == (self.kind_of(i as int) == k@),
    {
        crate::text::str_eq(self.nodes[i].kind.as_str(), k)
    }
}

/// The view of an optional string.
pub open spec fn opt_view(s: Option<&str>) -> Option<Seq<char>> {
    match s {
        Some(x) => Some(x@),
        None => None,
    }
}

/// `std::str::from_utf8`: the text that `bytes` encode, when they are valid UTF-8.
#[verifier::external_body]
fn utf8_to_str(bytes: &[u8]) -> (res: Option<&str>)
    ensures
        res is Some <==> valid_utf8(bytes@),
        res matches Some(s) ==> s@ == decode_utf8(bytes@),
{
    std::str::from_utf8(bytes).ok()
}

/// The text that `bytes` encode, when they are valid UTF-8.
pub open spec fn spec_utf8_text(bytes: Seq<u8>) -> Option<Seq<char>> {
    if valid_utf8(bytes) {
        Some(decode_utf8(bytes))
    } else {
        None
    }
}

/// The text that `bytes` encode, when they are valid UTF-8.
pub fn utf8_text(bytes: &[u8]) -> (res: Option<String>)
    ensures
        res matches Some(s) ==> spec_utf8_text(bytes@) == Some(s@),
        res is None ==> spec_utf8_text(bytes@) is None,
{
    match utf8_to_str(bytes) {
        Some(s) => Some(String::from_str(s)),
        None => None,
    }
}

/// The text of `source` as a string, or the empty string when it is not valid UTF-8.
pub open spec fn spec_source_text(source: Seq<u8>) -> Seq<char> {
    match spec_utf8_text(source) {
        Some(t) => t,
        None => Seq::empty(),
    }
}

/// The text of `source` as a string, or the empty string when it is not valid UTF-8.
pub fn source_text(source: &[u8]) -> (res: String)
    ensures
        res@ == spec_source_text(source@),
{
    match utf8_text(source) {
        Some(s) => s,
        None => String::new(),
    }
}

/// The source text of a node: its byte range decoded, when the range lies in the source and
/// holds valid UTF-8.
pub open spec fn spec_node_text(source: Seq<u8>, n: SyntaxNode) -> Option<Seq<char>> {
    if n.start_byte <= n.end_byte <= source.len() {
        spec_utf8_text(source.subrange(n.start_byte as int, n.end_byte as int))
    } else {
        None
    }
}

/// The source text of a node, or the empty text when it has none.
pub open spec fn spec_node_text_or_empty(source: Seq<u8>, n: SyntaxNode) -> Seq<char> {
    match spec_node_text(source, n) {
        Some(t) => t,
        None => Seq::empty(),
    }
}

/// The source text of a node.
pub fn node_text(source: &[u8], n: &SyntaxNode) -> (res: Option<String>)
    ensures
        res matches Some(s) ==> spec_node_text(source@, *n) == Some(s@),
        res is None ==> spec_node_text(source@, *n) is None,
{
    if n.start_byte <= n.end_byte && n.end_byte <= source.len() {
        let mut bytes: Vec<u8> = Vec::new();
        let mut k = n.start_byte;
        while k < n.end_byte
            invariant
                n.start_byte <= k <= n.end_byte <= source@.len(),
                bytes@ == source@.subrange(n.start_byte as int, k as int),
            decreases n.end_byte - k,
        {
            bytes.push(source[k]);
            k = k + 1;
            assert(bytes@ =~= source@.subrange(n.start_byte as int, k as int));
        }
        utf8_text(bytes.as_slice())
    } else {
        None
    }
}

/// The source text of a node, or the empty string when it has none.
pub fn node_text_or_empty(source: &[u8], n: &SyntaxNode) -> (res: String)
    ensures
        res@ == spec_node_text_or_empty(source@, *n),
{
    match node_text(source, n) {
        Some(s) => s,
        None => String::new(),
    }
}

/// The first line of a text, as `text.lines().next().unwrap_or(text)` gives it.
pub open spec fn first_line(t: Seq<char>) -> Seq<char> {
    if text_lines(t).len() > 0 {
        text_lines(t)[0]
    } else {
        t
    }
}

/// The first line of a text, as `text.lines().next().unwrap_or(text)` gives it.
pub fn first_line_of(t: &str) -> (res: String)
    ensures
        res@ == first_line(t@),
{
    let cs = chars_of(t);
    let spans = line_spans(&cs);
    if spans.len() > 0 {
        let (a, b) = spans[0];
        let mut s = String::new();
        crate::text::append_range(&mut s, &cs, a, b);
        assert(s@ =~= cs@.subrange(a as int, b as int));
        s
    } else {
        String::from_str(t)
    }
}

/// Whether `c` has the Unicode White_Space property (what `char::is_whitespace` tests).
pub open spec fn is_whitespace(c: char) -> bool {
    let u = c as u32;
    ||| 0x09 <= u <= 0x0D
    ||| u == 0x20
    ||| u == 0x85
    ||| u == 0xA0
    ||| u == 0x1680
    ||| 0x2000 <= u <= 0x200A
    ||| u == 0x2028
    ||| u == 0x2029
    ||| u == 0x202F
    ||| u == 0x205F
    ||| u == 0x3000
}

/// Whether `c` has the Unicode White_Space property.
pub fn exec_is_whitespace(c: char) -> (r: bool)
    ensures
        r == is_whitespace(c),
{
    let u = c as u32;
    (0x09 <= u && u <= 0x0D) || u == 0x20 || u == 0x85 || u == 0xA0 || u == 0x1680 || (0x2000 <= u
        && u <= 0x200A) || u == 0x2028 || u == 0x2029 || u == 0x202F || u == 0x205F || u == 0x3000
}

/// Index of the first character of `s` at or after `i` that is not white space.
pub open spec fn skip_ws(s: Seq<char>, i: int) -> int
    decreases s.len() - i,
{
    if i < 0 || i >= s.len() {
        s.len() as int
    } else if is_whitespace(s[i]) {
        skip_ws(s, i + 1)
    } else {
        i
    }
}

/// Index just past the last character of `s[..j]` that is not white space, or `lo`.
pub open spec fn skip_ws_back(s: Seq<char>, lo: int, j: int) -> int
    decreases j - lo,
{
    if j <= lo || j > s.len() {
        lo
    } else if is_whitespace(s[j - 1]) {
        skip_ws_back(s, lo, j - 1)
    } else {
        j
    }
}

/// A text without leading and trailing white space (what `str::trim` returns).
pub open spec fn trim(s: Seq<char>) -> Seq<char> {
    let a = skip_ws(s, 0);
    s.subrange(a, skip_ws_back(s, a, s.len() as int))
}

proof fn lemma_skip_ws(s: Seq<char>, i: int)
    requires
        0 <= i <= s.len(),
    ensures
        i <= skip_ws(s, i) <= s.len(),
    decreases s.len() - i,
{
    if i < s.len() && is_whitespace(s[i]) {
        lemma_skip_ws(s, i + 1);
    }
}

proof fn lemma_skip_ws_back(s: Seq<char>, lo: int, j: int)
    requires
        0 <= lo <= j <= s.len(),
    ensures
        lo <= skip_ws_back(s, lo, j) <= j,
    decreases j - lo,
{
    if lo < j && is_whitespace(s[j - 1]) {
        lemma_skip_ws_back(s, lo, j - 1);
    }
}

/// A text without leading and trailing white space.
pub fn trim_chars(s: &Vec<char>) -> (res: Vec<char>)
    ensures
        res@ == trim(s@),
{
    let ghost g = s@;
    let mut a: usize = 0;
    while a < s.len() && exec_is_whitespace(s[a])
        invariant
            a <= s@.len(),
            skip_ws(g, 0) == skip_ws(g, a as int),
            g == s@,
        decreases s@.len() - a,
    {
        a = a + 1;
    }
    proof {
        lemma_skip_ws(g, 0);
    }
    let mut b: usize = s.len();
    while b > a && exec_is_whitespace(s[b - 1])
        invariant
            a <= b <= s@.len(),
            a == skip_ws(g, 0),
            skip_ws_back(g, a as int, s@.len() as int) == skip_ws_back(g, a as int, b as int),
            g == s@,
        decreases b,
    {
        b = b - 1;
    }
    let mut res: Vec<char> = Vec::new();
    let mut k = a;
    while k < b
        invariant
            a <= k <= b <= s@.len(),
            res@ == s@.subrange(a as int, k as int),
        decreases b - k,
    {
        res.push(s[k]);
        k = k + 1;
        assert(res@ =~= s@.subrange(a as int, k as int));
    }
    res
}

/// Whether `s` starts with `p`.
pub open spec fn starts_with(s: Seq<char>, p: Seq<char>) -> bool {
    p.len() <= s.len() && s.take(p.len() as int) == p
}

/// `s` with every leading repetition of the non-empty `p` removed (what
/// `str::trim_start_matches` does with a string pattern).
pub open spec fn strip_prefixes(s: Seq<char>, p: Seq<char>) -> Seq<char>
    decreases s.len(),
{
    if p.len() > 0 && starts_with(s, p) {
        strip_prefixes(s.skip(p.len() as int), p)
    } else {
        s
    }
}

/// Whether `s[at..]` starts with `p`.
fn starts_with_at(s: &Vec<char>, at: usize, p: &Vec<char>) -> (r: bool)
    requires
        at <= s@.len(),
    ensures
        r == starts_with(s@.skip(at as int), p@),
{
    if p.len() > s.len() - at {
        return false;
    }
    let mut k: usize = 0;
    while k < p.len()
        invariant
            p@.len() <= s@.len() - at,
            at <= s@.len(),
            s@.len() <= usize::MAX,
            at + p@.len() <= s@.len(),
            k <= p@.len(),
            forall|j: int| 0 <= j < k ==> s@[at + j] == p@[j],
        decreases p@.len() - k,
    {
        if s[at + k] != p[k] {
            assert(s@.skip(at as int).take(p@.len() as int)[k as int] != p@[k as int]);
            return false;
        }
        k = k + 1;
    }
    assert(s@.skip(at as int).take(p@.len() as int) =~= p@);
    true
}

/// Whether `s` starts with `p`.
pub fn starts_with_vec(s: &Vec<char>, p: &Vec<char>) -> (r: bool)
    ensures
        r == starts_with(s@, p@),
{
    let r = starts_with_at(s, 0, p);
    assert(s@.skip(0) =~= s@);
    r
}

/// `s` with every leading repetition of the non-empty `p` removed.
pub fn strip_prefixes_chars(s: &Vec<char>, p: &str) -> (res: Vec<char>)
    requires
        p@.len() > 0,
    ensures
        res@ == strip_prefixes(s@, p@),
{
    let pc = chars_of(p);
    let mut at: usize = 0;
    let _ = s.len();
    assert(s@.skip(0) =~= s@);
    while starts_with_at(s, at, &pc)
        invariant
            at <= s@.len(),
            pc@ == p@,
            pc@.len() > 0,
            s@.len() <= usize::MAX,
            strip_prefixes(s@, p@) == strip_prefixes(s@.skip(at as int), p@),
        decreases s@.len() - at,
    {
        assert(pc@.len() <= s@.len() - at);
        assert(s@.skip(at as int).skip(pc@.len() as int) =~= s@.skip(at + pc@.len()));
        at = at + pc.len();
    }
    let mut res: Vec<char> = Vec::new();
    let mut k = at;
    while k < s.len()
        invariant
            at <= k <= s@.len(),
            res@ == s@.subrange(at as int, k as int),
        decreases s@.len() - k,
    {
        res.push(s[k]);
        k = k + 1;
        assert(res@ =~= s@.subrange(at as int, k as int));
    }
    assert(res@ =~= s@.skip(at as int));
    res
}

/// Texts joined with `sep` between each two.
pub open spec fn join_with(ls: Seq<Seq<char>>, sep: Seq<char>) -> Seq<char>
    decreases ls.len(),
{
    if ls.len() == 0 {
        Seq::empty()
    } else if ls.len() == 1 {
        ls[0]
    } else {
        join_with(ls.drop_last(), sep) + sep + ls.last()
    }
}

} // verus!
