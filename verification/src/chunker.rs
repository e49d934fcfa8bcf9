use vstd::prelude::*;
use vstd::utf8::encode_utf8;

use crate::text::{
    append_decimal, append_range, chars_of, decimal, line_spans, line_spans_from, push_char,
    string_from_chars, text_lines,
};
use crate::types::{Chunk, Language};

verus! {

/// Target size of a chunk, in estimated tokens.
pub const TARGET_CHUNK_TOKENS: usize = 400;

/// Estimated bytes per token.
pub const CHARS_PER_TOKEN_ESTIMATE: usize = 4;

/// Target size of a chunk, in bytes.
pub const TARGET_CHUNK_CHARS: usize = 1600;

// ---------------------------------------------------------------------------
// Content hashing
// ---------------------------------------------------------------------------

/// The SHA-256 digest of a byte sequence.
pub uninterp spec fn sha256_digest(data: Seq<u8>) -> Seq<u8>;

/// `sha2::Sha256::digest`: the SHA-256 digest of `data`, 32 bytes long.
#[verifier::external_body]
pub(crate) fn sha256(data: &[u8]) -> (res: Vec<u8>)
    ensures
        res@ == sha256_digest(data@),
        res@.len() == 32,
{
    <sha2::Sha256 as sha2::Digest>::digest(data).to_vec()
}

/// The lower-case hexadecimal digit for a value below sixteen.
pub open spec fn hex_digit(d: int) -> char {
    if d < 10 {
        crate::text::digit_char(d as nat)
    } else if d == 10 {
        'a'
    } else if d == 11 {
        'b'
    } else if d == 12 {
        'c'
    } else if d == 13 {
        'd'
    } else if d == 14 {
        'e'
    } else {
        'f'
    }
}

/// Lower-case hexadecimal notation of a byte sequence, two digits per byte, high nibble first.
pub open spec fn hex_lower(bytes: Seq<u8>) -> Seq<char>
    decreases bytes.len(),
{
    if bytes.len() == 0 {
        Seq::empty()
    } else {
        hex_lower(bytes.drop_last()) + seq![
            hex_digit(bytes.last() as int / 16),
            hex_digit(bytes.last() as int % 16),
        ]
    }
}

/// The lower-case hexadecimal digit for a value below sixteen.
fn exec_hex_digit(d: u8) -> (c: char)
    requires
        d < 16,
    ensures
        c == hex_digit(d as int),
{
    if d == 0 {
        '0'
    } else if d == 1 {
        '1'
    } else if d == 2 {
        '2'
    } else if d == 3 {
        '3'
    } else if d == 4 {
        '4'
    } else if d == 5 {
        '5'
    } else if d == 6 {
        '6'
    } else if d == 7 {
        '7'
    } else if d == 8 {
        '8'
    } else if d == 9 {
        '9'
    } else if d == 10 {
        'a'
    } else if d == 11 {
        'b'
    } else if d == 12 {
        'c'
    } else if d == 13 {
        'd'
    } else if d == 14 {
        'e'
    } else {
        'f'
    }
}

/// The lower-case hexadecimal notation of `data`: two digits per byte, high nibble first.
pub(crate) fn hex_encode(data: &[u8]) -> (res: String)
    ensures
        res@ == hex_lower(data@),
{
    let mut res = String::new();
    let mut i: usize = 0;
    assert(data@.take(0) =~= Seq::<u8>::empty());
    while i < data.len()
        invariant
            i <= data@.len(),
            res@ == hex_lower(data@.take(i as int)),
        decreases data@.len() - i,
    {
        let b = data[i];
        let ghost before = res@;
        push_char(&mut res, exec_hex_digit(b / 16));
        push_char(&mut res, exec_hex_digit(b % 16));
        proof {
            let t = data@.take(i + 1);
            assert(t.drop_last() =~= data@.take(i as int));
            assert(t.last() == b);
            assert(res@ =~= before + seq![hex_digit(b as int / 16), hex_digit(b as int % 16)]);
        }
        i = i + 1;
    }
    assert(data@.take(data@.len() as int) =~= data@);
    res
}

/// Hexadecimal notation has two characters per byte.
pub proof fn lemma_hex_lower_len(bytes: Seq<u8>)
    ensures
        hex_lower(bytes).len() == 2 * bytes.len(),
    decreases bytes.len(),
{
    if bytes.len() > 0 {
        lemma_hex_lower_len(bytes.drop_last());
    }
}

/// The content hash of a text: the hex notation of the SHA-256 digest of its UTF-8 bytes.
pub open spec fn spec_hash_content(content: Seq<char>) -> Seq<char> {
    hex_lower(sha256_digest(encode_utf8(content)))
}

/// The hex SHA-256 digest of the UTF-8 bytes of `content`; always 64 characters long.
pub fn hash_content(content: &str) -> (res: String)
    ensures
        res@ == spec_hash_content(content@),
        res@.len() == 64,
{
    let digest = sha256(content.as_bytes());
    proof {
        lemma_hex_lower_len(digest@);
    }
    hex_encode(digest.as_slice())
}

// ---------------------------------------------------------------------------
// Byte length of text
// ---------------------------------------------------------------------------

/// Number of bytes that the UTF-8 encoding of a character takes.
pub open spec fn utf8_width(c: char) -> nat {
    if (c as u32) < 0x80 {
        1
    } else if (c as u32) < 0x800 {
        2
    } else if (c as u32) < 0x10000 {
        3
    } else {
        4
    }
}

/// Number of bytes in the UTF-8 encoding of a text (what `str::len` returns).
pub open spec fn utf8_len(cs: Seq<char>) -> nat
    decreases cs.len(),
{
    if cs.len() == 0 {
        0
    } else {
        utf8_len(cs.drop_last()) + utf8_width(cs.last())
    }
}

proof fn lemma_utf8_len_prefix_monotone(cs: Seq<char>, i: int, j: int)
    requires
        0 <= i <= j <= cs.len(),
    ensures
        utf8_len(cs.take(i)) <= utf8_len(cs.take(j)),
    decreases j - i,
{
    if i < j {
        lemma_utf8_len_prefix_monotone(cs, i, j - 1);
        assert(cs.take(j).drop_last() =~= cs.take(j - 1));
    }
}

/// The UTF-8 length of `cs`, or `cap + 1` when that length exceeds `cap`.
fn utf8_len_capped(cs: &Vec<char>, cap: usize) -> (res: usize)
    requires
        cap < usize::MAX,
    ensures
        res <= cap ==> res == utf8_len(cs@),
        res > cap ==> utf8_len(cs@) > cap,
{
    let mut total: usize = 0;
    let mut i: usize = 0;
    while i < cs.len()
        invariant
            i <= cs@.len(),
            cap < usize::MAX,
            total == utf8_len(cs@.take(i as int)),
            total <= cap,
        decreases cs@.len() - i,
    {
        let code = cs[i] as u32;
        let w: usize = if code < 0x80 {
            1
        } else if code < 0x800 {
            2
        } else if code < 0x10000 {
            3
        } else {
            4
        };
        assert(cs@.take(i + 1).drop_last() =~= cs@.take(i as int));
        if w > cap - total {
            proof {
                lemma_utf8_len_prefix_monotone(cs@, i + 1, cs@.len() as int);
                assert(cs@.take(cs@.len() as int) =~= cs@);
            }
            return cap + 1;
        }
        total = total + w;
        i = i + 1;
    }
    assert(cs@.take(cs@.len() as int) =~= cs@);
    total
}

// ---------------------------------------------------------------------------
// Joining lines
// ---------------------------------------------------------------------------

/// Lines joined with a line feed between each two.
pub open spec fn join_lines(ls: Seq<Seq<char>>) -> Seq<char>
    decreases ls.len(),
{
    if ls.len() == 0 {
        Seq::empty()
    } else if ls.len() == 1 {
        ls[0]
    } else {
        join_lines(ls.drop_last()) + seq!['\n'] + ls.last()
    }
}

/// The text of lines `a..b` of `lines`, joined with line feeds.
pub open spec fn line_block(lines: Seq<Seq<char>>, a: int, b: int) -> Seq<char> {
    join_lines(lines.subrange(a, b))
}

/// The characters of lines `a..b` of the text `cs`, whose line spans are `spans`.
fn block_chars(cs: &Vec<char>, spans: &Vec<(usize, usize)>, a: usize, b: usize) -> (res: Vec<
    char,
>)
    requires
        a <= b <= spans@.len(),
        spans@.len() == line_spans_from(cs@, 0).len(),
        forall|k: int|
            0 <= k < spans@.len() ==> spans@[k].0 as int == line_spans_from(cs@, 0)[k].0
                && spans@[k].1 as int == line_spans_from(cs@, 0)[k].1,
        forall|k: int| 0 <= k < spans@.len() ==> #[trigger] spans@[k].0 <= spans@[k].1 <= cs@.len(),
    ensures
        res@ == line_block(text_lines(cs@), a as int, b as int),
{
    let ghost lines = text_lines(cs@);
    let mut s = String::new();
    let mut k = a;
    while k < b
        invariant
            a <= k <= b <= spans@.len(),
            lines == text_lines(cs@),
            lines.len() == spans@.len(),
            forall|j: int|
                0 <= j < spans@.len() ==> #[trigger] lines[j] == cs@.subrange(
                    spans@[j].0 as int,
                    spans@[j].1 as int,
                ),
            forall|j: int| 0 <= j < spans@.len() ==> #[trigger] spans@[j].0 <= spans@[j].1 <= cs@.len(),
            s@ == line_block(lines, a as int, k as int),
        decreases b - k,
    {
        let ghost before = s@;
        if k > a {
            push_char(&mut s, '\n');
        }
        let (from, to) = spans[k];
        append_range(&mut s, cs, from, to);
        proof {
            let ls = lines.subrange(a as int, k + 1);
            assert(ls.drop_last() =~= lines.subrange(a as int, k as int));
            if k > a {
                assert(s@ =~= before + seq!['\n'] + lines[k as int]);
            } else {
                assert(ls =~= seq![lines[k as int]]);
                assert(s@ =~= lines[k as int]);
            }
        }
        k = k + 1;
    }
    chars_of(s.as_str())
}

// ---------------------------------------------------------------------------
// Boundaries
// ---------------------------------------------------------------------------

/// A strictly increasing sequence.
pub open spec fn strictly_increasing(s: Seq<usize>) -> bool {
    forall|i: int, j: int| 0 <= i < j < s.len() ==> s[i] < s[j]
}

/// `bs` is the boundary list `b`, sorted, without duplicates and starting at line 0.
pub open spec fn is_normalized(bs: Seq<usize>, b: Seq<usize>) -> bool {
    &&& strictly_increasing(bs)
    &&& forall|x: usize| bs.contains(x) <==> (x == 0 || b.contains(x))
}

/// The boundary list `b`, sorted, without duplicates and starting at line 0.
pub open spec fn normalized_boundaries(b: Seq<usize>) -> Seq<usize> {
    choose|bs: Seq<usize>| is_normalized(bs, b)
}

/// Two strictly increasing sequences with the same elements are equal.
pub proof fn lemma_sorted_unique(a: Seq<usize>, b: Seq<usize>)
    requires
        strictly_increasing(a),
        strictly_increasing(b),
        forall|x: usize| a.contains(x) <==> b.contains(x),
    ensures
        a == b,
    decreases a.len(),
{
    if a.len() == 0 {
        if b.len() > 0 {
            assert(b.contains(b[0]));
        }
        assert(a =~= b);
    } else {
        assert(a.contains(a[0]));
        assert(b.len() > 0);
        assert(b.contains(b[0]));
        let i = choose|i: int| 0 <= i < a.len() && a[i] == b[0];
        let j = choose|j: int| 0 <= j < b.len() && b[j] == a[0];
        assert(a[0] <= b[0]) by {
            if i > 0 {
                assert(a[0] < a[i]);
            }
        }
        assert(b[0] <= a[0]) by {
            if j > 0 {
                assert(b[0] < b[j]);
            }
        }
        let a2 = a.drop_first();
        let b2 = b.drop_first();
        assert forall|x: usize| a2.contains(x) <==> b2.contains(x) by {
            if a2.contains(x) {
                let p = choose|p: int| 0 <= p < a2.len() && a2[p] == x;
                assert(a[p + 1] == x);
                assert(a.contains(x));
                let q = choose|q: int| 0 <= q < b.len() && b[q] == x;
                assert(a[0] < a[p + 1]);
                assert(q != 0);
                assert(b2[q - 1] == x);
            }
            if b2.contains(x) {
                let p = choose|p: int| 0 <= p < b2.len() && b2[p] == x;
                assert(b[p + 1] == x);
                assert(b.contains(x));
                let q = choose|q: int| 0 <= q < a.len() && a[q] == x;
                assert(b[0] < b[p + 1]);
                assert(q != 0);
                assert(a2[q - 1] == x);
            }
        }
        lemma_sorted_unique(a2, b2);
        assert(a =~= seq![a[0]] + a2);
        assert(b =~= seq![b[0]] + b2);
    }
}

/// Inserts `x` into the strictly increasing `v`, unless it is already there.
fn insert_sorted(v: &Vec<usize>, x: usize) -> (res: Vec<usize>)
    requires
        strictly_increasing(v@),
    ensures
        strictly_increasing(res@),
        forall|y: usize| res@.contains(y) <==> (y == x || v@.contains(y)),
{
    let mut i: usize = 0;
    while i < v.len() && v[i] < x
        invariant
            i <= v@.len(),
            strictly_increasing(v@),
            forall|k: int| 0 <= k < i ==> v@[k] < x,
        decreases v@.len() - i,
    {
        i = i + 1;
    }
    let mut w = v.clone();
    assert(w@ =~= v@);
    if i < w.len() && w[i] == x {
        assert(v@[i as int] == x);
        assert(v@.contains(x));
        return w;
    }
    w.insert(i, x);
    assert(w@ =~= v@.take(i as int) + seq![x] + v@.skip(i as int));
    assert forall|y: usize| w@.contains(y) <==> (y == x || v@.contains(y)) by {
        if v@.contains(y) {
            let p = choose|p: int| 0 <= p < v@.len() && v@[p] == y;
            if p < i {
                assert(w@[p] == y);
            } else {
                assert(w@[p + 1] == y);
            }
        }
        if y == x {
            assert(w@[i as int] == x);
        }
        if w@.contains(y) && y != x {
            let p = choose|p: int| 0 <= p < w@.len() && w@[p] == y;
            if p < i {
                assert(v@[p] == y);
            } else {
                assert(p != i);
                assert(v@[p - 1] == y);
            }
        }
    }
    w
}

/// The boundary list sorted, without duplicates, and starting at line 0.
pub fn normalize_boundaries(boundaries: &[usize]) -> (res: Vec<usize>)
    ensures
        is_normalized(res@, boundaries@),
        res@ == normalized_boundaries(boundaries@),
{
    let mut v: Vec<usize> = Vec::new();
    v.push(0);
    let mut i: usize = 0;
    assert forall|y: usize| v@.contains(y) <==> (y == 0 || boundaries@.take(0).contains(y)) by {
        if y == 0 {
            assert(v@[0] == 0);
        }
    }
    while i < boundaries.len()
        invariant
            i <= boundaries@.len(),
            strictly_increasing(v@),
            forall|y: usize| v@.contains(y) <==> (y == 0 || boundaries@.take(i as int).contains(y)),
        decreases boundaries@.len() - i,
    {
        v = insert_sorted(&v, boundaries[i]);
        proof {
            let t1 = boundaries@.take(i + 1);
            let t0 = boundaries@.take(i as int);
            assert forall|y: usize| t1.contains(y) <==> (y == boundaries@[i as int] || t0.contains(y)) by {
                if t1.contains(y) {
                    let p = choose|p: int| 0 <= p < t1.len() && t1[p] == y;
                    if p < i {
                        assert(t0[p] == y);
                    }
                }
                if t0.contains(y) {
                    let p = choose|p: int| 0 <= p < t0.len() && t0[p] == y;
                    assert(t1[p] == y);
                }
                if y == boundaries@[i as int] {
                    assert(t1[i as int] == y);
                }
            }
        }
        i = i + 1;
    }
    assert(boundaries@.take(boundaries@.len() as int) =~= boundaries@);
    proof {
        assert(is_normalized(v@, boundaries@));
        let c = normalized_boundaries(boundaries@);
        assert(is_normalized(c, boundaries@));
        lemma_sorted_unique(v@, c);
    }
    v
}

// ---------------------------------------------------------------------------
// Chunk layout
// ---------------------------------------------------------------------------

/// Where the section that starts at boundary `j - 1` ends: boundary `j`, capped at `n`, or `n`.
pub open spec fn section_end(bs: Seq<usize>, j: int, n: int) -> int {
    if 0 <= j < bs.len() {
        if (bs[j] as int) < n {
            bs[j] as int
        } else {
            n
        }
    } else {
        n
    }
}

/// The line ranges `(start, end)` (0-based, end exclusive) of the chunks cut from `lines` at
/// the sorted boundaries `bs`, from boundary `i` on. Each chunk runs from its boundary to the
/// next; a chunk under the byte target absorbs the following section when the two together
/// stay within twice the target. Boundaries at or past the last line end the list.
pub open spec fn chunk_spans(bs: Seq<usize>, lines: Seq<Seq<char>>, i: int) -> Seq<(int, int)>
    decreases bs.len() - i,
{
    if i < 0 || i >= bs.len() || bs[i] >= lines.len() {
        Seq::empty()
    } else {
        let n = lines.len() as int;
        let start = bs[i] as int;
        let end1 = section_end(bs, i + 1, n);
        let end2 = section_end(bs, i + 2, n);
        let merge = i + 1 < bs.len() && utf8_len(line_block(lines, start, end1))
            < TARGET_CHUNK_CHARS && utf8_len(line_block(lines, start, end2)) <= 2
            * TARGET_CHUNK_CHARS;
        if merge {
            seq![(start, end2)] + chunk_spans(bs, lines, i + 2)
        } else {
            seq![(start, end1)] + chunk_spans(bs, lines, i + 1)
        }
    }
}

/// The preamble of a chunk: `path:first-last [language]`, with 1-based line numbers.
pub open spec fn spec_preamble(path: Seq<char>, first: nat, last: nat, language: Language) -> Seq<
    char,
> {
    path + seq![':'] + decimal(first) + seq!['-'] + decimal(last) + seq![' ', '['] + language.spec_name()
        + seq![']']
}

/// `c` is the chunk of lines `span` of `lines`, in file `path` of language `language`.
pub open spec fn chunk_matches(
    c: Chunk,
    path: Seq<char>,
    language: Language,
    lines: Seq<Seq<char>>,
    span: (int, int),
) -> bool {
    &&& c.file_path@ == path
    &&& c.content@ == line_block(lines, span.0, span.1)
    &&& c.preamble@ == spec_preamble(path, (span.0 + 1) as nat, span.1 as nat, language)
    &&& c.content_hash@ == spec_hash_content(c.content@)
    &&& c.line_start == span.0 + 1
    &&& c.line_end == span.1
    &&& c.language == language
}

/// The chunks of `source` as `chunk_by_lines` cuts them.
pub open spec fn spec_chunks_of(source: Seq<char>, boundaries: Seq<usize>) -> Seq<(int, int)> {
    chunk_spans(normalized_boundaries(boundaries), text_lines(source), 0)
}

/// `res` holds the chunks that `chunk_by_lines` cuts from `source` at `boundaries`, for the
/// file at `path` in language `language`.
pub open spec fn chunks_are(
    res: Seq<Chunk>,
    source: Seq<char>,
    path: Seq<char>,
    language: Language,
    boundaries: Seq<usize>,
) -> bool {
    &&& res.len() == spec_chunks_of(source, boundaries).len()
    &&& forall|k: int|
        0 <= k < res.len() ==> chunk_matches(
            #[trigger] res[k],
            path,
            language,
            text_lines(source),
            spec_chunks_of(source, boundaries)[k],
        )
}

/// `res` holds the chunks of `source` cut by lines at some boundaries, for the file at `path`
/// in language `language`.
#[verifier::opaque]
pub open spec fn chunked_by_lines(
    res: Seq<Chunk>,
    source: Seq<char>,
    path: Seq<char>,
    language: Language,
) -> bool {
    exists|b: Seq<usize>| chunks_are(res, source, path, language, b)
}

proof fn lemma_chunk_spans_bounds(bs: Seq<usize>, lines: Seq<Seq<char>>, i: int)
    requires
        strictly_increasing(bs),
        0 <= i,
    ensures
        forall|k: int|
            0 <= k < chunk_spans(bs, lines, i).len() ==> 0 <= #[trigger] chunk_spans(
                bs,
                lines,
                i,
            )[k].0 < chunk_spans(bs, lines, i)[k].1 <= lines.len(),
    decreases bs.len() - i,
{
    if !(i >= bs.len() || bs[i] >= lines.len()) {
        let n = lines.len() as int;
        let start = bs[i] as int;
        let end1 = section_end(bs, i + 1, n);
        let end2 = section_end(bs, i + 2, n);
        lemma_chunk_spans_bounds(bs, lines, i + 1);
        if i + 1 < bs.len() {
            lemma_chunk_spans_bounds(bs, lines, i + 2);
            assert(bs[i] < bs[i + 1]);
            if i + 2 < bs.len() {
                assert(bs[i + 1] < bs[i + 2]);
            }
        }
        assert(start < end1 <= end2 <= n);
        let all = chunk_spans(bs, lines, i);
        assert forall|k: int| 0 <= k < all.len() implies 0 <= #[trigger] all[k].0 < all[k].1
            <= lines.len() by {
            if k > 0 {
                if i + 1 < bs.len() && utf8_len(line_block(lines, start, end1)) < TARGET_CHUNK_CHARS
                    && utf8_len(line_block(lines, start, end2)) <= 2 * TARGET_CHUNK_CHARS {
                    assert(all[k] == chunk_spans(bs, lines, i + 2)[k - 1]);
                } else {
                    assert(all[k] == chunk_spans(bs, lines, i + 1)[k - 1]);
                }
            }
        }
    }
}

/// `s` with `x` put in its place, for a strictly increasing `s`.
spec fn sorted_insert(s: Seq<usize>, x: usize) -> Seq<usize>
    decreases s.len(),
{
    if s.len() == 0 {
        seq![x]
    } else if x < s[0] {
        seq![x] + s
    } else if x == s[0] {
        s
    } else {
        seq![s[0]] + sorted_insert(s.drop_first(), x)
    }
}

proof fn lemma_sorted_insert(s: Seq<usize>, x: usize)
    requires
        strictly_increasing(s),
    ensures
        strictly_increasing(sorted_insert(s, x)),
        forall|y: usize| #[trigger] sorted_insert(s, x).contains(y) <==> (y == x || s.contains(y)),
    decreases s.len(),
{
    let r = sorted_insert(s, x);
    if s.len() == 0 {
        assert forall|y: usize| r.contains(y) <==> (y == x || s.contains(y)) by {
            if y == x {
                assert(r[0] == x);
            }
        }
    } else if x < s[0] {
        assert forall|y: usize| r.contains(y) <==> (y == x || s.contains(y)) by {
            if y == x {
                assert(r[0] == x);
            }
            if s.contains(y) {
                let p = choose|p: int| 0 <= p < s.len() && s[p] == y;
                assert(r[p + 1] == y);
            }
            if r.contains(y) {
                let p = choose|p: int| 0 <= p < r.len() && r[p] == y;
                if p > 0 {
                    assert(s[p - 1] == y);
                }
            }
        }
    } else if x == s[0] {
        assert(s.contains(s[0]));
    } else {
        let t = s.drop_first();
        lemma_sorted_insert(t, x);
        let u = sorted_insert(t, x);
        assert(r == seq![s[0]] + u);
        assert forall|y: usize| u.contains(y) implies s[0] < y by {
            assert(y == x || t.contains(y));
            if y != x {
                assert(t.contains(y));
                let p = choose|p: int| 0 <= p < t.len() && t[p] == y;
                assert(s[p + 1] == y);
                assert(s[0] < s[p + 1]);
            }
        }
        assert forall|i: int, j: int| 0 <= i < j < r.len() implies r[i] < r[j] by {
            if i == 0 {
                assert(u.contains(u[j - 1]));
            }
        }
        assert forall|y: usize| r.contains(y) <==> (y == x || s.contains(y)) by {
            if r.contains(y) {
                let p = choose|p: int| 0 <= p < r.len() && r[p] == y;
                if p == 0 {
                    assert(s[0] == y);
                } else {
                    assert(u[p - 1] == y);
                    assert(u.contains(y));
                    assert(y == x || t.contains(y));
                    if y != x {
                        assert(t.contains(y));
                        let q = choose|q: int| 0 <= q < t.len() && t[q] == y;
                        assert(s[q + 1] == y);
                    }
                }
            }
            if y == x {
                assert(u.contains(x));
                let q = choose|q: int| 0 <= q < u.len() && u[q] == x;
                assert(r[q + 1] == x);
            }
            if s.contains(y) {
                let p = choose|p: int| 0 <= p < s.len() && s[p] == y;
                if p == 0 {
                    assert(r[0] == y);
                } else {
                    assert(t[p - 1] == y);
                    assert(t.contains(y));
                    assert(u.contains(y));
                    let q = choose|q: int| 0 <= q < u.len() && u[q] == y;
                    assert(r[q + 1] == y);
                }
            }
        }
    }
}

/// Line 0 and the boundaries of `b`, sorted without duplicates.
spec fn sorted_boundaries(b: Seq<usize>) -> Seq<usize>
    decreases b.len(),
{
    if b.len() == 0 {
        seq![0]
    } else {
        sorted_insert(sorted_boundaries(b.drop_last()), b.last())
    }
}

/// Every boundary list has its normalized form.
proof fn lemma_normalized_exists(b: Seq<usize>)
    ensures
        is_normalized(sorted_boundaries(b), b),
    decreases b.len(),
{
    if b.len() == 0 {
        let r = sorted_boundaries(b);
        assert(r == seq![0usize]);
        assert forall|x: usize| r.contains(x) <==> (x == 0 || b.contains(x)) by {
            if x == 0 {
                assert(r[0] == 0);
            }
        }
    } else {
        let p = b.drop_last();
        lemma_normalized_exists(p);
        lemma_sorted_insert(sorted_boundaries(p), b.last());
        assert forall|x: usize| b.contains(x) <==> (x == b.last() || p.contains(x)) by {
            if b.contains(x) {
                let i = choose|i: int| 0 <= i < b.len() && b[i] == x;
                if i < p.len() {
                    assert(p[i] == x);
                }
            }
            if p.contains(x) {
                let i = choose|i: int| 0 <= i < p.len() && p[i] == x;
                assert(b[i] == x);
            }
            if x == b.last() {
                assert(b[b.len() - 1] == x);
            }
        }
        let q = sorted_boundaries(p);
        let r = sorted_insert(q, b.last());
        assert(sorted_boundaries(b) == r);
        assert forall|x: usize| r.contains(x) <==> (x == 0 || b.contains(x)) by {
            assert(r.contains(x) <==> (x == b.last() || q.contains(x)));
            assert(q.contains(x) <==> (x == 0 || p.contains(x)));
        }
    }
}

proof fn lemma_chunk_spans_tile(bs: Seq<usize>, lines: Seq<Seq<char>>, i: int)
    requires
        strictly_increasing(bs),
        0 <= i < bs.len(),
        bs[i] < lines.len(),
    ensures
        chunk_spans(bs, lines, i).len() > 0,
        chunk_spans(bs, lines, i)[0].0 == bs[i] as int,
        chunk_spans(bs, lines, i).last().1 == lines.len(),
        forall|k: int|
            0 <= k < chunk_spans(bs, lines, i).len() - 1 ==> #[trigger] chunk_spans(bs, lines, i)[k].1
                == chunk_spans(bs, lines, i)[k + 1].0,
    decreases bs.len() - i,
{
    let n = lines.len() as int;
    let start = bs[i] as int;
    let end1 = section_end(bs, i + 1, n);
    let end2 = section_end(bs, i + 2, n);
    let all = chunk_spans(bs, lines, i);
    let merge = i + 1 < bs.len() && utf8_len(line_block(lines, start, end1)) < TARGET_CHUNK_CHARS
        && utf8_len(line_block(lines, start, end2)) <= 2 * TARGET_CHUNK_CHARS;
    let (next, end) = if merge {
        (i + 2, end2)
    } else {
        (i + 1, end1)
    };
    let rest = chunk_spans(bs, lines, next);
    assert(all == seq![(start, end)] + rest);
    if next < bs.len() && bs[next] < n {
        lemma_chunk_spans_tile(bs, lines, next);
        assert(end == bs[next] as int);
        assert forall|k: int| 0 <= k < all.len() - 1 implies #[trigger] all[k].1 == all[k + 1].0 by {
            if k > 0 {
                assert(all[k] == rest[k - 1]);
                assert(all[k + 1] == rest[k]);
            }
        }
    } else {
        assert(rest.len() == 0);
        assert(end == n);
    }
}

/// The chunks of a text tile its lines: there is a chunk exactly when the text has a line;
/// the first starts at line 1, each starts on the line after the previous one ends, and the
/// last ends on the last line. Each spans at least one line (`line_start <= line_end`) and
/// carries the hash of its content.
pub proof fn lemma_chunks_tile_lines(
    res: Seq<Chunk>,
    source: Seq<char>,
    path: Seq<char>,
    language: Language,
    boundaries: Seq<usize>,
)
    requires
        chunks_are(res, source, path, language, boundaries),
    ensures
        res.len() > 0 <==> text_lines(source).len() > 0,
        res.len() > 0 ==> res[0].line_start == 1 && res.last().line_end == text_lines(source).len(),
        forall|k: int| 0 <= k < res.len() - 1 ==> #[trigger] res[k + 1].line_start == res[k].line_end + 1,
        forall|k: int|
            0 <= k < res.len() ==> 1 <= (#[trigger] res[k]).line_start <= res[k].line_end
                && res[k].content_hash@ == spec_hash_content(res[k].content@),
{
    let lines = text_lines(source);
    let bs = normalized_boundaries(boundaries);
    lemma_normalized_exists(boundaries);
    assert(is_normalized(bs, boundaries));
    let sp = chunk_spans(bs, lines, 0);
    lemma_chunk_spans_bounds(bs, lines, 0);
    assert(bs.contains(0));
    let z = choose|z: int| 0 <= z < bs.len() && bs[z] == 0;
    assert(bs[0] == 0) by {
        if z > 0 {
            assert(bs[0] < bs[z]);
        }
    }
    if lines.len() > 0 {
        lemma_chunk_spans_tile(bs, lines, 0);
        assert(res[0].line_start == sp[0].0 + 1);
        assert(res[res.len() - 1].line_end == sp[sp.len() - 1].1);
        assert forall|k: int| 0 <= k < res.len() - 1 implies #[trigger] res[k + 1].line_start
            == res[k].line_end + 1 by {
            assert(chunk_matches(res[k], path, language, lines, sp[k]));
            assert(chunk_matches(res[k + 1], path, language, lines, sp[k + 1]));
        }
    }
    assert forall|k: int| 0 <= k < res.len() implies 1 <= (#[trigger] res[k]).line_start
        <= res[k].line_end && res[k].content_hash@ == spec_hash_content(res[k].content@) by {
        assert(chunk_matches(res[k], path, language, lines, sp[k]));
    }
}

/// Chunking depends on the set of boundaries alone, with line 0 always among them: their
/// order, repetitions and a boundary at line 0 change nothing.
pub proof fn lemma_chunks_depend_on_boundary_set(source: Seq<char>, b1: Seq<usize>, b2: Seq<usize>)
    requires
        forall|x: usize| (x == 0 || b1.contains(x)) <==> (x == 0 || b2.contains(x)),
    ensures
        spec_chunks_of(source, b1) == spec_chunks_of(source, b2),
{
    lemma_normalized_exists(b1);
    lemma_normalized_exists(b2);
    let n1 = normalized_boundaries(b1);
    let n2 = normalized_boundaries(b2);
    assert(is_normalized(n1, b1));
    assert(is_normalized(n2, b2));
    lemma_sorted_unique(n1, n2);
}

/// The number of leading elements of the strictly increasing `bs` that lie below `n`: those
/// before the returned position lie below it, the others do not.
proof fn lemma_split_below(bs: Seq<usize>, n: int) -> (k: int)
    requires
        strictly_increasing(bs),
    ensures
        0 <= k <= bs.len(),
        forall|j: int| 0 <= j < k ==> (#[trigger] bs[j]) < n,
        forall|j: int| k <= j < bs.len() ==> (#[trigger] bs[j]) >= n,
    decreases bs.len(),
{
    if bs.len() == 0 {
        0
    } else if (bs.last() as int) < n {
        bs.len() as int
    } else {
        let p = bs.drop_last();
        let k = lemma_split_below(p, n);
        assert forall|j: int| 0 <= j < k implies (#[trigger] bs[j]) < n by {
            assert(bs[j] == p[j]);
        }
        assert forall|j: int| k <= j < bs.len() implies (#[trigger] bs[j]) >= n by {
            if j < p.len() {
                assert(bs[j] == p[j]);
            }
        }
        k
    }
}

/// Cutting at the sorted boundaries `bs` cuts as cutting at those of them below the line
/// count: the others end the list.
proof fn lemma_chunk_spans_truncate(bs: Seq<usize>, lines: Seq<Seq<char>>, k: int, i: int)
    requires
        strictly_increasing(bs),
        0 <= k <= bs.len(),
        forall|j: int| 0 <= j < k ==> (#[trigger] bs[j]) < lines.len(),
        forall|j: int| k <= j < bs.len() ==> (#[trigger] bs[j]) >= lines.len(),
        0 <= i,
    ensures
        chunk_spans(bs, lines, i) == chunk_spans(bs.take(k), lines, i),
    decreases bs.len() - i,
{
    let t = bs.take(k);
    let n = lines.len() as int;
    if i >= k {
        if i < bs.len() {
            assert(bs[i] >= lines.len());
        }
        assert(chunk_spans(bs, lines, i) =~= Seq::<(int, int)>::empty());
        assert(chunk_spans(t, lines, i) =~= Seq::<(int, int)>::empty());
    } else {
        assert(t[i] == bs[i]);
        assert(section_end(bs, i + 1, n) == section_end(t, i + 1, n)) by {
            if i + 1 < k {
                assert(t[i + 1] == bs[i + 1]);
            } else if i + 1 < bs.len() {
                assert(bs[i + 1] >= lines.len());
            }
        }
        assert(section_end(bs, i + 2, n) == section_end(t, i + 2, n)) by {
            if i + 2 < k {
                assert(t[i + 2] == bs[i + 2]);
            } else if i + 2 < bs.len() {
                assert(bs[i + 2] >= lines.len());
            }
        }
        lemma_chunk_spans_truncate(bs, lines, k, i + 1);
        if i + 2 <= bs.len() {
            lemma_chunk_spans_truncate(bs, lines, k, i + 2);
        }
        if i + 1 >= k {
            assert(chunk_spans(t, lines, i + 1) =~= Seq::<(int, int)>::empty());
            assert(chunk_spans(t, lines, i + 2) =~= Seq::<(int, int)>::empty());
            assert(chunk_spans(bs, lines, i + 2) =~= Seq::<(int, int)>::empty()) by {
                if i + 2 < bs.len() {
                    assert(bs[i + 2] >= lines.len());
                }
            }
        }
    }
}

/// Boundaries at or beyond the last line of the text cut nothing: two boundary lists that
/// agree on the lines the text has, with line 0 always among them, give the same chunks,
/// whatever their order, repetitions or boundaries past the end.
pub proof fn lemma_chunks_ignore_boundaries_past_end(source: Seq<char>, b1: Seq<usize>, b2: Seq<usize>)
    requires
        forall|x: usize|
            (x as int) < text_lines(source).len() ==> ((x == 0 || b1.contains(x)) <==> (x == 0
                || b2.contains(x))),
    ensures
        spec_chunks_of(source, b1) == spec_chunks_of(source, b2),
{
    let lines = text_lines(source);
    let n = lines.len() as int;
    lemma_normalized_exists(b1);
    lemma_normalized_exists(b2);
    let n1 = normalized_boundaries(b1);
    let n2 = normalized_boundaries(b2);
    assert(is_normalized(n1, b1));
    assert(is_normalized(n2, b2));
    let k1 = lemma_split_below(n1, n);
    let k2 = lemma_split_below(n2, n);
    let t1 = n1.take(k1);
    let t2 = n2.take(k2);
    assert forall|x: usize| t1.contains(x) <==> (n1.contains(x) && (x as int) < n) by {
        if t1.contains(x) {
            let j = choose|j: int| 0 <= j < t1.len() && t1[j] == x;
            assert(n1[j] == x);
        }
        if n1.contains(x) && (x as int) < n {
            let j = choose|j: int| 0 <= j < n1.len() && n1[j] == x;
            assert(j < k1);
            assert(t1[j] == x);
        }
    }
    assert forall|x: usize| t2.contains(x) <==> (n2.contains(x) && (x as int) < n) by {
        if t2.contains(x) {
            let j = choose|j: int| 0 <= j < t2.len() && t2[j] == x;
            assert(n2[j] == x);
        }
        if n2.contains(x) && (x as int) < n {
            let j = choose|j: int| 0 <= j < n2.len() && n2[j] == x;
            assert(j < k2);
            assert(t2[j] == x);
        }
    }
    assert forall|x: usize| t1.contains(x) <==> t2.contains(x) by {}
    lemma_sorted_unique(t1, t2);
    lemma_chunk_spans_truncate(n1, lines, k1, 0);
    lemma_chunk_spans_truncate(n2, lines, k2, 0);
}

/// Those elements of the sorted `bs` below `n` are its first `k`, when `k` splits it there.
proof fn lemma_filter_below(bs: Seq<usize>, n: int, k: int)
    requires
        0 <= k <= bs.len(),
        forall|j: int| 0 <= j < k ==> (#[trigger] bs[j]) < n,
        forall|j: int| k <= j < bs.len() ==> (#[trigger] bs[j]) >= n,
    ensures
        bs.filter(|x: usize| (x as int) < n) == bs.take(k),
    decreases bs.len(),
{
    reveal(Seq::filter);
    let pred = |x: usize| (x as int) < n;
    if bs.len() == 0 {
        assert(bs.take(k) =~= bs);
    } else {
        let p = bs.drop_last();
        let kp = if k == bs.len() { k - 1 } else { k };
        assert forall|j: int| 0 <= j < kp implies (#[trigger] p[j]) < n by {
            assert(p[j] == bs[j]);
        }
        assert forall|j: int| kp <= j < p.len() implies (#[trigger] p[j]) >= n by {
            assert(p[j] == bs[j]);
        }
        lemma_filter_below(p, n, kp);
        assert(bs.filter(pred) == if pred(bs.last()) { p.filter(pred).push(bs.last()) } else { p.filter(pred) });
        if k == bs.len() {
            assert(bs[bs.len() - 1] < n);
            assert(p.take(kp).push(bs.last()) =~= bs.take(k));
        } else {
            assert(bs[bs.len() - 1] >= n);
            assert(p.take(kp) =~= bs.take(k));
        }
    }
}

/// Each chunk starts at a boundary of its own, so there are at most as many chunks as
/// boundaries from position `i` on.
proof fn lemma_chunk_spans_count(bs: Seq<usize>, lines: Seq<Seq<char>>, i: int)
    requires
        0 <= i,
    ensures
        chunk_spans(bs, lines, i).len() <= if i < bs.len() { bs.len() - i } else { 0 },
    decreases bs.len() - i,
{
    if i < bs.len() {
        lemma_chunk_spans_count(bs, lines, i + 1);
        if i + 2 <= bs.len() {
            lemma_chunk_spans_count(bs, lines, i + 2);
        }
    }
}

/// A text has at most one chunk per boundary that falls on one of its lines, line 0 included:
/// the number of chunks never exceeds the number of distinct boundaries below the line count.
pub proof fn lemma_chunk_count_bound(source: Seq<char>, b: Seq<usize>)
    ensures
        spec_chunks_of(source, b).len() <= normalized_boundaries(b).filter(
            |x: usize| (x as int) < text_lines(source).len(),
        ).len(),
{
    let lines = text_lines(source);
    let n = lines.len() as int;
    lemma_normalized_exists(b);
    let bs = normalized_boundaries(b);
    assert(is_normalized(bs, b));
    let k = lemma_split_below(bs, n);
    lemma_chunk_spans_truncate(bs, lines, k, 0);
    lemma_filter_below(bs, n, k);
    lemma_chunk_spans_count(bs.take(k), lines, 0);
}

/// Cutting at the normalized boundaries cuts as the boundaries themselves do, so normalizing
/// them again changes nothing: chunking is idempotent in its boundaries.
pub proof fn lemma_chunks_normalized_boundaries(source: Seq<char>, b: Seq<usize>)
    ensures
        is_normalized(normalized_boundaries(b), b),
        normalized_boundaries(normalized_boundaries(b)) == normalized_boundaries(b),
        spec_chunks_of(source, normalized_boundaries(b)) == spec_chunks_of(source, b),
{
    lemma_normalized_exists(b);
    let nb = normalized_boundaries(b);
    assert(is_normalized(nb, b));
    assert forall|x: usize| (x == 0 || nb.contains(x)) <==> (x == 0 || b.contains(x)) by {}
    lemma_chunks_depend_on_boundary_set(source, nb, b);
    lemma_normalized_exists(nb);
    let nn = normalized_boundaries(nb);
    assert(is_normalized(nn, nb));
    assert(nb.contains(0usize));
    assert forall|x: usize| nn.contains(x) <==> nb.contains(x) by {}
    lemma_sorted_unique(nn, nb);
}

/// What every parser's `chunk_file` returns tiles the lines of the source text, as
/// `lemma_chunks_tile_lines` states.
pub proof fn lemma_chunked_by_lines_tile(
    res: Seq<Chunk>,
    source: Seq<char>,
    path: Seq<char>,
    language: Language,
)
    requires
        chunked_by_lines(res, source, path, language),
    ensures
        res.len() > 0 <==> text_lines(source).len() > 0,
        res.len() > 0 ==> res[0].line_start == 1 && res.last().line_end == text_lines(source).len(),
        forall|k: int| 0 <= k < res.len() - 1 ==> #[trigger] res[k + 1].line_start == res[k].line_end + 1,
        forall|k: int|
            0 <= k < res.len() ==> 1 <= (#[trigger] res[k]).line_start <= res[k].line_end
                && res[k].content_hash@ == spec_hash_content(res[k].content@),
{
    reveal(chunked_by_lines);
    let b = choose|b: Seq<usize>| chunks_are(res, source, path, language, b);
    lemma_chunks_tile_lines(res, source, path, language, b);
}

/// Cuts `source` into chunks of whole lines at the given 0-based line boundaries, merging a
/// section smaller than the byte target into the next when the two fit within twice the target.
#[verifier::spinoff_prover]
#[verifier::rlimit(40)]
pub fn chunk_by_lines(source: &str, file_path: &str, language: Language, boundaries: &[usize]) -> (res:
    Vec<Chunk>)
    ensures
        chunks_are(res@, source@, file_path@, language, boundaries@),
{
    let cs = chars_of(source);
    let spans = line_spans(&cs);
    let ghost lines = text_lines(source@);
    let n = spans.len();
    let bs = normalize_boundaries(boundaries);
    let ghost all = chunk_spans(bs@, lines, 0);
    let mut chunks: Vec<Chunk> = Vec::new();
    let mut i: usize = 0;
    proof {
        lemma_chunk_spans_bounds(bs@, lines, 0);
    }
    while i < bs.len()
        invariant
            cs@ == source@,
            lines == text_lines(cs@),
            n == spans@.len(),
            lines.len() == n,
            spans@.len() == line_spans_from(cs@, 0).len(),
            forall|k: int|
                0 <= k < spans@.len() ==> spans@[k].0 as int == line_spans_from(cs@, 0)[k].0
                    && spans@[k].1 as int == line_spans_from(cs@, 0)[k].1,
            forall|k: int| 0 <= k < spans@.len() ==> #[trigger] spans@[k].0 <= spans@[k].1 <= cs@.len(),
            strictly_increasing(bs@),
            all == chunk_spans(bs@, lines, 0),
            all.len() == chunks@.len() + chunk_spans(bs@, lines, i as int).len(),
            forall|k: int|
                0 <= k < chunk_spans(bs@, lines, i as int).len() ==> all[chunks@.len() + k]
                    == #[trigger] chunk_spans(bs@, lines, i as int)[k],
            forall|k: int|
                0 <= k < chunks@.len() ==> chunk_matches(
                    #[trigger] chunks@[k],
                    file_path@,
                    language,
                    lines,
                    all[k],
                ),
        ensures
            chunk_spans(bs@, lines, i as int).len() == 0,
        decreases bs@.len() - i,
    {
        let start = bs[i];
        if start >= n {
            assert(chunk_spans(bs@, lines, i as int) =~= Seq::empty());
            break;
        }
        let ghost rest = chunk_spans(bs@, lines, i as int);
        let mut end_line = if i + 1 < bs.len() {
            if bs[i + 1] < n {
                bs[i + 1]
            } else {
                n
            }
        } else {
            n
        };
        assert(start < end_line) by {
            if i + 1 < bs@.len() {
                assert(bs@[i as int] < bs@[i + 1]);
            }
        }
        let mut next = i + 1;
        let first = block_chars(&cs, &spans, start, end_line);
        if utf8_len_capped(&first, TARGET_CHUNK_CHARS * 2) < TARGET_CHUNK_CHARS && i + 1 < bs.len() {
            let next_end = if i + 2 < bs.len() {
                if bs[i + 2] < n {
                    bs[i + 2]
                } else {
                    n
                }
            } else {
                n
            };
            assert(end_line <= next_end) by {
                if i + 2 < bs@.len() {
                    assert(bs@[i + 1] < bs@[i + 2]);
                }
            }
            let merged = block_chars(&cs, &spans, start, next_end);
            if utf8_len_capped(&merged, TARGET_CHUNK_CHARS * 2) <= TARGET_CHUNK_CHARS * 2 {
                end_line = next_end;
                next = i + 2;
            }
        }
        assert(rest == seq![(start as int, end_line as int)] + chunk_spans(bs@, lines, next as int));
        let content_chars = block_chars(&cs, &spans, start, end_line);
        let content = string_from_chars(content_chars.as_slice());
        let content_hash = hash_content(content.as_str());
        let mut preamble = String::from_str(file_path);
        preamble.append(":");
        append_decimal(&mut preamble, start + 1);
        preamble.append("-");
        append_decimal(&mut preamble, end_line);
        preamble.append(" [");
        preamble.append(language.as_str());
        preamble.append("]");
        proof {
            reveal_strlit(":");
            reveal_strlit("-");
            reveal_strlit(" [");
            reveal_strlit("]");
            assert(preamble@ =~= spec_preamble(
                file_path@,
                (start + 1) as nat,
                end_line as nat,
                language,
            ));
        }
        let chunk = Chunk {
            file_path: String::from_str(file_path),
            content,
            preamble,
            content_hash,
            line_start: start + 1,
            line_end: end_line,
            language,
        };
        let ghost old_len = chunks@.len();
        chunks.push(chunk);
        proof {
            assert(all[old_len as int] == rest[0]);
            assert forall|k: int|
                0 <= k < chunk_spans(bs@, lines, next as int).len() implies all[chunks@.len() + k]
                == #[trigger] chunk_spans(bs@, lines, next as int)[k] by {
                assert(rest[k + 1] == chunk_spans(bs@, lines, next as int)[k]);
            }
        }
        i = next;
    }
    proof {
        if i >= bs@.len() {
            assert(chunk_spans(bs@, lines, i as int) =~= Seq::empty());
        }
    }
    chunks
}

} // verus!
