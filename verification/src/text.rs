use vstd::prelude::*;

verus! {

/// The characters of `s`, in order.
pub fn chars_of(s: &str) -> (res: Vec<char>)
    ensures
        res@ == s@,
{
    let mut res: Vec<char> = Vec::new();
    for c in it: s.chars()
        invariant
            res@ == it.seq().take(it.index() as int),
    {
        res.push(c);
    }
    res
}

/// Whether two strings hold the same characters.
pub fn str_eq(a: &str, b: &str) -> (r: bool)
    ensures
        r == (a@ == b@),
{
    let x = chars_of(a);
    let y = chars_of(b);
    chars_eq(&x, &y)
}

/// Whether two character vectors are equal.
pub fn chars_eq(x: &Vec<char>, y: &Vec<char>) -> (r: bool)
    ensures
        r == (x@ == y@),
{
    if x.len() != y.len() {
        return false;
    }
    let mut i: usize = 0;
    while i < x.len()
        invariant
            x@.len() == y@.len(),
            i <= x@.len(),
            forall|k: int| 0 <= k < i ==> x@[k] == y@[k],
        decreases x@.len() - i,
    {
        if x[i] != y[i] {
            return false;
        }
        i = i + 1;
    }
    assert(x@ =~= y@);
    true
}

/// `String::push`: appends one character.
#[verifier::external_body]
pub(crate) fn push_char(s: &mut String, c: char)
    ensures
        final(s)@ == old(s)@.push(c),
{
    s.push(c)
}

/// A string holding exactly the given characters.
pub fn string_from_chars(cs: &[char]) -> (res: String)
    ensures
        res@ == cs@,
{
    let mut res = String::new();
    let mut i: usize = 0;
    while i < cs.len()
        invariant
            i <= cs@.len(),
            res@ == cs@.take(i as int),
        decreases cs@.len() - i,
    {
        push_char(&mut res, cs[i]);
        i = i + 1;
        assert(res@ =~= cs@.take(i as int));
    }
    assert(cs@.take(cs@.len() as int) =~= cs@);
    res
}

/// Appends the characters `cs[from..to]` to `s`.
pub fn append_range(s: &mut String, cs: &Vec<char>, from: usize, to: usize)
    requires
        from <= to <= cs@.len(),
    ensures
        final(s)@ == old(s)@ + cs@.subrange(from as int, to as int),
{
    let mut i = from;
    while i < to
        invariant
            from <= i <= to <= cs@.len(),
            s@ == old(s)@ + cs@.subrange(from as int, i as int),
        decreases to - i,
    {
        push_char(s, cs[i]);
        i = i + 1;
        assert(s@ =~= old(s)@ + cs@.subrange(from as int, i as int));
    }
}

/// The decimal digit character for `d` (which is below ten).
pub open spec fn digit_char(d: nat) -> char {
    if d == 0 { '0' } else if d == 1 { '1' } else if d == 2 { '2' } else if d == 3 { '3' }
    else if d == 4 { '4' } else if d == 5 { '5' } else if d == 6 { '6' } else if d == 7 { '7' }
    else if d == 8 { '8' } else { '9' }
}

/// The decimal notation of `n`, without sign or leading zeros ("0" for zero).
pub open spec fn decimal(n: nat) -> Seq<char>
    decreases n,
{
    if n < 10 {
        seq![digit_char(n)]
    } else {
        decimal(n / 10).push(digit_char(n % 10))
    }
}

fn exec_digit_char(d: usize) -> (c: char)
    requires
        d < 10,
    ensures
        c == digit_char(d as nat),
{
    if d == 0 { '0' } else if d == 1 { '1' } else if d == 2 { '2' } else if d == 3 { '3' }
    else if d == 4 { '4' } else if d == 5 { '5' } else if d == 6 { '6' } else if d == 7 { '7' }
    else if d == 8 { '8' } else { '9' }
}

/// Appends the decimal notation of `n` to `s`.
pub fn append_decimal(s: &mut String, n: usize)
    ensures
        final(s)@ == old(s)@ + decimal(n as nat),
    decreases n,
{
    if n < 10 {
        push_char(s, exec_digit_char(n));
        assert(decimal(n as nat) =~= seq![digit_char(n as nat)]);
    } else {
        append_decimal(s, n / 10);
        push_char(s, exec_digit_char(n % 10));
        assert(s@ =~= old(s)@ + decimal(n as nat));
    }
}

/// Index of the first line feed in `s` at or after `from`, or `s.len()` when there is none.
pub open spec fn next_line_feed(s: Seq<char>, from: int) -> int
    decreases s.len() - from,
{
    if from >= s.len() {
        s.len() as int
    } else if s[from] == '\n' {
        from
    } else {
        next_line_feed(s, from + 1)
    }
}

/// The character ranges of the lines of `s` from position `from` on, as `str::lines` yields
/// them: a line ends at a line feed, a carriage return just before that line feed is not part
/// of the line, a last line without a line feed is kept as it stands, and nothing follows a
/// final line feed.
pub open spec fn line_spans_from(s: Seq<char>, from: int) -> Seq<(int, int)>
    decreases s.len() + 1 - from,
{
    if from < 0 || from >= s.len() {
        Seq::empty()
    } else {
        let e = next_line_feed(s, from);
        let end = if e < s.len() && e > from && s[e - 1] == '\r' { e - 1 } else { e };
        if from <= e <= s.len() {
            seq![(from, end)] + line_spans_from(s, e + 1)
        } else {
            Seq::empty()
        }
    }
}

/// The lines of `s`, as `str::lines` yields them.
pub open spec fn text_lines(s: Seq<char>) -> Seq<Seq<char>> {
    line_spans_from(s, 0).map_values(|p: (int, int)| s.subrange(p.0, p.1))
}

proof fn lemma_next_line_feed(s: Seq<char>, from: int)
    requires
        0 <= from <= s.len(),
    ensures
        from <= next_line_feed(s, from) <= s.len(),
        next_line_feed(s, from) < s.len() ==> s[next_line_feed(s, from)] == '\n',
        forall|k: int| from <= k < next_line_feed(s, from) ==> s[k] != '\n',
    decreases s.len() - from,
{
    if from < s.len() && s[from] != '\n' {
        lemma_next_line_feed(s, from + 1);
    }
}

/// Every span of `line_spans_from(s, from)` lies within `s`, after `from`.
pub proof fn lemma_line_spans_bounds(s: Seq<char>, from: int)
    requires
        0 <= from <= s.len(),
    ensures
        forall|k: int|
            0 <= k < line_spans_from(s, from).len() ==> from <= #[trigger] line_spans_from(
                s,
                from,
            )[k].0 <= line_spans_from(s, from)[k].1 <= s.len(),
    decreases s.len() - from,
{
    if from < s.len() {
        lemma_next_line_feed(s, from);
        let e = next_line_feed(s, from);
        if e < s.len() {
            lemma_line_spans_bounds(s, e + 1);
        } else {
            assert(line_spans_from(s, e + 1) =~= Seq::empty());
        }
        let end = if e < s.len() && e > from && s[e - 1] == '\r' { e - 1 } else { e };
        let rest = line_spans_from(s, e + 1);
        assert(line_spans_from(s, from) == seq![(from, end)] + rest);
        assert forall|k: int| 0 <= k < line_spans_from(s, from).len() implies from
            <= #[trigger] line_spans_from(s, from)[k].0 <= line_spans_from(s, from)[k].1
            <= s.len() by {
            if k > 0 {
                assert(line_spans_from(s, from)[k] == rest[k - 1]);
            }
        }
    }
}

/// The character ranges of the lines of `cs`, as `str::lines` yields them.
pub fn line_spans(cs: &Vec<char>) -> (res: Vec<(usize, usize)>)
    ensures
        res@.len() == line_spans_from(cs@, 0).len(),
        forall|k: int|
            0 <= k < res@.len() ==> res@[k].0 as int == line_spans_from(cs@, 0)[k].0
                && res@[k].1 as int == line_spans_from(cs@, 0)[k].1,
        forall|k: int| 0 <= k < res@.len() ==> #[trigger] res@[k].0 <= res@[k].1 <= cs@.len(),
{
    let ghost s = cs@;
    let mut res: Vec<(usize, usize)> = Vec::new();
    let mut from: usize = 0;
    proof {
        lemma_line_spans_bounds(s, 0);
    }
    while from < cs.len()
        invariant
            s == cs@,
            from <= cs@.len(),
            line_spans_from(s, 0).len() == res@.len() + line_spans_from(s, from as int).len(),
            forall|k: int|
                0 <= k < res@.len() ==> res@[k].0 as int == line_spans_from(s, 0)[k].0
                    && res@[k].1 as int == line_spans_from(s, 0)[k].1,
            forall|k: int|
                0 <= k < line_spans_from(s, from as int).len() ==> line_spans_from(s, 0)[res@.len()
                    + k] == line_spans_from(s, from as int)[k],
            forall|k: int| 0 <= k < res@.len() ==> #[trigger] res@[k].0 <= res@[k].1 <= cs@.len(),
        decreases cs@.len() - from,
    {
        proof {
            lemma_next_line_feed(s, from as int);
            lemma_line_spans_bounds(s, from as int);
        }
        let mut e = from;
        while e < cs.len() && cs[e] != '\n'
            invariant
                s == cs@,
                from <= e <= cs@.len(),
                forall|k: int| from <= k < e ==> s[k] != '\n',
                next_line_feed(s, from as int) == next_line_feed(s, e as int),
            decreases cs@.len() - e,
        {
            e = e + 1;
        }
        assert(e as int == next_line_feed(s, from as int));
        let end = if e < cs.len() && e > from && cs[e - 1] == '\r' {
            e - 1
        } else {
            e
        };
        let ghost old_rest = line_spans_from(s, from as int);
        assert(old_rest == seq![(from as int, end as int)] + line_spans_from(s, e + 1));
        assert(line_spans_from(s, 0)[res@.len() as int] == old_rest[0]);
        res.push((from, end));
        if e < cs.len() {
            from = e + 1;
        } else {
            from = cs.len();
            assert(line_spans_from(s, e + 1) =~= Seq::empty());
            assert(line_spans_from(s, cs@.len() as int) =~= Seq::empty());
        }
        assert(line_spans_from(s, from as int) == line_spans_from(s, e + 1));
        assert forall|k: int|
            0 <= k < line_spans_from(s, from as int).len() implies line_spans_from(s, 0)[res@.len()
                + k] == line_spans_from(s, from as int)[k] by {
            assert(old_rest[k + 1] == line_spans_from(s, e + 1)[k]);
        }
    }
    assert(line_spans_from(s, from as int) =~= Seq::empty());
    res
}

/// Once past `from`, a position before the first line feed skips nothing.
proof fn lemma_nlf_skip(s: Seq<char>, from: int, e: int)
    requires
        0 <= from <= e <= s.len(),
        forall|k: int| from <= k < e ==> s[k] != '\n',
    ensures
        next_line_feed(s, from) == next_line_feed(s, e),
    decreases e - from,
{
    if from < e {
        lemma_nlf_skip(s, from + 1, e);
    }
}

} // verus!
