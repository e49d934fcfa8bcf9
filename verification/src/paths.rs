//! Paths as text: their components, file name and extension, as `std::path::Path` reads them on
//! Unix, where `/` is the only separator.
use vstd::prelude::*;

use crate::text::{append_range, chars_of, string_from_chars};

verus! {

/// The `/`-separated pieces of `p`, empty pieces included (`"a//b"` has three pieces, `""`
/// one).
pub open spec fn segments(p: Seq<char>) -> Seq<Seq<char>>
    decreases p.len(),
{
    if p.len() == 0 {
        seq![Seq::empty()]
    } else if p.last() == '/' {
        segments(p.drop_last()).push(Seq::empty())
    } else {
        let s = segments(p.drop_last());
        s.update(s.len() - 1, s.last().push(p.last()))
    }
}

/// A piece that is a component by itself wherever it stands: neither empty nor `.`.
pub open spec fn is_normal_piece(s: Seq<char>) -> bool {
    s.len() > 0 && s != seq!['.']
}

/// The pieces of `segs` that are components by themselves, in order.
pub open spec fn normal_pieces(segs: Seq<Seq<char>>) -> Seq<Seq<char>>
    decreases segs.len(),
{
    if segs.len() == 0 {
        Seq::empty()
    } else {
        let r = normal_pieces(segs.drop_last());
        if is_normal_piece(segs.last()) {
            r.push(segs.last())
        } else {
            r
        }
    }
}

/// The component that stands before the pieces: `/` for an absolute path, `.` for a relative
/// path whose first piece is `.`, none otherwise.
pub open spec fn lead_component(p: Seq<char>) -> Seq<Seq<char>> {
    if p.len() > 0 && p[0] == '/' {
        seq![seq!['/']]
    } else if segments(p)[0] == seq!['.'] {
        seq![seq!['.']]
    } else {
        Seq::empty()
    }
}

/// The components of `p`, as `Path::components` gives them: the root `/` of an absolute path,
/// a leading `.`, then every piece that is neither empty nor `.`.
pub open spec fn path_components(p: Seq<char>) -> Seq<Seq<char>> {
    lead_component(p) + normal_pieces(segments(p))
}

proof fn lemma_segments_nonempty(p: Seq<char>)
    ensures
        segments(p).len() >= 1,
    decreases p.len(),
{
    if p.len() > 0 {
        lemma_segments_nonempty(p.drop_last());
    }
}

proof fn lemma_segments_first(p: Seq<char>, i: int)
    requires
        0 < i <= p.len(),
        segments(p.take(i)).len() > 1,
    ensures
        segments(p)[0] == segments(p.take(i))[0],
    decreases p.len() - i,
{
    if i < p.len() {
        let q = p.take(i + 1);
        assert(q.drop_last() =~= p.take(i));
        lemma_segments_nonempty(p.take(i));
        assert(segments(q)[0] == segments(p.take(i))[0]);
        lemma_segments_first(p, i + 1);
    } else {
        assert(p.take(i) =~= p);
    }
}

/// The components of `p`, as `Path::components` names them on Unix.
pub fn components(p: &str) -> (res: Vec<String>)
    ensures
        res@.len() == path_components(p@).len(),
        forall|k: int| 0 <= k < res@.len() ==> #[trigger] res@[k]@ == path_components(p@)[k],
{
    let cs = chars_of(p);
    let n = cs.len();
    let ghost ps = p@;
    let mut parts: Vec<Vec<char>> = Vec::new();
    let mut cur: Vec<char> = Vec::new();
    let mut first: Vec<char> = Vec::new();
    let mut seen_slash = false;
    let mut i: usize = 0;
    proof {
        assert(ps.take(0) =~= Seq::<char>::empty());
    }
    while i < n
        invariant
            n == cs@.len(),
            cs@ == ps,
            i <= n,
            cur@ == segments(ps.take(i as int)).last(),
            parts@.len() == normal_pieces(segments(ps.take(i as int)).drop_last()).len(),
            forall|k: int|
                0 <= k < parts@.len() ==> #[trigger] parts@[k]@ == normal_pieces(
                    segments(ps.take(i as int)).drop_last(),
                )[k],
            seen_slash <==> segments(ps.take(i as int)).len() > 1,
            seen_slash ==> first@ == segments(ps.take(i as int))[0],
        decreases n - i,
    {
        let ghost before = ps.take(i as int);
        let ghost after = ps.take(i + 1);
        proof {
            assert(after.drop_last() =~= before);
            assert(after.last() == cs@[i as int]);
            lemma_segments_nonempty(before);
        }
        if cs[i] == '/' {
            proof {
                assert(segments(after) == segments(before).push(Seq::empty()));
                assert(segments(after).drop_last() =~= segments(before));
                assert(segments(before) =~= segments(before).drop_last().push(
                    segments(before).last(),
                ));
            }
            let is_normal = cur.len() > 0 && !(cur.len() == 1 && cur[0] == '.');
            proof {
                assert(is_normal == is_normal_piece(cur@)) by {
                    if cur@ == seq!['.'] {
                        assert(cur@.len() == 1 && cur@[0] == '.');
                    }
                    if cur@.len() == 1 && cur@[0] == '.' {
                        assert(cur@ =~= seq!['.']);
                    }
                }
            }
            if !seen_slash {
                first = cur.clone();
                proof {
                    assert(segments(after)[0] == segments(before)[0]);
                }
            }
            if is_normal {
                parts.push(cur);
            }
            cur = Vec::new();
            seen_slash = true;
        } else {
            let ghost s = segments(before);
            proof {
                assert(segments(after) == s.update(s.len() - 1, s.last().push(cs@[i as int])));
                assert(segments(after).drop_last() =~= s.drop_last());
            }
            cur.push(cs[i]);
        }
        i = i + 1;
    }
    proof {
        assert(ps.take(n as int) =~= ps);
        lemma_segments_nonempty(ps);
    }
    let ghost segs = segments(ps);
    let is_normal = cur.len() > 0 && !(cur.len() == 1 && cur[0] == '.');
    proof {
        assert(is_normal == is_normal_piece(cur@)) by {
            if cur@ == seq!['.'] {
                assert(cur@.len() == 1 && cur@[0] == '.');
            }
            if cur@.len() == 1 && cur@[0] == '.' {
                assert(cur@ =~= seq!['.']);
            }
        }
        assert(segs =~= segs.drop_last().push(segs.last()));
    }
    if !seen_slash {
        first = cur.clone();
    }
    if is_normal {
        parts.push(cur);
    }
    let mut res: Vec<String> = Vec::new();
    let ghost lead = lead_component(ps);
    if n > 0 && cs[0] == '/' {
        res.push(String::from_str("/"));
        proof {
            reveal_strlit("/");
        }
    } else {
        let dot = first.len() == 1 && first[0] == '.';
        proof {
            assert(first@ == segs[0]);
            if segs[0] == seq!['.'] {
                assert(first@.len() == 1 && first@[0] == '.');
            }
            if dot {
                assert(first@ =~= seq!['.']);
            }
        }
        if dot {
            res.push(String::from_str("."));
            proof {
                reveal_strlit(".");
            }
        }
    }
    proof {
        assert(res@.len() == lead.len());
        assert(forall|k: int| 0 <= k < res@.len() ==> #[trigger] res@[k]@ == lead[k]);
    }
    let mut j: usize = 0;
    while j < parts.len()
        invariant
            j <= parts@.len(),
            lead == lead_component(ps),
            parts@.len() == normal_pieces(segs).len(),
            forall|k: int| 0 <= k < parts@.len() ==> #[trigger] parts@[k]@ == normal_pieces(segs)[k],
            res@.len() == lead.len() + j,
            forall|k: int| 0 <= k < res@.len() ==> #[trigger] res@[k]@ == (lead + normal_pieces(segs))[k],
        decreases parts@.len() - j,
    {
        let s = string_from_chars(parts[j].as_slice());
        res.push(s);
        j = j + 1;
    }
    res
}

/// The last component of `p` when it names a file or directory (not `/`, `.` or `..`), as
/// `Path::file_name` gives it.
pub open spec fn spec_file_name(p: Seq<char>) -> Option<Seq<char>> {
    let cs = path_components(p);
    if cs.len() == 0 {
        None
    } else {
        let last = cs.last();
        if last == seq!['/'] || last == seq!['.'] || last == seq!['.', '.'] {
            None
        } else {
            Some(last)
        }
    }
}

/// The index of the last `.` of `s`, if it holds one.
pub open spec fn last_dot(s: Seq<char>) -> Option<int>
    decreases s.len(),
{
    if s.len() == 0 {
        None
    } else if s.last() == '.' {
        Some(s.len() - 1)
    } else {
        last_dot(s.drop_last())
    }
}

proof fn lemma_last_dot_bounds(s: Seq<char>)
    ensures
        match last_dot(s) {
            Some(i) => 0 <= i < s.len() && s[i] == '.',
            None => true,
        },
    decreases s.len(),
{
    if s.len() > 0 && s.last() != '.' {
        lemma_last_dot_bounds(s.drop_last());
    }
}

/// The extension of a file name, as `Path::extension` reads it: the text after the last `.`,
/// unless there is none or the name starts with it (or is `..`).
pub open spec fn spec_name_extension(name: Seq<char>) -> Option<Seq<char>> {
    if name == seq!['.', '.'] {
        None
    } else {
        match last_dot(name) {
            None => None,
            Some(i) => if i == 0 {
                None
            } else {
                Some(name.subrange(i + 1, name.len() as int))
            },
        }
    }
}

/// The extension of the file `p` names, as `Path::extension` gives it.
pub open spec fn spec_path_extension(p: Seq<char>) -> Option<Seq<char>> {
    match spec_file_name(p) {
        None => None,
        Some(n) => spec_name_extension(n),
    }
}

/// The file name of `p`, as `Path::file_name` gives it.
pub fn file_name(p: &str) -> (res: Option<String>)
    ensures
        match res {
            Some(s) => spec_file_name(p@) == Some(s@),
            None => spec_file_name(p@) is None,
        },
{
    let mut cs = components(p);
    if cs.len() == 0 {
        return None;
    }
    let last = cs.pop().unwrap();
    let v = chars_of(last.as_str());
    let slash = v.len() == 1 && v[0] == '/';
    let dot = v.len() == 1 && v[0] == '.';
    let dotdot = v.len() == 2 && v[0] == '.' && v[1] == '.';
    proof {
        let l = path_components(p@).last();
        assert(v@ == l);
        if l == seq!['/'] {
            assert(v@.len() == 1 && v@[0] == '/');
        }
        if l == seq!['.'] {
            assert(v@.len() == 1 && v@[0] == '.');
        }
        if l == seq!['.', '.'] {
            assert(v@.len() == 2 && v@[0] == '.' && v@[1] == '.');
        }
        if slash {
            assert(v@ =~= seq!['/']);
        }
        if dot {
            assert(v@ =~= seq!['.']);
        }
        if dotdot {
            assert(v@ =~= seq!['.', '.']);
        }
    }
    if slash || dot || dotdot {
        None
    } else {
        Some(last)
    }
}

/// The index of the last `.` among the first `n` characters of `v`.
fn last_dot_in(v: &Vec<char>, n: usize) -> (r: Option<usize>)
    requires
        n <= v@.len(),
    ensures
        match r {
            Some(i) => last_dot(v@.take(n as int)) == Some(i as int),
            None => last_dot(v@.take(n as int)) is None,
        },
    decreases n,
{
    if n == 0 {
        return None;
    }
    proof {
        assert(v@.take(n as int).drop_last() =~= v@.take(n - 1));
    }
    if v[n - 1] == '.' {
        Some(n - 1)
    } else {
        last_dot_in(v, n - 1)
    }
}

/// The extension of the file `p` names, as `Path::extension` gives it.
pub fn extension(p: &str) -> (res: Option<String>)
    ensures
        match res {
            Some(s) => spec_path_extension(p@) == Some(s@),
            None => spec_path_extension(p@) is None,
        },
{
    let name = match file_name(p) {
        Some(n) => n,
        None => return None,
    };
    let v = chars_of(name.as_str());
    let dotdot = v.len() == 2 && v[0] == '.' && v[1] == '.';
    proof {
        if v@ == seq!['.', '.'] {
            assert(v@.len() == 2 && v@[0] == '.' && v@[1] == '.');
        }
        if dotdot {
            assert(v@ =~= seq!['.', '.']);
        }
        assert(v@.take(v@.len() as int) =~= v@);
    }
    if dotdot {
        return None;
    }
    proof {
        lemma_last_dot_bounds(v@);
    }
    match last_dot_in(&v, v.len()) {
        None => None,
        Some(i) => {
            if i == 0 {
                None
            } else {
                let mut rest = String::new();
                append_range(&mut rest, &v, i + 1, v.len());
                proof {
                    assert(rest@ =~= v@.subrange(i + 1, v@.len() as int));
                }
                Some(rest)
            }
        },
    }
}

} // verus!
