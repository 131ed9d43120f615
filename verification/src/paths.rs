//! The Unix path rules of std's `Path` that the tools rely on: the file name
//! (last normal component), its extension and stem, and joining a relative
//! name onto a directory.

use vstd::prelude::*;
use crate::text::{chars_of, push_all, push_str, slice_chars, chars_eq};
use crate::split::last_index_of;

verus! {

/// Where `last_index_of` points: the last occurrence, or none.
pub proof fn lemma_last_index_of_bound(s: Seq<char>, c: char)
    ensures
        last_index_of(s, c) matches Some(k) ==> 0 <= k < s.len() && s[k] == c && forall|j: int|
            k < j < s.len() ==> s[j] != c,
        last_index_of(s, c) is None ==> forall|j: int| 0 <= j < s.len() ==> s[j] != c,
    decreases s.len(),
{
    if s.len() > 0 && s.last() != c {
        lemma_last_index_of_bound(s.drop_last(), c);
        assert forall|j: int| 0 <= j < s.len() - 1 implies s[j] == s.drop_last()[j] by {}
    }
}

/// The last normal component of a Unix path (`Path::file_name`): empty and
/// `.` components are skipped; a final `..`, or no component, gives `None`.
pub open spec fn file_name(p: Seq<char>) -> Option<Seq<char>>
    decreases p.len(),
{
    if p.len() == 0 {
        None
    } else if p.last() == '/' {
        file_name(p.drop_last())
    } else {
        match last_index_of(p, '/') {
            Some(k) => {
                proof {
                    lemma_last_index_of_bound(p, '/');
                }
                let seg = p.skip(k + 1);
                if seg == "."@ {
                    file_name(p.take(k))
                } else if seg == ".."@ {
                    None
                } else {
                    Some(seg)
                }
            },
            None => if p == "."@ || p == ".."@ {
                None
            } else {
                Some(p)
            },
        }
    }
}

/// The extension of a file name: what follows its last `.`, unless that dot
/// is the first character (or there is none).
pub open spec fn name_extension(name: Seq<char>) -> Option<Seq<char>> {
    match last_index_of(name, '.') {
        Some(k) => if k == 0 {
            None
        } else {
            Some(name.skip(k + 1))
        },
        None => None,
    }
}

/// `Path::extension` on a Unix path.
pub open spec fn extension(p: Seq<char>) -> Option<Seq<char>> {
    match file_name(p) {
        Some(n) => name_extension(n),
        None => None,
    }
}

/// `Path::file_stem` on a Unix path: the file name before its last `.`
/// (the whole name when the dot is the first character or there is none).
pub open spec fn file_stem(p: Seq<char>) -> Option<Seq<char>> {
    match file_name(p) {
        Some(n) => match last_index_of(n, '.') {
            Some(k) => if k == 0 {
                Some(n)
            } else {
                Some(n.take(k))
            },
            None => Some(n),
        },
        None => None,
    }
}

/// `dir.join(name)` on Unix: an absolute `name` replaces `dir`; otherwise a
/// `/` separates them unless `dir` is empty or already ends with one.
pub open spec fn join(dir: Seq<char>, name: Seq<char>) -> Seq<char> {
    if name.len() > 0 && name[0] == '/' {
        name
    } else if dir.len() == 0 || dir.last() == '/' {
        dir + name
    } else {
        dir + "/"@ + name
    }
}

/// Index of the last occurrence of `c` in `s`.
pub fn last_index_of_exec(s: &Vec<char>, c: char) -> (r: Option<usize>)
    ensures
        match r {
            Some(k) => last_index_of(s@, c) == Some(k as int) && k < s.len(),
            None => last_index_of(s@, c) is None,
        },
{
    let mut i = s.len();
    proof {
        assert(s@.take(i as int) == s@);
    }
    while i > 0
        invariant
            0 <= i <= s.len(),
            last_index_of(s@, c) == last_index_of(s@.take(i as int), c),
        decreases i,
    {
        proof {
            assert(s@.take(i as int).drop_last() == s@.take(i - 1));
            assert(s@.take(i as int).last() == s@[i - 1]);
        }
        if s[i - 1] == c {
            return Some(i - 1);
        }
        i -= 1;
    }
    None
}

/// The last normal component of a Unix path.
pub fn file_name_exec(p: &Vec<char>) -> (r: Option<Vec<char>>)
    ensures
        match r {
            Some(n) => file_name(p@) == Some(n@),
            None => file_name(p@) is None,
        },
    decreases p.len(),
{
    proof {
        reveal_strlit(".");
        reveal_strlit("..");
    }
    let dot = chars_of(".");
    let dotdot = chars_of("..");
    if p.len() == 0 {
        return None;
    }
    if p[p.len() - 1] == '/' {
        let q = slice_chars(p, 0, p.len() - 1);
        proof {
            assert(q@ == p@.drop_last());
        }
        return file_name_exec(&q);
    }
    match last_index_of_exec(p, '/') {
        Some(k) => {
            proof {
                lemma_last_index_of_bound(p@, '/');
            }
            let seg = slice_chars(p, k + 1, p.len());
            proof {
                assert(seg@ == p@.skip(k + 1));
            }
            if chars_eq(&seg, &dot) {
                let before = slice_chars(p, 0, k);
                proof {
                    assert(before@ == p@.take(k as int));
                }
                file_name_exec(&before)
            } else if chars_eq(&seg, &dotdot) {
                None
            } else {
                Some(seg)
            }
        },
        None => {
            if chars_eq(p, &dot) || chars_eq(p, &dotdot) {
                None
            } else {
                Some(slice_chars(p, 0, p.len()))
            }
        },
    }
}

/// `Path::extension` on a Unix path.
pub fn extension_exec(p: &Vec<char>) -> (r: Option<Vec<char>>)
    ensures
        match r {
            Some(e) => extension(p@) == Some(e@),
            None => extension(p@) is None,
        },
{
    match file_name_exec(p) {
        Some(n) => match last_index_of_exec(&n, '.') {
            Some(k) => {
                if k == 0 {
                    None
                } else {
                    let e = slice_chars(&n, k + 1, n.len());
                    proof {
                        assert(e@ == n@.skip(k + 1));
                    }
                    Some(e)
                }
            },
            None => None,
        },
        None => None,
    }
}

/// `Path::file_stem` on a Unix path.
pub fn file_stem_exec(p: &Vec<char>) -> (r: Option<Vec<char>>)
    ensures
        match r {
            Some(s) => file_stem(p@) == Some(s@),
            None => file_stem(p@) is None,
        },
{
    match file_name_exec(p) {
        Some(n) => match last_index_of_exec(&n, '.') {
            Some(k) => {
                if k == 0 {
                    Some(n)
                } else {
                    let s = slice_chars(&n, 0, k);
                    proof {
                        assert(s@ == n@.take(k as int));
                    }
                    Some(s)
                }
            },
            None => Some(n),
        },
        None => None,
    }
}

/// `dir.join(name)` on Unix.
pub fn join_exec(dir: &Vec<char>, name: &Vec<char>) -> (r: Vec<char>)
    ensures
        r@ == join(dir@, name@),
{
    if name.len() > 0 && name[0] == '/' {
        return slice_chars(name, 0, name.len());
    }
    let mut out = slice_chars(dir, 0, dir.len());
    if !(dir.len() == 0 || dir[dir.len() - 1] == '/') {
        push_str(&mut out, "/");
    }
    push_all(&mut out, name);
    proof {
        assert(dir@.subrange(0, dir@.len() as int) == dir@);
        assert(name@.subrange(0, name@.len() as int) == name@);
    }
    out
}

} // verus!
