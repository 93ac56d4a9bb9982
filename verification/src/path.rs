//! A lightweight textual model of absolute file paths.
//!
//! The driver reports paths as plain text.  The pipeline needs three
//! questions answered about them: where the delimiter of a two-path
//! rename record sits, what the parent directory of a path is, and
//! whether a path lies under a watch root.  All three are answered over
//! the character sequence itself: a separator is a backslash or a
//! forward slash, the parent is the text ahead of the last separator,
//! and a directory owns a path when it is a whole-component prefix of
//! it.

use vstd::prelude::*;
use crate::strutil::chars_of;

verus! {

/// Holds for the two path separator characters.
pub open spec fn is_sep(c: char) -> bool {
    c == '\\' || c == '/'
}

/// Index of the first occurrence of `c` in `s`, if any.
pub open spec fn first_index_of(s: Seq<char>, c: char) -> Option<int>
    decreases s.len(),
{
    if s.len() == 0 {
        None
    } else if s[0] == c {
        Some(0int)
    } else {
        match first_index_of(s.skip(1), c) {
            Some(i) => Some(i + 1),
            None => None,
        }
    }
}

/// Index of the last separator of `s`, if any.
pub open spec fn last_sep_index(s: Seq<char>) -> Option<int>
    decreases s.len(),
{
    if s.len() == 0 {
        None
    } else if is_sep(s[s.len() - 1]) {
        Some(s.len() - 1)
    } else {
        last_sep_index(s.take(s.len() - 1))
    }
}

/// Parent directory of a path: the text ahead of its last separator,
/// empty when the path has no separator.
pub open spec fn parent_of(s: Seq<char>) -> Seq<char> {
    match last_sep_index(s) {
        Some(i) => s.take(i),
        None => Seq::<char>::empty(),
    }
}

/// Final component of a path: the text behind its last separator, the
/// whole path when it has no separator.
pub open spec fn file_name_of(s: Seq<char>) -> Seq<char> {
    match last_sep_index(s) {
        Some(i) => s.skip(i + 1),
        None => s,
    }
}

/// Holds when `dir` owns `path`: `dir` is a textual prefix of `path`
/// and the prefix ends on a component boundary.
pub open spec fn is_path_prefix(dir: Seq<char>, path: Seq<char>) -> bool {
    &&& dir.len() <= path.len()
    &&& path.take(dir.len() as int) == dir
    &&& (dir.len() == path.len() || is_sep(path[dir.len() as int]) || (dir.len() > 0 && is_sep(
        dir[dir.len() - 1],
    )))
}

/// Finds the first occurrence of `c` in `s`.
pub fn find_char(s: &str, c: char) -> (r: Option<usize>)
    ensures
        match r {
            Some(i) => first_index_of(s@, c) == Some(i as int),
            None => first_index_of(s@, c) is None,
        },
{
    let n: usize = s.unicode_len();
    let mut i: usize = 0;
    proof {
        assert(s@.skip(0) =~= s@);
    }
    while i < n
        invariant
            i <= n,
            n == s@.len(),
            forall|j: int| 0 <= j < i ==> s@[j] != c,
            match first_index_of(s@.skip(i as int), c) {
                Some(x) => first_index_of(s@, c) == Some(x + i),
                None => first_index_of(s@, c) is None,
            },
        decreases n - i,
    {
        if s.get_char(i) == c {
            proof {
                let rest = s@.skip(i as int);
                assert(rest[0] == s@[i as int]);
                assert(first_index_of(rest, c) == Some(0int));
            }
            return Some(i);
        }
        proof {
            let rest = s@.skip(i as int);
            assert(rest[0] == s@[i as int]);
            assert(rest.skip(1) =~= s@.skip(i + 1));
        }
        i = i + 1;
    }
    proof {
        assert(s@.skip(n as int) =~= Seq::<char>::empty());
    }
    None
}

/// Finds the last separator of a character vector.
fn last_sep_of(v: &Vec<char>) -> (r: Option<usize>)
    ensures
        match r {
            Some(i) => i < v@.len() && last_sep_index(v@) == Some(i as int),
            None => last_sep_index(v@) is None,
        },
{
    let mut i: usize = v.len();
    proof {
        assert(v@.take(v@.len() as int) =~= v@);
    }
    while i > 0
        invariant
            i <= v@.len(),
            last_sep_index(v@) == last_sep_index(v@.take(i as int)),
        decreases i,
    {
        let c = v[i - 1];
        proof {
            let pre = v@.take(i as int);
            assert(pre[pre.len() - 1] == v@[i - 1]);
        }
        if c == '\\' || c == '/' {
            return Some(i - 1);
        }
        proof {
            let pre = v@.take(i as int);
            assert(pre.take(pre.len() - 1) =~= v@.take(i - 1));
        }
        i = i - 1;
    }
    proof {
        assert(v@.take(0) =~= Seq::<char>::empty());
    }
    None
}

/// Parent directory of a path, as an owned string.
pub fn parent_dir(path: &str) -> (r: String)
    ensures
        r@ == parent_of(path@),
{
    let v = chars_of(path);
    match last_sep_of(&v) {
        Some(i) => {
            let mut r = String::new();
            crate::strutil::push_char_range(&mut r, &v, 0, i);
            proof {
                assert(v@.subrange(0, i as int) =~= v@.take(i as int));
            }
            r
        },
        None => String::new(),
    }
}

/// Final component of a path, as an owned string.
pub fn file_name(path: &str) -> (r: String)
    ensures
        r@ == file_name_of(path@),
{
    let v = chars_of(path);
    let n: usize = v.len();
    match last_sep_of(&v) {
        Some(i) => {
            let mut r = String::new();
            crate::strutil::push_char_range(&mut r, &v, i + 1, n);
            proof {
                assert(v@.subrange(i + 1, v@.len() as int) =~= v@.skip(i + 1));
            }
            r
        },
        None => {
            crate::strutil::string_of_chars(&v)
        },
    }
}

/// Decides whether `dir` owns `path` as a whole-component prefix.
pub fn path_starts_with(path: &str, dir: &str) -> (r: bool)
    ensures
        r == is_path_prefix(dir@, path@),
{
    let p = chars_of(path);
    let d = chars_of(dir);
    let plen: usize = p.len();
    let dlen: usize = d.len();
    if dlen > plen {
        return false;
    }
    let mut i: usize = 0;
    while i < dlen
        invariant
            i <= dlen <= plen,
            p@ == path@,
            d@ == dir@,
            plen == p@.len(),
            dlen == d@.len(),
            forall|j: int| 0 <= j < i ==> p@[j] == d@[j],
        decreases dlen - i,
    {
        if p[i] != d[i] {
            proof {
                assert(path@.take(dir@.len() as int)[i as int] != dir@[i as int]);
            }
            return false;
        }
        i = i + 1;
    }
    proof {
        assert(path@.take(dir@.len() as int) =~= dir@);
    }
    if dlen == plen {
        return true;
    }
    let next = p[dlen];
    if next == '\\' || next == '/' {
        return true;
    }
    if dlen > 0 {
        let tail = d[dlen - 1];
        if tail == '\\' || tail == '/' {
            return true;
        }
    }
    false
}

} // verus!
