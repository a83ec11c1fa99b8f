//! `/`-separated paths held as strings: file name, stem, extension, parent.
use vstd::prelude::*;

use crate::text::{chars_of, string_from};

verus! {

/// Index of the last `c` in `s[..n]`, or -1.
pub open spec fn last_index(s: Seq<char>, n: int, c: char) -> int
    decreases n,
{
    if n <= 0 {
        -1
    } else if s[n - 1] == c {
        n - 1
    } else {
        last_index(s, n - 1, c)
    }
}

pub fn last_index_exec(s: &Vec<char>, c: char) -> (r: Option<usize>)
    ensures
        r matches Some(k) ==> last_index(s@, s@.len() as int, c) == k && k < s@.len(),
        r is None ==> last_index(s@, s@.len() as int, c) == -1,
{
    let mut n = s.len();
    while n > 0
        invariant
            n <= s@.len(),
            last_index(s@, n as int, c) == last_index(s@, s@.len() as int, c),
        decreases n,
    {
        if s[n - 1] == c {
            return Some(n - 1);
        }
        n -= 1;
    }
    None
}

/// The last component of a path.
pub open spec fn file_name(p: Seq<char>) -> Seq<char> {
    p.subrange(last_index(p, p.len() as int, '/') + 1, p.len() as int)
}

/// Everything before the last component, without the separator; empty for
/// a bare file name.
pub open spec fn parent(p: Seq<char>) -> Seq<char> {
    let k = last_index(p, p.len() as int, '/');
    if k < 0 {
        Seq::empty()
    } else {
        p.subrange(0, k)
    }
}

/// Position of the dot that starts a file name's extension, or -1: the last
/// dot, unless it is the first character.
pub open spec fn ext_dot(name: Seq<char>) -> int {
    let k = last_index(name, name.len() as int, '.');
    if k > 0 {
        k
    } else {
        -1
    }
}

/// The file name without its extension.
pub open spec fn stem(name: Seq<char>) -> Seq<char> {
    if ext_dot(name) > 0 {
        name.subrange(0, ext_dot(name))
    } else {
        name
    }
}

/// The extension of a file name, without the dot; empty when it has none.
pub open spec fn extension(name: Seq<char>) -> Seq<char> {
    if ext_dot(name) > 0 {
        name.subrange(ext_dot(name) + 1, name.len() as int)
    } else {
        Seq::empty()
    }
}

/// The parts of a path: (parent, file name, stem, extension).
pub fn split_path(path: &str) -> (r: (String, String, String, String))
    ensures
        r.0@ == parent(path@),
        r.1@ == file_name(path@),
        r.2@ == stem(file_name(path@)),
        r.3@ == extension(file_name(path@)),
{
    let p = chars_of(path);
    let n = p.len();
    let (par, start) = match last_index_exec(&p, '/') {
        Some(k) => (string_from(&p, 0, k), k + 1),
        None => (String::new(), 0),
    };
    let mut name: Vec<char> = Vec::new();
    let mut i = start;
    while i < n
        invariant
            start <= i <= n == p@.len(),
            name@ == p@.subrange(start as int, i as int),
        decreases n - i,
    {
        name.push(p[i]);
        i += 1;
        assert(name@ =~= p@.subrange(start as int, i as int));
    }
    let m = name.len();
    let fname = string_from(&name, 0, m);
    assert(name@.subrange(0, m as int) =~= name@);
    match last_index_exec(&name, '.') {
        Some(k) => {
            if k > 0 {
                (par, fname, string_from(&name, 0, k), string_from(&name, k + 1, m))
            } else {
                (par, fname, string_from(&name, 0, m), String::new())
            }
        },
        None => (par, fname, string_from(&name, 0, m), String::new()),
    }
}

} // verus!
