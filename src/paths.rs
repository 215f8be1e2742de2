//! Paths as character sequences with `/` as the separator.

use vstd::prelude::*;
use crate::text::{chars_of, push_char};

verus! {

/// The index of the last occurrence of `c` in `s`, or -1.
pub open spec fn last_index_of(s: Seq<char>, c: char) -> int
    decreases s.len(),
{
    if s.len() == 0 {
        -1
    } else if s.last() == c {
        s.len() - 1
    } else {
        last_index_of(s.drop_last(), c)
    }
}

/// The last component of a path.
pub open spec fn file_name_of(p: Seq<char>) -> Seq<char> {
    p.subrange(last_index_of(p, '/') + 1, p.len() as int)
}

/// The file name without its extension; a name with no dot past its first
/// character is its own stem.
pub open spec fn stem_of(p: Seq<char>) -> Seq<char> {
    let n = file_name_of(p);
    let d = last_index_of(n, '.');
    if d > 0 {
        n.subrange(0, d)
    } else {
        n
    }
}

/// The text after the last dot of the file name, if the name has one past
/// its first character.
pub open spec fn extension_of(p: Seq<char>) -> Option<Seq<char>> {
    let n = file_name_of(p);
    let d = last_index_of(n, '.');
    if d > 0 {
        Some(n.subrange(d + 1, n.len() as int))
    } else {
        None
    }
}

/// The directory that holds a path: what stands before its last separator,
/// the root for a path directly under it, and nothing for a bare name.
pub open spec fn parent_of(p: Seq<char>) -> Seq<char> {
    let i = last_index_of(p, '/');
    if i > 0 {
        p.subrange(0, i)
    } else if i == 0 {
        seq!['/']
    } else {
        Seq::empty()
    }
}

/// A segment with its leading separators removed.
pub open spec fn strip_leading_separators(s: Seq<char>) -> Seq<char>
    decreases s.len(),
{
    if s.len() > 0 && s[0] == '/' {
        strip_leading_separators(s.drop_first())
    } else {
        s
    }
}

/// `seg` placed under `base`, with exactly the separators needed between them.
pub open spec fn join_of(base: Seq<char>, seg: Seq<char>) -> Seq<char> {
    let s = strip_leading_separators(seg);
    if base.len() == 0 {
        s
    } else if base.last() == '/' {
        base + s
    } else {
        base.push('/') + s
    }
}

proof fn lemma_last_index_bounds(s: Seq<char>, c: char)
    ensures
        -1 <= last_index_of(s, c) < s.len(),
        last_index_of(s, c) >= 0 ==> s[last_index_of(s, c)] == c,
    decreases s.len(),
{
    if s.len() > 0 && s.last() != c {
        lemma_last_index_bounds(s.drop_last(), c);
    }
}

/// The index of the last `c` in a character vector.
fn last_index(cs: &Vec<char>, c: char) -> (r: Option<usize>)
    ensures
        match r {
            Some(i) => i as int == last_index_of(cs@, c),
            None => last_index_of(cs@, c) == -1,
        },
{
    let mut i: usize = cs.len();
    assert(cs@.subrange(0, i as int) == cs@);
    while i > 0
        invariant
            i <= cs.len(),
            last_index_of(cs@, c) == last_index_of(cs@.subrange(0, i as int), c),
        decreases i,
    {
        assert(cs@.subrange(0, i as int).drop_last() == cs@.subrange(0, i - 1));
        if cs[i - 1] == c {
            return Some(i - 1);
        }
        i = i - 1;
    }
    None
}

/// The last component of a path.
pub fn file_name(p: &str) -> (r: String)
    ensures
        r@ == file_name_of(p@),
{
    let cs = chars_of(p);
    proof {
        lemma_last_index_bounds(p@, '/');
    }
    let start: usize = match last_index(&cs, '/') {
        Some(i) => i + 1,
        None => 0,
    };
    String::from_str(p.substring_char(start, cs.len()))
}

/// The file name of a path without its extension.
pub fn file_stem(p: &str) -> (r: String)
    ensures
        r@ == stem_of(p@),
{
    let name = file_name(p);
    let cs = chars_of(name.as_str());
    proof {
        lemma_last_index_bounds(name@, '.');
    }
    match last_index(&cs, '.') {
        Some(d) => {
            if d > 0 {
                String::from_str(name.as_str().substring_char(0, d))
            } else {
                name
            }
        },
        None => name,
    }
}

/// The extension of a path's file name.
pub fn extension(p: &str) -> (r: Option<String>)
    ensures
        match r {
            Some(e) => extension_of(p@) == Some(e@),
            None => extension_of(p@) is None,
        },
{
    let name = file_name(p);
    let cs = chars_of(name.as_str());
    proof {
        lemma_last_index_bounds(name@, '.');
    }
    match last_index(&cs, '.') {
        Some(d) => {
            if d > 0 {
                Some(String::from_str(name.as_str().substring_char(d + 1, cs.len())))
            } else {
                None
            }
        },
        None => None,
    }
}

/// The directory that holds a path.
pub fn parent(p: &str) -> (r: String)
    ensures
        r@ == parent_of(p@),
{
    let cs = chars_of(p);
    proof {
        lemma_last_index_bounds(p@, '/');
    }
    match last_index(&cs, '/') {
        Some(i) => {
            if i > 0 {
                String::from_str(p.substring_char(0, i))
            } else {
                let mut r = String::new();
                push_char(&mut r, '/');
                r
            }
        },
        None => String::new(),
    }
}

/// `seg` placed under `base`.
pub fn join_path(base: &str, seg: &str) -> (r: String)
    ensures
        r@ == join_of(base@, seg@),
{
    let scs = chars_of(seg);
    let mut k: usize = 0;
    assert(seg@.subrange(0, seg@.len() as int) == seg@);
    while k < scs.len() && scs[k] == '/'
        invariant
            k <= scs.len(),
            scs@ == seg@,
            strip_leading_separators(seg@) == strip_leading_separators(seg@.subrange(k as int, seg@.len() as int)),
        decreases scs.len() - k,
    {
        assert(seg@.subrange(k as int, seg@.len() as int).drop_first() == seg@.subrange(k + 1, seg@.len() as int));
        k = k + 1;
    }
    let rest = seg.substring_char(k, scs.len());
    assert(strip_leading_separators(rest@) == rest@);
    let bcs = chars_of(base);
    let mut r = String::from_str(base);
    if bcs.len() > 0 && bcs[bcs.len() - 1] != '/' {
        push_char(&mut r, '/');
    }
    r.append(rest);
    r
}

} // verus!
