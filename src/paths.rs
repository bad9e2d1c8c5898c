//! File-name arithmetic on path strings.
use vstd::prelude::*;
use crate::text::{string_of_range, chars_of};

verus! {

/// The index of the last `c` in `s`, or -1.
pub open spec fn last_index_of(s: Seq<char>, c: char) -> int
    decreases s.len(),
{
    if s.len() == 0 {
        -1
    } else if s.last() == c {
        s.len() - 1
    } else {
        last_index_of(s.drop_last(), c)
    }
}

pub proof fn lemma_last_index_bounds(s: Seq<char>, c: char)
    ensures
        -1 <= last_index_of(s, c) < s.len(),
        last_index_of(s, c) >= 0 ==> s[last_index_of(s, c)] == c,
        forall|j: int| last_index_of(s, c) < j < s.len() ==> s[j] != c,
    decreases s.len(),
{
    if s.len() > 0 && s.last() != c {
        lemma_last_index_bounds(s.drop_last(), c);
        assert forall|j: int| last_index_of(s, c) < j < s.len() implies s[j] != c by {
            if j < s.len() - 1 {
                assert(s.drop_last()[j] == s[j]);
            }
        }
    }
}

/// The last component of a path: the text after its last `/`.
pub open spec fn base_name(s: Seq<char>) -> Seq<char> {
    s.subrange(last_index_of(s, '/') + 1, s.len() as int)
}

/// The file stem of a path: its base name without the text from the last
/// `.` on, where that `.` is not the first character of the base name.
pub open spec fn file_stem(s: Seq<char>) -> Seq<char> {
    let b = base_name(s);
    let d = last_index_of(b, '.');
    if d > 0 {
        b.subrange(0, d)
    } else {
        b
    }
}

/// The extension of a path: the text after the last `.` of its base name,
/// where that `.` is not the first character; empty otherwise.
pub open spec fn extension(s: Seq<char>) -> Seq<char> {
    let b = base_name(s);
    let d = last_index_of(b, '.');
    if d > 0 {
        b.subrange(d + 1, b.len() as int)
    } else {
        Seq::<char>::empty()
    }
}

fn last_index(v: &Vec<char>, from: usize, to: usize, c: char) -> (r: Option<usize>)
    requires
        from <= to <= v@.len(),
    ensures
        match r {
            Some(i) => from <= i < to && i - from == last_index_of(
                v@.subrange(from as int, to as int),
                c,
            ),
            None => last_index_of(v@.subrange(from as int, to as int), c) == -1,
        },
{
    let mut n: usize = to;
    while n > from
        invariant
            from <= n <= to <= v@.len(),
            last_index_of(v@.subrange(from as int, to as int), c) == last_index_of(
                v@.subrange(from as int, n as int),
                c,
            ),
        decreases n,
    {
        assert(v@.subrange(from as int, n as int).drop_last() =~= v@.subrange(
            from as int,
            n - 1,
        ));
        if v[n - 1] == c {
            return Some(n - 1);
        }
        n = n - 1;
    }
    None
}

/// Where the base name of `v` starts, and where its last non-leading `.`
/// stands (or the end of `v`).
fn stem_bounds(v: &Vec<char>) -> (r: (usize, usize, bool))
    ensures
        r.0 <= r.1 <= v@.len(),
        v@.subrange(r.0 as int, r.1 as int) == file_stem(v@),
        r.2 ==> r.1 < v@.len() && v@.subrange(r.1 + 1, v@.len() as int) == extension(v@),
        !r.2 ==> extension(v@) == Seq::<char>::empty(),
{
    let n = v.len();
    let start: usize = match last_index(v, 0, n, '/') {
        Some(i) => i + 1,
        None => 0,
    };
    assert(v@.subrange(0, n as int) =~= v@);
    let ghost b = base_name(v@);
    assert(b =~= v@.subrange(start as int, n as int));
    match last_index(v, start, n, '.') {
        Some(d) if d > start => {
            assert(v@.subrange(start as int, d as int) =~= b.subrange(0, d - start));
            assert(v@.subrange(d + 1, n as int) =~= b.subrange(d - start + 1, b.len() as int));
            (start, d, true)
        },
        _ => (start, n, false),
    }
}

/// The file stem of a path string (see `file_stem`).
pub fn stem_of(path: &str) -> (r: String)
    ensures
        r@ == file_stem(path@),
{
    let v = chars_of(path);
    let (a, b, _) = stem_bounds(&v);
    string_of_range(&v, a, b)
}

/// The extension of a path string (see `extension`).
pub fn extension_of(path: &str) -> (r: String)
    ensures
        r@ == extension(path@),
{
    let v = chars_of(path);
    let bounds = stem_bounds(&v);
    if bounds.2 && bounds.1 < v.len() {
        string_of_range(&v, bounds.1 + 1, v.len())
    } else {
        String::new()
    }
}

} // verus!
