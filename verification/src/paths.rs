//! The parts of a `/`-separated path, as `std::path::Path` takes them apart
//! on Unix: the last component, the parent, the stem and the extension.

use vstd::prelude::*;
use crate::text::{chars_of, opt_view, slice_chars, string_of};

verus! {

pub open spec fn has_root(s: Seq<char>) -> bool {
    s.len() > 0 && s[0] == '/'
}

/// The path is `.` or starts with `./`, a current-directory component that
/// the components keep.
pub open spec fn leading_cur_dir(s: Seq<char>) -> bool {
    s.len() > 0 && s[0] == '.' && (s.len() == 1 || s[1] == '/')
}

/// Where the components after the root or the leading `.` begin.
pub open spec fn body_start(s: Seq<char>) -> int {
    if has_root(s) || leading_cur_dir(s) {
        1
    } else {
        0
    }
}

/// `s` without its trailing empty and `.` components (each with the
/// separator before it), never cutting into the first `start` characters.
pub open spec fn trim_trailing(s: Seq<char>, start: int) -> Seq<char>
    decreases s.len(),
{
    if s.len() <= start || s.len() == 0 {
        s
    } else if s.last() == '/' {
        trim_trailing(s.drop_last(), start)
    } else if s.last() == '.' && s.len() - 1 == start {
        trim_trailing(s.drop_last(), start)
    } else if s.last() == '.' && s.len() >= 2 && s[s.len() - 2] == '/' {
        trim_trailing(s.take(s.len() - 2), start)
    } else {
        s
    }
}

/// Where the last component of `s` begins: just after its last separator at
/// or after `start`, or at `start`.
pub open spec fn component_start(s: Seq<char>, start: int) -> int
    decreases s.len(),
{
    if s.len() <= start || s.len() == 0 {
        start
    } else if s.last() == '/' {
        s.len() as int
    } else {
        component_start(s.drop_last(), start)
    }
}

/// The path with trailing empty and `.` components dropped.
pub open spec fn tail_trimmed(s: Seq<char>) -> Seq<char> {
    trim_trailing(s, body_start(s))
}

/// The last component of the body, or nothing when only the root or the
/// leading `.` is left.
pub open spec fn last_component(s: Seq<char>) -> Option<Seq<char>> {
    let t = tail_trimmed(s);
    let b = body_start(s);
    if t.len() <= b {
        None
    } else {
        Some(t.subrange(component_start(t, b), t.len() as int))
    }
}

/// `Path::file_name`: the last component, unless it is `..`.
pub open spec fn path_file_name(s: Seq<char>) -> Option<Seq<char>> {
    match last_component(s) {
        Some(c) => if c == seq!['.', '.'] {
            None
        } else {
            Some(c)
        },
        None => None,
    }
}

/// `Path::parent`: the path without its last component; none for the root
/// and for the empty path, the empty path for `.`.
pub open spec fn path_parent(s: Seq<char>) -> Option<Seq<char>> {
    let t = tail_trimmed(s);
    let b = body_start(s);
    if t.len() <= b {
        if leading_cur_dir(s) {
            Some(Seq::empty())
        } else {
            None
        }
    } else {
        let c = component_start(t, b);
        Some(trim_trailing(t.take(if c > b { c - 1 } else { c }), b))
    }
}

/// Position of the last `.` in `s`, or -1.
pub open spec fn last_dot(s: Seq<char>) -> int
    decreases s.len(),
{
    if s.len() == 0 {
        -1
    } else if s.last() == '.' {
        s.len() - 1
    } else {
        last_dot(s.drop_last())
    }
}

/// The stem of a file name: all of it when it has no dot after its first
/// character, else what comes before its last dot.
pub open spec fn name_stem(n: Seq<char>) -> Seq<char> {
    if last_dot(n) <= 0 {
        n
    } else {
        n.take(last_dot(n))
    }
}

/// The extension of a file name: what follows its last dot, when that dot is
/// not its first character.
pub open spec fn name_extension(n: Seq<char>) -> Option<Seq<char>> {
    if last_dot(n) <= 0 {
        None
    } else {
        Some(n.skip(last_dot(n) + 1))
    }
}

/// `Path::file_stem`.
pub open spec fn path_file_stem(s: Seq<char>) -> Option<Seq<char>> {
    match path_file_name(s) {
        Some(n) => Some(name_stem(n)),
        None => None,
    }
}

/// `Path::extension`.
pub open spec fn path_extension(s: Seq<char>) -> Option<Seq<char>> {
    match path_file_name(s) {
        Some(n) => name_extension(n),
        None => None,
    }
}

fn body_start_of(v: &Vec<char>) -> (b: usize)
    ensures
        b == body_start(v@),
        b <= v.len(),
{
    if v.len() > 0 && v[0] == '/' {
        1
    } else if v.len() > 0 && v[0] == '.' && (v.len() == 1 || v[1] == '/') {
        1
    } else {
        0
    }
}

/// Length of `trim_trailing(v.take(e), b)`, which is a prefix of `v`.
fn trimmed_len(v: &Vec<char>, e: usize, b: usize) -> (r: usize)
    requires
        e <= v.len(),
    ensures
        r <= e,
        (b <= e ==> b <= r),
        v@.take(r as int) == trim_trailing(v@.take(e as int), b as int),
{
    let mut k: usize = e;
    while k > b
        invariant
            k <= e <= v.len(),
            b <= e ==> b <= k,
            trim_trailing(v@.take(e as int), b as int) == trim_trailing(v@.take(k as int), b as int),
        decreases k,
    {
        let ghost t = v@.take(k as int);
        if v[k - 1] == '/' {
            assert(t.drop_last() =~= v@.take(k - 1));
            k = k - 1;
        } else if v[k - 1] == '.' && k - 1 == b {
            assert(t.drop_last() =~= v@.take(k - 1));
            k = k - 1;
        } else if v[k - 1] == '.' && k >= 2 && v[k - 2] == '/' {
            assert(t.take(t.len() - 2) =~= v@.take(k - 2));
            k = k - 2;
        } else {
            if k >= 2 {
                assert(t[t.len() - 2] == v@[k - 2]);
            }
            return k;
        }
    }
    k
}

/// `component_start(v.take(e), b)`.
fn component_start_of(v: &Vec<char>, e: usize, b: usize) -> (r: usize)
    requires
        b <= e <= v.len(),
    ensures
        b <= r <= e,
        r == component_start(v@.take(e as int), b as int),
        forall|j: int| r <= j < e ==> v@[j] != '/',
{
    let mut k: usize = e;
    while k > b && v[k - 1] != '/'
        invariant
            b <= k <= e <= v.len(),
            component_start(v@.take(e as int), b as int) == component_start(v@.take(k as int), b as int),
            forall|j: int| k <= j < e ==> v@[j] != '/',
        decreases k,
    {
        assert(v@.take(k as int).drop_last() =~= v@.take(k - 1));
        k = k - 1;
    }
    k
}

/// `Path::file_name` for a `/`-separated path.
pub fn file_name(path: &str) -> (r: Option<String>)
    ensures
        opt_view(r) == path_file_name(path@),
{
    let v = chars_of(path);
    let b = body_start_of(&v);
    let e = trimmed_len(&v, v.len(), b);
    assert(v@.take(v.len() as int) =~= v@);
    if e <= b {
        return None;
    }
    let c = component_start_of(&v, e, b);
    assert(v@.take(e as int).subrange(c as int, e as int) =~= v@.subrange(c as int, e as int));
    let comp = slice_chars(&v, c, e);
    if comp.len() == 2 && comp[0] == '.' && comp[1] == '.' {
        assert(comp@ =~= seq!['.', '.']);
        None
    } else {
        assert(comp@ != seq!['.', '.']);
        Some(string_of(&comp))
    }
}

/// `Path::parent` for a `/`-separated path.
pub fn parent(path: &str) -> (r: Option<String>)
    ensures
        opt_view(r) == path_parent(path@),
{
    let v = chars_of(path);
    let b = body_start_of(&v);
    let e = trimmed_len(&v, v.len(), b);
    assert(v@.take(v.len() as int) =~= v@);
    if e <= b {
        if v.len() > 0 && v[0] == '.' && (v.len() == 1 || v[1] == '/') {
            return Some(String::new());
        } else {
            return None;
        }
    }
    let c = component_start_of(&v, e, b);
    let cut = if c > b { c - 1 } else { c };
    assert(v@.take(e as int).take(cut as int) =~= v@.take(cut as int));
    let p = trimmed_len(&v, cut, b);
    Some(string_of(&slice_chars(&v, 0, p)))
}

pub proof fn lemma_last_dot(s: Seq<char>)
    ensures
        -1 <= last_dot(s) < s.len(),
        last_dot(s) >= 0 ==> s[last_dot(s)] == '.',
    decreases s.len(),
{
    if s.len() > 0 && s.last() != '.' {
        lemma_last_dot(s.drop_last());
    }
}

fn last_dot_of(v: &Vec<char>) -> (r: usize)
    ensures
        r == (if last_dot(v@) < 0 { v.len() as int } else { last_dot(v@) }),
        r <= v.len(),
{
    let mut k: usize = v.len();
    assert(v@.take(k as int) =~= v@);
    while k > 0 && v[k - 1] != '.'
        invariant
            k <= v.len(),
            last_dot(v@) == last_dot(v@.take(k as int)),
        decreases k,
    {
        assert(v@.take(k as int).drop_last() =~= v@.take(k - 1));
        k = k - 1;
    }
    if k == 0 {
        v.len()
    } else {
        k - 1
    }
}

/// Splits a file name into its stem and its extension.
fn split_name(n: &Vec<char>) -> (r: (Vec<char>, Option<Vec<char>>))
    ensures
        r.0@ == name_stem(n@),
        match r.1 {
            Some(x) => name_extension(n@) == Some(x@),
            None => name_extension(n@) is None,
        },
{
    let d = last_dot_of(n);
    proof {
        lemma_last_dot(n@);
    }
    if d == 0 || d == n.len() {
        (slice_chars(n, 0, n.len()), None)
    } else {
        let stem = slice_chars(n, 0, d);
        let ext = slice_chars(n, d + 1, n.len());
        assert(ext@ =~= n@.skip(d + 1));
        (stem, Some(ext))
    }
}

/// `Path::file_stem` for a `/`-separated path.
pub fn file_stem(path: &str) -> (r: Option<String>)
    ensures
        opt_view(r) == path_file_stem(path@),
{
    match file_name(path) {
        Some(n) => {
            let v = chars_of(n.as_str());
            let (stem, _) = split_name(&v);
            Some(string_of(&stem))
        },
        None => None,
    }
}

/// `Path::extension` for a `/`-separated path.
pub fn extension(path: &str) -> (r: Option<String>)
    ensures
        opt_view(r) == path_extension(path@),
{
    match file_name(path) {
        Some(n) => {
            let v = chars_of(n.as_str());
            let (_, ext) = split_name(&v);
            match ext {
                Some(x) => Some(string_of(&x)),
                None => None,
            }
        },
        None => None,
    }
}

} // verus!
