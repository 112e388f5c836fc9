//! Character-level text helpers shared by the rest of the library.

use vstd::prelude::*;
use vstd::string::*;

verus! {

/// `String::push`: Verus takes the text afterwards to be the text before
/// with `c` added at the end.
#[verifier::external_body]
fn push_char(s: &mut String, c: char)
    ensures
        final(s)@ == old(s)@.push(c),
{
    s.push(c);
}

/// The characters of `s`, in order.
pub fn chars_of(s: &str) -> (v: Vec<char>)
    ensures
        v@ == s@,
{
    let n = s.unicode_len();
    let mut v: Vec<char> = Vec::new();
    let mut i: usize = 0;
    while i < n
        invariant
            n == s@.len(),
            i <= n,
            v@ == s@.take(i as int),
        decreases n - i,
    {
        let c = s.get_char(i);
        v.push(c);
        i = i + 1;
        assert(v@ =~= s@.take(i as int));
    }
    assert(v@ =~= s@);
    v
}

/// A `String` holding exactly the characters of `v`.
pub fn string_of(v: &Vec<char>) -> (s: String)
    ensures
        s@ == v@,
{
    let mut s = String::new();
    let mut i: usize = 0;
    while i < v.len()
        invariant
            i <= v.len(),
            s@ == v@.take(i as int),
        decreases v.len() - i,
    {
        push_char(&mut s, v[i]);
        i = i + 1;
        assert(s@ =~= v@.take(i as int));
    }
    assert(s@ =~= v@);
    s
}


/// `pat` occurs in `s` starting at position `i`.
pub open spec fn occurs_at(s: Seq<char>, pat: Seq<char>, i: int) -> bool {
    0 <= i && i + pat.len() <= s.len() && s.subrange(i, i + pat.len()) == pat
}

/// `pat` occurs somewhere in `s` (the empty pattern occurs in every text).
pub open spec fn occurs_in(s: Seq<char>, pat: Seq<char>) -> bool {
    exists|i: int| occurs_at(s, pat, i)
}

/// Whether `pat` occurs in `v` at position `i`.
fn matches_at(v: &Vec<char>, pat: &Vec<char>, i: usize) -> (b: bool)
    ensures
        b == occurs_at(v@, pat@, i as int),
{
    if i > v.len() || pat.len() > v.len() - i {
        return false;
    }
    let mut k: usize = 0;
    while k < pat.len()
        invariant
            i + pat.len() <= v.len(),
            k <= pat.len(),
            forall|j: int| 0 <= j < k ==> v@[i + j] == pat@[j],
        decreases pat.len() - k,
    {
        if v[i + k] != pat[k] {
            assert(v@.subrange(i as int, i + pat.len())[k as int] != pat@[k as int]);
            return false;
        }
        k = k + 1;
    }
    assert(v@.subrange(i as int, i + pat.len()) =~= pat@);
    true
}

/// Whether `needle` occurs in `haystack` (`str::contains` with a string pattern).
pub fn contains(haystack: &str, needle: &str) -> (b: bool)
    ensures
        b == occurs_in(haystack@, needle@),
{
    let h = chars_of(haystack);
    let n = chars_of(needle);
    if n.len() > h.len() {
        assert(!occurs_in(haystack@, needle@));
        return false;
    }
    let last = h.len() - n.len();
    let mut i: usize = 0;
    loop
        invariant
            h@ == haystack@,
            n@ == needle@,
            last == h.len() - n.len(),
            i <= last,
            forall|j: int| 0 <= j < i ==> !occurs_at(h@, n@, j),
        ensures
            forall|j: int| 0 <= j <= last ==> !occurs_at(h@, n@, j),
        decreases last - i,
    {
        if matches_at(&h, &n, i) {
            return true;
        }
        if i == last {
            break;
        }
        i = i + 1;
    }
    assert forall|j: int| !occurs_at(h@, n@, j) by {
        if 0 <= j <= last {
        }
    }
    false
}

/// Text equality, character by character.
pub fn same_text(a: &str, b: &str) -> (r: bool)
    ensures
        r == (a@ == b@),
{
    let x = chars_of(a);
    let y = chars_of(b);
    if x.len() != y.len() {
        return false;
    }
    let r = matches_at(&x, &y, 0);
    assert(x@.subrange(0, y@.len() as int) =~= x@);
    r
}

/// `str::replace`: every non-overlapping occurrence of a non-empty `from`,
/// taken from left to right, is replaced by `to`.
pub open spec fn replace_nonempty(s: Seq<char>, from: Seq<char>, to: Seq<char>) -> Seq<char>
    decreases s.len(),
{
    if s.len() == 0 {
        s
    } else if from.len() > 0 && occurs_at(s, from, 0) {
        to + replace_nonempty(s.skip(from.len() as int), from, to)
    } else {
        seq![s[0]] + replace_nonempty(s.drop_first(), from, to)
    }
}

/// `str::replace` with the empty pattern: `to` is put before every character
/// and once more at the end.
pub open spec fn replace_empty(s: Seq<char>, to: Seq<char>) -> Seq<char>
    decreases s.len(),
{
    if s.len() == 0 {
        to
    } else {
        to + seq![s[0]] + replace_empty(s.drop_first(), to)
    }
}

/// What `s.replace(from, to)` returns.
pub open spec fn replaced(s: Seq<char>, from: Seq<char>, to: Seq<char>) -> Seq<char> {
    if from.len() == 0 {
        replace_empty(s, to)
    } else {
        replace_nonempty(s, from, to)
    }
}

fn append_all(out: &mut Vec<char>, w: &Vec<char>)
    ensures
        final(out)@ == old(out)@ + w@,
{
    let mut k: usize = 0;
    while k < w.len()
        invariant
            k <= w.len(),
            out@ == old(out)@ + w@.take(k as int),
        decreases w.len() - k,
    {
        out.push(w[k]);
        k = k + 1;
        assert(out@ =~= old(out)@ + w@.take(k as int));
    }
    assert(w@.take(w.len() as int) =~= w@);
}

/// `str::replace`.
pub fn replace(s: &str, from: &str, to: &str) -> (r: String)
    ensures
        r@ == replaced(s@, from@, to@),
{
    let v = chars_of(s);
    let f = chars_of(from);
    let t = chars_of(to);
    let mut out: Vec<char> = Vec::new();
    let mut i: usize = 0;
    assert(v@.skip(0) =~= v@);
    assert(out@ + replaced(v@, f@, t@) =~= replaced(v@, f@, t@));
    if f.len() == 0 {
        while i < v.len()
            invariant
                v@ == s@,
                t@ == to@,
                i <= v.len(),
                out@ + replace_empty(v@.skip(i as int), t@) == replace_empty(v@, t@),
            decreases v.len() - i,
        {
            assert(v@.skip(i as int).drop_first() =~= v@.skip(i + 1));
            assert(out@ + replace_empty(v@.skip(i as int), t@) =~= out@ + t@ + seq![v@[i as int]]
                + replace_empty(v@.skip(i + 1), t@));
            append_all(&mut out, &t);
            out.push(v[i]);
            i = i + 1;
        }
        append_all(&mut out, &t);
        assert(v@.skip(i as int) =~= Seq::<char>::empty());
        assert(out@ =~= replace_empty(v@, t@));
    } else {
        while i < v.len()
            invariant
                v@ == s@,
                t@ == to@,
                f@ == from@,
                f.len() > 0,
                i <= v.len(),
                out@ + replace_nonempty(v@.skip(i as int), f@, t@) == replace_nonempty(v@, f@, t@),
            decreases v.len() - i,
        {
            let ghost rest = v@.skip(i as int);
            if matches_at(&v, &f, i) {
                assert(rest.subrange(0, f@.len() as int) =~= v@.subrange(i as int, i + f@.len()));
                assert(rest.skip(f@.len() as int) =~= v@.skip(i + f@.len()));
                assert(out@ + replace_nonempty(rest, f@, t@) =~= out@ + t@ + replace_nonempty(
                    v@.skip(i + f@.len()), f@, t@));
                append_all(&mut out, &t);
                i = i + f.len();
            } else {
                assert(!occurs_at(rest, f@, 0)) by {
                    if occurs_at(rest, f@, 0) {
                        assert(rest.subrange(0, f@.len() as int) =~= v@.subrange(
                            i as int, i + f@.len()));
                    }
                }
                assert(rest.drop_first() =~= v@.skip(i + 1));
                assert(out@ + replace_nonempty(rest, f@, t@) =~= out@.push(v@[i as int])
                    + replace_nonempty(v@.skip(i + 1), f@, t@));
                out.push(v[i]);
                i = i + 1;
            }
        }
        assert(v@.skip(i as int) =~= Seq::<char>::empty());
        assert(out@ =~= replace_nonempty(v@, f@, t@));
    }
    string_of(&out)
}


/// The two sets of characters that are trimmed off the ends of a text.
#[derive(Debug, Clone, Copy, PartialEq, Eq)]
pub enum CharClass {
    /// Characters with the Unicode `White_Space` property (`char::is_whitespace`).
    Whitespace,
    /// Round brackets, `(` and `)`.
    Parens,
}

/// Unicode `White_Space`, the set that `char::is_whitespace` and `str::trim` use.
pub open spec fn is_whitespace(c: char) -> bool {
    ||| '\t' <= c <= '\r'
    ||| c == ' '
    ||| c == '\u{85}'
    ||| c == '\u{A0}'
    ||| c == '\u{1680}'
    ||| '\u{2000}' <= c <= '\u{200A}'
    ||| c == '\u{2028}'
    ||| c == '\u{2029}'
    ||| c == '\u{202F}'
    ||| c == '\u{205F}'
    ||| c == '\u{3000}'
}

pub open spec fn in_class(k: CharClass, c: char) -> bool {
    match k {
        CharClass::Whitespace => is_whitespace(c),
        CharClass::Parens => c == '(' || c == ')',
    }
}

fn class_has(k: CharClass, c: char) -> (b: bool)
    ensures
        b == in_class(k, c),
{
    match k {
        CharClass::Whitespace => {
            ('\t' <= c && c <= '\r') || c == ' ' || c == '\u{85}' || c == '\u{A0}' || c
                == '\u{1680}' || ('\u{2000}' <= c && c <= '\u{200A}') || c == '\u{2028}' || c
                == '\u{2029}' || c == '\u{202F}' || c == '\u{205F}' || c == '\u{3000}'
        },
        CharClass::Parens => c == '(' || c == ')',
    }
}

/// Drops the leading characters of class `k`.
pub open spec fn trim_front(s: Seq<char>, k: CharClass) -> Seq<char>
    decreases s.len(),
{
    if s.len() > 0 && in_class(k, s[0]) {
        trim_front(s.drop_first(), k)
    } else {
        s
    }
}

/// Drops the trailing characters of class `k`.
pub open spec fn trim_back(s: Seq<char>, k: CharClass) -> Seq<char>
    decreases s.len(),
{
    if s.len() > 0 && in_class(k, s.last()) {
        trim_back(s.drop_last(), k)
    } else {
        s
    }
}

/// `str::trim_matches` for the class `k`; with `Whitespace`, `str::trim`.
pub open spec fn trimmed(s: Seq<char>, k: CharClass) -> Seq<char> {
    trim_back(trim_front(s, k), k)
}

/// A character outside the class survives trimming.
pub proof fn lemma_trim_keeps(s: Seq<char>, k: CharClass, c: char)
    requires
        s.contains(c),
        !in_class(k, c),
    ensures
        trimmed(s, k).contains(c),
{
    lemma_trim_front_keeps(s, k, c);
    lemma_trim_back_keeps(trim_front(s, k), k, c);
}

proof fn lemma_trim_front_keeps(s: Seq<char>, k: CharClass, c: char)
    requires
        s.contains(c),
        !in_class(k, c),
    ensures
        trim_front(s, k).contains(c),
    decreases s.len(),
{
    if s.len() > 0 && in_class(k, s[0]) {
        let j = choose|j: int| 0 <= j < s.len() && s[j] == c;
        assert(j != 0);
        assert(s.drop_first()[j - 1] == c);
        lemma_trim_front_keeps(s.drop_first(), k, c);
    }
}

proof fn lemma_trim_back_keeps(s: Seq<char>, k: CharClass, c: char)
    requires
        s.contains(c),
        !in_class(k, c),
    ensures
        trim_back(s, k).contains(c),
    decreases s.len(),
{
    if s.len() > 0 && in_class(k, s.last()) {
        let j = choose|j: int| 0 <= j < s.len() && s[j] == c;
        assert(j != s.len() - 1);
        assert(s.drop_last()[j] == c);
        lemma_trim_back_keeps(s.drop_last(), k, c);
    }
}

/// The characters `v[a..b]`.
pub fn slice_chars(v: &Vec<char>, a: usize, b: usize) -> (r: Vec<char>)
    requires
        a <= b <= v.len(),
    ensures
        r@ == v@.subrange(a as int, b as int),
{
    let mut r: Vec<char> = Vec::new();
    let mut i: usize = a;
    while i < b
        invariant
            a <= i <= b <= v.len(),
            r@ == v@.subrange(a as int, i as int),
        decreases b - i,
    {
        r.push(v[i]);
        i = i + 1;
        assert(r@ =~= v@.subrange(a as int, i as int));
    }
    r
}

/// Trims the characters of class `k` off both ends of `v`.
pub fn trim_chars(v: &Vec<char>, k: CharClass) -> (r: Vec<char>)
    ensures
        r@ == trimmed(v@, k),
{
    let n = v.len();
    let mut a: usize = 0;
    assert(v@.skip(0) =~= v@);
    while a < n && class_has(k, v[a])
        invariant
            n == v.len(),
            a <= n,
            trim_front(v@, k) == trim_front(v@.skip(a as int), k),
        decreases n - a,
    {
        assert(v@.skip(a as int).drop_first() =~= v@.skip(a + 1));
        a = a + 1;
    }
    let ghost front = v@.skip(a as int);
    assert(trim_front(v@, k) == front);
    let mut b: usize = n;
    assert(front =~= v@.subrange(a as int, n as int));
    while b > a && class_has(k, v[b - 1])
        invariant
            n == v.len(),
            a <= b <= n,
            front == v@.subrange(a as int, n as int),
            trim_back(front, k) == trim_back(v@.subrange(a as int, b as int), k),
        decreases b - a,
    {
        assert(v@.subrange(a as int, b as int).drop_last() =~= v@.subrange(a as int, b - 1));
        b = b - 1;
    }
    slice_chars(v, a, b)
}


/// Position of the first `c` in `s`, or the length of `s` when there is none.
pub open spec fn first_index(s: Seq<char>, c: char) -> int
    decreases s.len(),
{
    if s.len() == 0 {
        0
    } else if s[0] == c {
        0
    } else {
        1 + first_index(s.drop_first(), c)
    }
}

pub proof fn lemma_first_index(s: Seq<char>, c: char)
    ensures
        0 <= first_index(s, c) <= s.len(),
        first_index(s, c) < s.len() ==> s[first_index(s, c)] == c,
        forall|j: int| 0 <= j < first_index(s, c) ==> s[j] != c,
        s.contains(c) ==> first_index(s, c) < s.len(),
    decreases s.len(),
{
    if s.len() > 0 && s[0] != c {
        lemma_first_index(s.drop_first(), c);
        assert forall|j: int| 0 <= j < first_index(s, c) implies s[j] != c by {
            if j > 0 {
                assert(s[j] == s.drop_first()[j - 1]);
            }
        }
        if s.contains(c) {
            let j = choose|j: int| 0 <= j < s.len() && s[j] == c;
            assert(s.drop_first()[j - 1] == c);
        }
    }
}

proof fn lemma_first_index_is(s: Seq<char>, c: char, i: int)
    requires
        0 <= i <= s.len(),
        i < s.len() ==> s[i] == c,
        forall|j: int| 0 <= j < i ==> s[j] != c,
    ensures
        first_index(s, c) == i,
    decreases s.len(),
{
    if s.len() > 0 && i > 0 {
        assert(s[0] != c);
        assert forall|j: int| 0 <= j < i - 1 implies s.drop_first()[j] != c by {
            assert(s.drop_first()[j] == s[j + 1]);
        }
        lemma_first_index_is(s.drop_first(), c, i - 1);
    }
}

/// Position of the first `c` in `v`, or `v.len()` when there is none.
pub fn find_char(v: &Vec<char>, c: char) -> (r: usize)
    ensures
        r == first_index(v@, c),
{
    let mut i: usize = 0;
    while i < v.len() && v[i] != c
        invariant
            i <= v.len(),
            forall|j: int| 0 <= j < i ==> v@[j] != c,
        decreases v.len() - i,
    {
        i = i + 1;
    }
    proof {
        lemma_first_index_is(v@, c, i as int);
    }
    i
}


/// The characters of an optional text.
pub open spec fn opt_view(o: Option<String>) -> Option<Seq<char>> {
    match o {
        Some(s) => Some(s@),
        None => None,
    }
}

} // verus!
