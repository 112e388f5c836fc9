//! The values given on the command line: image operations, rotations and
//! sizes, how each is read from text, and the whole set of settings.

use vstd::prelude::*;
use vstd::string::*;
use crate::number::{ParseIntError, parse_u32, parse_u32_chars};
use crate::text::{
    CharClass, chars_of, find_char, first_index, lemma_first_index, lemma_trim_keeps, same_text,
    slice_chars, trim_chars, trimmed,
};

verus! {

/// A pixel-level operation that can be asked for by name.
#[derive(Debug, Clone, Copy, PartialEq, Eq, Structural)]
pub enum Operation {
    Flip,
    Mirror,
    Invert,
    Grayscale,
}

/// A rotation by a multiple of a right angle, clockwise.
#[derive(Debug, Clone, Copy, PartialEq, Eq, Structural)]
pub enum Rotate {
    Rotate90,
    Rotate180,
    Rotate270,
}

/// A width and a height in pixels.
#[derive(Debug, Clone, Copy, PartialEq, Eq, Structural)]
pub struct Size2D {
    pub width: u32,
    pub height: u32,
}

/// A command-line value that names no rotation or no operation.
#[derive(Debug, Clone, Copy, PartialEq, Eq, Structural)]
pub enum ArgError {
    /// Not one of `90`, `180`, `270`.
    UnsupportedRotation,
    /// Not one of `flip`, `mirror`, `invert`, `grayscale`.
    UnknownOperation,
}

/// The message shown for each error.
pub open spec fn arg_error_message(e: ArgError) -> Seq<char> {
    match e {
        ArgError::UnsupportedRotation => seq![
            'S', 'u', 'p', 'p', 'o', 'r', 't', 'e', 'd', ' ', 'v', 'a', 'l', 'u', 'e', 's', ':',
            ' ', '9', '0', ' ', '1', '8', '0', ' ', '2', '7', '0',
        ],
        ArgError::UnknownOperation => seq![
            'U', 'n', 'k', 'n', 'o', 'w', 'n', ' ', 'o', 'p', 'e', 'r', 'a', 't', 'i', 'o', 'n',
        ],
    }
}

impl ArgError {
    /// The text that describes the error.
    pub fn message(&self) -> (m: String)
        ensures
            m@ == arg_error_message(*self),
    {
        match self {
            ArgError::UnsupportedRotation => {
                let lit = "Supported values: 90 180 270";
                proof {
                    reveal_strlit("Supported values: 90 180 270");
                }
                let m = lit.to_owned();
                assert(m@ =~= arg_error_message(*self));
                m
            },
            ArgError::UnknownOperation => {
                let lit = "Unknown operation";
                proof {
                    reveal_strlit("Unknown operation");
                }
                let m = lit.to_owned();
                assert(m@ =~= arg_error_message(*self));
                m
            },
        }
    }
}

/// The rotation that a text names, if any.
pub open spec fn rotate_named(t: Seq<char>) -> Option<Rotate> {
    if t == seq!['9', '0'] {
        Some(Rotate::Rotate90)
    } else if t == seq!['1', '8', '0'] {
        Some(Rotate::Rotate180)
    } else if t == seq!['2', '7', '0'] {
        Some(Rotate::Rotate270)
    } else {
        None
    }
}

/// The operation that a text names, if any.
pub open spec fn operation_named(t: Seq<char>) -> Option<Operation> {
    if t == seq!['f', 'l', 'i', 'p'] {
        Some(Operation::Flip)
    } else if t == seq!['m', 'i', 'r', 'r', 'o', 'r'] {
        Some(Operation::Mirror)
    } else if t == seq!['i', 'n', 'v', 'e', 'r', 't'] {
        Some(Operation::Invert)
    } else if t == seq!['g', 'r', 'a', 'y', 's', 'c', 'a', 'l', 'e'] {
        Some(Operation::Grayscale)
    } else {
        None
    }
}

/// The two fields of a size text: the text without its enclosing brackets,
/// cut at its first and second commas.
pub open spec fn size_fields(s: Seq<char>) -> (Seq<char>, Seq<char>) {
    let t = trimmed(s, CharClass::Parens);
    let i = first_index(t, ',');
    let rest = t.skip(i + 1);
    (t.take(i), rest.take(first_index(rest, ',')))
}

/// The size that a text such as `(64,64)` or `3, 7` gives: each field,
/// trimmed of white space, read as a `u32`; the width's error comes first.
pub open spec fn size_parsed(s: Seq<char>) -> Result<Size2D, ParseIntError> {
    let (a, b) = size_fields(s);
    match parse_u32(trimmed(a, CharClass::Whitespace)) {
        Err(e) => Err(e),
        Ok(w) => match parse_u32(trimmed(b, CharClass::Whitespace)) {
            Err(e) => Err(e),
            Ok(h) => Ok(Size2D { width: w, height: h }),
        },
    }
}

impl Size2D {
    /// Reads a size written as `width,height`, optionally in round brackets.
    /// A text without a comma has no height field and is not accepted.
    pub fn from_str(s: &str) -> (r: Result<Size2D, ParseIntError>)
        requires
            s@.contains(','),
        ensures
            r == size_parsed(s@),
    {
        let v = chars_of(s);
        let t = trim_chars(&v, CharClass::Parens);
        proof {
            lemma_trim_keeps(s@, CharClass::Parens, ',');
            lemma_first_index(t@, ',');
        }
        let i = find_char(&t, ',');
        let a = slice_chars(&t, 0, i);
        let rest = slice_chars(&t, i + 1, t.len());
        assert(rest@ =~= t@.skip(i + 1));
        let j = find_char(&rest, ',');
        proof {
            lemma_first_index(rest@, ',');
        }
        let b = slice_chars(&rest, 0, j);
        assert(a@ =~= t@.take(i as int));
        assert(b@ =~= rest@.take(j as int));
        let w = parse_u32_chars(&trim_chars(&a, CharClass::Whitespace))?;
        let h = parse_u32_chars(&trim_chars(&b, CharClass::Whitespace))?;
        Ok(Size2D { width: w, height: h })
    }
}

impl Rotate {
    /// Reads `90`, `180` or `270`.
    pub fn from_str(s: &str) -> (r: Result<Rotate, ArgError>)
        ensures
            r == (match rotate_named(s@) {
                Some(x) => Ok(x),
                None => Err(ArgError::UnsupportedRotation),
            }),
    {
        proof {
            reveal_strlit("90");
            assert("90"@ =~= seq!['9', '0']);
            reveal_strlit("180");
            assert("180"@ =~= seq!['1', '8', '0']);
            reveal_strlit("270");
            assert("270"@ =~= seq!['2', '7', '0']);
        }
        if same_text(s, "90") {
            Ok(Rotate::Rotate90)
        } else if same_text(s, "180") {
            Ok(Rotate::Rotate180)
        } else if same_text(s, "270") {
            Ok(Rotate::Rotate270)
        } else {
            Err(ArgError::UnsupportedRotation)
        }
    }
}

impl Operation {
    /// Reads `flip`, `mirror`, `invert` or `grayscale`.
    pub fn from_str(s: &str) -> (r: Result<Operation, ArgError>)
        ensures
            r == (match operation_named(s@) {
                Some(x) => Ok(x),
                None => Err(ArgError::UnknownOperation),
            }),
    {
        proof {
            reveal_strlit("flip");
            assert("flip"@ =~= seq!['f', 'l', 'i', 'p']);
            reveal_strlit("mirror");
            assert("mirror"@ =~= seq!['m', 'i', 'r', 'r', 'o', 'r']);
            reveal_strlit("invert");
            assert("invert"@ =~= seq!['i', 'n', 'v', 'e', 'r', 't']);
            reveal_strlit("grayscale");
            assert("grayscale"@ =~= seq!['g', 'r', 'a', 'y', 's', 'c', 'a', 'l', 'e']);
        }
        if same_text(s, "flip") {
            Ok(Operation::Flip)
        } else if same_text(s, "mirror") {
            Ok(Operation::Mirror)
        } else if same_text(s, "invert") {
            Ok(Operation::Invert)
        } else if same_text(s, "grayscale") {
            Ok(Operation::Grayscale)
        } else {
            Err(ArgError::UnknownOperation)
        }
    }
}


/// Every setting of a run.
#[derive(Debug, Clone)]
pub struct Args {
    /// Source directory.
    pub directory: String,
    /// Output directory.
    pub output: Option<String>,
    /// Remove duplicates.
    pub clean: bool,
    /// Put videos in a directory of their own.
    pub separate_videos: bool,
    /// Operations asked for by name, in order.
    pub additional: Vec<Operation>,
    pub flip: bool,
    pub mirror: bool,
    pub invert: bool,
    pub grayscale: bool,
    /// Store images as PNG instead of JPEG.
    pub png: bool,
    /// Blur sigma, as the IEEE 754 bit pattern of the `f32` that was given.
    pub blur_bits: Option<u32>,
    pub brighten: Option<i32>,
    /// Hue rotation in degrees.
    pub hue: Option<i32>,
    pub rotate: Option<Rotate>,
    pub thumbnail: Option<Size2D>,
    pub resize: Option<Size2D>,
    /// Images whose file stem holds this text are not edited, only copied.
    pub ignore: Option<String>,
    /// Do not wait for the image tasks to finish.
    pub one: bool,
}

/// `s` with each run of equal neighbours cut down to one element (`Vec::dedup`).
pub open spec fn dedup_adjacent(s: Seq<Operation>) -> Seq<Operation>
    decreases s.len(),
{
    if s.len() <= 1 {
        s
    } else if s.last() == s[s.len() - 2] {
        dedup_adjacent(s.drop_last())
    } else {
        dedup_adjacent(s.drop_last()).push(s.last())
    }
}

/// `s`, with `op` added at the end when it is wanted and not there yet.
pub open spec fn add_missing(s: Seq<Operation>, wanted: bool, op: Operation) -> Seq<Operation> {
    if wanted && !s.contains(op) {
        s.push(op)
    } else {
        s
    }
}

/// The operations of a run: the named ones without repeated neighbours, then
/// each operation switched on by its own flag that is not named yet, in the
/// order flip, mirror, grayscale, invert.
pub open spec fn operations_to_apply(
    ops: Seq<Operation>,
    flip: bool,
    mirror: bool,
    grayscale: bool,
    invert: bool,
) -> Seq<Operation> {
    add_missing(
        add_missing(
            add_missing(add_missing(dedup_adjacent(ops), flip, Operation::Flip), mirror, Operation::Mirror),
            grayscale,
            Operation::Grayscale,
        ),
        invert,
        Operation::Invert,
    )
}

/// What `Args::normalize` leaves in `additional`.
pub open spec fn normalized_operations(a: Args) -> Seq<Operation> {
    operations_to_apply(a.additional@, a.flip, a.mirror, a.grayscale, a.invert)
}

/// No output directory and no edit asked for (the hue is not looked at).
pub open spec fn nothing_to_do(a: Args) -> bool {
    &&& a.output is None
    &&& a.additional@.len() == 0
    &&& a.blur_bits is None
    &&& a.brighten is None
    &&& a.resize is None
    &&& a.thumbnail is None
    &&& a.rotate is None
}

/// `args` and `b` agree on every field but `additional`.
pub open spec fn same_but_operations(a: Args, b: Args) -> bool {
    &&& a.directory@ == b.directory@
    &&& a.output == b.output
    &&& a.clean == b.clean
    &&& a.separate_videos == b.separate_videos
    &&& a.flip == b.flip
    &&& a.mirror == b.mirror
    &&& a.invert == b.invert
    &&& a.grayscale == b.grayscale
    &&& a.png == b.png
    &&& a.blur_bits == b.blur_bits
    &&& a.brighten == b.brighten
    &&& a.hue == b.hue
    &&& a.rotate == b.rotate
    &&& a.thumbnail == b.thumbnail
    &&& a.resize == b.resize
    &&& a.ignore == b.ignore
    &&& a.one == b.one
}

proof fn lemma_dedup_last(s: Seq<Operation>)
    requires
        s.len() > 0,
    ensures
        dedup_adjacent(s).len() > 0,
        dedup_adjacent(s).last() == s.last(),
    decreases s.len(),
{
    if s.len() > 1 {
        lemma_dedup_last(s.drop_last());
    }
}

fn vec_contains(v: &Vec<Operation>, op: Operation) -> (b: bool)
    ensures
        b == v@.contains(op),
{
    let mut i: usize = 0;
    while i < v.len()
        invariant
            i <= v.len(),
            forall|j: int| 0 <= j < i ==> v@[j] != op,
        decreases v.len() - i,
    {
        if v[i] == op {
            return true;
        }
        i = i + 1;
    }
    false
}

fn push_missing(v: &mut Vec<Operation>, wanted: bool, op: Operation)
    ensures
        final(v)@ == add_missing(old(v)@, wanted, op),
{
    if wanted && !vec_contains(v, op) {
        v.push(op);
    }
}

/// `Vec::dedup` on a list of operations.
pub fn dedup_operations(v: &Vec<Operation>) -> (r: Vec<Operation>)
    ensures
        r@ == dedup_adjacent(v@),
{
    let mut out: Vec<Operation> = Vec::new();
    let mut i: usize = 0;
    assert(v@.take(0) =~= Seq::<Operation>::empty());
    while i < v.len()
        invariant
            i <= v.len(),
            out@ == dedup_adjacent(v@.take(i as int)),
        decreases v.len() - i,
    {
        let x = v[i];
        let ghost t = v@.take(i as int + 1);
        assert(t.drop_last() =~= v@.take(i as int));
        assert(t.last() == x);
        if i == 0 {
            assert(t =~= seq![x]);
            out.push(x);
            assert(out@ =~= t);
        } else {
            proof {
                lemma_dedup_last(v@.take(i as int));
            }
            assert(t[t.len() - 2] == v@[i - 1]);
            if out[out.len() - 1] != x {
                out.push(x);
            }
        }
        i = i + 1;
    }
    assert(v@.take(v.len() as int) =~= v@);
    out
}

impl Args {
    /// Removes repeated neighbours from the named operations, then adds the
    /// operations switched on by their own flags (flip, mirror, grayscale,
    /// invert) that are not named yet.
    pub fn normalize(&mut self)
        ensures
            final(self).additional@ == normalized_operations(*old(self)),
            same_but_operations(*final(self), *old(self)),
    {
        let mut ops = dedup_operations(&self.additional);
        push_missing(&mut ops, self.flip, Operation::Flip);
        push_missing(&mut ops, self.mirror, Operation::Mirror);
        push_missing(&mut ops, self.grayscale, Operation::Grayscale);
        push_missing(&mut ops, self.invert, Operation::Invert);
        self.additional = ops;
    }

    /// Whether the run has neither an output directory nor an edit to make.
    pub fn nothing_todo(&self) -> (b: bool)
        ensures
            b == nothing_to_do(*self),
    {
        self.output.is_none() && self.additional.len() == 0 && self.blur_bits.is_none()
            && self.brighten.is_none() && self.resize.is_none() && self.thumbnail.is_none()
            && self.rotate.is_none()
    }
}


/// No two neighbours of `s` are equal.
pub open spec fn no_adjacent_repeats(s: Seq<Operation>) -> bool {
    forall|i: int, j: int| 0 <= i && j == i + 1 && j < s.len() ==> #[trigger] s[i] != #[trigger] s[j]
}

proof fn lemma_dedup_no_repeats(s: Seq<Operation>)
    ensures
        no_adjacent_repeats(dedup_adjacent(s)),
    decreases s.len(),
{
    if s.len() > 1 {
        lemma_dedup_no_repeats(s.drop_last());
        lemma_dedup_last(s.drop_last());
    }
}

proof fn lemma_dedup_fixed(s: Seq<Operation>)
    requires
        no_adjacent_repeats(s),
    ensures
        dedup_adjacent(s) == s,
    decreases s.len(),
{
    if s.len() > 1 {
        let p = s.drop_last();
        assert(no_adjacent_repeats(p)) by {
            assert forall|i: int, j: int| 0 <= i && j == i + 1 && j < p.len() implies #[trigger] p[i]
                != #[trigger] p[j] by {
                assert(s[i] != s[j]);
            }
        }
        lemma_dedup_fixed(p);
        assert(s[s.len() - 2] != s[s.len() - 1]);
        assert(p.push(s.last()) =~= s);
    }
}

proof fn lemma_dedup_contains(s: Seq<Operation>, x: Operation)
    ensures
        dedup_adjacent(s).contains(x) == s.contains(x),
    decreases s.len(),
{
    if s.len() > 1 {
        let p = s.drop_last();
        lemma_dedup_contains(p, x);
        if s.contains(x) && !p.contains(x) {
            let k = choose|k: int| 0 <= k < s.len() && s[k] == x;
            if k < s.len() - 1 {
                assert(p[k] == x);
            }
        }
        if p.contains(x) {
            let k = choose|k: int| 0 <= k < p.len() && p[k] == x;
            assert(s[k] == x);
        }
        if s.last() == s[s.len() - 2] {
            assert(p[p.len() - 1] == s.last());
        } else {
            let d = dedup_adjacent(p);
            if d.contains(x) {
                let k = choose|k: int| 0 <= k < d.len() && d[k] == x;
                assert(d.push(s.last())[k] == x);
            }
            assert(d.push(s.last())[d.len() as int] == s.last());
        }
    }
}

proof fn lemma_add_missing(s: Seq<Operation>, wanted: bool, op: Operation, x: Operation)
    requires
        no_adjacent_repeats(s),
    ensures
        no_adjacent_repeats(add_missing(s, wanted, op)),
        s.contains(x) ==> add_missing(s, wanted, op).contains(x),
        wanted ==> add_missing(s, wanted, op).contains(op),
        add_missing(s, wanted, op).contains(x) ==> s.contains(x) || (wanted && x == op),
{
    let r = add_missing(s, wanted, op);
    if wanted && !s.contains(op) {
        assert(r[s.len() as int] == op);
        if s.contains(x) {
            let k = choose|k: int| 0 <= k < s.len() && s[k] == x;
            assert(r[k] == x);
        }
        if r.contains(x) && x != op {
            let k = choose|k: int| 0 <= k < r.len() && r[k] == x;
            assert(s[k] == x);
        }
        assert forall|i: int, j: int| 0 <= i && j == i + 1 && j < r.len() implies #[trigger] r[i]
            != #[trigger] r[j] by {
            if j == s.len() {
                assert(s[i] != op);
            } else {
                assert(s[i] != s[j]);
            }
        }
    }
}

/// The operations of a run have no repeated neighbours; they hold every
/// named operation and every operation switched on by its flag, and
/// nothing else.
pub proof fn law_operations_complete(
    ops: Seq<Operation>,
    flip: bool,
    mirror: bool,
    grayscale: bool,
    invert: bool,
    x: Operation,
)
    ensures
        no_adjacent_repeats(operations_to_apply(ops, flip, mirror, grayscale, invert)),
        operations_to_apply(ops, flip, mirror, grayscale, invert).contains(x) <==> (ops.contains(x)
            || (flip && x == Operation::Flip) || (mirror && x == Operation::Mirror) || (grayscale
            && x == Operation::Grayscale) || (invert && x == Operation::Invert)),
{
    let d = dedup_adjacent(ops);
    lemma_dedup_no_repeats(ops);
    lemma_dedup_contains(ops, x);
    let a1 = add_missing(d, flip, Operation::Flip);
    lemma_add_missing(d, flip, Operation::Flip, x);
    let a2 = add_missing(a1, mirror, Operation::Mirror);
    lemma_add_missing(a1, mirror, Operation::Mirror, x);
    let a3 = add_missing(a2, grayscale, Operation::Grayscale);
    lemma_add_missing(a2, grayscale, Operation::Grayscale, x);
    lemma_add_missing(a3, invert, Operation::Invert, x);
}

/// Normalizing a second time changes nothing.
pub proof fn law_operations_idempotent(
    ops: Seq<Operation>,
    flip: bool,
    mirror: bool,
    grayscale: bool,
    invert: bool,
)
    ensures
        operations_to_apply(operations_to_apply(ops, flip, mirror, grayscale, invert), flip, mirror, grayscale, invert)
            == operations_to_apply(ops, flip, mirror, grayscale, invert),
{
    let n = operations_to_apply(ops, flip, mirror, grayscale, invert);
    law_operations_complete(ops, flip, mirror, grayscale, invert, Operation::Flip);
    law_operations_complete(ops, flip, mirror, grayscale, invert, Operation::Mirror);
    law_operations_complete(ops, flip, mirror, grayscale, invert, Operation::Grayscale);
    law_operations_complete(ops, flip, mirror, grayscale, invert, Operation::Invert);
    lemma_dedup_fixed(n);
}


/// A run has nothing to do exactly when it has no output directory, no
/// operation and no blur, brighten, resize, thumbnail or rotate value.
/// Cleaning, separating videos, PNG output, the ignore mask, `one` and the
/// hue are no part of the answer: a run that only cleans has nothing to do.
pub proof fn law_nothing_todo_exactly(a: Args)
    ensures
        nothing_to_do(a) <==> (a.output is None && a.additional@.len() == 0 && a.blur_bits is None
            && a.brighten is None && a.resize is None && a.thumbnail is None && a.rotate is None),
{
}

/// Two runs that differ only in settings that are no edit (cleaning,
/// separate videos, PNG, ignore mask, `one`, hue, directory, flags) agree on
/// whether there is nothing to do.
pub proof fn law_nothing_todo_ignores_other_settings(a: Args, b: Args)
    requires
        a.output == b.output,
        a.additional@ == b.additional@,
        a.blur_bits == b.blur_bits,
        a.brighten == b.brighten,
        a.resize == b.resize,
        a.thumbnail == b.thumbnail,
        a.rotate == b.rotate,
    ensures
        nothing_to_do(a) == nothing_to_do(b),
{
}

/// A run with no output directory and no edit, whatever else it asks for
/// (for example only cleaning), has nothing to do.
pub proof fn law_cleaning_only_is_nothing_to_do(a: Args)
    requires
        a.output is None,
        a.additional@.len() == 0,
        a.blur_bits is None,
        a.brighten is None,
        a.resize is None,
        a.thumbnail is None,
        a.rotate is None,
    ensures
        nothing_to_do(a),
{
}

} // verus!
