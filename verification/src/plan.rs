//! The edits made to each image, in the order they are applied, and the
//! format the result is stored in.

use vstd::prelude::*;
use crate::args::{Args, Operation, Rotate, Size2D, nothing_to_do};

verus! {

/// One step of the work done on an image.
#[derive(Debug, Clone, Copy, PartialEq, Eq, Structural)]
pub enum Edit {
    /// Upside down (`flipv`).
    Flip,
    /// Left to right (`fliph`).
    Mirror,
    Invert,
    Grayscale,
    /// Gaussian blur; the sigma as the bit pattern of an `f32`.
    Blur(u32),
    Brighten(i32),
    HueRotate(i32),
    Resize(Size2D),
    Thumbnail(Size2D),
    Rotate(Rotate),
}

pub open spec fn operation_edit(op: Operation) -> Edit {
    match op {
        Operation::Flip => Edit::Flip,
        Operation::Mirror => Edit::Mirror,
        Operation::Invert => Edit::Invert,
        Operation::Grayscale => Edit::Grayscale,
    }
}

pub open spec fn optional_edit<T>(o: Option<T>, f: spec_fn(T) -> Edit) -> Seq<Edit> {
    match o {
        Some(x) => seq![f(x)],
        None => Seq::empty(),
    }
}

/// The edits for a run: the operations in the order given, then blur,
/// brighten, hue rotation, resize, thumbnail and rotation, each where set.
pub open spec fn edits_of(a: Args) -> Seq<Edit> {
    a.additional@.map_values(|op: Operation| operation_edit(op))
        + optional_edit(a.blur_bits, |b: u32| Edit::Blur(b))
        + optional_edit(a.brighten, |b: i32| Edit::Brighten(b))
        + optional_edit(a.hue, |h: i32| Edit::HueRotate(h))
        + optional_edit(a.resize, |s: Size2D| Edit::Resize(s))
        + optional_edit(a.thumbnail, |s: Size2D| Edit::Thumbnail(s))
        + optional_edit(a.rotate, |r: Rotate| Edit::Rotate(r))
}

/// How an edited image is stored.
#[derive(Debug, Clone, Copy, PartialEq, Eq, Structural)]
pub enum OutputFormat {
    Png,
    Jpeg,
}

pub open spec fn format_extension(f: OutputFormat) -> Seq<char> {
    match f {
        OutputFormat::Png => seq!['p', 'n', 'g'],
        OutputFormat::Jpeg => seq!['j', 'p', 'g'],
    }
}

impl OutputFormat {
    /// The file extension, without the dot.
    pub fn extension(&self) -> (e: String)
        ensures
            e@ == format_extension(*self),
    {
        match self {
            OutputFormat::Png => {
                proof {
                    reveal_strlit("png");
                }
                let e = "png".to_owned();
                assert(e@ =~= format_extension(*self));
                e
            },
            OutputFormat::Jpeg => {
                proof {
                    reveal_strlit("jpg");
                }
                let e = "jpg".to_owned();
                assert(e@ =~= format_extension(*self));
                e
            },
        }
    }
}

fn push_edit(v: &mut Vec<Edit>, e: Option<Edit>)
    ensures
        final(v)@ == (match e {
            Some(x) => old(v)@.push(x),
            None => old(v)@,
        }),
{
    if let Some(x) = e {
        v.push(x);
    }
}

impl Args {
    /// The edits made to every image that is not ignored.
    pub fn edit_plan(&self) -> (plan: Vec<Edit>)
        ensures
            plan@ == edits_of(*self),
    {
        let mut plan: Vec<Edit> = Vec::new();
        let mut i: usize = 0;
        while i < self.additional.len()
            invariant
                i <= self.additional.len(),
                plan@ == self.additional@.take(i as int).map_values(|op: Operation| operation_edit(op)),
            decreases self.additional.len() - i,
        {
            let e = match self.additional[i] {
                Operation::Flip => Edit::Flip,
                Operation::Mirror => Edit::Mirror,
                Operation::Invert => Edit::Invert,
                Operation::Grayscale => Edit::Grayscale,
            };
            plan.push(e);
            i = i + 1;
            assert(plan@ =~= self.additional@.take(i as int).map_values(|op: Operation| operation_edit(op)));
        }
        assert(self.additional@.take(i as int) =~= self.additional@);
        let ghost ops = plan@;
        push_edit(&mut plan, match self.blur_bits { Some(b) => Some(Edit::Blur(b)), None => None });
        push_edit(&mut plan, match self.brighten { Some(b) => Some(Edit::Brighten(b)), None => None });
        push_edit(&mut plan, match self.hue { Some(h) => Some(Edit::HueRotate(h)), None => None });
        push_edit(&mut plan, match self.resize { Some(s) => Some(Edit::Resize(s)), None => None });
        push_edit(&mut plan, match self.thumbnail { Some(s) => Some(Edit::Thumbnail(s)), None => None });
        push_edit(&mut plan, match self.rotate { Some(r) => Some(Edit::Rotate(r)), None => None });
        assert(plan@ =~= edits_of(*self));
        plan
    }

    /// PNG when asked for, JPEG otherwise.
    pub fn output_format(&self) -> (f: OutputFormat)
        ensures
            f == (if self.png { OutputFormat::Png } else { OutputFormat::Jpeg }),
    {
        if self.png { OutputFormat::Png } else { OutputFormat::Jpeg }
    }
}

/// A run with nothing to do and no hue rotation makes no edit.
pub proof fn law_nothing_to_do_no_edits(a: Args)
    requires
        nothing_to_do(a),
        a.hue is None,
    ensures
        edits_of(a).len() == 0,
{
}


/// Each operation becomes the edit of the same name, so that different
/// operations give different edits.
pub proof fn law_operation_edit_keeps_names(x: Operation, y: Operation)
    ensures
        operation_edit(Operation::Flip) == Edit::Flip,
        operation_edit(Operation::Mirror) == Edit::Mirror,
        operation_edit(Operation::Invert) == Edit::Invert,
        operation_edit(Operation::Grayscale) == Edit::Grayscale,
        operation_edit(x) == operation_edit(y) ==> x == y,
{
}

/// The plan starts with one edit per operation, in the order given, each
/// named like its operation; the rest of the plan holds no such edit.
pub proof fn law_plan_follows_operations(a: Args, i: int)
    requires
        0 <= i < a.additional@.len(),
    ensures
        edits_of(a).len() >= a.additional@.len(),
        a.additional@[i] == Operation::Flip ==> edits_of(a)[i] == Edit::Flip,
        a.additional@[i] == Operation::Mirror ==> edits_of(a)[i] == Edit::Mirror,
        a.additional@[i] == Operation::Invert ==> edits_of(a)[i] == Edit::Invert,
        a.additional@[i] == Operation::Grayscale ==> edits_of(a)[i] == Edit::Grayscale,
{
    let ops = a.additional@.map_values(|op: Operation| operation_edit(op));
    assert(ops[i] == operation_edit(a.additional@[i]));
    let rest = optional_edit(a.blur_bits, |b: u32| Edit::Blur(b))
        + optional_edit(a.brighten, |b: i32| Edit::Brighten(b))
        + optional_edit(a.hue, |h: i32| Edit::HueRotate(h))
        + optional_edit(a.resize, |s: Size2D| Edit::Resize(s))
        + optional_edit(a.thumbnail, |s: Size2D| Edit::Thumbnail(s))
        + optional_edit(a.rotate, |r: Rotate| Edit::Rotate(r));
    assert(edits_of(a) =~= ops + rest);
    assert((ops + rest)[i] == ops[i]);
}

} // verus!
