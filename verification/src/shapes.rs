//! Drawable things, dispatched statically or through a reference.

use vstd::prelude::*;

verus! {

use vstd::string::StringExecFns;

/// Something that can draw itself as a line of text. Implementors
/// choose a detail level type alongside the drawing itself.
pub trait IsDrawable {
    type Level;

    fn draw(&self) -> String;
}

/// Draws the shape with a sharing marker in front: the result is the
/// marker text followed by whatever the shape drew.
pub fn draw_static<T: IsDrawable>(s: T) -> (r: String)
    ensures
        r@.len() >= "shared,"@.len(),
        r@.subrange(0, "shared,"@.len() as int) == "shared,"@,
{
    let d = s.draw();
    let out = String::from_str("shared,").concat(d.as_str());
    proof {
        assert(out@.subrange(0, "shared,"@.len() as int) =~= "shared,"@);
    }
    out
}

/// Draws the shape behind a reference with a sharing marker in front:
/// the result is the marker text followed by whatever the shape drew.
pub fn draw_dynamic<T: IsDrawable>(s: &T) -> (r: String)
    ensures
        r@.len() >= "shared,"@.len(),
        r@.subrange(0, "shared,"@.len() as int) == "shared,"@,
{
    let d = s.draw();
    let out = String::from_str("shared,").concat(d.as_str());
    proof {
        assert(out@.subrange(0, "shared,"@.len() as int) =~= "shared,"@);
    }
    out
}

} // verus!
