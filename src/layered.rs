//! Layered design documents (PSD), flattened into one picture.
use vstd::prelude::*;
use crate::frame::{Frame, FrameView};
use crate::raster::{Bitmap, BitmapView, bitmap_view, frames_from_still, sequence_view, still_sequence};

verus! {

/// Which layers take part in flattening: layer `i` does when the mask says so,
/// and every layer past the mask's end does. An empty mask keeps them all.
pub open spec fn layer_included(mask: Seq<bool>, i: int) -> bool {
    i >= mask.len() || mask[i]
}

/// Executable form of `layer_included`, the filter handed to the flattener.
pub fn is_layer_included(mask: &Vec<bool>, i: usize) -> (r: bool)
    ensures
        r == layer_included(mask@, i as int),
{
    i >= mask.len() || mask[i]
}

/// The layered adapter's outcome, given what the flattener produced: the
/// canvas as one frame with no delay.
pub open spec fn layered_sequence(flattened: Option<BitmapView>) -> Option<Seq<FrameView>> {
    match flattened {
        Some(bitmap) => still_sequence(bitmap),
        None => None,
    }
}

/// The layered-document adapter, from the flattened canvas (or its absence).
pub fn decode_layered(flattened: Option<Bitmap>) -> (r: Option<Vec<Frame>>)
    ensures
        sequence_view(r) == layered_sequence(bitmap_view(flattened)),
{
    match flattened {
        Some(bitmap) => frames_from_still(bitmap),
        None => None,
    }
}

/// A flattened canvas whose buffer fits its size always decodes, to one
/// well-formed frame with no delay whose size is the canvas.
pub proof fn lemma_layered_canvas(flattened: Option<BitmapView>)
    ensures
        flattened matches Some(b) && b.fits() ==> layered_sequence(flattened) is Some,
        layered_sequence(flattened) matches Some(s) ==> s.len() == 1 && s[0].delay_ms == 0 && s[0].wf()
            && s[0].width == flattened->0.width && s[0].height == flattened->0.height,
{
}

} // verus!
