//! Scalable vector documents, rasterised at their own intrinsic size.
use vstd::prelude::*;
use crate::frame::{Frame, FrameView, frames_view};
use crate::raster::{Bitmap, BitmapView, frames_from_still, sequence_view, still_sequence};

verus! {

#[verifier::external_type_specification]
#[verifier::external_body]
pub struct ExSvgTree(usvg::Tree);

#[verifier::external_type_specification]
#[verifier::external_body]
pub struct ExSvgOptions(usvg::Options);

/// Relies on `usvg::Tree::from_data`: parses (possibly gzipped) SVG, resolving
/// text against the fonts held by `options`.
#[verifier::external_body]
fn parse_svg(bytes: &[u8], options: &usvg::Options) -> (r: Option<usvg::Tree>) {
    usvg::Tree::from_data(bytes, &options.to_ref()).ok()
}

/// Relies on `usvg::Tree::svg_node`: the document's intrinsic size, each side
/// converted to whole pixels.
#[verifier::external_body]
fn intrinsic_size(tree: &usvg::Tree) -> (r: (u32, u32)) {
    let size = tree.svg_node().size;
    (size.width() as u32, size.height() as u32)
}

/// The canvas sizes that tiny-skia accepts: no empty side, and a row of at
/// most `i32::MAX` bytes.
pub open spec fn canvas_ok(width: u32, height: u32) -> bool {
    width > 0 && height > 0 && width as int * 4 <= i32::MAX as int
}

/// Relies on `tiny_skia::PixmapMut::from_bytes`, which views `pixels` as a
/// canvas when `canvas_ok` holds and the buffer holds at least
/// `width * height * 4` bytes, and on `resvg::render`, which with
/// `FitTo::Original` always draws the tree at its original size.
#[verifier::external_body]
fn render_svg(tree: &usvg::Tree, pixels: &mut Vec<u8>, width: u32, height: u32) -> (r: bool)
    ensures
        final(pixels)@.len() == old(pixels)@.len(),
        r == (canvas_ok(width, height) && old(pixels)@.len() >= width as int * height as int * 4),
{
    match tiny_skia::PixmapMut::from_bytes(pixels.as_mut_slice(), width, height) {
        Some(canvas) => resvg::render(tree, usvg::FitTo::Original, tiny_skia::Transform::default(), canvas).is_some(),
        None => false,
    }
}

/// Rasterises a parsed document onto a `width` x `height` canvas: one frame of
/// exactly that size with no delay, whenever tiny-skia accepts the size and
/// the buffer fits in memory.
pub fn rasterize_svg(tree: &usvg::Tree, width: u32, height: u32) -> (r: Option<Vec<Frame>>)
    ensures
        r is Some <==> canvas_ok(width, height) && width as int * height as int * 4 <= usize::MAX,
        r matches Some(fs) ==> fs@.len() == 1 && fs@[0].width == width && fs@[0].height == height
            && fs@[0].delay_ms == 0 && fs@[0]@.wf(),
{
    if width == 0 || height == 0 || width > 0x1fff_ffff {
        return None;
    }
    let row: u64 = width as u64 * 4;
    assert(row * height as u64 <= 0xffff_ffff_ffff_ffffu64) by (nonlinear_arith)
        requires row <= 0x7fff_fffc, height <= 0xffff_ffff;
    let len: u64 = row * height as u64;
    assert(len as int == width as int * height as int * 4) by (nonlinear_arith)
        requires row as int == width as int * 4, len as int == row as int * height as int;
    if len > usize::MAX as u64 {
        return None;
    }
    let mut pixels: Vec<u8> = vec![0u8; len as usize];
    assert(pixels@.len() == len);
    let drawn = render_svg(tree, &mut pixels, width, height);
    assert(drawn);
    let ghost data = pixels@;
    let r = frames_from_still(Bitmap { width, height, pixels });
    proof {
        let single = BitmapView { width, height, pixels: data };
        assert(single.fits());
        let fs = r->0;
        assert(frames_view(fs@) == seq![single.with_delay(0)]);
        assert(frames_view(fs@).len() == fs@.len());
        assert(frames_view(fs@)[0] == fs@[0]@);
    }
    r
}

/// The vector adapter: parses the document and rasterises it at its intrinsic
/// size, never at a size chosen by the caller. A success is one frame of at
/// least one pixel each way.
pub fn decode_vector(bytes: &[u8], options: &usvg::Options) -> (r: Option<Vec<Frame>>)
    ensures
        r matches Some(fs) ==> fs@.len() == 1 && fs@[0].delay_ms == 0 && fs@[0]@.wf()
            && fs@[0].width >= 1 && fs@[0].height >= 1,
{
    let tree = match parse_svg(bytes, options) {
        Some(t) => t,
        None => return None,
    };
    let (width, height) = intrinsic_size(&tree);
    rasterize_svg(&tree, width, height)
}

} // verus!
