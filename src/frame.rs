//! The normalised output model: RGBA frames with display delays.
use vstd::prelude::*;

verus! {

/// What a frame is, mathematically.
pub struct FrameView {
    pub width: u32,
    pub height: u32,
    pub pixels: Seq<u8>,
    pub delay_ms: u64,
}

/// One decoded still image: a row-major RGBA buffer, 4 bytes per pixel, and
/// how long it is shown in milliseconds.
#[derive(Clone, Debug, PartialEq, Eq)]
pub struct Frame {
    pub width: u32,
    pub height: u32,
    pub pixels: Vec<u8>,
    pub delay_ms: u64,
}

/// The buffer length that a `width` x `height` RGBA image needs.
pub open spec fn rgba_len(width: u32, height: u32) -> int {
    width as int * height as int * 4
}

/// A pixel buffer holds exactly one RGBA quadruple per pixel.
pub open spec fn rgba_fits(width: u32, height: u32, pixels: Seq<u8>) -> bool {
    pixels.len() == rgba_len(width, height)
}

/// The frame a valid buffer becomes, or nothing when the length is wrong.
pub open spec fn frame_of(width: u32, height: u32, pixels: Seq<u8>, delay_ms: u64) -> Option<FrameView> {
    if rgba_fits(width, height, pixels) {
        Some(FrameView { width, height, pixels, delay_ms })
    } else {
        None
    }
}

impl FrameView {
    pub open spec fn wf(self) -> bool {
        rgba_fits(self.width, self.height, self.pixels)
    }
}

impl View for Frame {
    type V = FrameView;

    open spec fn view(&self) -> FrameView {
        FrameView { width: self.width, height: self.height, pixels: self.pixels@, delay_ms: self.delay_ms }
    }
}

/// The views of a list of frames, in order.
pub open spec fn frames_view(frames: Seq<Frame>) -> Seq<FrameView> {
    frames.map_values(|f: Frame| f@)
}

/// A frame sequence that a successful decode may hand out: at least one frame,
/// each of them well formed.
pub open spec fn valid_sequence(frames: Seq<FrameView>) -> bool {
    frames.len() >= 1 && forall|i: int| 0 <= i < frames.len() ==> (#[trigger] frames[i]).wf()
}

/// Whether `pixels` holds exactly `width * height * 4` bytes.
pub fn fits_rgba(width: u32, height: u32, pixels: &Vec<u8>) -> (r: bool)
    ensures
        r == rgba_fits(width, height, pixels@),
{
    let w: u128 = width as u128;
    let h: u128 = height as u128;
    assert(w * h <= 0xffff_ffff_ffff_ffff_ffff_ffff_ffff_ffffu128) by (nonlinear_arith)
        requires w <= 0xffff_ffff, h <= 0xffff_ffff;
    assert(w * h * 4 <= 0xffff_ffff_ffff_ffff_ffff_ffff_ffff_ffffu128) by (nonlinear_arith)
        requires w <= 0xffff_ffff, h <= 0xffff_ffff;
    let needed: u128 = w * h * 4;
    needed == pixels.len() as u128
}

/// Wraps a buffer as a frame when its length matches its dimensions.
pub fn frame_from_rgba(width: u32, height: u32, pixels: Vec<u8>, delay_ms: u64) -> (r: Option<Frame>)
    ensures
        r matches Some(f) ==> Some(f@) == frame_of(width, height, pixels@, delay_ms),
        r is None ==> frame_of(width, height, pixels@, delay_ms) is None,
{
    if fits_rgba(width, height, &pixels) {
        Some(Frame { width, height, pixels, delay_ms })
    } else {
        None
    }
}

} // verus!
