//! Bitmap raster families: GIF and animated WebP frame lists, and every other
//! format that the `image` crate recognises as a single still picture.
use vstd::prelude::*;
use crate::frame::{Frame, FrameView, frame_from_rgba, frames_view, rgba_fits, valid_sequence};

verus! {

/// The raster family a buffer's leading bytes announce.
#[derive(PartialEq, Eq, Structural, Clone, Copy, Debug)]
pub enum Family {
    Gif,
    WebP,
    Still,
    Unknown,
}

/// A decoded RGBA buffer as a codec hands it over, not yet checked.
pub struct Bitmap {
    pub width: u32,
    pub height: u32,
    pub pixels: Vec<u8>,
}

pub struct BitmapView {
    pub width: u32,
    pub height: u32,
    pub pixels: Seq<u8>,
}

impl View for Bitmap {
    type V = BitmapView;

    open spec fn view(&self) -> BitmapView {
        BitmapView { width: self.width, height: self.height, pixels: self.pixels@ }
    }
}

impl BitmapView {
    pub open spec fn fits(self) -> bool {
        rgba_fits(self.width, self.height, self.pixels)
    }

    pub open spec fn with_delay(self, delay_ms: u64) -> FrameView {
        FrameView { width: self.width, height: self.height, pixels: self.pixels, delay_ms }
    }
}

/// A GIF frame: its bitmap and its delay as a ratio of milliseconds.
pub struct TimedFrame {
    pub bitmap: Bitmap,
    pub delay_numer: u32,
    pub delay_denom: u32,
}

pub struct TimedFrameView {
    pub bitmap: BitmapView,
    pub delay_numer: u32,
    pub delay_denom: u32,
}

impl View for TimedFrame {
    type V = TimedFrameView;

    open spec fn view(&self) -> TimedFrameView {
        TimedFrameView { bitmap: self.bitmap@, delay_numer: self.delay_numer, delay_denom: self.delay_denom }
    }
}

/// An animated WebP frame: its bitmap and its cumulative timestamp, the
/// absolute time in milliseconds at which the animation has shown it.
pub struct StampedFrame {
    pub bitmap: Bitmap,
    pub timestamp: i32,
}

pub struct StampedFrameView {
    pub bitmap: BitmapView,
    pub timestamp: i32,
}

impl View for StampedFrame {
    type V = StampedFrameView;

    open spec fn view(&self) -> StampedFrameView {
        StampedFrameView { bitmap: self.bitmap@, timestamp: self.timestamp }
    }
}

pub open spec fn timed_views(fs: Seq<TimedFrame>) -> Seq<TimedFrameView> {
    fs.map_values(|f: TimedFrame| f@)
}

pub open spec fn stamped_views(fs: Seq<StampedFrame>) -> Seq<StampedFrameView> {
    fs.map_values(|f: StampedFrame| f@)
}

pub open spec fn timed_view(v: Option<Vec<TimedFrame>>) -> Option<Seq<TimedFrameView>> {
    match v {
        Some(fs) => Some(timed_views(fs@)),
        None => None,
    }
}

pub open spec fn stamped_view(v: Option<Vec<StampedFrame>>) -> Option<Seq<StampedFrameView>> {
    match v {
        Some(fs) => Some(stamped_views(fs@)),
        None => None,
    }
}

pub open spec fn bitmap_view(v: Option<Bitmap>) -> Option<BitmapView> {
    match v {
        Some(b) => Some(b@),
        None => None,
    }
}

pub open spec fn sequence_view(v: Option<Vec<Frame>>) -> Option<Seq<FrameView>> {
    match v {
        Some(fs) => Some(frames_view(fs@)),
        None => None,
    }
}

/// `b` starts with `p`.
pub open spec fn has_prefix(b: Seq<u8>, p: Seq<u8>) -> bool {
    p.len() <= b.len() && b.subrange(0, p.len() as int) == p
}

/// The signatures of the single-picture formats that the `image` crate knows:
/// PNG, JPEG, TIFF (both byte orders), DDS, BMP, ICO, Radiance HDR, the seven
/// PNM kinds, farbfeld, AVIF (two box sizes), OpenEXR and QOI.
pub open spec fn still_signature(b: Seq<u8>) -> bool {
    ||| has_prefix(b, seq![0x89u8, 0x50, 0x4e, 0x47, 0x0d, 0x0a, 0x1a, 0x0a])
    ||| has_prefix(b, seq![0xffu8, 0xd8, 0xff])
    ||| has_prefix(b, seq![0x4du8, 0x4d, 0x00, 0x2a])
    ||| has_prefix(b, seq![0x49u8, 0x49, 0x2a, 0x00])
    ||| has_prefix(b, seq![0x44u8, 0x44, 0x53, 0x20])
    ||| has_prefix(b, seq![0x42u8, 0x4d])
    ||| has_prefix(b, seq![0x00u8, 0x00, 0x01, 0x00])
    ||| has_prefix(b, seq![0x23u8, 0x3f, 0x52, 0x41, 0x44, 0x49, 0x41, 0x4e, 0x43, 0x45])
    ||| (b.len() >= 2 && b[0] == 0x50u8 && 0x31u8 <= b[1] <= 0x37u8)
    ||| has_prefix(b, seq![0x66u8, 0x61, 0x72, 0x62, 0x66, 0x65, 0x6c, 0x64])
    ||| has_prefix(b, seq![0x00u8, 0x00, 0x00, 0x20, 0x66, 0x74, 0x79, 0x70, 0x61, 0x76, 0x69, 0x66])
    ||| has_prefix(b, seq![0x00u8, 0x00, 0x00, 0x1c, 0x66, 0x74, 0x79, 0x70, 0x61, 0x76, 0x69, 0x66])
    ||| has_prefix(b, seq![0x76u8, 0x2f, 0x31, 0x01])
    ||| has_prefix(b, seq![0x71u8, 0x6f, 0x69, 0x66])
}

/// The family that a buffer's leading bytes announce: `GIF87a` or `GIF89a`
/// for GIF, `RIFF` for WebP, another known signature for a still picture.
pub open spec fn guessed_family(b: Seq<u8>) -> Family {
    if has_prefix(b, seq![0x47u8, 0x49, 0x46, 0x38, 0x39, 0x61]) || has_prefix(b, seq![0x47u8, 0x49, 0x46, 0x38, 0x37, 0x61]) {
        Family::Gif
    } else if has_prefix(b, seq![0x52u8, 0x49, 0x46, 0x46]) {
        Family::WebP
    } else if still_signature(b) {
        Family::Still
    } else {
        Family::Unknown
    }
}

/// What the `image` GIF decoder makes of a buffer.
pub uninterp spec fn gif_frames(b: Seq<u8>) -> Option<Seq<TimedFrameView>>;

/// What the libwebp animation decoder makes of a buffer.
pub uninterp spec fn webp_frames(b: Seq<u8>) -> Option<Seq<StampedFrameView>>;

/// What `image::load_from_memory` makes of a buffer, as RGBA.
pub uninterp spec fn still_image(b: Seq<u8>) -> Option<BitmapView>;

/// The format family that the leading bytes announce; advisory only, each
/// codec still validates what it reads.
pub fn sniff(bytes: &[u8]) -> (r: Family)
    ensures
        r == guessed_family(bytes@),
        bytes@.len() == 0 ==> r == Family::Unknown,
{
    guess_family(bytes)
}

/// Relies on `image::guess_format`, which returns the format of the first
/// signature in its table that starts the buffer; no two signatures of
/// different families can start the same buffer.
#[verifier::external_body]
fn guess_family(bytes: &[u8]) -> (r: Family)
    ensures
        r == guessed_family(bytes@),
{
    match image::guess_format(bytes) {
        Ok(image::ImageFormat::Gif) => Family::Gif,
        Ok(image::ImageFormat::WebP) => Family::WebP,
        Ok(_) => Family::Still,
        Err(_) => Family::Unknown,
    }
}

/// Relies on `image::codecs::gif::GifDecoder`, `into_frames` and
/// `collect_frames`: every frame of the file as RGBA, with its delay.
#[verifier::external_body]
fn decode_gif_frames(bytes: &[u8]) -> (r: Option<Vec<TimedFrame>>)
    ensures
        timed_view(r) == gif_frames(bytes@),
{
    let decoder = image::codecs::gif::GifDecoder::new(bytes).ok()?;
    let frames = image::AnimationDecoder::into_frames(decoder).collect_frames().ok()?;
    Some(frames.into_iter().map(|f| {
        let (delay_numer, delay_denom) = f.delay().numer_denom_ms();
        let b = f.into_buffer();
        let bitmap = Bitmap { width: b.width(), height: b.height(), pixels: b.into_raw() };
        TimedFrame { bitmap, delay_numer, delay_denom }
    }).collect())
}

/// Relies on `webp_animation::Decoder`: every frame of the file in RGBA, the
/// default colour mode, with the cumulative timestamp that libwebp reports.
#[verifier::external_body]
fn decode_webp_frames(bytes: &[u8]) -> (r: Option<Vec<StampedFrame>>)
    ensures
        stamped_view(r) == webp_frames(bytes@),
{
    let decoder = webp_animation::Decoder::new(bytes).ok()?;
    Some(decoder.into_iter().map(|f| {
        let (width, height) = f.dimensions();
        let bitmap = Bitmap { width, height, pixels: f.data().to_vec() };
        StampedFrame { bitmap, timestamp: f.timestamp() }
    }).collect())
}

/// Relies on `image::load_from_memory` and `DynamicImage::into_rgba8`: the
/// picture converted to RGBA.
#[verifier::external_body]
fn decode_still(bytes: &[u8]) -> (r: Option<Bitmap>)
    ensures
        bitmap_view(r) == still_image(bytes@),
{
    let image = image::load_from_memory(bytes).ok()?.into_rgba8();
    Some(Bitmap { width: image.width(), height: image.height(), pixels: image.into_raw() })
}

/// A GIF delay ratio in whole milliseconds; a zero denominator counts as no delay.
pub open spec fn ratio_ms(numer: u32, denom: u32) -> u64 {
    if denom == 0 {
        0
    } else {
        (numer / denom) as u64
    }
}

pub open spec fn gif_frame_view(f: TimedFrameView) -> FrameView {
    f.bitmap.with_delay(ratio_ms(f.delay_numer, f.delay_denom))
}

pub open spec fn gif_frame_views(raw: Seq<TimedFrameView>) -> Seq<FrameView> {
    raw.map_values(|f: TimedFrameView| gif_frame_view(f))
}

/// A GIF frame list is accepted when it is not empty and every bitmap is well
/// formed; each frame keeps its own delay.
pub open spec fn gif_sequence(raw: Seq<TimedFrameView>) -> Option<Seq<FrameView>> {
    if raw.len() > 0 && forall|i: int| 0 <= i < raw.len() ==> (#[trigger] raw[i]).bitmap.fits() {
        Some(gif_frame_views(raw))
    } else {
        None
    }
}

/// The delay of a frame stamped `ts` after one stamped `prev`,
/// saturated at zero when the timestamps go backwards.
pub open spec fn delay_between(prev: int, ts: int) -> u64 {
    if ts > prev {
        (ts - prev) as u64
    } else {
        0
    }
}

/// The timestamp of the last well-formed frame before index `i`, or zero.
pub open spec fn cursor_before(raw: Seq<StampedFrameView>, i: int) -> int
    decreases i,
{
    if i <= 0 {
        0
    } else if raw[i - 1].bitmap.fits() {
        raw[i - 1].timestamp as int
    } else {
        cursor_before(raw, i - 1)
    }
}

/// The frames kept from the first `n` stamped frames: malformed ones are
/// skipped, and each kept one is delayed by the gap to the previous kept stamp.
pub open spec fn webp_prefix(raw: Seq<StampedFrameView>, n: int) -> Seq<FrameView>
    decreases n,
{
    if n <= 0 {
        Seq::empty()
    } else {
        let kept = webp_prefix(raw, n - 1);
        let f = raw[n - 1];
        if f.bitmap.fits() {
            kept.push(f.bitmap.with_delay(delay_between(cursor_before(raw, n - 1), f.timestamp as int)))
        } else {
            kept
        }
    }
}

/// An animated WebP is accepted when at least one frame survives.
pub open spec fn webp_sequence(raw: Seq<StampedFrameView>) -> Option<Seq<FrameView>> {
    let kept = webp_prefix(raw, raw.len() as int);
    if kept.len() > 0 {
        Some(kept)
    } else {
        None
    }
}

/// A still picture is one frame with no delay.
pub open spec fn still_sequence(b: BitmapView) -> Option<Seq<FrameView>> {
    if b.fits() {
        Some(seq![b.with_delay(0)])
    } else {
        None
    }
}

/// The raster adapter: the sniffed family picks the codec.
pub open spec fn raster_spec(b: Seq<u8>) -> Option<Seq<FrameView>> {
    match guessed_family(b) {
        Family::Gif => match gif_frames(b) {
            Some(raw) => gif_sequence(raw),
            None => None,
        },
        Family::WebP => match webp_frames(b) {
            Some(raw) => webp_sequence(raw),
            None => None,
        },
        Family::Still => match still_image(b) {
            Some(bitmap) => still_sequence(bitmap),
            None => None,
        },
        Family::Unknown => None,
    }
}

/// Delay in milliseconds of a GIF delay ratio.
pub fn delay_ms_of_ratio(numer: u32, denom: u32) -> (r: u64)
    ensures
        r == ratio_ms(numer, denom),
{
    if denom == 0 {
        0
    } else {
        (numer / denom) as u64
    }
}

/// Normalises decoded GIF frames.
pub fn frames_from_gif(raw: Vec<TimedFrame>) -> (r: Option<Vec<Frame>>)
    ensures
        sequence_view(r) == gif_sequence(timed_views(raw@)),
{
    let ghost orig = timed_views(raw@);
    let mut rest = raw;
    let n: usize = rest.len();
    let mut out: Vec<Frame> = Vec::new();
    let mut i: usize = 0;
    while i < n
        invariant
            i <= n,
            orig == timed_views(raw@),
            n == orig.len(),
            rest@.len() == n - i,
            forall|k: int| 0 <= k < rest@.len() ==> (#[trigger] rest@[k])@ == orig[i + k],
            out@.len() == i,
            forall|k: int|
                0 <= k < i ==> (#[trigger] out@[k])@ == gif_frame_view(orig[k]) && orig[k].bitmap.fits(),
        decreases n - i,
    {
        assert(rest@[0]@ == orig[i as int]);
        let ghost before = rest@;
        let f = rest.remove(0);
        let delay = delay_ms_of_ratio(f.delay_numer, f.delay_denom);
        match frame_from_rgba(f.bitmap.width, f.bitmap.height, f.bitmap.pixels, delay) {
            Some(frame) => {
                out.push(frame);
            },
            None => {
                assert(!orig[i as int].bitmap.fits());
                assert(gif_sequence(orig) is None);
                return None;
            },
        }
        i += 1;
        assert forall|k: int| 0 <= k < rest@.len() implies (#[trigger] rest@[k])@ == orig[i + k] by {
            assert(rest@[k] == before[k + 1]);
        }
    }
    if n == 0 {
        return None;
    }
    assert forall|k: int| 0 <= k < orig.len() implies (#[trigger] orig[k]).bitmap.fits() by {
        assert(out@[k]@ == gif_frame_view(orig[k]));
    }
    assert(frames_view(out@) =~= gif_frame_views(orig));
    assert(gif_sequence(orig) == Some(gif_frame_views(orig)));
    Some(out)
}

/// Normalises decoded WebP frames: converts cumulative timestamps into per-frame
/// delays, skipping malformed frames without moving the time cursor.
pub fn frames_from_webp(raw: Vec<StampedFrame>) -> (r: Option<Vec<Frame>>)
    ensures
        sequence_view(r) == webp_sequence(stamped_views(raw@)),
{
    let ghost orig = stamped_views(raw@);
    let mut rest = raw;
    let n: usize = rest.len();
    let mut out: Vec<Frame> = Vec::new();
    let mut prev: i64 = 0;
    let mut i: usize = 0;
    while i < n
        invariant
            i <= n,
            orig == stamped_views(raw@),
            n == orig.len(),
            rest@.len() == n - i,
            forall|k: int| 0 <= k < rest@.len() ==> (#[trigger] rest@[k])@ == orig[i + k],
            frames_view(out@) == webp_prefix(orig, i as int),
            prev == cursor_before(orig, i as int),
            i32::MIN <= prev <= i32::MAX,
        decreases n - i,
    {
        assert(rest@[0]@ == orig[i as int]);
        let ghost before = rest@;
        let ghost kept = out@;
        let f = rest.remove(0);
        let ts: i64 = f.timestamp as i64;
        let delay: u64 = if ts > prev {
            (ts - prev) as u64
        } else {
            0
        };
        match frame_from_rgba(f.bitmap.width, f.bitmap.height, f.bitmap.pixels, delay) {
            Some(frame) => {
                out.push(frame);
                prev = ts;
                assert(frames_view(out@) =~= frames_view(kept).push(frame@));
            },
            None => {},
        }
        i += 1;
        assert forall|k: int| 0 <= k < rest@.len() implies (#[trigger] rest@[k])@ == orig[i + k] by {
            assert(rest@[k] == before[k + 1]);
        }
    }
    if out.len() == 0 {
        None
    } else {
        Some(out)
    }
}

/// Wraps a still picture as a one-frame sequence with no delay.
pub fn frames_from_still(bitmap: Bitmap) -> (r: Option<Vec<Frame>>)
    ensures
        sequence_view(r) == still_sequence(bitmap@),
{
    match frame_from_rgba(bitmap.width, bitmap.height, bitmap.pixels, 0) {
        Some(frame) => {
            let mut out: Vec<Frame> = Vec::new();
            out.push(frame);
            assert(frames_view(out@) =~= seq![bitmap@.with_delay(0)]);
            Some(out)
        },
        None => None,
    }
}

/// The raster adapter: sniffs the family and decodes with its codec. Fails
/// when the family is unknown, the codec refuses the bytes, or no well-formed
/// frame comes out.
pub fn decode_raster(bytes: &[u8]) -> (r: Option<Vec<Frame>>)
    ensures
        sequence_view(r) == raster_spec(bytes@),
{
    match guess_family(bytes) {
        Family::Gif => match decode_gif_frames(bytes) {
            Some(raw) => frames_from_gif(raw),
            None => None,
        },
        Family::WebP => match decode_webp_frames(bytes) {
            Some(raw) => frames_from_webp(raw),
            None => None,
        },
        Family::Still => match decode_still(bytes) {
            Some(bitmap) => frames_from_still(bitmap),
            None => None,
        },
        Family::Unknown => None,
    }
}

/// Sum of the delays of a frame sequence, in milliseconds.
pub open spec fn total_delay(frames: Seq<FrameView>) -> int
    decreases frames.len(),
{
    if frames.len() == 0 {
        0
    } else {
        total_delay(frames.drop_last()) + frames.last().delay_ms
    }
}

/// Timestamps never go backwards and the first is not negative.
pub open spec fn timestamps_ordered(raw: Seq<StampedFrameView>) -> bool {
    &&& raw.len() > 0 ==> raw[0].timestamp >= 0
    &&& forall|i: int| 0 < i < raw.len() ==> raw[i - 1].timestamp <= #[trigger] raw[i].timestamp
}

/// Timestamp of the frame before `i`, zero for the first.
pub open spec fn previous_stamp(raw: Seq<StampedFrameView>, i: int) -> int {
    if i == 0 {
        0
    } else {
        raw[i - 1].timestamp as int
    }
}

/// Every frame that the WebP conversion keeps is well formed.
pub proof fn lemma_webp_prefix_wf(raw: Seq<StampedFrameView>, n: int)
    requires
        0 <= n <= raw.len(),
    ensures
        forall|i: int| 0 <= i < webp_prefix(raw, n).len() ==> (#[trigger] webp_prefix(raw, n)[i]).wf(),
    decreases n,
{
    if n > 0 {
        lemma_webp_prefix_wf(raw, n - 1);
        let kept = webp_prefix(raw, n - 1);
        assert forall|i: int| 0 <= i < webp_prefix(raw, n).len() implies (#[trigger] webp_prefix(raw, n)[i]).wf() by {
            if i < kept.len() {
                assert(webp_prefix(raw, n)[i] == kept[i]);
            }
        }
    }
}

/// Whenever one WebP frame is well formed the conversion succeeds, whatever
/// order the timestamps come in; a delay is never negative, being unsigned.
pub proof fn lemma_webp_never_fails(raw: Seq<StampedFrameView>, j: int)
    requires
        0 <= j < raw.len(),
        raw[j].bitmap.fits(),
    ensures
        webp_sequence(raw) is Some,
{
    lemma_webp_prefix_grows(raw, j, raw.len() as int);
}

proof fn lemma_webp_prefix_grows(raw: Seq<StampedFrameView>, j: int, n: int)
    requires
        0 <= j < n <= raw.len(),
        raw[j].bitmap.fits(),
    ensures
        webp_prefix(raw, n).len() > 0,
    decreases n,
{
    if n - 1 > j {
        lemma_webp_prefix_grows(raw, j, n - 1);
    }
}

/// With well-formed frames and ordered timestamps, the WebP conversion keeps
/// every frame in order, each one's delay is the gap to the previous stamp
/// (the first one's is its own stamp), and the delays add up to the last stamp.
pub proof fn lemma_webp_ordered(raw: Seq<StampedFrameView>, n: int)
    requires
        0 <= n <= raw.len(),
        timestamps_ordered(raw),
        forall|i: int| 0 <= i < raw.len() ==> (#[trigger] raw[i]).bitmap.fits(),
    ensures
        webp_prefix(raw, n).len() == n,
        forall|i: int| 0 <= i < n ==> (#[trigger] webp_prefix(raw, n)[i]) == raw[i].bitmap.with_delay(
            (raw[i].timestamp - previous_stamp(raw, i)) as u64),
        total_delay(webp_prefix(raw, n)) == previous_stamp(raw, n),
    decreases n,
{
    if n > 0 {
        lemma_webp_ordered(raw, n - 1);
        assert(raw[n - 1].bitmap.fits());
        assert(cursor_before(raw, n - 1) == previous_stamp(raw, n - 1));
        let p = webp_prefix(raw, n);
        assert(p.drop_last() =~= webp_prefix(raw, n - 1));
    }
}

/// Every success of the raster adapter is a valid frame sequence.
pub proof fn lemma_raster_valid(b: Seq<u8>)
    ensures
        raster_spec(b) matches Some(s) ==> valid_sequence(s),
{
    match guessed_family(b) {
        Family::WebP => {
            if let Some(raw) = webp_frames(b) {
                lemma_webp_prefix_wf(raw, raw.len() as int);
            }
        },
        Family::Gif => {
            if let Some(raw) = gif_frames(b) {
                if gif_sequence(raw) is Some {
                    assert forall|i: int| 0 <= i < raw.len() implies (#[trigger] gif_frame_views(raw)[i]).wf() by {
                        assert(raw[i].bitmap.fits());
                    }
                }
            }
        },
        _ => {},
    }
}

/// A still picture decodes to exactly one well-formed frame with no delay.
pub proof fn lemma_still_is_single_frame(b: Seq<u8>)
    requires
        guessed_family(b) == Family::Still,
    ensures
        raster_spec(b) matches Some(s) ==> s.len() == 1 && s[0].delay_ms == 0 && s[0].wf(),
{
}

/// A GIF whose frames are all well formed decodes to as many frames, in the
/// encoded order, each keeping its encoded delay.
pub proof fn lemma_gif_keeps_frames(b: Seq<u8>)
    requires
        guessed_family(b) == Family::Gif,
        gif_frames(b) matches Some(raw) && raw.len() > 0
            && forall|i: int| 0 <= i < raw.len() ==> (#[trigger] raw[i]).bitmap.fits(),
    ensures
        raster_spec(b) matches Some(s) && s.len() == gif_frames(b)->0.len()
            && forall|i: int| 0 <= i < s.len() ==> (#[trigger] s[i]) == gif_frame_view(gif_frames(b)->0[i]),
{
}

/// An animated WebP whose frames are all well formed, with ordered
/// timestamps, decodes to as many frames in order, whose delays add up to the
/// timestamp of the last frame: the animation's length.
pub proof fn lemma_webp_keeps_frames(b: Seq<u8>)
    requires
        guessed_family(b) == Family::WebP,
        webp_frames(b) matches Some(raw) && raw.len() > 0 && timestamps_ordered(raw)
            && forall|i: int| 0 <= i < raw.len() ==> (#[trigger] raw[i]).bitmap.fits(),
    ensures
        raster_spec(b) matches Some(s) && s.len() == webp_frames(b)->0.len()
            && total_delay(s) == webp_frames(b)->0.last().timestamp,
{
    let raw = webp_frames(b)->0;
    lemma_webp_ordered(raw, raw.len() as int);
}

/// Bytes that carry no known raster signature are never taken by the raster
/// adapter.
pub proof fn lemma_unknown_not_raster(b: Seq<u8>)
    requires
        guessed_family(b) == Family::Unknown,
    ensures
        raster_spec(b) is None,
{
}

} // verus!
