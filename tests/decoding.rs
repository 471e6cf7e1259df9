use simp::decode::{decode, finish_with_layered, load, DecodeError, LoadError, Progress};
use simp::frame::{fits_rgba, frame_from_rgba, Frame};
use simp::layered::{decode_layered, is_layer_included};
use simp::raster::{
    decode_raster, delay_ms_of_ratio, frames_from_gif, frames_from_still, frames_from_webp, sniff,
    Bitmap, Family, StampedFrame, TimedFrame,
};
use simp::vector::{decode_vector, rasterize_svg};
use std::io::Cursor;

fn full_chain(bytes: &[u8]) -> Result<Vec<Frame>, DecodeError> {
    match decode(bytes, &options()) {
        Progress::Decoded(frames) => Ok(frames),
        Progress::NeedsLayered => finish_with_layered(None),
    }
}

fn options() -> usvg::Options {
    usvg::Options::default()
}

fn rgba(width: u32, height: u32, seed: u8) -> Vec<u8> {
    (0..width * height * 4).map(|i| (i as u8).wrapping_mul(seed)).collect()
}

fn png_bytes(width: u32, height: u32, seed: u8) -> Vec<u8> {
    let image = image::RgbaImage::from_raw(width, height, rgba(width, height, seed)).unwrap();
    let mut out = Vec::new();
    image.write_to(&mut Cursor::new(&mut out), image::ImageOutputFormat::Png).unwrap();
    out
}

fn gif_bytes(delays_ms: &[u32]) -> Vec<u8> {
    let mut out = Vec::new();
    {
        let mut encoder = image::codecs::gif::GifEncoder::new(&mut out);
        for (k, delay) in delays_ms.iter().enumerate() {
            let buffer = image::RgbaImage::from_raw(4, 3, rgba(4, 3, k as u8 + 1)).unwrap();
            let delay = image::Delay::from_numer_denom_ms(*delay, 1);
            encoder.encode_frame(image::Frame::from_parts(buffer, 0, 0, delay)).unwrap();
        }
    }
    out
}

fn webp_bytes(stamps: &[i32], end: i32) -> Vec<u8> {
    let mut encoder = webp_animation::Encoder::new((5, 4)).unwrap();
    for (k, stamp) in stamps.iter().enumerate() {
        encoder.add_frame(&rgba(5, 4, k as u8 + 3), *stamp).unwrap();
    }
    encoder.finalize(end).unwrap().to_vec()
}

fn stamped(timestamp: i32) -> StampedFrame {
    StampedFrame { bitmap: Bitmap { width: 1, height: 1, pixels: vec![1, 2, 3, 4] }, timestamp }
}

fn delays(frames: &[Frame]) -> Vec<u64> {
    frames.iter().map(|f| f.delay_ms).collect()
}

const SVG: &str = "<svg xmlns=\"http://www.w3.org/2000/svg\" width=\"7\" height=\"5\" viewBox=\"0 0 7 5\"><rect width=\"7\" height=\"5\" fill=\"#ff0000\"/></svg>";

#[test]
fn still_png_is_one_frame_without_delay() {
    let frames = full_chain(&png_bytes(3, 2, 7)).unwrap();
    assert_eq!(frames.len(), 1);
    assert_eq!(frames[0].delay_ms, 0);
    assert_eq!((frames[0].width, frames[0].height), (3, 2));
    assert_eq!(frames[0].pixels.len(), 3 * 2 * 4);
    assert_eq!(frames[0].pixels, rgba(3, 2, 7));
}

#[test]
fn gif_keeps_every_frame_and_delay() {
    let frames = full_chain(&gif_bytes(&[100, 200, 300])).unwrap();
    assert_eq!(frames.len(), 3);
    assert_eq!(delays(&frames), vec![100, 200, 300]);
    assert_eq!(delays(&frames).iter().sum::<u64>(), 600);
    for f in &frames {
        assert_eq!(f.pixels.len() as u32, f.width * f.height * 4);
    }
}

#[test]
fn animated_webp_delays_are_gaps_between_stamps() {
    let frames = full_chain(&webp_bytes(&[0, 100, 250], 600)).unwrap();
    assert_eq!(frames.len(), 3);
    assert_eq!(delays(&frames), vec![100, 150, 350]);
    assert_eq!(delays(&frames).iter().sum::<u64>(), 600);
    assert_eq!((frames[0].width, frames[0].height), (5, 4));
}

#[test]
fn timestamps_become_deltas() {
    let raw = vec![stamped(0), stamped(100), stamped(250), stamped(600)];
    let frames = frames_from_webp(raw).unwrap();
    assert_eq!(delays(&frames), vec![0, 100, 150, 350]);
}

#[test]
fn timestamps_going_backwards_saturate() {
    let raw = vec![stamped(100), stamped(50), stamped(50), stamped(300)];
    let frames = frames_from_webp(raw).unwrap();
    assert_eq!(delays(&frames), vec![100, 0, 0, 250]);
}

#[test]
fn malformed_webp_frame_is_skipped_without_moving_cursor() {
    let bad = StampedFrame { bitmap: Bitmap { width: 2, height: 2, pixels: vec![0; 3] }, timestamp: 100 };
    let raw = vec![stamped(40), bad, stamped(250)];
    let frames = frames_from_webp(raw).unwrap();
    assert_eq!(delays(&frames), vec![40, 210]);
}

#[test]
fn webp_without_wellformed_frame_fails() {
    let bad = StampedFrame { bitmap: Bitmap { width: 2, height: 2, pixels: vec![0; 3] }, timestamp: 100 };
    assert!(frames_from_webp(vec![bad]).is_none());
    assert!(frames_from_webp(vec![]).is_none());
}

#[test]
fn gif_normalisation() {
    let ok = TimedFrame { bitmap: Bitmap { width: 1, height: 1, pixels: vec![9; 4] }, delay_numer: 70, delay_denom: 1 };
    let frames = frames_from_gif(vec![ok]).unwrap();
    assert_eq!(delays(&frames), vec![70]);
    let bad = TimedFrame { bitmap: Bitmap { width: 1, height: 2, pixels: vec![9; 4] }, delay_numer: 70, delay_denom: 1 };
    assert!(frames_from_gif(vec![bad]).is_none());
    assert!(frames_from_gif(vec![]).is_none());
}

#[test]
fn delay_ratio_in_milliseconds() {
    assert_eq!(delay_ms_of_ratio(100, 1), 100);
    assert_eq!(delay_ms_of_ratio(25, 2), 12);
    assert_eq!(delay_ms_of_ratio(25, 0), 0);
}

#[test]
fn unknown_bytes_are_unrecognized() {
    let junk: Vec<u8> = (0..64u32).map(|i| (i * 37 % 251) as u8).collect();
    assert_eq!(full_chain(&junk), Err(DecodeError::UnrecognizedFormat));
    assert_eq!(full_chain(&[]), Err(DecodeError::UnrecognizedFormat));
    assert!(decode_raster(&junk).is_none());
}

#[test]
fn sniffing_families() {
    assert_eq!(sniff(&png_bytes(1, 1, 1)), Family::Still);
    assert_eq!(sniff(&gif_bytes(&[10])), Family::Gif);
    assert_eq!(sniff(&webp_bytes(&[0], 10)), Family::WebP);
    assert_eq!(sniff(&[]), Family::Unknown);
    assert_eq!(sniff(SVG.as_bytes()), Family::Unknown);
    assert_eq!(sniff(b"P4 1 1"), Family::Still);
    assert_eq!(sniff(b"P8"), Family::Unknown);
    assert_eq!(sniff(b"RIFF...."), Family::WebP);
    assert_eq!(sniff(b"GIF87"), Family::Unknown);
    assert_eq!(sniff(b"8BPS"), Family::Unknown);
}

#[test]
fn svg_renders_at_intrinsic_size() {
    let frames = full_chain(SVG.as_bytes()).unwrap();
    assert_eq!(frames.len(), 1);
    assert_eq!((frames[0].width, frames[0].height), (7, 5));
    assert_eq!(frames[0].delay_ms, 0);
    assert_eq!(frames[0].pixels.len(), 7 * 5 * 4);
    assert_eq!(&frames[0].pixels[0..4], &[255, 0, 0, 255]);
}

#[test]
fn svg_canvas_size_is_given_size() {
    let tree = usvg::Tree::from_data(SVG.as_bytes(), &options().to_ref()).unwrap();
    let frames = rasterize_svg(&tree, 14, 10).unwrap();
    assert_eq!((frames[0].width, frames[0].height), (14, 10));
    assert!(rasterize_svg(&tree, 0, 10).is_none());
}

#[test]
fn empty_svg_canvas_fails() {
    let svg = "<svg xmlns=\"http://www.w3.org/2000/svg\" width=\"0\" height=\"5\"></svg>";
    assert!(decode_vector(svg.as_bytes(), &options()).is_none());
    assert!(decode_vector(b"not a document", &options()).is_none());
}

#[test]
fn decoding_twice_gives_identical_frames() {
    let bytes = gif_bytes(&[50, 60]);
    let first = full_chain(&bytes).unwrap();
    let second = full_chain(&bytes).unwrap();
    assert_eq!(first, second);
    let svg_first = full_chain(SVG.as_bytes()).unwrap();
    let svg_second = full_chain(SVG.as_bytes()).unwrap();
    assert_eq!(svg_first, svg_second);
}

#[test]
fn raster_result_wins() {
    let bytes = png_bytes(2, 2, 3);
    let chained = full_chain(&bytes).unwrap();
    assert_eq!(Some(chained), decode_raster(&bytes));
}

#[test]
fn unreadable_file_is_io_error() {
    assert_eq!(load(None, &options()), Err(LoadError::Io));
    assert_eq!(load(Some(&[1, 2, 3]), &options()), Ok(Progress::NeedsLayered));
    match load(Some(&png_bytes(1, 1, 2)), &options()) {
        Ok(Progress::Decoded(frames)) => assert_eq!(frames.len(), 1),
        other => panic!("unexpected {:?}", other),
    }
}

#[test]
fn independent_requests_keep_their_own_pixels() {
    let inputs: Vec<Vec<u8>> = (1..5u8).map(|seed| png_bytes(2, 3, seed)).collect();
    let outcomes: Vec<Vec<Frame>> = inputs.iter().map(|b| full_chain(b).unwrap()).collect();
    for (k, frames) in outcomes.iter().enumerate() {
        assert_eq!(frames.len(), 1);
        assert_eq!(frames[0].pixels, rgba(2, 3, k as u8 + 1));
    }
}

#[test]
fn layer_mask() {
    let mask = vec![true, false];
    assert!(is_layer_included(&mask, 0));
    assert!(!is_layer_included(&mask, 1));
    assert!(is_layer_included(&mask, 2));
    assert!(is_layer_included(&vec![], 0));
}

#[test]
fn layered_adapter_takes_the_canvas() {
    assert!(decode_layered(None).is_none());
    assert!(decode_layered(Some(Bitmap { width: 2, height: 2, pixels: vec![0; 15] })).is_none());
    let frames = decode_layered(Some(Bitmap { width: 2, height: 3, pixels: vec![7; 24] })).unwrap();
    assert_eq!((frames.len(), frames[0].width, frames[0].height, frames[0].delay_ms), (1, 2, 3, 0));
}

#[test]
fn frame_buffers_must_match_dimensions() {
    assert!(fits_rgba(2, 3, &vec![0; 24]));
    assert!(!fits_rgba(2, 3, &vec![0; 23]));
    assert!(frame_from_rgba(2, 3, vec![0; 25], 0).is_none());
    let f = frame_from_rgba(2, 3, vec![0; 24], 40).unwrap();
    assert_eq!((f.width, f.height, f.delay_ms), (2, 3, 40));
    assert!(frames_from_still(Bitmap { width: 1, height: 1, pixels: vec![0; 4] }).is_some());
}

#[test]
fn chain_falls_through_to_layered() {
    let junk = vec![9u8; 40];
    assert_eq!(decode(&junk, &options()), Progress::NeedsLayered);
    assert_eq!(finish_with_layered(None), Err(DecodeError::UnrecognizedFormat));
    let canvas = Bitmap { width: 1, height: 2, pixels: vec![5; 8] };
    let frames = finish_with_layered(Some(canvas)).unwrap();
    assert_eq!((frames[0].width, frames[0].height), (1, 2));
}

#[test]
fn svg_sizes_that_tiny_skia_refuses() {
    let tree = usvg::Tree::from_data(SVG.as_bytes(), &options().to_ref()).unwrap();
    assert!(rasterize_svg(&tree, 1, 0).is_none());
    assert!(rasterize_svg(&tree, 0x2000_0000, 1).is_none());
    let frames = rasterize_svg(&tree, 1, 1).unwrap();
    assert_eq!(frames[0].pixels.len(), 4);
}
