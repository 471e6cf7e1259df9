//! The decode chain (raster, then vector, then layered document) and the load
//! step around it.
use vstd::prelude::*;
use crate::frame::{Frame, FrameView, frames_view, valid_sequence};
use crate::raster::{Bitmap, bitmap_view, decode_raster, lemma_raster_valid, raster_spec};
use crate::vector::decode_vector;
use crate::layered::{decode_layered, layered_sequence};

verus! {

/// Why no frames came out of a byte buffer.
#[derive(PartialEq, Eq, Structural, Clone, Copy, Debug)]
pub enum DecodeError {
    /// No adapter of the chain accepted the bytes.
    UnrecognizedFormat,
}

/// Why a load request stopped before any decoding.
#[derive(PartialEq, Eq, Structural, Clone, Copy, Debug)]
pub enum LoadError {
    /// The file could not be read; nothing was decoded.
    Io,
}

pub open spec fn decoded_view(r: Result<Vec<Frame>, DecodeError>) -> Option<Seq<FrameView>> {
    match r {
        Ok(fs) => Some(frames_view(fs@)),
        Err(_) => None,
    }
}

/// How far the chain got before the layered-document adapter.
#[derive(Debug, PartialEq, Eq)]
pub enum Progress {
    /// The raster or the vector adapter produced these frames.
    Decoded(Vec<Frame>),
    /// Both refused: the layered-document adapter is next.
    NeedsLayered,
}

pub open spec fn progress_view(p: Progress) -> Option<Seq<FrameView>> {
    match p {
        Progress::Decoded(fs) => Some(frames_view(fs@)),
        Progress::NeedsLayered => None,
    }
}

/// The whole chain over the three adapters' outcomes: the first success wins,
/// in the order raster, vector, layered document; none means failure.
pub open spec fn chain(
    raster: Option<Seq<FrameView>>,
    vector: Option<Seq<FrameView>>,
    layered: Option<Seq<FrameView>>,
) -> Option<Seq<FrameView>> {
    match raster {
        Some(s) => Some(s),
        None => match vector {
            Some(s) => Some(s),
            None => layered,
        },
    }
}

/// What the vector adapter may give: nothing, or one well-formed frame of at
/// least one pixel each way, with no delay. Which of them it gives depends on
/// the fonts supplied as well as on the bytes.
pub open spec fn vector_outcome(v: Option<Seq<FrameView>>) -> bool {
    v matches Some(s) ==> s.len() == 1 && s[0].delay_ms == 0 && s[0].wf() && s[0].width >= 1 && s[0].height >= 1
}

/// The first two links of the chain: the raster adapter, then, only when it
/// refuses, the vector adapter. The outcome is `chain` with the vector
/// adapter's answer `v` and the layered adapter not yet consulted.
pub fn decode(bytes: &[u8], options: &usvg::Options) -> (r: Progress)
    ensures
        exists|v: Option<Seq<FrameView>>|
            vector_outcome(v) && progress_view(r) == chain(raster_spec(bytes@), v, None),
        raster_spec(bytes@) is Some ==> progress_view(r) == raster_spec(bytes@),
        r matches Progress::Decoded(fs) ==> valid_sequence(frames_view(fs@)),
{
    proof {
        lemma_raster_valid(bytes@);
    }
    if let Some(frames) = decode_raster(bytes) {
        assert(vector_outcome(None) && progress_view(Progress::Decoded(frames)) == chain(raster_spec(bytes@), None, None));
        return Progress::Decoded(frames);
    }
    match decode_vector(bytes, options) {
        Some(frames) => {
            let ghost v = frames_view(frames@);
            assert(v.len() == frames@.len());
            assert(v[0] == frames@[0]@);
            assert(vector_outcome(Some(v)));
            Progress::Decoded(frames)
        },
        None => {
            assert(vector_outcome(None));
            Progress::NeedsLayered
        },
    }
}

/// The last link of the chain, once the raster and vector adapters refused:
/// the flattened canvas as one frame, or `UnrecognizedFormat` when there is
/// none or its buffer does not fit its size.
pub fn finish_with_layered(flattened: Option<Bitmap>) -> (r: Result<Vec<Frame>, DecodeError>)
    ensures
        decoded_view(r) == layered_sequence(bitmap_view(flattened)),
        r is Err ==> r == Err::<Vec<Frame>, DecodeError>(DecodeError::UnrecognizedFormat),
{
    match decode_layered(flattened) {
        Some(frames) => Ok(frames),
        None => Err(DecodeError::UnrecognizedFormat),
    }
}

/// The load step once the file has been read or has failed to be: an
/// unreadable file is an `Io` error and nothing is decoded; readable bytes go
/// through `decode`.
pub fn load(read: Option<&[u8]>, options: &usvg::Options) -> (r: Result<Progress, LoadError>)
    ensures
        read is None <==> r is Err,
        r is Err ==> r->Err_0 == LoadError::Io,
        read matches Some(b) ==> exists|v: Option<Seq<FrameView>>|
            vector_outcome(v) && progress_view(r->Ok_0) == chain(raster_spec(b@), v, None),
{
    match read {
        None => Err(LoadError::Io),
        Some(bytes) => Ok(decode(bytes, options)),
    }
}

/// Running the chain in two steps (raster and vector first, the layered
/// adapter only when both refused) gives the outcome of the whole chain.
pub proof fn lemma_chain_in_two_steps(
    raster: Option<Seq<FrameView>>,
    vector: Option<Seq<FrameView>>,
    layered: Option<Seq<FrameView>>,
)
    ensures
        chain(raster, vector, layered) == match chain(raster, vector, None) {
            Some(s) => Some(s),
            None => layered,
        },
        raster is None && vector is None && layered is None ==> chain(raster, vector, layered) is None,
{
}

/// Decoding is repeatable where the bytes decide: two decodes of bytes that
/// the raster adapter accepts give the same frames, pixel for pixel.
pub proof fn lemma_decode_repeatable(
    b: Seq<u8>,
    v1: Option<Seq<FrameView>>,
    v2: Option<Seq<FrameView>>,
)
    requires
        raster_spec(b) is Some,
    ensures
        chain(raster_spec(b), v1, None) == chain(raster_spec(b), v2, None),
{
}

} // verus!
