//! Multi-format image decoding: sniff a byte buffer, decode it with the first
//! codec family that accepts it, and normalise the result into RGBA frames.
use vstd::prelude::*;

pub mod frame;
pub mod raster;
pub mod vector;
pub mod layered;
pub mod decode;

verus! {

} // verus!
