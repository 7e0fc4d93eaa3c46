//! Settings shared by the whole renderer.

use vstd::prelude::*;

verus! {

/// The width of the rendered image in pixels.
pub const IMAGE_WIDTH: u32 = 1920;

/// The height of the rendered image in pixels: the width divided by the
/// aspect ratio of sixteen to nine.
pub const IMAGE_HEIGHT: u32 = 1080;

/// How many rays are cast through each pixel.
pub const SAMPLES_PER_PIXEL: u32 = 625;

/// How many times a path may bounce.
pub const MAX_RECURSE_DEPTH: i32 = 50;

/// How many rows are rendered side by side.
pub const THREAD_NUM: usize = 20;

/// Where the image goes and what is done to it on the way.
#[derive(Clone, Copy, Debug)]
pub struct OutputParam<'a> {
    pub enable_edge_detect: bool,
    pub savedir: &'a str,
    pub savefile: &'a str,
}

} // verus!
