//! The sketch filter: the edges of an image, and the image with its edges
//! drawn in.
//!
//! The edges are found on the grey values of the image with the Sobel
//! kernel.  Grey values and blurring are arithmetic and come from the
//! caller; finding the edges and drawing them in takes whole numbers only.

use crate::camera::{is_root, isqrt};
use crate::render::{raster_rows, raster_wf, raster_width, Raster};
use vstd::prelude::*;

verus! {

/// An image of one byte a pixel, kept in an `image::GrayImage`.  Nothing
/// inside it is open to proof: what it holds is named by `sketch_rows` and
/// `sketch_width`, and those are told of only by the four functions below
/// that call into the `image` crate.
#[verifier::external_body]
pub struct Sketch {
    img: image::GrayImage,
}

/// The pixels of a grey image, row by row from the top, each row from the
/// left.
pub uninterp spec fn sketch_rows(img: Sketch) -> Seq<Seq<u8>>;

/// The width of a grey image in pixels.
pub uninterp spec fn sketch_width(img: Sketch) -> nat;

/// Whether every row of the grey image is as long as the image is wide.
pub open spec fn sketch_wf(img: Sketch) -> bool {
    forall|j: int|
        0 <= j < sketch_rows(img).len() ==> (#[trigger] sketch_rows(img)[j]).len() == sketch_width(
            img,
        )
}

/// Calls `image::ImageBuffer::new`, which makes an image of the given size
/// with every sample zero and panics where the number of samples does not
/// fit a `usize`.  The contract claims the size and that every pixel is
/// black.
#[verifier::external_body]
pub(crate) fn sketch_new(width: u32, height: u32) -> (img: Sketch)
    requires
        width * height <= usize::MAX,
    ensures
        sketch_wf(img),
        sketch_width(img) == width,
        sketch_rows(img).len() == height,
        forall|j: int, i: int|
            0 <= j < height && 0 <= i < width ==> (#[trigger] sketch_rows(img)[j][i]) == 0u8,
{
    Sketch { img: image::GrayImage::new(width, height) }
}

/// Calls `image::ImageBuffer::put_pixel`, which stores a pixel at column `x`
/// of row `y` and panics outside the image.  The contract claims that this
/// one pixel changes and nothing else does.
#[verifier::external_body]
pub(crate) fn sketch_put(img: &mut Sketch, x: u32, y: u32, grey: u8)
    requires
        sketch_wf(*old(img)),
        y < sketch_rows(*old(img)).len(),
        x < sketch_width(*old(img)),
    ensures
        sketch_wf(*final(img)),
        sketch_width(*final(img)) == sketch_width(*old(img)),
        sketch_rows(*final(img)) == sketch_rows(*old(img)).update(
            y as int,
            sketch_rows(*old(img))[y as int].update(x as int, grey),
        ),
{
    img.img.put_pixel(x, y, image::Luma([grey]))
}

/// Calls `image::ImageBuffer::get_pixel`, which gives the pixel at column
/// `x` of row `y` and panics outside the image.
#[verifier::external_body]
pub(crate) fn sketch_get(img: &Sketch, x: u32, y: u32) -> (grey: u8)
    requires
        sketch_wf(*img),
        y < sketch_rows(*img).len(),
        x < sketch_width(*img),
    ensures
        grey == sketch_rows(*img)[y as int][x as int],
{
    img.img.get_pixel(x, y).0[0]
}

/// Calls `image::ImageBuffer::dimensions`, which gives the width and the
/// height of the image.  The contract claims as well what holds of every
/// image: each of its rows is as long as the image is wide, and its samples
/// are no more than a vector can hold.
#[verifier::external_body]
pub(crate) fn sketch_dimensions(img: &Sketch) -> (size: (u32, u32))
    ensures
        size.0 == sketch_width(*img),
        size.1 == sketch_rows(*img).len(),
        forall|j: int| 0 <= j < size.1 ==> (#[trigger] sketch_rows(*img)[j]).len() == size.0,
        size.0 * size.1 <= usize::MAX,
{
    img.img.dimensions()
}

/// The grey value at column `x` of row `y`, and zero outside the image.
pub open spec fn grey_at(img: Sketch, x: int, y: int) -> int {
    if 0 <= y < sketch_rows(img).len() && 0 <= x < sketch_width(img) {
        sketch_rows(img)[y][x] as int
    } else {
        0
    }
}

/// The change of grey from left to right around a pixel: the difference of
/// the columns next to it, the pixel's own row counted twice.
pub open spec fn gradient_x(img: Sketch, x: int, y: int) -> int {
    (grey_at(img, x + 1, y - 1) - grey_at(img, x - 1, y - 1)) + 2 * (grey_at(img, x + 1, y)
        - grey_at(img, x - 1, y)) + (grey_at(img, x + 1, y + 1) - grey_at(img, x - 1, y + 1))
}

/// The change of grey from top to bottom around a pixel: the difference of
/// the rows next to it, the pixel's own column counted twice.
pub open spec fn gradient_y(img: Sketch, x: int, y: int) -> int {
    (grey_at(img, x - 1, y + 1) - grey_at(img, x - 1, y - 1)) + 2 * (grey_at(img, x, y + 1)
        - grey_at(img, x, y - 1)) + (grey_at(img, x + 1, y + 1) - grey_at(img, x + 1, y - 1))
}

/// Whether `r` is the whole number nearest to the square root of `n`.
pub open spec fn is_nearest_root(n: int, r: int) -> bool {
    0 <= r && n <= r * r + r && (r == 0 || r * r - r < n)
}

/// How strongly an edge is drawn where the square of the gradient's length
/// is `n` and the whole number nearest to that length is `r`: not at all
/// below 60, in full from 214 on, and by `r` in between.
pub open spec fn strength_of(r: int) -> u8 {
    if r < 60 {
        0
    } else if r >= 214 {
        255
    } else {
        r as u8
    }
}

/// The whole number nearest to the square root of `n`.
pub open spec fn nearest_root(n: int) -> int {
    choose|r: int| is_nearest_root(n, r)
}

/// How strongly an edge is drawn at a pixel where the grey changes by `gx`
/// from left to right and by `gy` from top to bottom: by the length of that
/// gradient, rounded to the nearest whole number.
pub open spec fn drawn(gx: int, gy: int) -> u8 {
    strength_of(nearest_root(gx * gx + gy * gy))
}

/// A number has one nearest whole root.
pub proof fn lemma_nearest_root_is_unique(n: int, a: int, b: int)
    requires
        is_nearest_root(n, a),
        is_nearest_root(n, b),
    ensures
        a == b,
{
    if a < b {
        assert(b * b - b >= a * a + a) by (nonlinear_arith)
            requires
                0 <= a,
                a + 1 <= b,
        ;
    }
    if b < a {
        assert(a * a - a >= b * b + b) by (nonlinear_arith)
            requires
                0 <= b,
                b + 1 <= a,
        ;
    }
}

/// What is left of the byte `bg` under an edge drawn with strength `edge`:
/// the share `255 - edge` in 255 of it, cut to a whole number.
pub open spec fn blended(bg: u8, edge: u8) -> u8 {
    (bg * (255 - edge) / 255) as u8
}

/// The whole number nearest to the square root of `n`.
pub fn round_root(n: i32) -> (r: i32)
    requires
        0 <= n,
    ensures
        is_nearest_root(n as int, r as int),
        r <= 46341,
{
    let low = isqrt(n);
    let rest: i64 = (n as i64) - (low as i64) * (low as i64);
    assert(low <= 46340) by (nonlinear_arith)
        requires
            0 <= low,
            low * low <= n,
            n <= 2147483647,
    ;
    assert(low * low <= 46340 * 46340) by (nonlinear_arith)
        requires
            0 <= low <= 46340,
    ;
    if rest > low as i64 {
        assert(is_nearest_root(n as int, low + 1)) by (nonlinear_arith)
            requires
                0 <= low,
                low * low <= n < (low + 1) * (low + 1),
                n - low * low > low,
        ;
        low + 1
    } else {
        assert(is_nearest_root(n as int, low as int)) by (nonlinear_arith)
            requires
                0 <= low,
                low * low <= n < (low + 1) * (low + 1),
                n - low * low <= low,
        ;
        low
    }
}

/// How strongly an edge is drawn at a pixel with the given gradient.
pub fn edge_strength(gx: i32, gy: i32) -> (mag: u8)
    requires
        -1020 <= gx <= 1020,
        -1020 <= gy <= 1020,
    ensures
        mag == drawn(gx as int, gy as int),
{
    assert(0 <= gx * gx <= 1020 * 1020) by (nonlinear_arith)
        requires
            -1020 <= gx <= 1020,
    ;
    assert(0 <= gy * gy <= 1020 * 1020) by (nonlinear_arith)
        requires
            -1020 <= gy <= 1020,
    ;
    let r = round_root(gx * gx + gy * gy);
    proof {
        lemma_nearest_root_is_unique(gx * gx + gy * gy, r as int, nearest_root(gx * gx + gy * gy));
    }
    if r < 60 {
        0
    } else if r >= 214 {
        255
    } else {
        r as u8
    }
}

/// What is left of a byte under an edge.
pub fn blend(bg: u8, edge: u8) -> (b: u8)
    ensures
        b == blended(bg, edge),
        b <= bg,
{
    let share: u32 = 255 - edge as u32;
    assert(bg * share <= 255 * 255) by (nonlinear_arith)
        requires
            bg <= 255,
            share <= 255,
    ;
    let product: u32 = (bg as u32) * share;
    assert(product / 255 <= bg) by (nonlinear_arith)
        requires
            product == bg * share,
            share <= 255,
    ;
    (product / 255) as u8
}

impl Sketch {
    /// The width and the height of the image in pixels.
    pub fn dimensions(&self) -> (size: (u32, u32))
        ensures
            size.0 == sketch_width(*self),
            size.1 == sketch_rows(*self).len(),
            sketch_wf(*self),
            size.0 * size.1 <= usize::MAX,
    {
        sketch_dimensions(self)
    }

    /// The grey value at column `x` of row `y`, or nothing outside the
    /// image.
    pub fn pixel(&self, x: u32, y: u32) -> (grey: Option<u8>)
        ensures
            grey is Some <==> x < sketch_width(*self) && y < sketch_rows(*self).len(),
            grey matches Some(g) ==> g == sketch_rows(*self)[y as int][x as int],
    {
        let (width, height) = sketch_dimensions(self);
        if x < width && y < height {
            Some(sketch_get(self, x, y))
        } else {
            None
        }
    }

    /// The grey value at column `x` of row `y`, and zero outside the image.
    pub fn grey(&self, x: i64, y: i64) -> (g: i32)
        ensures
            g == grey_at(*self, x as int, y as int),
            0 <= g <= 255,
    {
        let (width, height) = sketch_dimensions(self);
        if 0 <= x && x < width as i64 && 0 <= y && y < height as i64 {
            sketch_get(self, x as u32, y as u32) as i32
        } else {
            0
        }
    }

    /// The grey image of the given size whose values are `bytes`, row by
    /// row from the top; none where their number does not fit the size.
    pub fn from_bytes(width: u32, height: u32, bytes: &Vec<u8>) -> (img: Option<Sketch>)
        ensures
            img is Some <==> bytes.len() == width * height,
            img matches Some(picture) ==> {
                &&& sketch_wf(picture)
                &&& sketch_width(picture) == width
                &&& sketch_rows(picture).len() == height
                &&& forall|j: int, i: int|
                    0 <= j < height && 0 <= i < width ==> #[trigger] sketch_rows(picture)[j][i]
                        == bytes[j * width + i]
            },
    {
        assert(width * height <= 0xffff_ffff * 0xffff_ffff) by (nonlinear_arith)
            requires
                width <= 0xffff_ffff,
                height <= 0xffff_ffff,
        ;
        let area: u64 = (width as u64) * (height as u64);
        if bytes.len() as u64 != area {
            return None;
        }
        let mut picture = sketch_new(width, height);
        let mut j: u32 = 0;
        while j < height
            invariant
                j <= height,
                bytes.len() == width * height,
                sketch_wf(picture),
                sketch_width(picture) == width,
                sketch_rows(picture).len() == height,
                forall|k: int, i: int|
                    0 <= k < j && 0 <= i < width ==> #[trigger] sketch_rows(picture)[k][i] == bytes[k
                        * width + i],
            decreases height - j,
        {
            let mut i: u32 = 0;
            while i < width
                invariant
                    i <= width,
                    j < height,
                    bytes.len() == width * height,
                    sketch_wf(picture),
                    sketch_width(picture) == width,
                    sketch_rows(picture).len() == height,
                    forall|k: int, c: int|
                        0 <= k < j && 0 <= c < width ==> #[trigger] sketch_rows(picture)[k][c]
                            == bytes[k * width + c],
                    forall|c: int|
                        0 <= c < i ==> #[trigger] sketch_rows(picture)[j as int][c] == bytes[j
                            * width + c],
                decreases width - i,
            {
                assert(j * width + i < width * height) by (nonlinear_arith)
                    requires
                        0 <= i < width,
                        0 <= j < height,
                ;
                let at: usize = (j as usize) * (width as usize) + (i as usize);
                sketch_put(&mut picture, i, j, bytes[at]);
                i = i + 1;
            }
            j = j + 1;
        }
        Some(picture)
    }
}

impl Sketch {
    /// The grey values of the image, row by row from the top.
    pub fn to_bytes(&self) -> (bytes: Vec<u8>)
        ensures
            bytes.len() == sketch_width(*self) * sketch_rows(*self).len(),
            forall|j: int, i: int|
                0 <= j < sketch_rows(*self).len() && 0 <= i < sketch_width(*self) ==> listed(
                    bytes@,
                    sketch_width(*self) as int,
                    j,
                    i,
                    #[trigger] sketch_rows(*self)[j][i],
                ),
    {
        let (width, height) = sketch_dimensions(self);
        let mut bytes: Vec<u8> = Vec::new();
        let mut j: u32 = 0;
        while j < height
            invariant
                j <= height,
                width == sketch_width(*self),
                height == sketch_rows(*self).len(),
                sketch_wf(*self),
                bytes.len() == width * j,
                forall|k: int, i: int|
                    0 <= k < j && 0 <= i < width ==> listed(
                        bytes@,
                        width as int,
                        k,
                        i,
                        #[trigger] sketch_rows(*self)[k][i],
                    ),
            decreases height - j,
        {
            let mut i: u32 = 0;
            while i < width
                invariant
                    i <= width,
                    j < height,
                    width == sketch_width(*self),
                    height == sketch_rows(*self).len(),
                    sketch_wf(*self),
                    bytes.len() == width * j + i,
                    forall|k: int, c: int|
                        0 <= k < j && 0 <= c < width ==> listed(
                            bytes@,
                            width as int,
                            k,
                            c,
                            #[trigger] sketch_rows(*self)[k][c],
                        ),
                    forall|c: int|
                        0 <= c < i ==> listed(
                            bytes@,
                            width as int,
                            j as int,
                            c,
                            #[trigger] sketch_rows(*self)[j as int][c],
                        ),
                decreases width - i,
            {
                let g = sketch_get(self, i, j);
                proof {
                    assert(j * width == width * j) by (nonlinear_arith);
                }
                bytes.push(g);
                i = i + 1;
            }
            proof {
                assert(width * j + width == width * (j + 1)) by (nonlinear_arith);
            }
            j = j + 1;
        }
        bytes
    }
}

/// Whether the grey value `g` stands in `bytes` at the place of column `i`
/// of row `j`, for an image `width` pixels wide stored row by row.
pub open spec fn listed(bytes: Seq<u8>, width: int, j: int, i: int, g: u8) -> bool {
    let at = j * width + i;
    0 <= at < bytes.len() && bytes[at] == g
}

/// The edges of a grey image, as an image of the same size: each pixel
/// holds the strength of the edge there, found from the gradient of the
/// grey values around it.  Beyond its border the image counts as black.
pub fn edge_detecting(gray: &Sketch) -> (out: Sketch)
    ensures
        sketch_wf(out),
        sketch_width(out) == sketch_width(*gray),
        sketch_rows(out).len() == sketch_rows(*gray).len(),
        forall|y: int, x: int|
            0 <= y < sketch_rows(out).len() && 0 <= x < sketch_width(out) ==> #[trigger] sketch_rows(
                out,
            )[y][x] == drawn(gradient_x(*gray, x, y), gradient_y(*gray, x, y)),
{
    let (width, height) = gray.dimensions();
    let mut out = sketch_new(width, height);
    let mut y: u32 = 0;
    while y < height
        invariant
            y <= height,
            width == sketch_width(*gray),
            height == sketch_rows(*gray).len(),
            sketch_wf(*gray),
            sketch_wf(out),
            sketch_width(out) == width,
            sketch_rows(out).len() == height,
            forall|k: int, c: int|
                0 <= k < y && 0 <= c < width ==> #[trigger] sketch_rows(out)[k][c] == drawn(
                    gradient_x(*gray, c, k),
                    gradient_y(*gray, c, k),
                ),
        decreases height - y,
    {
        let mut x: u32 = 0;
        while x < width
            invariant
                x <= width,
                y < height,
                width == sketch_width(*gray),
                height == sketch_rows(*gray).len(),
                sketch_wf(*gray),
                sketch_wf(out),
                sketch_width(out) == width,
                sketch_rows(out).len() == height,
                forall|k: int, c: int|
                    0 <= k < y && 0 <= c < width ==> #[trigger] sketch_rows(out)[k][c] == drawn(
                        gradient_x(*gray, c, k),
                        gradient_y(*gray, c, k),
                    ),
                forall|c: int|
                    0 <= c < x ==> #[trigger] sketch_rows(out)[y as int][c] == drawn(
                        gradient_x(*gray, c, y as int),
                        gradient_y(*gray, c, y as int),
                    ),
            decreases width - x,
        {
            let cx = x as i64;
            let cy = y as i64;
            let gx: i32 = (gray.grey(cx + 1, cy - 1) - gray.grey(cx - 1, cy - 1)) + 2 * (gray.grey(
                cx + 1,
                cy,
            ) - gray.grey(cx - 1, cy)) + (gray.grey(cx + 1, cy + 1) - gray.grey(cx - 1, cy + 1));
            let gy: i32 = (gray.grey(cx - 1, cy + 1) - gray.grey(cx - 1, cy - 1)) + 2 * (gray.grey(
                cx,
                cy + 1,
            ) - gray.grey(cx, cy - 1)) + (gray.grey(cx + 1, cy + 1) - gray.grey(cx + 1, cy - 1));
            let mag = edge_strength(gx, gy);
            sketch_put(&mut out, x, y, mag);
            x = x + 1;
        }
        y = y + 1;
    }
    out
}

/// The image with its edges drawn in: every byte keeps the less of itself
/// the stronger the edge at its pixel is.  There is no such image where the
/// sketch and the image differ in size.
pub fn combination(img: &Raster, edge: &Sketch) -> (combined: Option<Raster>)
    ensures
        combined is Some <==> raster_width(*img) == sketch_width(*edge) && raster_rows(*img).len()
            == sketch_rows(*edge).len(),
        combined matches Some(out) ==> {
            &&& raster_wf(out)
            &&& raster_width(out) == raster_width(*img)
            &&& raster_rows(out).len() == raster_rows(*img).len()
            &&& forall|y: int, x: int|
                0 <= y < raster_rows(out).len() && 0 <= x < raster_width(out) ==> (
                #[trigger] raster_rows(out)[y][x]) == (
                    blended(raster_rows(*img)[y][x].0, sketch_rows(*edge)[y][x]),
                    blended(raster_rows(*img)[y][x].1, sketch_rows(*edge)[y][x]),
                    blended(raster_rows(*img)[y][x].2, sketch_rows(*edge)[y][x]),
                )
        },
{
    let (width, height) = img.dimensions();
    let (edge_width, edge_height) = edge.dimensions();
    if width != edge_width || height != edge_height {
        return None;
    }
    let mut rows: Vec<Vec<(u8, u8, u8)>> = Vec::new();
    let mut y: u32 = 0;
    while y < height
        invariant
            y <= height,
            width == raster_width(*img),
            height == raster_rows(*img).len(),
            width == sketch_width(*edge),
            height == sketch_rows(*edge).len(),
            raster_wf(*img),
            sketch_wf(*edge),
            rows.len() == y,
            forall|k: int| 0 <= k < y ==> (#[trigger] rows[k]).len() == width,
            forall|k: int, c: int|
                0 <= k < y && 0 <= c < width ==> (#[trigger] rows[k][c]) == (
                    blended(raster_rows(*img)[k][c].0, sketch_rows(*edge)[k][c]),
                    blended(raster_rows(*img)[k][c].1, sketch_rows(*edge)[k][c]),
                    blended(raster_rows(*img)[k][c].2, sketch_rows(*edge)[k][c]),
                ),
        decreases height - y,
    {
        let mut row: Vec<(u8, u8, u8)> = Vec::new();
        let mut x: u32 = 0;
        while x < width
            invariant
                x <= width,
                y < height,
                width == raster_width(*img),
                height == raster_rows(*img).len(),
                width == sketch_width(*edge),
                height == sketch_rows(*edge).len(),
                raster_wf(*img),
                sketch_wf(*edge),
                row.len() == x,
                forall|c: int|
                    0 <= c < x ==> (#[trigger] row[c]) == (
                        blended(raster_rows(*img)[y as int][c].0, sketch_rows(*edge)[y as int][c]),
                        blended(raster_rows(*img)[y as int][c].1, sketch_rows(*edge)[y as int][c]),
                        blended(raster_rows(*img)[y as int][c].2, sketch_rows(*edge)[y as int][c]),
                    ),
            decreases width - x,
        {
            let bg = crate::render::raster_get(img, x, y);
            let e = sketch_get(edge, x, y);
            row.push((blend(bg.0, e), blend(bg.1, e), blend(bg.2, e)));
            x = x + 1;
        }
        rows.push(row);
        y = y + 1;
    }
    Raster::from_rows(width, height, &rows)
}

} // verus!
