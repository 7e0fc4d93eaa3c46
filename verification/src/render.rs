//! The assembly of the frame.
//!
//! The rows of an image do not depend on one another, so they may be worked
//! out in any order and side by side.  `row_range` deals the rows out to the
//! workers, a `Frame` takes the rows as they come and gives the image once
//! it has them all, and a `Raster` is the image itself.

use crate::color::put_color;
use crate::texture::Color;
use vstd::prelude::*;

verus! {

/// An image of three bytes a pixel, kept in an `image::RgbImage`.  Nothing
/// inside it is open to proof: what it holds is named by `raster_rows` and
/// `raster_width`, and those are told of only by the four functions below
/// that call into the `image` crate.
#[verifier::external_body]
pub struct Raster {
    img: image::RgbImage,
}

/// The pixels of an image, row by row from the top, each row from the left.
pub uninterp spec fn raster_rows(img: Raster) -> Seq<Seq<(u8, u8, u8)>>;

/// The width of an image in pixels.
pub uninterp spec fn raster_width(img: Raster) -> nat;

/// Whether every row of the image is as long as the image is wide.
pub open spec fn raster_wf(img: Raster) -> bool {
    forall|j: int|
        0 <= j < raster_rows(img).len() ==> (#[trigger] raster_rows(img)[j]).len() == raster_width(
            img,
        )
}

/// Calls `image::ImageBuffer::new`, which makes an image of the given size
/// with every sample zero and panics where the number of samples does not
/// fit a `usize`.  The contract claims the size and that every pixel is
/// black.
#[verifier::external_body]
pub(crate) fn raster_new(width: u32, height: u32) -> (img: Raster)
    requires
        3 * width * height <= usize::MAX,
    ensures
        raster_wf(img),
        raster_width(img) == width,
        raster_rows(img).len() == height,
        forall|j: int, i: int|
            0 <= j < height && 0 <= i < width ==> (#[trigger] raster_rows(img)[j][i]) == (
                0u8,
                0u8,
                0u8,
            ),
{
    Raster { img: image::RgbImage::new(width, height) }
}

/// Calls `image::ImageBuffer::put_pixel`, which stores a pixel at column `x`
/// of row `y` and panics outside the image.  The contract claims that this
/// one pixel changes and nothing else does.
#[verifier::external_body]
pub(crate) fn raster_put(img: &mut Raster, x: u32, y: u32, rgb: (u8, u8, u8))
    requires
        raster_wf(*old(img)),
        y < raster_rows(*old(img)).len(),
        x < raster_width(*old(img)),
    ensures
        raster_wf(*final(img)),
        raster_width(*final(img)) == raster_width(*old(img)),
        raster_rows(*final(img)) == raster_rows(*old(img)).update(
            y as int,
            raster_rows(*old(img))[y as int].update(x as int, rgb),
        ),
{
    img.img.put_pixel(x, y, image::Rgb([rgb.0, rgb.1, rgb.2]))
}

/// Calls `image::ImageBuffer::get_pixel`, which gives the pixel at column
/// `x` of row `y` and panics outside the image.
#[verifier::external_body]
pub(crate) fn raster_get(img: &Raster, x: u32, y: u32) -> (rgb: (u8, u8, u8))
    requires
        raster_wf(*img),
        y < raster_rows(*img).len(),
        x < raster_width(*img),
    ensures
        rgb == raster_rows(*img)[y as int][x as int],
{
    let p = img.img.get_pixel(x, y);
    (p.0[0], p.0[1], p.0[2])
}

/// Calls `image::ImageBuffer::dimensions`, which gives the width and the
/// height of the image.  The contract claims as well what holds of every
/// image: each of its rows is as long as the image is wide, and its samples,
/// three a pixel, are no more than a vector can hold.
#[verifier::external_body]
pub(crate) fn raster_dimensions(img: &Raster) -> (size: (u32, u32))
    ensures
        size.0 == raster_width(*img),
        size.1 == raster_rows(*img).len(),
        forall|j: int| 0 <= j < size.1 ==> (#[trigger] raster_rows(*img)[j]).len() == size.0,
        3 * size.0 * size.1 <= usize::MAX,
{
    img.img.dimensions()
}

/// Whether the three bytes of pixel `p` stand in `bytes` at the place of
/// column `i` of row `j`, for an image `width` pixels wide stored row by
/// row, three bytes a pixel.
pub open spec fn held(bytes: Seq<u8>, width: int, j: int, i: int, p: (u8, u8, u8)) -> bool {
    let at = 3 * (j * width + i);
    &&& 0 <= at
    &&& at + 2 < bytes.len()
    &&& bytes[at] == p.0
    &&& bytes[at + 1] == p.1
    &&& bytes[at + 2] == p.2
}

impl Raster {
    /// The width and the height of the image in pixels.
    pub fn dimensions(&self) -> (size: (u32, u32))
        ensures
            size.0 == raster_width(*self),
            size.1 == raster_rows(*self).len(),
            raster_wf(*self),
            3 * size.0 * size.1 <= usize::MAX,
    {
        raster_dimensions(self)
    }

    /// The pixel at column `x` of row `y`, or nothing outside the image.
    pub fn pixel(&self, x: u32, y: u32) -> (rgb: Option<(u8, u8, u8)>)
        ensures
            rgb is Some <==> x < raster_width(*self) && y < raster_rows(*self).len(),
            rgb matches Some(p) ==> p == raster_rows(*self)[y as int][x as int],
    {
        let (width, height) = raster_dimensions(self);
        if x < width && y < height {
            Some(raster_get(self, x, y))
        } else {
            None
        }
    }

    /// The image of the given size whose samples are `bytes`: three bytes a
    /// pixel, row by row from the top.  There is none where the number of
    /// bytes does not fit the size.
    pub fn from_bytes(width: u32, height: u32, bytes: &Vec<u8>) -> (img: Option<Raster>)
        ensures
            img is Some <==> bytes.len() == 3 * width * height,
            img matches Some(picture) ==> {
                &&& raster_wf(picture)
                &&& raster_width(picture) == width
                &&& raster_rows(picture).len() == height
                &&& forall|j: int, i: int|
                    0 <= j < height && 0 <= i < width ==> held(bytes@, width as int, j, i, #[trigger] raster_rows(picture)[j][i])
            },
    {
        assert(width * height <= 0xffff_ffff * 0xffff_ffff) by (nonlinear_arith)
            requires
                width <= 0xffff_ffff,
                height <= 0xffff_ffff,
        ;
        let area: u64 = (width as u64) * (height as u64);
        let samples: u128 = 3u128 * (area as u128);
        assert(samples == 3 * width * height) by (nonlinear_arith)
            requires
                samples == 3 * area,
                area == width * height,
        ;
        if bytes.len() as u128 != samples {
            return None;
        }
        let mut picture = raster_new(width, height);
        let mut j: u32 = 0;
        while j < height
            invariant
                j <= height,
                bytes.len() == 3 * width * height,
                raster_wf(picture),
                raster_width(picture) == width,
                raster_rows(picture).len() == height,
                forall|k: int, i: int|
                    0 <= k < j && 0 <= i < width ==> held(bytes@, width as int, k, i, #[trigger] raster_rows(picture)[k][i]),
            decreases height - j,
        {
            let mut i: u32 = 0;
            while i < width
                invariant
                    i <= width,
                    j < height,
                    bytes.len() == 3 * width * height,
                    raster_wf(picture),
                    raster_width(picture) == width,
                    raster_rows(picture).len() == height,
                    forall|k: int, c: int|
                        0 <= k < j && 0 <= c < width ==> held(bytes@, width as int, k, c, #[trigger] raster_rows(picture)[k][c]),
                    forall|c: int|
                        0 <= c < i ==> held(bytes@, width as int, j as int, c, #[trigger] raster_rows(picture)[j as int][c]),
                decreases width - i,
            {
                assert(3 * (j * width + i) + 2 < 3 * width * height) by (nonlinear_arith)
                    requires
                        0 <= i < width,
                        0 <= j < height,
                ;
                let at: usize = 3 * ((j as usize) * (width as usize) + (i as usize));
                raster_put(&mut picture, i, j, (bytes[at], bytes[at + 1], bytes[at + 2]));
                i = i + 1;
            }
            j = j + 1;
        }
        Some(picture)
    }

    /// The image with the given rows; none where there are not `height`
    /// rows of `width` pixels each, or where the image is too large to be
    /// stored.
    pub fn from_rows(width: u32, height: u32, rows: &Vec<Vec<(u8, u8, u8)>>) -> (img: Option<Raster>)
        ensures
            img is Some <==> rows.len() == height && (forall|j: int|
                0 <= j < rows.len() ==> (#[trigger] rows[j]).len() == width) && 3 * width * height
                <= usize::MAX,
            img matches Some(picture) ==> {
                &&& raster_wf(picture)
                &&& raster_width(picture) == width
                &&& raster_rows(picture).len() == height
                &&& forall|j: int| 0 <= j < height ==> #[trigger] raster_rows(picture)[j] == rows[j]@
            },
    {
        if rows.len() != height as usize {
            return None;
        }
        let mut k: usize = 0;
        while k < rows.len()
            invariant
                k <= rows.len(),
                forall|j: int| 0 <= j < k ==> (#[trigger] rows[j]).len() == width,
            decreases rows.len() - k,
        {
            if rows[k].len() != width as usize {
                return None;
            }
            k = k + 1;
        }
        assert(width * height <= 0xffff_ffff * 0xffff_ffff) by (nonlinear_arith)
            requires
                width <= 0xffff_ffff,
                height <= 0xffff_ffff,
        ;
        let area: u64 = (width as u64) * (height as u64);
        let samples: u128 = 3u128 * (area as u128);
        assert(samples == 3 * width * height) by (nonlinear_arith)
            requires
                samples == 3 * area,
                area == width * height,
        ;
        if samples > usize::MAX as u128 {
            return None;
        }
        let mut picture = raster_new(width, height);
        let mut j: u32 = 0;
        while j < height
            invariant
                j <= height,
                rows.len() == height,
                forall|r: int| 0 <= r < rows.len() ==> (#[trigger] rows[r]).len() == width,
                raster_wf(picture),
                raster_width(picture) == width,
                raster_rows(picture).len() == height,
                forall|r: int| 0 <= r < j ==> #[trigger] raster_rows(picture)[r] == rows[r]@,
            decreases height - j,
        {
            let row = &rows[j as usize];
            let mut i: u32 = 0;
            while i < width
                invariant
                    i <= width,
                    j < height,
                    rows.len() == height,
                    *row == rows[j as int],
                    row.len() == width,
                    raster_wf(picture),
                    raster_width(picture) == width,
                    raster_rows(picture).len() == height,
                    forall|r: int| 0 <= r < j ==> #[trigger] raster_rows(picture)[r] == rows[r]@,
                    forall|c: int|
                        0 <= c < i ==> #[trigger] raster_rows(picture)[j as int][c] == row@[c],
                decreases width - i,
            {
                raster_put(&mut picture, i, j, row[i as usize]);
                i = i + 1;
            }
            assert(raster_rows(picture)[j as int] =~= row@);
            j = j + 1;
        }
        Some(picture)
    }

    /// The samples of the image: three bytes a pixel, row by row from the
    /// top.
    pub fn to_bytes(&self) -> (bytes: Vec<u8>)
        ensures
            bytes.len() == 3 * raster_width(*self) * raster_rows(*self).len(),
            forall|j: int, i: int|
                0 <= j < raster_rows(*self).len() && 0 <= i < raster_width(*self) ==> held(
                    bytes@,
                    raster_width(*self) as int,
                    j,
                    i,
                    #[trigger] raster_rows(*self)[j][i],
                ),
    {
        let (width, height) = raster_dimensions(self);
        let mut bytes: Vec<u8> = Vec::new();
        let mut j: u32 = 0;
        while j < height
            invariant
                j <= height,
                width == raster_width(*self),
                height == raster_rows(*self).len(),
                raster_wf(*self),
                bytes.len() == 3 * (width * j),
                forall|k: int, i: int|
                    0 <= k < j && 0 <= i < width ==> held(bytes@, width as int, k, i, #[trigger] raster_rows(*self)[k][i]),
            decreases height - j,
        {
            let mut i: u32 = 0;
            while i < width
                invariant
                    i <= width,
                    j < height,
                    width == raster_width(*self),
                    height == raster_rows(*self).len(),
                    raster_wf(*self),
                    bytes.len() == 3 * (width * j + i),
                    forall|k: int, c: int|
                        0 <= k < j && 0 <= c < width ==> held(bytes@, width as int, k, c, #[trigger] raster_rows(*self)[k][c]),
                    forall|c: int|
                        0 <= c < i ==> held(bytes@, width as int, j as int, c, #[trigger] raster_rows(*self)[j as int][c]),
                decreases width - i,
            {
                let p = raster_get(self, i, j);
                proof {
                    assert(j * width == width * j) by (nonlinear_arith);
                }
                bytes.push(p.0);
                bytes.push(p.1);
                bytes.push(p.2);
                i = i + 1;
            }
            proof {
                assert(3 * (width * j + width) == 3 * (width * (j + 1))) by (nonlinear_arith);
            }
            j = j + 1;
        }
        proof {
            assert(3 * (width * height) == 3 * width * height) by (nonlinear_arith);
        }
        bytes
    }
}

/// One row of an image: a pixel is three bytes.
pub type Row = Vec<(u8, u8, u8)>;

/// An image in the making: its size and the rows that have come in.
pub struct Frame {
    pub width: u32,
    pub height: u32,
    pub rows: Vec<Option<Row>>,
    pub missing: usize,
}

/// How many of the first `n` rows have not come in.
pub open spec fn gaps(rows: Seq<Option<Row>>, n: int) -> int
    decreases n,
{
    if n <= 0 {
        0
    } else {
        gaps(rows, n - 1) + if rows[n - 1] is None {
            1int
        } else {
            0int
        }
    }
}

/// The count of gaps grows with the rows counted and stays within their
/// number.
pub proof fn lemma_gaps_bounds(rows: Seq<Option<Row>>, n: int)
    requires
        0 <= n <= rows.len(),
    ensures
        0 <= gaps(rows, n) <= n,
        gaps(rows, n) == 0 <==> forall|j: int| 0 <= j < n ==> (#[trigger] rows[j]) is Some,
    decreases n,
{
    if n > 0 {
        lemma_gaps_bounds(rows, n - 1);
        if gaps(rows, n) == 0 {
            assert forall|j: int| 0 <= j < n implies (#[trigger] rows[j]) is Some by {
                if j < n - 1 {
                } else {
                    assert(rows[n - 1] is Some);
                }
            }
        }
    }
}

/// Filling one gap takes one from the count.
pub proof fn lemma_gaps_fill(rows: Seq<Option<Row>>, j: int, row: Row, n: int)
    requires
        0 <= j < rows.len(),
        0 <= n <= rows.len(),
        rows[j] is None,
    ensures
        gaps(rows.update(j, Some(row)), n) == gaps(rows, n) - if j < n {
            1int
        } else {
            0int
        },
    decreases n,
{
    if n > 0 {
        lemma_gaps_fill(rows, j, row, n - 1);
    }
}

impl Frame {
    /// Whether the frame is in order: it has a slot for every row, every
    /// row that has come in is as long as the image is wide, and `missing`
    /// counts the rows that have not come in.
    pub open spec fn wf(self) -> bool {
        &&& self.rows.len() == self.height
        &&& self.missing == gaps(self.rows@, self.height as int)
        &&& forall|j: int|
            0 <= j < self.rows.len() ==> ((#[trigger] self.rows[j]) matches Some(r) ==> r.len()
                == self.width)
    }

    /// The frame of an image of the given size, with no row in yet.
    pub fn new(width: u32, height: u32) -> (f: Frame)
        ensures
            f.wf(),
            f.width == width,
            f.height == height,
            f.missing == height,
            forall|j: int| 0 <= j < height ==> (#[trigger] f.rows[j]) is None,
    {
        let mut rows: Vec<Option<Row>> = Vec::new();
        let mut j: u32 = 0;
        while j < height
            invariant
                j <= height,
                rows.len() == j,
                forall|k: int| 0 <= k < j ==> (#[trigger] rows[k]) is None,
                gaps(rows@, j as int) == j,
            decreases height - j,
        {
            let ghost before = rows@;
            rows.push(None);
            proof {
                lemma_gaps_prefix(before, rows@, j as int);
            }
            j = j + 1;
        }
        Frame { width, height, rows, missing: height as usize }
    }

    /// Takes row `j` of the image.  The row is taken, and the answer is
    /// true, where the image has such a row, the row has not come in before
    /// and it is as long as the image is wide; else the frame stays as it
    /// is.
    pub fn store(&mut self, j: u32, row: Row) -> (taken: bool)
        requires
            old(self).wf(),
        ensures
            final(self).wf(),
            final(self).width == old(self).width,
            final(self).height == old(self).height,
            taken == (j < old(self).height && old(self).rows[j as int] is None && row.len()
                == old(self).width),
            taken ==> final(self).rows@ == old(self).rows@.update(j as int, Some(row))
                && final(self).missing == old(self).missing - 1,
            !taken ==> final(self).rows@ == old(self).rows@ && final(self).missing == old(
                self,
            ).missing,
    {
        if j >= self.height {
            return false;
        }
        if row.len() != self.width as usize {
            return false;
        }
        if self.rows[j as usize].is_some() {
            return false;
        }
        proof {
            lemma_gaps_fill(self.rows@, j as int, row, self.height as int);
            lemma_gaps_bounds(self.rows@, self.height as int);
        }
        self.rows.set(j as usize, Some(row));
        self.missing = self.missing - 1;
        true
    }

    /// Whether every row has come in.
    pub fn is_complete(&self) -> (done: bool)
        requires
            self.wf(),
        ensures
            done == (forall|j: int| 0 <= j < self.height ==> (#[trigger] self.rows[j]) is Some),
    {
        proof {
            lemma_gaps_bounds(self.rows@, self.height as int);
        }
        self.missing == 0
    }

    /// The finished image, once every row has come in; nothing before that,
    /// and nothing for an image too large to be stored.
    pub fn finish(&self) -> (img: Option<Raster>)
        requires
            self.wf(),
        ensures
            img is Some <==> (forall|j: int|
                0 <= j < self.height ==> (#[trigger] self.rows[j]) is Some) && 3 * self.width
                * self.height <= usize::MAX,
            img matches Some(picture) ==> {
                &&& raster_wf(picture)
                &&& raster_width(picture) == self.width
                &&& raster_rows(picture).len() == self.height
                &&& forall|j: int|
                    0 <= j < self.height ==> #[trigger] raster_rows(picture)[j] == self.rows[j]->0@
            },
    {
        if !self.is_complete() {
            return None;
        }
        assert(self.width * self.height <= 0xffff_ffff * 0xffff_ffff) by (nonlinear_arith)
            requires
                self.width <= 0xffff_ffff,
                self.height <= 0xffff_ffff,
        ;
        let area: u64 = (self.width as u64) * (self.height as u64);
        let samples: u128 = 3u128 * (area as u128);
        assert(samples == 3 * self.width * self.height) by (nonlinear_arith)
            requires
                samples == 3 * area,
                area == self.width * self.height,
        ;
        if samples > usize::MAX as u128 {
            return None;
        }
        let mut picture = raster_new(self.width, self.height);
        let mut j: u32 = 0;
        while j < self.height
            invariant
                j <= self.height,
                self.wf(),
                forall|k: int| 0 <= k < self.height ==> (#[trigger] self.rows[k]) is Some,
                raster_wf(picture),
                raster_width(picture) == self.width,
                raster_rows(picture).len() == self.height,
                forall|k: int| 0 <= k < j ==> #[trigger] raster_rows(picture)[k] == self.rows[k]->0@,
            decreases self.height - j,
        {
            let row = match &self.rows[j as usize] {
                Some(r) => r,
                None => {
                    return None;
                },
            };
            let mut i: u32 = 0;
            while i < self.width
                invariant
                    i <= self.width,
                    j < self.height,
                    self.wf(),
                    *row == self.rows[j as int]->0,
                    row.len() == self.width,
                    raster_wf(picture),
                    raster_width(picture) == self.width,
                    raster_rows(picture).len() == self.height,
                    forall|k: int|
                        0 <= k < j ==> #[trigger] raster_rows(picture)[k] == self.rows[k]->0@,
                    forall|c: int|
                        0 <= c < i ==> #[trigger] raster_rows(picture)[j as int][c] == row@[c],
                decreases self.width - i,
            {
                raster_put(&mut picture, i, j, row[i as usize]);
                i = i + 1;
            }
            assert(raster_rows(picture)[j as int] =~= row@);
            j = j + 1;
        }
        Some(picture)
    }
}

/// The count of gaps in a prefix does not depend on what follows.
pub proof fn lemma_gaps_prefix(a: Seq<Option<Row>>, b: Seq<Option<Row>>, n: int)
    requires
        0 <= n <= a.len(),
        n <= b.len(),
        forall|j: int| 0 <= j < n ==> a[j] == b[j],
    ensures
        gaps(a, n) == gaps(b, n),
    decreases n,
{
    if n > 0 {
        lemma_gaps_prefix(a, b, n - 1);
    }
}

/// Where the rows of worker `worker` start, when `height` rows are dealt
/// out to `workers` workers in runs of nearly even length.
pub open spec fn share_start(worker: int, workers: int, height: int) -> int {
    worker * height / workers
}

/// The rows that worker `worker` of `workers` renders of an image with
/// `height` rows: a run from the first of the two numbers up to the second.
/// The runs of the workers follow one another without gap or overlap, from
/// the first row to the last.
pub fn row_range(worker: u32, workers: u32, height: u32) -> (rows: (u32, u32))
    requires
        worker < workers,
    ensures
        rows.0 == share_start(worker as int, workers as int, height as int),
        rows.1 == share_start(worker + 1, workers as int, height as int),
        rows.0 <= rows.1 <= height,
        worker == 0 ==> rows.0 == 0,
        worker == workers - 1 ==> rows.1 == height,
{
    let w = worker as u64;
    let n = workers as u64;
    let h = height as u64;
    assert(w * h <= 0xffff_ffff * 0xffff_ffff && (w + 1) * h <= 0xffff_ffff * 0xffff_ffff) by (nonlinear_arith)
        requires
            0 <= w < n <= 0xffff_ffff,
            0 <= h <= 0xffff_ffff,
    ;
    let start = w * h / n;
    let end = (w + 1) * h / n;
    proof {
        lemma_shares(worker as int, workers as int, height as int);
    }
    (start as u32, end as u32)
}

/// The shares of the workers are runs in order that start at the first row
/// and end after the last.
pub proof fn lemma_shares(worker: int, workers: int, height: int)
    requires
        0 <= worker < workers,
        0 <= height,
    ensures
        0 <= share_start(worker, workers, height) <= share_start(worker + 1, workers, height)
            <= height,
        share_start(0, workers, height) == 0,
        share_start(workers, workers, height) == height,
{
    assert(0 <= worker * height <= (worker + 1) * height <= workers * height) by (nonlinear_arith)
        requires
            0 <= worker < workers,
            0 <= height,
    ;
    vstd::arithmetic::div_mod::lemma_div_is_ordered(worker * height, (worker + 1) * height, workers);
    vstd::arithmetic::div_mod::lemma_div_is_ordered(
        (worker + 1) * height,
        workers * height,
        workers,
    );
    vstd::arithmetic::div_mod::lemma_div_multiples_vanish(height, workers);
    vstd::arithmetic::div_mod::lemma_div_pos_is_pos(worker * height, workers);
    assert(workers * height == height * workers) by (nonlinear_arith);
    assert(0 * height == 0);
}

/// Every row belongs to the share of one worker and of no other.
pub proof fn lemma_one_owner(row: int, workers: int, height: int) -> (owner: int)
    requires
        0 <= row < height,
        0 < workers,
    ensures
        0 <= owner < workers,
        share_start(owner, workers, height) <= row < share_start(owner + 1, workers, height),
        forall|other: int|
            0 <= other < workers && other != owner ==> !(share_start(other, workers, height)
                <= row < #[trigger] share_start(other + 1, workers, height)),
{
    lemma_shares(workers - 1, workers, height);
    let owner = lemma_owner_below(row, workers, height, workers);
    assert forall|other: int| 0 <= other < workers && other != owner implies !(share_start(
        other,
        workers,
        height,
    ) <= row < #[trigger] share_start(other + 1, workers, height)) by {
        if other < owner {
            lemma_shares_in_order(other + 1, owner, workers, height);
        } else {
            lemma_shares_in_order(owner + 1, other, workers, height);
        }
    }
    owner
}

/// Among the first `limit` workers, the one whose share holds `row`, given
/// that the share after theirs starts beyond the row.
pub proof fn lemma_owner_below(row: int, workers: int, height: int, limit: int) -> (owner: int)
    requires
        0 <= row < height,
        0 < limit <= workers,
        row < share_start(limit, workers, height),
    ensures
        0 <= owner < limit,
        share_start(owner, workers, height) <= row < share_start(owner + 1, workers, height),
    decreases limit,
{
    lemma_shares(limit - 1, workers, height);
    if share_start(limit - 1, workers, height) <= row {
        limit - 1
    } else {
        lemma_owner_below(row, workers, height, limit - 1)
    }
}

/// A later share starts no earlier than an earlier one.
pub proof fn lemma_shares_in_order(a: int, b: int, workers: int, height: int)
    requires
        0 <= a <= b <= workers,
        0 <= height,
        0 < workers,
    ensures
        share_start(a, workers, height) <= share_start(b, workers, height),
{
    assert(a * height <= b * height) by (nonlinear_arith)
        requires
            0 <= a <= b,
            0 <= height,
    ;
    vstd::arithmetic::div_mod::lemma_div_is_ordered(a * height, b * height, workers);
}

/// The bytes of one row of pixels.  `colors` holds the light gathered by
/// each pixel of the row and `roots` the square roots of its channels.
pub fn encode_row(colors: &Vec<Color>, roots: &Vec<Color>) -> (row: Row)
    requires
        colors.len() == roots.len(),
    ensures
        row.len() == colors.len(),
        forall|i: int|
            0 <= i < row.len() ==> {
                &&& (#[trigger] row[i]).0 == crate::color::byte_of(colors[i].e[0], roots[i].e[0])
                &&& row[i].1 == crate::color::byte_of(colors[i].e[1], roots[i].e[1])
                &&& row[i].2 == crate::color::byte_of(colors[i].e[2], roots[i].e[2])
            },
{
    let mut row: Row = Vec::new();
    let mut i: usize = 0;
    while i < colors.len()
        invariant
            i <= colors.len(),
            colors.len() == roots.len(),
            row.len() == i,
            forall|k: int|
                0 <= k < i ==> {
                    &&& (#[trigger] row[k]).0 == crate::color::byte_of(
                        colors[k].e[0],
                        roots[k].e[0],
                    )
                    &&& row[k].1 == crate::color::byte_of(colors[k].e[1], roots[k].e[1])
                    &&& row[k].2 == crate::color::byte_of(colors[k].e[2], roots[k].e[2])
                },
        decreases colors.len() - i,
    {
        let (r, g, b) = put_color(&colors[i], &roots[i]);
        row.push((r as u8, g as u8, b as u8));
        i = i + 1;
    }
    row
}

} // verus!
