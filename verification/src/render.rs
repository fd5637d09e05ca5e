//! The order in which an image is made.

use vstd::prelude::*;

verus! {

/// One piece of the work of rendering an image.
#[derive(Clone, Copy, Debug, PartialEq, Eq, Structural)]
pub enum Work {
    /// Write the image's header.
    Header,
    /// Scanline `j` begins; `remaining` scanlines are left, this one
    /// counted.
    Scanline { j: i32, remaining: i32 },
    /// Trace sample `s` of the pixel in column `i` of scanline `j`, and add
    /// its colour to the pixel's.
    Sample { i: i32, j: i32, s: i32 },
    /// Write the pixel in column `i` of scanline `j`: the mean of its
    /// samples.
    Pixel { i: i32, j: i32 },
    /// Nothing is left to do.
    Done,
}

/// The number of pieces of work for one pixel: its samples, and writing it.
pub open spec fn per_pixel(samples: i32) -> int {
    if samples > 0 {
        samples + 1
    } else {
        1
    }
}

/// The number of pieces of work for one scanline: announcing it, and its
/// pixels.
pub open spec fn per_row(width: i32, samples: i32) -> int {
    if width > 0 {
        1 + width * per_pixel(samples)
    } else {
        1
    }
}

/// Whether a piece of work belongs to an image of this size.
pub open spec fn fits(width: i32, height: i32, samples: i32, work: Work) -> bool {
    match work {
        Work::Header => true,
        Work::Scanline { j, remaining } => 0 <= j < height && remaining == height - j,
        Work::Sample { i, j, s } => 0 <= j < height && 0 <= i < width && 0 <= s < samples,
        Work::Pixel { i, j } => 0 <= j < height && 0 <= i < width,
        Work::Done => true,
    }
}

/// The place of a piece of work in the whole: the header comes first, then
/// the scanlines from the top, within a scanline the pixels from the left,
/// and for a pixel its samples before it is written.
pub open spec fn position(width: i32, height: i32, samples: i32, work: Work) -> int {
    match work {
        Work::Header => 0,
        Work::Scanline { j, remaining } => 1 + j * per_row(width, samples),
        Work::Sample { i, j, s } => 2 + j * per_row(width, samples) + i * per_pixel(samples) + s,
        Work::Pixel { i, j } => 1 + j * per_row(width, samples) + (i + 1) * per_pixel(samples),
        Work::Done => if height > 0 {
            1 + height * per_row(width, samples)
        } else {
            1
        },
    }
}

/// The beginning of scanline `j`, or the end of the image after the last.
pub open spec fn row_start(height: i32, j: int) -> Work {
    if j < height {
        Work::Scanline { j: j as i32, remaining: (height - j) as i32 }
    } else {
        Work::Done
    }
}

/// Sample `s` of a pixel, or writing the pixel after its last sample.
pub open spec fn sample_start(samples: i32, i: i32, j: i32, s: int) -> Work {
    if s < samples {
        Work::Sample { i, j, s: s as i32 }
    } else {
        Work::Pixel { i, j }
    }
}

/// The beginning of the pixel in column `i`, or of the next scanline after
/// the last column.
pub open spec fn pixel_start(width: i32, height: i32, samples: i32, i: int, j: i32) -> Work {
    if i < width {
        sample_start(samples, i as i32, j, 0)
    } else {
        row_start(height, j + 1)
    }
}

/// The piece of work that follows another.
pub open spec fn successor(width: i32, height: i32, samples: i32, work: Work) -> Work {
    match work {
        Work::Header => row_start(height, 0),
        Work::Scanline { j, remaining } => pixel_start(width, height, samples, 0, j),
        Work::Sample { i, j, s } => sample_start(samples, i, j, s + 1),
        Work::Pixel { i, j } => pixel_start(width, height, samples, i + 1, j),
        Work::Done => Work::Done,
    }
}

/// The piece of work that is due after `k` others were done.
pub open spec fn work_at(width: i32, height: i32, samples: i32, k: nat) -> Work
    decreases k,
{
    if k == 0 {
        Work::Header
    } else {
        successor(width, height, samples, work_at(width, height, samples, (k - 1) as nat))
    }
}

/// The rendering of one image, as far as it has come.
pub struct Render {
    image_width: i32,
    image_height: i32,
    samples_per_pixel: i32,
    work: Work,
}

impl Render {
    #[verifier::type_invariant]
    spec fn well_formed(self) -> bool {
        fits(self.image_width, self.image_height, self.samples_per_pixel, self.work)
    }

    /// The image's width in pixels.
    pub closed spec fn width(self) -> i32 {
        self.image_width
    }

    /// The image's height in pixels.
    pub closed spec fn height(self) -> i32 {
        self.image_height
    }

    /// The number of samples that are traced for each pixel.
    pub closed spec fn samples(self) -> i32 {
        self.samples_per_pixel
    }

    /// The piece of work that is due.
    pub closed spec fn due(self) -> Work {
        self.work
    }

    /// A rendering with everything still to do. An image without width or
    /// height has no pixels, and a pixel without samples is written
    /// without any.
    pub fn new(image_width: i32, image_height: i32, samples_per_pixel: i32) -> (r: Render)
        ensures
            r.width() == image_width,
            r.height() == image_height,
            r.samples() == samples_per_pixel,
            r.due() == Work::Header,
    {
        Render { image_width, image_height, samples_per_pixel, work: Work::Header }
    }

    /// The piece of work that is due; the one that follows it is due next.
    pub fn next(&mut self) -> (r: Work)
        ensures
            r == old(self).due(),
            fits(old(self).width(), old(self).height(), old(self).samples(), r),
            final(self).due() == successor(
                old(self).width(),
                old(self).height(),
                old(self).samples(),
                r,
            ),
            final(self).width() == old(self).width(),
            final(self).height() == old(self).height(),
            final(self).samples() == old(self).samples(),
    {
        proof {
            use_type_invariant(&*self);
        }
        let current = self.work;
        let after = match current {
            Work::Header => self.row_start(0),
            Work::Scanline { j, remaining } => self.pixel_start(0, j),
            Work::Sample { i, j, s } => self.sample_start(i, j, s + 1),
            Work::Pixel { i, j } => self.pixel_start(i + 1, j),
            Work::Done => Work::Done,
        };
        self.work = after;
        current
    }

    fn row_start(&self, j: i32) -> (r: Work)
        requires
            0 <= j <= self.image_height || j == 0,
        ensures
            r == self::row_start(self.image_height, j as int),
            fits(self.image_width, self.image_height, self.samples_per_pixel, r),
    {
        if j < self.image_height {
            Work::Scanline { j, remaining: self.image_height - j }
        } else {
            Work::Done
        }
    }

    fn sample_start(&self, i: i32, j: i32, s: i32) -> (r: Work)
        requires
            0 <= j < self.image_height,
            0 <= i < self.image_width,
            0 <= s,
        ensures
            r == self::sample_start(self.samples_per_pixel, i, j, s as int),
            fits(self.image_width, self.image_height, self.samples_per_pixel, r),
    {
        if s < self.samples_per_pixel {
            Work::Sample { i, j, s }
        } else {
            Work::Pixel { i, j }
        }
    }

    fn pixel_start(&self, i: i32, j: i32) -> (r: Work)
        requires
            0 <= j < self.image_height,
            0 <= i,
        ensures
            r == self::pixel_start(
                self.image_width,
                self.image_height,
                self.samples_per_pixel,
                i as int,
                j,
            ),
            fits(self.image_width, self.image_height, self.samples_per_pixel, r),
    {
        if i < self.image_width {
            self.sample_start(i, j, 0)
        } else {
            self.row_start(j + 1)
        }
    }
}

/// The work is done in order and comes to an end: each piece that belongs
/// to the image is followed by one that belongs to it too and has the next
/// position, and no position lies beyond that of the end.
pub proof fn lemma_work_in_order(width: i32, height: i32, samples: i32, work: Work)
    requires
        fits(width, height, samples, work),
    ensures
        fits(width, height, samples, successor(width, height, samples, work)),
        0 <= position(width, height, samples, work) <= position(
            width,
            height,
            samples,
            Work::Done,
        ),
        work != Work::Done ==> position(
            width,
            height,
            samples,
            successor(width, height, samples, work),
        ) == position(width, height, samples, work) + 1,
        position(width, height, samples, work) == position(width, height, samples, Work::Done)
            ==> work == Work::Done,
{
    let p = per_pixel(samples);
    let r = per_row(width, samples);
    assert(height > 0 ==> height * r >= 1) by (nonlinear_arith)
        requires
            r >= 1,
    ;
    match work {
        Work::Header => {},
        Work::Scanline { j, remaining } => {
            lemma_row_positions(height, j, r);
            assert(0 * p == 0 && 1 * p == p);
        },
        Work::Sample { i, j, s } => {
            lemma_row_positions(height, j, r);
            lemma_row_positions(width, i, p);
        },
        Work::Pixel { i, j } => {
            lemma_row_positions(height, j, r);
            lemma_row_positions(width, i, p);
            assert((i + 2) * p == (i + 1) * p + p) by (nonlinear_arith);
        },
        Work::Done => {},
    }
}

/// Places in steps of `step`: place `k + 1` lies one step after place `k`,
/// and neither lies beyond place `count`.
proof fn lemma_row_positions(count: i32, k: i32, step: int)
    requires
        0 <= k < count,
        step >= 1,
    ensures
        (k + 1) * step == k * step + step,
        0 <= k * step,
        (k + 1) * step <= count * step,
        k + 1 == count ==> (k + 1) * step == count * step,
{
    assert((k + 1) * step == k * step + step) by (nonlinear_arith);
    assert(0 <= k * step && (k + 1) * step <= count * step) by (nonlinear_arith)
        requires
            0 <= k < count,
            step >= 1,
    ;
}

/// The work is numbered by its position: after `k` pieces of work the one
/// at position `k` is due, until the end is reached, which stays due.
pub proof fn lemma_work_at_position(width: i32, height: i32, samples: i32, k: nat)
    ensures
        fits(width, height, samples, work_at(width, height, samples, k)),
        position(width, height, samples, work_at(width, height, samples, k)) == if k <= position(
            width,
            height,
            samples,
            Work::Done,
        ) {
            k as int
        } else {
            position(width, height, samples, Work::Done)
        },
    decreases k,
{
    if k > 0 {
        let before = work_at(width, height, samples, (k - 1) as nat);
        lemma_work_at_position(width, height, samples, (k - 1) as nat);
        lemma_work_in_order(width, height, samples, before);
    }
}

/// Pixels are written row by row from the top, and within a row from the
/// left; the samples of a pixel are the pieces of work just before it.
pub proof fn lemma_pixels_row_major(
    width: i32,
    height: i32,
    samples: i32,
    i: i32,
    j: i32,
    i2: i32,
    j2: i32,
)
    requires
        fits(width, height, samples, Work::Pixel { i, j }),
        fits(width, height, samples, Work::Pixel { i: i2, j: j2 }),
    ensures
        position(width, height, samples, Work::Pixel { i, j }) < position(
            width,
            height,
            samples,
            Work::Pixel { i: i2, j: j2 },
        ) <==> j < j2 || (j == j2 && i < i2),
        forall|s: i32|
            0 <= s < samples ==> #[trigger] position(
                width,
                height,
                samples,
                Work::Sample { i, j, s },
            ) == position(width, height, samples, Work::Pixel { i, j }) - (samples - s),
{
    let p = per_pixel(samples);
    let r = per_row(width, samples);
    lemma_row_positions(width, i, p);
    lemma_row_positions(width, i2, p);
    assert(j < j2 ==> (j + 1) * r <= j2 * r) by (nonlinear_arith)
        requires
            r >= 1,
    ;
    assert(j2 < j ==> (j2 + 1) * r <= j * r) by (nonlinear_arith)
        requires
            r >= 1,
    ;
    assert((j + 1) * r == j * r + r && (j2 + 1) * r == j2 * r + r) by (nonlinear_arith);
    assert(i < i2 ==> (i + 1) * p < (i2 + 1) * p) by (nonlinear_arith)
        requires
            p >= 1,
    ;
    assert(i2 < i ==> (i2 + 1) * p < (i + 1) * p) by (nonlinear_arith)
        requires
            p >= 1,
    ;
}

} // verus!
