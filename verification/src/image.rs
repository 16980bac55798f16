//! Fixed-size 2D pixel buffers and the chart-styling transform.
//!
//! An [`Image`] owns contiguous byte storage holding 4 bytes per pixel in
//! channel order (B, G, R, pad), with rows stored bottom-to-top: row 0 of the
//! storage is the visually bottom row.

use vstd::prelude::*;

verus! {

/// An owned 2D image: `width * height` pixels, 4 bytes each, rows bottom-up.
pub struct Image {
    pub width: usize,
    pub height: usize,
    pub buf: Vec<u8>,
}

/// Lower bound and upper bound of a pixel's byte offset within a
/// `w * h * 4`-byte bottom-up buffer.
pub proof fn lemma_offset_in_bounds(w: int, h: int, x: int, y: int)
    by (nonlinear_arith)
    requires
        0 <= x < w,
        0 <= y < h,
    ensures
        0 <= (h - 1 - y) * w + x,
        ((h - 1 - y) * w + x) * 4 + 4 <= w * h * 4,
{
}

/// Distinct coordinates have distinct linear pixel indices.
pub proof fn lemma_pixel_index_injective(w: int, h: int, x1: int, y1: int, x2: int, y2: int)
    by (nonlinear_arith)
    requires
        0 <= x1 < w,
        0 <= y1 < h,
        0 <= x2 < w,
        0 <= y2 < h,
        !(x1 == x2 && y1 == y2),
    ensures
        (h - 1 - y1) * w + x1 != (h - 1 - y2) * w + x2,
{
}

impl Image {
    /// The storage always holds exactly `width * height` 4-byte pixels.
    pub open spec fn wf(self) -> bool {
        self.buf@.len() == self.width * self.height * 4
    }

    /// Linear index of the pixel at `(x, y)`: rows are stored bottom-up, so
    /// visual row `y` lives at storage row `height - 1 - y`.
    pub open spec fn spec_pixel_index(self, x: int, y: int) -> int {
        (self.height - 1 - y) * self.width + x
    }

    /// Byte offset of the pixel at `(x, y)` within the storage.
    pub open spec fn spec_offset(self, x: int, y: int) -> int {
        self.spec_pixel_index(x, y) * 4
    }

    /// The `(r, g, b)` channels of the pixel at `(x, y)`; the 4th byte is pad.
    pub open spec fn spec_color(self, x: int, y: int) -> (u8, u8, u8) {
        (
            self.buf@[self.spec_offset(x, y) + 2],
            self.buf@[self.spec_offset(x, y) + 1],
            self.buf@[self.spec_offset(x, y)],
        )
    }

    /// The unused 4th byte of the pixel at `(x, y)`.
    pub open spec fn spec_pad(self, x: int, y: int) -> u8 {
        self.buf@[self.spec_offset(x, y) + 3]
    }

    /// Allocates a zero-filled `width` by `height` image.
    pub fn new(width: usize, height: usize) -> (r: Image)
        requires
            width * height * 4 <= usize::MAX,
        ensures
            r.width == width,
            r.height == height,
            r.wf(),
            forall|k: int| 0 <= k < r.buf@.len() ==> r.buf@[k] == 0,
    {
        let n: usize = width * height * 4;
        let mut buf: Vec<u8> = Vec::new();
        let mut i: usize = 0;
        while i < n
            invariant
                i <= n,
                buf@.len() == i,
                forall|k: int| 0 <= k < i ==> buf@[k] == 0,
            decreases n - i,
        {
            buf.push(0u8);
            i = i + 1;
        }
        Image { width, height, buf }
    }

    /// Byte offset of the pixel at `(x, y)`; always leaves room for the full
    /// 4-byte pixel before the end of the storage.
    pub fn get_offset(&self, x: usize, y: usize) -> (r: usize)
        requires
            self.wf(),
            x < self.width,
            y < self.height,
        ensures
            r == self.spec_offset(x as int, y as int),
            r + 4 <= self.buf@.len(),
    {
        // a usize holds the storage length, so the offset arithmetic fits
        let _storage_bytes: usize = self.buf.len();
        proof {
            lemma_offset_in_bounds(
                self.width as int,
                self.height as int,
                x as int,
                y as int,
            );
        }
        ((self.height - 1 - y) * self.width + x) * 4
    }

    /// Reads the `(r, g, b)` channels of the pixel at `(x, y)`.
    pub fn get_color(&self, x: usize, y: usize) -> (c: (u8, u8, u8))
        requires
            self.wf(),
            x < self.width,
            y < self.height,
        ensures
            c == self.spec_color(x as int, y as int),
    {
        let offset: usize = self.get_offset(x, y);
        (self.buf[offset + 2], self.buf[offset + 1], self.buf[offset])
    }

    /// Writes the `(r, g, b)` channels of the pixel at `(x, y)`, leaving the
    /// pad byte and every other pixel untouched.
    pub fn set_color(&mut self, x: usize, y: usize, r: u8, g: u8, b: u8)
        requires
            old(self).wf(),
            x < old(self).width,
            y < old(self).height,
        ensures
            final(self).wf(),
            final(self).width == old(self).width,
            final(self).height == old(self).height,
            final(self).buf@.len() == old(self).buf@.len(),
            final(self).spec_color(x as int, y as int) == (r, g, b),
            final(self).spec_pad(x as int, y as int) == old(self).spec_pad(x as int, y as int),
            forall|i: int, j: int|
                0 <= i < old(self).width && 0 <= j < old(self).height && !(i == x as int && j
                    == y as int) ==> final(self).spec_color(i, j) == old(self).spec_color(i, j)
                    && final(self).spec_pad(i, j) == old(self).spec_pad(i, j),
    {
        let offset: usize = self.get_offset(x, y);
        self.buf.set(offset + 2, r);
        self.buf.set(offset + 1, g);
        self.buf.set(offset, b);
        proof {
            let w = self.width as int;
            let h = self.height as int;
            assert forall|i: int, j: int|
                0 <= i < w && 0 <= j < h && !(i == x as int && j == y as int) implies self
                .spec_color(i, j) == old(self).spec_color(i, j) && self.spec_pad(i, j) == old(
                self,
            ).spec_pad(i, j) by {
                lemma_offset_in_bounds(w, h, i, j);
                lemma_pixel_index_injective(w, h, i, j, x as int, y as int);
            }
        }
    }

    /// The grayscale value `r / 4 + g / 2 + b / 4` of the pixel at `(x, y)`,
    /// each division truncating.
    pub fn get_grayscale_color(&self, x: usize, y: usize) -> (v: u8)
        requires
            self.wf(),
            x < self.width,
            y < self.height,
        ensures
            v == self.spec_grayscale(x as int, y as int),
    {
        let (r, g, b) = self.get_color(x, y);
        r / 4 + g / 2 + b / 4
    }

    /// The pixel at `(x, y)` counts as white exactly when its grayscale value
    /// exceeds 192.
    pub fn is_white(&self, x: usize, y: usize) -> (w: bool)
        requires
            self.wf(),
            x < self.width,
            y < self.height,
        ensures
            w == self.spec_is_white(x as int, y as int),
    {
        self.get_grayscale_color(x, y) > 192
    }

    /// The 2x2 neighborhood anchored at `(x, y)` contains an edge exactly when
    /// its four white/non-white classifications are not unanimous. The
    /// look-ahead pixels make the last row and column off limits.
    pub fn is_edge(&self, x: usize, y: usize) -> (e: bool)
        requires
            self.wf(),
            x + 1 < self.width,
            y + 1 < self.height,
        ensures
            e == self.spec_is_edge(x as int, y as int),
    {
        let a = self.is_white(x, y);
        let b = self.is_white(x, y + 1);
        let c = self.is_white(x + 1, y);
        let d = self.is_white(x + 1, y + 1);
        !(a == b && a == c && a == d)
    }

    /// Fills a fresh `width` by `height` image by calling `f` once for every
    /// coordinate and storing the color it returns; pad bytes stay zero.
    pub fn from_fn<F: Fn(usize, usize) -> (u8, u8, u8)>(width: usize, height: usize, f: F) -> (r:
        Image)
        requires
            width * height * 4 <= usize::MAX,
            forall|x: usize, y: usize|
                x < width && y < height ==> call_requires(f, (x, y)),
        ensures
            r.width == width,
            r.height == height,
            r.wf(),
            forall|x: usize, y: usize|
                x < width && y < height ==> call_ensures(
                    f,
                    (x, y),
                    #[trigger] r.spec_color(x as int, y as int),
                ),
            forall|x: int, y: int|
                0 <= x < width && 0 <= y < height ==> #[trigger] r.spec_pad(x, y) == 0,
    {
        let mut image = Image::new(width, height);
        proof {
            assert forall|x: int, y: int|
                0 <= x < width && 0 <= y < height implies #[trigger] image.spec_pad(x, y)
                == 0 by {
                lemma_offset_in_bounds(width as int, height as int, x, y);
            }
        }
        let mut y: usize = 0;
        while y < height
            invariant
                forall|i: usize, j: usize|
                    i < width && j < height ==> call_requires(f, (i, j)),
                y <= height,
                image.wf(),
                image.width == width,
                image.height == height,
                forall|i: usize, j: usize|
                    i < width && j < y ==> call_ensures(
                        f,
                        (i, j),
                        #[trigger] image.spec_color(i as int, j as int),
                    ),
                forall|i: int, j: int|
                    0 <= i < width && 0 <= j < height ==> #[trigger] image.spec_pad(i, j) == 0,
            decreases height - y,
        {
            let mut x: usize = 0;
            while x < width
                invariant
                    forall|i: usize, j: usize|
                        i < width && j < height ==> call_requires(f, (i, j)),
                    x <= width,
                    y < height,
                    image.wf(),
                    image.width == width,
                    image.height == height,
                    forall|i: usize, j: usize|
                        i < width && j < y ==> call_ensures(
                            f,
                            (i, j),
                            #[trigger] image.spec_color(i as int, j as int),
                        ),
                    forall|i: usize|
                        i < x ==> call_ensures(
                            f,
                            (i, y),
                            #[trigger] image.spec_color(i as int, y as int),
                        ),
                    forall|i: int, j: int|
                        0 <= i < width && 0 <= j < height ==> #[trigger] image.spec_pad(i, j)
                            == 0,
                decreases width - x,
            {
                let (r, g, b) = f(x, y);
                image.set_color(x, y, r, g, b);
                x = x + 1;
            }
            y = y + 1;
        }
        image
    }

    /// Grayscale value of the pixel at `(x, y)`.
    pub open spec fn spec_grayscale(self, x: int, y: int) -> int {
        grayscale_value(
            self.spec_color(x, y).0,
            self.spec_color(x, y).1,
            self.spec_color(x, y).2,
        )
    }

    /// Whether the pixel at `(x, y)` classifies as white.
    pub open spec fn spec_is_white(self, x: int, y: int) -> bool {
        self.spec_grayscale(x, y) > 192
    }

    /// Whether the 2x2 neighborhood anchored at `(x, y)` disagrees on the
    /// white/non-white classification.
    pub open spec fn spec_is_edge(self, x: int, y: int) -> bool {
        let a = self.spec_is_white(x, y);
        let b = self.spec_is_white(x, y + 1);
        let c = self.spec_is_white(x + 1, y);
        let d = self.spec_is_white(x + 1, y + 1);
        !(a == b && a == c && a == d)
    }

    /// Whether the output pixel at `(x, y)` lies on the styled image's border:
    /// on an outer rim of the output, or on a detected edge of the input.
    pub open spec fn spec_on_border(self, x: int, y: int) -> bool {
        x == 0 || y == 0 || x == self.width - 2 || y == self.height - 2 || self.spec_is_edge(x, y)
    }

    /// Color that the styling transform assigns to output coordinate `(x, y)`,
    /// classifying against this (input) image. The border test takes
    /// precedence over the grid test, and the grid test over the white/dark
    /// split.
    pub open spec fn spec_styled_color(self, x: int, y: int) -> (u8, u8, u8) {
        if self.spec_on_border(x, y) {
            (0x4cu8, 0x9du8, 0xcbu8)
        } else if x % 50 == 0 || y % 50 == 0 {
            (0xd9u8, 0xeau8, 0xf4u8)
        } else if self.spec_is_white(x, y) {
            (0xffu8, 0xffu8, 0xffu8)
        } else {
            (0xf1u8, 0xf6u8, 0xfau8)
        }
    }

    /// What the styling transform returns for this input image: an image one
    /// pixel narrower and shorter, every pixel carrying its classified color,
    /// every pad byte zero.
    pub open spec fn is_styled_output(self, out: Image) -> bool {
        &&& out.width == self.width - 1
        &&& out.height == self.height - 1
        &&& out.wf()
        &&& forall|x: int, y: int|
            0 <= x < out.width && 0 <= y < out.height ==> #[trigger] out.spec_color(x, y)
                == self.spec_styled_color(x, y)
        &&& forall|x: int, y: int|
            0 <= x < out.width && 0 <= y < out.height ==> #[trigger] out.spec_pad(x, y) == 0
    }

    /// Restyles this image into a chart-like image one pixel narrower and
    /// shorter: border color on the outer rim and on detected edges, grid
    /// color on every 50th row or column, white for light cells and the
    /// background color for dark ones.
    pub fn to_taskmgr_style(&self) -> (r: Image)
        requires
            self.wf(),
            1 < self.width,
            1 < self.height,
        ensures
            self.is_styled_output(r),
            r.width == self.width - 1,
            r.height == self.height - 1,
    {
        let out_w: usize = self.width - 1;
        let out_h: usize = self.height - 1;
        // a usize holds the storage length, so the shrunk size fits as well
        let _storage_bytes: usize = self.buf.len();
        proof {
            assert(out_w * out_h * 4 <= self.width * self.height * 4) by (nonlinear_arith)
                requires
                    out_w == self.width - 1,
                    out_h == self.height - 1,
                    1 < self.width,
                    1 < self.height,
            ;
        }
        Image::from_fn(
            out_w,
            out_h,
            (|x: usize, y: usize| -> (c: (u8, u8, u8))
                requires
                    self.wf(),
                    1 < self.width,
                    1 < self.height,
                    x < self.width - 1,
                    y < self.height - 1,
                ensures
                    c == self.spec_styled_color(x as int, y as int),
                {
                    if x == 0 || y == 0 || x == self.width - 2 || y == self.height - 2
                        || self.is_edge(x, y) {
                        (0x4c, 0x9d, 0xcb)
                    } else if x % 50 == 0 || y % 50 == 0 {
                        (0xd9, 0xea, 0xf4)
                    } else if self.is_white(x, y) {
                        (0xff, 0xff, 0xff)
                    } else {
                        (0xf1, 0xf6, 0xfa)
                    }
                }),
        )
    }
}

/// Grayscale of one color: `r / 4 + g / 2 + b / 4` with truncating division,
/// so the all-white color maps to 253, not 255.
pub open spec fn grayscale_value(r: u8, g: u8, b: u8) -> int {
    r / 4 + g / 2 + b / 4
}

/// Every valid coordinate's pixel occupies a 4-byte range inside the storage,
/// and distinct coordinates occupy disjoint ranges.
pub proof fn lemma_offset_ranges_disjoint(img: Image, x1: int, y1: int, x2: int, y2: int)
    requires
        img.wf(),
        0 <= x1 < img.width,
        0 <= y1 < img.height,
        0 <= x2 < img.width,
        0 <= y2 < img.height,
        !(x1 == x2 && y1 == y2),
    ensures
        0 <= img.spec_offset(x1, y1),
        img.spec_offset(x1, y1) + 4 <= img.buf@.len(),
        img.spec_offset(x1, y1) + 4 <= img.spec_offset(x2, y2) || img.spec_offset(x2, y2) + 4
            <= img.spec_offset(x1, y1),
{
    let w = img.width as int;
    let h = img.height as int;
    lemma_offset_in_bounds(w, h, x1, y1);
    lemma_offset_in_bounds(w, h, x2, y2);
    lemma_pixel_index_injective(w, h, x1, y1, x2, y2);
}

/// Splits a byte index of a `w` by `h` bottom-up pixel buffer into the
/// coordinate whose pixel it belongs to and the channel byte within it.
proof fn lemma_byte_index_to_coords(w: int, h: int, k: int) -> (t: (int, int, int))
    requires
        0 < w,
        0 < h,
        0 <= k < w * h * 4,
    ensures
        ({
            let (x, y, c) = t;
            &&& 0 <= x < w
            &&& 0 <= y < h
            &&& 0 <= c < 4
            &&& k == ((h - 1 - y) * w + x) * 4 + c
        }),
{
    let p = k / 4;
    let c = k % 4;
    let row = p / w;
    let x = p % w;
    let y = h - 1 - row;
    assert(0 <= p < w * h && 0 <= c < 4 && k == p * 4 + c) by (nonlinear_arith)
        requires
            0 <= k < w * h * 4,
            p == k / 4,
            c == k % 4,
    ;
    assert(0 <= row < h && 0 <= x < w && p == row * w + x) by (nonlinear_arith)
        requires
            0 <= p < w * h,
            0 < w,
            0 < h,
            row == p / w,
            x == p % w,
    ;
    assert(((h - 1 - y) * w + x) * 4 + c == k) by (nonlinear_arith)
        requires
            h - 1 - y == row,
            p == row * w + x,
            k == p * 4 + c,
    ;
    (x, y, c)
}

/// The styling transform is a pure function of its input: any two outputs it
/// admits for the same input image are byte-for-byte identical.
pub proof fn lemma_styled_output_unique(img: Image, a: Image, b: Image)
    requires
        img.wf(),
        1 < img.width,
        1 < img.height,
        img.is_styled_output(a),
        img.is_styled_output(b),
    ensures
        a.width == b.width,
        a.height == b.height,
        a.buf@ == b.buf@,
{
    let w = img.width - 1;
    let h = img.height - 1;
    assert forall|k: int| 0 <= k < a.buf@.len() implies a.buf@[k] == b.buf@[k] by {
        let (x, y, c) = lemma_byte_index_to_coords(w, h, k);
        assert(a.spec_offset(x, y) == ((h - 1 - y) * w + x) * 4);
        assert(b.spec_offset(x, y) == ((h - 1 - y) * w + x) * 4);
        assert(a.spec_color(x, y) == img.spec_styled_color(x, y));
        assert(b.spec_color(x, y) == img.spec_styled_color(x, y));
        assert(a.spec_pad(x, y) == 0 && b.spec_pad(x, y) == 0);
        if c == 0 {
            assert(a.buf@[k] == a.spec_color(x, y).2);
        } else if c == 1 {
            assert(a.buf@[k] == a.spec_color(x, y).1);
        } else if c == 2 {
            assert(a.buf@[k] == a.spec_color(x, y).0);
        } else {
            assert(a.buf@[k] == a.spec_pad(x, y));
        }
    }
    assert(a.buf@ =~= b.buf@);
}

/// The border classification takes precedence over the grid pattern: whenever
/// the border condition holds of an output coordinate, the styled color is the
/// border color, even where the coordinate also lies on a grid line.
pub proof fn lemma_border_precedes_grid(img: Image, x: int, y: int)
    requires
        img.spec_on_border(x, y),
    ensures
        img.spec_styled_color(x, y) == (0x4cu8, 0x9du8, 0xcbu8),
{
}

} // verus!

