//! The image that a render produces, and its assembly from finished rows.
//!
//! Colours are held as they are written out: one byte for each of red,
//! green and blue.

use vstd::prelude::*;
use vstd::arithmetic::div_mod::lemma_fundamental_div_mod;

verus! {

/// An image buffer of the `image` crate that holds three bytes for each
/// pixel. The buffer itself is in `inner`, for whoever writes it out.
#[verifier::external_body]
pub struct RgbBuffer {
    pub inner: image::RgbImage,
}

/// The bytes that an image buffer holds: three for each pixel, red, green
/// and blue, the pixels row by row from the top.
pub uninterp spec fn buffer_bytes(buffer: RgbBuffer) -> Seq<u8>;

/// The width and the height of an image buffer, in pixels.
pub uninterp spec fn buffer_size(buffer: RgbBuffer) -> (u32, u32);

/// Calls `image::ImageBuffer::from_raw`, which makes an image buffer of
/// the given size out of a vector of bytes. It does so when three times
/// the width, and that times the height, fit in a `usize`, and the vector
/// holds at least that many bytes; the buffer then holds the vector as it
/// is. Otherwise there is no buffer.
#[verifier::external_body]
fn buffer_from_raw(width: u32, height: u32, bytes: Vec<u8>) -> (r: Option<RgbBuffer>)
    ensures
        r is Some <==> (3 * width <= usize::MAX && 3 * width * height <= bytes@.len()),
        r is Some ==> buffer_bytes(r->0) == bytes@,
        r is Some ==> buffer_size(r->0) == (width, height),
{
    match image::RgbImage::from_raw(width, height, bytes) {
        Some(inner) => Some(RgbBuffer { inner }),
        None => None,
    }
}

/// A colour, quantised to one byte per channel.
#[derive(Clone, Copy, Debug, PartialEq, Eq, Structural)]
pub struct Rgb8 {
    pub r: u8,
    pub g: u8,
    pub b: u8,
}

/// The colour of a pixel that nothing has been written to.
pub open spec fn black() -> Rgb8 {
    Rgb8 { r: 0, g: 0, b: 0 }
}

impl Rgb8 {
    /// Black.
    pub fn black() -> (color: Rgb8)
        ensures
            color == black(),
    {
        Rgb8 { r: 0, g: 0, b: 0 }
    }
}

/// One finished row of an image.
#[derive(Debug)]
pub struct Row {
    /// Which row it is, counted from 0.
    pub y: u32,
    /// Its pixels, from left to right.
    pub pixels: Vec<Rgb8>,
}

/// A grid of `width` by `height` colours, stored row by row.
#[derive(Debug)]
pub struct ColorImage {
    pub pixels: Vec<Rgb8>,
    pub height: u32,
    pub width: u32,
}

/// Whether `rows` can be written into an image of this size: each lies
/// inside it and is as long as the image is wide.
pub open spec fn rows_fit(width: u32, height: u32, rows: Seq<Row>) -> bool {
    forall|k: int|
        0 <= k < rows.len() ==> (#[trigger] rows[k]).y < height && rows[k].pixels@.len() == width
}

/// Whether `rows[k]` is the last row in the list that is written to its place.
pub open spec fn is_last_for_its_place(rows: Seq<Row>, k: int) -> bool {
    forall|j: int| k < j < rows.len() ==> (#[trigger] rows[j]).y != rows[k].y
}

impl ColorImage {
    /// Whether the image holds one colour for each of its pixels.
    pub open spec fn wf(&self) -> bool {
        self.pixels@.len() == self.width * self.height
    }

    /// The colour of the pixel in column `x` of row `y`.
    pub open spec fn pixel_at(&self, x: int, y: int) -> Rgb8 {
        self.pixels@[y * self.width + x]
    }

    /// Whether this image is what writing `rows` into a black image, one
    /// after the other, leaves: each row stands where the last row written
    /// to its place put it, and the rows never written are black.
    pub open spec fn is_assembled_from(&self, rows: Seq<Row>) -> bool {
        &&& self.wf()
        &&& forall|k: int, x: int|
            0 <= k < rows.len() && is_last_for_its_place(rows, k) && 0 <= x < self.width
                ==> self.pixel_at(x, rows[k].y as int) == #[trigger] rows[k].pixels@[x]
        &&& forall|x: int, y: int|
            0 <= x < self.width && 0 <= y < self.height && (forall|k: int|
                0 <= k < rows.len() ==> (#[trigger] rows[k]).y != y) ==> #[trigger] self.pixel_at(
                x,
                y,
            ) == black()
    }

    /// An image of the given size, all black.
    pub fn new(width: u32, height: u32) -> (image: ColorImage)
        requires
            width * height <= usize::MAX,
        ensures
            image.wf(),
            image.width == width,
            image.height == height,
            forall|i: int| 0 <= i < image.pixels@.len() ==> image.pixels@[i] == black(),
    {
        assert((width as usize) * (height as usize) == width * height) by (nonlinear_arith)
            requires
                width * height <= usize::MAX,
        ;
        let size: usize = (width as usize) * (height as usize);
        let mut pixels: Vec<Rgb8> = Vec::new();
        let mut i: usize = 0;
        while i < size
            invariant
                i <= size,
                pixels@.len() == i,
                forall|j: int| 0 <= j < i ==> pixels@[j] == black(),
            decreases size - i,
        {
            pixels.push(Rgb8::black());
            i += 1;
        }
        ColorImage { pixels, height, width }
    }

    /// The colour of the pixel in column `x` of row `y`.
    pub fn get(&self, x: u32, y: u32) -> (color: Rgb8)
        requires
            self.wf(),
            x < self.width,
            y < self.height,
        ensures
            color == self.pixel_at(x as int, y as int),
    {
        let stored: usize = self.pixels.len();
        proof {
            lemma_place(self.width, self.height, x as int, y as int);
            assert(y * self.width + x < stored);
        }
        self.pixels[(y as usize) * (self.width as usize) + (x as usize)]
    }

    /// Gives the pixel in column `x` of row `y` a colour, and changes no other.
    pub fn set(&mut self, x: u32, y: u32, color: Rgb8)
        requires
            old(self).wf(),
            x < old(self).width,
            y < old(self).height,
        ensures
            final(self).wf(),
            final(self).width == old(self).width,
            final(self).height == old(self).height,
            final(self).pixels@ == old(self).pixels@.update(y * old(self).width + x, color),
    {
        let stored: usize = self.pixels.len();
        proof {
            lemma_place(self.width, self.height, x as int, y as int);
            assert(y * self.width + x < stored);
        }
        let at: usize = (y as usize) * (self.width as usize) + (x as usize);
        self.pixels.set(at, color);
    }

    /// Writes a finished row to its place, and changes no other row.
    pub fn store_row(&mut self, row: &Row)
        requires
            old(self).wf(),
            row.y < old(self).height,
            row.pixels@.len() == old(self).width,
        ensures
            final(self).wf(),
            final(self).width == old(self).width,
            final(self).height == old(self).height,
            forall|x: int|
                0 <= x < old(self).width ==> #[trigger] final(self).pixel_at(x, row.y as int)
                    == row.pixels@[x],
            forall|x: int, y: int|
                0 <= x < old(self).width && 0 <= y < old(self).height && y != row.y
                    ==> #[trigger] final(self).pixel_at(x, y) == old(self).pixel_at(x, y),
    {
        let width: usize = self.width as usize;
        let total: usize = self.pixels.len();
        proof {
            assert(0 <= row.y * self.width && row.y * self.width + self.width <= self.width
                * self.height) by (nonlinear_arith)
                requires
                    row.y < self.height,
            ;
        }
        let start: usize = (row.y as usize) * width;
        let mut x: usize = 0;
        while x < width
            invariant
                x <= width,
                width == self.width,
                self.width == old(self).width,
                self.height == old(self).height,
                self.wf(),
                start == row.y * self.width,
                start + width <= self.pixels@.len(),
                total == self.pixels@.len(),
                row.pixels@.len() == width,
                forall|i: int| 0 <= i < x ==> self.pixels@[start + i] == row.pixels@[i],
                forall|i: int|
                    0 <= i < self.pixels@.len() && !(start <= i < start + x) ==> self.pixels@[i]
                        == old(self).pixels@[i],
            decreases width - x,
        {
            self.pixels.set(start + x, row.pixels[x]);
            x += 1;
        }
        proof {
            assert forall|x: int, y: int|
                0 <= x < old(self).width && 0 <= y < old(self).height && y != row.y implies #[trigger] self.pixel_at(
                x,
                y,
            ) == old(self).pixel_at(x, y) by {
                lemma_place(self.width, self.height, x, y);
                lemma_rows_apart(self.width as int, x, y, row.y as int);
            }
        }
    }

    /// The image's bytes as they are written out: red, green and blue of
    /// each pixel, row by row.
    pub open spec fn bytes(&self) -> Seq<u8> {
        Seq::new(
            3 * self.pixels@.len(),
            |i: int|
                {
                    let p = self.pixels@[i / 3];
                    if i % 3 == 0 {
                        p.r
                    } else if i % 3 == 1 {
                        p.g
                    } else {
                        p.b
                    }
                },
        )
    }

    /// Hands the image over as an image buffer of the same size and bytes.
    ///
    /// There is none where the image's bytes, or those of a single row,
    /// are more than a `usize` can count.
    pub fn to_image_buffer(&self) -> (r: Option<RgbBuffer>)
        requires
            self.wf(),
        ensures
            r is Some <==> 3 * self.width <= usize::MAX && 3 * self.width * self.height
                <= usize::MAX,
            r is Some ==> buffer_size(r->0) == (self.width, self.height) && buffer_bytes(r->0)
                == self.bytes(),
    {
        let n: usize = self.pixels.len();
        assert(3 * self.width * self.height == 3 * n) by (nonlinear_arith)
            requires
                n == self.width * self.height,
        ;
        if self.width as usize > usize::MAX / 3 || n > usize::MAX / 3 {
            return None;
        }
        let mut bytes: Vec<u8> = Vec::new();
        let mut k: usize = 0;
        while k < n
            invariant
                k <= n,
                n == self.pixels@.len(),
                3 * n <= usize::MAX,
                bytes@.len() == 3 * k,
                forall|i: int| 0 <= i < 3 * k ==> bytes@[i] == self.bytes()[i],
            decreases n - k,
        {
            let p: Rgb8 = self.pixels[k];
            bytes.push(p.r);
            bytes.push(p.g);
            bytes.push(p.b);
            k += 1;
        }
        assert(bytes@ =~= self.bytes());
        buffer_from_raw(self.width, self.height, bytes)
    }

    /// Assembles an image from finished rows, in the order in which they
    /// arrive.
    pub fn assemble(width: u32, height: u32, rows: &Vec<Row>) -> (image: ColorImage)
        requires
            width * height <= usize::MAX,
            rows_fit(width, height, rows@),
        ensures
            image.width == width,
            image.height == height,
            image.is_assembled_from(rows@),
    {
        let mut image = ColorImage::new(width, height);
        let n: usize = rows.len();
        let mut k: usize = 0;
        proof {
            assert forall|x: int, y: int| 0 <= x < width && 0 <= y < height implies image.pixel_at(
                x,
                y,
            ) == black() by {
                lemma_place(width, height, x, y);
            }
            assert(rows@.take(0).len() == 0);
        }
        while k < n
            invariant
                k <= n,
                n == rows@.len(),
                image.width == width,
                image.height == height,
                rows_fit(width, height, rows@),
                image.is_assembled_from(rows@.take(k as int)),
            decreases n - k,
        {
            let ghost before = image;
            let ghost seen = rows@.take(k as int);
            let ghost next = rows@.take(k + 1);
            image.store_row(&rows[k]);
            proof {
                assert(next.len() == k + 1);
                assert(next[k as int] == rows@[k as int]);
                assert forall|j: int, x: int|
                    0 <= j < next.len() && is_last_for_its_place(next, j) && 0 <= x
                        < image.width implies image.pixel_at(x, next[j].y as int)
                    == #[trigger] next[j].pixels@[x] by {
                    if j < k {
                        assert(next[j] == seen[j]);
                        assert(next[k as int].y != next[j].y);
                        assert forall|i: int| j < i < seen.len() implies (#[trigger] seen[i]).y
                            != seen[j].y by {
                            assert(next[i] == seen[i]);
                        }
                        assert(is_last_for_its_place(seen, j));
                        assert(before.pixel_at(x, seen[j].y as int) == seen[j].pixels@[x]);
                        assert(image.pixel_at(x, next[j].y as int) == before.pixel_at(
                            x,
                            next[j].y as int,
                        ));
                    } else {
                        assert(image.pixel_at(x, rows@[k as int].y as int)
                            == rows@[k as int].pixels@[x]);
                    }
                }
                assert forall|x: int, y: int|
                    0 <= x < image.width && 0 <= y < image.height && (forall|j: int|
                        0 <= j < next.len() ==> (#[trigger] next[j]).y != y) implies #[trigger] image.pixel_at(
                    x,
                    y,
                ) == black() by {
                    assert(next[k as int].y != y);
                    assert forall|j: int| 0 <= j < seen.len() implies (#[trigger] seen[j]).y
                        != y by {
                        assert(next[j] == seen[j]);
                    }
                    assert(before.pixel_at(x, y) == black());
                    assert(image.pixel_at(x, y) == before.pixel_at(x, y));
                }
            }
            k += 1;
        }
        assert(rows@.take(n as int) =~= rows@);
        image
    }
}

/// Whether no two rows of the list are written to one place.
pub open spec fn places_differ(rows: Seq<Row>) -> bool {
    forall|i: int, j: int|
        0 <= i < j < rows.len() ==> (#[trigger] rows[i]).y != (#[trigger] rows[j]).y
}

/// Whether each row of `first` is in `second` too: a row for the same
/// place with the same pixels.
pub open spec fn rows_among(first: Seq<Row>, second: Seq<Row>) -> bool {
    forall|i: int|
        0 <= i < first.len() ==> exists|j: int|
            0 <= j < second.len() && (#[trigger] second[j]).y == (#[trigger] first[i]).y
                && second[j].pixels@ == first[i].pixels@
}

/// The image does not depend on the order in which its rows arrive: two
/// images of one size, assembled from the same rows, each place being
/// written at most once, hold the same pixels.
pub proof fn arrival_order_is_immaterial(
    a: ColorImage,
    b: ColorImage,
    first: Seq<Row>,
    second: Seq<Row>,
)
    requires
        a.width == b.width,
        a.height == b.height,
        rows_fit(a.width, a.height, first),
        rows_fit(b.width, b.height, second),
        a.is_assembled_from(first),
        b.is_assembled_from(second),
        places_differ(first),
        places_differ(second),
        rows_among(first, second),
        rows_among(second, first),
    ensures
        a.pixels@ == b.pixels@,
{
    let w = a.width as int;
    let h = a.height as int;
    assert forall|p: int| 0 <= p < a.pixels@.len() implies a.pixels@[p] == b.pixels@[p] by {
        assert(w > 0) by (nonlinear_arith)
            requires
                0 <= p < w * h,
                w >= 0,
        ;
        let y = p / w;
        let x = p % w;
        lemma_fundamental_div_mod(p, w);
        assert(p == y * w + x) by (nonlinear_arith)
            requires
                p == w * y + x,
        ;
        assert(0 <= y < h) by (nonlinear_arith)
            requires
                p == y * w + x,
                0 <= x < w,
                0 <= p < w * h,
        ;
        assert(a.pixels@[p] == a.pixel_at(x, y));
        assert(b.pixels@[p] == b.pixel_at(x, y));
        if exists|k: int| 0 <= k < first.len() && (#[trigger] first[k]).y == y {
            let k = choose|k: int| 0 <= k < first.len() && (#[trigger] first[k]).y == y;
            let j = choose|j: int|
                0 <= j < second.len() && (#[trigger] second[j]).y == (#[trigger] first[k]).y
                    && second[j].pixels@ == first[k].pixels@;
            assert(is_last_for_its_place(first, k));
            assert(is_last_for_its_place(second, j));
            assert(a.pixel_at(x, first[k].y as int) == first[k].pixels@[x]);
            assert(b.pixel_at(x, second[j].y as int) == second[j].pixels@[x]);
        } else {
            assert forall|j: int| 0 <= j < second.len() implies (#[trigger] second[j]).y
                != y by {
                if second[j].y == y {
                    let k = choose|k: int|
                        0 <= k < first.len() && (#[trigger] first[k]).y == (
                        #[trigger] second[j]).y && first[k].pixels@ == second[j].pixels@;
                    assert(first[k].y == y);
                }
            }
            assert(a.pixel_at(x, y) == black());
            assert(b.pixel_at(x, y) == black());
        }
    }
    assert(a.pixels@ =~= b.pixels@);
}

/// The place of a pixel in the row-by-row store lies inside the store.
pub proof fn lemma_place(width: u32, height: u32, x: int, y: int)
    requires
        0 <= x < width,
        0 <= y < height,
    ensures
        0 <= y * width + x < width * height,
        y * width <= width * height,
{
    assert(0 <= y * width + x < width * height && y * width <= width * height)
        by (nonlinear_arith)
        requires
            0 <= x < width,
            0 <= y < height,
    ;
}

/// Pixels of different rows have different places.
proof fn lemma_rows_apart(width: int, x: int, y: int, other: int)
    requires
        0 <= x < width,
        0 <= y,
        0 <= other,
        y != other,
    ensures
        !(other * width <= y * width + x < other * width + width),
{
    if y < other {
        assert(y * width + x < other * width) by (nonlinear_arith)
            requires
                0 <= x < width,
                0 <= y < other,
        ;
    } else {
        assert(y * width + x >= other * width + width) by (nonlinear_arith)
            requires
                0 <= x < width,
                0 <= other < y,
        ;
    }
}

} // verus!
