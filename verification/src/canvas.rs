//! RGBA pixel buffers.
//!
//! Glyph bitmaps and atlas pages are buffers of the `image` crate. The
//! verifier sees one through three ghost functions: its width, its height and
//! its bytes in row-major RGBA order. The private functions of this module tie
//! the crate's operations to those three; everything else is proved from them.

use vstd::prelude::*;

verus! {

/// One pixel: red, green, blue and alpha.
#[derive(Clone, Copy, Debug, PartialEq, Eq, Structural)]
pub struct Rgba8 {
    pub r: u8,
    pub g: u8,
    pub b: u8,
    pub a: u8,
}

/// The buffer type of the `image` crate with eight bits per channel.
#[verifier::external_body]
pub struct RawImage {
    buf: image::RgbaImage,
}

/// Width in pixels of a buffer.
pub uninterp spec fn raw_width(img: RawImage) -> u32;

/// Height in pixels of a buffer.
pub uninterp spec fn raw_height(img: RawImage) -> u32;

/// The bytes of a buffer: four per pixel (red, green, blue, alpha), rows from
/// top to bottom, each row from left to right.
pub uninterp spec fn raw_data(img: RawImage) -> Seq<u8>;

/// The bytes that `image::imageops::overlay` leaves in a bottom buffer of the
/// given size and bytes, after blending a top buffer into it with the top's
/// upper left corner at `(x, y)`.
pub uninterp spec fn overlay_data(
    bottom: Seq<u8>,
    bottom_width: u32,
    bottom_height: u32,
    top: Seq<u8>,
    top_width: u32,
    top_height: u32,
    x: i64,
    y: i64,
) -> Seq<u8>;

/// What the verifier knows of a buffer.
pub struct CanvasView {
    pub width: int,
    pub height: int,
    pub data: Seq<u8>,
}

impl CanvasView {
    /// The bytes are exactly those of `width * height` pixels.
    pub open spec fn wf(self) -> bool {
        &&& 0 <= self.width
        &&& 0 <= self.height
        &&& self.data.len() == 4 * (self.width * self.height)
    }

    /// Whether `(x, y)` is a pixel of the buffer.
    pub open spec fn contains(self, x: int, y: int) -> bool {
        0 <= x < self.width && 0 <= y < self.height
    }

    /// Index in `data` of the first byte of pixel `(x, y)`.
    pub open spec fn offset(self, x: int, y: int) -> int {
        4 * (y * self.width + x)
    }

    /// The pixel at `(x, y)`.
    pub open spec fn pixel(self, x: int, y: int) -> Rgba8 {
        let k = self.offset(x, y);
        Rgba8 { r: self.data[k], g: self.data[k + 1], b: self.data[k + 2], a: self.data[k + 3] }
    }

    /// Some pixel is not fully transparent.
    pub open spec fn visible(self) -> bool {
        exists|i: int| 0 <= i < self.data.len() && i % 4 == 3 && #[trigger] self.data[i] != 0
    }

    /// A fully transparent buffer of the given size.
    pub open spec fn blank(width: int, height: int) -> CanvasView {
        CanvasView { width, height, data: Seq::new((4 * (width * height)) as nat, |i: int| 0u8) }
    }

    /// The buffer with one pixel replaced.
    pub open spec fn with_pixel(self, x: int, y: int, p: Rgba8) -> CanvasView {
        let k = self.offset(x, y);
        CanvasView {
            width: self.width,
            height: self.height,
            data: self.data.update(k, p.r).update(k + 1, p.g).update(k + 2, p.b).update(k + 3, p.a),
        }
    }

    /// The buffer after `top` was blended into it with the upper left corner
    /// of `top` at `(x, y)`.
    pub open spec fn overlaid(self, top: CanvasView, x: i64, y: i64) -> CanvasView {
        CanvasView {
            width: self.width,
            height: self.height,
            data: overlay_data(
                self.data,
                self.width as u32,
                self.height as u32,
                top.data,
                top.width as u32,
                top.height as u32,
                x,
                y,
            ),
        }
    }

    /// The `width * height` pixels of the buffer whose upper left corner is
    /// `(x, y)`, as a buffer.
    pub open spec fn cropped(self, x: int, y: int, width: int, height: int) -> CanvasView {
        CanvasView {
            width,
            height,
            data: Seq::new(
                (4 * (width * height)) as nat,
                |i: int|
                    self.data[4 * ((y + (i / 4) / width) * self.width + (x + (i / 4) % width)) + i
                        % 4],
            ),
        }
    }
}

impl View for RawImage {
    type V = CanvasView;

    open spec fn view(&self) -> CanvasView {
        CanvasView {
            width: raw_width(*self) as int,
            height: raw_height(*self) as int,
            data: raw_data(*self),
        }
    }
}

/// `image::ImageBuffer::new`: a buffer of the given size with every byte zero.
/// It panics where the bytes would not fit a vector, which `requires` excludes.
#[verifier::external_body]
fn raw_new(width: u32, height: u32) -> (img: RawImage)
    requires
        buffer_fits(width as int, height as int),
    ensures
        img@ == CanvasView::blank(width as int, height as int),
{
    RawImage { buf: image::ImageBuffer::new(width, height) }
}

/// `image::ImageBuffer::width`.
#[verifier::external_body]
fn raw_get_width(img: &RawImage) -> (w: u32)
    ensures
        w == raw_width(*img),
{
    img.buf.width()
}

/// `image::ImageBuffer::height`.
#[verifier::external_body]
fn raw_get_height(img: &RawImage) -> (h: u32)
    ensures
        h == raw_height(*img),
{
    img.buf.height()
}

/// `image::ImageBuffer::as_raw`: the bytes of the buffer.
#[verifier::external_body]
fn raw_bytes(img: &RawImage) -> (data: &Vec<u8>)
    ensures
        data@ == raw_data(*img),
{
    img.buf.as_raw()
}

/// `image::ImageBuffer::put_pixel`: writes the four bytes of the pixel at
/// `(x, y)` and nothing else. It panics outside the buffer, which `requires`
/// excludes, and nowhere else.
#[verifier::external_body]
fn raw_put_pixel(img: &mut RawImage, x: u32, y: u32, p: Rgba8)
    requires
        x < raw_width(*old(img)),
        y < raw_height(*old(img)),
    ensures
        final(img)@ == old(img)@.with_pixel(x as int, y as int, p),
    no_unwind
{
    img.buf.put_pixel(x, y, image::Rgba([p.r, p.g, p.b, p.a]));
}

/// `image::imageops::overlay`: blends `top` into `bottom` in place, pixel by
/// pixel, where the two overlap. The size of `bottom` and the number of its
/// bytes stay; the bytes become what `overlay_data` names. It does not panic.
#[verifier::external_body]
fn raw_overlay(bottom: &mut RawImage, top: &RawImage, x: i64, y: i64)
    ensures
        raw_width(*final(bottom)) == raw_width(*old(bottom)),
        raw_height(*final(bottom)) == raw_height(*old(bottom)),
        raw_data(*final(bottom)).len() == raw_data(*old(bottom)).len(),
        raw_data(*final(bottom)) == overlay_data(
            raw_data(*old(bottom)),
            raw_width(*old(bottom)),
            raw_height(*old(bottom)),
            raw_data(*top),
            raw_width(*top),
            raw_height(*top),
            x,
            y,
        ),
    no_unwind
{
    image::imageops::overlay(&mut bottom.buf, &top.buf, x, y);
}

/// `image::imageops::crop_imm`, copied out with `image::SubImage::to_image`:
/// a new buffer that holds the `width * height` pixels of `img` from
/// `(x, y)` on. (The crate cuts a request that reaches beyond the buffer down
/// to the buffer; `requires` leaves that case out.)
#[verifier::external_body]
fn raw_crop(img: &RawImage, x: u32, y: u32, width: u32, height: u32) -> (out: RawImage)
    requires
        x + width <= raw_width(*img),
        y + height <= raw_height(*img),
    ensures
        out@ == img@.cropped(x as int, y as int, width as int, height as int),
{
    RawImage { buf: image::imageops::crop_imm(&img.buf, x, y, width, height).to_image() }
}

/// Distinct pixels of a row-major buffer start at distinct offsets.
pub proof fn lemma_offsets_differ(w: int, x1: int, y1: int, x2: int, y2: int)
    requires
        0 <= x1 < w,
        0 <= x2 < w,
        0 <= y1,
        0 <= y2,
        x1 != x2 || y1 != y2,
    ensures
        y1 * w + x1 != y2 * w + x2,
{
    if y1 < y2 {
        assert(y1 * w + w <= y2 * w) by (nonlinear_arith)
            requires
                y1 + 1 <= y2,
                w > 0,
        ;
    } else if y2 < y1 {
        assert(y2 * w + w <= y1 * w) by (nonlinear_arith)
            requires
                y2 + 1 <= y1,
                w > 0,
        ;
    }
}

/// The pixels of a `w * h` buffer lie inside its `w * h` cells.
pub proof fn lemma_offset_bound(w: int, h: int, x: int, y: int)
    requires
        0 <= x < w,
        0 <= y < h,
    ensures
        0 <= y * w + x < w * h,
{
    assert(y * w + w <= h * w) by (nonlinear_arith)
        requires
            y + 1 <= h,
            w > 0,
    ;
    assert(0 <= y * w) by (nonlinear_arith)
        requires
            0 <= y,
            w > 0,
    ;
    assert(h * w == w * h) by (nonlinear_arith);
}

/// Writing one pixel changes that pixel and no other.
pub proof fn lemma_with_pixel(v: CanvasView, x: int, y: int, p: Rgba8, px: int, py: int)
    requires
        v.wf(),
        v.contains(x, y),
        v.contains(px, py),
    ensures
        v.with_pixel(x, y, p).wf(),
        v.with_pixel(x, y, p).pixel(px, py) == (if px == x && py == y {
            p
        } else {
            v.pixel(px, py)
        }),
{
    lemma_offset_bound(v.width, v.height, x, y);
    lemma_offset_bound(v.width, v.height, px, py);
    if px != x || py != y {
        lemma_offsets_differ(v.width, x, y, px, py);
    }
}

/// Every pixel of a blank buffer is zero in all four channels.
pub proof fn lemma_blank_pixel(width: int, height: int, px: int, py: int)
    requires
        0 <= px < width,
        0 <= py < height,
    ensures
        CanvasView::blank(width, height).wf(),
        CanvasView::blank(width, height).pixel(px, py) == (Rgba8 { r: 0, g: 0, b: 0, a: 0 }),
{
    lemma_offset_bound(width, height, px, py);
}

/// Two well-formed buffers of one size that agree in every pixel are the
/// same buffer.
pub proof fn lemma_pixels_determine(a: CanvasView, b: CanvasView)
    requires
        a.wf(),
        b.wf(),
        a.width == b.width,
        a.height == b.height,
        forall|px: int, py: int| a.contains(px, py) ==> #[trigger] a.pixel(px, py) == b.pixel(px, py),
    ensures
        a == b,
{
    let w = a.width;
    let h = a.height;
    assert forall|k: int| 0 <= k < a.data.len() implies a.data[k] == b.data[k] by {
        let q = k / 4;
        assert(0 <= q < w * h);
        if w <= 0 {
            assert(w * h == 0) by (nonlinear_arith)
                requires
                    w == 0,
            ;
        }
        let x = q % w;
        let y = q / w;
        vstd::arithmetic::div_mod::lemma_fundamental_div_mod(q, w);
        vstd::arithmetic::div_mod::lemma_mod_pos_bound(q, w);
        assert(0 <= y < h) by (nonlinear_arith)
            requires
                q == w * y + x,
                0 <= x < w,
                0 <= q < w * h,
        ;
        assert(w * y == y * w) by (nonlinear_arith);
        assert(a.contains(x, y));
        assert(a.pixel(x, y) == b.pixel(x, y));
        assert(a.offset(x, y) == 4 * q);
    }
    assert(a.data =~= b.data);
}

/// A pixel buffer whose bytes are exactly those of its `width * height`
/// pixels.
pub struct Canvas {
    raw: RawImage,
}

impl View for Canvas {
    type V = CanvasView;

    closed spec fn view(&self) -> CanvasView {
        self.raw@
    }
}

impl Canvas {
    #[verifier::type_invariant]
    spec fn inv(self) -> bool {
        self.raw@.wf()
    }

    /// A fully transparent buffer, or `None` where its bytes would not fit
    /// in memory.
    pub fn new(width: u32, height: u32) -> (r: Option<Canvas>)
        ensures
            r is Some <==> buffer_fits(width as int, height as int),
            r matches Some(c) ==> c@ == CanvasView::blank(width as int, height as int),
    {
        if fits_in_memory(width, height) {
            let raw: RawImage = raw_new(width, height);
            assert(raw@.wf());
            Some(Canvas { raw })
        } else {
            None
        }
    }

    /// Width in pixels.
    pub fn width(&self) -> (w: u32)
        ensures
            w == self@.width,
            self@.wf(),
    {
        proof {
            use_type_invariant(self);
        }
        raw_get_width(&self.raw)
    }

    /// Height in pixels.
    pub fn height(&self) -> (h: u32)
        ensures
            h == self@.height,
            self@.wf(),
    {
        proof {
            use_type_invariant(self);
        }
        raw_get_height(&self.raw)
    }

    /// The bytes, four per pixel, row by row.
    pub fn bytes(&self) -> (data: &Vec<u8>)
        ensures
            data@ == self@.data,
            self@.wf(),
    {
        proof {
            use_type_invariant(self);
        }
        raw_bytes(&self.raw)
    }

    /// Writes one pixel. Outside the buffer nothing is written and the
    /// result is `false`.
    pub fn set_pixel(&mut self, x: u32, y: u32, p: Rgba8) -> (done: bool)
        ensures
            done == old(self)@.contains(x as int, y as int),
            final(self)@ == if done {
                old(self)@.with_pixel(x as int, y as int, p)
            } else {
                old(self)@
            },
            final(self)@.wf(),
    {
        proof {
            use_type_invariant(&*self);
        }
        if x < raw_get_width(&self.raw) && y < raw_get_height(&self.raw) {
            proof {
                let v = self.raw@;
                lemma_offset_bound(v.width, v.height, x as int, y as int);
                assert(v.with_pixel(x as int, y as int, p).wf());
            }
            raw_put_pixel(&mut self.raw, x, y, p);
            true
        } else {
            false
        }
    }

    /// Whether some pixel is not fully transparent.
    pub fn has_visible_pixel(&self) -> (b: bool)
        ensures
            b == self@.visible(),
    {
        let data: &Vec<u8> = raw_bytes(&self.raw);
        let n: usize = data.len();
        let mut i: usize = 0;
        while i < n
            invariant
                n == data@.len(),
                data@ == self@.data,
                i <= n,
                forall|j: int| 0 <= j < i && j % 4 == 3 ==> data@[j] == 0,
            decreases n - i,
        {
            if i % 4 == 3 && data[i] != 0 {
                return true;
            }
            i += 1;
        }
        false
    }

    /// Blends `top` into this buffer with the upper left corner of `top` at
    /// `(x, y)`; what falls outside is dropped.
    pub fn overlay(&mut self, top: &Canvas, x: i64, y: i64)
        ensures
            final(self)@ == old(self)@.overlaid(top@, x, y),
    {
        proof {
            use_type_invariant(&*self);
        }
        raw_overlay(&mut self.raw, &top.raw, x, y);
    }

    /// A copy of the upper left corner of this buffer, `width` by `height`
    /// pixels or as much of that as the buffer has.
    pub fn crop(&self, width: u32, height: u32) -> (out: Canvas)
        ensures
            out@ == self@.cropped(
                0,
                0,
                if width <= self@.width { width as int } else { self@.width },
                if height <= self@.height { height as int } else { self@.height },
            ),
    {
        let sw: u32 = raw_get_width(&self.raw);
        let sh: u32 = raw_get_height(&self.raw);
        let w: u32 = if width <= sw { width } else { sw };
        let h: u32 = if height <= sh { height } else { sh };
        let raw: RawImage = raw_crop(&self.raw, 0, 0, w, h);
        assert(0 <= w * h) by (nonlinear_arith)
            requires
                0 <= w,
                0 <= h,
        ;
        Canvas { raw }
    }
}

/// Whether the bytes of a `width * height` buffer, four to the pixel, fit
/// in one allocation.
pub open spec fn buffer_fits(width: int, height: int) -> bool {
    4 * (width * height) <= isize::MAX
}

/// Whether a buffer of the given size can be allocated.
pub fn fits_in_memory(width: u32, height: u32) -> (b: bool)
    ensures
        b == buffer_fits(width as int, height as int),
{
    assert(width * height <= 0xffff_ffff * 0xffff_ffff) by (nonlinear_arith)
        requires
            width <= 0xffff_ffff,
            height <= 0xffff_ffff,
    ;
    (width as u64) * (height as u64) <= (isize::MAX as u64) / 4
}

} // verus!
