//! Premultiplied RGBA8 pixel buffers.
//!
//! A pixel is four bytes, red, green, blue, alpha. Rows follow one another
//! without padding: byte 0 of pixel `(x, y)` is at offset `4 * (y * width + x)`.

use vstd::prelude::*;

verus! {

/// The widest row that a pixel buffer can have: its bytes must number less
/// than 2^31.
pub const MAX_WIDTH: u32 = 0x1fff_ffff;

/// A colour channel scaled by the pixel's alpha.
pub open spec fn premultiplied_channel(c: u8, a: u8) -> u8 {
    if a == 255 {
        c
    } else {
        (c * a / 255) as u8
    }
}

/// The bytes of straight RGBA8 pixels after premultiplication.
///
/// Each colour channel of a complete pixel is scaled by that pixel's alpha;
/// alpha itself stays, and so do the bytes of an incomplete last pixel.
pub open spec fn premultiplied(data: Seq<u8>) -> Seq<u8> {
    Seq::new(
        data.len(),
        |i: int|
            if i % 4 == 3 || i / 4 * 4 + 3 >= data.len() {
                data[i]
            } else {
                premultiplied_channel(data[i], data[i / 4 * 4 + 3])
            },
    )
}

/// No colour channel of a complete pixel exceeds the pixel's alpha.
pub open spec fn is_premultiplied(data: Seq<u8>) -> bool {
    forall|p: int, c: int|
        #![trigger data[4 * p + c]]
        0 <= p && 4 * p + 3 < data.len() && 0 <= c < 3 ==> data[4 * p + c] <= data[4 * p + 3]
}

/// Whether `len` bytes are exactly the pixels of a `width` by `height` buffer.
pub open spec fn fits(len: nat, width: u32, height: u32) -> bool {
    &&& 0 < width <= MAX_WIDTH
    &&& 0 < height
    &&& len == 4 * width * height
}

proof fn lemma_channel_bounded(c: u8, a: u8)
    ensures
        premultiplied_channel(c, a) <= a,
        c * a / 255 <= 254 || a == 255,
{
    assert(c * a <= 255 * a) by (nonlinear_arith)
        requires
            c <= 255,
            a >= 0,
    ;
    if a < 255 {
        assert(c * a <= 255 * 254) by (nonlinear_arith)
            requires
                0 <= c <= 255,
                0 <= a <= 254,
        ;
    }
}

/// Premultiplication establishes the premultiplied form.
pub proof fn lemma_premultiplied_is_premultiplied(data: Seq<u8>)
    ensures
        is_premultiplied(premultiplied(data)),
        premultiplied(data).len() == data.len(),
{
    let out = premultiplied(data);
    assert forall|p: int, c: int|
        #![trigger out[4 * p + c]]
        0 <= p && 4 * p + 3 < out.len() && 0 <= c < 3 implies out[4 * p + c] <= out[4 * p + 3] by {
        let i = 4 * p + c;
        assert(i / 4 == p && i % 4 == c);
        assert((4 * p + 3) % 4 == 3);
        lemma_channel_bounded(data[i], data[4 * p + 3]);
    }
}

/// Every pixel of a buffer lies wholly inside it.
proof fn lemma_pixel_offset(w: int, h: int, x: int, y: int)
    by (nonlinear_arith)
    requires
        0 <= x < w,
        0 <= y < h,
    ensures
        0 <= y * w,
        4 * (y * w + x) + 3 < 4 * w * h,
{
}

fn scale(c: u8, a: u8) -> (r: u8)
    requires
        a != 255,
    ensures
        r == premultiplied_channel(c, a),
{
    proof {
        lemma_channel_bounded(c, a);
    }
    let wide: u16 = (c as u16) * (a as u16) / 255;
    wide as u8
}

/// Premultiplies straight RGBA8 pixels in place.
pub fn premultiply(data: &mut Vec<u8>)
    ensures
        final(data)@ == premultiplied(old(data)@),
{
    let n: usize = data.len();
    let mut i: usize = 0;
    while n - i >= 4
        invariant
            data.len() == n,
            n == old(data).len(),
            i <= n,
            i % 4 == 0,
            forall|k: int| 0 <= k < i ==> data@[k] == premultiplied(old(data)@)[k],
            forall|k: int| i <= k < n ==> data@[k] == old(data)@[k],
        decreases n - i,
    {
        let a: u8 = data[i + 3];
        if a != 255 {
            let r: u8 = scale(data[i], a);
            let g: u8 = scale(data[i + 1], a);
            let b: u8 = scale(data[i + 2], a);
            data.set(i, r);
            data.set(i + 1, g);
            data.set(i + 2, b);
        }
        proof {
            assert forall|k: int| i <= k < i + 4 implies data@[k] == premultiplied(old(data)@)[k] by {
                assert(k / 4 * 4 == i);
            }
        }
        i += 4;
    }
    proof {
        assert forall|k: int| i <= k < n implies data@[k] == premultiplied(old(data)@)[k] by {
            assert(k / 4 * 4 == i);
        }
        assert(data@ =~= premultiplied(old(data)@));
    }
}

/// A transparent frame of the given size: four zero bytes per pixel, none
/// for a size without pixels. There is no frame where the size is too large
/// to address.
pub fn blank_frame(width: u32, height: u32) -> (frame: Option<Vec<u8>>)
    ensures
        frame is Some <==> width == 0 || height == 0 || (width <= MAX_WIDTH && 4 * width * height
            <= usize::MAX),
        frame matches Some(bytes) ==> {
            &&& bytes@.len() == 4 * width * height
            &&& forall|i: int| 0 <= i < bytes@.len() ==> bytes@[i] == 0
        },
{
    if width == 0 || height == 0 {
        assert(4 * width * height == 0) by (nonlinear_arith)
            requires
                width == 0 || height == 0,
        ;
        return Some(Vec::new());
    }
    if width > MAX_WIDTH {
        return None;
    }
    assert(4 * width * height <= 4 * 0x1fff_ffff * 0xffff_ffff) by (nonlinear_arith)
        requires
            0 < width <= 0x1fff_ffff,
            0 < height <= 0xffff_ffff,
    ;
    let want: u64 = 4 * (width as u64) * (height as u64);
    if want > usize::MAX as u64 {
        return None;
    }
    let bytes: Vec<u8> = vec![0u8; want as usize];
    Some(bytes)
}

/// An image in premultiplied RGBA8.
pub struct Raster {
    width: u32,
    height: u32,
    data: Vec<u8>,
}

impl Raster {
    #[verifier::type_invariant]
    spec fn inv(self) -> bool {
        &&& fits(self.data@.len(), self.width, self.height)
        &&& is_premultiplied(self.data@)
    }

    /// The number of pixels in a row.
    pub closed spec fn spec_width(&self) -> u32 {
        self.width
    }

    /// The number of rows.
    pub closed spec fn spec_height(&self) -> u32 {
        self.height
    }

    /// The pixels' bytes, row by row.
    pub closed spec fn view(&self) -> Seq<u8> {
        self.data@
    }

    /// Makes a raster from straight RGBA8 pixels, premultiplying them.
    /// There is none where the bytes do not fit the size.
    pub fn from_straight(data: Vec<u8>, width: u32, height: u32) -> (r: Option<Raster>)
        ensures
            r is Some <==> fits(data@.len(), width, height),
            r matches Some(raster) ==> {
                &&& raster.spec_width() == width
                &&& raster.spec_height() == height
                &&& raster@ == premultiplied(data@)
            },
    {
        if width == 0 || height == 0 || width > MAX_WIDTH {
            return None;
        }
        assert(4 * width * height <= 4 * 0x1fff_ffff * 0xffff_ffff) by (nonlinear_arith)
            requires
                0 < width <= 0x1fff_ffff,
                0 < height <= 0xffff_ffff,
        ;
        let want: u64 = 4 * (width as u64) * (height as u64);
        if data.len() as u64 != want {
            return None;
        }
        let mut data = data;
        let ghost straight = data@;
        premultiply(&mut data);
        proof {
            lemma_premultiplied_is_premultiplied(straight);
        }
        Some(Raster { width, height, data })
    }

    pub fn width(&self) -> (w: u32)
        ensures
            w == self.spec_width(),
    {
        self.width
    }

    pub fn height(&self) -> (h: u32)
        ensures
            h == self.spec_height(),
    {
        self.height
    }

    /// The pixels' bytes, row by row. They fit the raster's size, and no
    /// colour channel among them exceeds its pixel's alpha.
    pub fn data(&self) -> (bytes: &[u8])
        ensures
            bytes@ == self@,
            fits(bytes@.len(), self.spec_width(), self.spec_height()),
            is_premultiplied(bytes@),
    {
        proof {
            use_type_invariant(self);
        }
        self.data.as_slice()
    }

    /// The pixel in column `x` of row `y`, where the raster has one.
    pub fn pixel(&self, x: u32, y: u32) -> (p: Option<(u8, u8, u8, u8)>)
        ensures
            p is Some <==> x < self.spec_width() && y < self.spec_height(),
            p matches Some(px) ==> {
                let at = 4 * (y * self.spec_width() + x);
                &&& at + 3 < self@.len()
                &&& px == (self@[at], self@[at + 1], self@[at + 2], self@[at + 3])
                &&& px.0 <= px.3 && px.1 <= px.3 && px.2 <= px.3
            },
    {
        proof {
            use_type_invariant(self);
        }
        if x >= self.width || y >= self.height {
            return None;
        }
        proof {
            lemma_pixel_offset(self.width as int, self.height as int, x as int, y as int);
        }
        let len: usize = self.data.len();
        assert(4 * (y * self.width + x) + 3 < len);
        let index: u64 = (y as u64) * (self.width as u64) + (x as u64);
        let at: usize = (4 * index) as usize;
        let px = (self.data[at], self.data[at + 1], self.data[at + 2], self.data[at + 3]);
        proof {
            let p = index as int;
            assert(self.data@[4 * p + 0] <= self.data@[4 * p + 3]);
            assert(self.data@[4 * p + 1] <= self.data@[4 * p + 3]);
            assert(self.data@[4 * p + 2] <= self.data@[4 * p + 3]);
        }
        Some(px)
    }
}

} // verus!
