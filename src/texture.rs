use vstd::prelude::*;

verus! {

/// Packs the channels of one texel into a 32-bit ARGB word.
pub open spec fn argb_word(a: u8, r: u8, g: u8, b: u8) -> u32 {
    (a as int * 0x100_0000 + r as int * 0x1_0000 + g as int * 0x100 + b as int) as u32
}

/// The texel that an opaque RGB colour word becomes: alpha 255, then the
/// red, green and blue bytes of the word.
pub open spec fn opaque_texel(c: u32) -> (u8, u8, u8, u8) {
    (255u8, (c >> 16u32) as u8, (c >> 8u32) as u8, c as u8)
}

/// The four bytes that start at byte `4 * j`.
pub open spec fn bytes_of_texel(data: Seq<u8>, j: int) -> (u8, u8, u8, u8) {
    (data[4 * j], data[4 * j + 1], data[4 * j + 2], data[4 * j + 3])
}

/// `v` limited to the closed range `lo..=hi`.
pub open spec fn clamp(v: int, lo: int, hi: int) -> int {
    if v < lo {
        lo
    } else if v > hi {
        hi
    } else {
        v
    }
}

proof fn lemma_texel_in_range(x: int, y: int, w: int, h: int)
    requires
        0 <= x < w,
        0 <= y < h,
    ensures
        0 <= x + y * w,
        (x + y * w) * 4 + 4 <= w * h * 4,
{
    assert(y * w <= (h - 1) * w) by (nonlinear_arith)
        requires
            0 <= y < h,
            0 <= w,
    ;
    assert((h - 1) * w == h * w - w) by (nonlinear_arith);
    assert(0 <= y * w) by (nonlinear_arith)
        requires
            0 <= y,
            0 <= w,
    ;
    assert(w * h == h * w) by (nonlinear_arith);
}

/// A texture of `width` x `height` texels, four bytes each in the order
/// alpha, red, green, blue, stored row after row.
pub struct BitmapTexture {
    pub width: i32,
    pub height: i32,
    pub data: Vec<u8>,
}

impl BitmapTexture {
    /// The buffer holds exactly four bytes for every texel, and every byte
    /// offset fits the 32-bit arithmetic that addresses it.
    pub open spec fn wf(&self) -> bool {
        &&& 0 <= self.width
        &&& 0 <= self.height
        &&& self.width * self.height * 4 <= i32::MAX
        &&& self.data@.len() == self.width * self.height * 4
    }

    pub open spec fn in_bounds(&self, x: int, y: int) -> bool {
        0 <= x < self.width && 0 <= y < self.height
    }

    /// Byte offset of texel `(x, y)`.
    pub open spec fn offset(&self, x: int, y: int) -> int {
        (x + y * self.width) * 4
    }

    /// The channels `(a, r, g, b)` of texel `(x, y)`.
    pub open spec fn texel(&self, x: int, y: int) -> (u8, u8, u8, u8) {
        let i = self.offset(x, y);
        (self.data@[i], self.data@[i + 1], self.data@[i + 2], self.data@[i + 3])
    }

    /// The ARGB word of texel `(x, y)`.
    pub open spec fn argb_at(&self, x: int, y: int) -> u32 {
        let t = self.texel(x, y);
        argb_word(t.0, t.1, t.2, t.3)
    }

    /// The ARGB word that sampling at `(x, y)` reads: the coordinates are
    /// first clamped to the texture.
    pub open spec fn sampled(&self, x: int, y: int) -> u32 {
        self.argb_at(clamp(x, 0, self.width - 1), clamp(y, 0, self.height - 1))
    }

    /// A texture of the given size whose bytes are all zero.
    pub fn new(width: i32, height: i32) -> (t: BitmapTexture)
        requires
            0 <= width,
            0 <= height,
            width * height * 4 <= i32::MAX,
        ensures
            t.wf(),
            t.width == width,
            t.height == height,
            forall|i: int| 0 <= i < t.data@.len() ==> t.data@[i] == 0,
    {
        assert(0 <= width * height) by (nonlinear_arith)
            requires
                0 <= width,
                0 <= height,
        ;
        let n: i32 = width * height * 4;
        let data = vec![0u8; n as usize];
        BitmapTexture { width, height, data }
    }

    /// A texture of the given size whose texel `(x, y)` is the opaque colour
    /// `pixels[x + y * width]`.
    pub fn from_argb_pixels(width: i32, height: i32, pixels: &Vec<u32>) -> (t: BitmapTexture)
        requires
            0 <= width,
            0 <= height,
            width * height * 4 <= i32::MAX,
            pixels@.len() == width * height,
        ensures
            t.wf(),
            t.width == width,
            t.height == height,
            forall|x: int, y: int|
                t.in_bounds(x, y) ==> #[trigger] t.texel(x, y) == opaque_texel(
                    pixels@[x + y * width],
                ),
    {
        let mut texture = BitmapTexture::new(width, height);
        let mut y: i32 = 0;
        while y < height
            invariant
                texture.wf(),
                texture.width == width,
                texture.height == height,
                pixels@.len() == width * height,
                0 <= y <= height,
                forall|j: int|
                    0 <= j < y * width ==> #[trigger] bytes_of_texel(texture.data@, j)
                        == opaque_texel(pixels@[j]),
            decreases height - y,
        {
            let mut x: i32 = 0;
            while x < width
                invariant
                    texture.wf(),
                    texture.width == width,
                    texture.height == height,
                    pixels@.len() == width * height,
                    0 <= y < height,
                    0 <= x <= width,
                    forall|j: int|
                        0 <= j < y * width + x ==> #[trigger] bytes_of_texel(texture.data@, j)
                            == opaque_texel(pixels@[j]),
                decreases width - x,
            {
                proof {
                    lemma_texel_in_range(x as int, y as int, width as int, height as int);
                }
                let c = pixels[(x + y * width) as usize];
                let ghost before = texture.data@;
                texture.set_pixel(x, y, 255, (c >> 16u32) as u8, (c >> 8u32) as u8, c as u8);
                proof {
                    let k = x + y * width;
                    assert forall|j: int| 0 <= j < k + 1 implies #[trigger] bytes_of_texel(
                        texture.data@,
                        j,
                    ) == opaque_texel(pixels@[j]) by {
                        if j < k {
                            assert(bytes_of_texel(texture.data@, j) == bytes_of_texel(before, j));
                        }
                    }
                }
                x = x + 1;
            }
            assert((y + 1) * width == y * width + width) by (nonlinear_arith);
            y = y + 1;
        }
        proof {
            assert forall|x: int, y: int| texture.in_bounds(x, y) implies #[trigger] texture.texel(
                x,
                y,
            ) == opaque_texel(pixels@[x + y * width]) by {
                lemma_texel_in_range(x, y, width as int, height as int);
                assert(height * width == width * height) by (nonlinear_arith);
                assert(texture.texel(x, y) == bytes_of_texel(texture.data@, x + y * width));
            }
        }
        texture
    }

    /// Writes the four channels of texel `(x, y)`; every other byte is kept.
    pub fn set_pixel(&mut self, x: i32, y: i32, a: u8, r: u8, g: u8, b: u8)
        requires
            old(self).wf(),
            old(self).in_bounds(x as int, y as int),
        ensures
            final(self).wf(),
            final(self).width == old(self).width,
            final(self).height == old(self).height,
            final(self).data@ == old(self).data@.update(old(self).offset(x as int, y as int), a).update(
                old(self).offset(x as int, y as int) + 1,
                r,
            ).update(old(self).offset(x as int, y as int) + 2, g).update(
                old(self).offset(x as int, y as int) + 3,
                b,
            ),
            final(self).texel(x as int, y as int) == (a, r, g, b),
    {
        proof {
            lemma_texel_in_range(x as int, y as int, self.width as int, self.height as int);
        }
        let idx = ((x + y * self.width) * 4) as usize;
        self.data.set(idx, a);
        self.data.set(idx + 1, r);
        self.data.set(idx + 2, g);
        self.data.set(idx + 3, b);
    }

    /// The channels `(a, r, g, b)` of texel `(x, y)`.
    pub fn get_pixel(&self, x: i32, y: i32) -> (p: (u8, u8, u8, u8))
        requires
            self.wf(),
            self.in_bounds(x as int, y as int),
        ensures
            p == self.texel(x as int, y as int),
    {
        proof {
            lemma_texel_in_range(x as int, y as int, self.width as int, self.height as int);
        }
        let tex_idx = ((x + y * self.width) * 4) as usize;
        let a = self.data[tex_idx];
        let r = self.data[tex_idx + 1];
        let g = self.data[tex_idx + 2];
        let b = self.data[tex_idx + 3];
        (a, r, g, b)
    }

    /// Texel `(x, y)` as one ARGB word.
    pub fn get_argb(&self, x: i32, y: i32) -> (c: u32)
        requires
            self.wf(),
            self.in_bounds(x as int, y as int),
        ensures
            c == self.argb_at(x as int, y as int),
    {
        let (a, r, g, b) = self.get_pixel(x, y);
        pack_argb(a, r, g, b)
    }

    /// The ARGB word at `(x, y)` after clamping both coordinates into the
    /// texture, so that rounding at the texture's border never reads outside it.
    pub fn sample(&self, x: i32, y: i32) -> (c: u32)
        requires
            self.wf(),
            0 < self.width,
            0 < self.height,
        ensures
            c == self.sampled(x as int, y as int),
    {
        let cx = if x < 0 {
            0
        } else if x > self.width - 1 {
            self.width - 1
        } else {
            x
        };
        let cy = if y < 0 {
            0
        } else if y > self.height - 1 {
            self.height - 1
        } else {
            y
        };
        self.get_argb(cx, cy)
    }
}

/// Packs the four channels into one ARGB word.
pub fn pack_argb(a: u8, r: u8, g: u8, b: u8) -> (c: u32)
    ensures
        c == argb_word(a, r, g, b),
{
    let c = ((a as u32) << 24u32) | ((r as u32) << 16u32) | ((g as u32) << 8u32) | (b as u32);
    assert(c == argb_word(a, r, g, b)) by (bit_vector)
        requires
            c == ((a as u32) << 24u32) | ((r as u32) << 16u32) | ((g as u32) << 8u32) | (b as u32),
    ;
    c
}

} // verus!
