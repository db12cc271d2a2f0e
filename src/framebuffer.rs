use vstd::prelude::*;

use crate::texture::BitmapTexture;

verus! {

/// Row-major position `x + y * w` is the same for two points of a grid `w`
/// wide only when the points are the same.
proof fn lemma_linear_index_injective(x1: int, y1: int, x2: int, y2: int, w: int)
    requires
        0 <= x1 < w,
        0 <= x2 < w,
        0 <= y1,
        0 <= y2,
        x1 + y1 * w == x2 + y2 * w,
    ensures
        x1 == x2,
        y1 == y2,
{
    if y1 < y2 {
        assert(x1 + y1 * w < x2 + y2 * w) by (nonlinear_arith)
            requires
                0 <= x1 < w,
                0 <= x2,
                0 <= y1 < y2,
        ;
    } else if y2 < y1 {
        assert(x2 + y2 * w < x1 + y1 * w) by (nonlinear_arith)
            requires
                0 <= x2 < w,
                0 <= x1,
                0 <= y2 < y1,
        ;
    }
}

proof fn lemma_linear_index_in_range(x: int, y: int, w: int, h: int)
    requires
        0 <= x < w,
        0 <= y < h,
    ensures
        0 <= x + y * w < w * h,
{
    assert(0 <= y * w <= (h - 1) * w) by (nonlinear_arith)
        requires
            0 <= y < h,
            0 <= w,
    ;
    assert((h - 1) * w == w * h - w) by (nonlinear_arith);
}

/// The surface that the rasterizer draws into: `width` x `height` ARGB
/// words, row after row. It is owned by one drawing pass at a time.
pub struct Framebuffer {
    pub width: i32,
    pub height: i32,
    pub pixels: Vec<u32>,
}

impl Framebuffer {
    pub open spec fn wf(&self) -> bool {
        &&& 0 <= self.width
        &&& 0 <= self.height
        &&& self.width * self.height <= i32::MAX
        &&& self.pixels@.len() == self.width * self.height
    }

    pub open spec fn in_bounds(&self, x: int, y: int) -> bool {
        0 <= x < self.width && 0 <= y < self.height
    }

    /// The colour of pixel `(x, y)`.
    pub open spec fn at(&self, x: int, y: int) -> u32 {
        self.pixels@[x + y * self.width]
    }

    /// A surface of the given size, every pixel set to `color`.
    pub fn new(width: i32, height: i32, color: u32) -> (f: Framebuffer)
        requires
            0 <= width,
            0 <= height,
            width * height <= i32::MAX,
        ensures
            f.wf(),
            f.width == width,
            f.height == height,
            forall|x: int, y: int| f.in_bounds(x, y) ==> #[trigger] f.at(x, y) == color,
    {
        assert(0 <= width * height) by (nonlinear_arith)
            requires
                0 <= width,
                0 <= height,
        ;
        let n: i32 = width * height;
        let pixels = vec![color; n as usize];
        let f = Framebuffer { width, height, pixels };
        proof {
            assert forall|x: int, y: int| f.in_bounds(x, y) implies #[trigger] f.at(x, y)
                == color by {
                lemma_linear_index_in_range(x, y, width as int, height as int);
            }
        }
        f
    }

    pub fn get_width(&self) -> (w: i32)
        ensures
            w == self.width,
    {
        self.width
    }

    pub fn get_height(&self) -> (h: i32)
        ensures
            h == self.height,
    {
        self.height
    }

    /// The colour of pixel `(x, y)`.
    pub fn pixel(&self, x: i32, y: i32) -> (c: u32)
        requires
            self.wf(),
            self.in_bounds(x as int, y as int),
        ensures
            c == self.at(x as int, y as int),
    {
        proof {
            lemma_linear_index_in_range(x as int, y as int, self.width as int, self.height as int);
        }
        self.pixels[(x + y * self.width) as usize]
    }

    /// Sets every pixel to `color`.
    pub fn clear(&mut self, color: u32)
        requires
            old(self).wf(),
        ensures
            final(self).wf(),
            final(self).width == old(self).width,
            final(self).height == old(self).height,
            forall|x: int, y: int| final(self).in_bounds(x, y) ==> #[trigger] final(self).at(x, y) == color,
    {
        let n = self.pixels.len();
        let mut i: usize = 0;
        while i < n
            invariant
                self.wf(),
                self.width == old(self).width,
                self.height == old(self).height,
                n == self.pixels@.len(),
                0 <= i <= n,
                forall|j: int| 0 <= j < i ==> #[trigger] self.pixels@[j] == color,
            decreases n - i,
        {
            self.pixels.set(i, color);
            i = i + 1;
        }
        proof {
            assert forall|x: int, y: int| self.in_bounds(x, y) implies #[trigger] self.at(x, y)
                == color by {
                lemma_linear_index_in_range(x, y, self.width as int, self.height as int);
            }
        }
    }

    /// Writes `color` at `(x, y)`; a position outside the surface changes
    /// nothing.
    pub fn set_pixel(&mut self, x: i32, y: i32, color: u32)
        requires
            old(self).wf(),
        ensures
            final(self).wf(),
            final(self).width == old(self).width,
            final(self).height == old(self).height,
            forall|px: int, py: int|
                final(self).in_bounds(px, py) ==> #[trigger] final(self).at(px, py) == if px == x
                    && py == y {
                    color
                } else {
                    old(self).at(px, py)
                },
    {
        if 0 <= x && x < self.width && 0 <= y && y < self.height {
            proof {
                lemma_linear_index_in_range(x as int, y as int, self.width as int, self.height as int);
            }
            self.pixels.set((x + y * self.width) as usize, color);
            proof {
                assert forall|px: int, py: int| self.in_bounds(px, py) implies #[trigger] self.at(
                    px,
                    py,
                ) == if px == x && py == y {
                    color
                } else {
                    old(self).at(px, py)
                } by {
                    lemma_linear_index_in_range(px, py, self.width as int, self.height as int);
                    if px + py * self.width == x + y * self.width {
                        lemma_linear_index_injective(px, py, x as int, y as int, self.width as int);
                    }
                }
            }
        }
    }

    /// Fills one scanline span: pixel `(min_x + i, y)` receives the texel
    /// sampled at `texel_coords[i]`, for every `i`, so the pixels written are
    /// exactly the run from `min_x` up to, not including,
    /// `min_x + texel_coords.len()`, without gaps. Pixels of that run that
    /// lie outside the surface are skipped; no other pixel changes.
    pub fn draw_span(
        &mut self,
        texture: &BitmapTexture,
        y: i32,
        min_x: i32,
        texel_coords: &Vec<(i32, i32)>,
    )
        requires
            old(self).wf(),
            texture.wf(),
            0 < texture.width,
            0 < texture.height,
            min_x + texel_coords@.len() <= i32::MAX,
        ensures
            final(self).wf(),
            final(self).width == old(self).width,
            final(self).height == old(self).height,
            forall|px: int, py: int|
                final(self).in_bounds(px, py) ==> #[trigger] final(self).at(px, py) == if py == y
                    && min_x <= px < min_x + texel_coords@.len() {
                    texture.sampled(
                        texel_coords@[px - min_x].0 as int,
                        texel_coords@[px - min_x].1 as int,
                    )
                } else {
                    old(self).at(px, py)
                },
    {
        let n = texel_coords.len();
        let mut i: usize = 0;
        while i < n
            invariant
                self.wf(),
                self.width == old(self).width,
                self.height == old(self).height,
                texture.wf(),
                0 < texture.width,
                0 < texture.height,
                n == texel_coords@.len(),
                min_x + n <= i32::MAX,
                0 <= i <= n,
                forall|px: int, py: int|
                    self.in_bounds(px, py) ==> #[trigger] self.at(px, py) == if py == y && min_x
                        <= px < min_x + i {
                        texture.sampled(
                            texel_coords@[px - min_x].0 as int,
                            texel_coords@[px - min_x].1 as int,
                        )
                    } else {
                        old(self).at(px, py)
                    },
            decreases n - i,
        {
            let (tx, ty) = texel_coords[i];
            let color = texture.sample(tx, ty);
            let x = (min_x as i64 + i as i64) as i32;
            let ghost before = *self;
            self.set_pixel(x, y, color);
            proof {
                assert forall|px: int, py: int| self.in_bounds(px, py) implies #[trigger] self.at(
                    px,
                    py,
                ) == if py == y && min_x <= px < min_x + i + 1 {
                    texture.sampled(
                        texel_coords@[px - min_x].0 as int,
                        texel_coords@[px - min_x].1 as int,
                    )
                } else {
                    old(self).at(px, py)
                } by {
                    assert(self.at(px, py) == if px == x && py == y {
                        color
                    } else {
                        before.at(px, py)
                    });
                }
            }
            i = i + 1;
        }
    }
}

} // verus!
