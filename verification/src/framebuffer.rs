//! The framebuffer: a packed color buffer and a per-pixel depth
//! buffer of the same size, composited through a depth test. The
//! convention is that a smaller depth value is nearer to the viewer;
//! empty cells hold the far sentinel `DEPTH_FAR`.

use vstd::prelude::*;
use crate::transform::DIM_MAX;

verus! {

/// The depth stored in cells no surface has reached yet; every real
/// fragment depth is below it.
pub const DEPTH_FAR: i64 = 0x7fff_ffff_ffff_ffff;

/// The mathematical state of a framebuffer.
pub ghost struct FbView {
    pub width: int,
    pub height: int,
    pub colors: Seq<u32>,
    pub depths: Seq<i64>,
    pub background: u32,
    pub current: u32,
}

/// One depth-tested write: inside the buffer and strictly nearer than
/// what the cell holds, the current color and the new depth go in;
/// anywhere else the state is unchanged.
pub open spec fn point_spec(v: FbView, x: int, y: int, depth: int) -> FbView {
    let i = y * v.width + x;
    if 0 <= x < v.width && 0 <= y < v.height && depth < v.depths[i] {
        FbView {
            colors: v.colors.update(i, v.current),
            depths: v.depths.update(i, depth as i64),
            ..v
        }
    } else {
        v
    }
}

pub struct Framebuffer {
    pub width: usize,
    pub height: usize,
    pub buffer: Vec<u32>,
    pub zbuffer: Vec<i64>,
    pub background_color: u32,
    pub current_color: u32,
}

impl View for Framebuffer {
    type V = FbView;

    open spec fn view(&self) -> FbView {
        FbView {
            width: self.width as int,
            height: self.height as int,
            colors: self.buffer@,
            depths: self.zbuffer@,
            background: self.background_color,
            current: self.current_color,
        }
    }
}

impl Framebuffer {
    /// Both buffers cover exactly width times height cells, and the
    /// dimensions are within the pipeline's limits.
    pub open spec fn wf(&self) -> bool {
        &&& self.buffer@.len() == self.width * self.height
        &&& self.zbuffer@.len() == self.width * self.height
        &&& 1 <= self.width <= DIM_MAX
        &&& 1 <= self.height <= DIM_MAX
    }

    /// A fresh buffer: black background, every color cell black,
    /// every depth cell at the far sentinel.
    pub fn new(width: usize, height: usize) -> (fb: Framebuffer)
        requires
            1 <= width <= DIM_MAX,
            1 <= height <= DIM_MAX,
        ensures
            fb.wf(),
            fb.width == width,
            fb.height == height,
            fb.background_color == 0,
            fb.current_color == 0,
            fb@.colors == Seq::new((width * height) as nat, |i: int| 0u32),
            fb@.depths == Seq::new((width * height) as nat, |i: int| DEPTH_FAR),
    {
        proof {
            crate::fixed::lemma_mul_bounds(width as int, height as int, DIM_MAX as int);
        }
        let n = width * height;
        let mut buffer: Vec<u32> = Vec::new();
        let mut zbuffer: Vec<i64> = Vec::new();
        let mut i: usize = 0;
        while i < n
            invariant
                i <= n,
                buffer@ == Seq::new(i as nat, |k: int| 0u32),
                zbuffer@ == Seq::new(i as nat, |k: int| DEPTH_FAR),
            decreases n - i,
        {
            buffer.push(0);
            zbuffer.push(DEPTH_FAR);
            proof {
                assert(buffer@ =~= Seq::new((i + 1) as nat, |k: int| 0u32));
                assert(zbuffer@ =~= Seq::new((i + 1) as nat, |k: int| DEPTH_FAR));
            }
            i = i + 1;
        }
        Framebuffer { width, height, buffer, zbuffer, background_color: 0, current_color: 0 }
    }

    /// Resets every color cell to the background color and every
    /// depth cell to the far sentinel; nothing else changes.
    pub fn clear(&mut self)
        requires
            old(self).wf(),
        ensures
            final(self).wf(),
            final(self).width == old(self).width,
            final(self).height == old(self).height,
            final(self).background_color == old(self).background_color,
            final(self).current_color == old(self).current_color,
            final(self)@.colors == Seq::new(
                (old(self).width * old(self).height) as nat,
                |i: int| old(self).background_color,
            ),
            final(self)@.depths == Seq::new(
                (old(self).width * old(self).height) as nat,
                |i: int| DEPTH_FAR,
            ),
    {
        proof {
            crate::fixed::lemma_mul_bounds(self.width as int, self.height as int, DIM_MAX as int);
        }
        let n = self.width * self.height;
        let mut i: usize = 0;
        while i < n
            invariant
                i <= n,
                self.wf(),
                n == self.width * self.height,
                self.width == old(self).width,
                self.height == old(self).height,
                self.background_color == old(self).background_color,
                self.current_color == old(self).current_color,
                forall|k: int| 0 <= k < i ==> self.buffer@[k] == self.background_color,
                forall|k: int| 0 <= k < i ==> self.zbuffer@[k] == DEPTH_FAR,
            decreases n - i,
        {
            let c = self.background_color;
            self.buffer[i] = c;
            self.zbuffer[i] = DEPTH_FAR;
            i = i + 1;
        }
        proof {
            assert(self@.colors =~= Seq::new(
                (self.width * self.height) as nat,
                |i: int| self.background_color,
            ));
            assert(self@.depths =~= Seq::new((self.width * self.height) as nat, |i: int| DEPTH_FAR));
        }
    }

    pub fn set_background_color(&mut self, color: u32)
        ensures
            *final(self) == (Framebuffer { background_color: color, ..*old(self) }),
    {
        self.background_color = color;
    }

    pub fn set_current_color(&mut self, color: u32)
        ensures
            *final(self) == (Framebuffer { current_color: color, ..*old(self) }),
    {
        self.current_color = color;
    }

    /// Depth-tested write of the current color. Out-of-bounds
    /// coordinates and fragments at or behind the stored depth leave
    /// the buffer untouched.
    pub fn point(&mut self, x: usize, y: usize, depth: i64)
        requires
            old(self).wf(),
        ensures
            final(self).wf(),
            final(self).width == old(self).width,
            final(self).height == old(self).height,
            final(self)@ == point_spec(old(self)@, x as int, y as int, depth as int),
    {
        if x < self.width && y < self.height {
            proof {
                crate::fixed::lemma_mul_bounds(
                    self.width as int,
                    self.height as int,
                    DIM_MAX as int,
                );
                lemma_cell_index_bounds(
                    self.width as int,
                    self.height as int,
                    x as int,
                    y as int,
                );
            }
            let i = y * self.width + x;
            if depth < self.zbuffer[i] {
                let c = self.current_color;
                self.buffer[i] = c;
                self.zbuffer[i] = depth;
            }
        }
    }

    /// The packed color at one cell, for presentation and for tests.
    pub fn get_color(&self, x: usize, y: usize) -> (c: u32)
        requires
            self.wf(),
            x < self.width,
            y < self.height,
        ensures
            c == self@.colors[y * self@.width + x],
    {
        proof {
            crate::fixed::lemma_mul_bounds(self.width as int, self.height as int, DIM_MAX as int);
            lemma_cell_index_bounds(self.width as int, self.height as int, x as int, y as int);
        }
        self.buffer[y * self.width + x]
    }

    /// The depth at one cell, for tests of the compositing rule.
    pub fn get_depth(&self, x: usize, y: usize) -> (d: i64)
        requires
            self.wf(),
            x < self.width,
            y < self.height,
        ensures
            d == self@.depths[y * self@.width + x],
    {
        proof {
            crate::fixed::lemma_mul_bounds(self.width as int, self.height as int, DIM_MAX as int);
            lemma_cell_index_bounds(self.width as int, self.height as int, x as int, y as int);
        }
        self.zbuffer[y * self.width + x]
    }
}

/// Row-major cell indices stay inside a width-by-height buffer.
pub proof fn lemma_cell_index_bounds(width: int, height: int, x: int, y: int)
    requires
        0 <= x < width,
        0 <= y < height,
    ensures
        0 <= y * width + x < width * height,
{
    assert(0 <= y * width + x < width * height) by (nonlinear_arith)
        requires
            0 <= x < width,
            0 <= y < height,
    ;
}

} // verus!
