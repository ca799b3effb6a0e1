use vstd::prelude::*;
use vstd::arithmetic::div_mod::{
    lemma_div_by_multiple, lemma_div_denominator, lemma_div_is_ordered,
    lemma_fundamental_div_mod_converse,
};
use crate::color::{Color, pack};

verus! {

pub const CHUNK_WIDTH: usize = 16;

pub const CHUNK_HEIGHT: usize = 16;

pub const CHUNK_LENGTH: usize = 16;

/// A procedural sample of `SAMPLE_ONE` stands for 1.0.
pub const SAMPLE_ONE: i64 = 65536;

#[derive(Clone, Copy, Debug, PartialEq, Eq, Structural)]
pub enum ChunkError {
    /// A voxel coordinate lies outside the chunk's grid.
    OutOfRange,
    /// No chunk stands at a handle.
    NoSuchChunk,
}

/// Position of voxel `(x, y, z)` in a grid `width` wide and `height` high: `x` varies fastest.
pub open spec fn voxel_index(x: int, y: int, z: int, width: int, height: int) -> int {
    x + width * (y + height * z)
}

/// A linear ramp over `n` cells from 0 at the first to 255 at the last.
pub open spec fn ramp(c: int, n: int) -> int {
    if n <= 1 {
        0
    } else {
        c * 255 / (n - 1)
    }
}

/// The gradient fill at `(x, y, z)`: each axis ramps one color channel, fully opaque.
pub open spec fn gradient_at(x: int, y: int, z: int, width: int, height: int, length: int) -> u32 {
    pack(ramp(x, width), ramp(y, height), ramp(z, length), 255) as u32
}

/// The gradient fill of a whole grid, voxel by voxel in index order.
pub open spec fn gradient_voxels(width: nat, height: nat, length: nat) -> Seq<u32> {
    Seq::new(
        width * height * length,
        |i: int|
            gradient_at(
                i % (width as int),
                (i / (width as int)) % (height as int),
                i / (width * height) as int,
                width as int,
                height as int,
                length as int,
            ),
    )
}

/// The 8-bit level of a procedural sample: negative samples count as 0, and `SAMPLE_ONE`
/// maps to 255.
pub open spec fn sample_level(s: int) -> int {
    if s <= 0 {
        0
    } else if s * 255 / (SAMPLE_ONE as int) > 255 {
        255
    } else {
        s * 255 / (SAMPLE_ONE as int)
    }
}

/// The voxel of a sampled fill: the sample's level in every channel.
pub open spec fn sample_voxel(s: int) -> u32 {
    let l = sample_level(s);
    pack(l, l, l, l) as u32
}

/// The abstract state of a chunk: its grid, its host-side voxels, what the GPU-resident
/// mirror holds, and whether the two may differ.
pub struct ChunkModel {
    pub width: nat,
    pub height: nat,
    pub length: nat,
    pub origin: (i32, i32, i32),
    pub voxels: Seq<u32>,
    pub mirror: Seq<u32>,
    pub dirty: bool,
}

impl ChunkModel {
    pub open spec fn size(self) -> nat {
        self.width * self.height * self.length
    }

    /// The voxels fill the grid, and a clean chunk's mirror equals its voxels.
    pub open spec fn wf(self) -> bool {
        &&& self.size() <= usize::MAX
        &&& self.voxels.len() == self.size()
        &&& !self.dirty ==> self.mirror == self.voxels
    }

    pub open spec fn in_bounds(self, x: int, y: int, z: int) -> bool {
        0 <= x < self.width && 0 <= y < self.height && 0 <= z < self.length
    }

    pub open spec fn index(self, x: int, y: int, z: int) -> int {
        voxel_index(x, y, z, self.width as int, self.height as int)
    }

    /// The state after a write of `v` at `(x, y, z)`: the voxel changes and the chunk is dirty.
    pub open spec fn written(self, x: int, y: int, z: int, v: u32) -> ChunkModel {
        ChunkModel { voxels: self.voxels.update(self.index(x, y, z), v), dirty: true, ..self }
    }

    /// The state after a sync: a dirty chunk's voxels are uploaded to the mirror.
    pub open spec fn synced(self) -> ChunkModel {
        ChunkModel { mirror: if self.dirty { self.voxels } else { self.mirror }, dirty: false, ..self }
    }
}

/// An in-bounds coordinate has an index inside the grid.
pub proof fn lemma_index_in_grid(x: int, y: int, z: int, w: int, h: int, l: int)
    requires
        0 <= x < w,
        0 <= y < h,
        0 <= z < l,
    ensures
        0 <= voxel_index(x, y, z, w, h) < w * h * l,
        0 <= w * (y + h * z) <= voxel_index(x, y, z, w, h),
        0 <= h * z <= y + h * z < h * l,
{
    assert(0 <= h * z && h * z + y < h * l) by (nonlinear_arith)
        requires 0 <= y < h, 0 <= z < l;
    assert(0 <= w * (y + h * z) && x + w * (y + h * z) < w * (h * l)) by (nonlinear_arith)
        requires 0 <= x < w, 0 <= y + h * z < h * l;
    assert(w * (h * l) == w * h * l) by (nonlinear_arith);
}

/// The coordinates of a voxel are recovered from its index.
pub proof fn lemma_index_coords(x: int, y: int, z: int, w: int, h: int)
    requires
        0 <= x < w,
        0 <= y < h,
        0 <= z,
    ensures
        voxel_index(x, y, z, w, h) % w == x,
        (voxel_index(x, y, z, w, h) / w) % h == y,
        voxel_index(x, y, z, w, h) / (w * h) == z,
{
    let i = voxel_index(x, y, z, w, h);
    assert(i == (y + h * z) * w + x) by (nonlinear_arith)
        requires i == x + w * (y + h * z);
    lemma_fundamental_div_mod_converse(i, w, y + h * z, x);
    assert(y + h * z == z * h + y) by (nonlinear_arith);
    lemma_fundamental_div_mod_converse(y + h * z, h, z, y);
    lemma_div_denominator(i, w, h);
}

/// The gradient fill holds the ramp of each axis at every in-bounds voxel.
pub proof fn lemma_gradient_at(w: nat, h: nat, l: nat, x: int, y: int, z: int)
    requires
        0 <= x < w,
        0 <= y < h,
        0 <= z < l,
    ensures
        0 <= voxel_index(x, y, z, w as int, h as int) < gradient_voxels(w, h, l).len(),
        gradient_voxels(w, h, l)[voxel_index(x, y, z, w as int, h as int)] == gradient_at(
            x,
            y,
            z,
            w as int,
            h as int,
            l as int,
        ),
{
    lemma_index_in_grid(x, y, z, w as int, h as int, l as int);
    lemma_index_coords(x, y, z, w as int, h as int);
}

/// Writing a voxel and then syncing leaves the written value in the GPU mirror.
pub proof fn lemma_write_sync_readback(m: ChunkModel, x: int, y: int, z: int, v: u32)
    requires
        m.wf(),
        m.in_bounds(x, y, z),
    ensures
        m.written(x, y, z, v).synced().wf(),
        m.written(x, y, z, v).synced().mirror[m.index(x, y, z)] == v,
        m.written(x, y, z, v).synced().mirror == m.written(x, y, z, v).voxels,
{
    lemma_index_in_grid(x, y, z, m.width as int, m.height as int, m.length as int);
}

/// A second sync with no write in between uploads nothing and changes nothing.
pub proof fn lemma_sync_idempotent(m: ChunkModel)
    requires
        m.wf(),
    ensures
        !m.synced().dirty,
        m.synced().synced() == m.synced(),
        m.synced().voxels == m.voxels,
        m.synced().mirror == m.voxels,
{
}

/// A cuboid grid of packed voxel colors with a world-space origin, and the dirty tracking of
/// its GPU-resident mirror. The mirror's content is ghost state: it stands for what the last
/// upload that `update` handed out put on the device.
pub struct Chunk {
    width: usize,
    height: usize,
    length: usize,
    origin: (i32, i32, i32),
    voxels: Vec<u32>,
    dirty: bool,
    mirror: Ghost<Seq<u32>>,
}

impl View for Chunk {
    type V = ChunkModel;

    closed spec fn view(&self) -> ChunkModel {
        ChunkModel {
            width: self.width as nat,
            height: self.height as nat,
            length: self.length as nat,
            origin: self.origin,
            voxels: self.voxels@,
            mirror: self.mirror@,
            dirty: self.dirty,
        }
    }
}


/// A voxel's index is at least the start of its plane.
proof fn lemma_index_lower(x: int, y: int, z: int, w: int, h: int)
    requires
        0 <= x,
        0 <= y,
        0 <= z,
        0 <= w,
        0 <= h,
    ensures
        voxel_index(x, y, z, w, h) >= w * h * z,
{
    assert(x + w * (y + h * z) >= w * h * z) by (nonlinear_arith)
        requires 0 <= x, 0 <= y, 0 <= z, 0 <= w, 0 <= h;
}

/// Computes `ramp(c, n)`.
fn ramp_exec(c: usize, n: usize) -> (r: u8)
    requires
        c < n,
    ensures
        r as int == ramp(c as int, n as int),
{
    if n <= 1 {
        0
    } else {
        let d = (n - 1) as u128;
        proof {
            lemma_div_is_ordered(c as int * 255, d as int * 255, d as int);
            lemma_div_by_multiple(255, d as int);
            assert(0 <= c as int * 255 <= d as int * 255) by (nonlinear_arith)
                requires 0 <= c, c <= d;
        }
        ((c as u128 * 255) / d) as u8
    }
}

/// Computes `sample_level(s)`.
fn sample_level_exec(s: i64) -> (r: u8)
    ensures
        r as int == sample_level(s as int),
{
    if s <= 0 {
        0
    } else {
        let q = (s as i128 * 255) / (SAMPLE_ONE as i128);
        if q > 255 {
            255
        } else {
            q as u8
        }
    }
}

/// Computes the number of voxels in a grid.
fn grid_size(width: usize, height: usize, length: usize) -> (n: usize)
    requires
        width * height * length <= usize::MAX,
    ensures
        n == width * height * length,
        n > 0 ==> width > 0 && height > 0 && length > 0,
{
    proof {
        assert(width * height * length > 0 ==> width > 0 && height > 0 && length > 0)
            by (nonlinear_arith)
            requires 0 <= width, 0 <= height, 0 <= length;
    }
    if length == 0 {
        proof {
            assert(width * height * length == 0) by (nonlinear_arith) requires length == 0;
        }
        0
    } else {
        proof {
            assert(width * height <= width * height * length) by (nonlinear_arith)
                requires 1 <= length, 0 <= width, 0 <= height;
        }
        width * height * length
    }
}

impl Chunk {
    /// An empty chunk: every voxel is 0.
    pub fn new(width: usize, height: usize, length: usize, origin: (i32, i32, i32)) -> (r: Chunk)
        requires
            width * height * length <= usize::MAX,
        ensures
            r@.wf(),
            r@.width == width,
            r@.height == height,
            r@.length == length,
            r@.origin == origin,
            r@.voxels == Seq::new(r@.size(), |i: int| 0u32),
            r@.dirty,
    {
        let n = grid_size(width, height, length);
        let voxels = vec![0u32; n];
        proof {
            assert(voxels@ =~= Seq::new(n as nat, |i: int| 0u32));
        }
        Chunk { width, height, length, origin, voxels, dirty: true, mirror: Ghost(Seq::empty()) }
    }

    /// A chunk filled with the gradient: each axis ramps one color channel from 0 at the first
    /// voxel to 255 at the last.
    pub fn gradient(width: usize, height: usize, length: usize, origin: (i32, i32, i32)) -> (r:
        Chunk)
        requires
            width * height * length <= usize::MAX,
        ensures
            r@.wf(),
            r@.width == width,
            r@.height == height,
            r@.length == length,
            r@.origin == origin,
            r@.voxels == gradient_voxels(width as nat, height as nat, length as nat),
            forall|x: int, y: int, z: int|
                #![trigger r@.index(x, y, z)]
                r@.in_bounds(x, y, z) ==> 0 <= r@.index(x, y, z) < r@.voxels.len()
                    && r@.voxels[r@.index(x, y, z)] == gradient_at(
                    x,
                    y,
                    z,
                    width as int,
                    height as int,
                    length as int,
                ),
            r@.dirty,
    {
        let n = grid_size(width, height, length);
        let ghost full = gradient_voxels(width as nat, height as nat, length as nat);
        let mut voxels: Vec<u32> = Vec::with_capacity(n);
        let mut i: usize = 0;
        let mut x: usize = 0;
        let mut y: usize = 0;
        let mut z: usize = 0;
        proof {
            assert(voxel_index(0, 0, 0, width as int, height as int) == 0) by (nonlinear_arith);
        }
        while i < n
            invariant
                n == width * height * length,
                full == gradient_voxels(width as nat, height as nat, length as nat),
                full.len() == n,
                i <= n,
                i < n ==> x < width && y < height && z < length,
                i == voxel_index(x as int, y as int, z as int, width as int, height as int),
                voxels@ == full.subrange(0, i as int),
            decreases n - i,
        {
            proof {
                lemma_gradient_at(
                    width as nat,
                    height as nat,
                    length as nat,
                    x as int,
                    y as int,
                    z as int,
                );
            }
            let c = Color {
                r: ramp_exec(x, width),
                g: ramp_exec(y, height),
                b: ramp_exec(z, length),
                a: 255,
            };
            voxels.push(c.to_u32());
            proof {
                assert(voxels@ =~= full.subrange(0, i + 1));
            }
            let ghost (w, h) = (width as int, height as int);
            if x + 1 < width {
                x = x + 1;
            } else if y + 1 < height {
                proof {
                    assert(x + 1 + w * (y + h * z) == w * ((y + 1) + h * z)) by (nonlinear_arith)
                        requires x + 1 == w;
                }
                x = 0;
                y = y + 1;
            } else {
                proof {
                    assert(x + 1 + w * (y + h * z) == w * (0 + h * (z + 1))) by (nonlinear_arith)
                        requires x + 1 == w, y + 1 == h;
                    if i + 1 < n {
                        lemma_index_lower(0, 0, z + 1, w, h);
                        assert(z + 1 < length) by (nonlinear_arith)
                            requires
                                w * h * (z + 1) < w * h * length,
                                0 <= w,
                                0 <= h;
                    }
                }
                x = 0;
                y = 0;
                z = z + 1;
            }
            i = i + 1;
        }
        proof {
            assert(voxels@ =~= full);
        }
        let c = Chunk {
            width,
            height,
            length,
            origin,
            voxels,
            dirty: true,
            mirror: Ghost(Seq::empty()),
        };
        proof {
            assert forall|xx: int, yy: int, zz: int|
                #![trigger c@.index(xx, yy, zz)]
                c@.in_bounds(xx, yy, zz) implies 0 <= c@.index(xx, yy, zz) < c@.voxels.len()
                    && c@.voxels[c@.index(xx, yy, zz)] == gradient_at(
                    xx,
                    yy,
                    zz,
                    width as int,
                    height as int,
                    length as int,
                ) by {
                lemma_gradient_at(width as nat, height as nat, length as nat, xx, yy, zz);
            }
        }
        c
    }

    /// A chunk filled from procedural samples given in voxel index order: each sample is clamped
    /// to at least 0 and quantized to an 8-bit level that fills every channel.
    pub fn from_samples(
        width: usize,
        height: usize,
        length: usize,
        origin: (i32, i32, i32),
        samples: &Vec<i64>,
    ) -> (r: Chunk)
        requires
            width * height * length <= usize::MAX,
            samples.len() == width * height * length,
        ensures
            r@.wf(),
            r@.width == width,
            r@.height == height,
            r@.length == length,
            r@.origin == origin,
            r@.voxels == Seq::new(samples.len() as nat, |i: int| sample_voxel(samples[i] as int)),
            r@.dirty,
    {
        let n = samples.len();
        let mut voxels: Vec<u32> = Vec::with_capacity(n);
        let mut i: usize = 0;
        while i < n
            invariant
                n == samples.len(),
                i <= n,
                voxels@ == Seq::new(i as nat, |j: int| sample_voxel(samples[j] as int)),
            decreases n - i,
        {
            let l = sample_level_exec(samples[i]);
            let c = Color { r: l, g: l, b: l, a: l };
            voxels.push(c.to_u32());
            proof {
                assert(voxels@ =~= Seq::new((i + 1) as nat, |j: int| sample_voxel(samples[j] as int)));
            }
            i = i + 1;
        }
        Chunk { width, height, length, origin, voxels, dirty: true, mirror: Ghost(Seq::empty()) }
    }

    /// Computes the index of an in-bounds voxel.
    fn index_of(&self, x: usize, y: usize, z: usize) -> (i: usize)
        requires
            self@.wf(),
            self@.in_bounds(x as int, y as int, z as int),
        ensures
            i == self@.index(x as int, y as int, z as int),
            i < self.voxels@.len(),
    {
        let ghost (w, h, l) = (self.width as int, self.height as int, self.length as int);
        proof {
            lemma_index_in_grid(x as int, y as int, z as int, w, h, l);
            assert(h * l <= w * h * l) by (nonlinear_arith)
                requires 1 <= w, 0 <= h, 0 <= l;
        }
        x + self.width * (y + self.height * z)
    }

    /// Sets the voxel at `(x, y, z)` and marks the chunk dirty; fails with `OutOfRange`, changing
    /// nothing, where the coordinate lies outside the grid.
    pub fn set_pixel(&mut self, x: usize, y: usize, z: usize, color: Color) -> (r: Result<
        (),
        ChunkError,
    >)
        requires
            old(self)@.wf(),
        ensures
            final(self)@.wf(),
            r is Ok <==> old(self)@.in_bounds(x as int, y as int, z as int),
            r is Ok ==> final(self)@ == old(self)@.written(
                x as int,
                y as int,
                z as int,
                color.packed() as u32,
            ),
            r is Err ==> r == Err::<(), ChunkError>(ChunkError::OutOfRange) && final(self)@ == old(self)@,
    {
        if x >= self.width || y >= self.height || z >= self.length {
            return Err(ChunkError::OutOfRange);
        }
        let i = self.index_of(x, y, z);
        let v = color.to_u32();
        self.voxels.set(i, v);
        self.dirty = true;
        Ok(())
    }

    /// The voxel at `(x, y, z)`, or `OutOfRange` where the coordinate lies outside the grid.
    pub fn voxel(&self, x: usize, y: usize, z: usize) -> (r: Result<u32, ChunkError>)
        requires
            self@.wf(),
        ensures
            r is Ok <==> self@.in_bounds(x as int, y as int, z as int),
            r is Ok ==> r == Ok::<u32, ChunkError>(self@.voxels[self@.index(x as int, y as int, z as int)]),
            r is Err ==> r == Err::<u32, ChunkError>(ChunkError::OutOfRange),
    {
        if x >= self.width || y >= self.height || z >= self.length {
            return Err(ChunkError::OutOfRange);
        }
        let i = self.index_of(x, y, z);
        Ok(self.voxels[i])
    }

    /// Syncs the mirror: where the chunk is dirty, hands out the whole voxel array for upload
    /// and marks the chunk clean; where it is clean, does nothing and returns `None`.
    pub fn update(&mut self) -> (r: Option<Vec<u32>>)
        requires
            old(self)@.wf(),
        ensures
            final(self)@.wf(),
            final(self)@ == old(self)@.synced(),
            r is Some <==> old(self)@.dirty,
            r matches Some(data) ==> data@ == old(self)@.voxels,
    {
        if !self.dirty {
            return None;
        }
        let data = self.voxels.clone();
        self.dirty = false;
        self.mirror = Ghost(self.voxels@);
        Some(data)
    }

    pub fn width(&self) -> (r: usize)
        ensures
            r == self@.width,
    {
        self.width
    }

    pub fn height(&self) -> (r: usize)
        ensures
            r == self@.height,
    {
        self.height
    }

    pub fn length(&self) -> (r: usize)
        ensures
            r == self@.length,
    {
        self.length
    }

    pub fn origin(&self) -> (r: (i32, i32, i32))
        ensures
            r == self@.origin,
    {
        self.origin
    }

    pub fn is_dirty(&self) -> (r: bool)
        ensures
            r == self@.dirty,
    {
        self.dirty
    }

    /// The host-side voxels in index order.
    pub fn voxels(&self) -> (r: &Vec<u32>)
        ensures
            r@ == self@.voxels,
    {
        &self.voxels
    }
}

} // verus!
