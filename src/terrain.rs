use vstd::prelude::*;
use crate::chunk::{Chunk, ChunkModel, sample_voxel};
use crate::chunks::Chunks;

verus! {

/// Edge length of a terrain chunk, in voxels.
pub const TERRAIN_SIZE: usize = 16;

/// Where a terrain chunk starts: centred on the world origin.
pub const TERRAIN_ORIGIN: i32 = -8;

/// A procedurally filled piece of the scene, held as handles into a chunk arena.
pub struct Terrain {
    pub handles: Vec<usize>,
}

impl Terrain {
    /// Adds one chunk of `TERRAIN_SIZE` cubed voxels, centred on the origin and filled from
    /// `samples` (in voxel index order), to `chunks`.
    pub fn new(chunks: &mut Chunks, samples: &Vec<i64>) -> (r: Terrain)
        requires
            old(chunks).wf(),
            old(chunks)@.len() < usize::MAX,
            samples.len() == TERRAIN_SIZE * TERRAIN_SIZE * TERRAIN_SIZE,
        ensures
            final(chunks).wf(),
            r.handles@ == seq![old(chunks)@.len() as usize],
            final(chunks)@.len() == old(chunks)@.len() + 1,
            final(chunks)@.subrange(0, old(chunks)@.len() as int) == old(chunks)@,
            final(chunks)@.last() matches Some(c) && c.width == TERRAIN_SIZE && c.height
                == TERRAIN_SIZE && c.length == TERRAIN_SIZE && c.origin == (
                TERRAIN_ORIGIN,
                TERRAIN_ORIGIN,
                TERRAIN_ORIGIN,
            ) && c.dirty && c.voxels == Seq::new(
                samples.len() as nat,
                |i: int| sample_voxel(samples[i] as int),
            ),
    {
        let c = Chunk::from_samples(
            TERRAIN_SIZE,
            TERRAIN_SIZE,
            TERRAIN_SIZE,
            (TERRAIN_ORIGIN, TERRAIN_ORIGIN, TERRAIN_ORIGIN),
            samples,
        );
        let h = chunks.add(c);
        proof {
            assert(chunks@.subrange(0, old(chunks)@.len() as int) =~= old(chunks)@);
        }
        let mut handles: Vec<usize> = Vec::new();
        handles.push(h);
        proof {
            assert(handles@ =~= seq![h]);
        }
        Terrain { handles }
    }

    /// Removes this terrain's chunks from `chunks`; every other slot is left as it was.
    pub fn delete(self, chunks: &mut Chunks)
        requires
            old(chunks).wf(),
        ensures
            final(chunks).wf(),
            final(chunks)@.len() == old(chunks)@.len(),
            forall|h: usize|
                h < old(chunks)@.len() ==> #[trigger] final(chunks)@[h as int] == if self.handles@.contains(
                    h,
                ) {
                    None::<ChunkModel>
                } else {
                    old(chunks)@[h as int]
                },
    {
        let n = self.handles.len();
        let mut k: usize = 0;
        while k < n
            invariant
                n == self.handles@.len(),
                k <= n,
                chunks.wf(),
                chunks@.len() == old(chunks)@.len(),
                forall|h: usize|
                    h < old(chunks)@.len() ==> #[trigger] chunks@[h as int] == if self.handles@.subrange(
                        0,
                        k as int,
                    ).contains(h) {
                        None::<ChunkModel>
                    } else {
                        old(chunks)@[h as int]
                    },
            decreases n - k,
        {
            let h = self.handles[k];
            let ghost before = chunks@;
            chunks.remove(h);
            proof {
                assert forall|g: usize| g < old(chunks)@.len() implies #[trigger] chunks@[g as int] == if self.handles@.subrange(
                    0,
                    k + 1,
                ).contains(g) {
                    None::<ChunkModel>
                } else {
                    old(chunks)@[g as int]
                } by {
                    let s0 = self.handles@.subrange(0, k as int);
                    let s1 = self.handles@.subrange(0, k + 1);
                    assert(s1 =~= s0.push(h));
                    if g == h {
                        assert(s1[k as int] == h);
                    } else {
                        assert(chunks@[g as int] == before[g as int]);
                        assert(s1.contains(g) == s0.contains(g)) by {
                            if s1.contains(g) {
                                let j = choose|j: int| 0 <= j < s1.len() && s1[j] == g;
                                assert(s0[j] == g);
                            }
                            if s0.contains(g) {
                                let j = choose|j: int| 0 <= j < s0.len() && s0[j] == g;
                                assert(s1[j] == g);
                            }
                        }
                    }
                }
            }
            k = k + 1;
        }
        proof {
            assert(self.handles@.subrange(0, n as int) =~= self.handles@);
        }
    }
}

} // verus!
