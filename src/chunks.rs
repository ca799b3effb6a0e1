use vstd::prelude::*;
use crate::chunk::{
    Chunk, ChunkError, ChunkModel, CHUNK_HEIGHT, CHUNK_LENGTH, CHUNK_WIDTH, gradient_voxels,
};
use crate::color::Color;

verus! {

/// The uploads that a sync of every chunk hands out: for each dirty chunk, in handle order,
/// its handle and its voxels.
pub open spec fn pending_uploads(s: Seq<Option<ChunkModel>>) -> Seq<(int, Seq<u32>)>
    decreases s.len(),
{
    if s.len() == 0 {
        Seq::empty()
    } else {
        let p = pending_uploads(s.drop_last());
        match s.last() {
            Some(c) => if c.dirty {
                p.push(((s.len() - 1) as int, c.voxels))
            } else {
                p
            },
            None => p,
        }
    }
}

/// Every slot after a sync of every chunk.
pub open spec fn all_synced(s: Seq<Option<ChunkModel>>) -> Seq<Option<ChunkModel>> {
    Seq::new(
        s.len(),
        |i: int|
            match s[i] {
                Some(c) => Some(c.synced()),
                None => None,
            },
    )
}

/// Syncing every chunk twice with no write in between is the same as syncing once, and the
/// second sync hands out no upload.
pub proof fn lemma_update_all_idempotent(s: Seq<Option<ChunkModel>>)
    ensures
        all_synced(all_synced(s)) == all_synced(s),
        pending_uploads(all_synced(s)) == Seq::<(int, Seq<u32>)>::empty(),
    decreases s.len(),
{
    assert(all_synced(all_synced(s)) =~= all_synced(s));
    if s.len() > 0 {
        lemma_update_all_idempotent(s.drop_last());
        assert(all_synced(s).drop_last() =~= all_synced(s.drop_last()));
    }
}

pub open spec fn slots_wf(s: Seq<Option<ChunkModel>>) -> bool {
    forall|i: int| 0 <= i < s.len() ==> (#[trigger] s[i] matches Some(c) ==> c.wf())
}

/// An arena of chunks addressed by stable handles: a handle is the slot a chunk was added in,
/// and removing a chunk empties its slot without moving any other.
pub struct Chunks {
    slots: Vec<Option<Chunk>>,
}

impl View for Chunks {
    type V = Seq<Option<ChunkModel>>;

    closed spec fn view(&self) -> Seq<Option<ChunkModel>> {
        Seq::new(
            self.slots@.len(),
            |i: int|
                match self.slots@[i] {
                    Some(c) => Some(c@),
                    None => None,
                },
        )
    }
}

impl Chunks {
    pub open spec fn wf(&self) -> bool {
        slots_wf(self@)
    }

    /// An arena with no chunks.
    pub fn empty() -> (r: Chunks)
        ensures
            r@ == Seq::<Option<ChunkModel>>::empty(),
            r.wf(),
    {
        let r = Chunks { slots: Vec::new() };
        proof {
            assert(r@ =~= Seq::<Option<ChunkModel>>::empty());
        }
        r
    }

    /// An arena of `size` gradient-filled chunks of the standard dimensions, at handles
    /// `0..size`.
    pub fn new(size: usize) -> (r: Chunks)
        ensures
            r.wf(),
            r@.len() == size,
            forall|i: int|
                0 <= i < size ==> (#[trigger] r@[i] matches Some(c) && c.width == CHUNK_WIDTH
                    && c.height == CHUNK_HEIGHT && c.length == CHUNK_LENGTH && c.origin == (0i32, 0i32, 0i32)
                    && c.voxels == gradient_voxels(
                    CHUNK_WIDTH as nat,
                    CHUNK_HEIGHT as nat,
                    CHUNK_LENGTH as nat,
                ) && c.dirty),
    {
        let mut r = Chunks::empty();
        let mut i: usize = 0;
        while i < size
            invariant
                i <= size,
                r.wf(),
                r@.len() == i,
                forall|j: int|
                    0 <= j < i ==> (#[trigger] r@[j] matches Some(c) && c.width == CHUNK_WIDTH
                        && c.height == CHUNK_HEIGHT && c.length == CHUNK_LENGTH && c.origin == (0i32, 0i32, 0i32)
                        && c.voxels == gradient_voxels(
                        CHUNK_WIDTH as nat,
                        CHUNK_HEIGHT as nat,
                        CHUNK_LENGTH as nat,
                    ) && c.dirty),
            decreases size - i,
        {
            let c = Chunk::gradient(CHUNK_WIDTH, CHUNK_HEIGHT, CHUNK_LENGTH, (0, 0, 0));
            r.add(c);
            i = i + 1;
        }
        r
    }

    /// The number of slots, including emptied ones.
    pub fn len(&self) -> (r: usize)
        ensures
            r == self@.len(),
    {
        self.slots.len()
    }

    /// Adds a chunk and returns its handle.
    pub fn add(&mut self, chunk: Chunk) -> (r: usize)
        requires
            old(self).wf(),
            chunk@.wf(),
            old(self)@.len() < usize::MAX,
        ensures
            final(self).wf(),
            r == old(self)@.len(),
            final(self)@ == old(self)@.push(Some(chunk@)),
    {
        let r = self.slots.len();
        self.slots.push(Some(chunk));
        proof {
            assert(self@ =~= old(self)@.push(Some(chunk@)));
        }
        r
    }

    /// Removes the chunk at `handle` and hands it back; `None`, changing nothing, where no chunk
    /// stands there.
    pub fn remove(&mut self, handle: usize) -> (r: Option<Chunk>)
        requires
            old(self).wf(),
        ensures
            final(self).wf(),
            r is Some <==> (handle < old(self)@.len() && old(self)@[handle as int] is Some),
            r matches Some(c) ==> Some(c@) == old(self)@[handle as int] && final(self)@ == old(self)@.update(handle as int, None),
            r is None ==> final(self)@ == old(self)@,
    {
        if handle >= self.slots.len() {
            return None;
        }
        if self.slots[handle].is_none() {
            return None;
        }
        let mut taken: Option<Chunk> = None;
        std::mem::swap(&mut taken, &mut self.slots[handle]);
        proof {
            assert(self@ =~= old(self)@.update(handle as int, None));
        }
        taken
    }

    /// The chunk at `handle`, if one stands there.
    pub fn get(&self, handle: usize) -> (r: Option<&Chunk>)
        ensures
            r is Some <==> (handle < self@.len() && self@[handle as int] is Some),
            r matches Some(c) ==> Some(c@) == self@[handle as int],
    {
        if handle >= self.slots.len() {
            return None;
        }
        self.slots[handle].as_ref()
    }

    /// Writes one voxel of the chunk at `handle`: `NoSuchChunk` where no chunk stands there,
    /// `OutOfRange` where the coordinate lies outside its grid; either way nothing changes.
    pub fn set_pixel(&mut self, handle: usize, x: usize, y: usize, z: usize, color: Color) -> (r:
        Result<(), ChunkError>)
        requires
            old(self).wf(),
        ensures
            final(self).wf(),
            !(handle < old(self)@.len() && old(self)@[handle as int] is Some) ==> r == Err::<
                (),
                ChunkError,
            >(ChunkError::NoSuchChunk) && final(self)@ == old(self)@,
            handle < old(self)@.len() ==> (old(self)@[handle as int] matches Some(c) ==> {
                &&& r is Ok <==> c.in_bounds(x as int, y as int, z as int)
                &&& r is Ok ==> final(self)@ == old(self)@.update(
                    handle as int,
                    Some(c.written(x as int, y as int, z as int, color.packed() as u32)),
                )
                &&& r is Err ==> r == Err::<(), ChunkError>(ChunkError::OutOfRange)
                    && final(self)@ == old(self)@
            }),
    {
        if handle >= self.slots.len() {
            return Err(ChunkError::NoSuchChunk);
        }
        let r = match &mut self.slots[handle] {
            Some(c) => c.set_pixel(x, y, z, color),
            None => Err(ChunkError::NoSuchChunk),
        };
        proof {
            assert forall|i: int| 0 <= i < self@.len() implies (#[trigger] self@[i] matches Some(
                m,
            ) ==> m.wf()) by {
                if i != handle {
                    assert(self@[i] == old(self)@[i]);
                }
            }
            if old(self)@[handle as int] is Some {
                assert(r is Err ==> self@ =~= old(self)@);
            } else {
                assert(self@ =~= old(self)@);
            }
        }
        r
    }

    /// Syncs every chunk: hands out, in handle order, the handle and voxels of each dirty
    /// chunk, and leaves every chunk clean.
    pub fn update(&mut self) -> (r: Vec<(usize, Vec<u32>)>)
        requires
            old(self).wf(),
        ensures
            final(self).wf(),
            final(self)@ == all_synced(old(self)@),
            r@.map_values(|e: (usize, Vec<u32>)| (e.0 as int, e.1@)) == pending_uploads(old(self)@),
    {
        let mut r: Vec<(usize, Vec<u32>)> = Vec::new();
        let n = self.slots.len();
        let mut i: usize = 0;
        while i < n
            invariant
                n == self@.len(),
                n == old(self)@.len(),
                i <= n,
                slots_wf(old(self)@),
                forall|j: int| 0 <= j < i ==> #[trigger] self@[j] == all_synced(old(self)@)[j],
                forall|j: int| i <= j < n ==> #[trigger] self@[j] == old(self)@[j],
                r@.map_values(|e: (usize, Vec<u32>)| (e.0 as int, e.1@)) == pending_uploads(
                    old(self)@.subrange(0, i as int),
                ),
            decreases n - i,
        {
            let ghost prev = self@;
            proof {
                assert(prev[i as int] == old(self)@[i as int]);
            }
            let up = match &mut self.slots[i] {
                Some(c) => {
                    let ghost c0 = c@;
                    proof {
                        assert(prev[i as int] == Some(c0));
                    }
                    c.update()
                },
                None => None,
            };
            proof {
                let s = old(self)@.subrange(0, i + 1);
                assert(s.drop_last() =~= old(self)@.subrange(0, i as int));
                assert(s.last() == old(self)@[i as int]);
                assert forall|j: int| 0 <= j < n && j != i implies #[trigger] self@[j] == prev[j] by {}
            }
            match up {
                Some(data) => {
                    r.push((i, data));
                    proof {
                        assert(r@.map_values(|e: (usize, Vec<u32>)| (e.0 as int, e.1@)) =~= pending_uploads(
                            old(self)@.subrange(0, i + 1),
                        ));
                    }
                },
                None => {},
            }
            i = i + 1;
        }
        proof {
            assert(old(self)@.subrange(0, n as int) =~= old(self)@);
            assert(self@ =~= all_synced(old(self)@));
        }
        r
    }
}

} // verus!
