use vstd::prelude::*;
use crate::chunks::{Chunks, all_synced, pending_uploads};

verus! {

/// A renderable unit: an ordered arena of chunks.
pub struct Object {
    pub chunks: Chunks,
}

impl Object {
    /// An object of `chunks` gradient-filled chunks of the standard dimensions.
    pub fn new(chunks: usize) -> (r: Object)
        ensures
            r.chunks.wf(),
            r.chunks@.len() == chunks,
            forall|i: int| 0 <= i < chunks ==> (#[trigger] r.chunks@[i] matches Some(c) && c.dirty),
    {
        Object { chunks: Chunks::new(chunks) }
    }

    /// Syncs every chunk of the object and hands out the uploads, as `Chunks::update` does.
    pub fn update(&mut self) -> (r: Vec<(usize, Vec<u32>)>)
        requires
            old(self).chunks.wf(),
        ensures
            final(self).chunks.wf(),
            final(self).chunks@ == all_synced(old(self).chunks@),
            r@.map_values(|e: (usize, Vec<u32>)| (e.0 as int, e.1@)) == pending_uploads(
                old(self).chunks@,
            ),
    {
        self.chunks.update()
    }
}

} // verus!
