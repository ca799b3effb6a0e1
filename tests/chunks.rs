use voxel_engine::chunk::{Chunk, ChunkError};
use voxel_engine::chunks::Chunks;
use voxel_engine::color::Color;
use voxel_engine::object::Object;
use voxel_engine::terrain::Terrain;

#[test]
fn new_arena_uploads_every_chunk_once() {
    let mut chunks = Chunks::new(3);
    assert_eq!(chunks.len(), 3);
    let ups = chunks.update();
    assert_eq!(ups.iter().map(|u| u.0).collect::<Vec<_>>(), vec![0, 1, 2]);
    assert!(ups.iter().all(|u| u.1.len() == 4096));
    assert!(chunks.update().is_empty());
}

#[test]
fn only_written_chunks_are_uploaded() {
    let mut chunks = Chunks::new(3);
    chunks.update();
    assert_eq!(chunks.set_pixel(1, 2, 3, 4, Color::from((5, 6, 7))), Ok(()));
    let ups = chunks.update();
    assert_eq!(ups.len(), 1);
    assert_eq!(ups[0].0, 1);
    assert_eq!(ups[0].1[2 + 16 * (3 + 16 * 4)], 0x050607ff);
}

#[test]
fn handles_stay_stable_after_removal() {
    let mut chunks = Chunks::empty();
    let a = chunks.add(Chunk::new(1, 1, 1, (0, 0, 0)));
    let b = chunks.add(Chunk::new(2, 1, 1, (5, 0, 0)));
    assert_eq!((a, b), (0, 1));
    let removed = chunks.remove(a).unwrap();
    assert_eq!(removed.width(), 1);
    assert!(chunks.get(a).is_none());
    assert_eq!(chunks.get(b).unwrap().origin(), (5, 0, 0));
    assert!(chunks.remove(a).is_none());
    assert!(chunks.remove(7).is_none());
    let c = chunks.add(Chunk::new(1, 1, 1, (0, 0, 0)));
    assert_eq!(c, 2);
}

#[test]
fn writes_to_missing_chunks_fail() {
    let mut chunks = Chunks::new(1);
    assert_eq!(chunks.set_pixel(4, 0, 0, 0, Color::from((1, 1, 1))), Err(ChunkError::NoSuchChunk));
    chunks.remove(0);
    assert_eq!(chunks.set_pixel(0, 0, 0, 0, Color::from((1, 1, 1))), Err(ChunkError::NoSuchChunk));
    let mut chunks = Chunks::new(1);
    chunks.update();
    assert_eq!(chunks.set_pixel(0, 0, 99, 0, Color::from((1, 1, 1))), Err(ChunkError::OutOfRange));
    assert!(chunks.update().is_empty());
}

#[test]
fn object_syncs_its_chunks() {
    let mut o = Object::new(2);
    assert_eq!(o.update().len(), 2);
    assert!(o.update().is_empty());
}

#[test]
fn terrain_adds_and_deletes_its_chunk() {
    let mut chunks = Chunks::new(1);
    let samples: Vec<i64> = (0..4096).map(|i| (i % 3 - 1) * 65536).collect();
    let t = Terrain::new(&mut chunks, &samples);
    assert_eq!(t.handles, vec![1]);
    let c = chunks.get(1).unwrap();
    assert_eq!(c.origin(), (-8, -8, -8));
    assert_eq!(c.voxels()[0], 0);
    assert_eq!(c.voxels()[1], 0);
    assert_eq!(c.voxels()[2], 0xffff_ffff);
    t.delete(&mut chunks);
    assert!(chunks.get(1).is_none());
    assert!(chunks.get(0).is_some());
}
