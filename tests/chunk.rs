use voxel_engine::chunk::{Chunk, ChunkError, CHUNK_HEIGHT, CHUNK_LENGTH, CHUNK_WIDTH, SAMPLE_ONE};
use voxel_engine::color::Color;

fn gradient16() -> Chunk {
    Chunk::gradient(CHUNK_WIDTH, CHUNK_HEIGHT, CHUNK_LENGTH, (0, 0, 0))
}

#[test]
fn gradient_corners() {
    let c = gradient16();
    assert_eq!(c.voxel(0, 0, 0), Ok(Color { r: 0, g: 0, b: 0, a: 255 }.to_u32()));
    assert_eq!(c.voxel(15, 15, 15), Ok(Color { r: 255, g: 255, b: 255, a: 255 }.to_u32()));
}

#[test]
fn gradient_ramps_each_axis() {
    let c = gradient16();
    assert_eq!(c.voxel(1, 0, 0), Ok(0x110000ff));
    assert_eq!(c.voxel(0, 1, 0), Ok(0x001100ff));
    assert_eq!(c.voxel(0, 0, 1), Ok(0x000011ff));
    assert_eq!(c.voxels().len(), 4096);
    assert_eq!(c.voxels()[1 + 16 * (2 + 16 * 3)], Color::from((17, 34, 51)).to_u32());
}

#[test]
fn gradient_of_other_sizes() {
    let c = Chunk::gradient(4, 2, 1, (1, 2, 3));
    assert_eq!(c.voxels().len(), 8);
    assert_eq!(c.voxel(3, 1, 0), Ok(Color::from((255, 255, 0)).to_u32()));
    assert_eq!(c.voxel(2, 0, 0), Ok(Color::from((170, 0, 0)).to_u32()));
    assert_eq!(c.origin(), (1, 2, 3));
    assert_eq!((c.width(), c.height(), c.length()), (4, 2, 1));
}

#[test]
fn empty_chunk_is_zero_and_dirty() {
    let c = Chunk::new(2, 3, 4, (0, 0, 0));
    assert_eq!(c.voxels(), &vec![0u32; 24]);
    assert!(c.is_dirty());
}

#[test]
fn samples_are_clamped_and_quantized() {
    let samples = vec![-5, 0, SAMPLE_ONE, SAMPLE_ONE / 2, 200_000, 258, 257, 1];
    let c = Chunk::from_samples(2, 2, 2, (0, 0, 0), &samples);
    assert_eq!(
        c.voxels(),
        &vec![0, 0, 0xffff_ffff, 0x7f7f_7f7f, 0xffff_ffff, 0x0101_0101, 0, 0]
    );
}

#[test]
fn write_then_sync_uploads_written_color() {
    let mut c = gradient16();
    assert!(c.update().is_some());
    let color = Color { r: 1, g: 2, b: 3, a: 4 };
    for &(x, y, z) in &[(0usize, 0usize, 0usize), (15, 15, 15), (3, 7, 11)] {
        assert_eq!(c.set_pixel(x, y, z, color), Ok(()));
        assert!(c.is_dirty());
        let data = c.update().unwrap();
        assert_eq!(data[x + 16 * (y + 16 * z)], 0x01020304);
        assert_eq!(&data, c.voxels());
        assert!(!c.is_dirty());
    }
}

#[test]
fn write_out_of_range_changes_nothing() {
    let mut c = gradient16();
    c.update();
    let before = c.voxels().clone();
    let color = Color { r: 9, g: 9, b: 9, a: 9 };
    assert_eq!(c.set_pixel(16, 0, 0, color), Err(ChunkError::OutOfRange));
    assert_eq!(c.set_pixel(0, 16, 0, color), Err(ChunkError::OutOfRange));
    assert_eq!(c.set_pixel(0, 0, 16, color), Err(ChunkError::OutOfRange));
    assert_eq!(c.set_pixel(usize::MAX, usize::MAX, usize::MAX, color), Err(ChunkError::OutOfRange));
    assert_eq!(c.voxels(), &before);
    assert!(!c.is_dirty());
    assert_eq!(c.voxel(0, 0, 16), Err(ChunkError::OutOfRange));
}

#[test]
fn second_sync_is_a_no_op() {
    let mut c = gradient16();
    let first = c.update();
    assert!(first.is_some());
    let data = c.voxels().clone();
    assert_eq!(c.update(), None);
    assert_eq!(c.voxels(), &data);
    assert_eq!(first.unwrap(), data);
}

#[test]
fn zero_sized_grid_rejects_every_write() {
    let mut c = Chunk::new(0, 5, 5, (0, 0, 0));
    assert_eq!(c.set_pixel(0, 0, 0, Color::from((1, 1, 1))), Err(ChunkError::OutOfRange));
    assert_eq!(c.update(), Some(vec![]));
}
