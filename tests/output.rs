use voxel_engine::output::{Fragment, Output, Size, FAR_DEPTH};

fn frag(pixel: usize, depth: u32, color: u32) -> Fragment {
    Fragment { pixel, depth, color }
}

#[test]
fn new_buffers_are_cleared() {
    let o = Output::new(4, 3);
    assert_eq!(o.size(), Size { width: 4, height: 3 });
    assert_eq!(o.color(), &vec![0u32; 12]);
    assert_eq!(o.depth(), &vec![FAR_DEPTH; 12]);
}

#[test]
fn nearer_fragment_wins_and_ties_keep_first() {
    let mut o = Output::new(2, 2);
    o.dispatch(&vec![frag(1, 50, 7), frag(1, 60, 8), frag(1, 50, 9), frag(1, 40, 10), frag(9, 1, 11)]);
    assert_eq!(o.color(), &vec![0, 10, 0, 0]);
    assert_eq!(o.depth(), &vec![FAR_DEPTH, 40, FAR_DEPTH, FAR_DEPTH]);
}

#[test]
fn far_depth_fragment_is_not_drawn() {
    let mut o = Output::new(1, 1);
    o.dispatch(&vec![frag(0, FAR_DEPTH, 3)]);
    assert_eq!(o.color(), &vec![0]);
}

#[test]
fn dispatch_order_does_not_matter() {
    let a = vec![frag(0, 10, 1), frag(1, 30, 1), frag(2, 5, 1)];
    let b = vec![frag(0, 20, 2), frag(1, 25, 2), frag(3, 7, 2), frag(2, 5, 1)];
    let mut ab = Output::new(2, 2);
    ab.dispatch(&a);
    ab.dispatch(&b);
    let mut ba = Output::new(2, 2);
    ba.dispatch(&b);
    ba.dispatch(&a);
    assert_eq!(ab.color(), ba.color());
    assert_eq!(ab.depth(), ba.depth());
    assert_eq!(ab.color(), &vec![1, 2, 1, 2]);
    assert_eq!(ab.depth(), &vec![10, 25, 5, 7]);
}

#[test]
fn clear_resets_every_pixel() {
    let mut o = Output::new(3, 1);
    o.dispatch(&vec![frag(0, 1, 5), frag(2, 2, 6)]);
    o.clear();
    assert_eq!(o.color(), &vec![0, 0, 0]);
    assert_eq!(o.depth(), &vec![FAR_DEPTH; 3]);
    assert_eq!(o.size(), Size { width: 3, height: 1 });
}

#[test]
fn resize_round_trip_gives_fresh_buffers() {
    let mut o = Output::new(4, 4);
    o.dispatch(&vec![frag(3, 1, 5)]);
    o.resize(8, 2);
    assert_eq!(o.color().len(), 16);
    o.dispatch(&vec![frag(15, 1, 5)]);
    o.resize(4, 4);
    assert_eq!(o.size(), Size { width: 4, height: 4 });
    assert_eq!(o.color(), &vec![0u32; 16]);
    assert_eq!(o.depth(), &vec![FAR_DEPTH; 16]);
}

#[test]
fn resize_to_zero_is_ignored() {
    let mut o = Output::new(2, 1);
    o.dispatch(&vec![frag(1, 3, 4)]);
    o.resize(0, 10);
    o.resize(10, 0);
    assert_eq!(o.size(), Size { width: 2, height: 1 });
    assert_eq!(o.color(), &vec![0, 4]);
}
