use voxel_engine::color::Color;

#[test]
fn packs_red_first() {
    let c = Color { r: 0x12, g: 0x34, b: 0x56, a: 0x78 };
    assert_eq!(c.to_u32(), 0x12345678);
}

#[test]
fn packs_extremes() {
    assert_eq!(Color { r: 0, g: 0, b: 0, a: 0 }.to_u32(), 0);
    assert_eq!(Color { r: 255, g: 255, b: 255, a: 255 }.to_u32(), 0xffff_ffff);
}

#[test]
fn rgb_tuple_is_opaque() {
    let c = Color::from((1, 2, 3));
    assert_eq!(c, Color { r: 1, g: 2, b: 3, a: 255 });
    assert_eq!(c.to_u32(), 0x010203ff);
}

#[test]
fn rgba_tuple_keeps_alpha() {
    let c = Color::from((9, 8, 7, 6));
    assert_eq!(c, Color { r: 9, g: 8, b: 7, a: 6 });
}
