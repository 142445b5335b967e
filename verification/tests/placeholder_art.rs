use idle_dungeons::placeholder_art::{
    gen_item_chest, gen_skill_active, gen_skill_empty, gen_skill_locked, pixel_item_chest,
    rgba_pixels, rgba_square, SZ,
};

fn px(data: &[u8], w: u32, x: u32, y: u32) -> [u8; 4] {
    let i = ((y * w + x) * 4) as usize;
    [data[i], data[i + 1], data[i + 2], data[i + 3]]
}

#[test]
fn buffer_is_row_major_rgba() {
    let data = rgba_pixels(3, 2, |x, y| [x as u8, y as u8, 7, 255]);
    assert_eq!(data.len(), 24);
    assert_eq!(px(&data, 3, 2, 0), [2, 0, 7, 255]);
    assert_eq!(px(&data, 3, 0, 1), [0, 1, 7, 255]);
    assert_eq!(&data[12..16], &[0, 1, 7, 255]);
    assert!(rgba_pixels(0, 5, |_, _| [1, 1, 1, 1]).is_empty());
    assert_eq!(rgba_square(2, |x, y| [x as u8, y as u8, 0, 0]), vec![0, 0, 0, 0, 1, 0, 0, 0, 0, 1, 0, 0, 1, 1, 0, 0]);
}

#[test]
fn skill_icons() {
    let a = gen_skill_active();
    assert_eq!(a.len(), (SZ * SZ * 4) as usize);
    assert_eq!(px(&a, SZ, 0, 0), [200, 165, 90, 255]);
    assert_eq!(px(&a, SZ, 20, 21), [55, 110, 98, 255]);
    assert_eq!(px(&a, SZ, 10, 10), [28, 62, 58, 255]);
    let e = gen_skill_empty();
    assert_eq!(px(&e, SZ, 10, 10), [58, 55, 60, 255]);
    assert_eq!(px(&e, SZ, 3, 3), [40, 38, 42, 255]);
    assert_eq!(px(&e, SZ, 10, 21), [58, 55, 60, 255]);
    let l = gen_skill_locked();
    assert_eq!(px(&l, SZ, 1, 20), [90, 75, 50, 255]);
    assert_eq!(px(&l, SZ, 15, 20), [210, 185, 70, 255]);
    assert_eq!(px(&l, SZ, 10, 9), [160, 150, 140, 255]);
    assert_eq!(px(&l, SZ, 5, 5), [22, 20, 24, 255]);
}

#[test]
fn chest_icon() {
    let c = gen_item_chest();
    assert_eq!(px(&c, SZ, 10, 19), [160, 120, 60, 255]);
    assert_eq!(px(&c, SZ, 10, 10), [110, 70, 45, 255]);
    assert_eq!(px(&c, SZ, 5, 15), [85, 52, 35, 255]);
    assert_eq!(px(&c, SZ, 0, 0), [0, 0, 0, 0]);
    assert_eq!(pixel_item_chest(26, 26), [85, 52, 35, 255]);
}
