//! Procedural placeholder textures: RGBA8 pixel buffers, row-major, four bytes per pixel.
use vstd::prelude::*;

verus! {

/// Edge length of the square skill and item placeholders.
pub const SZ: u32 = 32;

/// The four bytes at pixel `(x, y)` of a `w`-wide buffer are `px`.
pub open spec fn pixel_written(data: Seq<u8>, w: int, x: int, y: int, px: [u8; 4]) -> bool {
    let i = (y * w + x) * 4;
    &&& data[i] == px[0]
    &&& data[i + 1] == px[1]
    &&& data[i + 2] == px[2]
    &&& data[i + 3] == px[3]
}

/// Pixel `(x, y)` of `data` holds a value `f(x, y)` may return.
pub open spec fn pixel_from<F: Fn(u32, u32) -> [u8; 4]>(data: Seq<u8>, w: int, f: F, x: u32, y: u32) -> bool {
    exists|px: [u8; 4]| call_ensures(f, (x, y), px) && #[trigger] pixel_written(data, w, x as int, y as int, px)
}

proof fn lemma_row_major_index(w: int, h: int, x: int, y: int)
    requires
        0 <= x < w,
        0 <= y < h,
    ensures
        0 <= y * w + x < h * w,
        (y * w + x) * 4 + 4 <= h * w * 4,
{
    assert(y * w + x < (y + 1) * w) by (nonlinear_arith)
        requires
            0 <= x < w,
    ;
    assert((y + 1) * w <= h * w) by (nonlinear_arith)
        requires
            0 <= y < h,
            0 < w,
    ;
    assert(0 <= y * w) by (nonlinear_arith)
        requires
            0 <= y,
            0 < w,
    ;
    assert((y * w + x) * 4 + 4 == (y * w + x + 1) * 4);
    assert((y * w + x + 1) * 4 <= h * w * 4) by (nonlinear_arith)
        requires
            y * w + x + 1 <= h * w,
    ;
}

proof fn lemma_earlier_pixel(w: int, x: int, y: int, xc: int, yc: int)
    requires
        0 <= x < w,
        0 <= y,
        0 <= xc <= w,
        y < yc || (y == yc && x < xc),
    ensures
        (y * w + x) * 4 + 4 <= (yc * w + xc) * 4,
{
    if y < yc {
        assert(y * w + x + 1 <= yc * w) by (nonlinear_arith)
            requires
                0 <= x < w,
                y < yc,
        ;
    }
}

/// A `w` by `h` RGBA8 buffer whose pixel `(x, y)` is what `f(x, y)` returns.
pub fn rgba_pixels<F: Fn(u32, u32) -> [u8; 4]>(w: u32, h: u32, f: F) -> (data: Vec<u8>)
    requires
        w as int * h as int * 4 <= u32::MAX,
        forall|x: u32, y: u32| x < w && y < h ==> call_requires(f, (x, y)),
    ensures
        data@.len() == w as int * h as int * 4,
        forall|x: u32, y: u32|
            x < w && y < h ==> #[trigger] pixel_from(data@, w as int, f, x, y),
{
    let mut data: Vec<u8> = Vec::new();
    let mut y: u32 = 0;
    while y < h
        invariant
            w as int * h as int * 4 <= u32::MAX,
            forall|x: u32, y: u32| x < w && y < h ==> call_requires(f, (x, y)),
            y <= h,
            data@.len() == y as int * w as int * 4,
            forall|xx: u32, yy: u32|
                xx < w && yy < y ==> #[trigger] pixel_from(data@, w as int, f, xx, yy),
        decreases h - y,
    {
        let mut x: u32 = 0;
        while x < w
            invariant
                w as int * h as int * 4 <= u32::MAX,
                forall|x: u32, y: u32| x < w && y < h ==> call_requires(f, (x, y)),
                y < h,
                x <= w,
                data@.len() == (y as int * w as int + x as int) * 4,
                forall|xx: u32, yy: u32|
                    xx < w && (yy < y || (yy == y && xx < x)) ==> #[trigger] pixel_from(data@, w as int, f, xx, yy),
            decreases w - x,
        {
            let px = f(x, y);
            let ghost before = data@;
            data.push(px[0]);
            data.push(px[1]);
            data.push(px[2]);
            data.push(px[3]);
            proof {
                lemma_row_major_index(w as int, h as int, x as int, y as int);
                assert forall|xx: u32, yy: u32|
                    xx < w && (yy < y || (yy == y && xx < x + 1)) implies #[trigger] pixel_from(data@, w as int, f, xx, yy) by {
                    if yy == y && xx == x {
                        assert(pixel_written(data@, w as int, xx as int, yy as int, px));
                    } else {
                        assert(pixel_from(before, w as int, f, xx, yy));
                        let q = choose|q: [u8; 4]| call_ensures(f, (xx, yy), q) && pixel_written(before, w as int, xx as int, yy as int, q);
                        lemma_earlier_pixel(w as int, xx as int, yy as int, x as int, y as int);
                        let i = (yy as int * w as int + xx as int) * 4;
                        assert(data@[i] == before[i] && data@[i + 1] == before[i + 1] && data@[i + 2] == before[i + 2] && data@[i + 3] == before[i + 3]);
                        assert(pixel_written(data@, w as int, xx as int, yy as int, q));
                    }
                }
            }
            x = x + 1;
        }
        proof {
            assert(data@.len() == (y as int + 1) * w as int * 4) by (nonlinear_arith)
                requires
                    data@.len() == (y as int * w as int + w as int) * 4,
            ;
        }
        y = y + 1;
    }
    assert(data@.len() == w as int * h as int * 4) by (nonlinear_arith)
        requires
            data@.len() == y as int * w as int * 4,
            y == h,
    ;
    data
}

/// A square `w` by `w` RGBA8 buffer whose pixel `(x, y)` is what `f(x, y)` returns.
pub fn rgba_square<F: Fn(u32, u32) -> [u8; 4]>(w: u32, f: F) -> (data: Vec<u8>)
    requires
        w as int * w as int * 4 <= u32::MAX,
        forall|x: u32, y: u32| x < w && y < w ==> call_requires(f, (x, y)),
    ensures
        data@.len() == w as int * w as int * 4,
        forall|x: u32, y: u32| x < w && y < w ==> #[trigger] pixel_from(data@, w as int, f, x, y),
{
    rgba_pixels(w, w, f)
}

/// Active skill icon: gold border, teal field with a diagonal highlight.
pub open spec fn skill_active_spec(x: u32, y: u32) -> [u8; 4] {
    if x < 2 || y < 2 || x >= SZ - 2 || y >= SZ - 2 {
        [200, 165, 90, 255]
    } else if x + y > 38 && x + y < 46 && x > 4 && y > 4 && x < SZ - 5 && y < SZ - 5 {
        [55, 110, 98, 255]
    } else {
        [28, 62, 58, 255]
    }
}

pub fn pixel_skill_active(x: u32, y: u32) -> (px: [u8; 4])
    requires
        x < SZ,
        y < SZ,
    ensures
        px == skill_active_spec(x, y),
{
    if x < 2 || y < 2 || x >= SZ - 2 || y >= SZ - 2 {
        return [200, 165, 90, 255];
    }
    if x + y > 38 && x + y < 46 && x > 4 && y > 4 && x < SZ - 5 && y < SZ - 5 {
        return [55, 110, 98, 255];
    }
    [28, 62, 58, 255]
}

/// Empty slot icon: dark field with a faint X.
pub open spec fn skill_empty_spec(x: u32, y: u32) -> [u8; 4] {
    if (x == y || x + y == SZ - 1) && x > 6 && x < SZ - 7 {
        [58, 55, 60, 255]
    } else {
        [40, 38, 42, 255]
    }
}

pub fn pixel_skill_empty(x: u32, y: u32) -> (px: [u8; 4])
    requires
        x < SZ,
        y < SZ,
    ensures
        px == skill_empty_spec(x, y),
{
    if x == y || x + y == SZ - 1 {
        if x > 6 && x < SZ - 7 {
            return [58, 55, 60, 255];
        }
    }
    [40, 38, 42, 255]
}

/// Locked slot icon: frame, padlock body and shackle.
pub open spec fn skill_locked_spec(x: u32, y: u32) -> [u8; 4] {
    if x < 3 || y < 3 || x >= SZ - 3 || y >= SZ - 3 {
        [90, 75, 50, 255]
    } else if x >= 12 && x <= 19 && y >= 12 && y <= 24 {
        [210, 185, 70, 255]
    } else if x >= 10 && x <= 21 && y >= 8 && y <= 14 {
        [160, 150, 140, 255]
    } else {
        [22, 20, 24, 255]
    }
}

pub fn pixel_skill_locked(x: u32, y: u32) -> (px: [u8; 4])
    requires
        x < SZ,
        y < SZ,
    ensures
        px == skill_locked_spec(x, y),
{
    if x < 3 || y < 3 || x >= SZ - 3 || y >= SZ - 3 {
        return [90, 75, 50, 255];
    }
    if x >= 12 && x <= 19 && y >= 12 && y <= 24 {
        return [210, 185, 70, 255];
    }
    if x >= 10 && x <= 21 && y >= 8 && y <= 14 {
        return [160, 150, 140, 255];
    }
    [22, 20, 24, 255]
}

/// Generic item icon: a chest with lid and band on a transparent ground.
pub open spec fn item_chest_spec(x: u32, y: u32) -> [u8; 4] {
    if y >= 18 && y <= 20 && x >= 5 && x <= 26 {
        [160, 120, 60, 255]
    } else if y >= 8 && y < 14 && x >= 6 && x <= 25 {
        [110, 70, 45, 255]
    } else if y >= 14 && y <= 26 && x >= 5 && x <= 26 {
        [85, 52, 35, 255]
    } else {
        [0, 0, 0, 0]
    }
}

pub fn pixel_item_chest(x: u32, y: u32) -> (px: [u8; 4])
    ensures
        px == item_chest_spec(x, y),
{
    let lid = y >= 8 && y < 14 && x >= 6 && x <= 25;
    let boxy = y >= 14 && y <= 26 && x >= 5 && x <= 26;
    let band = y >= 18 && y <= 20 && x >= 5 && x <= 26;
    if band {
        return [160, 120, 60, 255];
    }
    if lid {
        return [110, 70, 45, 255];
    }
    if boxy {
        return [85, 52, 35, 255];
    }
    [0, 0, 0, 0]
}

/// The active skill placeholder image data.
pub fn gen_skill_active() -> (data: Vec<u8>)
    ensures
        data@.len() == SZ * SZ * 4,
        forall|x: u32, y: u32| x < SZ && y < SZ ==> pixel_written(data@, SZ as int, x as int, y as int, skill_active_spec(x, y)),
{
    let data = rgba_square(SZ, pixel_skill_active);
    assert forall|x: u32, y: u32| x < SZ && y < SZ implies pixel_written(data@, SZ as int, x as int, y as int, skill_active_spec(x, y)) by {
        assert(pixel_from(data@, SZ as int, pixel_skill_active, x, y));
    }
    data
}

/// The empty slot placeholder image data.
pub fn gen_skill_empty() -> (data: Vec<u8>)
    ensures
        data@.len() == SZ * SZ * 4,
        forall|x: u32, y: u32| x < SZ && y < SZ ==> pixel_written(data@, SZ as int, x as int, y as int, skill_empty_spec(x, y)),
{
    let data = rgba_square(SZ, pixel_skill_empty);
    assert forall|x: u32, y: u32| x < SZ && y < SZ implies pixel_written(data@, SZ as int, x as int, y as int, skill_empty_spec(x, y)) by {
        assert(pixel_from(data@, SZ as int, pixel_skill_empty, x, y));
    }
    data
}

/// The locked slot placeholder image data.
pub fn gen_skill_locked() -> (data: Vec<u8>)
    ensures
        data@.len() == SZ * SZ * 4,
        forall|x: u32, y: u32| x < SZ && y < SZ ==> pixel_written(data@, SZ as int, x as int, y as int, skill_locked_spec(x, y)),
{
    let data = rgba_square(SZ, pixel_skill_locked);
    assert forall|x: u32, y: u32| x < SZ && y < SZ implies pixel_written(data@, SZ as int, x as int, y as int, skill_locked_spec(x, y)) by {
        assert(pixel_from(data@, SZ as int, pixel_skill_locked, x, y));
    }
    data
}

/// The generic item placeholder image data.
pub fn gen_item_chest() -> (data: Vec<u8>)
    ensures
        data@.len() == SZ * SZ * 4,
        forall|x: u32, y: u32| x < SZ && y < SZ ==> pixel_written(data@, SZ as int, x as int, y as int, item_chest_spec(x, y)),
{
    let data = rgba_square(SZ, pixel_item_chest);
    assert forall|x: u32, y: u32| x < SZ && y < SZ implies pixel_written(data@, SZ as int, x as int, y as int, item_chest_spec(x, y)) by {
        assert(pixel_from(data@, SZ as int, pixel_item_chest, x, y));
    }
    data
}

} // verus!
