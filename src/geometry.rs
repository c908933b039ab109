//! Pixel geometry of the image normalizer: the aspect-preserving resize
//! target, the centre-crop origin and the crop into channel-major planes.
use vstd::prelude::*;
use vstd::arithmetic::div_mod::{lemma_fundamental_div_mod, lemma_mod_pos_bound};

verus! {

/// `a / b` rounded to the nearest integer, halves rounded up.
pub open spec fn round_div(a: nat, b: nat) -> nat
    recommends
        b > 0,
{
    (2 * a + b) / (2 * b)
}

/// Dimensions after scaling a `width` x `height` image so that its shorter
/// side becomes `size`, the longer side scaled in proportion and rounded.
/// When the sides are equal the height is taken as the shorter one.
pub open spec fn resized_dims(width: nat, height: nat, size: nat) -> (nat, nat) {
    if width < height {
        (size, round_div(height * size, width))
    } else {
        (round_div(width * size, height), size)
    }
}

/// Top-left corner of the centred `size` x `size` square in a
/// `width` x `height` image.
pub open spec fn crop_origin_of(width: nat, height: nat, size: nat) -> (nat, nat) {
    (((width - size) as nat) / 2, ((height - size) as nat) / 2)
}

/// Position of channel `c`, row `y`, column `x` in a channel-major
/// `3 x size x size` buffer.
pub open spec fn plane_index(size: nat, c: nat, y: nat, x: nat) -> int {
    (c * size * size + y * size + x) as int
}

/// Position of channel `c` of pixel (`x`, `y`) in a row-major RGB buffer of
/// the given width.
pub open spec fn rgb_index(width: nat, c: nat, y: nat, x: nat) -> int {
    ((y * width + x) * 3 + c) as int
}

/// `out` is the centred `size` x `size` square of the row-major RGB image
/// `pixels` (`width` x `height`), laid out channel by channel, row by row.
pub open spec fn is_center_crop_chw(
    out: Seq<u8>,
    pixels: Seq<u8>,
    width: nat,
    height: nat,
    size: nat,
) -> bool {
    let (ox, oy) = crop_origin_of(width, height, size);
    &&& out.len() == 3 * size * size
    &&& forall|c: nat, y: nat, x: nat|
        c < 3 && y < size && x < size ==> out[#[trigger] plane_index(size, c, y, x)]
            == pixels[rgb_index(width, c, oy + y, ox + x)]
}

proof fn lemma_round_div_at_least(a: nat, b: nat, s: nat)
    requires
        b > 0,
        a >= b * s,
    ensures
        round_div(a, b) >= s,
{
    assert(2 * a + b >= 2 * b * s) by (nonlinear_arith)
        requires
            a >= b * s,
    ;
    assert((2 * a + b) / (2 * b) >= (2 * b * s) / (2 * b)) by (nonlinear_arith)
        requires
            2 * a + b >= 2 * b * s,
            b > 0,
    ;
    assert((2 * b * s) / (2 * b) == s) by (nonlinear_arith)
        requires
            b > 0,
    ;
}

/// Both resized sides are at least `size`.
pub proof fn lemma_resized_covers_square(width: nat, height: nat, size: nat)
    requires
        width > 0,
        height > 0,
    ensures
        resized_dims(width, height, size).0 >= size,
        resized_dims(width, height, size).1 >= size,
{
    if width < height {
        assert(height * size >= width * size) by (nonlinear_arith)
            requires
                height > width,
        ;
        lemma_round_div_at_least(height * size, width, size);
    } else {
        assert(width * size >= height * size) by (nonlinear_arith)
            requires
                width >= height,
        ;
        lemma_round_div_at_least(width * size, height, size);
    }
}

/// Target dimensions of the aspect-preserving resize, or `None` when a side
/// does not fit in `u32`.
pub fn resize_dims(width: u32, height: u32, size: u32) -> (r: Option<(u32, u32)>)
    requires
        width > 0,
        height > 0,
    ensures
        r matches Some((w, h)) ==> (w as nat, h as nat) == resized_dims(
            width as nat,
            height as nat,
            size as nat,
        ),
        r is None <==> resized_dims(width as nat, height as nat, size as nat).0 > u32::MAX
            || resized_dims(width as nat, height as nat, size as nat).1 > u32::MAX,
{
    let (long, short) = if width < height {
        (height as u128, width as u128)
    } else {
        (width as u128, height as u128)
    };
    assert(long * (size as u128) <= 0xffff_ffffu128 * 0xffff_ffffu128) by (nonlinear_arith)
        requires
            long <= 0xffff_ffffu128,
            size <= 0xffff_ffffu128,
    ;
    let scaled: u128 = long * (size as u128);
    let rounded: u128 = (2 * scaled + short) / (2 * short);
    assert(rounded == round_div(long as nat * size as nat, short as nat));
    if rounded > u32::MAX as u128 {
        None
    } else if width < height {
        Some((size, rounded as u32))
    } else {
        Some((rounded as u32, size))
    }
}

/// Origin of the centred `size` x `size` crop of a `width` x `height` image.
pub fn crop_origin(width: u32, height: u32, size: u32) -> (r: (u32, u32))
    requires
        width >= size,
        height >= size,
    ensures
        (r.0 as nat, r.1 as nat) == crop_origin_of(width as nat, height as nat, size as nat),
        r.0 + size <= width,
        r.1 + size <= height,
{
    ((width - size) / 2, (height - size) / 2)
}

proof fn lemma_rgb_index_in_bounds(width: nat, height: nat, c: nat, y: nat, x: nat)
    requires
        c < 3,
        y < height,
        x < width,
    ensures
        0 <= rgb_index(width, c, y, x) < width * height * 3,
{
    assert((y * width + x) * 3 + c < width * height * 3) by (nonlinear_arith)
        requires
            c < 3,
            y < height,
            x < width,
    ;
}

proof fn lemma_plane_index_before(s: nat, c2: nat, y2: nat, x2: nat, c: nat, y: nat, x: nat)
    requires
        y < s,
        x < s,
        (c2 < c && y2 < s && x2 < s) || (c2 == c && y2 < y && x2 < s) || (c2 == c && y2 == y
            && x2 < x),
    ensures
        0 <= plane_index(s, c2, y2, x2) < plane_index(s, c, y, x),
{
    if c2 < c {
        assert(c2 * s * s + y2 * s + x2 < c * s * s) by (nonlinear_arith)
            requires
                c2 < c,
                y2 < s,
                x2 < s,
        ;
    } else if y2 < y {
        assert(y2 * s + x2 < y * s) by (nonlinear_arith)
            requires
                y2 < y,
                x2 < s,
        ;
    }
}

/// Cuts the centred `size` x `size` square out of a row-major RGB image and
/// lays it out channel-major: all red values, then green, then blue.
pub fn crop_to_planes(pixels: &Vec<u8>, width: u32, height: u32, size: u32) -> (r: Vec<u8>)
    requires
        width >= size,
        height >= size,
        pixels@.len() == width * height * 3,
    ensures
        is_center_crop_chw(r@, pixels@, width as nat, height as nat, size as nat),
{
    let (ox, oy) = crop_origin(width, height, size);
    let ghost s = size as nat;
    let ghost w = width as nat;
    let ghost oxn = ox as nat;
    let ghost oyn = oy as nat;
    let w64: u64 = width as u64;
    let n: usize = pixels.len();
    let mut out: Vec<u8> = Vec::new();
    let mut c: u64 = 0;
    while c < 3
        invariant
            0 <= c <= 3,
            s == size,
            w == width,
            w64 == width,
            pixels@.len() == width * height * 3,
            (oxn, oyn) == crop_origin_of(width as nat, height as nat, s),
            oxn == ox,
            oyn == oy,
            n == pixels@.len(),
            ox + size <= width,
            oy + size <= height,
            out@.len() == c * s * s,
            forall|c2: nat, y2: nat, x2: nat|
                c2 < c && y2 < s && x2 < s ==> out@[#[trigger] plane_index(s, c2, y2, x2)]
                    == pixels@[rgb_index(w, c2, oyn + y2, oxn + x2)],
        decreases 3 - c,
    {
        let mut y: u64 = 0;
        while y < size as u64
            invariant
                0 <= c < 3,
                0 <= y <= s,
                s == size,
                w == width,
                w64 == width,
                pixels@.len() == width * height * 3,
                (oxn, oyn) == crop_origin_of(width as nat, height as nat, s),
            oxn == ox,
            oyn == oy,
            n == pixels@.len(),
                ox + size <= width,
                oy + size <= height,
                out@.len() == c * s * s + y * s,
                forall|c2: nat, y2: nat, x2: nat|
                    (c2 < c && y2 < s && x2 < s) || (c2 == c && y2 < y && x2 < s)
                        ==> out@[#[trigger] plane_index(s, c2, y2, x2)]
                        == pixels@[rgb_index(w, c2, oyn + y2, oxn + x2)],
            decreases s - y,
        {
            let mut x: u64 = 0;
            while x < size as u64
                invariant
                    0 <= c < 3,
                    0 <= y < s,
                    0 <= x <= s,
                    s == size,
                    w == width,
                    w64 == width,
                    pixels@.len() == width * height * 3,
                    (oxn, oyn) == crop_origin_of(width as nat, height as nat, s),
            oxn == ox,
            oyn == oy,
            n == pixels@.len(),
                    ox + size <= width,
                    oy + size <= height,
                    out@.len() == c * s * s + y * s + x,
                    forall|c2: nat, y2: nat, x2: nat|
                        (c2 < c && y2 < s && x2 < s) || (c2 == c && y2 < y && x2 < s) || (c2
                            == c && y2 == y && x2 < x) ==> out@[#[trigger] plane_index(
                            s,
                            c2,
                            y2,
                            x2,
                        )] == pixels@[rgb_index(w, c2, oyn + y2, oxn + x2)],
                decreases s - x,
            {
                let row: u64 = oy as u64 + y;
                let col: u64 = ox as u64 + x;
                proof {
                    lemma_rgb_index_in_bounds(w, height as nat, c as nat, row as nat, col as nat);
                    assert(row * w64 + col <= u32::MAX * u32::MAX) by (nonlinear_arith)
                        requires
                            row < u32::MAX,
                            col < u32::MAX,
                            w64 <= u32::MAX,
                    ;
                }
                assert(rgb_index(w, c as nat, row as nat, col as nat) == (row * w64 + col) * 3 + c);
                let idx: u64 = (row * w64 + col) * 3 + c;
                let v: u8 = pixels[idx as usize];
                let ghost prev = out@;
                proof {
                    assert(plane_index(s, c as nat, y as nat, x as nat) == out@.len());
                }
                out.push(v);
                proof {
                    assert forall|c2: nat, y2: nat, x2: nat|
                        (c2 < c && y2 < s && x2 < s) || (c2 == c && y2 < y && x2 < s) || (c2
                            == c && y2 == y && x2 < x) implies #[trigger] plane_index(s, c2, y2, x2)
                        < prev.len() by {
                        lemma_plane_index_before(s, c2, y2, x2, c as nat, y as nat, x as nat);
                    }
                }
                x = x + 1;
            }
            proof {
                assert(c * s * s + y * s + s == c * s * s + (y + 1) * s) by (nonlinear_arith);
            }
            y = y + 1;
        }
        proof {
            assert(c * s * s + s * s == (c + 1) * s * s) by (nonlinear_arith);
        }
        c = c + 1;
    }
    out
}

/// Every position of a `3 x size x size` buffer is some channel, row and column.
proof fn lemma_plane_index_onto(s: nat, i: int) -> (t: (nat, nat, nat))
    requires
        0 <= i < 3 * s * s,
    ensures
        t.0 < 3 && t.1 < s && t.2 < s,
        plane_index(s, t.0, t.1, t.2) == i,
{
    let ss = (s * s) as int;
    assert(ss > 0) by (nonlinear_arith)
        requires
            0 <= i < 3 * s * s,
            ss == s * s,
    ;
    assert(3 * s * s == 3 * ss) by (nonlinear_arith)
        requires
            ss == s * s,
    ;
    lemma_fundamental_div_mod(i, ss);
    lemma_mod_pos_bound(i, ss);
    let c = i / ss;
    let rem = i % ss;
    assert(0 <= c < 3) by (nonlinear_arith)
        requires
            i == ss * c + rem,
            0 <= rem < ss,
            0 <= i < 3 * ss,
    ;
    assert(s > 0) by (nonlinear_arith)
        requires
            ss == s * s,
            ss > 0,
    ;
    lemma_fundamental_div_mod(rem, s as int);
    lemma_mod_pos_bound(rem, s as int);
    let y = rem / (s as int);
    let x = rem % (s as int);
    assert(0 <= y < s) by (nonlinear_arith)
        requires
            rem == s * y + x,
            0 <= x < s,
            0 <= rem < s * s,
    ;
    assert(c * s * s + y * s + x == i) by (nonlinear_arith)
        requires
            i == ss * c + rem,
            rem == s * y + x,
            ss == s * s,
    ;
    (c as nat, y as nat, x as nat)
}

/// The centred crop of an image is one buffer: two buffers that both are it
/// are equal.
pub proof fn lemma_center_crop_unique(
    a: Seq<u8>,
    b: Seq<u8>,
    pixels: Seq<u8>,
    width: nat,
    height: nat,
    size: nat,
)
    requires
        is_center_crop_chw(a, pixels, width, height, size),
        is_center_crop_chw(b, pixels, width, height, size),
    ensures
        a == b,
{
    assert forall|i: int| 0 <= i < a.len() implies a[i] == b[i] by {
        let t = lemma_plane_index_onto(size, i);
        assert(plane_index(size, t.0, t.1, t.2) == i);
    }
    assert(a =~= b);
}

/// For a resized image of `width` x `height` with both sides at least
/// `size`, the crop starts at ((width - size) / 2, (height - size) / 2), in
/// integer division, and its `size` x `size` square lies inside the image.
pub proof fn lemma_crop_inside(width: nat, height: nat, size: nat)
    requires
        width >= size,
        height >= size,
    ensures
        crop_origin_of(width, height, size) == (((width - size) as nat) / 2, ((height - size) as nat) / 2),
        crop_origin_of(width, height, size).0 + size <= width,
        crop_origin_of(width, height, size).1 + size <= height,
{
}

} // verus!
