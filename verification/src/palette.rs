//! The Launchpad's 128-colour hardware palette and the choice of the palette
//! entry that a person would see as closest to an arbitrary RGB colour.
use vstd::prelude::*;

verus! {

/// The 128 colours of the Launchpad palette, indexed by colour code, as RGB.
pub const LAUNCHPAD_PALETTE: [(u8, u8, u8); 128] = [
    (0, 0, 0), (64, 64, 64), (128, 128, 128), (252, 252, 252), (252, 60, 60), (252, 0, 0), (128, 0, 0), (64, 0, 0),
    (252, 184, 104), (252, 60, 0), (128, 32, 0), (64, 16, 0), (252, 172, 44), (252, 252, 0), (128, 128, 0), (64, 64, 0),
    (132, 252, 48), (80, 252, 0), (40, 128, 0), (20, 64, 0), (72, 252, 72), (0, 252, 0), (0, 128, 0), (0, 64, 0),
    (72, 252, 92), (0, 252, 24), (0, 128, 12), (0, 64, 4), (72, 252, 88), (0, 252, 84), (0, 128, 44), (0, 64, 24),
    (72, 252, 180), (0, 252, 148), (0, 128, 72), (0, 64, 36), (72, 192, 252), (0, 164, 252), (0, 84, 128), (0, 44, 64),
    (72, 132, 252), (0, 84, 252), (0, 44, 128), (0, 24, 64), (44, 36, 252), (0, 0, 252), (0, 0, 128), (0, 0, 64),
    (104, 52, 248), (44, 0, 252), (24, 0, 128), (12, 0, 64), (252, 60, 252), (252, 0, 252), (128, 0, 128), (64, 0, 64),
    (252, 64, 108), (252, 0, 80), (128, 0, 40), (64, 0, 20), (252, 12, 0), (148, 52, 0), (116, 80, 0), (32, 52, 4),
    (0, 56, 0), (0, 72, 24), (0, 20, 108), (0, 0, 252), (0, 68, 76), (16, 0, 200), (124, 124, 124), (28, 28, 28),
    (252, 0, 0), (184, 252, 44), (172, 232, 4), (96, 252, 8), (12, 136, 0), (0, 252, 92), (0, 164, 252), (0, 40, 252),
    (24, 0, 252), (88, 0, 252), (172, 24, 120), (40, 16, 0), (252, 48, 0), (132, 220, 4), (112, 252, 20), (0, 252, 0),
    (56, 252, 36), (84, 252, 108), (52, 252, 200), (88, 136, 252), (48, 80, 192), (104, 80, 228), (208, 28, 252), (252, 0, 88),
    (252, 68, 0), (180, 164, 0), (140, 252, 0), (128, 88, 4), (56, 40, 0), (0, 72, 12), (12, 76, 32), (20, 20, 40),
    (20, 28, 88), (100, 56, 24), (128, 0, 0), (216, 64, 40), (212, 72, 16), (252, 188, 36), (156, 220, 44), (100, 176, 12),
    (20, 20, 44), (216, 208, 104), (124, 232, 136), (152, 148, 252), (140, 100, 252), (60, 60, 60), (112, 112, 112), (220, 252, 252),
    (156, 0, 0), (52, 0, 0), (24, 204, 0), (4, 64, 0), (180, 172, 0), (60, 48, 0), (176, 80, 0), (72, 20, 0),
];

/// The colour that a Launchpad colour code stands for: its palette entry, or a
/// light grey for codes beyond the palette.
pub open spec fn code_rgb(code: u8) -> (u8, u8, u8) {
    if code < 128 {
        LAUNCHPAD_PALETTE@[code as int]
    } else {
        (200u8, 200u8, 200u8)
    }
}

/// The "redmean" colour distance between `a` and `b`, scaled by 512 so that it
/// is an integer:
/// `(2 + rmean/256)·dR² + 4·dG² + (2 + (255 - rmean)/256)·dB²` times 512,
/// where `rmean` is the mean of the two red components.
pub open spec fn redmean_distance(a: (u8, u8, u8), b: (u8, u8, u8)) -> int {
    let sum_r = a.0 + b.0;
    let dr = a.0 - b.0;
    let dg = a.1 - b.1;
    let db = a.2 - b.2;
    (1024 + sum_r) * (dr * dr) + 2048 * (dg * dg) + (1534 - sum_r) * (db * db)
}

/// `code` is the first palette entry at the least redmean distance from `c`.
pub open spec fn is_nearest_code(c: (u8, u8, u8), code: int) -> bool {
    &&& 0 <= code < 128
    &&& forall|j: int|
        0 <= j < 128 ==> redmean_distance(c, LAUNCHPAD_PALETTE@[code]) <= redmean_distance(
            c,
            #[trigger] LAUNCHPAD_PALETTE@[j],
        )
    &&& forall|j: int|
        0 <= j < code ==> redmean_distance(c, LAUNCHPAD_PALETTE@[code]) < redmean_distance(
            c,
            #[trigger] LAUNCHPAD_PALETTE@[j],
        )
}

/// RGB of a Launchpad colour code; codes beyond the palette show as light grey.
pub fn launchpad_color_to_rgb(code: u8) -> (rgb: (u8, u8, u8))
    ensures
        rgb == code_rgb(code),
{
    if code < 128 {
        LAUNCHPAD_PALETTE[code as usize]
    } else {
        (200, 200, 200)
    }
}

fn square_of_difference(x: u8, y: u8) -> (s: u64)
    ensures
        s == (x - y) * (x - y),
        s <= 65025,
{
    let d: u64 = if x >= y {
        (x - y) as u64
    } else {
        (y - x) as u64
    };
    assert(d * d <= 65025 && d * d == (x - y) * (x - y)) by (nonlinear_arith)
        requires
            d <= 255,
            d == x - y || d == y - x,
    ;
    d * d
}

fn redmean_distance_exec(a: (u8, u8, u8), b: (u8, u8, u8)) -> (d: u64)
    ensures
        d == redmean_distance(a, b),
{
    let sum_r: u64 = a.0 as u64 + b.0 as u64;
    let dr2 = square_of_difference(a.0, b.0);
    let dg2 = square_of_difference(a.1, b.1);
    let db2 = square_of_difference(a.2, b.2);
    assert((1024 + sum_r) * dr2 <= 1534 * 65025) by (nonlinear_arith)
        requires
            sum_r <= 510,
            dr2 <= 65025,
    ;
    assert((1534 - sum_r) * db2 <= 1534 * 65025) by (nonlinear_arith)
        requires
            sum_r <= 510,
            db2 <= 65025,
    ;
    (1024 + sum_r) * dr2 + 2048 * dg2 + (1534 - sum_r) * db2
}

/// The palette code whose colour is nearest to `(r, g, b)` by the redmean
/// distance; among equally near entries, the lowest code.
pub fn find_nearest_launchpad_color(r: u8, g: u8, b: u8) -> (code: u8)
    ensures
        is_nearest_code((r, g, b), code as int),
{
    let c = (r, g, b);
    let mut best: usize = 0;
    let mut min_distance = redmean_distance_exec(c, LAUNCHPAD_PALETTE[0]);
    let mut i: usize = 1;
    while i < 128
        invariant
            1 <= i <= 128,
            best < i,
            min_distance == redmean_distance(c, LAUNCHPAD_PALETTE@[best as int]),
            forall|j: int|
                0 <= j < i ==> min_distance <= redmean_distance(c, #[trigger] LAUNCHPAD_PALETTE@[j]),
            forall|j: int|
                0 <= j < best ==> min_distance < redmean_distance(c, #[trigger] LAUNCHPAD_PALETTE@[j]),
        decreases 128 - i,
    {
        let distance = redmean_distance_exec(c, LAUNCHPAD_PALETTE[i]);
        if distance < min_distance {
            min_distance = distance;
            best = i;
        }
        i = i + 1;
    }
    best as u8
}

/// The redmean distance is never negative, and it is zero exactly between
/// equal colours.
pub proof fn lemma_redmean_distance_zero_iff_equal(a: (u8, u8, u8), b: (u8, u8, u8))
    ensures
        redmean_distance(a, b) >= 0,
        redmean_distance(a, b) == 0 <==> a == b,
{
    let sum_r: int = a.0 + b.0;
    let dr: int = a.0 - b.0;
    let dg: int = a.1 - b.1;
    let db: int = a.2 - b.2;
    assert(dr * dr >= 0 && dg * dg >= 0 && db * db >= 0) by (nonlinear_arith);
    assert((1024 + sum_r) * (dr * dr) >= 1024 * (dr * dr)) by (nonlinear_arith)
        requires
            sum_r >= 0,
            dr * dr >= 0,
    ;
    assert((1534 - sum_r) * (db * db) >= 1024 * (db * db)) by (nonlinear_arith)
        requires
            sum_r <= 510,
            db * db >= 0,
    ;
    assert(dr * dr == 0 ==> dr == 0) by (nonlinear_arith);
    assert(dg * dg == 0 ==> dg == 0) by (nonlinear_arith);
    assert(db * db == 0 ==> db == 0) by (nonlinear_arith);
    if a == b {
        assert(dr == 0 && dg == 0 && db == 0);
        assert((1024 + sum_r) * (dr * dr) == 0 && (1534 - sum_r) * (db * db) == 0 && 2048 * (dg
            * dg) == 0) by (nonlinear_arith)
            requires
                dr == 0,
                dg == 0,
                db == 0,
        ;
    }
    if redmean_distance(a, b) == 0 {
        assert(dr == 0 && dg == 0 && db == 0);
        assert(a.0 == b.0 && a.1 == b.1 && a.2 == b.2);
    }
}

/// The code chosen for a colour of the palette shows exactly that colour: a
/// palette colour is its own nearest colour.
pub proof fn lemma_palette_colour_is_kept(code: u8, nearest: int)
    requires
        code < 128,
        is_nearest_code(code_rgb(code), nearest),
    ensures
        LAUNCHPAD_PALETTE@[nearest] == code_rgb(code),
{
    let c = code_rgb(code);
    lemma_redmean_distance_zero_iff_equal(c, c);
    lemma_redmean_distance_zero_iff_equal(c, LAUNCHPAD_PALETTE@[nearest]);
    assert(redmean_distance(c, LAUNCHPAD_PALETTE@[nearest]) <= redmean_distance(
        c,
        LAUNCHPAD_PALETTE@[code as int],
    ));
}

/// Choosing the nearest code is idempotent: the code chosen for the colour of
/// a chosen code is that same code.
pub proof fn lemma_nearest_code_idempotent(c: (u8, u8, u8), first: int, second: int)
    requires
        is_nearest_code(c, first),
        is_nearest_code(LAUNCHPAD_PALETTE@[first], second),
    ensures
        second == first,
{
    let p = LAUNCHPAD_PALETTE@[first];
    let q = LAUNCHPAD_PALETTE@[second];
    lemma_redmean_distance_zero_iff_equal(p, p);
    lemma_redmean_distance_zero_iff_equal(p, q);
    assert(redmean_distance(p, q) <= redmean_distance(p, LAUNCHPAD_PALETTE@[first]));
    assert(q == p);
    if second < first {
        assert(redmean_distance(c, p) < redmean_distance(c, LAUNCHPAD_PALETTE@[second]));
    } else if second > first {
        assert(redmean_distance(p, q) < redmean_distance(p, LAUNCHPAD_PALETTE@[first]));
    }
}

} // verus!
