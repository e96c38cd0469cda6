use vstd::prelude::*;

verus! {

/// The red, green and blue components of one entry of the 16-color
/// terminal palette (the standard VGA values), by ANSI color index.
pub open spec fn palette_spec(i: int) -> (int, int, int) {
    if i == 0 {
        (0, 0, 0)
    } else if i == 1 {
        (170, 0, 0)
    } else if i == 2 {
        (0, 170, 0)
    } else if i == 3 {
        (170, 85, 0)
    } else if i == 4 {
        (0, 0, 170)
    } else if i == 5 {
        (170, 0, 170)
    } else if i == 6 {
        (0, 170, 170)
    } else if i == 7 {
        (170, 170, 170)
    } else if i == 8 {
        (85, 85, 85)
    } else if i == 9 {
        (255, 85, 85)
    } else if i == 10 {
        (85, 255, 85)
    } else if i == 11 {
        (255, 255, 85)
    } else if i == 12 {
        (85, 85, 255)
    } else if i == 13 {
        (255, 85, 255)
    } else if i == 14 {
        (85, 255, 255)
    } else {
        (255, 255, 255)
    }
}

pub open spec fn abs_diff(a: int, b: int) -> int {
    if a >= b {
        a - b
    } else {
        b - a
    }
}

/// Distance between an RGB color and palette entry `i`: the sum of the
/// absolute per-channel differences.
pub open spec fn color_dist(r: int, g: int, b: int, i: int) -> int {
    let p = palette_spec(i);
    abs_diff(r, p.0) + abs_diff(g, p.1) + abs_diff(b, p.2)
}

/// Palette entry `i` as executable values.
fn palette(i: u8) -> (c: (u8, u8, u8))
    requires
        i < 16,
    ensures
        (c.0 as int, c.1 as int, c.2 as int) == palette_spec(i as int),
{
    if i == 0 {
        (0, 0, 0)
    } else if i == 1 {
        (170, 0, 0)
    } else if i == 2 {
        (0, 170, 0)
    } else if i == 3 {
        (170, 85, 0)
    } else if i == 4 {
        (0, 0, 170)
    } else if i == 5 {
        (170, 0, 170)
    } else if i == 6 {
        (0, 170, 170)
    } else if i == 7 {
        (170, 170, 170)
    } else if i == 8 {
        (85, 85, 85)
    } else if i == 9 {
        (255, 85, 85)
    } else if i == 10 {
        (85, 255, 85)
    } else if i == 11 {
        (255, 255, 85)
    } else if i == 12 {
        (85, 85, 255)
    } else if i == 13 {
        (255, 85, 255)
    } else if i == 14 {
        (85, 255, 255)
    } else {
        (255, 255, 255)
    }
}

fn diff_u8(a: u8, b: u8) -> (d: u32)
    ensures
        d as int == abs_diff(a as int, b as int),
{
    if a >= b {
        (a - b) as u32
    } else {
        (b - a) as u32
    }
}

/// The distance between (r, g, b) and palette entry `i`.
fn dist(r: u8, g: u8, b: u8, i: u8) -> (d: u32)
    requires
        i < 16,
    ensures
        d as int == color_dist(r as int, g as int, b as int, i as int),
{
    let p = palette(i);
    diff_u8(r, p.0) + diff_u8(g, p.1) + diff_u8(b, p.2)
}

/// Quantizes an RGB color to the nearest entry of the 16-color terminal
/// palette; among equally near entries the one with the lowest ANSI index
/// is chosen.
pub fn nearest_color(r: u8, g: u8, b: u8) -> (c: u8)
    ensures
        c < 16,
        forall|j: int|
            0 <= j < 16 ==> color_dist(r as int, g as int, b as int, c as int) <= color_dist(
                r as int,
                g as int,
                b as int,
                j,
            ),
        forall|j: int|
            0 <= j < c ==> color_dist(r as int, g as int, b as int, j) > color_dist(
                r as int,
                g as int,
                b as int,
                c as int,
            ),
{
    let mut best: u8 = 0;
    let mut best_d: u32 = dist(r, g, b, 0);
    let mut i: u8 = 1;
    while i < 16
        invariant
            1 <= i <= 16,
            best < i,
            best_d as int == color_dist(r as int, g as int, b as int, best as int),
            forall|j: int| 0 <= j < i ==> best_d as int <= color_dist(r as int, g as int, b as int, j),
            forall|j: int|
                0 <= j < best ==> color_dist(r as int, g as int, b as int, j) > best_d as int,
        decreases 16 - i,
    {
        let d = dist(r, g, b, i);
        if d < best_d {
            best = i;
            best_d = d;
        }
        i = i + 1;
    }
    best
}

} // verus!
