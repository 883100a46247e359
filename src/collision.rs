//! The circle–rectangle contact test used between the ball and the blocks.

use vstd::prelude::*;

verus! {

/// `v` clamped into `[lo, hi]`, taking the upper bound first.
pub open spec fn clamp(v: int, lo: int, hi: int) -> int {
    let below = if v < hi { v } else { hi };
    if lo > below { lo } else { below }
}

/// Contact between the circle centred at `(cx, cy)` with radius `r` and the
/// rectangle with corners `(x1, y1)`, `(x2, y2)`: none when the point of the
/// rectangle nearest to the centre lies farther than `r`; otherwise whether
/// that point lies on a vertical face and whether it lies on a horizontal face.
pub open spec fn contact(cx: int, cy: int, r: int, x1: int, y1: int, x2: int, y2: int) -> Option<
    (bool, bool),
> {
    let nx = clamp(cx, x1, x2);
    let ny = clamp(cy, y1, y2);
    let dx = cx - nx;
    let dy = cy - ny;
    if dx * dx + dy * dy <= r * r {
        Some((nx == x1 || nx == x2, ny == y1 || ny == y2))
    } else {
        None
    }
}

/// Tests whether a circle touches a rectangle and, on contact, on which kind
/// of face: `(vertical, horizontal)`; both hold at a corner.
pub fn check_circle_rectangle_collision(
    circle_x: i16,
    circle_y: i16,
    radius: i16,
    rect_x1: i16,
    rect_y1: i16,
    rect_x2: i16,
    rect_y2: i16,
) -> (r: Option<(bool, bool)>)
    ensures
        r == contact(
            circle_x as int,
            circle_y as int,
            radius as int,
            rect_x1 as int,
            rect_y1 as int,
            rect_x2 as int,
            rect_y2 as int,
        ),
{
    let below_x = if circle_x < rect_x2 { circle_x } else { rect_x2 };
    let nearest_x = if rect_x1 > below_x { rect_x1 } else { below_x };
    let below_y = if circle_y < rect_y2 { circle_y } else { rect_y2 };
    let nearest_y = if rect_y1 > below_y { rect_y1 } else { below_y };

    let distance_x = circle_x as i64 - nearest_x as i64;
    let distance_y = circle_y as i64 - nearest_y as i64;
    assert(0 <= distance_x * distance_x <= 0x1_0000_0000) by (nonlinear_arith)
        requires
            -0x10000 <= distance_x <= 0x10000,
    ;
    assert(0 <= distance_y * distance_y <= 0x1_0000_0000) by (nonlinear_arith)
        requires
            -0x10000 <= distance_y <= 0x10000,
    ;
    let distance_squared = distance_x * distance_x + distance_y * distance_y;
    let wide_radius = radius as i64;
    assert(0 <= wide_radius * wide_radius <= 0x1_0000_0000) by (nonlinear_arith)
        requires
            -0x10000 <= wide_radius <= 0x10000,
    ;
    let radius_squared = wide_radius * wide_radius;

    if distance_squared <= radius_squared {
        let collision_x = nearest_x == rect_x1 || nearest_x == rect_x2;
        let collision_y = nearest_y == rect_y1 || nearest_y == rect_y2;
        Some((collision_x, collision_y))
    } else {
        None
    }
}

/// Moving the circle and the rectangle by the same offset changes nothing of
/// the contact test's outcome.
pub proof fn lemma_contact_translation(
    cx: int,
    cy: int,
    r: int,
    x1: int,
    y1: int,
    x2: int,
    y2: int,
    off_x: int,
    off_y: int,
)
    ensures
        contact(cx + off_x, cy + off_y, r, x1 + off_x, y1 + off_y, x2 + off_x, y2 + off_y)
            == contact(cx, cy, r, x1, y1, x2, y2),
{
    let nx = clamp(cx, x1, x2);
    let ny = clamp(cy, y1, y2);
    assert(clamp(cx + off_x, x1 + off_x, x2 + off_x) == nx + off_x);
    assert(clamp(cy + off_y, y1 + off_y, y2 + off_y) == ny + off_y);
}

/// Mirroring the circle and the rectangle across the vertical axis changes
/// nothing of the contact test's outcome, for a rectangle given with its
/// corners in order.
pub proof fn lemma_contact_mirror(cx: int, cy: int, r: int, x1: int, y1: int, x2: int, y2: int)
    requires
        x1 <= x2,
    ensures
        contact(-cx, cy, r, -x2, y1, -x1, y2) == contact(cx, cy, r, x1, y1, x2, y2),
{
    let nx = clamp(cx, x1, x2);
    assert(clamp(-cx, -x2, -x1) == -nx);
    assert((-cx - -nx) * (-cx - -nx) == (cx - nx) * (cx - nx)) by (nonlinear_arith);
}

} // verus!
