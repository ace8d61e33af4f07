use vstd::prelude::*;

verus! {

/// An axis-aligned rectangle given by its center `(x, y)` and its full
/// extents `(w, h)`, all in milli-units.
#[derive(Clone, Copy, Debug, PartialEq, Eq, Structural)]
pub struct Rect {
    pub x: i64,
    pub y: i64,
    pub w: i64,
    pub h: i64,
}

/// Which velocity component a bounce inverts.
#[derive(Clone, Copy, Debug, PartialEq, Eq, Structural)]
pub enum Axis {
    X,
    Y,
}

/// The side of the obstacle that a moving rectangle struck: `Top` and
/// `Bottom` resolve to a vertical (`Axis::Y`) bounce, `Left` and `Right`
/// to a horizontal one.
#[derive(Clone, Copy, Debug, PartialEq, Eq, Structural)]
pub enum HitSide {
    Top,
    Bottom,
    Left,
    Right,
}

/// Absolute value over the mathematical integers.
pub open spec fn abs_i(v: int) -> int {
    if v >= 0 {
        v
    } else {
        -v
    }
}

/// Left edge of the rectangle at doubled scale (`2 * x - w`), so that half
/// extents never have to be rounded.
pub open spec fn left2(r: Rect) -> int {
    2 * r.x - r.w
}

/// Right edge at doubled scale.
pub open spec fn right2(r: Rect) -> int {
    2 * r.x + r.w
}

/// Bottom edge at doubled scale.
pub open spec fn bottom2(r: Rect) -> int {
    2 * r.y - r.h
}

/// Top edge at doubled scale.
pub open spec fn top2(r: Rect) -> int {
    2 * r.y + r.h
}

/// True iff the rectangles intersect on both axes, bounds inclusive:
/// each right edge reaches the other's left edge, and each top edge
/// reaches the other's bottom edge.
pub open spec fn spec_overlaps(a: Rect, b: Rect) -> bool {
    &&& right2(a) >= left2(b)
    &&& right2(b) >= left2(a)
    &&& top2(a) >= bottom2(b)
    &&& top2(b) >= bottom2(a)
}

/// How deep the rectangles interpenetrate along x, at doubled scale: the
/// sum of their widths minus the doubled distance between their centers.
/// Non-negative whenever the rectangles overlap.
pub open spec fn pen_x2(m: Rect, o: Rect) -> int {
    m.w + o.w - abs_i(2 * (m.x - o.x))
}

/// How deep the rectangles interpenetrate along y, at doubled scale.
pub open spec fn pen_y2(m: Rect, o: Rect) -> int {
    m.h + o.h - abs_i(2 * (m.y - o.y))
}

/// The four-way hit-side classifier: the axis with the smaller penetration
/// is the minimum-translation axis and names the struck side.  Ties go to
/// the vertical sides.  Within an axis, the side faces the moving center
/// (`Top` when the mover sits at or above the obstacle's center).
pub open spec fn spec_hit_side(m: Rect, o: Rect) -> HitSide {
    if pen_y2(m, o) <= pen_x2(m, o) {
        if m.y >= o.y {
            HitSide::Top
        } else {
            HitSide::Bottom
        }
    } else {
        if m.x >= o.x {
            HitSide::Right
        } else {
            HitSide::Left
        }
    }
}

/// Which velocity component the bounce inverts: `Top`/`Bottom` hits flip
/// the y component, `Left`/`Right` hits flip the x component.
pub open spec fn spec_resolve_axis(m: Rect, o: Rect) -> Axis {
    match spec_hit_side(m, o) {
        HitSide::Top | HitSide::Bottom => Axis::Y,
        HitSide::Left | HitSide::Right => Axis::X,
    }
}

/// Inclusive axis-aligned intersection test between two rectangles.
pub fn overlaps(a: &Rect, b: &Rect) -> (r: bool)
    ensures
        r == spec_overlaps(*a, *b),
{
    let a_left: i128 = 2 * (a.x as i128) - (a.w as i128);
    let a_right: i128 = 2 * (a.x as i128) + (a.w as i128);
    let a_bottom: i128 = 2 * (a.y as i128) - (a.h as i128);
    let a_top: i128 = 2 * (a.y as i128) + (a.h as i128);
    let b_left: i128 = 2 * (b.x as i128) - (b.w as i128);
    let b_right: i128 = 2 * (b.x as i128) + (b.w as i128);
    let b_bottom: i128 = 2 * (b.y as i128) - (b.h as i128);
    let b_top: i128 = 2 * (b.y as i128) + (b.h as i128);
    a_right >= b_left && b_right >= a_left && a_top >= b_bottom && b_top >= a_bottom
}

/// Classifies which side of `obstacle` the rectangle `moving` struck,
/// assuming the caller has already confirmed an overlap.
pub fn hit_side(moving: &Rect, obstacle: &Rect) -> (s: HitSide)
    ensures
        s == spec_hit_side(*moving, *obstacle),
{
    let dx2: i128 = 2 * ((moving.x as i128) - (obstacle.x as i128));
    let dy2: i128 = 2 * ((moving.y as i128) - (obstacle.y as i128));
    let adx2: i128 = if dx2 >= 0 {
        dx2
    } else {
        -dx2
    };
    let ady2: i128 = if dy2 >= 0 {
        dy2
    } else {
        -dy2
    };
    let pen_x: i128 = (moving.w as i128) + (obstacle.w as i128) - adx2;
    let pen_y: i128 = (moving.h as i128) + (obstacle.h as i128) - ady2;
    if pen_y <= pen_x {
        if moving.y >= obstacle.y {
            HitSide::Top
        } else {
            HitSide::Bottom
        }
    } else {
        if moving.x >= obstacle.x {
            HitSide::Right
        } else {
            HitSide::Left
        }
    }
}

/// Decides whether a confirmed overlap bounces the mover horizontally or
/// vertically, by the hit-side classifier.
pub fn resolve_direction(moving: &Rect, obstacle: &Rect) -> (a: Axis)
    ensures
        a == spec_resolve_axis(*moving, *obstacle),
{
    match hit_side(moving, obstacle) {
        HitSide::Top | HitSide::Bottom => Axis::Y,
        HitSide::Left | HitSide::Right => Axis::X,
    }
}

} // verus!
