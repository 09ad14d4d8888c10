//! Integer geometry used to fill shapes column by column.
use vstd::prelude::*;
use crate::util::Position;

verus! {

/// `x / d` rounded toward zero, as integer division in Rust does.
pub open spec fn trunc_div(x: int, d: int) -> int {
    if x == 0 {
        0
    } else if x > 0 && d > 0 {
        x / d
    } else if x < 0 && d < 0 {
        (x * -1) / (d * -1)
    } else if x < 0 {
        ((x * -1) / d) * -1
    } else {
        (x / (d * -1)) * -1
    }
}

/// The height at `x` of the line through `p1` and `p2`, with a whole slope
/// rounded toward zero; the higher end when the line is vertical.
pub open spec fn spec_line(x: int, p1: Position, p2: Position) -> int {
    let dx = p2.x - p1.x;
    if dx == 0 {
        if p1.y >= p2.y { p1.y as int } else { p2.y as int }
    } else {
        trunc_div(p2.y - p1.y, dx) * (x - p1.x) + p1.y
    }
}

/// Every step of `spec_line(x, p1, p2)` fits in `i32`.
pub open spec fn line_fits(x: int, p1: Position, p2: Position) -> bool {
    let dx = p2.x - p1.x;
    &&& i32::MIN <= dx <= i32::MAX
    &&& dx != 0 ==> {
        let m = trunc_div(p2.y - p1.y, dx);
        &&& i32::MIN <= p2.y - p1.y <= i32::MAX
        &&& i32::MIN <= m <= i32::MAX
        &&& i32::MIN <= x - p1.x <= i32::MAX
        &&& i32::MIN <= m * (x - p1.x) <= i32::MAX
        &&& i32::MIN <= m * (x - p1.x) + p1.y <= i32::MAX
    }
}

/// The height at `x` of the line through `p1` and `p2`: the slope is the
/// whole quotient of the rise by the run, rounded toward zero; a vertical
/// line gives its higher end.
pub fn line(x: i32, p1: Position, p2: Position) -> (r: i32)
    requires
        line_fits(x as int, p1, p2),
    ensures
        r == spec_line(x as int, p1, p2),
{
    let dx: i32 = p2.x - p1.x;
    if dx == 0 {
        return if p1.y >= p2.y { p1.y } else { p2.y };
    }
    let dy: i32 = p2.y - p1.y;
    match dy.checked_div(dx) {
        Some(m) => m * (x - p1.x) + p1.y,
        None => 0,
    }
}

/// The three points in ascending order of `x`, keeping their order where
/// two have the same `x`.
pub open spec fn sort3(p: Position, q: Position, r: Position) -> (Position, Position, Position) {
    if p.x <= q.x {
        if q.x <= r.x {
            (p, q, r)
        } else if p.x <= r.x {
            (p, r, q)
        } else {
            (r, p, q)
        }
    } else {
        if p.x <= r.x {
            (q, p, r)
        } else if q.x <= r.x {
            (q, r, p)
        } else {
            (r, q, p)
        }
    }
}

/// Every line of the triangle fits in `i32` at every column it spans.
pub open spec fn triangle_fits(p1: Position, p2: Position, p3: Position) -> bool {
    let (a, b, c) = sort3(p1, p2, p3);
    forall|x: int| a.x <= x <= c.x ==> {
        &&& #[trigger] line_fits(x, a, b)
        &&& line_fits(x, b, c)
        &&& line_fits(x, a, c)
    }
}

/// The columns that fill a triangle: for each `x` from the leftmost to the
/// rightmost point, `x`, the height of the line from the leftmost to the
/// rightmost point, and the lower of the heights of the two other lines.
pub open spec fn spec_triangle_columns(p1: Position, p2: Position, p3: Position) -> Seq<(i32, i32, i32)> {
    let (a, b, c) = sort3(p1, p2, p3);
    Seq::new((c.x - a.x + 1) as nat, |i: int| {
        let x = a.x + i;
        let y_ab = spec_line(x, a, b);
        let y_bc = spec_line(x, b, c);
        (x as i32, spec_line(x, a, c) as i32, (if y_ab <= y_bc { y_ab } else { y_bc }) as i32)
    })
}

/// Sorts three points by `x`, keeping their order where two have the same `x`.
fn sort_points(p: Position, q: Position, r: Position) -> (s: (Position, Position, Position))
    ensures
        s == sort3(p, q, r),
{
    if p.x <= q.x {
        if q.x <= r.x {
            (p, q, r)
        } else if p.x <= r.x {
            (p, r, q)
        } else {
            (r, p, q)
        }
    } else {
        if p.x <= r.x {
            (q, p, r)
        } else if q.x <= r.x {
            (q, r, p)
        } else {
            (r, q, p)
        }
    }
}

/// The columns that fill the triangle `p1`, `p2`, `p3`, leftmost first:
/// each is `(x, top, bottom)`, drawn as a vertical line from `(x, top)` to
/// `(x, bottom)`.
pub fn triangle_columns(p1: Position, p2: Position, p3: Position) -> (r: Vec<(i32, i32, i32)>)
    requires
        triangle_fits(p1, p2, p3),
    ensures
        r@ == spec_triangle_columns(p1, p2, p3),
{
    let (a, b, c) = sort_points(p1, p2, p3);
    let ghost want = spec_triangle_columns(p1, p2, p3);
    let mut r: Vec<(i32, i32, i32)> = Vec::new();
    let mut xi: i64 = a.x as i64;
    while xi <= c.x as i64
        invariant
            (a, b, c) == sort3(p1, p2, p3),
            triangle_fits(p1, p2, p3),
            want == spec_triangle_columns(p1, p2, p3),
            a.x <= xi <= c.x + 1,
            r@.len() == xi - a.x,
            forall|i: int| 0 <= i < r@.len() ==> r@[i] == want[i],
        decreases c.x + 1 - xi,
    {
        let x: i32 = xi as i32;
        assert(line_fits(x as int, a, b));
        let y_ab = line(x, a, b);
        let y_bc = line(x, b, c);
        let y_ac = line(x, a, c);
        let low = if y_ab <= y_bc { y_ab } else { y_bc };
        r.push((x, y_ac, low));
        assert(r@[r@.len() - 1] == want[x - a.x]);
        xi = xi + 1;
    }
    assert(r@ =~= want);
    r
}

/// Returns `true` if every step of `spec_line(x, p1, p2)` fits in `i32`.
fn line_fits_check(x: i32, p1: Position, p2: Position) -> (r: bool)
    ensures
        r == line_fits(x as int, p1, p2),
{
    let dx: i64 = p2.x as i64 - p1.x as i64;
    if dx < i32::MIN as i64 || dx > i32::MAX as i64 {
        return false;
    }
    if dx == 0 {
        return true;
    }
    let dy: i64 = p2.y as i64 - p1.y as i64;
    if dy < i32::MIN as i64 || dy > i32::MAX as i64 {
        return false;
    }
    let m: i64 = match dy.checked_div(dx) {
        Some(m) => m,
        None => {
            return false;
        },
    };
    if m < i32::MIN as i64 || m > i32::MAX as i64 {
        return false;
    }
    let run: i64 = x as i64 - p1.x as i64;
    if run < i32::MIN as i64 || run > i32::MAX as i64 {
        return false;
    }
    let mm: i128 = m as i128;
    let rr: i128 = run as i128;
    assert(-0x8000_0000_0000_0000 <= mm * rr <= 0x8000_0000_0000_0000) by (nonlinear_arith)
        requires
            -0x8000_0000 <= mm <= 0x8000_0000,
            -0x8000_0000 <= rr <= 0x8000_0000;
    let prod: i128 = mm * rr;
    if prod < i32::MIN as i128 || prod > i32::MAX as i128 {
        return false;
    }
    let sum: i128 = prod + p1.y as i128;
    sum >= i32::MIN as i128 && sum <= i32::MAX as i128
}

/// The columns that fill the triangle, as `triangle_columns` gives them,
/// where every line fits in `i32` at every column it spans; `None` where one
/// does not.
pub fn try_triangle_columns(p1: Position, p2: Position, p3: Position) -> (r: Option<Vec<(i32, i32, i32)>>)
    ensures
        r is Some <==> triangle_fits(p1, p2, p3),
        r matches Some(v) ==> v@ == spec_triangle_columns(p1, p2, p3),
{
    let (a, b, c) = sort_points(p1, p2, p3);
    let mut xi: i64 = a.x as i64;
    while xi <= c.x as i64
        invariant
            (a, b, c) == sort3(p1, p2, p3),
            a.x <= xi <= c.x + 1,
            forall|x: int| a.x <= x < xi ==> {
                &&& #[trigger] line_fits(x, a, b)
                &&& line_fits(x, b, c)
                &&& line_fits(x, a, c)
            },
        decreases c.x + 1 - xi,
    {
        let x: i32 = xi as i32;
        if !(line_fits_check(x, a, b) && line_fits_check(x, b, c) && line_fits_check(x, a, c)) {
            assert(!triangle_fits(p1, p2, p3)) by {
                if triangle_fits(p1, p2, p3) {
                    assert(a.x <= x as int <= c.x);
                    let t = sort3(p1, p2, p3);
                    assert(t.0 == a && t.1 == b && t.2 == c);
                    assert(forall|y: int| t.0.x <= y <= t.2.x ==> {
                        &&& #[trigger] line_fits(y, t.0, t.1)
                        &&& line_fits(y, t.1, t.2)
                        &&& line_fits(y, t.0, t.2)
                    });
                    assert(line_fits(x as int, a, b) && line_fits(x as int, b, c) && line_fits(x as int, a, c));
                }
            }
            return None;
        }
        xi = xi + 1;
    }
    Some(triangle_columns(p1, p2, p3))
}

} // verus!
