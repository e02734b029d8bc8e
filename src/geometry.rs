use vstd::prelude::*;

verus! {

/// A position on the board, in whole world units.
#[derive(Clone, Copy, Debug, PartialEq, Eq, Structural)]
pub struct Point {
    pub x: i32,
    pub y: i32,
}

/// The square of the distance between two points.
pub open spec fn dist_sq(a: Point, b: Point) -> int {
    let dx = b.x - a.x;
    let dy = b.y - a.y;
    dx * dx + dy * dy
}

/// Two discs touch or overlap: the distance of their centres is at most the
/// sum of their radii. Each disc is given by its diameter, so that the
/// comparison stays in integers: `|c1 c2| <= d1/2 + d2/2` exactly when
/// `4 |c1 c2|^2 <= (d1 + d2)^2`.
pub open spec fn circles_touch(c1: Point, d1: nat, c2: Point, d2: nat) -> bool {
    4 * dist_sq(c1, c2) <= (d1 + d2) * (d1 + d2)
}

/// Whether the disc of diameter `d1` around `c1` touches the disc of
/// diameter `d2` around `c2`; touching at one point counts.
pub fn check_collision_circles(c1: Point, d1: u32, c2: Point, d2: u32) -> (r: bool)
    ensures
        r == circles_touch(c1, d1 as nat, c2, d2 as nat),
{
    let dx: i128 = c2.x as i128 - c1.x as i128;
    let dy: i128 = c2.y as i128 - c1.y as i128;
    assert(dx * dx <= 0x1_0000_0000_0000_0000) by (nonlinear_arith)
        requires
            -0x1_0000_0000 <= dx <= 0x1_0000_0000,
    ;
    assert(dy * dy <= 0x1_0000_0000_0000_0000) by (nonlinear_arith)
        requires
            -0x1_0000_0000 <= dy <= 0x1_0000_0000,
    ;
    assert(0 <= dx * dx && 0 <= dy * dy) by (nonlinear_arith);
    let sum: i128 = d1 as i128 + d2 as i128;
    assert(sum * sum <= 0x4_0000_0000_0000_0000) by (nonlinear_arith)
        requires
            0 <= sum <= 0x2_0000_0000,
    ;
    4 * (dx * dx + dy * dy) <= sum * sum
}

} // verus!
