//! Integer cells of the plane and the distances between them.

use vstd::prelude::*;

verus! {

/// A cell of the unbounded integer grid.
#[derive(Clone, Copy, Debug, PartialEq, Eq, Hash, Structural)]
pub struct Pos {
    pub x: i64,
    pub y: i64,
}

impl Pos {
    pub fn new(x: i64, y: i64) -> (r: Pos)
        ensures
            r == (Pos { x, y }),
    {
        Pos { x, y }
    }
}

pub open spec fn abs(v: int) -> int {
    if v < 0 {
        -v
    } else {
        v
    }
}

/// The Manhattan distance of two cells, over mathematical integers.
pub open spec fn dist(a: Pos, b: Pos) -> int {
    abs(a.x - b.x) + abs(a.y - b.y)
}

/// Two cells that share an edge.
pub open spec fn orth_adjacent(a: Pos, b: Pos) -> bool {
    dist(a, b) == 1
}

/// The Manhattan distance of two cells; defined where it fits in an `i64`.
pub fn manhattan_dist(pos1: Pos, pos2: Pos) -> (r: i64)
    requires
        dist(pos1, pos2) <= i64::MAX,
    ensures
        r == dist(pos1, pos2),
{
    let dx: i128 = pos1.x as i128 - pos2.x as i128;
    let dy: i128 = pos1.y as i128 - pos2.y as i128;
    let ax: i128 = if dx < 0 { -dx } else { dx };
    let ay: i128 = if dy < 0 { -dy } else { dy };
    (ax + ay) as i64
}

/// Whether two cells share an edge, for any two cells.
pub fn unit_apart(a: Pos, b: Pos) -> (r: bool)
    ensures
        r == orth_adjacent(a, b),
{
    let dx: i128 = a.x as i128 - b.x as i128;
    let dy: i128 = a.y as i128 - b.y as i128;
    let ax: i128 = if dx < 0 { -dx } else { dx };
    let ay: i128 = if dy < 0 { -dy } else { dy };
    ax + ay == 1
}

/// The cell `(dx, dy)` away from `p`, where it can be represented.
pub open spec fn shifted(p: Pos, dx: int, dy: int) -> Option<Pos> {
    if i64::MIN <= p.x + dx <= i64::MAX && i64::MIN <= p.y + dy <= i64::MAX {
        Some(Pos { x: (p.x + dx) as i64, y: (p.y + dy) as i64 })
    } else {
        None
    }
}

/// The cell one step away along `(dx, dy)`, where it can be represented.
pub fn offset(p: Pos, dx: i64, dy: i64) -> (r: Option<Pos>)
    requires
        -1 <= dx <= 1,
        -1 <= dy <= 1,
    ensures
        r == shifted(p, dx as int, dy as int),
{
    let nx = p.x.checked_add(dx);
    let ny = p.y.checked_add(dy);
    match (nx, ny) {
        (Some(x), Some(y)) => Some(Pos { x, y }),
        _ => None,
    }
}

} // verus!
