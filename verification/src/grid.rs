//! Grid coordinates, the playing-field bounds, headings, and the packing
//! of a coordinate into a single integer key for the occupancy index.

use vstd::prelude::*;

verus! {

/// Number of milli-cells per grid cell: the denominator of every
/// fixed-point quantity (speed, growth, leftover progress, body length).
pub const MILLIS_PER_CELL: u32 = 1000;

/// One cell of the grid.
#[derive(Clone, Copy, PartialEq, Eq, Structural, Debug, Hash)]
pub struct Coord {
    pub x: i32,
    pub y: i32,
}

/// The playing field. Cells with `left <= x < right` and
/// `bottom <= y < top` are playable; the border lines `x == right` and
/// `y == top` (and anything beyond the four lines) are not, so touching
/// them kills the snake.
#[derive(Clone, Copy, PartialEq, Eq, Structural, Debug)]
pub struct Bounds {
    pub top: i32,
    pub bottom: i32,
    pub left: i32,
    pub right: i32,
}

/// Current heading of the snake. `Up` increases the y coordinate and
/// `Down` decreases it; which way that points on a screen is the
/// renderer's business.
#[derive(Clone, Copy, PartialEq, Eq, Structural, Debug)]
pub enum Direction {
    Up,
    Down,
    Left,
    Right,
}

/// Whether the simulation is still running. `Dead` is terminal: no step
/// changes a dead state.
#[derive(Clone, Copy, PartialEq, Eq, Structural, Debug)]
pub enum Status {
    Alive,
    Dead,
}

impl Bounds {
    /// The bounds are usable when the playable region is non-empty.
    pub open spec fn wf(self) -> bool {
        &&& self.top > self.bottom
        &&& self.right > self.left
    }
}

/// A (possibly out-of-range) coordinate pair lies in the playable region.
pub open spec fn in_play_wide(b: Bounds, x: int, y: int) -> bool {
    &&& b.left <= x < b.right
    &&& b.bottom <= y < b.top
}

/// A cell lies in the playable region.
pub open spec fn in_play(b: Bounds, c: Coord) -> bool {
    in_play_wide(b, c.x as int, c.y as int)
}

/// The opposite heading; a snake may never turn straight into it.
pub open spec fn opposite(d: Direction) -> Direction {
    match d {
        Direction::Up => Direction::Down,
        Direction::Down => Direction::Up,
        Direction::Left => Direction::Right,
        Direction::Right => Direction::Left,
    }
}

/// A cell packed into a single integer: x in the high 32 bits, y in the
/// low 32 bits. Keys the occupancy index.
pub open spec fn cell_key(c: Coord) -> u64 {
    ((c.x as u32 as u64) << 32) | (c.y as u32 as u64)
}

/// Packing a cell into a key loses nothing: equal keys mean equal cells.
pub proof fn lemma_cell_key_injective(a: Coord, b: Coord)
    ensures
        cell_key(a) == cell_key(b) ==> a == b,
{
    let ax = a.x;
    let ay = a.y;
    let bx = b.x;
    let by = b.y;
    assert((((ax as u32 as u64) << 32) | (ay as u32 as u64)) == (((bx as u32 as u64) << 32) | (by
        as u32 as u64)) ==> ax == bx && ay == by) by (bit_vector);
}

/// Executable form of `cell_key`.
pub fn coord_key(c: Coord) -> (k: u64)
    ensures
        k == cell_key(c),
{
    ((c.x as u32 as u64) << 32) | (c.y as u32 as u64)
}

/// Executable form of `in_play`.
pub fn coord_in_play(b: &Bounds, c: Coord) -> (r: bool)
    ensures
        r == in_play(*b, c),
{
    b.left <= c.x && c.x < b.right && b.bottom <= c.y && c.y < b.top
}

} // verus!
