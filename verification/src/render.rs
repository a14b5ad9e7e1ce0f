//! The scene as pixel rectangles: the four border bars, one filled
//! square per body cell with a thin connecting strip between adjacent
//! cells, and the food square. Drawing them is the caller's business;
//! computing them is pure arithmetic and is pinned down exactly.

use vstd::prelude::*;

use crate::grid::Bounds;
use crate::grid::Coord;
use crate::state::State;

verus! {

/// Side of one grid cell, in pixels.
pub const BLOCK_PX: i32 = 10;

/// Where the field's top-left corner lands on the screen.
pub const OFFSET_X_PX: i32 = 200;

/// Where the field's top-left corner lands on the screen.
pub const OFFSET_Y_PX: i32 = 200;

/// Coordinates this large never overflow the pixel arithmetic.
pub const COORD_LIMIT: i32 = 100000;

/// One axis-aligned rectangle, in pixels.
#[derive(Clone, Copy, PartialEq, Eq, Structural, Debug)]
pub struct RectPx {
    pub x: i32,
    pub y: i32,
    pub w: u32,
    pub h: u32,
}

/// Bounds small enough that every pixel coordinate of the scene fits
/// comfortably in 32 bits.
pub open spec fn bounds_on_screen(b: Bounds) -> bool {
    &&& -COORD_LIMIT <= b.left
    &&& b.right <= COORD_LIMIT
    &&& -COORD_LIMIT <= b.bottom
    &&& b.top <= COORD_LIMIT
}

/// A rectangle from exact integer pixel values.
pub open spec fn rect_at(x: int, y: int, w: int, h: int) -> RectPx {
    RectPx { x: x as i32, y: y as i32, w: w as u32, h: h as u32 }
}

/// The four bars framing the field: top, left, right, bottom.
pub open spec fn border_rects(b: Bounds) -> Seq<RectPx> {
    let blk = BLOCK_PX as int;
    let w_span = b.right as int - b.left as int;
    let h_span = b.top as int - b.bottom as int;
    seq![
        rect_at(OFFSET_X_PX as int, OFFSET_Y_PX as int, (w_span + 2) * blk, blk),
        rect_at(OFFSET_X_PX as int, OFFSET_Y_PX as int + blk, blk, h_span * blk),
        rect_at(OFFSET_X_PX as int + (w_span + 1) * blk, OFFSET_Y_PX as int + blk, blk, h_span * blk),
        rect_at(OFFSET_X_PX as int, OFFSET_Y_PX as int + (h_span + 1) * blk, (w_span + 2) * blk, blk),
    ]
}

/// The filled square of one cell, inset one pixel on every side.
pub open spec fn cell_rect(c: Coord) -> RectPx {
    let blk = BLOCK_PX as int;
    rect_at(
        OFFSET_X_PX as int + blk + c.x as int * blk + 1,
        OFFSET_Y_PX as int + blk + c.y as int * blk + 1,
        blk - 2,
        blk - 2,
    )
}

/// The thin strip joining a body cell to the one before it, when the
/// two lie side by side; a cell reached by a jump of more than one gets
/// no strip.
pub open spec fn joint_rects(prev: Coord, c: Coord) -> Seq<RectPx> {
    let blk = BLOCK_PX as int;
    let px = OFFSET_X_PX as int + blk + c.x as int * blk;
    let py = OFFSET_Y_PX as int + blk + c.y as int * blk;
    if prev.x as int + 1 == c.x as int {
        seq![rect_at(px - 1, py + 1, 2, blk - 2)]
    } else if prev.x as int - 1 == c.x as int {
        seq![rect_at(px + blk - 1, py + 1, 2, blk - 2)]
    } else if prev.y as int - 1 == c.y as int {
        seq![rect_at(px + 1, py + blk - 1, blk - 2, 2)]
    } else if prev.y as int + 1 == c.y as int {
        seq![rect_at(px + 1, py - 1, blk - 2, 2)]
    } else {
        Seq::empty()
    }
}

/// The rectangles of the whole body, head to tail: each cell's square,
/// followed by its strip back towards the head.
pub open spec fn body_rects(body: Seq<Coord>) -> Seq<RectPx>
    decreases body.len(),
{
    if body.len() == 0 {
        Seq::empty()
    } else if body.len() == 1 {
        seq![cell_rect(body[0])]
    } else {
        body_rects(body.drop_last()) + seq![cell_rect(body.last())] + joint_rects(
            body[body.len() - 2],
            body.last(),
        )
    }
}

/// Every rectangle of one frame, in drawing order: border, body, food.
pub open spec fn scene_rects(b: Bounds, body: Seq<Coord>, food: Coord) -> Seq<RectPx> {
    border_rects(b) + body_rects(body) + seq![cell_rect(food)]
}

impl State {
    /// Computes the frame's rectangles for the current state, exactly
    /// as `scene_rects` lays them out.
    pub fn render_rects(&self) -> (r: Vec<RectPx>)
        requires
            self.wf(),
            bounds_on_screen(self.bounds),
        ensures
            r@ == scene_rects(self.bounds, self.snake@, self.food),
    {
        let mut r: Vec<RectPx> = Vec::new();
        let b = self.bounds;
        let w_span: i32 = b.right - b.left;
        let h_span: i32 = b.top - b.bottom;
        r.push(
            RectPx {
                x: OFFSET_X_PX,
                y: OFFSET_Y_PX,
                w: ((w_span + 2) * BLOCK_PX) as u32,
                h: BLOCK_PX as u32,
            },
        );
        r.push(
            RectPx {
                x: OFFSET_X_PX,
                y: OFFSET_Y_PX + BLOCK_PX,
                w: BLOCK_PX as u32,
                h: (h_span * BLOCK_PX) as u32,
            },
        );
        r.push(
            RectPx {
                x: OFFSET_X_PX + (w_span + 1) * BLOCK_PX,
                y: OFFSET_Y_PX + BLOCK_PX,
                w: BLOCK_PX as u32,
                h: (h_span * BLOCK_PX) as u32,
            },
        );
        r.push(
            RectPx {
                x: OFFSET_X_PX,
                y: OFFSET_Y_PX + (h_span + 1) * BLOCK_PX,
                w: ((w_span + 2) * BLOCK_PX) as u32,
                h: BLOCK_PX as u32,
            },
        );
        proof {
            assert(r@ =~= border_rects(b));
        }
        let mut i: usize = 0;
        while i < self.snake.len()
            invariant
                self.wf(),
                bounds_on_screen(self.bounds),
                b == self.bounds,
                i <= self.snake@.len(),
                r@ == border_rects(b) + body_rects(self.snake@.take(i as int)),
            decreases self.snake@.len() - i,
        {
            let c = self.snake[i];
            r.push(Self::square_of(c));
            if i > 0 {
                let p = self.snake[i - 1];
                let px = OFFSET_X_PX + BLOCK_PX + c.x * BLOCK_PX;
                let py = OFFSET_Y_PX + BLOCK_PX + c.y * BLOCK_PX;
                if p.x + 1 == c.x {
                    r.push(RectPx { x: px - 1, y: py + 1, w: 2, h: (BLOCK_PX - 2) as u32 });
                } else if p.x - 1 == c.x {
                    r.push(
                        RectPx { x: px + BLOCK_PX - 1, y: py + 1, w: 2, h: (BLOCK_PX - 2) as u32 },
                    );
                } else if p.y - 1 == c.y {
                    r.push(
                        RectPx { x: px + 1, y: py + BLOCK_PX - 1, w: (BLOCK_PX - 2) as u32, h: 2 },
                    );
                } else if p.y + 1 == c.y {
                    r.push(RectPx { x: px + 1, y: py - 1, w: (BLOCK_PX - 2) as u32, h: 2 });
                }
                proof {
                    assert(r@ =~= border_rects(b) + body_rects(self.snake@.take(i as int)) + seq![
                        cell_rect(c),
                    ] + joint_rects(p, c));
                }
            }
            proof {
                let taken = self.snake@.take(i as int + 1);
                assert(taken.drop_last() =~= self.snake@.take(i as int));
                assert(taken.last() == c);
                if i > 0 {
                    assert(taken[taken.len() - 2] == self.snake@[i as int - 1]);
                }
                assert(r@ =~= border_rects(b) + body_rects(taken));
            }
            i += 1;
        }
        proof {
            assert(self.snake@.take(self.snake@.len() as int) =~= self.snake@);
        }
        r.push(Self::square_of(self.food));
        r
    }

    /// The filled square of one in-range cell.
    fn square_of(c: Coord) -> (r: RectPx)
        requires
            -COORD_LIMIT <= c.x <= COORD_LIMIT,
            -COORD_LIMIT <= c.y <= COORD_LIMIT,
        ensures
            r == cell_rect(c),
    {
        RectPx {
            x: OFFSET_X_PX + BLOCK_PX + c.x * BLOCK_PX + 1,
            y: OFFSET_Y_PX + BLOCK_PX + c.y * BLOCK_PX + 1,
            w: (BLOCK_PX - 2) as u32,
            h: (BLOCK_PX - 2) as u32,
        }
    }
}

} // verus!
