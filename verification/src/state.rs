//! The simulation state and the one-tick transition.

use vstd::prelude::*;
use std::collections::HashSet;
use std::collections::VecDeque;

use crate::grid::Bounds;
use crate::grid::Coord;
use crate::grid::Direction;
use crate::grid::Status;
use crate::grid::MILLIS_PER_CELL;
use crate::grid::cell_key;
use crate::grid::coord_key;
use crate::grid::in_play;
use crate::grid::in_play_wide;
use crate::grid::lemma_cell_key_injective;
use crate::grid::opposite;
use crate::rng::random_cell;

verus! {

broadcast use vstd::std_specs::hash::group_hash_axioms;

/// The whole state of one running simulation.
pub struct State {
    /// Whether the snake is still alive. Terminal once `Dead`.
    pub status: Status,
    /// The playing field; fixed for the lifetime of the simulation.
    pub bounds: Bounds,
    /// Where the current food pellet lies.
    pub food: Coord,
    /// Growth per food pellet eaten, in milli-cells.
    pub nutrition: u32,
    /// Distance covered per tick, in milli-cells.
    pub speed: u32,
    /// Leftover distance not yet turned into a whole cell of movement,
    /// in milli-cells; below one cell after every tick.
    pub progress: u32,
    /// Target body length, in milli-cells.
    pub length: u64,
    /// Current heading.
    pub direction: Direction,
    /// The body, head first, tail last.
    pub snake: VecDeque<Coord>,
    /// Derived index: the key of every cell the body covers.
    pub occupied: HashSet<u64>,
}

/// The occupancy index holds exactly the keys of the body's cells.
pub open spec fn index_matches_body(occupied: Set<u64>, body: Seq<Coord>) -> bool {
    forall|c: Coord| #[trigger] occupied.contains(cell_key(c)) <==> body.contains(c)
}

/// No cell appears twice in the body.
pub open spec fn body_distinct(body: Seq<Coord>) -> bool {
    forall|i: int, j: int| 0 <= i < j < body.len() ==> body[i] != body[j]
}

/// Every cell of the body lies in the playable region.
pub open spec fn body_in_play(b: Bounds, body: Seq<Coord>) -> bool {
    forall|i: int| 0 <= i < body.len() ==> in_play(b, #[trigger] body[i])
}

/// Whole cells of movement owed once `speed` has been added to the
/// leftover progress.
pub open spec fn step_delta(pre: State) -> int {
    (pre.progress + pre.speed) as int / MILLIS_PER_CELL as int
}

/// Leftover progress carried to the next tick.
pub open spec fn next_progress(pre: State) -> int {
    (pre.progress + pre.speed) as int % MILLIS_PER_CELL as int
}

/// Where the head is asked to move this tick, as unbounded integers so
/// that leaving the 32-bit range is just another way of being out of
/// play.
pub open spec fn target_of(pre: State) -> (int, int) {
    let h = pre.snake@[0];
    let d = step_delta(pre);
    match pre.direction {
        Direction::Up => (h.x as int, h.y as int + d),
        Direction::Down => (h.x as int, h.y as int - d),
        Direction::Left => (h.x as int - d, h.y as int),
        Direction::Right => (h.x as int + d, h.y as int),
    }
}

/// How many cells of the grown body survive the trim: all of them while
/// the target length allows it, else one cell per whole milli-cell
/// thousand of target length.
pub open spec fn kept_cells(grown_len: int, length: int) -> int {
    let floor = length / MILLIS_PER_CELL as int;
    if grown_len <= floor {
        grown_len
    } else {
        floor
    }
}

impl State {
    /// Everything the simulation keeps true between ticks.
    pub open spec fn wf(self) -> bool {
        &&& self.bounds.wf()
        &&& self.snake@.len() >= 1
        &&& body_in_play(self.bounds, self.snake@)
        &&& body_distinct(self.snake@)
        &&& index_matches_body(self.occupied@, self.snake@)
        &&& self.progress < MILLIS_PER_CELL
        &&& self.length >= MILLIS_PER_CELL
        &&& (self.snake@.len() - 1) * (MILLIS_PER_CELL as int) < self.length
        &&& self.speed <= u32::MAX - MILLIS_PER_CELL
        &&& in_play(self.bounds, self.food)
        &&& (self.status is Alive ==> !self.snake@.contains(self.food))
    }
}

/// Fields a tick never touches.
pub open spec fn fields_fixed(pre: State, post: State) -> bool {
    &&& post.bounds == pre.bounds
    &&& post.speed == pre.speed
    &&& post.nutrition == pre.nutrition
    &&& post.direction == pre.direction
}

/// The body, the index, the food and the target length all kept as they
/// were.
pub open spec fn board_unchanged(pre: State, post: State) -> bool {
    &&& post.snake == pre.snake
    &&& post.occupied == pre.occupied
    &&& post.food == pre.food
    &&& post.length == pre.length
}

/// What one tick does: the full relation between the state before and
/// after `step_forward`. Where the new food pellet lands is the one
/// thing left open, because it is drawn at random; everything else is
/// pinned exactly.
pub open spec fn step_spec(pre: State, post: State) -> bool {
    if pre.status is Dead {
        // A dead state is frozen.
        post == pre
    } else if step_delta(pre) == 0 {
        // Not enough accumulated progress for a whole cell: only the
        // progress accumulator advances.
        &&& fields_fixed(pre, post)
        &&& board_unchanged(pre, post)
        &&& post.status is Alive
        &&& post.progress == pre.progress + pre.speed
    } else {
        let (tx, ty) = target_of(pre);
        let new_head = Coord { x: tx as i32, y: ty as i32 };
        &&& fields_fixed(pre, post)
        &&& post.progress == next_progress(pre)
        &&& if !in_play_wide(pre.bounds, tx, ty) || pre.snake@.contains(new_head) {
            // The move leaves the field or bites the body: death, with
            // the board exactly as it was.
            &&& post.status is Dead
            &&& board_unchanged(pre, post)
        } else {
            let ate = new_head == pre.food;
            let new_length = if ate {
                pre.length as int + pre.nutrition as int
            } else {
                pre.length as int
            };
            let grown = seq![new_head] + pre.snake@;
            &&& post.length == new_length
            &&& post.snake@ == grown.take(kept_cells(grown.len() as int, new_length))
            &&& index_matches_body(post.occupied@, post.snake@)
            &&& if !ate {
                &&& post.status is Alive
                &&& post.food == pre.food
            } else if exists|c: Coord| in_play(pre.bounds, c) && !grown.contains(c) {
                // The pellet was eaten and a free cell exists: the new
                // pellet lies on some free cell.
                &&& post.status is Alive
                &&& in_play(pre.bounds, post.food)
                &&& !grown.contains(post.food)
            } else {
                // The pellet was eaten but the body covers the whole
                // field: no cell can hold food, so the game ends.
                &&& post.status is Dead
                &&& post.food == pre.food
            }
        }
    }
}

impl State {
    /// Builds a fresh, living simulation from a non-empty body. The
    /// target length starts as the body's whole-cell count and the
    /// progress accumulator at zero.
    pub fn new(
        bounds: Bounds,
        body: Vec<Coord>,
        food: Coord,
        direction: Direction,
        speed: u32,
        nutrition: u32,
    ) -> (s: State)
        requires
            bounds.wf(),
            body@.len() >= 1,
            body@.len() as int * MILLIS_PER_CELL as int <= u64::MAX as int,
            body_in_play(bounds, body@),
            body_distinct(body@),
            in_play(bounds, food),
            !body@.contains(food),
            speed <= u32::MAX - MILLIS_PER_CELL,
        ensures
            s.wf(),
            s.status is Alive,
            s.bounds == bounds,
            s.food == food,
            s.direction == direction,
            s.speed == speed,
            s.nutrition == nutrition,
            s.progress == 0,
            s.length == body@.len() as int * MILLIS_PER_CELL as int,
            s.snake@ == body@,
    {
        let mut snake: VecDeque<Coord> = VecDeque::new();
        let mut occupied: HashSet<u64> = HashSet::new();
        let mut i: usize = 0;
        while i < body.len()
            invariant
                i <= body@.len(),
                snake@ == body@.take(i as int),
                index_matches_body(occupied@, snake@),
            decreases body@.len() - i,
        {
            let c = body[i];
            snake.push_back(c);
            occupied.insert(coord_key(c));
            proof {
                assert(body@.take(i + 1) =~= body@.take(i as int).push(c));
                assert forall|d: Coord| #[trigger] occupied@.contains(cell_key(d)) <==> snake@.contains(
                    d,
                ) by {
                    lemma_cell_key_injective(d, c);
                    if d == c {
                        assert(snake@[snake@.len() - 1] == c);
                        assert(snake@.contains(d));
                    } else {
                        assert(snake@.contains(d) <==> body@.take(i as int).contains(d)) by {
                            if body@.take(i as int).contains(d) {
                                let j = choose|j: int|
                                    0 <= j < i && body@.take(i as int)[j] == d;
                                assert(snake@[j] == d);
                            }
                            if snake@.contains(d) {
                                let j = choose|j: int| 0 <= j < snake@.len() && snake@[j] == d;
                                if j < i {
                                    assert(body@.take(i as int)[j] == d);
                                }
                            }
                        }
                    }
                }
            }
            i += 1;
        }
        proof {
            assert(body@.take(body@.len() as int) =~= body@);
        }
        let length: u64 = (snake.len() as u64) * (MILLIS_PER_CELL as u64);
        State {
            status: Status::Alive,
            bounds,
            food,
            nutrition,
            speed,
            progress: 0,
            length,
            direction,
            snake,
            occupied,
        }
    }

    /// Picks a playable cell whose key is not in `occupied`: first by a
    /// few random draws, then, should all of those land on the body, by
    /// scanning the whole field. Returns `None` exactly when every
    /// playable cell is occupied.
    fn place_food(bounds: &Bounds, occupied: &HashSet<u64>) -> (r: Option<Coord>)
        requires
            bounds.wf(),
        ensures
            match r {
                Some(c) => in_play(*bounds, c) && !occupied@.contains(cell_key(c)),
                None => forall|c: Coord|
                    in_play(*bounds, c) ==> #[trigger] occupied@.contains(cell_key(c)),
            },
    {
        let mut tries: u32 = 0;
        while tries < 32
            invariant
                bounds.wf(),
            decreases 32 - tries,
        {
            let c = random_cell(bounds.left, bounds.right, bounds.bottom, bounds.top);
            if !occupied.contains(&coord_key(c)) {
                return Some(c);
            }
            tries = tries + 1;
        }
        // Every draw landed on the body: fall back to a sweep over the
        // whole field, so that placement cannot loop forever.
        let mut x = bounds.left;
        while x < bounds.right
            invariant
                bounds.wf(),
                bounds.left <= x <= bounds.right,
                forall|c: Coord|
                    in_play(*bounds, c) && c.x < x ==> #[trigger] occupied@.contains(cell_key(c)),
            decreases bounds.right as int - x as int,
        {
            let mut y = bounds.bottom;
            while y < bounds.top
                invariant
                    bounds.wf(),
                    bounds.left <= x < bounds.right,
                    bounds.bottom <= y <= bounds.top,
                    forall|c: Coord|
                        in_play(*bounds, c) && c.x < x ==> #[trigger] occupied@.contains(cell_key(c)),
                    forall|c: Coord|
                        c.x == x && bounds.bottom <= c.y < y ==> #[trigger] occupied@.contains(cell_key(c)),
                decreases bounds.top as int - y as int,
            {
                let c = Coord { x, y };
                if !occupied.contains(&coord_key(c)) {
                    return Some(c);
                }
                y = y + 1;
            }
            x = x + 1;
        }
        None
    }

    /// Pops tail cells, and drops their keys from the index, until the
    /// body's cell count no longer exceeds the whole-cell part of the
    /// target length. Only the body and the index change.
    fn trim_to_length(&mut self)
        requires
            old(self).snake@.len() >= 1,
            old(self).length >= MILLIS_PER_CELL,
            body_distinct(old(self).snake@),
            index_matches_body(old(self).occupied@, old(self).snake@),
        ensures
            final(self).snake@ == old(self).snake@.take(
                kept_cells(old(self).snake@.len() as int, old(self).length as int),
            ),
            body_distinct(final(self).snake@),
            index_matches_body(final(self).occupied@, final(self).snake@),
            final(self).status == old(self).status,
            final(self).bounds == old(self).bounds,
            final(self).food == old(self).food,
            final(self).nutrition == old(self).nutrition,
            final(self).speed == old(self).speed,
            final(self).progress == old(self).progress,
            final(self).length == old(self).length,
            final(self).direction == old(self).direction,
    {
        let ghost orig = old(self).snake@;
        let ghost floor = old(self).length as int / MILLIS_PER_CELL as int;
        proof {
            assert(orig.take(orig.len() as int) =~= orig);
        }
        while self.snake.len() as u64 > self.length / (MILLIS_PER_CELL as u64)
            invariant
                self.length == old(self).length,
                self.length >= MILLIS_PER_CELL,
                1 <= self.snake@.len() <= orig.len(),
                kept_cells(orig.len() as int, self.length as int) <= self.snake@.len(),
                self.snake@ == orig.take(self.snake@.len() as int),
                body_distinct(orig),
                index_matches_body(self.occupied@, self.snake@),
                self.status == old(self).status,
                self.bounds == old(self).bounds,
                self.food == old(self).food,
                self.nutrition == old(self).nutrition,
                self.speed == old(self).speed,
                self.progress == old(self).progress,
                self.direction == old(self).direction,
            decreases self.snake@.len(),
        {
            let ghost pre_body = self.snake@;
            let tail = self.snake.pop_back().unwrap();
            self.occupied.remove(&coord_key(tail));
            proof {
                let n = pre_body.len() as int;
                assert(self.snake@ =~= orig.take(n - 1));
                // The popped tail sat nowhere else in the body, so after
                // dropping its key the index matches the shorter body.
                assert forall|d: Coord| #[trigger] self.occupied@.contains(cell_key(d))
                    <==> self.snake@.contains(d) by {
                    lemma_cell_key_injective(d, tail);
                    if d == tail {
                        if self.snake@.contains(d) {
                            let j = choose|j: int| 0 <= j < n - 1 && self.snake@[j] == d;
                            assert(pre_body[j] == d && pre_body[n - 1] == d);
                        }
                    } else {
                        if self.snake@.contains(d) {
                            let j = choose|j: int| 0 <= j < n - 1 && self.snake@[j] == d;
                            assert(pre_body[j] == d);
                            assert(pre_body.contains(d));
                        }
                        if pre_body.contains(d) {
                            let j = choose|j: int| 0 <= j < n && pre_body[j] == d;
                            assert(j != n - 1);
                            assert(self.snake@[j] == d);
                        }
                    }
                }
            }
        }
        proof {
            let n = self.snake@.len() as int;
            assert(n <= floor);
            assert(kept_cells(orig.len() as int, self.length as int) == n);
        }
    }

    /// Advances the simulation by exactly one tick, as `step_spec`
    /// relates the state before the call to the state after it: a dead
    /// snake stays frozen; otherwise the head moves by however many
    /// whole cells of progress the speed has accumulated, the snake dies
    /// on leaving the field or landing on its own body, grows when it
    /// lands on the food, and its tail is trimmed back to the target
    /// length.
    pub fn step_forward(&mut self)
        requires
            old(self).wf(),
            old(self).length as int + old(self).nutrition as int <= u64::MAX as int,
        ensures
            final(self).wf(),
            step_spec(*old(self), *final(self)),
    {
        let ghost pre = *old(self);
        if self.status == Status::Dead {
            return;
        }
        let sum: u32 = self.progress + self.speed;
        let delta: u32 = sum / MILLIS_PER_CELL;
        if delta == 0 {
            self.progress = sum;
            return;
        }
        self.progress = sum % MILLIS_PER_CELL;
        let h: Coord = self.snake[0];
        let tx: i64;
        let ty: i64;
        match self.direction {
            Direction::Up => {
                tx = h.x as i64;
                ty = h.y as i64 + delta as i64;
            },
            Direction::Down => {
                tx = h.x as i64;
                ty = h.y as i64 - delta as i64;
            },
            Direction::Left => {
                tx = h.x as i64 - delta as i64;
                ty = h.y as i64;
            },
            Direction::Right => {
                tx = h.x as i64 + delta as i64;
                ty = h.y as i64;
            },
        }
        proof {
            assert((tx as int, ty as int) == target_of(pre));
        }
        let in_field = (self.bounds.left as i64) <= tx && tx < (self.bounds.right as i64) && (
        self.bounds.bottom as i64) <= ty && ty < (self.bounds.top as i64);
        if !in_field {
            self.status = Status::Dead;
            return;
        }
        let new_head = Coord { x: tx as i32, y: ty as i32 };
        if self.occupied.contains(&coord_key(new_head)) {
            proof {
                assert(pre.snake@.contains(new_head));
            }
            self.status = Status::Dead;
            return;
        }
        let ghost grown = seq![new_head] + pre.snake@;
        self.snake.push_front(new_head);
        self.occupied.insert(coord_key(new_head));
        proof {
            assert(self.snake@ =~= grown);
            assert(!pre.snake@.contains(new_head));
            assert forall|d: Coord| #[trigger] self.occupied@.contains(cell_key(d))
                <==> self.snake@.contains(d) by {
                lemma_cell_key_injective(d, new_head);
                if d == new_head {
                    assert(self.snake@[0] == d);
                } else {
                    if pre.snake@.contains(d) {
                        let j = choose|j: int| 0 <= j < pre.snake@.len() && pre.snake@[j] == d;
                        assert(self.snake@[j + 1] == d);
                    }
                    if self.snake@.contains(d) {
                        let j = choose|j: int| 0 <= j < self.snake@.len() && self.snake@[j] == d;
                        assert(j != 0);
                        assert(pre.snake@[j - 1] == d);
                        assert(pre.snake@.contains(d));
                    }
                }
            }
            assert(body_distinct(self.snake@)) by {
                assert forall|i: int, j: int|
                    0 <= i < j < self.snake@.len() implies self.snake@[i] != self.snake@[j] by {
                    if i == 0 {
                        if self.snake@[j] == new_head {
                            assert(pre.snake@[j - 1] == new_head);
                            assert(pre.snake@.contains(new_head));
                        }
                    } else {
                        assert(pre.snake@[i - 1] != pre.snake@[j - 1]);
                    }
                }
            }
            assert(body_in_play(self.bounds, self.snake@)) by {
                assert forall|i: int|
                    0 <= i < self.snake@.len() implies in_play(
                    self.bounds,
                    #[trigger] self.snake@[i],
                ) by {
                    if i > 0 {
                        assert(self.snake@[i] == pre.snake@[i - 1]);
                        assert(in_play(pre.bounds, pre.snake@[i - 1]));
                    }
                }
            }
        }
        let ate = new_head == self.food;
        if ate {
            self.length = self.length + (self.nutrition as u64);
            match State::place_food(&self.bounds, &self.occupied) {
                Some(c) => {
                    proof {
                        assert(self.occupied@.contains(cell_key(c)) <==> self.snake@.contains(c));
                        assert(!grown.contains(c));
                    }
                    self.food = c;
                },
                None => {
                    proof {
                        assert forall|d: Coord| in_play(pre.bounds, d) implies grown.contains(
                            d,
                        ) by {
                            assert(self.occupied@.contains(cell_key(d)));
                        }
                    }
                    self.status = Status::Dead;
                },
            }
        }
        let ghost mid = *self;
        self.trim_to_length();
        proof {
            let kept = kept_cells(grown.len() as int, mid.length as int);
            assert(self.snake@ == grown.take(kept));
            // The surviving body is a prefix of the grown body, so its
            // cells keep every per-cell property the grown body had.
            assert(1 <= kept <= grown.len()) by {
                assert(mid.length as int / MILLIS_PER_CELL as int >= 1);
            }
            assert forall|d: Coord| self.snake@.contains(d) implies grown.contains(d) by {
                let j = choose|j: int| 0 <= j < self.snake@.len() && self.snake@[j] == d;
                assert(grown[j] == d);
            }
            assert(body_in_play(self.bounds, self.snake@)) by {
                assert forall|i: int|
                    0 <= i < self.snake@.len() implies in_play(
                    self.bounds,
                    #[trigger] self.snake@[i],
                ) by {
                    assert(self.snake@[i] == grown[i]);
                    assert(in_play(mid.bounds, grown[i]));
                }
            }
            assert((self.snake@.len() - 1) * (MILLIS_PER_CELL as int) < self.length) by {
                let m = MILLIS_PER_CELL as int;
                let floor = mid.length as int / m;
                assert(floor * m <= mid.length as int) by (nonlinear_arith)
                    requires
                        floor == mid.length as int / m,
                        m > 0,
                        mid.length as int >= 0,
                ;
                assert(kept <= floor);
                assert((kept - 1) * m < floor * m) by (nonlinear_arith)
                    requires
                        kept <= floor,
                        m > 0,
                ;
            }
            // The state now matches the commit branch of `step_spec`.
            let (tgx, tgy) = target_of(pre);
            assert(new_head == Coord { x: tgx as i32, y: tgy as i32 });
            assert(in_play_wide(pre.bounds, tgx, tgy));
            assert(!pre.snake@.contains(new_head));
            assert(step_spec(pre, *self));
        }
    }

    /// Points the snake at `dir`, unless `dir` is the exact opposite of
    /// the current heading: a reversal straight into the neck is
    /// rejected and the heading stays as it was. Nothing else changes.
    pub fn turn(&mut self, dir: Direction)
        ensures
            final(self).direction == if dir == opposite(old(self).direction) {
                old(self).direction
            } else {
                dir
            },
            final(self).status == old(self).status,
            final(self).bounds == old(self).bounds,
            final(self).food == old(self).food,
            final(self).nutrition == old(self).nutrition,
            final(self).speed == old(self).speed,
            final(self).progress == old(self).progress,
            final(self).length == old(self).length,
            final(self).snake == old(self).snake,
            final(self).occupied == old(self).occupied,
            old(self).wf() ==> final(self).wf(),
    {
        let rejected = match (dir, self.direction) {
            (Direction::Up, Direction::Down) => true,
            (Direction::Down, Direction::Up) => true,
            (Direction::Left, Direction::Right) => true,
            (Direction::Right, Direction::Left) => true,
            _ => false,
        };
        if !rejected {
            self.direction = dir;
        }
    }
}

} // verus!
