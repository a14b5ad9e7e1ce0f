//! The guarantees the simulation gives across ticks, each proved from
//! the contracts of `State::step_forward` and the well-formedness
//! invariant.

use vstd::prelude::*;

use crate::grid::Coord;
use crate::grid::MILLIS_PER_CELL;
use crate::grid::cell_key;
use crate::grid::in_play;
use crate::grid::in_play_wide;
use crate::state::State;
use crate::state::step_delta;
use crate::state::step_spec;
use crate::state::target_of;

verus! {

/// The target length rounded up to whole cells.
pub open spec fn cells_ceil(length: u64) -> int {
    (length as int + MILLIS_PER_CELL as int - 1) / MILLIS_PER_CELL as int
}

/// While the state is well formed — and every tick keeps it so — the
/// occupancy index holds a cell's key exactly when the body covers that
/// cell.
pub proof fn lemma_occupied_is_body(s: State, c: Coord)
    requires
        s.wf(),
    ensures
        s.occupied@.contains(cell_key(c)) <==> s.snake@.contains(c),
{
}

/// A tick whose movement target lies outside the playable region kills
/// the snake and leaves the body, the index, the food and the target
/// length exactly as they were before that tick.
pub proof fn lemma_boundary_death(pre: State, post: State)
    requires
        step_spec(pre, post),
        pre.status is Alive,
        step_delta(pre) >= 1,
        !in_play_wide(pre.bounds, target_of(pre).0, target_of(pre).1),
    ensures
        post.status is Dead,
        post.snake == pre.snake,
        post.occupied == pre.occupied,
        post.food == pre.food,
        post.length == pre.length,
{
}

/// A tick whose movement target is a cell the body already covers —
/// equivalently, a cell whose key is in the occupancy index — kills the
/// snake and leaves the body and the index exactly as they were.
pub proof fn lemma_self_collision_death(pre: State, post: State)
    requires
        pre.wf(),
        step_spec(pre, post),
        pre.status is Alive,
        step_delta(pre) >= 1,
        pre.occupied@.contains(
            cell_key(Coord { x: target_of(pre).0 as i32, y: target_of(pre).1 as i32 }),
        ),
    ensures
        post.status is Dead,
        post.snake == pre.snake,
        post.occupied == pre.occupied,
        post.food == pre.food,
        post.length == pre.length,
{
    let target = Coord { x: target_of(pre).0 as i32, y: target_of(pre).1 as i32 };
    assert(pre.snake@.contains(target));
}

/// A tick that moves the head onto the food grows the target length by
/// exactly the nutrition; and as long as that does not end the game —
/// it only can when the body covers every playable cell — the new
/// pellet lies on a playable cell that neither the moved body nor the
/// occupancy index covers.
pub proof fn lemma_eating_grows(pre: State, post: State)
    requires
        pre.wf(),
        post.wf(),
        step_spec(pre, post),
        pre.status is Alive,
        step_delta(pre) >= 1,
        in_play_wide(pre.bounds, target_of(pre).0, target_of(pre).1),
        (Coord { x: target_of(pre).0 as i32, y: target_of(pre).1 as i32 }) == pre.food,
    ensures
        post.length == pre.length as int + pre.nutrition as int,
        (post.status is Alive) ==> (in_play(post.bounds, post.food) && !post.snake@.contains(
            post.food,
        ) && !post.occupied@.contains(cell_key(post.food))),
{
    assert(!pre.snake@.contains(pre.food));
}

/// The body never holds more cells than the target length rounded up to
/// whole cells.
pub proof fn lemma_body_within_target(s: State)
    requires
        s.wf(),
    ensures
        s.snake@.len() <= cells_ceil(s.length),
{
    let m = MILLIS_PER_CELL as int;
    let l = s.length as int;
    let n = s.snake@.len() as int;
    let q = (l + m - 1) / m;
    vstd::arithmetic::div_mod::lemma_fundamental_div_mod(l + m - 1, m);
    if n > q {
        assert((n - 1) * m >= q * m) by (nonlinear_arith)
            requires
                n - 1 >= q,
                m > 0,
        ;
        assert(false);
    }
}

/// Death is absorbing: a tick taken in a dead state changes not one
/// field, however often it is repeated.
pub proof fn lemma_dead_is_frozen(pre: State, post: State)
    requires
        step_spec(pre, post),
        pre.status is Dead,
    ensures
        post == pre,
{
}

} // verus!
