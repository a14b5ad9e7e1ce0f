use snake_sim::grid::Bounds;
use snake_sim::grid::Coord;
use snake_sim::grid::Direction;
use snake_sim::render::RectPx;
use snake_sim::state::State;
use snake_sim::timestep::ticks_due;

fn c(x: i32, y: i32) -> Coord {
    Coord { x, y }
}

fn r(x: i32, y: i32, w: u32, h: u32) -> RectPx {
    RectPx { x, y, w, h }
}

#[test]
fn single_cell_scene() {
    let b = Bounds { top: 10, bottom: 0, left: 0, right: 10 };
    let s = State::new(b, vec![c(1, 2)], c(3, 4), Direction::Up, 1000, 1000);
    let rects = s.render_rects();
    assert_eq!(
        rects,
        vec![
            // The frame: top, left, right, bottom bars.
            r(200, 200, 120, 10),
            r(200, 210, 10, 100),
            r(310, 210, 10, 100),
            r(200, 310, 120, 10),
            // The one body cell.
            r(221, 231, 8, 8),
            // The food.
            r(241, 251, 8, 8),
        ]
    );
}

#[test]
fn adjacent_cells_get_a_joint_strip() {
    let b = Bounds { top: 10, bottom: 0, left: 0, right: 10 };
    let s = State::new(b, vec![c(1, 2), c(1, 1)], c(3, 4), Direction::Up, 1000, 1000);
    let rects = s.render_rects();
    assert_eq!(rects.len(), 8);
    // Head cell, then the second cell with the strip towards the head.
    assert_eq!(rects[4], r(221, 231, 8, 8));
    assert_eq!(rects[5], r(221, 221, 8, 8));
    assert_eq!(rects[6], r(221, 229, 8, 2));
    assert_eq!(rects[7], r(241, 251, 8, 8));
}

#[test]
fn separated_cells_get_no_strip() {
    let b = Bounds { top: 10, bottom: 0, left: 0, right: 10 };
    // A body that just jumped: two cells apart, so no joint is drawn.
    let s = State::new(b, vec![c(1, 4), c(1, 1)], c(3, 4), Direction::Up, 1000, 1000);
    let rects = s.render_rects();
    assert_eq!(rects.len(), 7);
}

#[test]
fn sideways_joint_strips() {
    let b = Bounds { top: 10, bottom: 0, left: 0, right: 10 };
    // Second cell to the left of the head: the strip sits on the side
    // facing the head.
    let s = State::new(b, vec![c(2, 2), c(1, 2)], c(3, 4), Direction::Right, 1000, 1000);
    let rects = s.render_rects();
    assert_eq!(rects.len(), 8);
    assert_eq!(rects[5], r(221, 231, 8, 8));
    assert_eq!(rects[6], r(229, 231, 2, 8));
}

#[test]
fn ticks_accumulate_across_frames() {
    assert_eq!(ticks_due(30, 250, 100), (2, 80));
    assert_eq!(ticks_due(80, 10, 100), (0, 90));
    assert_eq!(ticks_due(90, 10, 100), (1, 0));
    assert_eq!(ticks_due(0, 99, 100), (0, 99));
    assert_eq!(ticks_due(0, 1000, 100), (10, 0));
}
