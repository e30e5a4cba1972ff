use vstd::prelude::*;

use crate::cells::{CellState, Direction};
use crate::life::{
    drawn_state, grid_shaped, in_grid, live_at, live_towards, neighbour_count, next_grid, next_state,
    randomized, stamped, LifeBoard,
};

verus! {

/// The next generation depends on nothing but the board's size and states:
/// two boards of one size with equal states are followed by boards of one
/// size with equal states.
pub proof fn lemma_process_deterministic(a: LifeBoard, b: LifeBoard, next_a: LifeBoard, next_b: LifeBoard)
    requires
        a.width() == b.width(),
        a.height() == b.height(),
        a.grid() == b.grid(),
        a.is_followed_by(next_a),
        b.is_followed_by(next_b),
    ensures
        next_a.width() == next_b.width(),
        next_a.height() == next_b.height(),
        next_a.grid() == next_b.grid(),
{
}

/// A grid with no living cell has none in the next generation either.
pub proof fn lemma_dead_grid_stays_dead(g: Seq<Seq<CellState>>, w: int, h: int)
    requires
        forall|r: int, c: int| in_grid(w, h, r, c) ==> g[r][c] == CellState::Dead,
    ensures
        forall|r: int, c: int| in_grid(w, h, r, c) ==> #[trigger] next_grid(g, w, h)[r][c] == CellState::Dead,
{
    assert forall|r: int, c: int| in_grid(w, h, r, c) implies #[trigger] next_grid(g, w, h)[r][c]
        == CellState::Dead by {
        assert forall|rr: int, cc: int| true implies #[trigger] live_at(g, w, h, rr, cc) == 0 by {
            if in_grid(w, h, rr, cc) {
                assert(g[rr][cc] == CellState::Dead);
            }
        }
        assert(neighbour_count(g, w, h, r, c) == 0);
        assert(next_state(g[r][c], 0) == CellState::Dead);
    }
}

/// The corner cell at row 0, column 0 has at most three neighbours on the
/// grid, so it never counts more than three living ones.
pub proof fn lemma_corner_counts_at_most_three(g: Seq<Seq<CellState>>, w: int, h: int)
    ensures
        neighbour_count(g, w, h, 0, 0) <= 3,
{
    assert(live_towards(g, w, h, 0, 0, Direction::TopLeft) == 0);
    assert(live_towards(g, w, h, 0, 0, Direction::TopMiddle) == 0);
    assert(live_towards(g, w, h, 0, 0, Direction::TopRight) == 0);
    assert(live_towards(g, w, h, 0, 0, Direction::Left) == 0);
    assert(live_towards(g, w, h, 0, 0, Direction::BottomLeft) == 0);
    assert(live_towards(g, w, h, 0, 0, Direction::Right) <= 1);
    assert(live_towards(g, w, h, 0, 0, Direction::BottomMiddle) <= 1);
    assert(live_towards(g, w, h, 0, 0, Direction::BottomRight) <= 1);
}

/// A pattern seeded before the randomizing pass survives it: every cell on
/// the grid that the pattern covers is alive afterwards, whatever was drawn.
pub proof fn lemma_seed_survives_randomizing(
    g: Seq<Seq<CellState>>,
    w: int,
    h: int,
    pattern: spec_fn(int, int) -> bool,
    draws: Seq<Seq<bool>>,
)
    requires
        grid_shaped(g, w, h),
    ensures
        forall|r: int, c: int|
            in_grid(w, h, r, c) && pattern(r, c) ==> #[trigger] randomized(stamped(g, pattern), draws)[r][c]
                == CellState::Alive,
{
    assert forall|r: int, c: int| in_grid(w, h, r, c) && pattern(r, c) implies #[trigger] randomized(
        stamped(g, pattern),
        draws,
    )[r][c] == CellState::Alive by {
        assert(g[r].len() == w);
        assert(stamped(g, pattern)[r][c] == CellState::Alive);
        assert(drawn_state(CellState::Alive, draws, r, c) == CellState::Alive);
    }
}

} // verus!
