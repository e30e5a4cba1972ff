use vstd::prelude::*;

use crate::cells::{col_delta, row_delta, symbol_of, Cell, CellLocation, CellState, Direction};
use vstd::string::StringExecFns;

verus! {

/// Whether (r, c) lies on a grid of `w` columns and `h` rows.
pub open spec fn in_grid(w: int, h: int, r: int, c: int) -> bool {
    0 <= r < h && 0 <= c < w
}

/// 1 where (r, c) is on the grid and alive there, 0 otherwise: positions off
/// the grid count as dead, nothing wraps around.
pub open spec fn live_at(g: Seq<Seq<CellState>>, w: int, h: int, r: int, c: int) -> int {
    if in_grid(w, h, r, c) && g[r][c] == CellState::Alive {
        1
    } else {
        0
    }
}

/// `live_at` for the neighbour of (r, c) in direction `d`.
pub open spec fn live_towards(
    g: Seq<Seq<CellState>>,
    w: int,
    h: int,
    r: int,
    c: int,
    d: Direction,
) -> int {
    live_at(g, w, h, r + row_delta(d), c + col_delta(d))
}

/// How many of the eight neighbours of (r, c) are on the grid and alive.
pub open spec fn neighbour_count(g: Seq<Seq<CellState>>, w: int, h: int, r: int, c: int) -> int {
    live_towards(g, w, h, r, c, Direction::TopLeft) + live_towards(g, w, h, r, c, Direction::TopRight)
        + live_towards(g, w, h, r, c, Direction::TopMiddle) + live_towards(
        g,
        w,
        h,
        r,
        c,
        Direction::BottomLeft,
    ) + live_towards(g, w, h, r, c, Direction::BottomRight) + live_towards(
        g,
        w,
        h,
        r,
        c,
        Direction::BottomMiddle,
    ) + live_towards(g, w, h, r, c, Direction::Left) + live_towards(g, w, h, r, c, Direction::Right)
}

/// The classic rule: a living cell survives with two or three living
/// neighbours, a dead one comes alive with exactly three.
pub open spec fn next_state(s: CellState, n: int) -> CellState {
    match s {
        CellState::Alive => if n == 2 || n == 3 {
            CellState::Alive
        } else {
            CellState::Dead
        },
        CellState::Dead => if n == 3 {
            CellState::Alive
        } else {
            CellState::Dead
        },
    }
}

/// The generation after `g`: every cell's next state from its own state and
/// its neighbours in `g`, all read from `g` itself.
pub open spec fn next_grid(g: Seq<Seq<CellState>>, w: int, h: int) -> Seq<Seq<CellState>> {
    Seq::new(h as nat, |r: int| Seq::new(w as nat, |c: int| next_state(g[r][c], neighbour_count(g, w, h, r, c))))
}

/// Whether `g` has exactly `h` rows of exactly `w` states.
pub open spec fn grid_shaped(g: Seq<Seq<CellState>>, w: int, h: int) -> bool {
    &&& g.len() == h
    &&& forall|r: int| 0 <= r < h ==> #[trigger] g[r].len() == w
}

/// Whether (r, c) is one of the five cells of a glider whose 3x3 box has its
/// top-left corner at (ar, ac): the middle of the top row, the right end of
/// the middle row, and the whole bottom row.
pub open spec fn in_glider(ar: int, ac: int, r: int, c: int) -> bool {
    (r == ar && c == ac + 1) || (r == ar + 1 && c == ac + 2) || (r == ar + 2 && ac <= c <= ac + 2)
}

/// Whether (r, c) is one of the three cells of a vertical oscillator whose
/// 3x3 box has its top-left corner at (ar, ac): the box's middle column.
pub open spec fn in_oscillator(ar: int, ac: int, r: int, c: int) -> bool {
    c == ac + 1 && ar <= r <= ar + 2
}

/// Whether a 3x3 pattern may be anchored at (ar, ac) on a grid of `w`
/// columns and `h` rows: its whole box lies on the grid.
pub open spec fn pattern_fits(w: int, h: int, ar: int, ac: int) -> bool {
    0 <= ar && 0 <= ac && ar + 3 <= h && ac + 3 <= w
}

/// `g` with every cell for which `pattern` holds set alive, the rest as they were.
pub open spec fn stamped(g: Seq<Seq<CellState>>, pattern: spec_fn(int, int) -> bool) -> Seq<Seq<CellState>> {
    Seq::new(
        g.len(),
        |r: int|
            Seq::new(
                g[r].len(),
                |c: int|
                    if pattern(r, c) {
                        CellState::Alive
                    } else {
                        g[r][c]
                    },
            ),
    )
}

/// The state a cell has after the randomizing pass: a living cell stays
/// alive; any other takes its draw (`true` for alive), and one without a
/// draw stays dead.
pub open spec fn drawn_state(s: CellState, draws: Seq<Seq<bool>>, r: int, c: int) -> CellState {
    if s == CellState::Alive || (0 <= r < draws.len() && 0 <= c < draws[r].len() && draws[r][c]) {
        CellState::Alive
    } else {
        CellState::Dead
    }
}

/// `g` after the randomizing pass with the given draws.
pub open spec fn randomized(g: Seq<Seq<CellState>>, draws: Seq<Seq<bool>>) -> Seq<Seq<CellState>> {
    Seq::new(g.len(), |r: int| Seq::new(g[r].len(), |c: int| drawn_state(g[r][c], draws, r, c)))
}

/// `h` rows of `w` dead cells.
pub open spec fn dead_grid(w: int, h: int) -> Seq<Seq<CellState>> {
    Seq::new(h as nat, |r: int| Seq::new(w as nat, |c: int| CellState::Dead))
}

/// The draws held in `draws`, row by row.
pub open spec fn draw_rows(draws: Vec<Vec<bool>>) -> Seq<Seq<bool>> {
    draws@.map_values(|row: Vec<bool>| row@)
}

/// Relies on rand::random for `bool`: a fair coin flip from the thread-local
/// generator. Nothing is promised of its outcome.
#[verifier::external_body]
fn coin_flip() -> (r: bool) {
    rand::random::<bool>()
}

/// Relies on rand's Rng::gen_range (thread-local generator): a value drawn
/// from `low..high`, which must not be empty.
#[verifier::external_body]
fn random_in(low: i32, high: i32) -> (r: i32)
    requires
        low < high,
    ensures
        low <= r < high,
{
    rand::Rng::gen_range(&mut rand::thread_rng(), low, high)
}

/// The text of a row: one symbol per cell.
pub open spec fn row_text(row: Seq<CellState>) -> Seq<char> {
    row.map_values(|s: CellState| symbol_of(s))
}

/// The text of a grid: each row's text followed by a line break.
pub open spec fn grid_text(g: Seq<Seq<CellState>>) -> Seq<char>
    decreases g.len(),
{
    if g.len() == 0 {
        Seq::empty()
    } else {
        grid_text(g.drop_last()) + row_text(g.last()) + seq!['\n']
    }
}

fn symbol_str(s: CellState) -> (r: &'static str)
    ensures
        r@ == seq![symbol_of(s)],
{
    proof {
        reveal_strlit("*");
        reveal_strlit(" ");
    }
    match s {
        CellState::Alive => "*",
        CellState::Dead => " ",
    }
}

/// The size of a board, in cells: `w` columns and `h` rows.
#[derive(PartialEq, Eq, Structural, Clone, Copy, Debug)]
pub struct Term {
    pub w: i32,
    pub h: i32,
}

impl Term {
    /// The board size for a terminal of `cols` columns and `rows` rows, two
    /// of each being left for the border.
    pub fn from_terminal_size(cols: usize, rows: usize) -> (t: Term)
        requires
            2 <= cols <= i32::MAX + 2,
            2 <= rows <= i32::MAX + 2,
        ensures
            t.w == cols - 2,
            t.h == rows - 2,
    {
        Term { w: (cols - 2) as i32, h: (rows - 2) as i32 }
    }
}

/// A bounded grid of cells and the number of generations it has gone through.
#[derive(Clone, Debug)]
pub struct LifeBoard {
    iteration: usize,
    pub cells: Vec<Vec<Cell>>,
    dimensions: Term,
}

impl LifeBoard {
    /// The number of columns.
    pub closed spec fn width(&self) -> int {
        self.dimensions.w as int
    }

    /// The number of rows.
    pub closed spec fn height(&self) -> int {
        self.dimensions.h as int
    }

    /// How many generations the board has gone through.
    pub closed spec fn generation(&self) -> int {
        self.iteration as int
    }

    /// The cell stored at row `r`, column `c`.
    pub closed spec fn cell_at(&self, r: int, c: int) -> Cell {
        self.cells@[r]@[c]
    }

    /// The state of every cell, row by row.
    pub closed spec fn grid(&self) -> Seq<Seq<CellState>> {
        self.cells@.map_values(|row: Vec<Cell>| row@.map_values(|cell: Cell| cell.state))
    }

    /// `height` rows of `width` cells each, wherever the cells say they are.
    pub closed spec fn shaped(&self) -> bool {
        &&& self.dimensions.w >= 0
        &&& self.dimensions.h >= 0
        &&& self.cells@.len() == self.dimensions.h
        &&& forall|r: int| 0 <= r < self.dimensions.h ==> #[trigger] self.cells@[r]@.len() == self.dimensions.w
    }

    /// `height` rows of `width` cells each, every cell stored at its own
    /// row and column.
    pub closed spec fn wf(&self) -> bool {
        &&& self.shaped()
        &&& forall|r: int, c: int|
            0 <= r < self.dimensions.h && 0 <= c < self.dimensions.w ==> #[trigger] self.cells@[r]@[c].location
                == CellLocation { r: r as i32, c: c as i32 }
    }

    /// `next` is the generation after `self`: same size, every state given
    /// by the classic rule on `self`'s grid, the counter one further (it
    /// stays put at its largest value).
    pub open spec fn is_followed_by(&self, next: LifeBoard) -> bool {
        &&& next.wf()
        &&& next.width() == self.width()
        &&& next.height() == self.height()
        &&& next.grid() == next_grid(self.grid(), self.width(), self.height())
        &&& next.generation() == if self.generation() < usize::MAX {
            self.generation() + 1
        } else {
            self.generation()
        }
    }

    /// A well-formed board is shaped, and so is its grid of states.
    pub proof fn lemma_wf_shaped(&self)
        requires
            self.wf(),
        ensures
            self.shaped(),
            grid_shaped(self.grid(), self.width(), self.height()),
    {
        self.lemma_shaped_grid();
    }

    /// The grid of states of a shaped board has the board's size.
    pub proof fn lemma_shaped_grid(&self)
        requires
            self.shaped(),
        ensures
            grid_shaped(self.grid(), self.width(), self.height()),
    {
        assert forall|r: int| 0 <= r < self.height() implies #[trigger] self.grid()[r].len() == self.width() by {
            assert(self.cells@[r]@.len() == self.width());
        }
    }

    proof fn lemma_grid_at(&self, r: int, c: int)
        requires
            self.shaped(),
            in_grid(self.width(), self.height(), r, c),
        ensures
            self.grid()[r][c] == self.cells@[r]@[c].state,
            self.wf() ==> self.cells@[r]@[c].location == (CellLocation { r: r as i32, c: c as i32 }),
            grid_shaped(self.grid(), self.width(), self.height()),
    {
        assert(self.cells@[r]@.len() == self.width());
        self.lemma_shaped_grid();
    }

    /// A board of `t.h` rows of `t.w` dead cells, each at its own row and
    /// column, at generation 0.
    pub fn blank(t: Term) -> (b: LifeBoard)
        requires
            t.w > 0,
            t.h > 0,
        ensures
            b.wf(),
            b.width() == t.w,
            b.height() == t.h,
            b.generation() == 0,
            b.grid() == dead_grid(t.w as int, t.h as int),
    {
        let mut rows: Vec<Vec<Cell>> = Vec::new();
        let mut r: i32 = 0;
        while r < t.h
            invariant
                0 <= r <= t.h,
                t.w > 0,
                rows@.len() == r,
                forall|i: int| 0 <= i < r ==> #[trigger] rows@[i]@.len() == t.w,
                forall|i: int, j: int|
                    0 <= i < r && 0 <= j < t.w ==> #[trigger] rows@[i]@[j] == (Cell {
                        state: CellState::Dead,
                        location: CellLocation { r: i as i32, c: j as i32 },
                    }),
            decreases t.h - r,
        {
            let mut row: Vec<Cell> = Vec::new();
            let mut c: i32 = 0;
            while c < t.w
                invariant
                    0 <= r < t.h,
                    0 <= c <= t.w,
                    row@.len() == c,
                    forall|j: int|
                        0 <= j < c ==> #[trigger] row@[j] == (Cell {
                            state: CellState::Dead,
                            location: CellLocation { r: r, c: j as i32 },
                        }),
                decreases t.w - c,
            {
                row.push(Cell { state: CellState::Dead, location: CellLocation { r, c } });
                c += 1;
            }
            rows.push(row);
            r += 1;
        }
        let b = LifeBoard { iteration: 0, cells: rows, dimensions: t };
        proof {
            assert(b.grid() =~~= dead_grid(t.w as int, t.h as int));
        }
        b
    }

    /// The randomizing pass with the draws given: every cell is set to its
    /// own row and column, wherever it said it was before, and its state follows `drawn_state`, so that a
    /// pattern seeded before the pass survives it.
    pub fn assign_locations_with(&mut self, draws: &Vec<Vec<bool>>)
        requires
            old(self).shaped(),
        ensures
            final(self).wf(),
            final(self).width() == old(self).width(),
            final(self).height() == old(self).height(),
            final(self).generation() == old(self).generation(),
            final(self).grid() == randomized(old(self).grid(), draw_rows(*draws)),
    {
        let ghost g = self.grid();
        let ghost d = draw_rows(*draws);
        let ghost w = self.width();
        let ghost h = self.height();
        let mut rows: Vec<Vec<Cell>> = Vec::new();
        let mut r: usize = 0;
        while r < self.cells.len()
            invariant
                self.shaped(),
                *self == *old(self),
                g == self.grid(),
                d == draw_rows(*draws),
                w == self.width(),
                h == self.height(),
                r <= h,
                rows@.len() == r,
                forall|i: int| 0 <= i < r ==> #[trigger] rows@[i]@.len() == w,
                forall|i: int, j: int|
                    0 <= i < r && 0 <= j < w ==> #[trigger] rows@[i]@[j] == (Cell {
                        state: drawn_state(g[i][j], d, i, j),
                        location: CellLocation { r: i as i32, c: j as i32 },
                    }),
            decreases h - r,
        {
            let mut row: Vec<Cell> = Vec::new();
            let mut c: usize = 0;
            while c < self.cells[r].len()
                invariant
                    self.shaped(),
                    g == self.grid(),
                    d == draw_rows(*draws),
                    w == self.width(),
                    h == self.height(),
                    r < h,
                    c <= w,
                    row@.len() == c,
                    forall|j: int|
                        0 <= j < c ==> #[trigger] row@[j] == (Cell {
                            state: drawn_state(g[r as int][j], d, r as int, j),
                            location: CellLocation { r: r as i32, c: j as i32 },
                        }),
                decreases w - c,
            {
                proof {
                    self.lemma_grid_at(r as int, c as int);
                }
                let drawn = r < draws.len() && c < draws[r].len() && draws[r][c];
                let state = if self.cells[r][c].state == CellState::Alive || drawn {
                    CellState::Alive
                } else {
                    CellState::Dead
                };
                row.push(Cell { state, location: CellLocation { r: r as i32, c: c as i32 } });
                c += 1;
            }
            rows.push(row);
            r += 1;
        }
        self.cells = rows;
        proof {
            assert(self.grid() =~~= randomized(g, d));
        }
    }

    /// The randomizing pass: every cell is set to its own row and column; a
    /// living cell stays alive and every other one is alive or dead with
    /// equal chance.
    pub fn assign_locations(&mut self)
        requires
            old(self).shaped(),
        ensures
            final(self).wf(),
            final(self).width() == old(self).width(),
            final(self).height() == old(self).height(),
            final(self).generation() == old(self).generation(),
            exists|d: Seq<Seq<bool>>| final(self).grid() == randomized(old(self).grid(), d),
    {
        let mut draws: Vec<Vec<bool>> = Vec::new();
        let mut r: usize = 0;
        while r < self.cells.len()
            invariant
                r <= self.cells.len(),
            decreases self.cells.len() - r,
        {
            let mut row: Vec<bool> = Vec::new();
            let mut c: usize = 0;
            while c < self.cells[r].len()
                invariant
                    r < self.cells.len(),
                    c <= self.cells@[r as int].len(),
                decreases self.cells@[r as int].len() - c,
            {
                row.push(coin_flip());
                c += 1;
            }
            draws.push(row);
            r += 1;
        }
        self.assign_locations_with(&draws);
    }

    /// A board of `t.h` rows of `t.w` cells at generation 0, each cell at its
    /// own row and column and alive or dead with equal chance.
    pub fn new(t: Term) -> (b: LifeBoard)
        requires
            t.w > 0,
            t.h > 0,
        ensures
            b.wf(),
            b.width() == t.w,
            b.height() == t.h,
            b.generation() == 0,
    {
        let mut b = LifeBoard::blank(t);
        b.assign_locations();
        b
    }

    /// The board's size.
    pub fn dimensions(&self) -> (t: Term)
        ensures
            t.w == self.width(),
            t.h == self.height(),
    {
        self.dimensions
    }

    /// The cell at row `r`, column `c`.
    pub fn get_cell(&self, r: usize, c: usize) -> (cell: &Cell)
        requires
            self.wf(),
            in_grid(self.width(), self.height(), r as int, c as int),
        ensures
            *cell == self.cell_at(r as int, c as int),
            cell.state == self.grid()[r as int][c as int],
            cell.location == (CellLocation { r: r as i32, c: c as i32 }),
    {
        proof {
            self.lemma_grid_at(r as int, c as int);
        }
        &self.cells[r][c]
    }

    /// How many generations the board has gone through.
    pub fn iteration(&self) -> (n: usize)
        ensures
            n == self.generation(),
    {
        self.iteration
    }

    /// A position on the grid drawn at random.
    pub fn get_random_location(&self) -> (l: CellLocation)
        requires
            self.wf(),
            self.width() > 0,
            self.height() > 0,
        ensures
            in_grid(self.width(), self.height(), l.r as int, l.c as int),
    {
        CellLocation { r: random_in(0, self.dimensions.h), c: random_in(0, self.dimensions.w) }
    }

    /// The board as text: `*` for a living cell, a space for a dead one,
    /// one line per row.
    pub fn render(&self) -> (s: String)
        requires
            self.wf(),
        ensures
            s@ == grid_text(self.grid()),
    {
        let ghost g = self.grid();
        let mut out = String::new();
        let mut r: usize = 0;
        while r < self.cells.len()
            invariant
                self.wf(),
                g == self.grid(),
                grid_shaped(g, self.width(), self.height()),
                r <= self.height(),
                out@ == grid_text(g.take(r as int)),
            decreases self.height() - r,
        {
            let mut c: usize = 0;
            while c < self.cells[r].len()
                invariant
                    self.wf(),
                    g == self.grid(),
                    grid_shaped(g, self.width(), self.height()),
                    r < self.height(),
                    c <= self.width(),
                    out@ == grid_text(g.take(r as int)) + row_text(g[r as int].take(c as int)),
                decreases self.width() - c,
            {
                proof {
                    self.lemma_grid_at(r as int, c as int);
                    assert(row_text(g[r as int].take(c + 1)) =~= row_text(g[r as int].take(c as int)).push(
                        symbol_of(g[r as int][c as int]),
                    ));
                }
                out.append(symbol_str(self.cells[r][c].state));
                c += 1;
            }
            proof {
                reveal_strlit("\n");
                assert(g[r as int].take(c as int) =~= g[r as int]);
                assert(g.take(r + 1).drop_last() =~= g.take(r as int));
            }
            out.append("\n");
            r += 1;
        }
        proof {
            assert(g.take(r as int) =~= g);
        }
        out
    }

    fn make_alive(&mut self, r: usize, c: usize)
        requires
            old(self).wf(),
            in_grid(old(self).width(), old(self).height(), r as int, c as int),
        ensures
            final(self).wf(),
            final(self).width() == old(self).width(),
            final(self).height() == old(self).height(),
            final(self).generation() == old(self).generation(),
            final(self).grid() == old(self).grid().update(
                r as int,
                old(self).grid()[r as int].update(c as int, CellState::Alive),
            ),
    {
        proof {
            self.lemma_grid_at(r as int, c as int);
        }
        self.cells[r][c].state = CellState::Alive;
        proof {
            assert(self.grid() =~~= old(self).grid().update(
                r as int,
                old(self).grid()[r as int].update(c as int, CellState::Alive),
            ));
        }
    }

    /// Sets alive the middle column of the 3x3 box whose top-left corner is
    /// `top_left`, and returns that corner; returns `None` and changes nothing
    /// where the pattern does not fit.
    pub fn insert_oscillator(&mut self, top_left: CellLocation) -> (r: Option<CellLocation>)
        requires
            old(self).wf(),
        ensures
            final(self).wf(),
            final(self).width() == old(self).width(),
            final(self).height() == old(self).height(),
            final(self).generation() == old(self).generation(),
            pattern_fits(old(self).width(), old(self).height(), top_left.r as int, top_left.c as int)
                ==> r == Some(top_left) && final(self).grid() == stamped(
                old(self).grid(),
                |i: int, j: int| in_oscillator(top_left.r as int, top_left.c as int, i, j),
            ),
            !pattern_fits(old(self).width(), old(self).height(), top_left.r as int, top_left.c as int)
                ==> r is None && *final(self) == *old(self),
    {
        if top_left.r < 0 || top_left.c < 0 || top_left.c as i64 + 3 > self.dimensions.w as i64
            || top_left.r as i64 + 3 > self.dimensions.h as i64 {
            return None;
        }
        let ghost g = self.grid();
        let r = top_left.r as usize;
        let c = top_left.c as usize;
        self.make_alive(r, c + 1);
        self.make_alive(r + 1, c + 1);
        self.make_alive(r + 2, c + 1);
        proof {
            assert(self.grid() =~~= stamped(
                g,
                |i: int, j: int| in_oscillator(top_left.r as int, top_left.c as int, i, j),
            ));
        }
        Some(top_left)
    }

    /// Sets alive the five glider cells of the 3x3 box whose top-left corner
    /// is `top_left`, and returns that corner; returns `None` and changes
    /// nothing where the pattern does not fit, in particular wherever the
    /// corner lies in the last two rows or the last two columns.
    pub fn insert_glider(&mut self, top_left: CellLocation) -> (r: Option<CellLocation>)
        requires
            old(self).wf(),
        ensures
            final(self).wf(),
            final(self).width() == old(self).width(),
            final(self).height() == old(self).height(),
            final(self).generation() == old(self).generation(),
            pattern_fits(old(self).width(), old(self).height(), top_left.r as int, top_left.c as int)
                ==> r == Some(top_left) && final(self).grid() == stamped(
                old(self).grid(),
                |i: int, j: int| in_glider(top_left.r as int, top_left.c as int, i, j),
            ),
            !pattern_fits(old(self).width(), old(self).height(), top_left.r as int, top_left.c as int)
                ==> r is None && *final(self) == *old(self),
            old(self).height() - 2 <= top_left.r || old(self).width() - 2 <= top_left.c ==> r is None
                && *final(self) == *old(self),
    {
        if top_left.r < 0 || top_left.c < 0 || top_left.c as i64 + 3 > self.dimensions.w as i64
            || top_left.r as i64 + 3 > self.dimensions.h as i64 {
            return None;
        }
        let ghost g = self.grid();
        let r = top_left.r as usize;
        let c = top_left.c as usize;
        self.make_alive(r, c + 1);
        self.make_alive(r + 1, c + 2);
        self.make_alive(r + 2, c);
        self.make_alive(r + 2, c + 1);
        self.make_alive(r + 2, c + 2);
        proof {
            assert(self.grid() =~~= stamped(
                g,
                |i: int, j: int| in_glider(top_left.r as int, top_left.c as int, i, j),
            ));
        }
        Some(top_left)
    }

    /// The cell next to `from` in direction `dir`, or `None` where that
    /// position is off the grid.
    pub fn get_relative_cell(&self, from: &Cell, dir: Direction) -> (r: Option<&Cell>)
        requires
            self.wf(),
        ensures
            ({
                let nr = from.location.r + row_delta(dir);
                let nc = from.location.c + col_delta(dir);
                if in_grid(self.width(), self.height(), nr, nc) {
                    r == Some(&self.cell_at(nr, nc))
                } else {
                    r is None
                }
            }),
    {
        let delta = CellLocation::from(dir);
        if (delta.r < 0 && from.location.r == i32::MIN) || (delta.r > 0 && from.location.r == i32::MAX)
            || (delta.c < 0 && from.location.c == i32::MIN) || (delta.c > 0 && from.location.c
            == i32::MAX) {
            return None;
        }
        let next_location = from.location + delta;
        if next_location.c < 0 || next_location.r < 0 {
            return None;
        }
        if next_location.c >= self.dimensions.w || next_location.r >= self.dimensions.h {
            return None;
        }
        Some(&self.cells[next_location.r as usize][next_location.c as usize])
    }

    fn alive_towards(&self, from: &Cell, dir: Direction) -> (n: u8)
        requires
            self.wf(),
        ensures
            n == live_towards(
                self.grid(),
                self.width(),
                self.height(),
                from.location.r as int,
                from.location.c as int,
                dir,
            ),
    {
        match self.get_relative_cell(from, dir) {
            Some(cell) => {
                proof {
                    self.lemma_grid_at(from.location.r + row_delta(dir), from.location.c + col_delta(dir));
                }
                if cell.state == CellState::Alive {
                    1
                } else {
                    0
                }
            },
            None => 0,
        }
    }

    /// How many of the eight neighbours of `c` are on the grid and alive.
    pub fn count_neighbours(&self, c: &Cell) -> (n: u8)
        requires
            self.wf(),
        ensures
            n == neighbour_count(
                self.grid(),
                self.width(),
                self.height(),
                c.location.r as int,
                c.location.c as int,
            ),
            n <= 8,
    {
        self.alive_towards(c, Direction::TopLeft) + self.alive_towards(c, Direction::TopRight)
            + self.alive_towards(c, Direction::TopMiddle) + self.alive_towards(c, Direction::BottomLeft)
            + self.alive_towards(c, Direction::BottomRight) + self.alive_towards(
            c,
            Direction::BottomMiddle,
        ) + self.alive_towards(c, Direction::Left) + self.alive_towards(c, Direction::Right)
    }

    /// The next generation. Every neighbour count is read from `self`, which
    /// is left as it is until the new grid is complete.
    pub fn process(self) -> (next: Self)
        requires
            self.wf(),
        ensures
            self.is_followed_by(next),
    {
        let ghost g = self.grid();
        let ghost w = self.width();
        let ghost h = self.height();
        let height = self.cells.len();
        let mut rows: Vec<Vec<Cell>> = Vec::new();
        let mut r: usize = 0;
        while r < height
            invariant
                self.wf(),
                g == self.grid(),
                w == self.width(),
                h == self.height(),
                height == h,
                r <= height,
                rows@.len() == r,
                forall|i: int| 0 <= i < r ==> #[trigger] rows@[i]@.len() == w,
                forall|i: int, j: int|
                    0 <= i < r && 0 <= j < w ==> #[trigger] rows@[i]@[j] == (Cell {
                        state: next_state(g[i][j], neighbour_count(g, w, h, i, j)),
                        location: CellLocation { r: i as i32, c: j as i32 },
                    }),
            decreases height - r,
        {
            let width = self.cells[r].len();
            let mut row: Vec<Cell> = Vec::new();
            let mut c: usize = 0;
            while c < width
                invariant
                    self.wf(),
                    g == self.grid(),
                    w == self.width(),
                    h == self.height(),
                    r < h,
                    width == w,
                    c <= width,
                    row@.len() == c,
                    forall|j: int|
                        0 <= j < c ==> #[trigger] row@[j] == (Cell {
                            state: next_state(g[r as int][j], neighbour_count(g, w, h, r as int, j)),
                            location: CellLocation { r: r as i32, c: j as i32 },
                        }),
                decreases width - c,
            {
                let cell = &self.cells[r][c];
                proof {
                    self.lemma_grid_at(r as int, c as int);
                }
                let neighbours = self.count_neighbours(cell);
                let state = match cell.state {
                    CellState::Alive => if neighbours != 2 && neighbours != 3 {
                        CellState::Dead
                    } else {
                        CellState::Alive
                    },
                    CellState::Dead => if neighbours == 3 {
                        CellState::Alive
                    } else {
                        CellState::Dead
                    },
                };
                row.push(Cell { state, location: cell.location });
                c += 1;
            }
            rows.push(row);
            r += 1;
        }
        let iteration = if self.iteration < usize::MAX {
            self.iteration + 1
        } else {
            self.iteration
        };
        let next = LifeBoard { iteration, cells: rows, dimensions: self.dimensions };
        proof {
            assert(next.grid() =~~= next_grid(g, w, h));
        }
        next
    }
}

} // verus!
