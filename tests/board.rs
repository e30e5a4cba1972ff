use life::cells::{Cell, CellLocation, CellState, Direction};
use life::history::History;
use life::life::{LifeBoard, Term};

fn board_with(w: i32, h: i32, alive: &[(usize, usize)]) -> LifeBoard {
    let mut b = LifeBoard::blank(Term { w, h });
    for &(r, c) in alive {
        b.cells[r][c].state = CellState::Alive;
    }
    b
}

fn alive_cells(b: &LifeBoard) -> Vec<(usize, usize)> {
    let mut out = Vec::new();
    for (r, row) in b.cells.iter().enumerate() {
        for (c, cell) in row.iter().enumerate() {
            if cell.state == CellState::Alive {
                out.push((r, c));
            }
        }
    }
    out
}

fn states(b: &LifeBoard) -> Vec<Vec<CellState>> {
    b.cells.iter().map(|row| row.iter().map(|cell| cell.state).collect()).collect()
}

fn at(b: &LifeBoard, r: usize, c: usize) -> Cell {
    b.cells[r][c]
}

#[test]
fn blinker_flips_and_returns() {
    let b = board_with(5, 5, &[(1, 2), (2, 2), (3, 2)]);
    let once = b.process();
    assert_eq!(alive_cells(&once), vec![(2, 1), (2, 2), (2, 3)]);
    let twice = once.process();
    assert_eq!(alive_cells(&twice), vec![(1, 2), (2, 2), (3, 2)]);
}

#[test]
fn process_keeps_dimensions() {
    let b = LifeBoard::new(Term { w: 7, h: 4 });
    let next = b.process();
    assert_eq!(next.dimensions(), Term { w: 7, h: 4 });
    assert_eq!(next.cells.len(), 4);
    for row in &next.cells {
        assert_eq!(row.len(), 7);
    }
}

#[test]
fn process_is_deterministic() {
    let b = LifeBoard::new(Term { w: 12, h: 9 });
    let copy = b.clone();
    let x = b.process();
    let y = copy.process();
    assert_eq!(states(&x), states(&y));
    assert_eq!(x.dimensions(), y.dimensions());
}

#[test]
fn dead_board_stays_dead() {
    let b = LifeBoard::blank(Term { w: 6, h: 3 });
    let next = b.process();
    assert!(alive_cells(&next).is_empty());
}

#[test]
fn block_is_still() {
    let b = board_with(4, 4, &[(1, 1), (1, 2), (2, 1), (2, 2)]);
    let next = b.process();
    assert_eq!(alive_cells(&next), vec![(1, 1), (1, 2), (2, 1), (2, 2)]);
}

#[test]
fn lonely_cell_dies_and_crowded_cell_dies() {
    let lonely = board_with(3, 3, &[(1, 1)]);
    assert!(alive_cells(&lonely.process()).is_empty());
    // the centre of a full 3x3 board has eight living neighbours
    let full: Vec<(usize, usize)> = (0..3).flat_map(|r| (0..3).map(move |c| (r, c))).collect();
    let crowded = board_with(3, 3, &full);
    let next = crowded.process();
    assert_eq!(next.cells[1][1].state, CellState::Dead);
    assert_eq!(alive_cells(&next), vec![(0, 0), (0, 2), (2, 0), (2, 2)]);
}

#[test]
fn process_counts_generations() {
    let b = LifeBoard::blank(Term { w: 2, h: 2 });
    assert_eq!(b.iteration(), 0);
    let b = b.process().process();
    assert_eq!(b.iteration(), 2);
}

#[test]
fn corner_counts_at_most_three() {
    let full: Vec<(usize, usize)> = (0..4).flat_map(|r| (0..5).map(move |c| (r, c))).collect();
    let b = board_with(5, 4, &full);
    assert_eq!(b.count_neighbours(&at(&b, 0, 0)), 3);
    assert_eq!(b.count_neighbours(&at(&b, 0, 4)), 3);
    assert_eq!(b.count_neighbours(&at(&b, 3, 0)), 3);
    assert_eq!(b.count_neighbours(&at(&b, 3, 4)), 3);
    assert_eq!(b.count_neighbours(&at(&b, 0, 2)), 5);
    assert_eq!(b.count_neighbours(&at(&b, 2, 2)), 8);
    let single = board_with(1, 1, &[(0, 0)]);
    assert_eq!(single.count_neighbours(&at(&single, 0, 0)), 0);
}

#[test]
fn count_neighbours_ignores_the_cell_itself() {
    let b = board_with(3, 3, &[(1, 1), (0, 0), (2, 1)]);
    assert_eq!(b.count_neighbours(&at(&b, 1, 1)), 2);
    assert_eq!(b.count_neighbours(&at(&b, 1, 0)), 3);
}

#[test]
fn count_neighbours_off_grid_cell() {
    let b = board_with(3, 3, &[(0, 0), (0, 1)]);
    let outside = Cell { state: CellState::Dead, location: CellLocation { r: -1, c: 0 } };
    assert_eq!(b.count_neighbours(&outside), 2);
    let far = Cell { state: CellState::Dead, location: CellLocation { r: i32::MIN, c: i32::MAX } };
    assert_eq!(b.count_neighbours(&far), 0);
}

#[test]
fn relative_cell_inside_and_outside() {
    let b = LifeBoard::blank(Term { w: 4, h: 3 });
    let corner = at(&b, 0, 0);
    assert!(b.get_relative_cell(&corner, Direction::TopLeft).is_none());
    assert!(b.get_relative_cell(&corner, Direction::Left).is_none());
    assert!(b.get_relative_cell(&corner, Direction::BottomLeft).is_none());
    let right = b.get_relative_cell(&corner, Direction::Right).unwrap();
    assert_eq!(right.location, CellLocation { r: 0, c: 1 });
    let below = b.get_relative_cell(&corner, Direction::BottomRight).unwrap();
    assert_eq!(below.location, CellLocation { r: 1, c: 1 });
    let last = at(&b, 2, 3);
    assert!(b.get_relative_cell(&last, Direction::Right).is_none());
    assert!(b.get_relative_cell(&last, Direction::BottomMiddle).is_none());
    let up = b.get_relative_cell(&last, Direction::TopMiddle).unwrap();
    assert_eq!(up.location, CellLocation { r: 1, c: 3 });
}

#[test]
fn glider_seeded_before_randomizing_survives() {
    let mut b = LifeBoard::blank(Term { w: 10, h: 10 });
    assert_eq!(b.insert_glider(CellLocation { r: 1, c: 1 }), Some(CellLocation { r: 1, c: 1 }));
    b.assign_locations();
    for &(r, c) in &[(1, 2), (2, 3), (3, 1), (3, 2), (3, 3)] {
        assert_eq!(b.cells[r][c].state, CellState::Alive);
    }
    for (r, row) in b.cells.iter().enumerate() {
        for (c, cell) in row.iter().enumerate() {
            assert_eq!(cell.location, CellLocation { r: r as i32, c: c as i32 });
        }
    }
}

#[test]
fn randomizing_with_given_draws() {
    let mut b = LifeBoard::blank(Term { w: 3, h: 2 });
    assert_eq!(b.insert_oscillator(CellLocation { r: 0, c: 0 }), None);
    b.cells[0][0].state = CellState::Alive;
    let draws = vec![vec![false, true, false], vec![true]];
    b.assign_locations_with(&draws);
    assert_eq!(alive_cells(&b), vec![(0, 0), (0, 1), (1, 0)]);
}

#[test]
fn glider_near_corner_is_refused() {
    let mut b = LifeBoard::new(Term { w: 10, h: 10 });
    let before = states(&b);
    assert_eq!(b.insert_glider(CellLocation { r: 8, c: 8 }), None);
    assert_eq!(b.insert_glider(CellLocation { r: 9, c: 9 }), None);
    assert_eq!(b.insert_glider(CellLocation { r: 8, c: 0 }), None);
    assert_eq!(b.insert_glider(CellLocation { r: 0, c: 8 }), None);
    assert_eq!(b.insert_glider(CellLocation { r: -1, c: 2 }), None);
    assert_eq!(b.insert_glider(CellLocation { r: i32::MAX, c: i32::MAX }), None);
    assert_eq!(states(&b), before);
}

#[test]
fn glider_shape() {
    let mut b = LifeBoard::blank(Term { w: 7, h: 7 });
    assert_eq!(b.insert_glider(CellLocation { r: 3, c: 3 }), Some(CellLocation { r: 3, c: 3 }));
    assert_eq!(alive_cells(&b), vec![(3, 4), (4, 5), (5, 3), (5, 4), (5, 5)]);
}

#[test]
fn oscillator_shape_and_refusal() {
    let mut b = LifeBoard::blank(Term { w: 5, h: 5 });
    assert_eq!(b.insert_oscillator(CellLocation { r: 1, c: 1 }), Some(CellLocation { r: 1, c: 1 }));
    assert_eq!(alive_cells(&b), vec![(1, 2), (2, 2), (3, 2)]);
    assert_eq!(b.insert_oscillator(CellLocation { r: 3, c: 0 }), None);
    assert_eq!(b.insert_oscillator(CellLocation { r: 0, c: 3 }), None);
    assert_eq!(b.insert_oscillator(CellLocation { r: 0, c: -1 }), None);
    assert_eq!(alive_cells(&b), vec![(1, 2), (2, 2), (3, 2)]);
    assert_eq!(b.insert_oscillator(CellLocation { r: 2, c: 0 }), Some(CellLocation { r: 2, c: 0 }));
    assert_eq!(alive_cells(&b), vec![(1, 2), (2, 1), (2, 2), (3, 1), (3, 2), (4, 1)]);
}

#[test]
fn oscillator_fits_against_far_corner() {
    let mut b = LifeBoard::blank(Term { w: 5, h: 5 });
    assert_eq!(b.insert_oscillator(CellLocation { r: 2, c: 2 }), Some(CellLocation { r: 2, c: 2 }));
    assert_eq!(alive_cells(&b), vec![(2, 3), (3, 3), (4, 3)]);
}

#[test]
fn glider_fits_against_far_edges() {
    let mut b = LifeBoard::blank(Term { w: 10, h: 10 });
    assert_eq!(b.insert_glider(CellLocation { r: 7, c: 7 }), Some(CellLocation { r: 7, c: 7 }));
    assert_eq!(alive_cells(&b), vec![(7, 8), (8, 9), (9, 7), (9, 8), (9, 9)]);
    let mut seeded = LifeBoard::new(Term { w: 10, h: 10 });
    assert_eq!(seeded.insert_glider(CellLocation { r: 7, c: 0 }), Some(CellLocation { r: 7, c: 0 }));
    for &(r, c) in &[(7, 1), (8, 2), (9, 0), (9, 1), (9, 2)] {
        assert_eq!(seeded.cells[r][c].state, CellState::Alive);
    }
}

#[test]
fn randomizing_restores_locations() {
    let mut b = LifeBoard::blank(Term { w: 3, h: 2 });
    for row in b.cells.iter_mut() {
        for cell in row.iter_mut() {
            cell.location = CellLocation { r: 0, c: 0 };
        }
    }
    b.cells[1][2].state = CellState::Alive;
    b.assign_locations_with(&vec![vec![false, false, false], vec![false, false, false]]);
    assert_eq!(alive_cells(&b), vec![(1, 2)]);
    for (r, row) in b.cells.iter().enumerate() {
        for (c, cell) in row.iter().enumerate() {
            assert_eq!(cell.location, CellLocation { r: r as i32, c: c as i32 });
        }
    }
    b.cells[0][1].location = CellLocation { r: 5, c: 5 };
    b.assign_locations();
    assert_eq!(b.cells[0][1].location, CellLocation { r: 0, c: 1 });
    assert_eq!(b.cells[1][2].state, CellState::Alive);
}

#[test]
fn new_board_shape_and_locations() {
    let b = LifeBoard::new(Term { w: 3, h: 5 });
    assert_eq!(b.dimensions(), Term { w: 3, h: 5 });
    assert_eq!(b.iteration(), 0);
    assert_eq!(b.cells.len(), 5);
    for (r, row) in b.cells.iter().enumerate() {
        assert_eq!(row.len(), 3);
        for (c, cell) in row.iter().enumerate() {
            assert_eq!(cell.location, CellLocation { r: r as i32, c: c as i32 });
        }
    }
}

#[test]
fn random_location_is_on_the_grid() {
    let b = LifeBoard::blank(Term { w: 3, h: 2 });
    let mut seen_nonzero = false;
    for _ in 0..200 {
        let l = b.get_random_location();
        assert!(0 <= l.r && l.r < 2);
        assert!(0 <= l.c && l.c < 3);
        if l.r != 0 || l.c != 0 {
            seen_nonzero = true;
        }
    }
    assert!(seen_nonzero);
}

#[test]
fn render_draws_rows() {
    let b = board_with(3, 2, &[(0, 0), (1, 2)]);
    assert_eq!(b.render(), "*  \n  *\n");
    let empty = LifeBoard::blank(Term { w: 1, h: 1 });
    assert_eq!(empty.render(), " \n");
}

#[test]
fn direction_offsets() {
    assert_eq!(CellLocation::from(Direction::TopLeft), CellLocation { r: -1, c: -1 });
    assert_eq!(CellLocation::from(Direction::TopMiddle), CellLocation { r: -1, c: 0 });
    assert_eq!(CellLocation::from(Direction::TopRight), CellLocation { r: -1, c: 1 });
    assert_eq!(CellLocation::from(Direction::Left), CellLocation { r: 0, c: -1 });
    assert_eq!(CellLocation::from(Direction::Right), CellLocation { r: 0, c: 1 });
    assert_eq!(CellLocation::from(Direction::BottomLeft), CellLocation { r: 1, c: -1 });
    assert_eq!(CellLocation::from(Direction::BottomMiddle), CellLocation { r: 1, c: 0 });
    assert_eq!(CellLocation::from(Direction::BottomRight), CellLocation { r: 1, c: 1 });
}

#[test]
fn location_addition() {
    let a = CellLocation { r: 4, c: -2 };
    let b = CellLocation { r: -1, c: 7 };
    assert_eq!(a + b, CellLocation { r: 3, c: 5 });
}

#[test]
fn defaults_and_symbols() {
    assert_eq!(CellState::default(), CellState::Dead);
    assert_eq!(CellLocation::default(), CellLocation { r: 0, c: 0 });
    let cell = Cell::default();
    assert_eq!(cell.state, CellState::Dead);
    assert_eq!(cell.location, CellLocation { r: 0, c: 0 });
    assert_eq!(CellState::Alive.symbol(), '*');
    assert_eq!(CellState::Dead.symbol(), ' ');
    let live = Cell { state: CellState::Alive, location: CellLocation { r: 1, c: 1 } };
    assert_eq!(live.symbol(), '*');
}

#[test]
fn terminal_size_leaves_a_border() {
    assert_eq!(Term::from_terminal_size(80, 24), Term { w: 78, h: 22 });
    assert_eq!(Term::from_terminal_size(2, 3), Term { w: 0, h: 1 });
}

#[test]
fn history_evicts_oldest() {
    let mut h = History::new(2);
    assert_eq!(h.len(), 0);
    h.push(LifeBoard::blank(Term { w: 1, h: 1 }));
    h.push(LifeBoard::blank(Term { w: 2, h: 1 }));
    assert_eq!(h.len(), 2);
    h.push(LifeBoard::blank(Term { w: 3, h: 1 }));
    assert_eq!(h.len(), 2);
    assert_eq!(h.get(0).dimensions().w, 2);
    assert_eq!(h.get(1).dimensions().w, 3);
}

#[test]
fn history_without_room_keeps_nothing() {
    let mut h = History::new(0);
    h.push(LifeBoard::blank(Term { w: 1, h: 1 }));
    assert_eq!(h.len(), 0);
}

#[test]
fn get_cell_reads_state_and_location() {
    let b = board_with(4, 3, &[(2, 1)]);
    let cell = b.get_cell(2, 1);
    assert_eq!(cell.state, CellState::Alive);
    assert_eq!(cell.location, CellLocation { r: 2, c: 1 });
    assert_eq!(b.get_cell(0, 3).state, CellState::Dead);
}
