use vstd::prelude::*;

verus! {

/// Whether a grid position holds a living cell.
#[derive(PartialEq, Eq, Structural, Clone, Copy, Debug)]
pub enum CellState {
    Alive,
    Dead,
}

impl Default for CellState {
    fn default() -> (r: CellState)
        ensures
            r == CellState::Dead,
    {
        CellState::Dead
    }
}

/// The character a cell state is drawn with on a text display.
pub open spec fn symbol_of(s: CellState) -> char {
    match s {
        CellState::Alive => '*',
        CellState::Dead => ' ',
    }
}

impl CellState {
    /// `*` for a living cell, a space for a dead one.
    pub fn symbol(&self) -> (r: char)
        ensures
            r == symbol_of(*self),
    {
        match self {
            CellState::Alive => '*',
            CellState::Dead => ' ',
        }
    }
}

/// A (row, column) coordinate; it carries no bounds of its own.
#[derive(PartialEq, Eq, Structural, Clone, Copy, Debug)]
pub struct CellLocation {
    pub r: i32,
    pub c: i32,
}

impl Default for CellLocation {
    fn default() -> (l: CellLocation)
        ensures
            l.r == 0,
            l.c == 0,
    {
        CellLocation { r: 0, c: 0 }
    }
}

impl CellLocation {
    /// Whether the componentwise sum with `other` fits in `i32`.
    pub open spec fn can_add(self, other: CellLocation) -> bool {
        i32::MIN <= self.r + other.r <= i32::MAX && i32::MIN <= self.c + other.c <= i32::MAX
    }
}

impl std::ops::Add for CellLocation {
    type Output = CellLocation;

    fn add(self, other: CellLocation) -> (l: CellLocation) {
        CellLocation { r: self.r + other.r, c: self.c + other.c }
    }
}

impl vstd::std_specs::ops::AddSpecImpl for CellLocation {
    open spec fn obeys_add_spec() -> bool {
        true
    }

    open spec fn add_req(self, other: CellLocation) -> bool {
        self.can_add(other)
    }

    open spec fn add_spec(self, other: CellLocation) -> CellLocation {
        CellLocation { r: (self.r + other.r) as i32, c: (self.c + other.c) as i32 }
    }
}

/// A grid position: its state and its own coordinate.
#[derive(PartialEq, Eq, Structural, Clone, Copy, Debug)]
pub struct Cell {
    pub state: CellState,
    pub location: CellLocation,
}

impl Default for Cell {
    fn default() -> (cell: Cell)
        ensures
            cell.state == CellState::Dead,
            cell.location.r == 0,
            cell.location.c == 0,
    {
        Cell { state: CellState::default(), location: CellLocation::default() }
    }
}

impl Cell {
    /// The character this cell is drawn with on a text display.
    pub fn symbol(&self) -> (r: char)
        ensures
            r == symbol_of(self.state),
    {
        self.state.symbol()
    }
}

/// The eight compass points around a cell.
#[derive(PartialEq, Eq, Structural, Clone, Copy, Debug)]
pub enum Direction {
    TopLeft,
    TopMiddle,
    TopRight,
    Left,
    Right,
    BottomLeft,
    BottomMiddle,
    BottomRight,
}

/// Row offset of a direction: the row above is -1, the row below +1.
pub open spec fn row_delta(d: Direction) -> int {
    match d {
        Direction::TopLeft | Direction::TopMiddle | Direction::TopRight => -1,
        Direction::Left | Direction::Right => 0,
        Direction::BottomLeft | Direction::BottomMiddle | Direction::BottomRight => 1,
    }
}

/// Column offset of a direction: the column to the left is -1, to the right +1.
pub open spec fn col_delta(d: Direction) -> int {
    match d {
        Direction::TopLeft | Direction::Left | Direction::BottomLeft => -1,
        Direction::TopMiddle | Direction::BottomMiddle => 0,
        Direction::TopRight | Direction::Right | Direction::BottomRight => 1,
    }
}

impl From<Direction> for CellLocation {
    fn from(dir: Direction) -> (l: CellLocation) {
        match dir {
            Direction::TopLeft => CellLocation { r: -1, c: -1 },
            Direction::TopMiddle => CellLocation { r: -1, c: 0 },
            Direction::TopRight => CellLocation { r: -1, c: 1 },
            Direction::Left => CellLocation { r: 0, c: -1 },
            Direction::Right => CellLocation { r: 0, c: 1 },
            Direction::BottomLeft => CellLocation { r: 1, c: -1 },
            Direction::BottomMiddle => CellLocation { r: 1, c: 0 },
            Direction::BottomRight => CellLocation { r: 1, c: 1 },
        }
    }
}

impl vstd::std_specs::convert::FromSpecImpl<Direction> for CellLocation {
    open spec fn obeys_from_spec() -> bool {
        true
    }

    open spec fn from_spec(dir: Direction) -> CellLocation {
        CellLocation { r: row_delta(dir) as i32, c: col_delta(dir) as i32 }
    }
}

} // verus!
