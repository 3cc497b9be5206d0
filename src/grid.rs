use vstd::prelude::*;

verus! {

/// Number of columns of the board.
pub const GRID_WIDTH: i32 = 20;

/// Number of rows of the board.
pub const GRID_HEIGHT: i32 = 20;

/// A cell of the board; `y` grows upwards.
#[derive(Clone, Copy, Debug, PartialEq, Eq, Structural)]
pub struct Position {
    pub x: i32,
    pub y: i32,
}

impl Position {
    /// The cell lies on the board.
    pub open spec fn in_grid_spec(self) -> bool {
        0 <= self.x < GRID_WIDTH && 0 <= self.y < GRID_HEIGHT
    }

    pub fn in_grid(&self) -> (r: bool)
        ensures
            r == self.in_grid_spec(),
    {
        0 <= self.x && self.x < GRID_WIDTH && 0 <= self.y && self.y < GRID_HEIGHT
    }
}

#[derive(Clone, Copy, Debug, PartialEq, Eq, Structural)]
pub enum Direction {
    Up,
    Left,
    Right,
    Down,
}

impl Direction {
    pub open spec fn opposite_spec(self) -> Direction {
        match self {
            Direction::Up => Direction::Down,
            Direction::Left => Direction::Right,
            Direction::Right => Direction::Left,
            Direction::Down => Direction::Up,
        }
    }

    pub fn opposite(self) -> (r: Direction)
        ensures
            r == self.opposite_spec(),
    {
        match self {
            Direction::Up => Direction::Down,
            Direction::Left => Direction::Right,
            Direction::Right => Direction::Left,
            Direction::Down => Direction::Up,
        }
    }

    /// Horizontal change of one step in this direction.
    pub open spec fn dx(self) -> int {
        match self {
            Direction::Left => -1,
            Direction::Right => 1,
            _ => 0,
        }
    }

    /// Vertical change of one step in this direction.
    pub open spec fn dy(self) -> int {
        match self {
            Direction::Up => 1,
            Direction::Down => -1,
            _ => 0,
        }
    }
}

/// No direction is its own opposite.
pub proof fn lemma_opposite_differs(d: Direction)
    ensures
        d.opposite_spec() != d,
        d.opposite_spec().opposite_spec() == d,
{
}

/// One step from `p` stays within the range of `i32`.
pub open spec fn can_step(p: Position) -> bool {
    i32::MIN < p.x < i32::MAX && i32::MIN < p.y < i32::MAX
}

/// The cell next to `p` in direction `d`.
pub open spec fn step_spec(p: Position, d: Direction) -> Position {
    Position { x: (p.x + d.dx()) as i32, y: (p.y + d.dy()) as i32 }
}

pub fn step(p: Position, d: Direction) -> (r: Position)
    requires
        can_step(p),
    ensures
        r == step_spec(p, d),
        r.x == p.x + d.dx(),
        r.y == p.y + d.dy(),
{
    match d {
        Direction::Up => Position { x: p.x, y: p.y + 1 },
        Direction::Left => Position { x: p.x - 1, y: p.y },
        Direction::Right => Position { x: p.x + 1, y: p.y },
        Direction::Down => Position { x: p.x, y: p.y - 1 },
    }
}

/// A cell of the board is stepped from by at most one off the board.
pub proof fn lemma_in_grid_can_step(p: Position)
    requires
        p.in_grid_spec(),
    ensures
        can_step(p),
{
}

} // verus!
