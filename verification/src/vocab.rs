//! The closed movement vocabulary: compass headings and commands,
//! with the turn tables and the per-heading movement deltas.

use vstd::prelude::*;

verus! {

/// One of the four compass headings, ordered cyclically
/// North -> East -> South -> West -> North for `Right` turns.
#[derive(Debug, Clone, Copy, PartialEq, Eq, Structural)]
pub enum Direction {
    North,
    East,
    South,
    West,
}

/// One of the three movement commands. Sequence order matters.
#[derive(Debug, PartialEq, Eq, Structural)]
pub enum Command {
    Forward,
    Left,
    Right,
}

/// The heading one clockwise step from `d`.
pub open spec fn right_of(d: Direction) -> Direction {
    match d {
        Direction::North => Direction::East,
        Direction::East => Direction::South,
        Direction::South => Direction::West,
        Direction::West => Direction::North,
    }
}

/// The heading one counter-clockwise step from `d`.
pub open spec fn left_of(d: Direction) -> Direction {
    match d {
        Direction::North => Direction::West,
        Direction::West => Direction::South,
        Direction::South => Direction::East,
        Direction::East => Direction::North,
    }
}

/// The x displacement of one forward step along `d`.
pub open spec fn move_dx(d: Direction) -> int {
    match d {
        Direction::East => 1,
        Direction::West => -1,
        _ => 0,
    }
}

/// The y displacement of one forward step along `d`.
pub open spec fn move_dy(d: Direction) -> int {
    match d {
        Direction::North => 1,
        Direction::South => -1,
        _ => 0,
    }
}

/// The candidate x position after applying `c` at `(x, _)` heading `d`.
pub open spec fn step_x(x: int, d: Direction, c: Command) -> int {
    if c is Forward {
        x + move_dx(d)
    } else {
        x
    }
}

/// The candidate y position after applying `c` at `(_, y)` heading `d`.
pub open spec fn step_y(y: int, d: Direction, c: Command) -> int {
    if c is Forward {
        y + move_dy(d)
    } else {
        y
    }
}

/// The heading after applying `c` while heading `d`.
pub open spec fn turn(d: Direction, c: Command) -> Direction {
    match c {
        Command::Forward => d,
        Command::Left => left_of(d),
        Command::Right => right_of(d),
    }
}

/// The single-letter code of a heading.
pub open spec fn dir_letter(d: Direction) -> char {
    match d {
        Direction::North => 'N',
        Direction::East => 'E',
        Direction::South => 'S',
        Direction::West => 'W',
    }
}

/// Whether `c` is one of the four heading letters.
pub open spec fn is_dir_char(c: char) -> bool {
    c == 'N' || c == 'E' || c == 'S' || c == 'W'
}

/// The heading named by a heading letter.
pub open spec fn dir_of(c: char) -> Direction {
    if c == 'N' {
        Direction::North
    } else if c == 'E' {
        Direction::East
    } else if c == 'S' {
        Direction::South
    } else {
        Direction::West
    }
}

/// Whether `c` is one of the three command letters.
pub open spec fn is_cmd_char(c: char) -> bool {
    c == 'L' || c == 'R' || c == 'F'
}

/// The command named by a command letter.
pub open spec fn cmd_of(c: char) -> Command {
    if c == 'L' {
        Command::Left
    } else if c == 'R' {
        Command::Right
    } else {
        Command::Forward
    }
}

impl Direction {
    /// The single-letter code of this heading, as a string slice.
    pub fn letter_str(&self) -> (r: &'static str)
        ensures
            r@ =~= seq![dir_letter(*self)],
    {
        let r: &'static str = match self {
            Direction::North => "N",
            Direction::East => "E",
            Direction::South => "S",
            Direction::West => "W",
        };
        proof {
            reveal_strlit("N");
            reveal_strlit("E");
            reveal_strlit("S");
            reveal_strlit("W");
        }
        r
    }
}

/// Turning right is a 4-cycle on headings: four clockwise quarter
/// turns return every heading to itself, and fewer than four do not.
pub proof fn lemma_right_four_cycle(d: Direction)
    ensures
        right_of(right_of(right_of(right_of(d)))) == d,
        right_of(d) != d,
        right_of(right_of(d)) != d,
        right_of(right_of(right_of(d))) != d,
{
}

/// Turning left is the exact inverse cycle: four counter-clockwise
/// quarter turns return every heading to itself, and each left turn
/// undoes a right turn and vice versa.
pub proof fn lemma_left_four_cycle(d: Direction)
    ensures
        left_of(left_of(left_of(left_of(d)))) == d,
        left_of(right_of(d)) == d,
        right_of(left_of(d)) == d,
{
}

} // verus!
