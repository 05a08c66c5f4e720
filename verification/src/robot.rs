//! The robot descriptor: an initial position and heading and an
//! ordered command sequence, parsed from a record of the form
//! `"(X, Y, H) COMMANDS"`.
//!
//! The record is located anywhere in the line, exactly as a
//! leftmost-match pattern search would find it: at the first position
//! where a parenthesized triple `(digits, digits, H)` is followed by
//! whitespace and a run of command letters. Runs of digits, whitespace
//! and command letters are maximal, and text after the command run is
//! ignored. Coordinates are ASCII digit runs; one whose value does not
//! fit the coordinate type makes the record malformed.

use vstd::prelude::*;

use crate::errors::ParseError;
use crate::text::{
    chars_of, digit_run_end, digits_val, parse_digits_i32, scan_digits, scan_ws, ws_run_end,
};
use crate::vocab::{cmd_of, dir_of, is_cmd_char, is_dir_char, Command, Direction};

verus! {

/// One robot as read from its input record. Read-only after parsing:
/// the simulator derives a fresh running state from it.
#[derive(Debug, PartialEq, Eq)]
pub struct Robot {
    pub initial_x: i32,
    pub initial_y: i32,
    pub initial_orientation: Direction,
    pub commands: Vec<Command>,
}

/// The end of the maximal run of command letters starting at `j`.
pub open spec fn cmd_run_end(s: Seq<char>, j: int) -> int
    decreases s.len() - j
        when 0 <= j <= s.len()
{
    if j < s.len() && is_cmd_char(s[j]) {
        cmd_run_end(s, j + 1)
    } else {
        j
    }
}

/// Where the x coordinate's digit run ends, for a record starting at `i`.
pub open spec fn x_end(s: Seq<char>, i: int) -> int {
    digit_run_end(s, i + 1)
}

/// Where the y coordinate's digit run starts.
pub open spec fn y_start(s: Seq<char>, i: int) -> int {
    x_end(s, i) + 2
}

/// Where the y coordinate's digit run ends.
pub open spec fn y_end(s: Seq<char>, i: int) -> int {
    digit_run_end(s, y_start(s, i))
}

/// Where the heading letter stands.
pub open spec fn h_pos(s: Seq<char>, i: int) -> int {
    y_end(s, i) + 2
}

/// Where the whitespace gap after the closing parenthesis starts.
pub open spec fn gap_start(s: Seq<char>, i: int) -> int {
    h_pos(s, i) + 2
}

/// Where the command run starts.
pub open spec fn cmds_start(s: Seq<char>, i: int) -> int {
    ws_run_end(s, gap_start(s, i))
}

/// Where the command run ends.
pub open spec fn cmds_end(s: Seq<char>, i: int) -> int {
    cmd_run_end(s, cmds_start(s, i))
}

/// Whether a robot record matches at position `i` of `s`: a literal
/// `'('`, a nonempty digit run, `", "`, a nonempty digit run, `", "`,
/// a heading letter, `')'`, nonempty whitespace, and a nonempty run of
/// command letters, with each run maximal.
pub open spec fn robot_match_at(s: Seq<char>, i: int) -> bool {
    &&& 0 <= i < s.len()
    &&& s[i] == '('
    &&& x_end(s, i) > i + 1
    &&& x_end(s, i) + 1 < s.len()
    &&& s[x_end(s, i)] == ','
    &&& s[x_end(s, i) + 1] == ' '
    &&& y_end(s, i) > y_start(s, i)
    &&& y_end(s, i) + 1 < s.len()
    &&& s[y_end(s, i)] == ','
    &&& s[y_end(s, i) + 1] == ' '
    &&& h_pos(s, i) < s.len()
    &&& is_dir_char(s[h_pos(s, i)])
    &&& h_pos(s, i) + 1 < s.len()
    &&& s[h_pos(s, i) + 1] == ')'
    &&& cmds_start(s, i) > gap_start(s, i)
    &&& cmds_end(s, i) > cmds_start(s, i)
}

/// The x coordinate a record matching at `i` denotes.
pub open spec fn robot_x_val(s: Seq<char>, i: int) -> int {
    digits_val(s.subrange(i + 1, x_end(s, i)))
}

/// The y coordinate a record matching at `i` denotes.
pub open spec fn robot_y_val(s: Seq<char>, i: int) -> int {
    digits_val(s.subrange(y_start(s, i), y_end(s, i)))
}

/// The heading a record matching at `i` denotes.
pub open spec fn robot_dir(s: Seq<char>, i: int) -> Direction {
    dir_of(s[h_pos(s, i)])
}

/// The command sequence a record matching at `i` denotes.
pub open spec fn robot_cmds(s: Seq<char>, i: int) -> Seq<Command> {
    Seq::new(
        (cmds_end(s, i) - cmds_start(s, i)) as nat,
        |k: int| cmd_of(s[cmds_start(s, i) + k]),
    )
}

/// The position of the leftmost record match at or after `j`, or
/// `s.len()` where there is none.
pub open spec fn first_match_from(s: Seq<char>, j: int) -> int
    decreases s.len() - j
        when 0 <= j <= s.len()
{
    if j >= s.len() {
        j
    } else if robot_match_at(s, j) {
        j
    } else {
        first_match_from(s, j + 1)
    }
}

/// Whether some robot record matches anywhere in `s`.
pub open spec fn robot_found(s: Seq<char>) -> bool {
    first_match_from(s, 0) < s.len()
}

/// Whether `s` holds a well-formed robot record: a record matches, and
/// at the leftmost match both coordinates fit the coordinate type.
pub open spec fn robot_ok(s: Seq<char>) -> bool {
    &&& robot_found(s)
    &&& robot_x_val(s, first_match_from(s, 0)) <= 0x7fff_ffff
    &&& robot_y_val(s, first_match_from(s, 0)) <= 0x7fff_ffff
}

/// What one attempt to read a record at a fixed position found.
enum TryMatch {
    /// No record matches at this position.
    NoMatch,
    /// A record matches, but a coordinate does not fit.
    TooBig,
    /// A record matches and denotes this robot.
    Found(Robot),
}

/// The end of the maximal run of command letters of `v` starting at `j`.
fn scan_cmds(v: &Vec<char>, j: usize) -> (e: usize)
    requires
        j <= v.len(),
    ensures
        j <= e <= v.len(),
        e as int == cmd_run_end(v@, j as int),
        forall|k: int| j <= k < e ==> is_cmd_char(#[trigger] v@[k]),
{
    let mut k = j;
    while k < v.len() && (v[k] == 'L' || v[k] == 'R' || v[k] == 'F')
        invariant
            j <= k <= v.len(),
            cmd_run_end(v@, j as int) == cmd_run_end(v@, k as int),
            forall|t: int| j <= t < k ==> is_cmd_char(#[trigger] v@[t]),
        decreases v.len() - k,
    {
        k += 1;
    }
    k
}

/// Tries to read a record at position `i` of `v`.
#[verifier::loop_isolation(false)]
fn try_match_at(v: &Vec<char>, i: usize) -> (r: TryMatch)
    requires
        i < v.len(),
    ensures
        match r {
            TryMatch::NoMatch => !robot_match_at(v@, i as int),
            TryMatch::TooBig => robot_match_at(v@, i as int) && !(robot_x_val(v@, i as int)
                <= 0x7fff_ffff && robot_y_val(v@, i as int) <= 0x7fff_ffff),
            TryMatch::Found(robot) => {
                &&& robot_match_at(v@, i as int)
                &&& robot_x_val(v@, i as int) <= 0x7fff_ffff
                &&& robot_y_val(v@, i as int) <= 0x7fff_ffff
                &&& robot.initial_x as int == robot_x_val(v@, i as int)
                &&& robot.initial_y as int == robot_y_val(v@, i as int)
                &&& robot.initial_orientation == robot_dir(v@, i as int)
                &&& robot.commands@ == robot_cmds(v@, i as int)
            },
        },
{
    let n = v.len();
    if v[i] != '(' {
        return TryMatch::NoMatch;
    }
    let xs = i + 1;
    let xe = scan_digits(v, xs);
    if xe == xs {
        return TryMatch::NoMatch;
    }
    if n - xe < 2 {
        return TryMatch::NoMatch;
    }
    if v[xe] != ',' || v[xe + 1] != ' ' {
        return TryMatch::NoMatch;
    }
    let ys = xe + 2;
    let ye = scan_digits(v, ys);
    if ye == ys {
        return TryMatch::NoMatch;
    }
    if n - ye < 2 {
        return TryMatch::NoMatch;
    }
    if v[ye] != ',' || v[ye + 1] != ' ' {
        return TryMatch::NoMatch;
    }
    let hp = ye + 2;
    if n - hp < 2 {
        return TryMatch::NoMatch;
    }
    let hc = v[hp];
    if !(hc == 'N' || hc == 'E' || hc == 'S' || hc == 'W') {
        return TryMatch::NoMatch;
    }
    if v[hp + 1] != ')' {
        return TryMatch::NoMatch;
    }
    let gs = hp + 2;
    let cs = scan_ws(v, gs);
    if cs == gs {
        return TryMatch::NoMatch;
    }
    let ce = scan_cmds(v, cs);
    if ce == cs {
        return TryMatch::NoMatch;
    }
    proof {
        assert(robot_match_at(v@, i as int));
    }
    let x = match parse_digits_i32(v, xs, xe) {
        Some(x) => x,
        None => {
            return TryMatch::TooBig;
        },
    };
    let y = match parse_digits_i32(v, ys, ye) {
        Some(y) => y,
        None => {
            return TryMatch::TooBig;
        },
    };
    let direction = if hc == 'N' {
        Direction::North
    } else if hc == 'E' {
        Direction::East
    } else if hc == 'S' {
        Direction::South
    } else {
        Direction::West
    };
    let mut commands: Vec<Command> = Vec::new();
    let mut k = cs;
    while k < ce
        invariant
            cs <= k <= ce,
            commands@.len() == k - cs,
            forall|t: int| 0 <= t < k - cs ==> commands@[t] == cmd_of(#[trigger] v@[cs + t]),
        decreases ce - k,
    {
        let c = v[k];
        let cmd = if c == 'L' {
            Command::Left
        } else if c == 'R' {
            Command::Right
        } else {
            Command::Forward
        };
        commands.push(cmd);
        k += 1;
    }
    proof {
        assert(commands@ =~= robot_cmds(v@, i as int));
    }
    TryMatch::Found(Robot { initial_x: x, initial_y: y, initial_orientation: direction, commands })
}

impl Robot {
    /// Reads a robot record. Succeeds exactly on lines holding a
    /// well-formed record, and returns the robot denoted at the
    /// leftmost match; every other line is `MalformedRobot`.
    #[verifier::loop_isolation(false)]
    pub fn parse(input: String) -> (r: Result<Robot, ParseError>)
        ensures
            match r {
                Ok(robot) => ({
                    let s = input@;
                    let i = first_match_from(s, 0);
                    &&& robot_ok(s)
                    &&& robot.initial_x as int == robot_x_val(s, i)
                    &&& robot.initial_y as int == robot_y_val(s, i)
                    &&& robot.initial_orientation == robot_dir(s, i)
                    &&& robot.commands@ == robot_cmds(s, i)
                }),
                Err(e) => e == ParseError::MalformedRobot && !robot_ok(input@),
            },
    {
        let v = chars_of(input.as_str());
        let n = v.len();
        let mut i: usize = 0;
        while i < n
            invariant
                i <= n,
                first_match_from(input@, 0) == first_match_from(input@, i as int),
            decreases n - i,
        {
            match try_match_at(&v, i) {
                TryMatch::Found(robot) => {
                    proof {
                        assert(first_match_from(input@, i as int) == i as int);
                    }
                    return Ok(robot);
                },
                TryMatch::TooBig => {
                    proof {
                        assert(first_match_from(input@, i as int) == i as int);
                    }
                    return Err(ParseError::MalformedRobot);
                },
                TryMatch::NoMatch => {
                    proof {
                        assert(first_match_from(input@, i as int) == first_match_from(
                            input@,
                            i as int + 1,
                        ));
                    }
                },
            }
            i += 1;
        }
        Err(ParseError::MalformedRobot)
    }
}

} // verus!
