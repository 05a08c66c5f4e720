//! The simulator: replays a robot's command sequence against the grid
//! bounds, stopping at the first candidate move that leaves the grid.

use vstd::prelude::*;

use crate::errors::ParseError;
use crate::grid::{grid_ok, grid_x_val, grid_y_val, Grid};
use crate::outcome::Outcome;
use crate::robot::{
    first_match_from, robot_cmds, robot_dir, robot_ok, robot_x_val, robot_y_val, Robot,
};
use crate::vocab::{step_x, step_y, turn, Command, Direction};

verus! {

/// Whether `(x, y)` lies outside the closed grid `[0, gx] x [0, gy]`.
pub open spec fn out_of_bounds(gx: int, gy: int, x: int, y: int) -> bool {
    x < 0 || x > gx || y < 0 || y > gy
}

/// The state a robot reaches from `(x, y)` heading `d` after replaying
/// `cmds` on the grid bounded by `(gx, gy)`: final x, final y, final
/// heading, and whether it was lost. Each command yields a candidate
/// state; a candidate outside the bounds stops processing at once, and
/// the last in-bounds state is reported with the lost flag set.
pub open spec fn sim(gx: int, gy: int, x: int, y: int, d: Direction, cmds: Seq<Command>) -> (
    int,
    int,
    Direction,
    bool,
)
    decreases cmds.len(),
{
    if cmds.len() == 0 {
        (x, y, d, false)
    } else {
        let nx = step_x(x, d, cmds[0]);
        let ny = step_y(y, d, cmds[0]);
        let nd = turn(d, cmds[0]);
        if out_of_bounds(gx, gy, nx, ny) {
            (x, y, d, true)
        } else {
            sim(gx, gy, nx, ny, nd, cmds.drop_first())
        }
    }
}

/// The state reached by applying every command with no bounds at all.
pub open spec fn free_run(x: int, y: int, d: Direction, cmds: Seq<Command>) -> (int, int, Direction)
    decreases cmds.len(),
{
    if cmds.len() == 0 {
        (x, y, d)
    } else {
        free_run(
            step_x(x, d, cmds[0]),
            step_y(y, d, cmds[0]),
            turn(d, cmds[0]),
            cmds.drop_first(),
        )
    }
}

/// Whether every forward move along the unbounded trajectory stays on
/// the grid.
pub open spec fn forwards_in_bounds(
    gx: int,
    gy: int,
    x: int,
    y: int,
    d: Direction,
    cmds: Seq<Command>,
) -> bool
    decreases cmds.len(),
{
    if cmds.len() == 0 {
        true
    } else {
        let nx = step_x(x, d, cmds[0]);
        let ny = step_y(y, d, cmds[0]);
        &&& (cmds[0] is Forward ==> !out_of_bounds(gx, gy, nx, ny))
        &&& forwards_in_bounds(gx, gy, nx, ny, turn(d, cmds[0]), cmds.drop_first())
    }
}

/// Replaying a concatenation replays the first part, and goes on with
/// the second only where the first lost nothing: loss stops the run.
pub proof fn lemma_sim_append(
    gx: int,
    gy: int,
    x: int,
    y: int,
    d: Direction,
    s1: Seq<Command>,
    s2: Seq<Command>,
)
    ensures
        ({
            let r1 = sim(gx, gy, x, y, d, s1);
            sim(gx, gy, x, y, d, s1 + s2) == if r1.3 {
                r1
            } else {
                sim(gx, gy, r1.0, r1.1, r1.2, s2)
            }
        }),
    decreases s1.len(),
{
    if s1.len() == 0 {
        assert(s1 + s2 =~= s2);
    } else {
        let nx = step_x(x, d, s1[0]);
        let ny = step_y(y, d, s1[0]);
        let nd = turn(d, s1[0]);
        assert((s1 + s2)[0] == s1[0]);
        if out_of_bounds(gx, gy, nx, ny) {
        } else {
            assert((s1 + s2).drop_first() =~= s1.drop_first() + s2);
            lemma_sim_append(gx, gy, nx, ny, nd, s1.drop_first(), s2);
        }
    }
}

/// First loss stops the run: where the commands before position `k`
/// lose nothing and the candidate move of command `k` leaves the
/// bounds, the run reports the state reached before command `k`, lost,
/// and no command past `k` has any effect on the result.
pub proof fn lemma_first_loss_stops(
    gx: int,
    gy: int,
    x: int,
    y: int,
    d: Direction,
    cmds: Seq<Command>,
    k: int,
    rest: Seq<Command>,
)
    requires
        0 <= k < cmds.len(),
        !sim(gx, gy, x, y, d, cmds.take(k)).3,
        ({
            let p = sim(gx, gy, x, y, d, cmds.take(k));
            out_of_bounds(gx, gy, step_x(p.0, p.2, cmds[k]), step_y(p.1, p.2, cmds[k]))
        }),
    ensures
        ({
            let p = sim(gx, gy, x, y, d, cmds.take(k));
            &&& sim(gx, gy, x, y, d, cmds) == (p.0, p.1, p.2, true)
            &&& sim(gx, gy, x, y, d, cmds.take(k + 1) + rest) == (p.0, p.1, p.2, true)
        }),
{
    let p = sim(gx, gy, x, y, d, cmds.take(k));
    let tail = cmds.skip(k);
    assert(cmds =~= cmds.take(k) + tail);
    lemma_sim_append(gx, gy, x, y, d, cmds.take(k), tail);
    assert(tail[0] == cmds[k]);
    let single_and_rest = seq![cmds[k]] + rest;
    assert(cmds.take(k + 1) + rest =~= cmds.take(k) + single_and_rest);
    lemma_sim_append(gx, gy, x, y, d, cmds.take(k), single_and_rest);
    assert(single_and_rest[0] == cmds[k]);
}

/// A run that starts on the grid and whose forward moves all stay on
/// the grid is never lost, and ends exactly where the unbounded
/// application of all its commands ends.
pub proof fn lemma_all_forwards_in_bounds(
    gx: int,
    gy: int,
    x: int,
    y: int,
    d: Direction,
    cmds: Seq<Command>,
)
    requires
        !out_of_bounds(gx, gy, x, y),
        forwards_in_bounds(gx, gy, x, y, d, cmds),
    ensures
        ({
            let f = free_run(x, y, d, cmds);
            sim(gx, gy, x, y, d, cmds) == (f.0, f.1, f.2, false)
        }),
    decreases cmds.len(),
{
    if cmds.len() > 0 {
        let nx = step_x(x, d, cmds[0]);
        let ny = step_y(y, d, cmds[0]);
        lemma_all_forwards_in_bounds(gx, gy, nx, ny, turn(d, cmds[0]), cmds.drop_first());
    }
}

/// Replays `robot`'s commands in order against `grid`. The result is
/// exactly the mathematical replay `sim`: the first candidate move off
/// the grid stops processing and reports the last in-bounds state as
/// lost; otherwise all commands apply and nothing is lost.
#[verifier::loop_isolation(false)]
pub fn process(grid: &Grid, robot: &Robot) -> (o: Outcome)
    ensures
        ({
            let r = sim(
                grid.max_x as int,
                grid.max_y as int,
                robot.initial_x as int,
                robot.initial_y as int,
                robot.initial_orientation,
                robot.commands@,
            );
            &&& o.x as int == r.0
            &&& o.y as int == r.1
            &&& o.direction == r.2
            &&& o.is_lost == r.3
        }),
{
    let mut current_x: i32 = robot.initial_x;
    let mut current_y: i32 = robot.initial_y;
    let mut current_direction: Direction = robot.initial_orientation;
    let mut i: usize = 0;
    let n = robot.commands.len();
    proof {
        assert(robot.commands@.skip(0) =~= robot.commands@);
    }
    while i < n
        invariant
            i <= n,
            n == robot.commands@.len(),
            sim(
                grid.max_x as int,
                grid.max_y as int,
                robot.initial_x as int,
                robot.initial_y as int,
                robot.initial_orientation,
                robot.commands@,
            ) == sim(
                grid.max_x as int,
                grid.max_y as int,
                current_x as int,
                current_y as int,
                current_direction,
                robot.commands@.skip(i as int),
            ),
        decreases n - i,
    {
        let command = &robot.commands[i];
        let (dx, dy): (i64, i64) = match command {
            Command::Forward => match current_direction {
                Direction::North => (0, 1),
                Direction::East => (1, 0),
                Direction::South => (0, -1),
                Direction::West => (-1, 0),
            },
            _ => (0, 0),
        };
        let next_direction: Direction = match command {
            Command::Forward => current_direction,
            Command::Left => match current_direction {
                Direction::North => Direction::West,
                Direction::East => Direction::North,
                Direction::South => Direction::East,
                Direction::West => Direction::South,
            },
            Command::Right => match current_direction {
                Direction::North => Direction::East,
                Direction::East => Direction::South,
                Direction::South => Direction::West,
                Direction::West => Direction::North,
            },
        };
        let nx: i64 = current_x as i64 + dx;
        let ny: i64 = current_y as i64 + dy;
        proof {
            let tail = robot.commands@.skip(i as int);
            assert(tail[0] == robot.commands@[i as int]);
            assert(nx as int == step_x(current_x as int, current_direction, tail[0]));
            assert(ny as int == step_y(current_y as int, current_direction, tail[0]));
            assert(next_direction == turn(current_direction, tail[0]));
        }
        if nx < 0 || nx > grid.max_x as i64 || ny < 0 || ny > grid.max_y as i64 {
            return Outcome {
                x: current_x,
                y: current_y,
                direction: current_direction,
                is_lost: true,
            };
        }
        proof {
            assert(robot.commands@.skip(i as int).drop_first() =~= robot.commands@.skip(
                i as int + 1,
            ));
        }
        current_x = nx as i32;
        current_y = ny as i32;
        current_direction = next_direction;
        i += 1;
    }
    Outcome { x: current_x, y: current_y, direction: current_direction, is_lost: false }
}

/// Whether `o` is the outcome that the grid line `gl` and the robot
/// line `rl` determine: both lines are well formed and `o` is the
/// replay of the denoted robot on the denoted grid.
pub open spec fn outcome_for(gl: Seq<char>, rl: Seq<char>, o: Outcome) -> bool {
    let i = first_match_from(rl, 0);
    let r = sim(
        grid_x_val(gl),
        grid_y_val(gl),
        robot_x_val(rl, i),
        robot_y_val(rl, i),
        robot_dir(rl, i),
        robot_cmds(rl, i),
    );
    &&& grid_ok(gl)
    &&& robot_ok(rl)
    &&& o.x as int == r.0
    &&& o.y as int == r.1
    &&& o.direction == r.2
    &&& o.is_lost == r.3
}

/// Processes a whole batch of lines: the first line is the grid, and
/// every following line one robot record, replayed independently, with
/// the outcomes in input order. The run stops at the first malformed
/// line; a batch with no lines at all has no grid line and is reported
/// as a malformed grid.
#[verifier::loop_isolation(false)]
pub fn process_instructions(lines: &Vec<String>) -> (r: Result<Vec<Outcome>, ParseError>)
    ensures
        match r {
            Ok(outcomes) => {
                &&& lines@.len() >= 1
                &&& grid_ok(lines@[0]@)
                &&& outcomes@.len() == lines@.len() - 1
                &&& forall|k: int|
                    0 <= k < outcomes@.len() ==> outcome_for(
                        lines@[0]@,
                        lines@[k + 1]@,
                        #[trigger] outcomes@[k],
                    )
            },
            Err(e) => {
                ||| (lines@.len() == 0 && e == ParseError::MalformedGrid)
                ||| (lines@.len() >= 1 && !grid_ok(lines@[0]@) && e == ParseError::MalformedGrid)
                ||| (lines@.len() >= 1 && grid_ok(lines@[0]@) && e == ParseError::MalformedRobot
                    && exists|k: int| 1 <= k < lines@.len() && !robot_ok(#[trigger] lines@[k]@))
            },
        },
{
    if lines.len() == 0 {
        return Err(ParseError::MalformedGrid);
    }
    let line0: &String = &lines[0];
    let grid = match Grid::parse(line0.clone()) {
        Ok(g) => g,
        Err(e) => {
            return Err(e);
        },
    };
    let mut outcomes: Vec<Outcome> = Vec::new();
    let mut i: usize = 1;
    while i < lines.len()
        invariant
            1 <= i <= lines@.len(),
            outcomes@.len() == i - 1,
            forall|k: int|
                0 <= k < i - 1 ==> outcome_for(lines@[0]@, lines@[k + 1]@, #[trigger] outcomes@[k]),
        decreases lines@.len() - i,
    {
        let line: &String = &lines[i];
        let robot = match Robot::parse(line.clone()) {
            Ok(rb) => rb,
            Err(e) => {
                proof {
                    assert(1 <= i as int && (i as int) < lines@.len() && !robot_ok(
                        lines@[i as int]@,
                    ));
                }
                return Err(e);
            },
        };
        let o = process(&grid, &robot);
        outcomes.push(o);
        i += 1;
    }
    Ok(outcomes)
}

} // verus!
