use mars_robots::errors::ParseError;
use mars_robots::grid::Grid;
use mars_robots::outcome::Outcome;
use mars_robots::robot::Robot;
use mars_robots::sim::{process, process_instructions};
use mars_robots::vocab::{Command, Direction};

fn run(grid_line: &str, robot_line: &str) -> String {
    let grid = Grid::parse(grid_line.to_string()).unwrap();
    let robot = Robot::parse(robot_line.to_string()).unwrap();
    process(&grid, &robot).format()
}

#[test]
fn scenario_in_bounds_run() {
    assert_eq!(run("4 8", "(2, 3, E) LFRFF"), "(4, 4, E)");
}

#[test]
fn scenario_lost_mid_run() {
    assert_eq!(run("4 8", "(0, 2, N) FFLFRFF"), "(0, 4, W) LOST");
}

#[test]
fn scenario_lost_on_first_command() {
    assert_eq!(run("4 8", "(0, 0, S) F"), "(0, 0, S) LOST");
}

#[test]
fn scenario_loss_discards_rest() {
    // after the first forward move is lost, the later L and F commands
    // must have no effect on the reported state
    assert_eq!(run("4 8", "(0, 0, S) FFLF"), "(0, 0, S) LOST");
}

#[test]
fn scenario_empty_command_list() {
    let grid = Grid { max_x: 4, max_y: 8 };
    let robot = Robot {
        initial_x: 2,
        initial_y: 3,
        initial_orientation: Direction::North,
        commands: vec![],
    };
    let outcome = process(&grid, &robot);
    assert_eq!(
        outcome,
        Outcome {
            x: 2,
            y: 3,
            direction: Direction::North,
            is_lost: false,
        }
    );
}

#[test]
fn four_right_turns_return_home() {
    assert_eq!(run("4 8", "(1, 1, N) RRRR"), "(1, 1, N)");
    assert_eq!(run("4 8", "(1, 1, E) RRRR"), "(1, 1, E)");
}

#[test]
fn four_left_turns_return_home() {
    assert_eq!(run("4 8", "(1, 1, W) LLLL"), "(1, 1, W)");
    assert_eq!(run("4 8", "(1, 1, S) LLLL"), "(1, 1, S)");
}

#[test]
fn left_undoes_right() {
    assert_eq!(run("4 8", "(1, 1, N) RL"), "(1, 1, N)");
    assert_eq!(run("4 8", "(1, 1, W) LR"), "(1, 1, W)");
}

#[test]
fn right_cycle_order() {
    assert_eq!(run("4 8", "(1, 1, N) R"), "(1, 1, E)");
    assert_eq!(run("4 8", "(1, 1, E) R"), "(1, 1, S)");
    assert_eq!(run("4 8", "(1, 1, S) R"), "(1, 1, W)");
    assert_eq!(run("4 8", "(1, 1, W) R"), "(1, 1, N)");
}

#[test]
fn format_lost_marker() {
    let kept = Outcome {
        x: 1,
        y: 2,
        direction: Direction::South,
        is_lost: false,
    };
    assert!(!kept.format().contains("LOST"));
    let lost = Outcome {
        x: 1,
        y: 2,
        direction: Direction::South,
        is_lost: true,
    };
    assert!(lost.format().ends_with(" LOST"));
}

#[test]
fn format_negative_coordinates() {
    let outcome = Outcome {
        x: -1,
        y: -23,
        direction: Direction::North,
        is_lost: false,
    };
    assert_eq!(outcome.format(), "(-1, -23, N)");
}

#[test]
fn grid_accepts_signs_and_spacing() {
    assert_eq!(
        Grid::parse("+4 -8".to_string()),
        Ok(Grid {
            max_x: 4,
            max_y: -8
        })
    );
    assert_eq!(
        Grid::parse("  4 \t 8  ".to_string()),
        Ok(Grid { max_x: 4, max_y: 8 })
    );
}

#[test]
fn grid_rejects_malformed_lines() {
    assert_eq!(Grid::parse("".to_string()), Err(ParseError::MalformedGrid));
    assert_eq!(Grid::parse("4".to_string()), Err(ParseError::MalformedGrid));
    assert_eq!(
        Grid::parse("4 8 15".to_string()),
        Err(ParseError::MalformedGrid)
    );
    assert_eq!(
        Grid::parse("a b".to_string()),
        Err(ParseError::MalformedGrid)
    );
    assert_eq!(
        Grid::parse("4.5 8".to_string()),
        Err(ParseError::MalformedGrid)
    );
    assert_eq!(
        Grid::parse("99999999999 8".to_string()),
        Err(ParseError::MalformedGrid)
    );
}

#[test]
fn robot_record_found_inside_line() {
    // the record may sit anywhere in the line, and the command run is
    // the maximal run of command letters after the gap
    let robot = Robot::parse("( (2, 3, E) LF tail".to_string()).unwrap();
    assert_eq!(robot.initial_x, 2);
    assert_eq!(robot.initial_y, 3);
    assert_eq!(robot.initial_orientation, Direction::East);
    assert_eq!(robot.commands, vec![Command::Left, Command::Forward]);
}

#[test]
fn robot_rejects_malformed_records() {
    assert_eq!(
        Robot::parse("LFRFF".to_string()),
        Err(ParseError::MalformedRobot)
    );
    assert_eq!(
        Robot::parse("(2, 3, X) LFRFF".to_string()),
        Err(ParseError::MalformedRobot)
    );
    assert_eq!(
        Robot::parse("(2,3,E) F".to_string()),
        Err(ParseError::MalformedRobot)
    );
    assert_eq!(
        Robot::parse("(2, 3, E)F".to_string()),
        Err(ParseError::MalformedRobot)
    );
    assert_eq!(
        Robot::parse("(2, 3, E) ".to_string()),
        Err(ParseError::MalformedRobot)
    );
    assert_eq!(
        Robot::parse("(99999999999, 3, E) F".to_string()),
        Err(ParseError::MalformedRobot)
    );
}

#[test]
fn batch_stops_at_first_malformed_line() {
    let lines = vec!["not a grid".to_string(), "(2, 3, E) F".to_string()];
    assert_eq!(
        process_instructions(&lines),
        Err(ParseError::MalformedGrid)
    );
    let lines = vec!["4 8".to_string(), "nonsense".to_string()];
    assert_eq!(
        process_instructions(&lines),
        Err(ParseError::MalformedRobot)
    );
    let no_lines: Vec<String> = vec![];
    assert_eq!(
        process_instructions(&no_lines),
        Err(ParseError::MalformedGrid)
    );
}
