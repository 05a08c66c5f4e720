use mars_robots::grid::Grid;
use mars_robots::outcome::Outcome;
use mars_robots::robot::Robot;
use mars_robots::sim::{process, process_instructions};
use mars_robots::vocab::{Command, Direction};

#[test]
fn test_parse_grid() {
    let expected = Grid { max_x: 4, max_y: 8 };
    let actual = Grid::parse("4 8".to_string()).unwrap();
    assert_eq!(expected, actual);
}

#[test]
fn test_parse_robot_1() {
    let expected = Robot {
        initial_x: 2,
        initial_y: 3,
        initial_orientation: Direction::East,
        commands: vec![
            Command::Left,
            Command::Forward,
            Command::Right,
            Command::Forward,
            Command::Forward,
        ],
    };
    let actual = Robot::parse("(2, 3, E) LFRFF".to_string()).unwrap();
    assert_eq!(expected, actual);
}

#[test]
fn test_process_1() {
    let robot = Robot {
        initial_x: 2,
        initial_y: 3,
        initial_orientation: Direction::East,
        commands: vec![
            Command::Left,
            Command::Forward,
            Command::Right,
            Command::Forward,
            Command::Forward,
        ],
    };
    let grid = Grid { max_x: 4, max_y: 8 };
    let outcome = process(&grid, &robot);
    assert_eq!(
        outcome,
        Outcome {
            x: 4,
            y: 4,
            direction: Direction::East,
            is_lost: false,
        }
    );
}

#[test]
fn test_process_2() {
    let robot = Robot {
        initial_x: 0,
        initial_y: 2,
        initial_orientation: Direction::North,
        commands: vec![
            Command::Forward,
            Command::Forward,
            Command::Left,
            Command::Forward,
            Command::Right,
            Command::Forward,
            Command::Forward,
        ],
    };
    let grid = Grid { max_x: 4, max_y: 8 };
    let outcome = process(&grid, &robot);
    assert_eq!(
        outcome,
        Outcome {
            x: 0,
            y: 4,
            direction: Direction::West,
            is_lost: true,
        }
    );
}

#[test]
fn test_display_outcome() {
    let outcome1 = Outcome {
        x: 1,
        y: 2,
        direction: Direction::South,
        is_lost: false,
    };
    assert_eq!(outcome1.format(), "(1, 2, S)");
    let outcome2 = Outcome {
        x: 3,
        y: 4,
        direction: Direction::West,
        is_lost: true,
    };
    assert_eq!(outcome2.format(), "(3, 4, W) LOST");
}

#[test]
fn test_input_1() {
    let expected = vec![
        Outcome {
            x: 4,
            y: 4,
            direction: Direction::East,
            is_lost: false,
        },
        Outcome {
            x: 0,
            y: 4,
            direction: Direction::West,
            is_lost: true,
        },
    ];
    let lines = vec![
        "4 8".to_string(),
        "(2, 3, E) LFRFF".to_string(),
        "(0, 2, N) FFLFRFF".to_string(),
    ];
    assert_eq!(expected, process_instructions(&lines).unwrap());
}

#[test]
fn test_input_2() {
    let expected = vec![
        Outcome {
            x: 2,
            y: 3,
            direction: Direction::West,
            is_lost: false,
        },
        Outcome {
            x: 1,
            y: 0,
            direction: Direction::South,
            is_lost: true,
        },
    ];
    let lines = vec![
        "4 8".to_string(),
        "(3, 3, W) F".to_string(),
        "(1, 1, S) FF".to_string(),
    ];
    assert_eq!(expected, process_instructions(&lines).unwrap());
}
