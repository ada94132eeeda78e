use std::collections::HashMap;

use gridworld::agent::{Action, RecordedCall, ScriptedAgent, Value};
use gridworld::environment::Env;
use gridworld::grid::{Color, GridSize};
use gridworld::position::{cell_of, key_of, Position};

const WALL: Color = Color { r: 40, g: 40, b: 40, a: 255 };
const GOAL: Color = Color { r: 0, g: 200, b: 0, a: 255 };
const ALL_ACTIONS: [Action; 4] = [Action::Up, Action::Down, Action::Left, Action::Right];

fn pos(x: i32, y: i32) -> Position {
    Position { x, y }
}

fn env_5x5(elements: Vec<(Position, Color)>) -> Env {
    Env::new(
        pos(0, 0),
        pos(4, 4),
        GridSize { width: 5, height: 5 },
        elements,
        &ALL_ACTIONS,
        HashMap::new(),
    )
}

fn drawn_sorted(env: &Env) -> Vec<(i32, i32, u8)> {
    let mut v: Vec<(i32, i32, u8)> =
        env.grid().persistent_elements().iter().map(|(p, c)| (p.x, p.y, c.g)).collect();
    v.sort();
    v
}

#[test]
fn valid_position_inside_and_on_every_edge() {
    let env = env_5x5(vec![]);
    assert!(env.valid_position(pos(0, 0)));
    assert!(env.valid_position(pos(4, 4)));
    assert!(env.valid_position(pos(2, 3)));
    assert!(!env.valid_position(pos(-1, 0)));
    assert!(!env.valid_position(pos(0, -1)));
    assert!(!env.valid_position(pos(5, 0)));
    assert!(!env.valid_position(pos(0, 5)));
    assert!(!env.valid_position(pos(i32::MIN, i32::MAX)));
}

#[test]
fn valid_position_on_a_non_square_grid() {
    let env = Env::new(
        pos(0, 0),
        pos(6, 1),
        GridSize { width: 7, height: 2 },
        vec![],
        &ALL_ACTIONS,
        HashMap::new(),
    );
    assert!(env.valid_position(pos(6, 1)));
    assert!(!env.valid_position(pos(1, 2)));
    assert!(!env.valid_position(pos(7, 1)));
}

#[test]
fn zero_sized_grid_has_no_valid_position() {
    let env = Env::new(
        pos(0, 0),
        pos(0, 0),
        GridSize { width: 0, height: 3 },
        vec![],
        &ALL_ACTIONS,
        HashMap::new(),
    );
    assert!(!env.valid_position(pos(0, 0)));
    assert!(!env.valid_position(pos(0, 1)));
}

#[test]
fn random_positions_stay_on_the_grid_and_cover_it() {
    let env = Env::new(
        pos(0, 0),
        pos(2, 1),
        GridSize { width: 3, height: 2 },
        vec![],
        &ALL_ACTIONS,
        HashMap::new(),
    );
    let mut seen = std::collections::HashSet::new();
    for _ in 0..2000 {
        let p = env.get_random_position();
        assert!(env.valid_position(p), "{:?}", p);
        seen.insert((p.x, p.y));
    }
    assert_eq!(seen.len(), 6);
}

#[test]
fn random_position_on_a_single_cell() {
    let env = Env::new(
        pos(0, 0),
        pos(0, 0),
        GridSize { width: 1, height: 1 },
        vec![],
        &ALL_ACTIONS,
        HashMap::new(),
    );
    for _ in 0..20 {
        assert_eq!(env.get_random_position(), pos(0, 0));
    }
}

#[test]
fn getters_give_the_size() {
    let env = Env::new(
        pos(1, 2),
        pos(3, 4),
        GridSize { width: 8, height: 6 },
        vec![],
        &ALL_ACTIONS,
        HashMap::new(),
    );
    assert_eq!(*env.get_width(), 8);
    assert_eq!(*env.get_heigth(), 6);
    assert_eq!(env.grid().start, pos(1, 2));
    assert_eq!(env.grid().end, pos(3, 4));
    assert_eq!(env.actions, ALL_ACTIONS.to_vec());
}

#[test]
fn new_keeps_the_later_of_two_elements_on_one_cell() {
    let env = env_5x5(vec![(pos(1, 1), WALL), (pos(2, 2), WALL), (pos(1, 1), GOAL)]);
    assert_eq!(env.get_persistent_element(pos(1, 1)), Some(GOAL));
    assert_eq!(env.get_persistent_element(pos(2, 2)), Some(WALL));
    assert_eq!(drawn_sorted(&env), vec![(1, 1, 200), (2, 2, 40)]);
}

#[test]
fn new_copies_the_stored_constants() {
    let mut data = HashMap::new();
    data.insert(0u32, Value::Int(-1));
    data.insert(7u32, Value::Flag(true));
    let env = Env::new(
        pos(0, 0),
        pos(4, 4),
        GridSize { width: 5, height: 5 },
        vec![],
        &ALL_ACTIONS,
        data,
    );
    assert_eq!(env.data.get(&0), Some(&Value::Int(-1)));
    assert_eq!(env.data.get(&7), Some(&Value::Flag(true)));
    assert_eq!(env.data.len(), 2);
}

#[test]
fn move_to_an_empty_cell_keeps_the_colour() {
    let mut env = env_5x5(vec![(pos(1, 1), WALL), (pos(3, 3), GOAL)]);
    env.move_persistent_element(pos(1, 1), pos(2, 1));
    assert!(!env.contains_persistent_element(pos(1, 1)));
    assert!(env.contains_persistent_element(pos(2, 1)));
    assert_eq!(env.get_persistent_element(pos(2, 1)), Some(WALL));
    assert_eq!(env.get_persistent_element(pos(3, 3)), Some(GOAL));
    assert_eq!(drawn_sorted(&env), vec![(2, 1, 40), (3, 3, 200)]);
}

#[test]
fn move_onto_an_occupied_cell_overwrites_it() {
    let mut env = env_5x5(vec![(pos(1, 1), WALL), (pos(3, 3), GOAL)]);
    env.move_persistent_element(pos(3, 3), pos(1, 1));
    assert_eq!(env.get_persistent_element(pos(1, 1)), Some(GOAL));
    assert!(!env.contains_persistent_element(pos(3, 3)));
    assert_eq!(drawn_sorted(&env), vec![(1, 1, 200)]);
}

#[test]
fn move_from_an_empty_cell_changes_nothing() {
    let mut env = env_5x5(vec![(pos(1, 1), WALL)]);
    env.move_persistent_element(pos(0, 4), pos(1, 1));
    assert_eq!(env.get_persistent_element(pos(1, 1)), Some(WALL));
    assert!(!env.contains_persistent_element(pos(0, 4)));
    assert_eq!(drawn_sorted(&env), vec![(1, 1, 40)]);
}

#[test]
fn move_to_the_same_cell_keeps_the_element() {
    let mut env = env_5x5(vec![(pos(1, 1), WALL)]);
    env.move_persistent_element(pos(1, 1), pos(1, 1));
    assert_eq!(env.get_persistent_element(pos(1, 1)), Some(WALL));
    assert_eq!(drawn_sorted(&env), vec![(1, 1, 40)]);
}

#[test]
fn insert_on_an_occupied_cell_overwrites_it() {
    let mut env = env_5x5(vec![]);
    assert_eq!(env.insert_persistent_element(pos(2, 0), WALL), None);
    assert_eq!(env.insert_persistent_element(pos(2, 0), GOAL), Some(WALL));
    assert_eq!(env.get_persistent_element(pos(2, 0)), Some(GOAL));
    assert_eq!(drawn_sorted(&env), vec![(2, 0, 200)]);
}

#[test]
fn insert_does_not_check_the_bounds() {
    let mut env = env_5x5(vec![]);
    env.insert_persistent_element(pos(-3, 9), WALL);
    assert!(env.contains_persistent_element(pos(-3, 9)));
    assert!(!env.valid_position(pos(-3, 9)));
}

#[test]
fn remove_returns_the_element_once() {
    let mut env = env_5x5(vec![(pos(4, 0), GOAL)]);
    assert_eq!(env.remove_persistent_element(pos(4, 0)), Some(GOAL));
    assert_eq!(env.remove_persistent_element(pos(4, 0)), None);
    assert!(!env.contains_persistent_element(pos(4, 0)));
    assert!(env.grid().persistent_elements().is_empty());
}

#[test]
fn cells_far_apart_do_not_collide() {
    let mut env = env_5x5(vec![]);
    env.insert_persistent_element(pos(i32::MIN, i32::MAX), WALL);
    env.insert_persistent_element(pos(i32::MAX, i32::MIN), GOAL);
    env.insert_persistent_element(pos(0, 0), GOAL);
    assert_eq!(env.get_persistent_element(pos(i32::MIN, i32::MAX)), Some(WALL));
    assert_eq!(env.get_persistent_element(pos(i32::MAX, i32::MIN)), Some(GOAL));
    assert!(!env.contains_persistent_element(pos(i32::MAX, i32::MAX)));
    assert_eq!(env.grid().persistent_elements().len(), 3);
}

#[test]
fn cell_keys_round_trip() {
    for p in [pos(0, 0), pos(-1, 1), pos(i32::MIN, i32::MIN), pos(i32::MAX, i32::MAX), pos(7, -9)] {
        assert_eq!(cell_of(key_of(p)), p);
    }
    assert_eq!(key_of(pos(0, 0)), 0x8000_0000_8000_0000);
    assert_eq!(key_of(pos(i32::MIN, i32::MIN)), 0);
    assert_eq!(key_of(pos(i32::MAX, i32::MAX)), u64::MAX);
    assert_ne!(key_of(pos(1, 0)), key_of(pos(0, 1)));
}

#[test]
fn step_reports_what_the_agent_computed() {
    let mut env = env_5x5(vec![(pos(0, 2), WALL)]);
    let old_state = Value::Cell(pos(2, 2));
    let next_state = Value::Cell(pos(2, 1));
    let mut agent = ScriptedAgent::new(old_state, Action::Up, (pos(2, 1), next_state, -1, false));
    let r = env.step(pos(2, 2), &mut agent);
    assert_eq!(r, (pos(2, 1), false));
    let actions = ALL_ACTIONS.to_vec();
    assert_eq!(
        agent.log,
        vec![
            RecordedCall::ChooseAction {
                state: old_state,
                actions: actions.clone(),
                action: Action::Up,
            },
            RecordedCall::Step {
                position: pos(2, 2),
                state: old_state,
                action: Action::Up,
                transition: (pos(2, 1), next_state, -1, false),
            },
            RecordedCall::Update {
                state: old_state,
                action: Action::Up,
                reward: -1,
                next_state,
                actions,
            },
            RecordedCall::UpdateState { next_state },
        ]
    );
    assert_eq!(agent.state, next_state);
}

#[test]
fn step_passes_done_on_and_leaves_the_environment_alone() {
    let mut env = env_5x5(vec![(pos(1, 3), WALL), (pos(4, 4), GOAL)]);
    let before = drawn_sorted(&env);
    let mut agent = ScriptedAgent::new(
        Value::Cell(pos(4, 3)),
        Action::Down,
        (pos(4, 4), Value::Cell(pos(4, 4)), 10, true),
    );
    let r = env.step(pos(4, 3), &mut agent);
    assert_eq!(r, (pos(4, 4), true));
    assert_eq!(r.0, env.grid().end);
    assert_eq!(drawn_sorted(&env), before);
    assert_eq!(env.get_persistent_element(pos(4, 4)), Some(GOAL));
    assert_eq!(env.get_persistent_element(pos(1, 3)), Some(WALL));
    assert_eq!(env.actions, ALL_ACTIONS.to_vec());
    assert_eq!(agent.log.len(), 4);
    assert_eq!(agent.state, Value::Cell(pos(4, 4)));
}

#[test]
fn two_steps_append_to_the_record() {
    let mut env = env_5x5(vec![]);
    let mut agent = ScriptedAgent::new(Value::Int(0), Action::Left, (pos(1, 0), Value::Int(1), 0, false));
    env.step(pos(2, 0), &mut agent);
    env.step(pos(1, 0), &mut agent);
    assert_eq!(agent.log.len(), 8);
    assert_eq!(
        agent.log[4],
        RecordedCall::ChooseAction { state: Value::Int(1), actions: ALL_ACTIONS.to_vec(), action: Action::Left }
    );
}
