use dianti::policy::{sweep_action, sweep_direction, sweep_policy, DirMemory};
use dianti::state::{Elevator, Request, State};

fn elevator(id: &str, floor: i32, buttons: Vec<i32>) -> Elevator {
    Elevator { id: id.to_string(), floor, buttons_pressed: buttons }
}

fn world(elevators: Vec<Elevator>, requests: Vec<Request>) -> State {
    State {
        running: true,
        elevators,
        requests,
        score: None,
        replay_url: None,
        errors: Vec::new(),
    }
}

#[test]
fn direction_flips_at_top() {
    assert_eq!(sweep_direction(Some(true), 10, 10), false);
}

#[test]
fn direction_flips_at_bottom() {
    assert_eq!(sweep_direction(Some(false), 1, 10), true);
}

#[test]
fn direction_kept_between_ends() {
    assert_eq!(sweep_direction(Some(true), 4, 10), true);
    assert_eq!(sweep_direction(Some(false), 4, 10), false);
}

#[test]
fn direction_defaults_to_up_on_first_sight() {
    assert_eq!(sweep_direction(None, 3, 10), true);
}

#[test]
fn first_sight_at_top_goes_down() {
    assert_eq!(sweep_direction(None, 10, 10), false);
}

#[test]
fn action_stops_on_pressed_button() {
    let e = elevator("E1", 4, vec![2, 4]);
    assert_eq!(sweep_action(&e, &Vec::new(), true), false);
    assert_eq!(sweep_action(&e, &Vec::new(), false), false);
    let reqs = vec![Request { floor: 7, direction: true }];
    assert_eq!(sweep_action(&e, &reqs, true), false);
}

#[test]
fn action_stops_on_request_in_travel_direction() {
    let e = elevator("E1", 4, vec![2]);
    let reqs = vec![Request { floor: 4, direction: true }];
    assert_eq!(sweep_action(&e, &reqs, true), false);
    assert_eq!(sweep_action(&e, &reqs, false), true);
}

#[test]
fn action_moves_when_nothing_calls() {
    let e = elevator("E1", 4, vec![2, 6]);
    let reqs = vec![Request { floor: 5, direction: true }];
    assert_eq!(sweep_action(&e, &reqs, true), true);
}

#[test]
fn sweep_moves_up_from_ground_with_no_calls() {
    let state = world(vec![elevator("E1", 1, Vec::new())], Vec::new());
    let mut mem = DirMemory::new();
    let commands = sweep_policy(&state, 5, &mut mem);
    assert_eq!(commands.len(), 1);
    assert_eq!(commands[0].elevator_id, "E1");
    assert_eq!(commands[0].direction, true);
    assert_eq!(commands[0].action, true);
}

#[test]
fn sweep_remembers_direction_across_turns() {
    let mut mem = DirMemory::new();
    let top = world(vec![elevator("E1", 5, Vec::new())], Vec::new());
    let commands = sweep_policy(&top, 5, &mut mem);
    assert_eq!(commands[0].direction, false);
    let below = world(vec![elevator("E1", 4, Vec::new())], Vec::new());
    let commands = sweep_policy(&below, 5, &mut mem);
    assert_eq!(commands[0].direction, false);
    let ground = world(vec![elevator("E1", 1, Vec::new())], Vec::new());
    let commands = sweep_policy(&ground, 5, &mut mem);
    assert_eq!(commands[0].direction, true);
}

#[test]
fn sweep_keeps_one_direction_per_elevator() {
    let mut mem = DirMemory::new();
    let state = world(
        vec![elevator("A", 3, Vec::new()), elevator("B", 1, Vec::new())],
        Vec::new(),
    );
    let commands = sweep_policy(&state, 3, &mut mem);
    assert_eq!(commands.len(), 2);
    assert_eq!(commands[0].elevator_id, "A");
    assert_eq!(commands[1].elevator_id, "B");
    assert_eq!(commands[0].direction, false);
    assert_eq!(commands[1].direction, true);
    assert_eq!(mem.get(&"A".to_string()), Some(false));
    assert_eq!(mem.get(&"B".to_string()), Some(true));
}

#[test]
fn memory_overwrites_and_separates_keys() {
    let mut mem = DirMemory::new();
    assert_eq!(mem.get(&"A".to_string()), None);
    mem.set(&"A".to_string(), true);
    mem.set(&"B".to_string(), false);
    assert_eq!(mem.get(&"A".to_string()), Some(true));
    assert_eq!(mem.get(&"B".to_string()), Some(false));
    mem.set(&"A".to_string(), false);
    assert_eq!(mem.get(&"A".to_string()), Some(false));
    assert_eq!(mem.get(&"B".to_string()), Some(false));
}
