use dianti::driver::{choose_policy, Driver, Phase, PolicyChoice};
use dianti::state::{Elevator, Request, State};

fn world(running: bool) -> State {
    State {
        running,
        elevators: vec![Elevator {
            id: "E1".to_string(),
            floor: 1,
            buttons_pressed: Vec::new(),
        }],
        requests: Vec::new(),
        score: Some(42),
        replay_url: Some("https://example.invalid/replay".to_string()),
        errors: Vec::new(),
    }
}

#[test]
fn updown_argument_selects_the_sweep() {
    assert_eq!(choose_policy(Some(&"updown".to_string())), PolicyChoice::Sweep);
}

#[test]
fn any_other_argument_selects_random() {
    assert_eq!(choose_policy(Some(&"greedy".to_string())), PolicyChoice::Random);
    assert_eq!(choose_policy(Some(&"".to_string())), PolicyChoice::Random);
    assert_eq!(choose_policy(None), PolicyChoice::Random);
}

#[test]
fn stopped_world_ends_the_loop_at_once() {
    let mut driver = Driver::new(PolicyChoice::Sweep);
    let decision = driver.decide(&world(false), 5);
    assert!(decision.is_none());
    assert_eq!(driver.phase, Phase::Done);
}

#[test]
fn running_world_yields_one_command_per_elevator() {
    let mut driver = Driver::new(PolicyChoice::Random);
    let decision = driver.decide(&world(true), 5);
    let commands = decision.expect("a running world must yield a batch");
    assert_eq!(driver.phase, Phase::Running);
    assert_eq!(commands.len(), 1);
    assert_eq!(commands[0].elevator_id, "E1");
}

#[test]
fn sweep_driver_moves_up_from_ground() {
    let mut driver = Driver::new(PolicyChoice::Sweep);
    let state = State {
        running: true,
        elevators: vec![Elevator {
            id: "E1".to_string(),
            floor: 1,
            buttons_pressed: Vec::new(),
        }],
        requests: Vec::new(),
        score: None,
        replay_url: None,
        errors: Vec::new(),
    };
    let commands = driver.decide(&state, 5).expect("running world");
    assert_eq!(commands.len(), 1);
    assert_eq!(commands[0].elevator_id, "E1");
    assert_eq!(commands[0].direction, true);
    assert_eq!(commands[0].action, true);
}

#[test]
fn sweep_driver_stops_for_a_matching_request() {
    let mut driver = Driver::new(PolicyChoice::Sweep);
    let state = State {
        running: true,
        elevators: vec![Elevator {
            id: "E1".to_string(),
            floor: 3,
            buttons_pressed: Vec::new(),
        }],
        requests: vec![Request { floor: 3, direction: true }],
        score: None,
        replay_url: None,
        errors: Vec::new(),
    };
    let commands = driver.decide(&state, 5).expect("running world");
    assert_eq!(commands[0].direction, true);
    assert_eq!(commands[0].action, false);
}
