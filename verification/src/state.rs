//! The data model of one simulation turn: elevators, waiting requests,
//! commands, and the world snapshot the server returns each turn.

use vstd::prelude::*;

verus! {

/// One elevator as the server reports it: a unique identifier, the floor it
/// is on, and the floors whose in-car buttons are currently pressed.
#[derive(Clone)]
pub struct Elevator {
    pub id: String,
    pub floor: i32,
    pub buttons_pressed: Vec<i32>,
}

/// A waiting passenger's call: a floor and the direction they want to go
/// (`true` is up, `false` is down).
#[derive(Clone)]
pub struct Request {
    pub floor: i32,
    pub direction: bool,
}

/// One command issued to one elevator for one turn: the direction to face
/// (`true` is up) and the action (`true` is move, `false` is stop and open).
#[derive(Clone)]
pub struct Command {
    pub elevator_id: String,
    pub direction: bool,
    pub action: bool,
}

/// The world snapshot the server produces each turn. The client keeps only
/// the latest one; no history is retained.
#[derive(Clone)]
pub struct State {
    pub running: bool,
    pub elevators: Vec<Elevator>,
    pub requests: Vec<Request>,
    pub score: Option<i32>,
    pub replay_url: Option<String>,
    pub errors: Vec<String>,
}

/// The elevator identifiers in a snapshot are pairwise distinct; the server
/// keeps the set of elevators stable across the turns of a session.
pub open spec fn distinct_ids(elevs: Seq<Elevator>) -> bool {
    forall|i: int, j: int|
        0 <= i < elevs.len() && 0 <= j < elevs.len() && i != j ==> elevs[i].id@ != elevs[j].id@
}

} // verus!
