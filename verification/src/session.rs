//! Session bookkeeping: the registration handshake's two sides as plain
//! values, the per-session token and turn counter, and the body of each
//! step request. The transport that carries these over the wire lives
//! outside the library.

use vstd::prelude::*;

use crate::state::{Command, Elevator, Request, State};

verus! {

/// The registration request's fields, exactly as they are sent.
pub struct RegistrationRequest {
    pub bot: String,
    pub building_name: String,
    pub email: String,
    pub event: String,
    pub sandbox: bool,
}

/// Build a registration request from the startup constants.
pub fn registration_request(
    event: String,
    building_name: String,
    bot: String,
    email: String,
    sandbox: bool,
) -> (r: RegistrationRequest)
    ensures
        r.bot@ == bot@,
        r.building_name@ == building_name@,
        r.email@ == email@,
        r.event@ == event@,
        r.sandbox == sandbox,
{
    RegistrationRequest { bot, building_name, email, event, sandbox }
}

/// A successful registration response: the session token and floor count
/// beside the first world snapshot's fields.
pub struct Registration {
    pub token: String,
    pub num_floors: i32,
    pub running: bool,
    pub elevators: Vec<Elevator>,
    pub requests: Vec<Request>,
    pub score: Option<i32>,
    pub replay_url: Option<String>,
    pub errors: Vec<String>,
}

/// The body of one step request: the session token echoed beside the full
/// command batch of the turn.
pub struct StepRequest {
    pub token: String,
    pub commands: Vec<Command>,
}

/// One session: the token the server issued at registration, the floor
/// count, and a local turn counter kept for logging only.
pub struct Simulation {
    pub api_url: String,
    pub initial_state: State,
    pub num_floors: i32,
    pub cur_turn: i32,
    pub token: String,
}

/// The turn counter after one more turn; it saturates rather than wrap,
/// since the server is authoritative on turn numbering anyway.
pub open spec fn spec_next_turn(n: i32) -> i32 {
    if n == i32::MAX {
        n
    } else {
        (n + 1) as i32
    }
}

/// What one `prepare_step` call does to a session: only the turn counter
/// moves; the token, floor count and the rest are kept as they are.
pub open spec fn step_rel(pre: Simulation, post: Simulation) -> bool {
    &&& post.api_url@ == pre.api_url@
    &&& post.initial_state == pre.initial_state
    &&& post.num_floors == pre.num_floors
    &&& post.cur_turn == spec_next_turn(pre.cur_turn)
    &&& post.token@ == pre.token@
}

impl Simulation {
    /// Split a registration response into the session and its first world
    /// snapshot, as the handshake defines them.
    pub fn new(api_url: String, reg: Registration) -> (s: Simulation)
        ensures
            s.api_url@ == api_url@,
            s.token@ == reg.token@,
            s.num_floors == reg.num_floors,
            s.cur_turn == 0,
            s.initial_state.running == reg.running,
            s.initial_state.elevators == reg.elevators,
            s.initial_state.requests == reg.requests,
            s.initial_state.score == reg.score,
            s.initial_state.replay_url == reg.replay_url,
            s.initial_state.errors == reg.errors,
    {
        let initial_state = State {
            running: reg.running,
            elevators: reg.elevators,
            requests: reg.requests,
            score: reg.score,
            replay_url: reg.replay_url,
            errors: reg.errors,
        };
        Simulation {
            api_url,
            initial_state,
            num_floors: reg.num_floors,
            cur_turn: 0,
            token: reg.token,
        }
    }

    /// Advance the local turn counter and build the body of the next step
    /// request; the token is echoed unmodified.
    pub fn prepare_step(&mut self, commands: Vec<Command>) -> (r: StepRequest)
        ensures
            step_rel(*old(self), *final(self)),
            r.token@ == old(self).token@,
            r.commands == commands,
    {
        if self.cur_turn < i32::MAX {
            self.cur_turn = self.cur_turn + 1;
        }
        StepRequest { token: self.token.clone(), commands }
    }
}

/// Along a chain of sessions each related to the next by one step, the
/// token never changes from the first session's.
proof fn lemma_token_constant(sessions: Seq<Simulation>, i: int)
    requires
        forall|j: int| 0 <= j < sessions.len() - 1 ==> #[trigger] step_rel(sessions[j], sessions[j + 1]),
        0 <= i < sessions.len(),
    ensures
        sessions[i].token@ == sessions[0].token@,
    decreases i,
{
    if i > 0 {
        lemma_token_constant(sessions, i - 1);
        let j: int = i - 1;
        assert(step_rel(sessions[j], sessions[j + 1]));
    }
}

/// The token round trip: a session created from a registration response
/// carrying token `t` echoes `t` verbatim in every subsequent step
/// request, however many turns are taken. `sessions` is the session's
/// value before each turn and `reqs` the step request bodies those turns
/// produced, as `prepare_step` relates them.
pub proof fn lemma_token_echoed(
    reg: Registration,
    sessions: Seq<Simulation>,
    reqs: Seq<StepRequest>,
)
    requires
        sessions.len() == reqs.len() + 1,
        sessions.len() >= 1,
        sessions[0].token@ == reg.token@,
        forall|j: int| 0 <= j < reqs.len() ==> #[trigger] step_rel(sessions[j], sessions[j + 1]),
        forall|j: int| 0 <= j < reqs.len() ==> reqs[j].token@ == sessions[j].token@,
    ensures
        forall|j: int| 0 <= j < reqs.len() ==> reqs[j].token@ == reg.token@,
{
    assert forall|j: int| 0 <= j < reqs.len() implies reqs[j].token@ == reg.token@ by {
        lemma_token_constant(sessions, j);
    }
}

} // verus!
