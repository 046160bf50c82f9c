//! The driver's state machine: RUNNING until the world reports that the
//! simulation has ended, then DONE. Each turn it maps the current world
//! snapshot to the command batch of the selected policy; the loop that
//! carries those commands to the server runs outside the library and
//! stops as soon as no batch is produced.

use vstd::prelude::*;
use vstd::string::StringExecFns;

use crate::policy::{random_policy, sweep_cmd_ok, sweep_policy, sweep_post, DirMemory};
use crate::state::State;

verus! {

/// The startup-time choice between the two policies.
#[derive(Clone, Copy, PartialEq, Eq, Structural, Debug)]
pub enum PolicyChoice {
    Random,
    Sweep,
}

/// The single optional command-line argument selects the policy: the value
/// `updown` means the sweep, anything else (or no argument) the random one.
pub fn choose_policy(arg: Option<&String>) -> (r: PolicyChoice)
    ensures
        (r == PolicyChoice::Sweep) <==> (arg matches Some(s) && s@ == "updown"@),
{
    match arg {
        Some(s) => {
            let pat: String = String::from_str("updown");
            if *s == pat {
                PolicyChoice::Sweep
            } else {
                PolicyChoice::Random
            }
        },
        None => PolicyChoice::Random,
    }
}

/// The driver's two states.
#[derive(Clone, Copy, PartialEq, Eq, Structural, Debug)]
pub enum Phase {
    Running,
    Done,
}

/// The driver: the chosen policy, the sweep's direction memory, and the
/// current phase.
pub struct Driver {
    pub policy: PolicyChoice,
    pub mem: DirMemory,
    pub phase: Phase,
}

impl Driver {
    /// A fresh driver in the RUNNING phase with an empty direction memory.
    pub fn new(policy: PolicyChoice) -> (d: Driver)
        ensures
            d.policy == policy,
            d.phase == Phase::Running,
            d.mem.wf(),
            d.mem@ == Map::<Seq<char>, bool>::empty(),
    {
        Driver { policy, mem: DirMemory::new(), phase: Phase::Running }
    }

    /// One driver iteration on the latest snapshot. On a world that is no
    /// longer running it moves to DONE at once and produces no batch, so
    /// no further step request is ever issued; on a running world it stays
    /// RUNNING and produces exactly the selected policy's batch.
    pub fn decide(&mut self, state: &State, num_floors: i32) -> (r: Option<Vec<crate::state::Command>>)
        requires
            old(self).phase == Phase::Running,
            old(self).mem.wf(),
        ensures
            final(self).policy == old(self).policy,
            final(self).mem.wf(),
            !state.running ==> r is None && final(self).phase == Phase::Done && final(self).mem
                == old(self).mem,
            state.running ==> r is Some && final(self).phase == Phase::Running,
            state.running ==> r->0@.len() == state.elevators@.len(),
            state.running ==> forall|i: int|
                0 <= i < state.elevators@.len() ==> #[trigger] r->0@[i].elevator_id@
                    == state.elevators@[i].id@,
            state.running && old(self).policy == PolicyChoice::Random ==> final(self).mem == old(
                self,
            ).mem,
            state.running && old(self).policy == PolicyChoice::Sweep ==> sweep_post(
                old(self).mem@,
                state.elevators@,
                state.requests@,
                num_floors as int,
                r->0@,
                final(self).mem@,
            ),
    {
        if !state.running {
            self.phase = Phase::Done;
            return None;
        }
        match self.policy {
            PolicyChoice::Random => Some(random_policy(state)),
            PolicyChoice::Sweep => {
                let ghost m0 = self.mem@;
                let commands = sweep_policy(state, num_floors, &mut self.mem);
                proof {
                    assert forall|i: int| 0 <= i < state.elevators@.len() implies #[trigger] commands@[i].elevator_id@
                        == state.elevators@[i].id@ by {
                        assert(sweep_cmd_ok(
                            m0,
                            state.elevators@,
                            state.requests@,
                            num_floors as int,
                            commands@,
                            i,
                        ));
                    }
                }
                Some(commands)
            },
        }
    }
}

} // verus!
