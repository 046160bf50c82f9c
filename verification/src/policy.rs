//! The two decision policies: a random policy and a fixed up/down sweep.
//!
//! Each policy maps the current world snapshot to one command per elevator.
//! The sweep policy additionally carries one remembered direction per
//! elevator identifier across turns.

use vstd::prelude::*;

use crate::state::{Command, Elevator, Request, State};

verus! {

/// The sweep's direction rule: keep the remembered direction (up on first
/// sight), but flip to down at the top floor and to up at floor 1.
pub open spec fn spec_sweep_direction(prev: Option<bool>, floor: int, num_floors: int) -> bool {
    let d = match prev {
        Some(b) => b,
        None => true,
    };
    if d && floor == num_floors {
        false
    } else if !d && floor == 1 {
        true
    } else {
        d
    }
}

/// Some waiting request at this floor asks for the direction `dir`.
pub open spec fn request_matches(reqs: Seq<Request>, floor: i32, dir: bool) -> bool {
    exists|i: int| 0 <= i < reqs.len() && reqs[i].floor == floor && reqs[i].direction == dir
}

/// The sweep's action rule: stop (`false`) when the current floor has a
/// pressed button or a waiting request in the travel direction; otherwise
/// move (`true`).
pub open spec fn spec_sweep_action(e: Elevator, reqs: Seq<Request>, dir: bool) -> bool {
    !(e.buttons_pressed@.contains(e.floor) || request_matches(reqs, e.floor, dir))
}

/// Executable form of the direction rule.
pub fn sweep_direction(prev: Option<bool>, floor: i32, num_floors: i32) -> (r: bool)
    ensures
        r == spec_sweep_direction(prev, floor as int, num_floors as int),
{
    let d = match prev {
        Some(b) => b,
        None => true,
    };
    if d && floor == num_floors {
        false
    } else if !d && floor == 1 {
        true
    } else {
        d
    }
}

/// Executable form of the action rule.
pub fn sweep_action(e: &Elevator, requests: &Vec<Request>, dir: bool) -> (r: bool)
    ensures
        r == spec_sweep_action(*e, requests@, dir),
{
    let mut i: usize = 0;
    while i < e.buttons_pressed.len()
        invariant
            i <= e.buttons_pressed.len(),
            forall|j: int| 0 <= j < i ==> e.buttons_pressed@[j] != e.floor,
        decreases e.buttons_pressed.len() - i,
    {
        if e.buttons_pressed[i] == e.floor {
            return false;
        }
        i += 1;
    }
    let mut k: usize = 0;
    while k < requests.len()
        invariant
            k <= requests.len(),
            forall|j: int|
                0 <= j < k ==> !(requests@[j].floor == e.floor && requests@[j].direction == dir),
        decreases requests.len() - k,
    {
        if requests[k].floor == e.floor && requests[k].direction == dir {
            return false;
        }
        k += 1;
    }
    true
}

/// The keys of an association list of remembered directions are pairwise
/// distinct.
pub open spec fn distinct_keys(s: Seq<(String, bool)>) -> bool {
    forall|i: int, j: int| 0 <= i < j < s.len() ==> s[i].0@ != s[j].0@
}

/// The mapping an association list stands for (later entries win; with
/// distinct keys the order never matters).
pub closed spec fn entries_map(s: Seq<(String, bool)>) -> Map<Seq<char>, bool>
    decreases s.len(),
{
    if s.len() == 0 {
        Map::empty()
    } else {
        entries_map(s.drop_last()).insert(s.last().0@, s.last().1)
    }
}

/// A key that appears in no entry is not in the mapping.
proof fn lemma_entries_map_absent(s: Seq<(String, bool)>, k: Seq<char>)
    requires
        forall|i: int| 0 <= i < s.len() ==> s[i].0@ != k,
    ensures
        !entries_map(s).dom().contains(k),
    decreases s.len(),
{
    if s.len() > 0 {
        assert(forall|i: int| 0 <= i < s.drop_last().len() ==> s.drop_last()[i].0@ != k);
        lemma_entries_map_absent(s.drop_last(), k);
    }
}

/// With distinct keys, the entry at index `i` gives the mapping's value at
/// its key.
proof fn lemma_entries_map_present(s: Seq<(String, bool)>, i: int)
    requires
        distinct_keys(s),
        0 <= i < s.len(),
    ensures
        entries_map(s).dom().contains(s[i].0@),
        entries_map(s)[s[i].0@] == s[i].1,
    decreases s.len(),
{
    if i < s.len() - 1 {
        assert(distinct_keys(s.drop_last()));
        lemma_entries_map_present(s.drop_last(), i);
        assert(s.last().0@ != s[i].0@);
    }
}

/// Overwriting the entry at index `i` with the same key updates the mapping
/// at that key alone.
proof fn lemma_entries_map_update(s: Seq<(String, bool)>, i: int, e: (String, bool))
    requires
        distinct_keys(s),
        0 <= i < s.len(),
        e.0@ == s[i].0@,
    ensures
        entries_map(s.update(i, e)) == entries_map(s).insert(e.0@, e.1),
    decreases s.len(),
{
    let t = s.update(i, e);
    if i == s.len() - 1 {
        assert(t.drop_last() =~= s.drop_last());
        assert(t.last() == e);
        assert(entries_map(t) =~= entries_map(s).insert(e.0@, e.1));
    } else {
        assert(distinct_keys(s.drop_last()));
        assert(t.drop_last() =~= s.drop_last().update(i, e));
        assert(t.last() == s.last());
        lemma_entries_map_update(s.drop_last(), i, e);
        assert(s.last().0@ != e.0@);
        assert(entries_map(t) =~= entries_map(s).insert(e.0@, e.1));
    }
}

/// The sweep policy's persistent memory: one remembered direction per
/// elevator identifier, viewed as a mapping from identifier to direction.
pub struct DirMemory {
    entries: Vec<(String, bool)>,
}

impl View for DirMemory {
    type V = Map<Seq<char>, bool>;

    closed spec fn view(&self) -> Map<Seq<char>, bool> {
        entries_map(self.entries@)
    }
}

/// The remembered direction for `id`, if one is held.
pub open spec fn mem_lookup(m: Map<Seq<char>, bool>, id: Seq<char>) -> Option<bool> {
    if m.dom().contains(id) {
        Some(m[id])
    } else {
        None
    }
}

impl DirMemory {
    /// Each identifier is held at most once.
    pub closed spec fn wf(&self) -> bool {
        distinct_keys(self.entries@)
    }

    /// An empty memory: no elevator has been seen yet.
    pub fn new() -> (m: DirMemory)
        ensures
            m.wf(),
            m@ == Map::<Seq<char>, bool>::empty(),
    {
        DirMemory { entries: Vec::new() }
    }

    /// The remembered direction for `id`, if any.
    pub fn get(&self, id: &String) -> (r: Option<bool>)
        requires
            self.wf(),
        ensures
            r == mem_lookup(self@, id@),
    {
        let mut i: usize = 0;
        while i < self.entries.len()
            invariant
                self.wf(),
                i <= self.entries.len(),
                forall|j: int| 0 <= j < i ==> self.entries@[j].0@ != id@,
            decreases self.entries.len() - i,
        {
            if self.entries[i].0 == *id {
                proof {
                    lemma_entries_map_present(self.entries@, i as int);
                }
                return Some(self.entries[i].1);
            }
            i += 1;
        }
        proof {
            lemma_entries_map_absent(self.entries@, id@);
        }
        None
    }

    /// Remember direction `dir` for `id`, replacing any earlier entry.
    pub fn set(&mut self, id: &String, dir: bool)
        requires
            old(self).wf(),
        ensures
            final(self).wf(),
            final(self)@ == old(self)@.insert(id@, dir),
    {
        let mut i: usize = 0;
        while i < self.entries.len()
            invariant
                self.wf(),
                self.entries@ == old(self).entries@,
                i <= self.entries.len(),
                forall|j: int| 0 <= j < i ==> self.entries@[j].0@ != id@,
            decreases self.entries.len() - i,
        {
            if self.entries[i].0 == *id {
                let key = self.entries[i].0.clone();
                let ghost s = self.entries@;
                self.entries[i] = (key, dir);
                proof {
                    lemma_entries_map_update(s, i as int, (key, dir));
                    assert(distinct_keys(self.entries@));
                }
                return;
            }
            i += 1;
        }
        let ghost s = self.entries@;
        self.entries.push((id.clone(), dir));
        proof {
            assert(self.entries@.drop_last() =~= s);
            assert(distinct_keys(self.entries@));
        }
    }
}

/// The direction the sweep commands for elevator `e` when the memory holds
/// the mapping `m`.
pub open spec fn sweep_dir_of(m: Map<Seq<char>, bool>, e: Elevator, num_floors: int) -> bool {
    spec_sweep_direction(mem_lookup(m, e.id@), e.floor as int, num_floors)
}

/// The memory after the sweep has processed the elevators of one turn in
/// order, starting from the mapping `m`.
pub open spec fn sweep_mem_after(m: Map<Seq<char>, bool>, elevs: Seq<Elevator>, num_floors: int) -> Map<
    Seq<char>,
    bool,
>
    decreases elevs.len(),
{
    if elevs.len() == 0 {
        m
    } else {
        let prev = sweep_mem_after(m, elevs.drop_last(), num_floors);
        prev.insert(elevs.last().id@, sweep_dir_of(prev, elevs.last(), num_floors))
    }
}

/// Command `i` of a sweep batch is the one the rules give: its direction
/// comes from the memory as it stood when elevator `i` was reached, and its
/// action from the action rule under that direction.
pub open spec fn sweep_cmd_ok(
    m0: Map<Seq<char>, bool>,
    elevs: Seq<Elevator>,
    reqs: Seq<Request>,
    num_floors: int,
    cmds: Seq<Command>,
    i: int,
) -> bool {
    let mi = sweep_mem_after(m0, elevs.take(i), num_floors);
    let dir = sweep_dir_of(mi, elevs[i], num_floors);
    &&& cmds[i].elevator_id@ == elevs[i].id@
    &&& cmds[i].direction == dir
    &&& cmds[i].action == spec_sweep_action(elevs[i], reqs, dir)
}

/// Everything one sweep call promises: one command per elevator, each by
/// the rules, and the memory advanced over the whole batch.
pub open spec fn sweep_post(
    m0: Map<Seq<char>, bool>,
    elevs: Seq<Elevator>,
    reqs: Seq<Request>,
    num_floors: int,
    cmds: Seq<Command>,
    m1: Map<Seq<char>, bool>,
) -> bool {
    &&& cmds.len() == elevs.len()
    &&& (forall|i: int| 0 <= i < elevs.len() ==> sweep_cmd_ok(m0, elevs, reqs, num_floors, cmds, i))
    &&& m1 == sweep_mem_after(m0, elevs, num_floors)
}

/// One turn of the sweep policy: one command per elevator, in the order the
/// snapshot lists them, threading the remembered directions through `mem`.
pub fn sweep_policy(state: &State, num_floors: i32, mem: &mut DirMemory) -> (r: Vec<Command>)
    requires
        old(mem).wf(),
    ensures
        final(mem).wf(),
        sweep_post(
            old(mem)@,
            state.elevators@,
            state.requests@,
            num_floors as int,
            r@,
            final(mem)@,
        ),
{
    let ghost m0 = mem@;
    let mut commands: Vec<Command> = Vec::new();
    let mut idx: usize = 0;
    while idx < state.elevators.len()
        invariant
            mem.wf(),
            idx <= state.elevators.len(),
            commands@.len() == idx,
            mem@ == sweep_mem_after(m0, state.elevators@.take(idx as int), num_floors as int),
            forall|i: int|
                0 <= i < idx ==> sweep_cmd_ok(
                    m0,
                    state.elevators@,
                    state.requests@,
                    num_floors as int,
                    commands@,
                    i,
                ),
        decreases state.elevators.len() - idx,
    {
        let ghost prefix = commands@;
        let e = &state.elevators[idx];
        let prev = mem.get(&e.id);
        let dir = sweep_direction(prev, e.floor, num_floors);
        mem.set(&e.id, dir);
        let action = sweep_action(e, &state.requests, dir);
        commands.push(Command { elevator_id: e.id.clone(), direction: dir, action });
        proof {
            let elevs = state.elevators@;
            let nf = num_floors as int;
            assert(elevs.take(idx + 1).drop_last() =~= elevs.take(idx as int));
            assert(elevs.take(idx + 1).last() == elevs[idx as int]);
            assert(commands@[idx as int].elevator_id@ == elevs[idx as int].id@);
            assert forall|i: int| 0 <= i < idx + 1 implies sweep_cmd_ok(
                m0,
                elevs,
                state.requests@,
                nf,
                commands@,
                i,
            ) by {
                if i < idx {
                    assert(sweep_cmd_ok(m0, elevs, state.requests@, nf, prefix, i));
                    assert(commands@[i] == prefix[i]);
                } else {
                    assert(commands@[i].elevator_id@ == elevs[i].id@);
                }
            }
        }
        idx += 1;
    }
    proof {
        assert(state.elevators@.take(state.elevators@.len() as int) =~= state.elevators@);
    }
    commands
}

/// Relies on rand::random::<bool>: one fresh draw from the thread-local
/// generator. Nothing is promised of the outcome.
#[verifier::external_body]
fn coin() -> bool {
    rand::random::<bool>()
}

/// The command the random policy issues once its two draws are fixed:
/// verified for every pair of drawn values.
pub fn random_command(id: &String, dir: bool, act: bool) -> (c: Command)
    ensures
        c.elevator_id@ == id@,
        c.direction == dir,
        c.action == act,
{
    Command { elevator_id: id.clone(), direction: dir, action: act }
}

/// One turn of the random policy: one command per elevator, direction and
/// action drawn independently; only the batch's shape can be promised.
pub fn random_policy(state: &State) -> (r: Vec<Command>)
    ensures
        r@.len() == state.elevators@.len(),
        forall|i: int| 0 <= i < r@.len() ==> r@[i].elevator_id@ == state.elevators@[i].id@,
{
    let mut commands: Vec<Command> = Vec::new();
    let mut idx: usize = 0;
    while idx < state.elevators.len()
        invariant
            idx <= state.elevators.len(),
            commands@.len() == idx,
            forall|i: int|
                0 <= i < idx ==> commands@[i].elevator_id@ == state.elevators@[i].id@,
        decreases state.elevators.len() - idx,
    {
        let e = &state.elevators[idx];
        let dir = coin();
        let act = coin();
        commands.push(random_command(&e.id, dir, act));
        idx += 1;
    }
    commands
}

/// The sweep's flip rule at the building's ends: an elevator moving up at
/// the top floor is commanded down, and one moving down at floor 1 is
/// commanded up.
pub proof fn lemma_sweep_reverses_at_ends(prev: Option<bool>, floor: int, num_floors: int)
    ensures
        prev == Some(true) && floor == num_floors ==> !spec_sweep_direction(
            prev,
            floor,
            num_floors,
        ),
        prev == Some(false) && floor == 1 ==> spec_sweep_direction(prev, floor, num_floors),
{
}

/// A pressed button on the current floor always commands a stop, whatever
/// the direction and whatever the waiting requests.
pub proof fn lemma_stop_on_pressed_button(e: Elevator, reqs: Seq<Request>, dir: bool)
    requires
        e.buttons_pressed@.contains(e.floor),
    ensures
        !spec_sweep_action(e, reqs, dir),
{
}

/// In any batch the sweep produced, the command for an elevator that
/// stands at the top floor while remembered as moving up (or not yet
/// remembered, which counts as up) is directed down, and the command for
/// one at floor 1 remembered as moving down is directed up.
pub proof fn lemma_batch_reverses_at_ends(
    m0: Map<Seq<char>, bool>,
    elevs: Seq<Elevator>,
    reqs: Seq<Request>,
    num_floors: int,
    cmds: Seq<Command>,
    m1: Map<Seq<char>, bool>,
    i: int,
)
    requires
        sweep_post(m0, elevs, reqs, num_floors, cmds, m1),
        0 <= i < elevs.len(),
    ensures
        mem_lookup(sweep_mem_after(m0, elevs.take(i), num_floors), elevs[i].id@) != Some(false)
            && elevs[i].floor == num_floors ==> !cmds[i].direction,
        mem_lookup(sweep_mem_after(m0, elevs.take(i), num_floors), elevs[i].id@) == Some(false)
            && elevs[i].floor == 1 ==> cmds[i].direction,
{
    assert(sweep_cmd_ok(m0, elevs, reqs, num_floors, cmds, i));
}

/// In any batch the sweep produced, the command for an elevator whose
/// current floor is among its pressed buttons is a stop, whatever its
/// direction and whatever the waiting requests.
pub proof fn lemma_batch_stops_on_pressed_button(
    m0: Map<Seq<char>, bool>,
    elevs: Seq<Elevator>,
    reqs: Seq<Request>,
    num_floors: int,
    cmds: Seq<Command>,
    m1: Map<Seq<char>, bool>,
    i: int,
)
    requires
        sweep_post(m0, elevs, reqs, num_floors, cmds, m1),
        0 <= i < elevs.len(),
        elevs[i].buttons_pressed@.contains(elevs[i].floor),
    ensures
        !cmds[i].action,
{
    assert(sweep_cmd_ok(m0, elevs, reqs, num_floors, cmds, i));
}

} // verus!
