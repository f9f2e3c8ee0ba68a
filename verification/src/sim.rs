//! The simulation owner: agent collection, tick counter, id allocator and
//! event queue.
//!
//! Requests arriving during a tick are queued and applied only at the
//! start of the next tick's compute phase. A tick then runs the compute
//! phase over the frozen snapshot and commits all results at once: no
//! agent ever reads a neighbor's freshly updated state.

use vstd::prelude::*;
use crate::boid::{vel_from_seed, Boid};
use crate::params::{Params, MAX_AGENTS, MAX_DIM, POS_LIMIT};
use crate::systems::{step_agent_spec, CollisionSystem, MovementSystem};
use crate::vec2::{Vec2I, SCALE};

verus! {

/// Ceiling of the id allocator. Ids are never reused; a spawn request
/// arriving with the id space exhausted is rejected like one beyond the
/// population ceiling. At one spawn per nanosecond the ceiling is tens of
/// thousands of years away.
pub const ID_LIMIT: u64 = 0x4000_0000_0000_0000;

/// A request arriving during a tick, applied at the start of the next.
#[derive(Clone, Copy, Debug, PartialEq)]
pub enum Event {
    /// Append a new agent at a position; `seed` determines its initial
    /// velocity and its opaque flock tag.
    Spawn { x: i64, y: i64, seed: u64 },
    /// Give one agent (`Some` id) or every agent (`None`) a goal point.
    SetGoal { target: Option<u64>, x: i64, y: i64 },
    /// Take the goal away from one agent or from every agent.
    ClearGoal { target: Option<u64> },
}

impl Event {
    /// An acceptable request: coordinates within the machine guards.
    pub open spec fn wf(self) -> bool {
        match self {
            Event::Spawn { x, y, seed: _ } => -POS_LIMIT <= x <= POS_LIMIT && -POS_LIMIT <= y
                <= POS_LIMIT,
            Event::SetGoal { target: _, x, y } => -MAX_DIM <= x <= MAX_DIM && -MAX_DIM <= y
                <= MAX_DIM,
            Event::ClearGoal { target: _ } => true,
        }
    }

    /// Runtime check of `wf`, for a host that assembles a request from
    /// outside input.
    pub fn check(&self) -> (r: bool)
        ensures
            r == self.wf(),
    {
        match *self {
            Event::Spawn { x, y, seed: _ } => -POS_LIMIT <= x && x <= POS_LIMIT && -POS_LIMIT <= y
                && y <= POS_LIMIT,
            Event::SetGoal { target: _, x, y } => -MAX_DIM <= x && x <= MAX_DIM && -MAX_DIM <= y
                && y <= MAX_DIM,
            Event::ClearGoal { target: _ } => true,
        }
    }
}

/// The agent a spawn request creates: `Boid::new` as a value.
pub open spec fn spawn_spec(id: u64, x: i64, y: i64, seed: u64) -> Boid {
    Boid {
        id,
        pos: Vec2I { x, y },
        vel: Vec2I { x: vel_from_seed(seed).0 as i64, y: vel_from_seed(seed).1 as i64 },
        size: (16 * SCALE) as i64,
        flock: seed,
        goal: None,
        max_speed: (4 * SCALE) as i64,
        min_speed: SCALE,
        separation_strength: 10,
        cohesion_strength: 1,
        alignment_strength: 100,
        goal_strength: 1,
    }
}

/// One agent after a goal event: the goal replaced where the target
/// matches (a `None` target addresses every agent), untouched elsewhere.
pub open spec fn with_goal(a: Boid, target: Option<u64>, g: Option<Vec2I>) -> Boid {
    match target {
        Option::None => Boid { goal: g, ..a },
        Option::Some(id) => if a.id == id {
            Boid { goal: g, ..a }
        } else {
            a
        },
    }
}

/// One queued event applied to a snapshot and the id allocator. A spawn
/// appends a fresh agent with the next id, unless the population ceiling
/// or the id ceiling blocks it, in which case the request is dropped and
/// nothing changes. Goal events rewrite goals in place.
pub open spec fn apply_event(s: Seq<Boid>, next_id: int, e: Event) -> (Seq<Boid>, int) {
    match e {
        Event::Spawn { x, y, seed } => {
            if s.len() < MAX_AGENTS && next_id < ID_LIMIT {
                (s.push(spawn_spec(next_id as u64, x, y, seed)), next_id + 1)
            } else {
                (s, next_id)
            }
        },
        Event::SetGoal { target, x, y } => (
            Seq::new(s.len(), |i: int| with_goal(s[i], target, Some(Vec2I { x, y }))),
            next_id,
        ),
        Event::ClearGoal { target } => (
            Seq::new(s.len(), |i: int| with_goal(s[i], target, None)),
            next_id,
        ),
    }
}

/// A whole queue of events applied in arrival order.
pub open spec fn apply_events(s: Seq<Boid>, next_id: int, es: Seq<Event>) -> (Seq<Boid>, int)
    decreases es.len(),
{
    if es.len() == 0 {
        (s, next_id)
    } else {
        let t = apply_events(s, next_id, es.drop_last());
        apply_event(t.0, t.1, es.last())
    }
}

/// One whole tick as a value: the queued events applied, then every agent
/// of the resulting snapshot stepped against that same frozen snapshot.
pub open spec fn tick_spec(s: Seq<Boid>, next_id: int, pending: Seq<Event>, p: Params) -> (
    Seq<Boid>,
    int,
) {
    let ap = apply_events(s, next_id, pending);
    (Seq::new(ap.0.len(), |i: int| step_agent_spec(ap.0[i], ap.0, p)), ap.1)
}

/// A snapshot a host may hand over whole: within the population ceiling,
/// every agent well-formed, ids strictly ascending adjacent-wise and
/// below the id ceiling.
pub open spec fn snapshot_ok(s: Seq<Boid>) -> bool {
    &&& s.len() <= MAX_AGENTS
    &&& forall|i: int| 0 <= i < s.len() ==> (#[trigger] s[i]).wf()
    &&& forall|k: int| 1 <= k < s.len() ==> s[k - 1].id < (#[trigger] s[k].id)
    &&& forall|i: int| 0 <= i < s.len() ==> (#[trigger] s[i]).id < ID_LIMIT
}

/// Strictly ascending adjacent ids give strictly ascending ids overall.
proof fn lemma_chain_sorted(s: Seq<Boid>, i: int, j: int)
    requires
        forall|k: int| 1 <= k < s.len() ==> s[k - 1].id < (#[trigger] s[k].id),
        0 <= i < j < s.len(),
    ensures
        s[i].id < s[j].id,
    decreases j - i,
{
    if i + 1 < j {
        lemma_chain_sorted(s, i, j - 1);
    }
}

/// Rewrites goals in place: every agent the target addresses gets `g`,
/// the rest stay untouched. Ids, positions, velocities and tunables are
/// never changed.
fn set_goals(agents: &mut Vec<Boid>, target: Option<u64>, g: Option<Vec2I>)
    requires
        forall|i: int| 0 <= i < old(agents)@.len() ==> (#[trigger] old(agents)@[i]).wf(),
        match g {
            Some(gv) => -MAX_DIM <= gv.x <= MAX_DIM && -MAX_DIM <= gv.y <= MAX_DIM,
            None => true,
        },
    ensures
        final(agents)@ == Seq::new(
            old(agents)@.len(),
            |i: int| with_goal(old(agents)@[i], target, g),
        ),
        final(agents)@.len() == old(agents)@.len(),
        forall|i: int| 0 <= i < final(agents)@.len() ==> (#[trigger] final(agents)@[i]).wf(),
        forall|i: int|
            0 <= i < final(agents)@.len() ==> (#[trigger] final(agents)@[i]).id == old(
                agents,
            )@[i].id,
{
    let ghost orig = agents@;
    let mut i: usize = 0;
    while i < agents.len()
        invariant
            i <= orig.len(),
            agents@.len() == orig.len(),
            forall|j: int| 0 <= j < orig.len() ==> (#[trigger] orig[j]).wf(),
            match g {
                Some(gv) => -MAX_DIM <= gv.x <= MAX_DIM && -MAX_DIM <= gv.y <= MAX_DIM,
                None => true,
            },
            forall|j: int| i <= j < orig.len() ==> #[trigger] agents@[j] == orig[j],
            forall|j: int| 0 <= j < i ==> #[trigger] agents@[j] == with_goal(orig[j], target, g),
        decreases orig.len() - i,
    {
        let a = agents[i];
        let replace = match target {
            Option::None => true,
            Option::Some(id) => a.id == id,
        };
        if replace {
            agents[i] = Boid { goal: g, ..a };
        }
        i = i + 1;
    }
    proof {
        assert(agents@ =~= Seq::new(orig.len(), |j: int| with_goal(orig[j], target, g)));
    }
}

/// Determinism: one tick is a pure function of the structural state —
/// the agents, the id allocator and the queued events — and the
/// parameters. Two structurally identical simulations tick to identical
/// snapshots; `Boids::tick` ensures its new state equals `tick_spec` of
/// its old state, so the whole step inherits this.
pub proof fn lemma_tick_deterministic(
    s1: Seq<Boid>,
    s2: Seq<Boid>,
    next_id: int,
    pending: Seq<Event>,
    p: Params,
)
    requires
        s1 == s2,
    ensures
        tick_spec(s1, next_id, pending, p) == tick_spec(s2, next_id, pending, p),
{
}

/// The flock: the committed snapshot, the tick counter, the id allocator
/// and the queue of requests for the next tick.
pub struct Boids {
    pub agents: Vec<Boid>,
    pub tick: u64,
    pub next_id: u64,
    pub pending: Vec<Event>,
}

impl Boids {
    /// The simulation invariant: the population within the ceiling, every
    /// agent well-formed, ids strictly ascending (so unique) and below the
    /// allocator, the allocator below its ceiling, and every queued
    /// request acceptable.
    pub open spec fn wf(self) -> bool {
        &&& self.agents@.len() <= MAX_AGENTS
        &&& forall|i: int| 0 <= i < self.agents@.len() ==> (#[trigger] self.agents@[i]).wf()
        &&& forall|i: int, j: int|
            0 <= i < j < self.agents@.len() ==> #[trigger] self.agents@[i].id
                < #[trigger] self.agents@[j].id
        &&& forall|i: int|
            0 <= i < self.agents@.len() ==> (#[trigger] self.agents@[i]).id < self.next_id
        &&& self.next_id <= ID_LIMIT
        &&& forall|i: int| 0 <= i < self.pending@.len() ==> (#[trigger] self.pending@[i]).wf()
    }

    /// The committed snapshot, for a renderer: read-only.
    pub fn agents(&self) -> (r: &Vec<Boid>)
        ensures
            r@ == self.agents@,
    {
        &self.agents
    }

    /// How many agents are committed.
    pub fn population(&self) -> (r: usize)
        ensures
            r == self.agents@.len(),
    {
        self.agents.len()
    }

    /// How many ticks have run.
    pub fn tick_count(&self) -> (r: u64)
        ensures
            r == self.tick,
    {
        self.tick
    }

    /// The spec-level view of the whole state, which `tick` steps.
    pub open spec fn view_state(self) -> (Seq<Boid>, int, Seq<Event>) {
        (self.agents@, self.next_id as int, self.pending@)
    }

    /// A simulation owning a snapshot the host assembled itself. The
    /// snapshot is accepted exactly when `snapshot_ok` holds of it; the id
    /// allocator continues above the highest id present.
    pub fn from_agents(agents: Vec<Boid>) -> (r: Option<Boids>)
        ensures
            r is Some <==> snapshot_ok(agents@),
            match r {
                Some(b) => b.wf() && b.agents@ == agents@ && b.tick == 0 && b.pending@ == Seq::<
                    Event,
                >::empty() && b.next_id == (if agents@.len() == 0 {
                    0
                } else {
                    agents@[agents@.len() - 1].id + 1
                }),
                None => true,
            },
    {
        if agents.len() > MAX_AGENTS {
            return None;
        }
        let mut i: usize = 0;
        while i < agents.len()
            invariant
                i <= agents@.len(),
                forall|j: int|
                    0 <= j < i ==> (#[trigger] agents@[j]).wf() && agents@[j].id < ID_LIMIT,
                forall|k: int| 1 <= k < i ==> agents@[k - 1].id < (#[trigger] agents@[k].id),
            decreases agents@.len() - i,
        {
            let a = agents[i];
            if !a.check() || a.id >= ID_LIMIT {
                return None;
            }
            if i > 0 {
                let prev = agents[i - 1];
                if prev.id >= a.id {
                    return None;
                }
            }
            i = i + 1;
        }
        let next: u64 = if agents.len() == 0 {
            0
        } else {
            agents[agents.len() - 1].id + 1
        };
        proof {
            let s = agents@;
            assert forall|a_i: int, a_j: int|
                0 <= a_i < a_j < s.len() implies #[trigger] s[a_i].id < #[trigger] s[a_j].id by {
                lemma_chain_sorted(s, a_i, a_j);
            }
            assert forall|a_i: int| 0 <= a_i < s.len() implies (#[trigger] s[a_i]).id < next by {
                if a_i < s.len() - 1 {
                    lemma_chain_sorted(s, a_i, s.len() - 1);
                }
            }
        }
        Some(Boids { agents, tick: 0, next_id: next, pending: Vec::new() })
    }

    /// An empty simulation.
    pub fn new() -> (r: Boids)
        ensures
            r.wf(),
            r.agents@ == Seq::<Boid>::empty(),
            r.tick == 0,
            r.next_id == 0,
            r.pending@ == Seq::<Event>::empty(),
    {
        Boids { agents: Vec::new(), tick: 0, next_id: 0, pending: Vec::new() }
    }

    /// One tick. The queued requests are applied first, in arrival order:
    /// accepted spawns append agents with fresh ascending ids, requests
    /// beyond the population ceiling are dropped without effect. Then the
    /// compute phase produces every agent's candidate from the frozen
    /// snapshot, and the commit phase replaces the whole snapshot at once.
    /// The result is exactly `tick_spec` of the old state: a function of
    /// the state alone, so two structurally identical simulations tick to
    /// structurally identical snapshots.
    pub fn tick(&mut self, p: &Params)
        requires
            old(self).wf(),
            p.wf(),
            old(self).tick < u64::MAX,
        ensures
            final(self).wf(),
            (final(self).agents@, final(self).next_id as int) == tick_spec(
                old(self).agents@,
                old(self).next_id as int,
                old(self).pending@,
                *p,
            ),
            final(self).tick == old(self).tick + 1,
            final(self).pending@ == Seq::<Event>::empty(),
            final(self).agents@.len() <= MAX_AGENTS,
            p.boundary is Wrap ==> forall|i: int|
                0 <= i < final(self).agents@.len() ==> 0 <= (
                #[trigger] final(self).agents@[i]).pos.x < p.width && 0
                    <= final(self).agents@[i].pos.y < p.height,
    {
        let ghost orig_agents = self.agents@;
        let ghost orig_next = self.next_id as int;
        let ghost evs = self.pending@;
        let ghost orig_tick = self.tick;

        let n_ev = self.pending.len();
        let mut k: usize = 0;
        while k < n_ev
            invariant
                k <= evs.len(),
                n_ev == evs.len(),
                self.pending@ == evs,
                self.tick == orig_tick,
                forall|i: int| 0 <= i < evs.len() ==> (#[trigger] evs[i]).wf(),
                (self.agents@, self.next_id as int) == apply_events(
                    orig_agents,
                    orig_next,
                    evs.take(k as int),
                ),
                self.agents@.len() <= MAX_AGENTS,
                forall|i: int| 0 <= i < self.agents@.len() ==> (#[trigger] self.agents@[i]).wf(),
                forall|i: int, j: int|
                    0 <= i < j < self.agents@.len() ==> #[trigger] self.agents@[i].id
                        < #[trigger] self.agents@[j].id,
                forall|i: int|
                    0 <= i < self.agents@.len() ==> (#[trigger] self.agents@[i]).id < self.next_id,
                self.next_id <= ID_LIMIT,
            decreases evs.len() - k,
        {
            let e = self.pending[k];
            proof {
                assert(evs.take(k + 1).drop_last() =~= evs.take(k as int));
                assert(evs.take(k + 1).last() == evs[k as int]);
            }
            match e {
                Event::Spawn { x, y, seed } => {
                    if self.agents.len() < MAX_AGENTS && self.next_id < ID_LIMIT {
                        let b = Boid::new(self.next_id, x, y, seed);
                        proof {
                            vstd::arithmetic::div_mod::lemma_mod_bound(seed as int, 1001);
                            vstd::arithmetic::div_mod::lemma_mod_bound(
                                seed as int / 1001,
                                1001,
                            );
                            assert(b == spawn_spec(self.next_id, x, y, seed));
                        }
                        self.agents.push(b);
                        self.next_id = self.next_id + 1;
                    }
                },
                Event::SetGoal { target, x, y } => {
                    set_goals(&mut self.agents, target, Some(Vec2I { x, y }));
                },
                Event::ClearGoal { target } => {
                    set_goals(&mut self.agents, target, None);
                },
            }
            k = k + 1;
        }
        proof {
            assert(evs.take(n_ev as int) =~= evs);
        }
        self.pending.clear();

        let ghost applied = apply_events(orig_agents, orig_next, evs);
        let cs = CollisionSystem;
        let cands = cs.run(&self.agents, p);
        let ms = MovementSystem;
        ms.run(&mut self.agents, &cands, p);
        self.tick = self.tick + 1;
        proof {
            assert(self.agents@ =~= Seq::new(
                applied.0.len(),
                |i: int| step_agent_spec(applied.0[i], applied.0, *p),
            ));
        }
    }

    /// Queue a request for the start of the next tick. An unacceptable
    /// request (coordinates outside the machine guards) is rejected and
    /// nothing changes; the result says which happened.
    pub fn queue_event(&mut self, e: Event) -> (r: bool)
        requires
            old(self).wf(),
        ensures
            final(self).wf(),
            r == e.wf(),
            r ==> final(self).pending@ == old(self).pending@.push(e),
            !r ==> final(self).pending@ == old(self).pending@,
            final(self).agents@ == old(self).agents@,
            final(self).tick == old(self).tick,
            final(self).next_id == old(self).next_id,
    {
        if e.check() {
            self.pending.push(e);
            true
        } else {
            false
        }
    }
}

} // verus!
