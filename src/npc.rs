//! Decisions of computer-controlled units, and the queue of units waiting to
//! be spawned.

use rand::Rng;
use vstd::prelude::*;

use crate::battle::{Position, TeamId};
use crate::unit::{UnitBundle, UnitState, unit_bundle};

verus! {

/// Whom an NPC may pick as a target.
#[derive(Clone, Copy, Debug, PartialEq, Eq, Structural)]
pub enum TargetPolicy {
    /// Only units of another team.
    OtherTeams,
    /// Any other unit.
    AnyOther,
}

/// Marks a unit as computer-controlled.
#[derive(Clone, Copy, Debug, PartialEq, Eq, Structural)]
pub struct NPC {
    /// Walking speed in thousandths of a world unit per second.
    pub speed: u32,
    pub targeting: TargetPolicy,
}

impl Default for NPC {
    fn default() -> (r: NPC)
        ensures
            r == (NPC { speed: 3000, targeting: TargetPolicy::OtherTeams }),
    {
        NPC { speed: 3000, targeting: TargetPolicy::OtherTeams }
    }
}

/// Distance, in thousandths of a world unit, within which an NPC engages.
pub const ENGAGE_RADIUS: i128 = 15000;
/// An NPC in range fires on a tick with chance one in this.
pub const FIRE_CHANCE: i32 = 30;
/// An idle NPC turns on a tick with chance one in this.
pub const WANDER_CHANCE: i32 = 30;
/// Largest turn, in degrees either way, of an idle NPC.
pub const WANDER_DEGREES: i32 = 45;
/// An NPC stands still on a tick with chance one in this, else it walks.
pub const PAUSE_CHANCE: i32 = 3;

/// Where a unit was, and for whom it fights, when the tick began.
#[derive(Clone, Copy, Debug, PartialEq, Eq, Structural)]
pub struct UnitSnapshot {
    pub team: TeamId,
    pub position: Position,
}

pub open spec fn dist_sq(a: Position, b: Position) -> int {
    (a.x - b.x) * (a.x - b.x) + (a.y - b.y) * (a.y - b.y) + (a.z - b.z) * (a.z - b.z)
}

/// Unit `j` of the snapshot is a possible target of unit `me`: another unit,
/// hostile under `policy`, at a positive distance.
pub open spec fn is_candidate(snapshot: Seq<UnitSnapshot>, me: int, policy: TargetPolicy, j: int) -> bool {
    &&& 0 <= j < snapshot.len()
    &&& j != me
    &&& policy == TargetPolicy::OtherTeams ==> snapshot[j].team != snapshot[me].team
    &&& dist_sq(snapshot[me].position, snapshot[j].position) > 0
}

/// Unit `j` is the first of the nearest candidates of unit `me`.
pub open spec fn is_closest(snapshot: Seq<UnitSnapshot>, me: int, policy: TargetPolicy, j: int) -> bool {
    &&& is_candidate(snapshot, me, policy, j)
    &&& forall|k: int| #[trigger] is_candidate(snapshot, me, policy, k)
        ==> dist_sq(snapshot[me].position, snapshot[j].position)
            <= dist_sq(snapshot[me].position, snapshot[k].position)
    &&& forall|k: int| 0 <= k < j && #[trigger] is_candidate(snapshot, me, policy, k)
        ==> dist_sq(snapshot[me].position, snapshot[j].position)
            < dist_sq(snapshot[me].position, snapshot[k].position)
}

/// The nearest candidate of unit `me`, if there is one.
pub open spec fn closest(snapshot: Seq<UnitSnapshot>, me: int, policy: TargetPolicy) -> Option<int> {
    if exists|j: int| is_closest(snapshot, me, policy, j) {
        Some(choose|j: int| is_closest(snapshot, me, policy, j))
    } else {
        None
    }
}

fn distance_sq(a: Position, b: Position) -> (r: i128)
    ensures
        r == dist_sq(a, b),
{
    let dx = a.x as i128 - b.x as i128;
    let dy = a.y as i128 - b.y as i128;
    let dz = a.z as i128 - b.z as i128;
    assert(dx * dx <= 0x1_0000_0000_0000_0000) by (nonlinear_arith)
        requires -0x1_0000_0000 <= dx <= 0x1_0000_0000;
    assert(dy * dy <= 0x1_0000_0000_0000_0000) by (nonlinear_arith)
        requires -0x1_0000_0000 <= dy <= 0x1_0000_0000;
    assert(dz * dz <= 0x1_0000_0000_0000_0000) by (nonlinear_arith)
        requires -0x1_0000_0000 <= dz <= 0x1_0000_0000;
    assert(0 <= dx * dx && 0 <= dy * dy && 0 <= dz * dz) by (nonlinear_arith);
    dx * dx + dy * dy + dz * dz
}

/// Finds the nearest unit that unit `me` may target, scanning the snapshot in
/// order and keeping the first of equally near ones.
pub fn get_closest_unit(snapshot: &Vec<UnitSnapshot>, me: usize, policy: TargetPolicy) -> (r: Option<usize>)
    requires
        me < snapshot.len(),
    ensures
        match r {
            Some(j) => closest(snapshot@, me as int, policy) == Some(j as int),
            None => closest(snapshot@, me as int, policy) is None,
        },
        r is None <==> forall|k: int| !is_candidate(snapshot@, me as int, policy, k),
{
    let ghost s = snapshot@;
    let here = snapshot[me].position;
    let mut best: Option<usize> = None;
    let mut best_d: i128 = 0;
    let mut j: usize = 0;
    while j < snapshot.len()
        invariant
            s == snapshot@,
            me < s.len(),
            here == s[me as int].position,
            j <= s.len(),
            match best {
                Some(b) => {
                    &&& b < j
                    &&& is_candidate(s, me as int, policy, b as int)
                    &&& best_d == dist_sq(here, s[b as int].position)
                    &&& forall|k: int| 0 <= k < j && #[trigger] is_candidate(s, me as int, policy, k)
                        ==> best_d <= dist_sq(here, s[k].position)
                    &&& forall|k: int| 0 <= k < b && #[trigger] is_candidate(s, me as int, policy, k)
                        ==> best_d < dist_sq(here, s[k].position)
                },
                None => forall|k: int| 0 <= k < j ==> !is_candidate(s, me as int, policy, k),
            },
        decreases s.len() - j,
    {
        let other = snapshot[j];
        let hostile = match policy {
            TargetPolicy::OtherTeams => other.team != snapshot[me].team,
            TargetPolicy::AnyOther => true,
        };
        if j != me && hostile {
            let d = distance_sq(here, other.position);
            if d > 0 {
                match best {
                    Some(_) => {
                        if d < best_d {
                            best = Some(j);
                            best_d = d;
                        }
                    },
                    None => {
                        best = Some(j);
                        best_d = d;
                    },
                }
            }
        }
        j += 1;
    }
    match best {
        Some(b) => {
            assert(is_closest(s, me as int, policy, b as int));
            proof {
                let c = choose|c: int| is_closest(s, me as int, policy, c);
                assert(!(c < b) && !(b < c));
            }
        },
        None => {
            assert(!exists|c: int| is_closest(s, me as int, policy, c));
        },
    }
    best
}

/// The random draws an NPC makes in one tick.
#[derive(Clone, Copy, Debug, PartialEq, Eq, Structural)]
pub struct NpcRolls {
    /// Fires when zero, in `0..FIRE_CHANCE`.
    pub fire: i32,
    /// Turns when zero, in `0..WANDER_CHANCE`.
    pub wander: i32,
    /// Degrees to turn by, in `-WANDER_DEGREES..=WANDER_DEGREES`.
    pub turn: i32,
    /// Stands still when zero, in `0..PAUSE_CHANCE`.
    pub walk: i32,
}

impl NpcRolls {
    pub open spec fn wf(self) -> bool {
        &&& 0 <= self.fire < FIRE_CHANCE
        &&& 0 <= self.wander < WANDER_CHANCE
        &&& -WANDER_DEGREES <= self.turn <= WANDER_DEGREES
        &&& 0 <= self.walk < PAUSE_CHANCE
    }

    /// Draws this tick's rolls from the thread's random generator.
    pub fn draw() -> (r: NpcRolls)
        ensures
            r.wf(),
    {
        let fire = roll(0, FIRE_CHANCE - 1);
        let wander = roll(0, WANDER_CHANCE - 1);
        let turn = roll(-WANDER_DEGREES, WANDER_DEGREES);
        let walk = roll(0, PAUSE_CHANCE - 1);
        NpcRolls { fire, wander, turn, walk }
    }
}

/// Relies on rand's `thread_rng` and `Rng::gen_range` over an inclusive range:
/// a value between the bounds; the range is never empty here, which is the
/// one case where it panics.
#[verifier::external_body]
fn roll(lo: i32, hi: i32) -> (r: i32)
    requires
        lo <= hi,
    ensures
        lo <= r <= hi,
{
    rand::thread_rng().gen_range(lo..=hi)
}

/// How an NPC turns this tick.
#[derive(Clone, Copy, Debug, PartialEq, Eq, Structural)]
pub enum Heading {
    /// Look along the world-space offset from the target to the NPC (in
    /// thousandths of a unit): the yaw becomes `atan2(dx, dz)`.
    Face { dx: i64, dz: i64 },
    /// Add this many degrees to the yaw.
    Turn(i32),
    /// Leave the yaw alone.
    Keep,
}

/// What an NPC does this tick.
#[derive(Clone, Copy, Debug, PartialEq, Eq, Structural)]
pub struct NpcDecision {
    pub heading: Heading,
    /// Whether the NPC asked to fire.
    pub shoot: bool,
    /// Whether it walks forward at its speed; otherwise it stands still.
    pub advance: bool,
}

/// The decision of NPC `me` for a given snapshot and given draws.
pub open spec fn npc_choice(snapshot: Seq<UnitSnapshot>, me: int, policy: TargetPolicy, rolls: NpcRolls) -> NpcDecision {
    let here = snapshot[me].position;
    let advance = rolls.walk != 0;
    match closest(snapshot, me, policy) {
        Some(j) if dist_sq(here, snapshot[j].position) < ENGAGE_RADIUS * ENGAGE_RADIUS => NpcDecision {
            heading: Heading::Face {
                dx: (here.x - snapshot[j].position.x) as i64,
                dz: (here.z - snapshot[j].position.z) as i64,
            },
            shoot: rolls.fire == 0,
            advance,
        },
        _ => NpcDecision {
            heading: if rolls.wander == 0 {
                Heading::Turn(rolls.turn)
            } else {
                Heading::Keep
            },
            shoot: false,
            advance,
        },
    }
}

/// Decides what NPC `me` of the snapshot does with the given draws, and
/// records a fire request on its state.
pub fn npc_decide(
    unit: &mut UnitState,
    snapshot: &Vec<UnitSnapshot>,
    me: usize,
    npc: &NPC,
    rolls: NpcRolls,
) -> (r: NpcDecision)
    requires
        me < snapshot.len(),
    ensures
        r == npc_choice(snapshot@, me as int, npc.targeting, rolls),
        *final(unit) == (UnitState { shoot: old(unit).shoot || r.shoot, ..*old(unit) }),
{
    let here = snapshot[me].position;
    let advance = rolls.walk != 0;
    let mut decision = NpcDecision {
        heading: if rolls.wander == 0 {
            Heading::Turn(rolls.turn)
        } else {
            Heading::Keep
        },
        shoot: false,
        advance,
    };
    match get_closest_unit(snapshot, me, npc.targeting) {
        Some(j) => {
            let there = snapshot[j].position;
            if distance_sq(here, there) < ENGAGE_RADIUS * ENGAGE_RADIUS {
                decision = NpcDecision {
                    heading: Heading::Face {
                        dx: here.x as i64 - there.x as i64,
                        dz: here.z as i64 - there.z as i64,
                    },
                    shoot: rolls.fire == 0,
                    advance,
                };
            }
        },
        None => {},
    }
    if decision.shoot {
        unit.shoot = true;
    }
    decision
}

/// One NPC tick with fresh random draws: the decision is the one
/// `npc_decide` makes for some well-formed draws.
pub fn npc_controller(unit: &mut UnitState, snapshot: &Vec<UnitSnapshot>, me: usize, npc: &NPC) -> (r: NpcDecision)
    requires
        me < snapshot.len(),
    ensures
        exists|rolls: NpcRolls| rolls.wf() && r == npc_choice(snapshot@, me as int, npc.targeting, rolls),
        *final(unit) == (UnitState { shoot: old(unit).shoot || r.shoot, ..*old(unit) }),
{
    let rolls = NpcRolls::draw();
    npc_decide(unit, snapshot, me, npc, rolls)
}

/// Units waiting to be spawned: where, and for which team.
pub struct SpawnQueue {
    pub waiting: Vec<(Position, TeamId)>,
}

impl SpawnQueue {
    pub fn new() -> (r: SpawnQueue)
        ensures
            r.waiting@.len() == 0,
    {
        SpawnQueue { waiting: Vec::new() }
    }
}

/// Empties the queue, last entry first, into one unit bundle per entry.
pub fn spawn_npcs(queue: &mut SpawnQueue) -> (r: Vec<UnitBundle>)
    ensures
        final(queue).waiting@.len() == 0,
        r@.len() == old(queue).waiting@.len(),
        forall|k: int|
            0 <= k < r@.len() ==> #[trigger] r@[k] == unit_bundle(
                old(queue).waiting@[old(queue).waiting@.len() - 1 - k].0,
                old(queue).waiting@[old(queue).waiting@.len() - 1 - k].1,
            ),
{
    let ghost w = queue.waiting@;
    let mut out: Vec<UnitBundle> = Vec::new();
    while queue.waiting.len() > 0
        invariant
            queue.waiting@ == w.subrange(0, w.len() - out@.len()),
            out@.len() <= w.len(),
            forall|k: int|
                0 <= k < out@.len() ==> #[trigger] out@[k] == unit_bundle(w[w.len() - 1 - k].0, w[w.len() - 1 - k].1),
        decreases queue.waiting@.len(),
    {
        match queue.waiting.pop() {
            Some((position, team)) => {
                out.push(UnitBundle::new(position, team));
            },
            None => {},
        }
    }
    out
}

} // verus!
