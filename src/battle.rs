//! Teams, spawn points and the one-way start of a battle.

use vstd::prelude::*;

use crate::npc::SpawnQueue;

verus! {

/// The side a unit fights for.
#[derive(Clone, Copy, Debug, PartialEq, Eq, Structural)]
pub enum TeamId {
    NONE,
    ONE,
    TWO,
}

/// A point of the arena in thousandths of a world unit.
#[derive(Clone, Copy, Debug, PartialEq, Eq, Structural)]
pub struct Position {
    pub x: i32,
    pub y: i32,
    pub z: i32,
}

impl Position {
    pub fn new(x: i32, y: i32, z: i32) -> (r: Position)
        ensures
            r == (Position { x, y, z }),
    {
        Position { x, y, z }
    }
}

/// A team of a battle and where its units appear.
#[derive(Clone, Copy, Debug, PartialEq, Eq, Structural)]
pub struct Team {
    pub id: TeamId,
    pub spawn_point: Position,
}

/// One match: its teams, how many units each fields, and whether it began.
pub struct Battle {
    pub teams: Vec<Team>,
    pub units_per_team: i32,
    pub started: bool,
}

/// Units per team of the standard battle.
pub const UNITS_PER_TEAM: i32 = 20;

/// The units a team count of `n` asks for; a negative count asks for none.
pub open spec fn team_size(n: i32) -> nat {
    if n > 0 {
        n as nat
    } else {
        0
    }
}

/// The spawn entries of `teams`, in order, `n` of each.
pub open spec fn roster(teams: Seq<Team>, n: nat) -> Seq<(Position, TeamId)>
    decreases teams.len(),
{
    if teams.len() == 0 {
        seq![]
    } else {
        roster(teams.drop_last(), n) + Seq::new(n, |k: int| (teams.last().spawn_point, teams.last().id))
    }
}

/// What starting battle `b` puts on the spawn queue: its roster the first
/// time, nothing once it has started.
pub open spec fn enqueued_on_start(b: Battle) -> Seq<(Position, TeamId)> {
    if b.started {
        seq![]
    } else {
        roster(b.teams@, team_size(b.units_per_team))
    }
}

/// Battle `b` after its start check.
pub open spec fn after_start(b: Battle) -> Battle {
    Battle { started: true, ..b }
}

impl Default for Battle {
    fn default() -> (r: Battle)
        ensures
            r.teams@ == seq![
                Team { id: TeamId::NONE, spawn_point: Position { x: 0, y: 0, z: 0 } },
                Team { id: TeamId::NONE, spawn_point: Position { x: 0, y: 0, z: 0 } },
            ],
            r.units_per_team == 0,
            !r.started,
    {
        let origin = Position { x: 0, y: 0, z: 0 };
        Battle {
            teams: vec![Team { id: TeamId::NONE, spawn_point: origin }, Team { id: TeamId::NONE, spawn_point: origin }],
            units_per_team: 0,
            started: false,
        }
    }
}

/// The standard battle: team one spawning at (50, 1, 0), team two at
/// (-50, 1, 0), twenty units each, not yet started.
pub fn new_battle() -> (r: Battle)
    ensures
        r.teams@ == seq![
            Team { id: TeamId::ONE, spawn_point: Position { x: 50000, y: 1000, z: 0 } },
            Team { id: TeamId::TWO, spawn_point: Position { x: -50000i32, y: 1000, z: 0 } },
        ],
        r.units_per_team == UNITS_PER_TEAM,
        !r.started,
{
    Battle {
        teams: vec![
            Team { id: TeamId::ONE, spawn_point: Position::new(50000, 1000, 0) },
            Team { id: TeamId::TWO, spawn_point: Position::new(-50000, 1000, 0) },
        ],
        units_per_team: UNITS_PER_TEAM,
        started: false,
    }
}

/// The start check: the first time it sees the battle, it queues every
/// team's units at the team's spawn point and marks the battle started.
pub fn battle_handler(battle: &mut Battle, queue: &mut SpawnQueue)
    ensures
        *final(battle) == after_start(*old(battle)),
        final(queue).waiting@ == old(queue).waiting@ + enqueued_on_start(*old(battle)),
{
    if battle.started {
        assert(queue.waiting@ =~= queue.waiting@ + enqueued_on_start(*battle));
        return;
    }
    let ghost q0 = queue.waiting@;
    let ghost teams = battle.teams@;
    let ghost n = team_size(battle.units_per_team);
    let count: i32 = battle.units_per_team;
    let mut t: usize = 0;
    while t < battle.teams.len()
        invariant
            teams == battle.teams@,
            n == team_size(count),
            t <= teams.len(),
            queue.waiting@ == q0 + roster(teams.subrange(0, t as int), n),
        decreases teams.len() - t,
    {
        let team = battle.teams[t];
        let ghost before = queue.waiting@;
        let mut c: i32 = 0;
        while c < count
            invariant
                0 <= c,
                c < count ==> c < n,
                c >= count ==> n == 0 || c == n,
                count <= 0 ==> c == 0,
                n == team_size(count),
                queue.waiting@ == before + Seq::new(c as nat, |k: int| (team.spawn_point, team.id)),
            decreases count - c,
        {
            queue.waiting.push((team.spawn_point, team.id));
            c += 1;
            assert(queue.waiting@ =~= before + Seq::new(c as nat, |k: int| (team.spawn_point, team.id)));
        }
        let ghost step = Seq::new(n, |k: int| (team.spawn_point, team.id));
        assert(Seq::new(c as nat, |k: int| (team.spawn_point, team.id)) =~= step) by {
            if count <= 0 {
                assert(c == 0);
            }
        };
        assert(teams.subrange(0, t + 1).drop_last() =~= teams.subrange(0, t as int));
        assert(queue.waiting@ =~= q0 + roster(teams.subrange(0, t + 1), n));
        t += 1;
    }
    assert(teams.subrange(0, teams.len() as int) =~= teams);
    battle.started = true;
}

/// Starting is one-way and idempotent: after a battle's start check has run
/// once, running it again queues nothing more and leaves the battle as it is.
pub proof fn lemma_start_idempotent(b: Battle, queue: Seq<(Position, TeamId)>)
    ensures
        after_start(after_start(b)) == after_start(b),
        enqueued_on_start(after_start(b)) == Seq::<(Position, TeamId)>::empty(),
        (queue + enqueued_on_start(b)) + enqueued_on_start(after_start(b)) == queue + enqueued_on_start(b),
{
    assert((queue + enqueued_on_start(b)) + enqueued_on_start(after_start(b)) =~= queue + enqueued_on_start(b));
}

} // verus!
