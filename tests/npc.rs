use ironrift::battle::{Position, TeamId};
use ironrift::npc::{
    get_closest_unit, npc_controller, npc_decide, spawn_npcs, Heading, NpcRolls, SpawnQueue, TargetPolicy,
    UnitSnapshot, NPC,
};
use ironrift::object::ObjectType;
use ironrift::unit::{UnitBundle, UnitState};

fn at(team: TeamId, x: i32, y: i32, z: i32) -> UnitSnapshot {
    UnitSnapshot { team, position: Position::new(x, y, z) }
}

fn rolls(fire: i32, wander: i32, turn: i32, walk: i32) -> NpcRolls {
    NpcRolls { fire, wander, turn, walk }
}

#[test]
fn enemy_in_range_is_faced() {
    let snapshot = vec![at(TeamId::ONE, 0, 0, 0), at(TeamId::TWO, 10000, 0, 0)];
    assert_eq!(get_closest_unit(&snapshot, 0, TargetPolicy::OtherTeams), Some(1));
    let mut state = UnitState::for_team(TeamId::ONE);
    let d = npc_decide(&mut state, &snapshot, 0, &NPC::default(), rolls(5, 5, 0, 1));
    assert_eq!(d.heading, Heading::Face { dx: -10000, dz: 0 });
    match d.heading {
        Heading::Face { dx, dz } => {
            let yaw = (dx as f32 / 1000.0).atan2(dz as f32 / 1000.0);
            assert_eq!(yaw, (0.0f32 - 10.0).atan2(0.0 - 0.0));
        }
        _ => panic!("expected to face the enemy"),
    }
    assert!(!d.shoot);
    assert!(d.advance);
    assert!(!state.shoot);
}

#[test]
fn same_team_gives_no_candidate_and_wanders() {
    let snapshot = vec![at(TeamId::ONE, 0, 0, 0), at(TeamId::ONE, 10000, 0, 0)];
    assert_eq!(get_closest_unit(&snapshot, 0, TargetPolicy::OtherTeams), None);
    let mut state = UnitState::for_team(TeamId::ONE);
    let d = npc_decide(&mut state, &snapshot, 0, &NPC::default(), rolls(0, 0, -30, 0));
    assert_eq!(d.heading, Heading::Turn(-30));
    assert!(!d.shoot);
    assert!(!d.advance);
    let d = npc_decide(&mut state, &snapshot, 0, &NPC::default(), rolls(0, 7, -30, 2));
    assert_eq!(d.heading, Heading::Keep);
    assert!(d.advance);
    assert!(!state.shoot);
}

#[test]
fn any_other_policy_targets_teammates() {
    let snapshot = vec![at(TeamId::ONE, 0, 0, 0), at(TeamId::ONE, 10000, 0, 0)];
    assert_eq!(get_closest_unit(&snapshot, 0, TargetPolicy::AnyOther), Some(1));
}

#[test]
fn nearest_first_and_zero_distance_skipped() {
    let snapshot = vec![
        at(TeamId::TWO, 5000, 0, 0),
        at(TeamId::ONE, 5000, 0, 0),
        at(TeamId::TWO, 0, 3000, 0),
        at(TeamId::TWO, 0, 0, 3000),
        at(TeamId::TWO, 9000, 0, 0),
    ];
    assert_eq!(get_closest_unit(&snapshot, 1, TargetPolicy::OtherTeams), Some(4));
    let snapshot = vec![
        at(TeamId::ONE, 0, 0, 0),
        at(TeamId::TWO, 0, 0, 0),
        at(TeamId::TWO, 0, 3000, 0),
        at(TeamId::TWO, 0, 0, -3000),
    ];
    assert_eq!(get_closest_unit(&snapshot, 0, TargetPolicy::OtherTeams), Some(2));
}

#[test]
fn engagement_radius_is_strict() {
    let mut state = UnitState::for_team(TeamId::ONE);
    let far = vec![at(TeamId::ONE, 0, 0, 0), at(TeamId::TWO, 0, 0, 15000)];
    let d = npc_decide(&mut state, &far, 0, &NPC::default(), rolls(0, 3, 10, 1));
    assert_eq!(d.heading, Heading::Keep);
    assert!(!d.shoot);
    let near = vec![at(TeamId::ONE, 0, 0, 0), at(TeamId::TWO, 0, 0, 14999)];
    let d = npc_decide(&mut state, &near, 0, &NPC::default(), rolls(0, 3, 10, 1));
    assert_eq!(d.heading, Heading::Face { dx: 0, dz: -14999 });
    assert!(d.shoot);
    assert!(state.shoot);
}

#[test]
fn drawn_rolls_stay_in_range_and_vary() {
    let mut turns = std::collections::BTreeSet::new();
    for _ in 0..500 {
        let r = NpcRolls::draw();
        assert!((0..30).contains(&r.fire));
        assert!((0..30).contains(&r.wander));
        assert!((-45..=45).contains(&r.turn));
        assert!((0..3).contains(&r.walk));
        turns.insert(r.turn);
    }
    assert!(turns.len() > 1);
}

#[test]
fn controller_keeps_state_apart_from_shoot() {
    let snapshot = vec![at(TeamId::ONE, 0, 0, 0), at(TeamId::TWO, 0, 0, 1000)];
    for _ in 0..100 {
        let mut state = UnitState::for_team(TeamId::ONE);
        let d = npc_controller(&mut state, &snapshot, 0, &NPC::default());
        assert_eq!(d.heading, Heading::Face { dx: 0, dz: -1000 });
        assert_eq!(state.shoot, d.shoot);
        assert_eq!(state.hp, 3);
    }
}

#[test]
fn npc_default_speed() {
    let npc = NPC::default();
    assert_eq!(npc.speed, 3000);
    assert_eq!(npc.targeting, TargetPolicy::OtherTeams);
}

#[test]
fn spawn_queue_drains_to_empty() {
    let mut queue = SpawnQueue::new();
    assert!(queue.waiting.is_empty());
    queue.waiting.push((Position::new(1, 2, 3), TeamId::ONE));
    queue.waiting.push((Position::new(4, 5, 6), TeamId::TWO));
    queue.waiting.push((Position::new(7, 8, 9), TeamId::TWO));
    let spawned = spawn_npcs(&mut queue);
    assert_eq!(spawned.len(), 3);
    assert!(queue.waiting.is_empty());
    assert_eq!(spawned[0], UnitBundle::new(Position::new(7, 8, 9), TeamId::TWO));
    assert_eq!(spawned[2].position, Position::new(1, 2, 3));
    assert_eq!(spawned[2].state.team, TeamId::ONE);
    assert_eq!(spawned[2].collider_tag, ObjectType::Unit.tag());
    assert!(spawn_npcs(&mut queue).is_empty());
}
