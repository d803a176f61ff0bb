use ironrift::battle::{Position, TeamId};
use ironrift::bullet::{Bullet, BulletBundle, BULLET_LIFETIME};
use ironrift::map::group_triangles;
use ironrift::object::ObjectType;
use ironrift::player::{player_controller, spawn_player, PlayerKeys};
use ironrift::unit::{UnitBundle, UnitState, INITIAL_HP};

#[test]
fn shot_is_consumed_exactly_once() {
    let mut state = UnitState::for_team(TeamId::TWO);
    state.shoot = true;
    assert!(state.take_shot());
    assert!(!state.shoot);
    assert!(!state.take_shot());
    assert_eq!(state.hp, INITIAL_HP);
    assert_eq!(state.team, TeamId::TWO);
}

#[test]
fn default_unit_state() {
    let s = UnitState::default();
    assert_eq!(s.hp, 3);
    assert_eq!(s.team, TeamId::NONE);
    assert!(!s.shoot);
    assert!(!s.is_touching_ground);
}

#[test]
fn unit_bundle_is_tagged_as_unit() {
    let b = UnitBundle::new(Position::new(1, 2, 3), TeamId::TWO);
    assert_eq!(b.collider_tag, ObjectType::Unit.tag());
    assert_eq!(b.state, UnitState::for_team(TeamId::TWO));
    let p = spawn_player();
    assert_eq!(p.position, Position::new(40000, 3000, -50000));
    assert_eq!(p.state.team, TeamId::ONE);
}

#[test]
fn bullet_lives_until_age_exceeds_lifetime() {
    let mut b = Bullet::default();
    assert_eq!(b.lifetime, 2_000_000);
    assert!(!b.advance(1_999_000, false));
    assert!(!b.advance(1_000, false));
    assert_eq!(b.age, BULLET_LIFETIME);
    assert!(b.advance(1_000, false));
    assert_eq!(b.age, 2_001_000);
}

#[test]
fn bullet_removed_at_two_point_zero_zero_one() {
    let mut b = Bullet::default();
    assert!(b.advance(2_001_000, false));
}

#[test]
fn bullet_in_contact_removed_early() {
    let mut b = Bullet::default();
    assert!(b.advance(10, true));
    assert_eq!(b.age, 10);
    let bundle = BulletBundle::new();
    assert_eq!(bundle.bullet, Bullet::default());
    assert_eq!(bundle.collider_tag, ObjectType::Bullet.tag());
}

#[test]
fn tags_round_trip_and_stay_distinct() {
    let all = [ObjectType::Terrain, ObjectType::Unit, ObjectType::Bullet, ObjectType::Untagged];
    for c in all {
        assert_eq!(ObjectType::classify(c.tag()), c);
    }
    assert_eq!(ObjectType::Untagged.tag(), 0);
    assert_eq!(ObjectType::Terrain.tag(), 1);
    assert_eq!(ObjectType::Unit.tag(), 2);
    assert_eq!(ObjectType::Bullet.tag(), 3);
    assert_eq!(ObjectType::classify(77), ObjectType::Untagged);
}

#[test]
fn player_keys_become_intent() {
    let mut state = UnitState::for_team(TeamId::ONE);
    let keys = PlayerKeys { forward: true, back: false, left: true, right: true, jump: true, fire: false };
    let i = player_controller(&mut state, keys);
    assert_eq!(i.forward, 1);
    assert_eq!(i.strafe, 0);
    assert!(!i.jump);
    assert!(!state.shoot);
    state.is_touching_ground = true;
    let keys = PlayerKeys { forward: false, back: true, left: true, right: false, jump: true, fire: true };
    let i = player_controller(&mut state, keys);
    assert_eq!(i.forward, -1);
    assert_eq!(i.strafe, -1);
    assert!(i.jump);
    assert!(state.shoot);
}

#[test]
fn indices_grouped_into_triangles() {
    let t = group_triangles(&vec![0, 1, 2, 2, 1, 3, 9]);
    assert_eq!(t, vec![[0, 1, 2], [2, 1, 3]]);
    assert!(group_triangles(&vec![4, 5]).is_empty());
}
