use ironrift::battle::{battle_handler, new_battle, Battle, Position, Team, TeamId};
use ironrift::npc::{spawn_npcs, SpawnQueue};

#[test]
fn start_queues_every_team_once() {
    let mut battle = new_battle();
    let mut queue = SpawnQueue::new();
    battle_handler(&mut battle, &mut queue);
    assert!(battle.started);
    assert_eq!(queue.waiting.len(), 40);
    assert!(queue.waiting[..20].iter().all(|e| *e == (Position::new(50000, 1000, 0), TeamId::ONE)));
    assert!(queue.waiting[20..].iter().all(|e| *e == (Position::new(-50000, 1000, 0), TeamId::TWO)));
    battle_handler(&mut battle, &mut queue);
    assert_eq!(queue.waiting.len(), 40);
    assert!(battle.started);
}

#[test]
fn start_then_drain_spawns_all_units() {
    let mut battle = new_battle();
    let mut queue = SpawnQueue::new();
    battle_handler(&mut battle, &mut queue);
    let units = spawn_npcs(&mut queue);
    assert_eq!(units.len(), 40);
    assert_eq!(queue.waiting.len(), 0);
    battle_handler(&mut battle, &mut queue);
    assert!(spawn_npcs(&mut queue).is_empty());
}

#[test]
fn default_battle_queues_nothing() {
    let mut battle = Battle::default();
    assert_eq!(battle.teams.len(), 2);
    assert!(!battle.started);
    let mut queue = SpawnQueue::new();
    battle_handler(&mut battle, &mut queue);
    assert!(queue.waiting.is_empty());
    assert!(battle.started);
}

#[test]
fn negative_team_size_queues_nothing() {
    let mut battle = Battle {
        teams: vec![Team { id: TeamId::TWO, spawn_point: Position::new(1, 1, 1) }],
        units_per_team: -4,
        started: false,
    };
    let mut queue = SpawnQueue::new();
    queue.waiting.push((Position::new(0, 0, 0), TeamId::NONE));
    battle_handler(&mut battle, &mut queue);
    assert_eq!(queue.waiting, vec![(Position::new(0, 0, 0), TeamId::NONE)]);
}

#[test]
fn start_appends_after_existing_entries() {
    let mut battle = Battle {
        teams: vec![
            Team { id: TeamId::TWO, spawn_point: Position::new(1, 1, 1) },
            Team { id: TeamId::ONE, spawn_point: Position::new(2, 2, 2) },
        ],
        units_per_team: 2,
        started: false,
    };
    let mut queue = SpawnQueue::new();
    queue.waiting.push((Position::new(0, 0, 0), TeamId::NONE));
    battle_handler(&mut battle, &mut queue);
    assert_eq!(
        queue.waiting,
        vec![
            (Position::new(0, 0, 0), TeamId::NONE),
            (Position::new(1, 1, 1), TeamId::TWO),
            (Position::new(1, 1, 1), TeamId::TWO),
            (Position::new(2, 2, 2), TeamId::ONE),
            (Position::new(2, 2, 2), TeamId::ONE),
        ]
    );
}
