//! Turns the physics engine's contact events of one tick into grounded-state
//! changes, damage and terminal outcomes.

use vstd::prelude::*;

use crate::object::{ColliderId, ObjectType, category_of_tag};
use crate::unit::UnitState;

verus! {

/// A contact notification between two colliders.
#[derive(Clone, Copy, Debug, PartialEq, Eq, Structural)]
pub enum ContactEvent {
    Started(ColliderId, ColliderId),
    Stopped(ColliderId, ColliderId),
}

/// A live collider and the user data it was created with.
#[derive(Clone, Copy, Debug, PartialEq, Eq, Structural)]
pub struct TaggedCollider {
    pub handle: ColliderId,
    pub tag: u128,
}

/// A live unit as the resolver sees it: its collider, its state, and whether
/// it is the locally controlled player.
#[derive(Clone, Copy, Debug, PartialEq, Eq, Structural)]
pub struct ContactUnit {
    pub collider: ColliderId,
    pub state: UnitState,
    pub is_player: bool,
}

/// What must happen to a unit whose hit points ran out.
#[derive(Clone, Copy, Debug, PartialEq, Eq, Structural)]
pub enum Terminal {
    /// The player was defeated: the match ends.
    EndMatch,
    /// The unit at this index of the resolver's list leaves the world.
    Despawn(usize),
}

/// `i` is the first position of `h` in `keys`.
pub open spec fn is_first_index(keys: Seq<ColliderId>, h: ColliderId, i: int) -> bool {
    &&& 0 <= i < keys.len()
    &&& keys[i] == h
    &&& forall|j: int| 0 <= j < i ==> keys[j] != h
}

/// The first position of `h` in `keys`, if it occurs.
pub open spec fn first_index(keys: Seq<ColliderId>, h: ColliderId) -> Option<int> {
    if exists|i: int| is_first_index(keys, h, i) {
        Some(choose|i: int| is_first_index(keys, h, i))
    } else {
        None
    }
}

pub open spec fn unit_keys(units: Seq<ContactUnit>) -> Seq<ColliderId> {
    units.map_values(|u: ContactUnit| u.collider)
}

pub open spec fn collider_keys(cols: Seq<TaggedCollider>) -> Seq<ColliderId> {
    cols.map_values(|c: TaggedCollider| c.handle)
}

/// The category of collider `h`; a collider that is gone has none.
pub open spec fn collider_category(cols: Seq<TaggedCollider>, h: ColliderId) -> ObjectType {
    match first_index(collider_keys(cols), h) {
        Some(i) => category_of_tag(cols[i].tag),
        None => ObjectType::Untagged,
    }
}

pub open spec fn is_started(e: ContactEvent) -> bool {
    e is Started
}

pub open spec fn first_end(e: ContactEvent) -> ColliderId {
    match e {
        ContactEvent::Started(a, _) => a,
        ContactEvent::Stopped(a, _) => a,
    }
}

pub open spec fn second_end(e: ContactEvent) -> ColliderId {
    match e {
        ContactEvent::Started(_, b) => b,
        ContactEvent::Stopped(_, b) => b,
    }
}

/// The unit an event concerns (the first end if it is a unit, else the second)
/// together with the collider on the other end.
pub open spec fn event_target(keys: Seq<ColliderId>, e: ContactEvent) -> Option<(int, ColliderId)> {
    match first_index(keys, first_end(e)) {
        Some(i) => Some((i, second_end(e))),
        None => match first_index(keys, second_end(e)) {
            Some(i) => Some((i, first_end(e))),
            None => None,
        },
    }
}

/// A unit after one contact with a collider of category `other`: terrain
/// contacts set or clear the grounded flag, a bullet contact that starts
/// costs one hit point.
pub open spec fn touched(u: ContactUnit, started: bool, other: ObjectType) -> ContactUnit {
    if other == ObjectType::Terrain {
        ContactUnit { state: UnitState { is_touching_ground: started, ..u.state }, ..u }
    } else if other == ObjectType::Bullet && started {
        ContactUnit { state: UnitState { hp: (u.state.hp - 1) as i32, ..u.state }, ..u }
    } else {
        u
    }
}

/// The outcomes owed when unit `i` takes that contact: one, on the hit that
/// brings its hit points from positive to zero or below.
pub open spec fn outcomes_of(u: ContactUnit, i: int, started: bool, other: ObjectType) -> Seq<Terminal> {
    if other == ObjectType::Bullet && started && u.state.hp > 0 && u.state.hp - 1 <= 0 {
        if u.is_player {
            seq![Terminal::EndMatch]
        } else {
            seq![Terminal::Despawn(i as usize)]
        }
    } else {
        seq![]
    }
}

/// Units and outcomes after processing `events` in arrival order, with units
/// looked up by the collider keys `keys`.
pub open spec fn resolve_from(
    keys: Seq<ColliderId>,
    units: Seq<ContactUnit>,
    cols: Seq<TaggedCollider>,
    events: Seq<ContactEvent>,
) -> (Seq<ContactUnit>, Seq<Terminal>)
    decreases events.len(),
{
    if events.len() == 0 {
        (units, seq![])
    } else {
        let (us, ts) = resolve_from(keys, units, cols, events.drop_last());
        let e = events.last();
        match event_target(keys, e) {
            Some((i, other)) => {
                let cat = collider_category(cols, other);
                (us.update(i, touched(us[i], is_started(e), cat)), ts + outcomes_of(us[i], i, is_started(e), cat))
            },
            None => (us, ts),
        }
    }
}

/// Units and outcomes after one tick's contact events.
pub open spec fn resolve_events(
    units: Seq<ContactUnit>,
    cols: Seq<TaggedCollider>,
    events: Seq<ContactEvent>,
) -> (Seq<ContactUnit>, Seq<Terminal>) {
    resolve_from(unit_keys(units), units, cols, events)
}

/// Position of the unit whose collider is `h`, if any.
fn find_unit(units: &Vec<ContactUnit>, h: ColliderId) -> (r: Option<usize>)
    ensures
        match r {
            Some(i) => first_index(unit_keys(units@), h) == Some(i as int),
            None => first_index(unit_keys(units@), h) is None,
        },
{
    let ghost keys = unit_keys(units@);
    let mut i: usize = 0;
    while i < units.len()
        invariant
            i <= units.len(),
            keys == unit_keys(units@),
            forall|j: int| 0 <= j < i ==> keys[j] != h,
        decreases units.len() - i,
    {
        if units[i].collider == h {
            assert(is_first_index(keys, h, i as int));
            proof {
                let k = choose|k: int| is_first_index(keys, h, k);
                assert(!(k < i) && !(i < k));
            }
            return Some(i);
        }
        i += 1;
    }
    assert(!exists|k: int| is_first_index(keys, h, k));
    None
}

/// The category of collider `h` among the live colliders.
fn category_of(colliders: &Vec<TaggedCollider>, h: ColliderId) -> (r: ObjectType)
    ensures
        r == collider_category(colliders@, h),
{
    let ghost keys = collider_keys(colliders@);
    let mut i: usize = 0;
    while i < colliders.len()
        invariant
            i <= colliders.len(),
            keys == collider_keys(colliders@),
            forall|j: int| 0 <= j < i ==> keys[j] != h,
        decreases colliders.len() - i,
    {
        if colliders[i].handle == h {
            assert(is_first_index(keys, h, i as int));
            proof {
                let k = choose|k: int| is_first_index(keys, h, k);
                assert(!(k < i) && !(i < k));
            }
            return ObjectType::classify(colliders[i].tag);
        }
        i += 1;
    }
    assert(!exists|k: int| is_first_index(keys, h, k));
    ObjectType::Untagged
}

/// Applies one tick's contact events, in arrival order, to the live units.
/// `colliders` lists every live collider with its tag. Returns the terminal
/// outcomes in the order they arose. Every unit's hit points must have room
/// for one decrement per event.
pub fn resolve_contacts(
    units: &mut Vec<ContactUnit>,
    colliders: &Vec<TaggedCollider>,
    events: &Vec<ContactEvent>,
) -> (r: Vec<Terminal>)
    requires
        forall|i: int| 0 <= i < old(units).len() ==> old(units)[i].state.hp >= i32::MIN + events.len(),
    ensures
        (final(units)@, r@) == resolve_events(old(units)@, colliders@, events@),
{
    let ghost units0 = units@;
    let ghost keys = unit_keys(units@);
    let mut out: Vec<Terminal> = Vec::new();
    let mut k: usize = 0;
    while k < events.len()
        invariant
            k <= events.len(),
            keys == unit_keys(units0),
            unit_keys(units@) == keys,
            units@.len() == units0.len(),
            (units@, out@) == resolve_from(keys, units0, colliders@, events@.subrange(0, k as int)),
            forall|i: int| 0 <= i < units0.len() ==> units0[i].state.hp >= i32::MIN + events.len(),
            forall|i: int| 0 <= i < units@.len() ==> units@[i].state.hp >= units0[i].state.hp - k,
        decreases events.len() - k,
    {
        let e = events[k];
        let (a, b, started) = match e {
            ContactEvent::Started(a, b) => (a, b, true),
            ContactEvent::Stopped(a, b) => (a, b, false),
        };
        let target = match find_unit(units, a) {
            Some(i) => Some((i, b)),
            None => match find_unit(units, b) {
                Some(i) => Some((i, a)),
                None => None,
            },
        };
        let ghost prev_units = units@;
        let ghost prev_out = out@;
        assert(events@.subrange(0, k + 1).drop_last() == events@.subrange(0, k as int));
        assert(events@.subrange(0, k + 1).last() == e);
        match target {
            Some((i, other)) => {
                let cat = category_of(colliders, other);
                let mut u = units[i];
                if cat == ObjectType::Terrain {
                    u.state.is_touching_ground = started;
                } else if cat == ObjectType::Bullet && started {
                    let before = u.state.hp;
                    u.state.hp = before - 1;
                    if before > 0 && u.state.hp <= 0 {
                        if u.is_player {
                            out.push(Terminal::EndMatch);
                        } else {
                            out.push(Terminal::Despawn(i));
                        }
                    }
                }
                units.set(i, u);
                assert(units@ == prev_units.update(i as int, touched(prev_units[i as int], started, cat)));
                assert(out@ == prev_out + outcomes_of(prev_units[i as int], i as int, started, cat));
                assert(unit_keys(units@) =~= keys);
            },
            None => {},
        }
        k += 1;
    }
    assert(events@.subrange(0, events.len() as int) == events@);
    out
}

/// Event `e` is a bullet starting to touch unit `i`.
pub open spec fn is_bullet_hit(keys: Seq<ColliderId>, cols: Seq<TaggedCollider>, e: ContactEvent, i: int) -> bool {
    &&& is_started(e)
    &&& event_target(keys, e) matches Some((j, other))
    &&& j == i
    &&& collider_category(cols, other) == ObjectType::Bullet
}

/// Event `e` is a terrain contact of unit `i`, starting or stopping.
pub open spec fn is_terrain_contact(keys: Seq<ColliderId>, cols: Seq<TaggedCollider>, e: ContactEvent, i: int) -> bool {
    &&& event_target(keys, e) matches Some((j, other))
    &&& j == i
    &&& collider_category(cols, other) == ObjectType::Terrain
}

/// The terrain contacts of unit `i` in arrival order, `true` for a start and
/// `false` for a stop.
pub open spec fn terrain_contacts(
    keys: Seq<ColliderId>,
    cols: Seq<TaggedCollider>,
    events: Seq<ContactEvent>,
    i: int,
) -> Seq<bool> {
    events.filter_map(
        |e: ContactEvent|
            if is_terrain_contact(keys, cols, e, i) {
                Some(is_started(e))
            } else {
                None
            },
    )
}

/// Starts minus stops.
pub open spec fn net_contacts(kinds: Seq<bool>) -> int
    decreases kinds.len(),
{
    if kinds.len() == 0 {
        0
    } else {
        net_contacts(kinds.drop_last()) + if kinds.last() {
            1int
        } else {
            -1int
        }
    }
}

/// Starting from `start` open contacts, every stop closes a contact opened
/// before it and no two contacts are open at once.
pub open spec fn contacts_paired(start: int, kinds: Seq<bool>) -> bool {
    forall|k: int| 0 <= k <= kinds.len() ==> 0 <= #[trigger] (start + net_contacts(kinds.take(k))) <= 1
}

proof fn lemma_resolve_hp(
    keys: Seq<ColliderId>,
    units: Seq<ContactUnit>,
    cols: Seq<TaggedCollider>,
    events: Seq<ContactEvent>,
    i: int,
)
    requires
        0 <= i < units.len(),
        keys.len() == units.len(),
        units[i].state.hp >= i32::MIN + events.len(),
    ensures
        resolve_from(keys, units, cols, events).0.len() == units.len(),
        resolve_from(keys, units, cols, events).0[i].state.hp == units[i].state.hp
            - events.filter(|e: ContactEvent| is_bullet_hit(keys, cols, e, i)).len(),
    decreases events.len(),
{
    if events.len() > 0 {
        reveal(Seq::filter);
        let pred = |e: ContactEvent| is_bullet_hit(keys, cols, e, i);
        lemma_resolve_hp(keys, units, cols, events.drop_last(), i);
        events.drop_last().lemma_filter_len(pred);
        let us = resolve_from(keys, units, cols, events.drop_last()).0;
        let e = events.last();
        if let Some((j, other)) = event_target(keys, e) {
            let cat = collider_category(cols, other);
            if j == i && cat == ObjectType::Bullet && is_started(e) {
                assert(pred(e));
                assert(us[i].state.hp - 1 >= i32::MIN);
            } else {
                assert(!pred(e));
            }
        } else {
            assert(!pred(e));
        }
    }
}

proof fn lemma_resolve_ground(
    keys: Seq<ColliderId>,
    units: Seq<ContactUnit>,
    cols: Seq<TaggedCollider>,
    events: Seq<ContactEvent>,
    i: int,
)
    requires
        0 <= i < units.len(),
        keys.len() == units.len(),
    ensures
        resolve_from(keys, units, cols, events).0.len() == units.len(),
        resolve_from(keys, units, cols, events).0[i].state.is_touching_ground == if terrain_contacts(keys, cols, events, i).len() > 0 {
            terrain_contacts(keys, cols, events, i).last()
        } else {
            units[i].state.is_touching_ground
        },
    decreases events.len(),
{
    if events.len() > 0 {
        lemma_resolve_ground(keys, units, cols, events.drop_last(), i);
    }
}

/// Within one tick, a unit's hit points never rise, and they drop by exactly
/// one for every started contact between the unit and a bullet.
pub proof fn lemma_hp_drops_once_per_bullet_hit(
    units: Seq<ContactUnit>,
    cols: Seq<TaggedCollider>,
    events: Seq<ContactEvent>,
    i: int,
)
    requires
        0 <= i < units.len(),
        units[i].state.hp >= i32::MIN + events.len(),
    ensures
        resolve_events(units, cols, events).0[i].state.hp == units[i].state.hp
            - events.filter(|e: ContactEvent| is_bullet_hit(unit_keys(units), cols, e, i)).len(),
        resolve_events(units, cols, events).0[i].state.hp <= units[i].state.hp,
{
    lemma_resolve_hp(unit_keys(units), units, cols, events, i);
}

/// Where a unit's terrain contacts are paired (each stop closes an earlier
/// start, one contact open at a time), the unit is grounded after the tick
/// exactly when the open contacts it began with plus the starts minus the
/// stops is positive.
pub proof fn lemma_grounded_iff_open_contacts(
    units: Seq<ContactUnit>,
    cols: Seq<TaggedCollider>,
    events: Seq<ContactEvent>,
    i: int,
)
    requires
        0 <= i < units.len(),
        contacts_paired(
            if units[i].state.is_touching_ground { 1 } else { 0 },
            terrain_contacts(unit_keys(units), cols, events, i),
        ),
    ensures
        resolve_events(units, cols, events).0[i].state.is_touching_ground <==> (if units[i].state.is_touching_ground {
            1int
        } else {
            0int
        }) + net_contacts(terrain_contacts(unit_keys(units), cols, events, i)) > 0,
{
    let keys = unit_keys(units);
    let kinds = terrain_contacts(keys, cols, events, i);
    let start: int = if units[i].state.is_touching_ground { 1 } else { 0 };
    lemma_resolve_ground(keys, units, cols, events, i);
    if kinds.len() > 0 {
        let n = kinds.len() as int;
        assert(kinds.take(n) =~= kinds);
        assert(kinds.take(n - 1) =~= kinds.drop_last());
        assert(0 <= start + net_contacts(kinds.take(n)) <= 1);
        assert(0 <= start + net_contacts(kinds.take(n - 1)) <= 1);
    } else {
        assert(net_contacts(kinds) == 0);
    }
}

} // verus!
