//! Projectiles and the resolution of completed attack and heal cycles.

use vstd::prelude::*;
use crate::buildings::Building;
use crate::constants::{ARROW_LINGER_MILLIS, RADIUS};
use crate::geometry::Vec2;
use crate::movement::{
    building_reach, separation_radius, spec_building_reach, spec_separation_radius,
};
use crate::player::{Boost, Players};
use crate::settings::PlayerColor;
use crate::spatial::{Body, Occupant};
use crate::spawn::{DespawnMsg, SpawnArrowMsg};
use crate::time::Timer;
use crate::units::{Action, Projectile, Unit};
use crate::world::{
    building_index, lemma_building_index, lemma_unit_index, unit_index, BuildingEntity,
    UnitEntity, World,
};

verus! {

/// Largest distance that a projectile counts as covered.
pub const TRAVEL_LIMIT: i64 = 4_000_000_000_000_000_000;

/// A projectile in flight from `start` to `destination`. `traveled` counts
/// the distance covered so far; it only ever grows, also past
/// `total_distance`, and stops counting at `TRAVEL_LIMIT`. The progress of
/// the flight is the covered part of the total distance, at most the whole.
#[derive(Clone, Copy, Debug, PartialEq, Eq, Structural)]
pub struct Arrow {
    pub color: PlayerColor,
    pub projectile: Projectile,
    pub damage: i32,
    pub start: Vec2,
    pub destination: Vec2,
    pub total_distance: i64,
    pub traveled: i64,
    pub despawn_timer: Timer,
}

impl Arrow {
    /// Both ends lie inside the coordinate limit, the total distance is the
    /// distance between them, and the distance covered lies between zero and
    /// `TRAVEL_LIMIT`.
    pub open spec fn wf(&self) -> bool {
        &&& self.start.in_bounds()
        &&& self.destination.in_bounds()
        &&& self.total_distance == self.destination@.minus(self.start@).length()
        &&& 0 <= self.traveled <= TRAVEL_LIMIT
        &&& self.despawn_timer.wf()
    }

    /// Whether the projectile has covered the whole distance.
    pub open spec fn spec_has_landed(&self) -> bool {
        self.traveled >= self.total_distance
    }

    /// A projectile of team `color` at the start of its flight.
    pub fn new(
        color: PlayerColor,
        projectile: Projectile,
        damage: i32,
        start: Vec2,
        destination: Vec2,
    ) -> (arrow: Arrow)
        requires
            start.in_bounds(),
            destination.in_bounds(),
        ensures
            arrow == (Arrow {
                color,
                projectile,
                damage,
                start,
                destination,
                total_distance: destination@.minus(start@).length() as i64,
                traveled: 0,
                despawn_timer: Timer::fresh((ARROW_LINGER_MILLIS * 1000) as u64),
            }),
            arrow.wf(),
    {
        let total_distance: i64 = destination.minus(&start).length();
        Arrow {
            color,
            projectile,
            damage,
            start,
            destination,
            total_distance,
            traveled: 0,
            despawn_timer: Timer::from_millis(ARROW_LINGER_MILLIS),
        }
    }

    /// Whether the projectile has covered the whole distance.
    #[verifier::when_used_as_spec(spec_has_landed)]
    pub fn has_landed(&self) -> (landed: bool)
        ensures
            landed == self.spec_has_landed(),
    {
        self.traveled >= self.total_distance
    }
}

/// A request to take `damage` from the health of the entity `entity`. A
/// negative damage gives health back.
#[derive(Clone, Copy, Debug, PartialEq, Eq, Structural)]
pub struct ApplyDamageMsg {
    pub entity: u64,
    pub damage: i32,
}

impl ApplyDamageMsg {
    pub fn new(entity: u64, damage: i32) -> (msg: ApplyDamageMsg)
        ensures
            msg == (ApplyDamageMsg { entity, damage }),
    {
        ApplyDamageMsg { entity, damage }
    }
}

/// The health that is left of `health` after `damage`, kept between zero and
/// `most`.
pub open spec fn spec_damaged(health: u32, damage: i32, most: u32) -> u32 {
    if health - damage < 0 {
        0
    } else if health - damage > most {
        most
    } else {
        (health - damage) as u32
    }
}

/// The health that is left of `health` after `damage`, kept between zero and
/// `most`.
pub fn damaged(health: u32, damage: i32, most: u32) -> (left: u32)
    ensures
        left == spec_damaged(health, damage, most),
        left <= most,
{
    let after: i64 = (health as i64) - (damage as i64);
    if after < 0 {
        0
    } else if after > most as i64 {
        most
    } else {
        after as u32
    }
}

/// Distance up to which the unit `actor` keeps acting on `target`: for a
/// melee unit the distance at which the two touch, for any other its range.
pub open spec fn spec_reach(actor: Unit, target: Body, longbow: bool) -> int {
    if actor.name.spec_is_melee() {
        match target {
            Body::Unit(unit) => spec_separation_radius(actor.name, unit.name),
            Body::Building(building) => spec_building_reach(actor.name, building.name),
        }
    } else {
        actor.spec_range(longbow) * RADIUS / 1000
    }
}

/// Whether `target` is within the reach of the unit `actor`.
pub open spec fn spec_in_reach(actor: UnitEntity, target: Occupant, longbow: bool) -> bool {
    actor.position@.dist_sq(target.position@) <= spec_reach(actor.unit, target.body, longbow)
        * spec_reach(actor.unit, target.body, longbow)
}

/// Whether `target` is within the reach of the unit `actor`.
pub fn in_reach(actor: &UnitEntity, target: &Occupant, players: &Players) -> (within: bool)
    requires
        actor.position.in_bounds(),
        target.position.in_bounds(),
    ensures
        within == spec_in_reach(
            *actor,
            *target,
            players.by_color(actor.unit.color).boosts.spec_has(Boost::Longbow),
        ),
{
    let reach: i64 = if actor.unit.name.is_melee() {
        match target.body {
            Body::Unit(unit) => separation_radius(actor.unit.name, unit.name),
            Body::Building(building) => building_reach(actor.unit.name, building.name),
        }
    } else {
        (actor.unit.range(players.get_by_color(actor.unit.color)) as i64) * RADIUS / 1000
    };
    assert(0 <= reach * reach <= 432_000 * 432_000) by (nonlinear_arith)
        requires
            0 <= reach <= 432_000,
    ;
    actor.position.distance_squared(&target.position) <= (reach * reach) as u128
}

/// What a completed cycle leaves behind: the world after it and the requests
/// it raises.
pub struct Resolution {
    pub units: Seq<UnitEntity>,
    pub buildings: Seq<BuildingEntity>,
    pub arrow: Option<SpawnArrowMsg>,
    pub despawn: Option<DespawnMsg>,
}

/// The requests that a completed cycle raises.
#[derive(Clone, Copy, Debug, PartialEq, Eq, Structural)]
pub struct CycleOutcome {
    pub arrow: Option<SpawnArrowMsg>,
    pub despawn: Option<DespawnMsg>,
}

/// The units with the action of the one at `at` set to idle.
pub open spec fn with_idle(units: Seq<UnitEntity>, at: int) -> Seq<UnitEntity> {
    units.update(
        at,
        UnitEntity { unit: Unit { action: Action::Idle, ..units[at].unit }, ..units[at] },
    )
}

/// What the completion of an attack or heal cycle of the unit `acting` does.
///
/// Nothing happens unless `acting` is a unit that attacks or heals. A unit
/// whose target is gone idles. A unit that launches projectiles raises a
/// request for one, from where it stands to where the target stands, and
/// goes on for as long as the target is there. Any other unit takes its
/// damage from the health of the target, which stays between
/// zero and the most the target can have, and a target left without health
/// is to be taken out of the world. Such a unit idles when the target has no
/// health left, when it healed the target back to full health, or when the
/// target is out of its reach; otherwise it goes on.
#[verifier::opaque]
pub open spec fn spec_resolve_cycle(
    units: Seq<UnitEntity>,
    buildings: Seq<BuildingEntity>,
    players: &Players,
    acting: u64,
) -> Resolution {
    let unchanged = Resolution { units, buildings, arrow: None, despawn: None };
    match unit_index(units, acting) {
        None => unchanged,
        Some(at) => {
            let actor = units[at];
            let longbow = players.by_color(actor.unit.color).boosts.spec_has(Boost::Longbow);
            match actor.unit.action.spec_target() {
                None => unchanged,
                Some(target) => match unit_index(units, target) {
                    Some(hit) => {
                        let victim = units[hit];
                        let within = spec_in_reach(actor, victim.spec_occupant(), longbow);
                        match actor.unit.name.spec_projectile() {
                            Some(projectile) => Resolution {
                                units,
                                buildings,
                                arrow: Some(
                                    SpawnArrowMsg {
                                        color: actor.unit.color,
                                        projectile,
                                        damage: actor.unit.name.spec_damage(),
                                        start: actor.position,
                                        destination: victim.position,
                                        entity: None,
                                    },
                                ),
                                despawn: None,
                            },
                            None => {
                                let most = victim.unit.name.spec_health();
                                let left = spec_damaged(
                                    victim.unit.health,
                                    actor.unit.name.spec_damage(),
                                    most,
                                );
                                let struck = units.update(
                                    hit,
                                    UnitEntity {
                                        unit: Unit { health: left, ..victim.unit },
                                        ..victim
                                    },
                                );
                                let done = left == 0 || (actor.unit.action is Heal && left == most)
                                    || !within;
                                Resolution {
                                    units: if done {
                                        with_idle(struck, at)
                                    } else {
                                        struck
                                    },
                                    buildings,
                                    arrow: None,
                                    despawn: if left == 0 {
                                        Some(DespawnMsg(target))
                                    } else {
                                        None
                                    },
                                }
                            },
                        }
                    },
                    None => match building_index(buildings, target) {
                        Some(hit) => {
                            let victim = buildings[hit];
                            let within = spec_in_reach(actor, victim.spec_occupant(), longbow);
                            match actor.unit.name.spec_projectile() {
                                Some(projectile) => Resolution {
                                    units,
                                    buildings,
                                    arrow: Some(
                                        SpawnArrowMsg {
                                            color: actor.unit.color,
                                            projectile,
                                            damage: actor.unit.name.spec_damage(),
                                            start: actor.position,
                                            destination: victim.position,
                                            entity: None,
                                        },
                                    ),
                                    despawn: None,
                                },
                                None => {
                                    let most = victim.building.name.spec_health();
                                    let left = spec_damaged(
                                        victim.building.health,
                                        actor.unit.name.spec_damage(),
                                        most,
                                    );
                                    let done = left == 0 || (actor.unit.action is Heal && left
                                        == most) || !within;
                                    Resolution {
                                        units: if done {
                                            with_idle(units, at)
                                        } else {
                                            units
                                        },
                                        buildings: buildings.update(
                                            hit,
                                            BuildingEntity {
                                                building: Building {
                                                    health: left,
                                                    ..victim.building
                                                },
                                                ..victim
                                            },
                                        ),
                                        arrow: None,
                                        despawn: if left == 0 {
                                            Some(DespawnMsg(target))
                                        } else {
                                            None
                                        },
                                    }
                                },
                            }
                        },
                        None => Resolution {
                            units: with_idle(units, at),
                            buildings,
                            arrow: None,
                            despawn: None,
                        },
                    },
                },
            }
        },
    }
}

/// Whether the health of every unit and building lies between zero and the
/// most its class can have.
pub open spec fn healthy(units: Seq<UnitEntity>, buildings: Seq<BuildingEntity>) -> bool {
    &&& forall|i: int| 0 <= i < units.len() ==> (#[trigger] units[i]).unit.wf()
    &&& forall|i: int| 0 <= i < buildings.len() ==> (#[trigger] buildings[i]).building.wf()
}

/// No completed cycle takes the health of a unit or building out of the
/// range of its class, and none adds or removes an entity.
pub proof fn lemma_resolve_cycle_keeps_health(
    units: Seq<UnitEntity>,
    buildings: Seq<BuildingEntity>,
    players: &Players,
    acting: u64,
)
    requires
        healthy(units, buildings),
    ensures
        healthy(
            spec_resolve_cycle(units, buildings, players, acting).units,
            spec_resolve_cycle(units, buildings, players, acting).buildings,
        ),
        spec_resolve_cycle(units, buildings, players, acting).units.len() == units.len(),
        spec_resolve_cycle(units, buildings, players, acting).buildings.len() == buildings.len(),
{
    reveal(spec_resolve_cycle);
    lemma_unit_index(units, acting);
    match unit_index(units, acting) {
        Some(at) => match units[at].unit.action.spec_target() {
            Some(target) => {
                lemma_unit_index(units, target);
                lemma_building_index(buildings, target);
            },
            None => {},
        },
        None => {},
    }
}

/// No damage request takes the health of a unit or building out of the range
/// of its class.
pub proof fn lemma_strike_keeps_health(
    units: Seq<UnitEntity>,
    buildings: Seq<BuildingEntity>,
    msg: ApplyDamageMsg,
)
    requires
        healthy(units, buildings),
    ensures
        healthy(spec_strike(units, buildings, msg).units, spec_strike(units, buildings, msg).buildings),
{
    lemma_unit_index(units, msg.entity);
    lemma_building_index(buildings, msg.entity);
}

/// Resolves the completion of an attack or heal cycle of the unit `acting`.
pub fn resolve_cycle(world: &mut World, players: &Players, acting: u64) -> (outcome: CycleOutcome)
    requires
        old(world).wf(),
    ensures
        final(world).units@ == spec_resolve_cycle(
            old(world).units@,
            old(world).buildings@,
            players,
            acting,
        ).units,
        final(world).buildings@ == spec_resolve_cycle(
            old(world).units@,
            old(world).buildings@,
            players,
            acting,
        ).buildings,
        final(world).arrows@ == old(world).arrows@,
        outcome.arrow == spec_resolve_cycle(
            old(world).units@,
            old(world).buildings@,
            players,
            acting,
        ).arrow,
        outcome.despawn == spec_resolve_cycle(
            old(world).units@,
            old(world).buildings@,
            players,
            acting,
        ).despawn,
        final(world).wf(),
        final(world).units@.len() == old(world).units@.len(),
        final(world).buildings@.len() == old(world).buildings@.len(),
{
    reveal(spec_resolve_cycle);
    let nothing: CycleOutcome = CycleOutcome { arrow: None, despawn: None };
    let at: usize = match world.find_unit(acting) {
        Some(at) => at,
        None => {
            return nothing;
        },
    };
    let actor: UnitEntity = world.units[at];
    let target: u64 = match actor.unit.action.target() {
        Some(target) => target,
        None => {
            return nothing;
        },
    };
    let heals: bool = match actor.unit.action {
        Action::Heal(_) => true,
        _ => false,
    };
    let mut outcome: CycleOutcome = nothing;
    let done: bool;
    match world.find_unit(target) {
        Some(hit) => {
            let victim: UnitEntity = world.units[hit];
            match actor.unit.name.projectile() {
                Some(projectile) => {
                    outcome.arrow = Some(
                        SpawnArrowMsg {
                            color: actor.unit.color,
                            projectile,
                            damage: actor.unit.name.damage(),
                            start: actor.position,
                            destination: victim.position,
                            entity: None,
                        },
                    );
                    done = false;
                },
                None => {
                    let within: bool = in_reach(&actor, &victim.occupant(), players);
                    let most: u32 = victim.unit.name.health();
                    let left: u32 = damaged(victim.unit.health, actor.unit.name.damage(), most);
                    let mut struck: UnitEntity = victim;
                    struck.unit.health = left;
                    world.units.set(hit, struck);
                    if left == 0 {
                        outcome.despawn = Some(DespawnMsg(target));
                    }
                    done = left == 0 || (heals && left == most) || !within;
                },
            }
        },
        None => match world.find_building(target) {
            Some(hit) => {
                let victim: BuildingEntity = world.buildings[hit];
                match actor.unit.name.projectile() {
                    Some(projectile) => {
                        outcome.arrow = Some(
                            SpawnArrowMsg {
                                color: actor.unit.color,
                                projectile,
                                damage: actor.unit.name.damage(),
                                start: actor.position,
                                destination: victim.position,
                                entity: None,
                            },
                        );
                        done = false;
                    },
                    None => {
                        let within: bool = in_reach(&actor, &victim.occupant(), players);
                        let most: u32 = victim.building.name.health();
                        let left: u32 = damaged(
                            victim.building.health,
                            actor.unit.name.damage(),
                            most,
                        );
                        let mut struck: BuildingEntity = victim;
                        struck.building.health = left;
                        world.buildings.set(hit, struck);
                        if left == 0 {
                            outcome.despawn = Some(DespawnMsg(target));
                        }
                        done = left == 0 || (heals && left == most) || !within;
                    },
                }
            },
            None => {
                done = true;
            },
        },
    }
    if done {
        let mut idle: UnitEntity = world.units[at];
        idle.unit.action = Action::Idle;
        world.units.set(at, idle);
    }
    outcome
}

/// What the completed cycles of several units leave behind.
pub struct Resolved {
    pub units: Seq<UnitEntity>,
    pub buildings: Seq<BuildingEntity>,
    pub outcomes: Seq<CycleOutcome>,
}

/// What the completed cycles of the units `acting` do, one after the other:
/// each is resolved in the world that the one before it left.
pub open spec fn spec_apply_damage(
    units: Seq<UnitEntity>,
    buildings: Seq<BuildingEntity>,
    players: &Players,
    acting: Seq<u64>,
) -> Resolved
    decreases acting.len(),
{
    if acting.len() == 0 {
        Resolved { units, buildings, outcomes: Seq::empty() }
    } else {
        let before = spec_apply_damage(units, buildings, players, acting.drop_last());
        let last = spec_resolve_cycle(before.units, before.buildings, players, acting.last());
        Resolved {
            units: last.units,
            buildings: last.buildings,
            outcomes: before.outcomes.push(
                CycleOutcome { arrow: last.arrow, despawn: last.despawn },
            ),
        }
    }
}

/// Resolves the completed cycles of the units `acting`, one after the other,
/// and collects the requests they raise in that order.
pub fn apply_damage(world: &mut World, players: &Players, acting: &Vec<u64>) -> (outcomes: Vec<
    CycleOutcome,
>)
    requires
        old(world).wf(),
    ensures
        final(world).units@ == spec_apply_damage(
            old(world).units@,
            old(world).buildings@,
            players,
            acting@,
        ).units,
        final(world).buildings@ == spec_apply_damage(
            old(world).units@,
            old(world).buildings@,
            players,
            acting@,
        ).buildings,
        outcomes@ == spec_apply_damage(
            old(world).units@,
            old(world).buildings@,
            players,
            acting@,
        ).outcomes,
        final(world).arrows@ == old(world).arrows@,
        final(world).wf(),
        outcomes@.len() == acting@.len(),
        final(world).units@.len() == old(world).units@.len(),
        final(world).buildings@.len() == old(world).buildings@.len(),
{
    let mut outcomes: Vec<CycleOutcome> = Vec::new();
    let n: usize = acting.len();
    let mut i: usize = 0;
    while i < n
        invariant
            n == acting@.len(),
            i <= n,
            world.wf(),
            outcomes@.len() == i,
            world.units@.len() == old(world).units@.len(),
            world.buildings@.len() == old(world).buildings@.len(),
            world.arrows@ == old(world).arrows@,
            world.units@ == spec_apply_damage(
                old(world).units@,
                old(world).buildings@,
                players,
                acting@.take(i as int),
            ).units,
            world.buildings@ == spec_apply_damage(
                old(world).units@,
                old(world).buildings@,
                players,
                acting@.take(i as int),
            ).buildings,
            outcomes@ == spec_apply_damage(
                old(world).units@,
                old(world).buildings@,
                players,
                acting@.take(i as int),
            ).outcomes,
        decreases n - i,
    {
        proof {
            assert(acting@.take(i + 1).drop_last() =~= acting@.take(i as int));
        }
        let outcome: CycleOutcome = resolve_cycle(world, players, acting[i]);
        outcomes.push(outcome);
        i = i + 1;
    }
    assert(acting@.take(n as int) =~= acting@);
    outcomes
}

/// What a damage request leaves behind.
pub struct Struck {
    pub units: Seq<UnitEntity>,
    pub buildings: Seq<BuildingEntity>,
    pub despawn: Option<DespawnMsg>,
}

/// What the damage request `msg` does: the first unit, or else the first
/// building, with the identity loses the damage from its health, which stays
/// between zero and the most it can have; an entity left without health is
/// to be taken out of the world. A request for an entity that is gone does
/// nothing.
pub open spec fn spec_strike(
    units: Seq<UnitEntity>,
    buildings: Seq<BuildingEntity>,
    msg: ApplyDamageMsg,
) -> Struck {
    match unit_index(units, msg.entity) {
        Some(hit) => {
            let victim = units[hit];
            let left = spec_damaged(victim.unit.health, msg.damage, victim.unit.name.spec_health());
            Struck {
                units: units.update(
                    hit,
                    UnitEntity { unit: Unit { health: left, ..victim.unit }, ..victim },
                ),
                buildings,
                despawn: if left == 0 {
                    Some(DespawnMsg(msg.entity))
                } else {
                    None
                },
            }
        },
        None => match building_index(buildings, msg.entity) {
            Some(hit) => {
                let victim = buildings[hit];
                let left = spec_damaged(
                    victim.building.health,
                    msg.damage,
                    victim.building.name.spec_health(),
                );
                Struck {
                    units,
                    buildings: buildings.update(
                        hit,
                        BuildingEntity {
                            building: Building { health: left, ..victim.building },
                            ..victim
                        },
                    ),
                    despawn: if left == 0 {
                        Some(DespawnMsg(msg.entity))
                    } else {
                        None
                    },
                }
            },
            None => Struck { units, buildings, despawn: None },
        },
    }
}

/// Carries out the damage request `msg`, as a projectile raises it on
/// impact.
pub fn strike(world: &mut World, msg: ApplyDamageMsg) -> (despawn: Option<DespawnMsg>)
    requires
        old(world).wf(),
    ensures
        final(world).units@ == spec_strike(old(world).units@, old(world).buildings@, msg).units,
        final(world).buildings@ == spec_strike(
            old(world).units@,
            old(world).buildings@,
            msg,
        ).buildings,
        despawn == spec_strike(old(world).units@, old(world).buildings@, msg).despawn,
        final(world).arrows@ == old(world).arrows@,
        final(world).wf(),
{
    match world.find_unit(msg.entity) {
        Some(hit) => {
            let mut victim: UnitEntity = world.units[hit];
            let left: u32 = damaged(victim.unit.health, msg.damage, victim.unit.name.health());
            victim.unit.health = left;
            world.units.set(hit, victim);
            if left == 0 {
                Some(DespawnMsg(msg.entity))
            } else {
                None
            }
        },
        None => match world.find_building(msg.entity) {
            Some(hit) => {
                let mut victim: BuildingEntity = world.buildings[hit];
                let left: u32 = damaged(
                    victim.building.health,
                    msg.damage,
                    victim.building.name.health(),
                );
                victim.building.health = left;
                world.buildings.set(hit, victim);
                if left == 0 {
                    Some(DespawnMsg(msg.entity))
                } else {
                    None
                }
            },
            None => None,
        },
    }
}

} // verus!
