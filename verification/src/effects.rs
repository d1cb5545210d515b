//! Effects on entities: where they play, and what waits for an entity that
//! is not in the world yet.

use vstd::prelude::*;
use crate::constants::{BUILDING_SCALE, UNIT_SCALE};
use crate::geometry::Vec2;
use crate::world::{building_index, unit_index, BuildingEntity, UnitEntity, World};

verus! {

/// The kinds of effect.
#[derive(Clone, Copy, Debug, PartialEq, Eq, Structural)]
pub enum Effect {
    Dust,
    Explosion,
}

/// A request to play an effect on the entity `entity`.
#[derive(Clone, Copy, Debug, PartialEq, Eq, Structural)]
pub struct EffectMsg {
    pub effect: Effect,
    pub entity: u64,
}

impl EffectMsg {
    /// A request for dust on `entity`.
    pub fn dust(entity: u64) -> (msg: EffectMsg)
        ensures
            msg == (EffectMsg { effect: Effect::Dust, entity }),
    {
        EffectMsg { effect: Effect::Dust, entity }
    }

    /// A request for an explosion on `entity`.
    pub fn explosion(entity: u64) -> (msg: EffectMsg)
        ensures
            msg == (EffectMsg { effect: Effect::Explosion, entity }),
    {
        EffectMsg { effect: Effect::Explosion, entity }
    }
}

/// A request for an effect that waits for its entity to appear.
#[derive(Clone, Copy, Debug, PartialEq, Eq, Structural)]
pub struct DeferredEffectMsg {
    pub effect: Effect,
    pub entity: u64,
}

/// How an effect plays: around `position`, over an area of `width` by
/// `height`, with `particles` particles spread over the fraction `spread` of
/// that area and drawn at `scale` or more. Lengths are in thousandths of a
/// world unit, fractions in thousandths. `sound` tells whether the effect is
/// heard.
#[derive(Clone, Copy, Debug, PartialEq, Eq, Structural)]
pub struct EffectPlan {
    pub effect: Effect,
    pub position: Vec2,
    pub width: i64,
    pub height: i64,
    pub particles: u32,
    pub spread: i64,
    pub scale: i64,
    pub sound: bool,
}

/// What becomes of a request for an effect.
#[derive(Clone, Copy, Debug, PartialEq, Eq, Structural)]
pub enum EffectRoute {
    /// The entity is in the world and the effect plays.
    Play(EffectPlan),
    /// The entity is not in the world yet; the request waits for the next
    /// tick.
    Defer(DeferredEffectMsg),
}

/// What becomes of the request `msg`.
///
/// On a building the effect plays large and with many particles, on a unit
/// small and with few; a building is looked for first. Only explosions are
/// heard. Where neither has the identity the request is deferred.
pub open spec fn spec_route(
    units: Seq<UnitEntity>,
    buildings: Seq<BuildingEntity>,
    msg: EffectMsg,
) -> EffectRoute {
    match building_index(buildings, msg.entity) {
        Some(i) => EffectRoute::Play(
            EffectPlan {
                effect: msg.effect,
                position: buildings[i].position,
                width: (buildings[i].building.name.spec_size().0 * BUILDING_SCALE) as i64,
                height: (buildings[i].building.name.spec_size().1 * BUILDING_SCALE) as i64,
                particles: 20,
                spread: 300,
                scale: 1000,
                sound: msg.effect == Effect::Explosion,
            },
        ),
        None => match unit_index(units, msg.entity) {
            Some(i) => EffectRoute::Play(
                EffectPlan {
                    effect: msg.effect,
                    position: units[i].position,
                    width: (units[i].unit.name.spec_size() * UNIT_SCALE) as i64,
                    height: (units[i].unit.name.spec_size() * UNIT_SCALE) as i64,
                    particles: 3,
                    spread: 100,
                    scale: 500,
                    sound: msg.effect == Effect::Explosion,
                },
            ),
            None => EffectRoute::Defer(
                DeferredEffectMsg { effect: msg.effect, entity: msg.entity },
            ),
        },
    }
}

/// Decides what becomes of the request `msg`.
pub fn route(world: &World, msg: EffectMsg) -> (routed: EffectRoute)
    ensures
        routed == spec_route(world.units@, world.buildings@, msg),
{
    let sound: bool = match msg.effect {
        Effect::Explosion => true,
        Effect::Dust => false,
    };
    match world.find_building(msg.entity) {
        Some(i) => {
            let entity: BuildingEntity = world.buildings[i];
            let size: (u32, u32) = entity.building.name.size();
            EffectRoute::Play(
                EffectPlan {
                    effect: msg.effect,
                    position: entity.position,
                    width: (size.0 as i64) * BUILDING_SCALE,
                    height: (size.1 as i64) * BUILDING_SCALE,
                    particles: 20,
                    spread: 300,
                    scale: 1000,
                    sound,
                },
            )
        },
        None => match world.find_unit(msg.entity) {
            Some(i) => {
                let entity: UnitEntity = world.units[i];
                let size: i64 = entity.unit.name.world_size();
                EffectRoute::Play(
                    EffectPlan {
                        effect: msg.effect,
                        position: entity.position,
                        width: size,
                        height: size,
                        particles: 3,
                        spread: 100,
                        scale: 500,
                        sound,
                    },
                )
            },
            None => EffectRoute::Defer(
                DeferredEffectMsg { effect: msg.effect, entity: msg.entity },
            ),
        },
    }
}

/// Decides for every request, in order, what becomes of it. No request is
/// dropped: each one plays or is deferred.
pub fn effect_message(world: &World, requests: &Vec<EffectMsg>) -> (routes: Vec<EffectRoute>)
    ensures
        routes@.len() == requests@.len(),
        forall|i: int|
            0 <= i < requests@.len() ==> #[trigger] routes@[i] == spec_route(
                world.units@,
                world.buildings@,
                requests@[i],
            ),
{
    let mut routes: Vec<EffectRoute> = Vec::new();
    let n: usize = requests.len();
    let mut i: usize = 0;
    while i < n
        invariant
            n == requests@.len(),
            i <= n,
            routes@.len() == i,
            forall|k: int|
                0 <= k < i ==> #[trigger] routes@[k] == spec_route(
                    world.units@,
                    world.buildings@,
                    requests@[k],
                ),
        decreases n - i,
    {
        routes.push(route(world, requests[i]));
        i = i + 1;
    }
    routes
}

/// Turns the requests that waited for a tick back into requests, in their
/// order.
pub fn deferred_message(deferred: &Vec<DeferredEffectMsg>) -> (requests: Vec<EffectMsg>)
    ensures
        requests@.len() == deferred@.len(),
        forall|i: int|
            0 <= i < deferred@.len() ==> #[trigger] requests@[i] == (EffectMsg {
                effect: deferred@[i].effect,
                entity: deferred@[i].entity,
            }),
{
    let mut requests: Vec<EffectMsg> = Vec::new();
    let n: usize = deferred.len();
    let mut i: usize = 0;
    while i < n
        invariant
            n == deferred@.len(),
            i <= n,
            requests@.len() == i,
            forall|k: int|
                0 <= k < i ==> #[trigger] requests@[k] == (EffectMsg {
                    effect: deferred@[k].effect,
                    entity: deferred@[k].entity,
                }),
        decreases n - i,
    {
        requests.push(EffectMsg { effect: deferred[i].effect, entity: deferred[i].entity });
        i = i + 1;
    }
    requests
}

} // verus!
