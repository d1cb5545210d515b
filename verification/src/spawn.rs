//! Requests to bring entities into the world and to take them out of it.

use vstd::prelude::*;
use crate::buildings::{Building, BuildingName};
use crate::combat::Arrow;
use crate::constants::{ARROW_LINGER_MILLIS, DOOR_OFFSET};
use crate::geometry::{Vec2, COORD_LIMIT, V2};
use crate::map::Lane;
use crate::player::Players;
use crate::settings::PlayerColor;
use crate::time::Timer;
use crate::units::{Action, Projectile, Unit, UnitName};
use crate::world::{distinct_ids, id_is_free, ArrowEntity, BuildingEntity, UnitEntity, World};

verus! {

/// A request for a building. `entity` is the identity that a peer has given
/// the building, where the request came over the network.
#[derive(Clone, Copy, Debug, PartialEq, Eq, Structural)]
pub struct SpawnBuildingMsg {
    pub color: PlayerColor,
    pub building: BuildingName,
    pub position: Vec2,
    pub is_base: bool,
    pub health: u32,
    pub with_units: bool,
    pub dust_effect: bool,
    pub entity: Option<u64>,
}

/// A request for a unit. Without a position the unit appears at the door of
/// its team's base; without a lane it gets one of its player's direction.
#[derive(Clone, Copy, Debug, PartialEq, Eq, Structural)]
pub struct SpawnUnitMsg {
    pub color: PlayerColor,
    pub unit: UnitName,
    pub position: Option<Vec2>,
    pub on_building: Option<u64>,
    pub lane: Option<Lane>,
    pub dust_effect: bool,
    pub entity: Option<u64>,
}

impl SpawnUnitMsg {
    /// A request for a unit of class `unit` for the team `color`, with
    /// everything else left open.
    pub fn new(color: PlayerColor, unit: UnitName) -> (msg: SpawnUnitMsg)
        ensures
            msg == (SpawnUnitMsg {
                color,
                unit,
                position: None,
                on_building: None,
                lane: None,
                dust_effect: false,
                entity: None,
            }),
    {
        SpawnUnitMsg {
            color,
            unit,
            position: None,
            on_building: None,
            lane: None,
            dust_effect: false,
            entity: None,
        }
    }
}

/// A request for a projectile.
#[derive(Clone, Copy, Debug, PartialEq, Eq, Structural)]
pub struct SpawnArrowMsg {
    pub color: PlayerColor,
    pub projectile: Projectile,
    pub damage: i32,
    pub start: Vec2,
    pub destination: Vec2,
    pub entity: Option<u64>,
}

/// A request to take the entity with the given identity out of the world.
#[derive(Clone, Copy, Debug, PartialEq, Eq, Structural)]
pub struct DespawnMsg(pub u64);

/// Whether the unit `entity` stays when `id` is taken out: it does unless it
/// has the identity itself or stands on the building that has it.
pub open spec fn unit_stays(entity: UnitEntity, id: u64) -> bool {
    entity.id != id && entity.unit.on_building != Some(id)
}

/// The units that stay when `id` is taken out, in their order.
pub open spec fn units_without(units: Seq<UnitEntity>, id: u64) -> Seq<UnitEntity>
    decreases units.len(),
{
    if units.len() == 0 {
        Seq::empty()
    } else {
        let before = units_without(units.drop_last(), id);
        if unit_stays(units.last(), id) {
            before.push(units.last())
        } else {
            before
        }
    }
}

/// The buildings that stay when `id` is taken out, in their order.
pub open spec fn buildings_without(buildings: Seq<BuildingEntity>, id: u64) -> Seq<BuildingEntity>
    decreases buildings.len(),
{
    if buildings.len() == 0 {
        Seq::empty()
    } else {
        let before = buildings_without(buildings.drop_last(), id);
        if buildings.last().id != id {
            before.push(buildings.last())
        } else {
            before
        }
    }
}

/// The projectiles that stay when `id` is taken out, in their order.
pub open spec fn arrows_without(arrows: Seq<ArrowEntity>, id: u64) -> Seq<ArrowEntity>
    decreases arrows.len(),
{
    if arrows.len() == 0 {
        Seq::empty()
    } else {
        let before = arrows_without(arrows.drop_last(), id);
        if arrows.last().id != id {
            before.push(arrows.last())
        } else {
            before
        }
    }
}

/// The units that stay are units that were there, none of them has the
/// identity or stands on the building that has it, and taking the identity
/// out of them once more changes nothing.
pub proof fn lemma_units_without(units: Seq<UnitEntity>, id: u64)
    ensures
        forall|k: int|
            0 <= k < units_without(units, id).len() ==> units.contains(
                #[trigger] units_without(units, id)[k],
            ) && unit_stays(units_without(units, id)[k], id),
        units_without(units_without(units, id), id) == units_without(units, id),
        units_without(units, id).len() <= units.len(),
    decreases units.len(),
{
    if units.len() > 0 {
        let rest = units.drop_last();
        lemma_units_without(rest, id);
        let before = units_without(rest, id);
        assert forall|k: int| 0 <= k < units_without(units, id).len() implies units.contains(
            #[trigger] units_without(units, id)[k],
        ) && unit_stays(units_without(units, id)[k], id) by {
            let kept = units_without(units, id)[k];
            if k < before.len() {
                assert(kept == before[k]);
                let at = choose|at: int| 0 <= at < rest.len() && rest[at] == kept;
                assert(units[at] == kept);
            } else {
                assert(units[units.len() - 1] == kept);
            }
        }
        if unit_stays(units.last(), id) {
            assert(before.push(units.last()).drop_last() =~= before);
        }
    }
}

/// The buildings that stay are buildings that were there, none of them has
/// the identity, and taking it out of them once more changes nothing.
pub proof fn lemma_buildings_without(buildings: Seq<BuildingEntity>, id: u64)
    ensures
        forall|k: int|
            0 <= k < buildings_without(buildings, id).len() ==> buildings.contains(
                #[trigger] buildings_without(buildings, id)[k],
            ) && buildings_without(buildings, id)[k].id != id,
        buildings_without(buildings_without(buildings, id), id) == buildings_without(buildings, id),
    decreases buildings.len(),
{
    if buildings.len() > 0 {
        let rest = buildings.drop_last();
        lemma_buildings_without(rest, id);
        let before = buildings_without(rest, id);
        assert forall|k: int|
            0 <= k < buildings_without(buildings, id).len() implies buildings.contains(
            #[trigger] buildings_without(buildings, id)[k],
        ) && buildings_without(buildings, id)[k].id != id by {
            let kept = buildings_without(buildings, id)[k];
            if k < before.len() {
                assert(kept == before[k]);
                let at = choose|at: int| 0 <= at < rest.len() && rest[at] == kept;
                assert(buildings[at] == kept);
            } else {
                assert(buildings[buildings.len() - 1] == kept);
            }
        }
        if buildings.last().id != id {
            assert(before.push(buildings.last()).drop_last() =~= before);
        }
    }
}

/// The projectiles that stay are projectiles that were there, none of them
/// has the identity, and taking it out of them once more changes nothing.
pub proof fn lemma_arrows_without(arrows: Seq<ArrowEntity>, id: u64)
    ensures
        forall|k: int|
            0 <= k < arrows_without(arrows, id).len() ==> arrows.contains(
                #[trigger] arrows_without(arrows, id)[k],
            ) && arrows_without(arrows, id)[k].id != id,
        arrows_without(arrows_without(arrows, id), id) == arrows_without(arrows, id),
    decreases arrows.len(),
{
    if arrows.len() > 0 {
        let rest = arrows.drop_last();
        lemma_arrows_without(rest, id);
        let before = arrows_without(rest, id);
        assert forall|k: int| 0 <= k < arrows_without(arrows, id).len() implies arrows.contains(
            #[trigger] arrows_without(arrows, id)[k],
        ) && arrows_without(arrows, id)[k].id != id by {
            let kept = arrows_without(arrows, id)[k];
            if k < before.len() {
                assert(kept == before[k]);
                let at = choose|at: int| 0 <= at < rest.len() && rest[at] == kept;
                assert(arrows[at] == kept);
            } else {
                assert(arrows[arrows.len() - 1] == kept);
            }
        }
        if arrows.last().id != id {
            assert(before.push(arrows.last()).drop_last() =~= before);
        }
    }
}

/// Entities that had distinct identities keep them when one is taken out.
pub proof fn lemma_despawn_keeps_distinct(
    units: Seq<UnitEntity>,
    buildings: Seq<BuildingEntity>,
    arrows: Seq<ArrowEntity>,
    id: u64,
)
    requires
        distinct_ids(units, buildings, arrows),
    ensures
        distinct_ids(
            units_without(units, id),
            buildings_without(buildings, id),
            arrows_without(arrows, id),
        ),
        forall|other: u64|
            id_is_free(units, buildings, arrows, other) ==> #[trigger] id_is_free(
                units_without(units, id),
                buildings_without(buildings, id),
                arrows_without(arrows, id),
                other,
            ),
    decreases units.len() + buildings.len() + arrows.len(),
{
    lemma_units_without(units, id);
    lemma_buildings_without(buildings, id);
    lemma_arrows_without(arrows, id);
    let kept_units = units_without(units, id);
    let kept_buildings = buildings_without(buildings, id);
    let kept_arrows = arrows_without(arrows, id);
    // Every kept entity was there before, at some position.
    assert forall|i: int| 0 <= i < kept_units.len() implies exists|at: int|
        0 <= at < units.len() && units[at] == #[trigger] kept_units[i] by {
        assert(units.contains(kept_units[i]));
    }
    assert forall|i: int| 0 <= i < kept_buildings.len() implies exists|at: int|
        0 <= at < buildings.len() && buildings[at] == #[trigger] kept_buildings[i] by {
        assert(buildings.contains(kept_buildings[i]));
    }
    assert forall|i: int| 0 <= i < kept_arrows.len() implies exists|at: int|
        0 <= at < arrows.len() && arrows[at] == #[trigger] kept_arrows[i] by {
        assert(arrows.contains(kept_arrows[i]));
    }
    // Within one kind the order is kept, so the last entity meets none of
    // those before it.
    if units.len() > 0 {
        lemma_despawn_keeps_distinct(units.drop_last(), Seq::empty(), Seq::empty(), id);
        let before = units_without(units.drop_last(), id);
        lemma_units_without(units.drop_last(), id);
        assert forall|i: int, j: int| 0 <= i < j < kept_units.len() implies (
        #[trigger] kept_units[i]).id != (#[trigger] kept_units[j]).id by {
            if j < before.len() {
                assert(kept_units[i] == before[i] && kept_units[j] == before[j]);
            } else {
                assert(kept_units[i] == before[i]);
                assert(units.drop_last().contains(before[i]));
                let at = choose|at: int|
                    0 <= at < units.drop_last().len() && units.drop_last()[at] == before[i];
                assert(units[at].id != units[units.len() - 1].id);
            }
        }
    }
    if buildings.len() > 0 {
        lemma_despawn_keeps_distinct(Seq::empty(), buildings.drop_last(), Seq::empty(), id);
        let before = buildings_without(buildings.drop_last(), id);
        lemma_buildings_without(buildings.drop_last(), id);
        assert forall|i: int, j: int| 0 <= i < j < kept_buildings.len() implies (
        #[trigger] kept_buildings[i]).id != (#[trigger] kept_buildings[j]).id by {
            if j < before.len() {
                assert(kept_buildings[i] == before[i] && kept_buildings[j] == before[j]);
            } else {
                assert(kept_buildings[i] == before[i]);
                assert(buildings.drop_last().contains(before[i]));
                let at = choose|at: int|
                    0 <= at < buildings.drop_last().len() && buildings.drop_last()[at]
                        == before[i];
                assert(buildings[at].id != buildings[buildings.len() - 1].id);
            }
        }
    }
    if arrows.len() > 0 {
        lemma_despawn_keeps_distinct(Seq::empty(), Seq::empty(), arrows.drop_last(), id);
        let before = arrows_without(arrows.drop_last(), id);
        lemma_arrows_without(arrows.drop_last(), id);
        assert forall|i: int, j: int| 0 <= i < j < kept_arrows.len() implies (
        #[trigger] kept_arrows[i]).id != (#[trigger] kept_arrows[j]).id by {
            if j < before.len() {
                assert(kept_arrows[i] == before[i] && kept_arrows[j] == before[j]);
            } else {
                assert(kept_arrows[i] == before[i]);
                assert(arrows.drop_last().contains(before[i]));
                let at = choose|at: int|
                    0 <= at < arrows.drop_last().len() && arrows.drop_last()[at] == before[i];
                assert(arrows[at].id != arrows[arrows.len() - 1].id);
            }
        }
    }
    // Across the kinds, two kept entities were two entities before.
    assert forall|i: int, j: int|
        0 <= i < kept_units.len() && 0 <= j < kept_buildings.len() implies (
    #[trigger] kept_units[i]).id != (#[trigger] kept_buildings[j]).id by {
        let a = choose|at: int| 0 <= at < units.len() && units[at] == kept_units[i];
        let b = choose|at: int| 0 <= at < buildings.len() && buildings[at] == kept_buildings[j];
        assert(units[a].id != buildings[b].id);
    }
    assert forall|i: int, j: int|
        0 <= i < kept_units.len() && 0 <= j < kept_arrows.len() implies (
    #[trigger] kept_units[i]).id != (#[trigger] kept_arrows[j]).id by {
        let a = choose|at: int| 0 <= at < units.len() && units[at] == kept_units[i];
        let b = choose|at: int| 0 <= at < arrows.len() && arrows[at] == kept_arrows[j];
        assert(units[a].id != arrows[b].id);
    }
    assert forall|i: int, j: int|
        0 <= i < kept_buildings.len() && 0 <= j < kept_arrows.len() implies (
    #[trigger] kept_buildings[i]).id != (#[trigger] kept_arrows[j]).id by {
        let a = choose|at: int| 0 <= at < buildings.len() && buildings[at] == kept_buildings[i];
        let b = choose|at: int| 0 <= at < arrows.len() && arrows[at] == kept_arrows[j];
        assert(buildings[a].id != arrows[b].id);
    }
    assert forall|other: u64| id_is_free(units, buildings, arrows, other) implies #[trigger] id_is_free(
        kept_units,
        kept_buildings,
        kept_arrows,
        other,
    ) by {
        assert forall|i: int| 0 <= i < kept_units.len() implies (#[trigger] kept_units[i]).id
            != other by {
            let a = choose|at: int| 0 <= at < units.len() && units[at] == kept_units[i];
            assert(units[a].id != other);
        }
        assert forall|i: int| 0 <= i < kept_buildings.len() implies (
        #[trigger] kept_buildings[i]).id != other by {
            let a = choose|at: int| 0 <= at < buildings.len() && buildings[at] == kept_buildings[i];
            assert(buildings[a].id != other);
        }
        assert forall|i: int| 0 <= i < kept_arrows.len() implies (#[trigger] kept_arrows[i]).id
            != other by {
            let a = choose|at: int| 0 <= at < arrows.len() && arrows[at] == kept_arrows[i];
            assert(arrows[a].id != other);
        }
    }
}

/// Whether `after` is the world `before` with the entity `id` taken out: the
/// entity itself, whatever kind it is, and every unit that stood on it.
pub open spec fn despawned(before: &World, after: &World, id: u64) -> bool {
    &&& after.units@ == units_without(before.units@, id)
    &&& after.buildings@ == buildings_without(before.buildings@, id)
    &&& after.arrows@ == arrows_without(before.arrows@, id)
}

/// Taking an entity out of the world twice is the same as taking it out
/// once.
pub proof fn lemma_despawn_idempotent(before: &World, once: &World, twice: &World, id: u64)
    requires
        despawned(before, once, id),
        despawned(once, twice, id),
    ensures
        twice.units@ == once.units@,
        twice.buildings@ == once.buildings@,
        twice.arrows@ == once.arrows@,
{
    lemma_units_without(before.units@, id);
    lemma_buildings_without(before.buildings@, id);
    lemma_arrows_without(before.arrows@, id);
}

/// Takes the entity with the identity `id` out of the world, and with it
/// every unit that stands on it. An identity that nothing has changes
/// nothing.
pub fn despawn(world: &mut World, id: u64)
    requires
        old(world).wf(),
    ensures
        despawned(old(world), final(world), id),
        final(world).wf(),
        !final(world).spec_contains(id),
        forall|other: u64| old(world).spec_is_free(other) ==> final(world).spec_is_free(other),
{
    let mut units: Vec<UnitEntity> = Vec::new();
    let n: usize = world.units.len();
    let mut i: usize = 0;
    while i < n
        invariant
            n == world.units@.len(),
            i <= n,
            units@ == units_without(world.units@.take(i as int), id),
        decreases n - i,
    {
        let entity: UnitEntity = world.units[i];
        proof {
            assert(world.units@.take(i + 1).drop_last() =~= world.units@.take(i as int));
        }
        let hosted: bool = match entity.unit.on_building {
            Some(host) => host == id,
            None => false,
        };
        if entity.id != id && !hosted {
            units.push(entity);
        }
        i = i + 1;
    }
    assert(world.units@.take(n as int) =~= world.units@);
    let mut buildings: Vec<BuildingEntity> = Vec::new();
    let m: usize = world.buildings.len();
    let mut j: usize = 0;
    while j < m
        invariant
            m == world.buildings@.len(),
            j <= m,
            buildings@ == buildings_without(world.buildings@.take(j as int), id),
        decreases m - j,
    {
        let entity: BuildingEntity = world.buildings[j];
        proof {
            assert(world.buildings@.take(j + 1).drop_last() =~= world.buildings@.take(j as int));
        }
        if entity.id != id {
            buildings.push(entity);
        }
        j = j + 1;
    }
    assert(world.buildings@.take(m as int) =~= world.buildings@);
    let mut arrows: Vec<ArrowEntity> = Vec::new();
    let a: usize = world.arrows.len();
    let mut k: usize = 0;
    while k < a
        invariant
            a == world.arrows@.len(),
            k <= a,
            arrows@ == arrows_without(world.arrows@.take(k as int), id),
        decreases a - k,
    {
        let entity: ArrowEntity = world.arrows[k];
        proof {
            assert(world.arrows@.take(k + 1).drop_last() =~= world.arrows@.take(k as int));
        }
        if entity.id != id {
            arrows.push(entity);
        }
        k = k + 1;
    }
    assert(world.arrows@.take(a as int) =~= world.arrows@);
    proof {
        lemma_units_without(world.units@, id);
        lemma_buildings_without(world.buildings@, id);
        lemma_arrows_without(world.arrows@, id);
        lemma_despawn_keeps_distinct(world.units@, world.buildings@, world.arrows@, id);
        assert forall|at: int| 0 <= at < units@.len() implies (#[trigger] units@[at]).wf() by {
            let kept = units@[at];
            assert(world.units@.contains(kept));
            let from = choose|from: int| 0 <= from < world.units@.len() && world.units@[from] == kept;
            assert(world.units@[from].wf());
        }
        assert forall|at: int| 0 <= at < buildings@.len() implies (#[trigger] buildings@[at]).wf() by {
            let kept = buildings@[at];
            assert(world.buildings@.contains(kept));
            let from = choose|from: int|
                0 <= from < world.buildings@.len() && world.buildings@[from] == kept;
            assert(world.buildings@[from].wf());
        }
        assert forall|at: int| 0 <= at < arrows@.len() implies (#[trigger] arrows@[at]).wf() by {
            let kept = arrows@[at];
            assert(world.arrows@.contains(kept));
            let from = choose|from: int|
                0 <= from < world.arrows@.len() && world.arrows@[from] == kept;
            assert(world.arrows@[from].wf());
        }
    }
    world.units = units;
    world.buildings = buildings;
    world.arrows = arrows;
}

/// The units that stay when every identity of `requests` is taken out, one
/// after the other.
pub open spec fn units_without_all(units: Seq<UnitEntity>, requests: Seq<DespawnMsg>) -> Seq<
    UnitEntity,
>
    decreases requests.len(),
{
    if requests.len() == 0 {
        units
    } else {
        units_without(units_without_all(units, requests.drop_last()), requests.last().0)
    }
}

/// The buildings that stay when every identity of `requests` is taken out.
pub open spec fn buildings_without_all(
    buildings: Seq<BuildingEntity>,
    requests: Seq<DespawnMsg>,
) -> Seq<BuildingEntity>
    decreases requests.len(),
{
    if requests.len() == 0 {
        buildings
    } else {
        buildings_without(
            buildings_without_all(buildings, requests.drop_last()),
            requests.last().0,
        )
    }
}

/// The projectiles that stay when every identity of `requests` is taken out.
pub open spec fn arrows_without_all(arrows: Seq<ArrowEntity>, requests: Seq<DespawnMsg>) -> Seq<
    ArrowEntity,
>
    decreases requests.len(),
{
    if requests.len() == 0 {
        arrows
    } else {
        arrows_without(arrows_without_all(arrows, requests.drop_last()), requests.last().0)
    }
}

/// Takes every entity named in `requests` out of the world, one request
/// after the other. Requests for entities that are already gone change
/// nothing.
pub fn despawn_message(world: &mut World, requests: &Vec<DespawnMsg>)
    requires
        old(world).wf(),
    ensures
        final(world).units@ == units_without_all(old(world).units@, requests@),
        final(world).buildings@ == buildings_without_all(old(world).buildings@, requests@),
        final(world).arrows@ == arrows_without_all(old(world).arrows@, requests@),
        final(world).wf(),
        final(world).units@.len() <= old(world).units@.len(),
{
    let n: usize = requests.len();
    let mut i: usize = 0;
    while i < n
        invariant
            n == requests@.len(),
            i <= n,
            world.wf(),
            world.units@.len() <= old(world).units@.len(),
            world.units@ == units_without_all(old(world).units@, requests@.take(i as int)),
            world.buildings@ == buildings_without_all(
                old(world).buildings@,
                requests@.take(i as int),
            ),
            world.arrows@ == arrows_without_all(old(world).arrows@, requests@.take(i as int)),
        decreases n - i,
    {
        proof {
            assert(requests@.take(i + 1).drop_last() =~= requests@.take(i as int));
            lemma_units_without(world.units@, requests@[i as int].0);
        }
        despawn(world, requests[i].0);
        i = i + 1;
    }
    assert(requests@.take(n as int) =~= requests@);
}

/// Position of the first base of team `color` among `buildings`.
pub open spec fn base_index(buildings: Seq<BuildingEntity>, color: PlayerColor) -> Option<int>
    decreases buildings.len(),
{
    if buildings.len() == 0 {
        None
    } else {
        match base_index(buildings.drop_last(), color) {
            Some(i) => Some(i),
            None => if buildings.last().building.color == color && buildings.last().building.is_base {
                Some(buildings.len() - 1)
            } else {
                None
            },
        }
    }
}

/// A base that a part of the buildings holds is the base of all of them.
pub proof fn lemma_base_index_prefix(buildings: Seq<BuildingEntity>, color: PlayerColor, n: int)
    requires
        0 <= n <= buildings.len(),
        base_index(buildings.take(n), color) is Some,
    ensures
        base_index(buildings, color) == base_index(buildings.take(n), color),
    decreases buildings.len() - n,
{
    if n < buildings.len() {
        assert(buildings.take(n + 1).drop_last() =~= buildings.take(n));
        lemma_base_index_prefix(buildings, color, n + 1);
    } else {
        assert(buildings.take(n) =~= buildings);
    }
}

/// Where a requested unit appears: at the position of the request if it
/// has one, else in front of the door of the first base of its team, and
/// nowhere if the team has no base. The position is kept inside the
/// coordinate limit.
pub open spec fn spawn_position(buildings: Seq<BuildingEntity>, msg: SpawnUnitMsg) -> Option<Vec2> {
    match msg.position {
        Some(position) => Some(position@.clamped(COORD_LIMIT as int).fixed()),
        None => match base_index(buildings, msg.color) {
            Some(i) => Some(
                buildings[i].position@.minus(
                    V2 { x: 0, y: DOOR_OFFSET as int },
                ).clamped(COORD_LIMIT as int).fixed(),
            ),
            None => None,
        },
    }
}

/// Where a requested unit appears.
pub fn find_spawn_position(world: &World, msg: &SpawnUnitMsg) -> (position: Option<Vec2>)
    requires
        world.wf(),
    ensures
        position == spawn_position(world.buildings@, *msg),
        position matches Some(found) ==> found.in_bounds(),
{
    match msg.position {
        Some(position) => {
            let found: Vec2 = position.clamped(COORD_LIMIT);
            assert(found == found@.fixed());
            Some(found)
        },
        None => {
            let n: usize = world.buildings.len();
            let mut i: usize = 0;
            while i < n
                invariant
                    world.wf(),
                    msg.position is None,
                    n == world.buildings@.len(),
                    i <= n,
                    base_index(world.buildings@.take(i as int), msg.color) is None,
                decreases n - i,
            {
                let entity: BuildingEntity = world.buildings[i];
                proof {
                    assert(world.buildings@.take(i + 1).drop_last() =~= world.buildings@.take(
                        i as int,
                    ));
                }
                if entity.building.color == msg.color && entity.building.is_base {
                    proof {
                        lemma_base_index_prefix(world.buildings@, msg.color, i + 1);
                    }
                    let door: Vec2 = Vec2 { x: entity.position.x, y: entity.position.y - DOOR_OFFSET };
                    let found: Vec2 = door.clamped(COORD_LIMIT);
                    assert(base_index(world.buildings@.take(i + 1), msg.color) == Some(i as int));
                    assert(world.buildings@[i as int] == entity);
                    assert(found == found@.fixed());
                    return Some(found);
                }
                i = i + 1;
            }
            assert(world.buildings@.take(n as int) =~= world.buildings@);
            None
        },
    }
}

/// Whether `unit` is the unit that the request `msg` brings into the world
/// under the identity `id`.
///
/// The unit is fresh: it idles at full health where the request places it.
/// It faces left if it belongs to the opponent of the local player. It walks
/// the lane of the request, and one of the lanes of its player's direction
/// where the request names none.
pub open spec fn unit_requested(
    buildings: Seq<BuildingEntity>,
    players: &Players,
    msg: SpawnUnitMsg,
    id: u64,
    unit: UnitEntity,
) -> bool {
    &&& unit.id == id
    &&& Some(unit.position) == spawn_position(buildings, msg)
    &&& unit.flip_x == (players.me.color != msg.color)
    &&& unit.unit.name == msg.unit
    &&& unit.unit.color == players.by_color(msg.color).color
    &&& unit.unit.action == Action::Idle
    &&& unit.unit.health == msg.unit.spec_health()
    &&& unit.unit.on_building == msg.on_building
    &&& msg.lane is Some ==> unit.unit.lane == msg.lane->0
    &&& msg.lane is None ==> players.by_color(msg.color).direction.spec_lanes().contains(
        unit.unit.lane,
    )
}

/// Brings the requested unit into the world under the identity `id`, and
/// tells whether it did: a unit without a position whose team has no base
/// does not appear. Where the request names no lane, the lane is drawn at
/// random.
pub fn spawn_unit(world: &mut World, players: &Players, msg: &SpawnUnitMsg, id: u64) -> (spawned:
    bool)
    requires
        old(world).wf(),
        old(world).spec_is_free(id),
    ensures
        forall|other: u64|
            other != id && old(world).spec_is_free(other) ==> final(world).spec_is_free(other),
        spawned == (spawn_position(old(world).buildings@, *msg) is Some),
        final(world).buildings@ == old(world).buildings@,
        final(world).arrows@ == old(world).arrows@,
        !spawned ==> final(world).units@ == old(world).units@,
        spawned ==> {
            &&& final(world).units@.len() == old(world).units@.len() + 1
            &&& final(world).units@.drop_last() == old(world).units@
            &&& unit_requested(
                old(world).buildings@,
                players,
                *msg,
                id,
                final(world).units@.last(),
            )
        },
        final(world).wf(),
{
    match find_spawn_position(world, msg) {
        Some(position) => {
            let unit: Unit = Unit::new(
                msg.unit,
                players.get_by_color(msg.color),
                msg.lane,
                msg.on_building,
            );
            let ghost before = world.units@;
            world.units.push(
                UnitEntity { id, position, flip_x: players.me.color != msg.color, unit },
            );
            assert(world.units@.drop_last() =~= before);
            true
        },
        None => false,
    }
}

/// Number of requests before the `i`-th that made a unit appear.
pub open spec fn appeared_before(spawned: Seq<bool>, i: int) -> int
    decreases i,
{
    if i <= 0 {
        0
    } else {
        appeared_before(spawned, i - 1) + if spawned[i - 1] {
            1int
        } else {
            0int
        }
    }
}

/// What happened before a request does not depend on the requests after it.
pub proof fn lemma_appeared_before_push(spawned: Seq<bool>, last: bool, i: int)
    requires
        0 <= i <= spawned.len(),
    ensures
        appeared_before(spawned.push(last), i) == appeared_before(spawned, i),
        0 <= appeared_before(spawned, i) <= i,
    decreases i,
{
    if i > 0 {
        lemma_appeared_before_push(spawned, last, i - 1);
        assert(spawned.push(last)[i - 1] == spawned[i - 1]);
    }
}

/// The requests for the archers of a building that is requested with its
/// units: one archer of the building's team at each of the places that the
/// class has for them, standing on the building `id`.
pub open spec fn garrison(msg: SpawnBuildingMsg, id: u64) -> Seq<SpawnUnitMsg> {
    if msg.with_units {
        Seq::new(
            msg.building.spec_units().len(),
            |i: int|
                SpawnUnitMsg {
                    color: msg.color,
                    unit: UnitName::Archer,
                    position: Some(
                        msg.position@.clamped(COORD_LIMIT as int).plus(
                            msg.building.spec_units()[i]@,
                        ).fixed(),
                    ),
                    on_building: Some(id),
                    lane: None,
                    dust_effect: false,
                    entity: None,
                },
        )
    } else {
        Seq::empty()
    }
}

/// The building that the request `msg` brings into the world under the
/// identity `id`: at the position of the request kept inside the coordinate
/// limit, with the health of the request limited to that of its class.
pub open spec fn requested_building(msg: SpawnBuildingMsg, id: u64) -> BuildingEntity {
    BuildingEntity {
        id,
        position: msg.position@.clamped(COORD_LIMIT as int).fixed(),
        building: Building {
            name: msg.building,
            color: msg.color,
            is_base: msg.is_base,
            health: if msg.health <= msg.building.spec_health() {
                msg.health
            } else {
                msg.building.spec_health()
            },
        },
    }
}

/// The projectile that the request `msg` brings into the world under the
/// identity `id`: at the start of its flight, between the two ends of the
/// request kept inside the coordinate limit.
pub open spec fn requested_arrow(msg: SpawnArrowMsg, id: u64) -> ArrowEntity {
    let start = msg.start@.clamped(COORD_LIMIT as int);
    let destination = msg.destination@.clamped(COORD_LIMIT as int);
    ArrowEntity {
        id,
        position: start.fixed(),
        heading: None,
        arrow: Arrow {
            color: msg.color,
            projectile: msg.projectile,
            damage: msg.damage,
            start: start.fixed(),
            destination: destination.fixed(),
            total_distance: destination.minus(start).length() as i64,
            traveled: 0,
            despawn_timer: Timer::fresh((ARROW_LINGER_MILLIS * 1000) as u64),
        },
    }
}

/// Brings the requested building into the world under the identity `id`, at
/// the position of the request kept inside the coordinate limit and with the
/// health of the request limited to that of its class. The result holds the
/// requests for the archers that stand on the building.
pub fn spawn_building(world: &mut World, msg: &SpawnBuildingMsg, id: u64) -> (units: Vec<
    SpawnUnitMsg,
>)
    requires
        old(world).wf(),
        old(world).spec_is_free(id),
    ensures
        forall|other: u64|
            other != id && old(world).spec_is_free(other) ==> final(world).spec_is_free(other),
        final(world).units@ == old(world).units@,
        final(world).arrows@ == old(world).arrows@,
        final(world).buildings@ == old(world).buildings@.push(requested_building(*msg, id)),
        units@ == garrison(*msg, id),
        final(world).wf(),
{
    let position: Vec2 = msg.position.clamped(COORD_LIMIT);
    world.buildings.push(
        BuildingEntity {
            id,
            position,
            building: Building::new(msg.building, msg.color, msg.is_base, msg.health),
        },
    );
    let mut units: Vec<SpawnUnitMsg> = Vec::new();
    if msg.with_units {
        let offsets: Vec<Vec2> = msg.building.units();
        let n: usize = offsets.len();
        let mut i: usize = 0;
        while i < n
            invariant
                n == offsets@.len(),
                offsets@ == msg.building.spec_units(),
                position@ == msg.position@.clamped(COORD_LIMIT as int),
                msg.with_units,
                i <= n,
                units@.len() == i,
                forall|k: int| 0 <= k < i ==> #[trigger] units@[k] == garrison(*msg, id)[k],
            decreases n - i,
        {
            let offset: Vec2 = offsets[i];
            units.push(
                SpawnUnitMsg {
                    color: msg.color,
                    unit: UnitName::Archer,
                    position: Some(Vec2 { x: position.x + offset.x, y: position.y + offset.y }),
                    on_building: Some(id),
                    lane: None,
                    dust_effect: false,
                    entity: None,
                },
            );
            i = i + 1;
        }
    }
    assert(units@ =~= garrison(*msg, id));
    units
}

/// Brings the requested projectile into the world under the identity `id`:
/// at the start of its flight, between the two ends of the request kept
/// inside the coordinate limit.
pub fn spawn_arrow(world: &mut World, msg: &SpawnArrowMsg, id: u64)
    requires
        old(world).wf(),
        old(world).spec_is_free(id),
    ensures
        forall|other: u64|
            other != id && old(world).spec_is_free(other) ==> final(world).spec_is_free(other),
        final(world).units@ == old(world).units@,
        final(world).buildings@ == old(world).buildings@,
        final(world).arrows@ == old(world).arrows@.push(requested_arrow(*msg, id)),
        final(world).wf(),
{
    let start: Vec2 = msg.start.clamped(COORD_LIMIT);
    let destination: Vec2 = msg.destination.clamped(COORD_LIMIT);
    assert(start == start@.fixed() && destination == destination@.fixed());
    world.arrows.push(
        ArrowEntity {
            id,
            position: start,
            heading: None,
            arrow: Arrow::new(msg.color, msg.projectile, msg.damage, start, destination),
        },
    );
}

/// Brings the requested units into the world, one after the other, each
/// under the identity that `ids` holds for it, and tells of each whether it
/// appeared. The units that appear stand behind those that were there, in
/// the order of their requests.
pub fn spawn_unit_message(
    world: &mut World,
    players: &Players,
    requests: &Vec<SpawnUnitMsg>,
    ids: &Vec<u64>,
) -> (spawned: Vec<bool>)
    requires
        old(world).wf(),
        ids@.len() == requests@.len(),
        forall|i: int| 0 <= i < ids@.len() ==> old(world).spec_is_free(#[trigger] ids@[i]),
        forall|i: int, j: int| 0 <= i < j < ids@.len() ==> ids@[i] != ids@[j],
    ensures
        spawned@.len() == requests@.len(),
        forall|i: int|
            0 <= i < requests@.len() ==> #[trigger] spawned@[i] == (spawn_position(
                old(world).buildings@,
                requests@[i],
            ) is Some),
        final(world).buildings@ == old(world).buildings@,
        final(world).arrows@ == old(world).arrows@,
        final(world).units@.len() == old(world).units@.len() + appeared_before(
            spawned@,
            requests@.len() as int,
        ),
        final(world).units@.take(old(world).units@.len() as int) == old(world).units@,
        forall|i: int|
            0 <= i < requests@.len() && #[trigger] spawned@[i] ==> unit_requested(
                old(world).buildings@,
                players,
                requests@[i],
                ids@[i],
                final(world).units@[old(world).units@.len() + appeared_before(spawned@, i)],
            ),
        final(world).wf(),
{
    let mut spawned: Vec<bool> = Vec::new();
    let n: usize = requests.len();
    let mut i: usize = 0;
    let ghost start = world.units@.len() as int;
    while i < n
        invariant
            n == requests@.len(),
            n == ids@.len(),
            i <= n,
            world.wf(),
            forall|k: int| i <= k < ids@.len() ==> world.spec_is_free(#[trigger] ids@[k]),
            forall|a: int, b: int| 0 <= a < b < ids@.len() ==> ids@[a] != ids@[b],
            start == old(world).units@.len(),
            spawned@.len() == i,
            forall|k: int|
                0 <= k < i ==> #[trigger] spawned@[k] == (spawn_position(
                    old(world).buildings@,
                    requests@[k],
                ) is Some),
            world.buildings@ == old(world).buildings@,
            world.arrows@ == old(world).arrows@,
            world.units@.len() == start + appeared_before(spawned@, i as int),
            world.units@.take(start) == old(world).units@,
            forall|k: int|
                0 <= k < i && #[trigger] spawned@[k] ==> unit_requested(
                    old(world).buildings@,
                    players,
                    requests@[k],
                    ids@[k],
                    world.units@[start + appeared_before(spawned@, k)],
                ),
        decreases n - i,
    {
        let ghost before = world.units@;
        let ghost flags = spawned@;
        let appeared: bool = spawn_unit(world, players, &requests[i], ids[i]);
        spawned.push(appeared);
        proof {
            lemma_appeared_before_push(flags, appeared, i as int);
            assert(spawned@[i as int] == appeared);
            assert(world.units@.take(start) =~= before.take(start));
            assert forall|k: int| 0 <= k < i + 1 && #[trigger] spawned@[k] implies unit_requested(
                old(world).buildings@,
                players,
                requests@[k],
                ids@[k],
                world.units@[start + appeared_before(spawned@, k)],
            ) by {
                if k < i {
                    lemma_appeared_before_push(flags, appeared, k);
                    lemma_appeared_before_push(flags, appeared, k + 1);
                    assert(flags[k] == spawned@[k]);
                    assert(appeared_before(flags, k) < appeared_before(flags, k + 1));
                    lemma_appeared_before_monotone(flags, k + 1, i as int);
                    assert(world.units@[start + appeared_before(flags, k)] == before[start
                        + appeared_before(flags, k)]);
                } else {
                    assert(world.units@[start + appeared_before(flags, i as int)]
                        == world.units@.last());
                }
            }
        }
        i = i + 1;
    }
    spawned
}

/// The count of units that appeared never falls as requests are added.
pub proof fn lemma_appeared_before_monotone(spawned: Seq<bool>, i: int, j: int)
    requires
        0 <= i <= j,
    ensures
        appeared_before(spawned, i) <= appeared_before(spawned, j),
    decreases j - i,
{
    if i < j {
        lemma_appeared_before_monotone(spawned, i, j - 1);
    }
}

/// The requests for the archers of the buildings `requests`, building after
/// building.
pub open spec fn garrisons(requests: Seq<SpawnBuildingMsg>, ids: Seq<u64>) -> Seq<SpawnUnitMsg>
    decreases requests.len(),
{
    if requests.len() == 0 || ids.len() != requests.len() {
        Seq::empty()
    } else {
        garrisons(requests.drop_last(), ids.drop_last()) + garrison(requests.last(), ids.last())
    }
}

/// Brings the requested buildings into the world, one after the other, each
/// under the identity that `ids` holds for it, and collects the requests for
/// the archers that stand on them.
pub fn spawn_building_message(
    world: &mut World,
    requests: &Vec<SpawnBuildingMsg>,
    ids: &Vec<u64>,
) -> (units: Vec<SpawnUnitMsg>)
    requires
        old(world).wf(),
        ids@.len() == requests@.len(),
        forall|i: int| 0 <= i < ids@.len() ==> old(world).spec_is_free(#[trigger] ids@[i]),
        forall|i: int, j: int| 0 <= i < j < ids@.len() ==> ids@[i] != ids@[j],
    ensures
        units@ == garrisons(requests@, ids@),
        final(world).units@ == old(world).units@,
        final(world).arrows@ == old(world).arrows@,
        final(world).buildings@ == old(world).buildings@ + Seq::new(
            requests@.len(),
            |i: int| requested_building(requests@[i], ids@[i]),
        ),
        final(world).wf(),
{
    let mut units: Vec<SpawnUnitMsg> = Vec::new();
    let n: usize = requests.len();
    let mut i: usize = 0;
    while i < n
        invariant
            n == requests@.len(),
            n == ids@.len(),
            i <= n,
            world.wf(),
            forall|k: int| i <= k < ids@.len() ==> world.spec_is_free(#[trigger] ids@[k]),
            forall|a: int, b: int| 0 <= a < b < ids@.len() ==> ids@[a] != ids@[b],
            units@ == garrisons(requests@.take(i as int), ids@.take(i as int)),
            world.units@ == old(world).units@,
            world.arrows@ == old(world).arrows@,
            world.buildings@ == old(world).buildings@ + Seq::new(
                i as nat,
                |k: int| requested_building(requests@[k], ids@[k]),
            ),
        decreases n - i,
    {
        let mut archers: Vec<SpawnUnitMsg> = spawn_building(world, &requests[i], ids[i]);
        proof {
            assert(requests@.take(i + 1).drop_last() =~= requests@.take(i as int));
            assert(ids@.take(i + 1).drop_last() =~= ids@.take(i as int));
            assert(world.buildings@ =~= old(world).buildings@ + Seq::new(
                (i + 1) as nat,
                |k: int| requested_building(requests@[k], ids@[k]),
            ));
        }
        units.append(&mut archers);
        i = i + 1;
    }
    assert(requests@.take(n as int) =~= requests@);
    assert(ids@.take(n as int) =~= ids@);
    units
}

/// Brings the requested projectiles into the world, one after the other,
/// each under the identity that `ids` holds for it.
pub fn spawn_arrow_message(world: &mut World, requests: &Vec<SpawnArrowMsg>, ids: &Vec<u64>)
    requires
        old(world).wf(),
        ids@.len() == requests@.len(),
        forall|i: int| 0 <= i < ids@.len() ==> old(world).spec_is_free(#[trigger] ids@[i]),
        forall|i: int, j: int| 0 <= i < j < ids@.len() ==> ids@[i] != ids@[j],
    ensures
        final(world).units@ == old(world).units@,
        final(world).buildings@ == old(world).buildings@,
        final(world).arrows@ == old(world).arrows@ + Seq::new(
            requests@.len(),
            |i: int| requested_arrow(requests@[i], ids@[i]),
        ),
        final(world).wf(),
{
    let n: usize = requests.len();
    let mut i: usize = 0;
    while i < n
        invariant
            n == requests@.len(),
            n == ids@.len(),
            i <= n,
            world.wf(),
            forall|k: int| i <= k < ids@.len() ==> world.spec_is_free(#[trigger] ids@[k]),
            forall|a: int, b: int| 0 <= a < b < ids@.len() ==> ids@[a] != ids@[b],
            world.units@ == old(world).units@,
            world.buildings@ == old(world).buildings@,
            world.arrows@ == old(world).arrows@ + Seq::new(
                i as nat,
                |k: int| requested_arrow(requests@[k], ids@[k]),
            ),
        decreases n - i,
    {
        spawn_arrow(world, &requests[i], ids[i]);
        assert(world.arrows@ =~= old(world).arrows@ + Seq::new(
            (i + 1) as nat,
            |k: int| requested_arrow(requests@[k], ids@[k]),
        ));
        i = i + 1;
    }
}

} // verus!
