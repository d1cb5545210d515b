//! Steering: lane following, engagement and separation of units, and the
//! flight of projectiles.

use vstd::prelude::*;
use crate::buildings::BuildingName;
use crate::combat::{Arrow, TRAVEL_LIMIT};
use crate::constants::{
    ARROW_SPEED, COINCIDENT_DISTANCE, RADIUS, SCAN_DISTANCE, SEPARATION_WEIGHT, STRIKE_RADIUS,
    STRIKE_SCAN_DISTANCE, TILE_SIZE,
};
use crate::geometry::{
    abs, clamp_wide, lemma_norm_sq_bounds, lemma_sqrt_le, lemma_tdiv_bounds, mul_div,
    mul_div_wide, mul_wide, tdiv, Vec2, COORD_LIMIT, FORCE_LIMIT, SCALE, V2, WIDE_LIMIT,
};
use crate::map::{GameMap, TilePos};
use crate::player::{Boost, Player, Players, Side, Strategy};
use crate::spatial::{
    get_tiles_at_distance, lemma_same_gather, tiles_in_square, Body, Occupant, SpatialIndex,
};
use crate::settings::PlayerColor;
use crate::time::{Tick, Timer};
use crate::units::{Action, ProjectileMode, Unit, UnitName};
use crate::world::{ArrowEntity, UnitEntity, World};

verus! {

/// Squared distance from the world position `pos` to the centre of `tile`.
pub open spec fn waypoint_dist_sq(map: &GameMap, pos: V2, tile: TilePos) -> int {
    map.spec_tile_to_world(tile).dist_sq(pos)
}

/// Index of the waypoint of `path` whose centre is nearest to `pos`; of
/// several nearest ones, the first.
pub open spec fn nearest_waypoint(map: &GameMap, pos: V2, path: Seq<TilePos>) -> int
    decreases path.len(),
{
    if path.len() <= 1 {
        0
    } else {
        let best = nearest_waypoint(map, pos, path.drop_last());
        if waypoint_dist_sq(map, pos, path.last()) < waypoint_dist_sq(map, pos, path[best]) {
            path.len() - 1
        } else {
            best
        }
    }
}

/// The nearest waypoint is a waypoint, none is nearer, and none before it is
/// as near.
pub proof fn lemma_nearest_waypoint(map: &GameMap, pos: V2, path: Seq<TilePos>)
    requires
        path.len() > 0,
    ensures
        0 <= nearest_waypoint(map, pos, path) < path.len(),
        forall|k: int|
            0 <= k < path.len() ==> waypoint_dist_sq(
                map,
                pos,
                path[nearest_waypoint(map, pos, path)],
            ) <= waypoint_dist_sq(map, pos, #[trigger] path[k]),
        forall|k: int|
            0 <= k < nearest_waypoint(map, pos, path) ==> waypoint_dist_sq(
                map,
                pos,
                path[nearest_waypoint(map, pos, path)],
            ) < waypoint_dist_sq(map, pos, #[trigger] path[k]),
    decreases path.len(),
{
    if path.len() > 1 {
        lemma_nearest_waypoint(map, pos, path.drop_last());
        let best = nearest_waypoint(map, pos, path.drop_last());
        assert(path.drop_last()[best] == path[best]);
        assert forall|k: int| 0 <= k < path.len() - 1 implies path.drop_last()[k] == path[k] by {}
        let nearest = nearest_waypoint(map, pos, path);
        assert forall|k: int| 0 <= k < path.len() implies waypoint_dist_sq(map, pos, path[nearest])
            <= waypoint_dist_sq(map, pos, #[trigger] path[k]) by {
            if k < path.len() - 1 {
                assert(path.drop_last()[k] == path[k]);
            }
        }
        assert forall|k: int| 0 <= k < nearest implies waypoint_dist_sq(map, pos, path[nearest])
            < waypoint_dist_sq(map, pos, #[trigger] path[k]) by {
            assert(path.drop_last()[k] == path[k]);
        }
    }
}

/// The waypoint to walk to: the one after the nearest, or the last one where
/// the nearest is the last.
pub open spec fn target_tile(map: &GameMap, pos: V2, path: Seq<TilePos>) -> TilePos {
    let nearest = nearest_waypoint(map, pos, path);
    if nearest + 1 < path.len() {
        path[nearest + 1]
    } else {
        path[path.len() - 1]
    }
}

/// The waypoint of `path` to walk to from `position`: the one after the
/// nearest.
pub fn get_target_tile(map: &GameMap, position: &Vec2, path: &Vec<TilePos>) -> (tile: TilePos)
    requires
        map.wf(),
        position.in_bounds(),
        path@.len() > 0,
    ensures
        tile == target_tile(map, position@, path@),
        path@.contains(tile),
{
    let n: usize = path.len();
    let mut best: usize = 0;
    let mut best_dist: u128 = map.tile_to_world(path[0]).distance_squared(position);
    let mut i: usize = 1;
    assert(path@.take(1).len() == 1);
    while i < n
        invariant
            map.wf(),
            position.in_bounds(),
            n == path@.len(),
            1 <= i <= n,
            best == nearest_waypoint(map, position@, path@.take(i as int)),
            best < i,
            best_dist == waypoint_dist_sq(map, position@, path@[best as int]),
        decreases n - i,
    {
        let dist: u128 = map.tile_to_world(path[i]).distance_squared(position);
        proof {
            let grown = path@.take(i + 1);
            assert(grown.drop_last() =~= path@.take(i as int));
            assert(grown.last() == path@[i as int]);
            assert(grown[best as int] == path@[best as int]);
        }
        if dist < best_dist {
            best = i;
            best_dist = dist;
        }
        i = i + 1;
    }
    assert(path@.take(n as int) =~= path@);
    if best + 1 < n {
        path[best + 1]
    } else {
        path[n - 1]
    }
}

/// The moving unit as the proximity scan sees it.
#[derive(Clone, Copy, Debug, PartialEq, Eq, Structural)]
pub struct Mover {
    pub id: u64,
    pub position: Vec2,
    pub unit: Unit,
    /// Direction towards the next waypoint, of length about `SCALE`.
    pub heading: Vec2,
    /// Distance at which a unit that is not melee engages.
    pub reach: i64,
    /// Whether the team's strategy lets the unit attack enemy units.
    pub engages: bool,
    /// Whether other units push the unit aside.
    pub collides: bool,
}

impl Mover {
    /// The position lies inside the coordinate limit, the heading is a
    /// direction and the reach is that of some unit.
    pub open spec fn wf(&self) -> bool {
        &&& self.position.in_bounds()
        &&& self.heading@.within(SCALE as int)
        &&& 0 <= self.reach <= 9 * RADIUS
    }
}

/// Distance under which two units touch: fifteen hundredths of their world
/// sizes together.
pub open spec fn spec_separation_radius(a: UnitName, b: UnitName) -> int {
    (a.spec_world_size() + b.spec_world_size()) * 15 / 100
}

/// Distance under which two units touch.
pub fn separation_radius(a: UnitName, b: UnitName) -> (radius: i64)
    ensures
        radius == spec_separation_radius(a, b),
        28_800 <= radius <= 48_000,
{
    (a.world_size() + b.world_size()) * 15 / 100
}

/// Distance under which a melee unit reaches a building: forty hundredths of
/// the unit's world size and the building's world width together.
pub open spec fn spec_building_reach(unit: UnitName, building: BuildingName) -> int {
    (unit.spec_world_size() + building.spec_world_width()) * 40 / 100
}

/// Distance under which a melee unit reaches a building.
pub fn building_reach(unit: UnitName, building: BuildingName) -> (reach: i64)
    ensures
        reach == spec_building_reach(unit, building),
        0 < reach <= 140_800,
{
    (unit.world_size() + building.world_width()) * 40 / 100
}

/// The action that `other` makes the mover begin, if any.
///
/// A unit in range that is not the mover itself makes a healer heal it when
/// it is a hurt ally, and makes a unit that can attack attack it when it is
/// an enemy, the team's strategy allows it, and, for a melee unit, the two
/// touch. An enemy building in range makes every unit that can attack attack
/// it.
pub open spec fn engagement(mover: Mover, other: Occupant) -> Option<Action> {
    let dist_sq = mover.position@.dist_sq(other.position@);
    let name = mover.unit.name;
    match other.body {
        Body::Unit(unit) => {
            let touch = spec_separation_radius(name, unit.name);
            let range = if name.spec_is_melee() {
                touch
            } else {
                mover.reach as int
            };
            if other.id == mover.id || dist_sq > range * range {
                None
            } else if name == UnitName::Priest && mover.unit.color == unit.color && unit.health
                < unit.name.spec_health() {
                Some(Action::Heal(other.id))
            } else if mover.unit.color != unit.color && name.spec_can_attack() && (
            !name.spec_is_melee() || dist_sq <= touch * touch) && mover.engages {
                Some(Action::Attack(other.id))
            } else {
                None
            }
        },
        Body::Building(building) => {
            let range = if name.spec_is_melee() {
                spec_building_reach(name, building.name)
            } else {
                mover.reach as int
            };
            if name.spec_can_attack() && building.color != mover.unit.color && dist_sq <= range
                * range {
                Some(Action::Attack(other.id))
            } else {
                None
            }
        },
    }
}

/// Whether `other` pushes the mover aside: a unit in range that is not the
/// mover itself, starts no action, touches the mover and stands on the
/// ground, unless the mover passes through others.
pub open spec fn pushes(mover: Mover, other: Occupant) -> bool {
    let dist_sq = mover.position@.dist_sq(other.position@);
    match other.body {
        Body::Unit(unit) => {
            let touch = spec_separation_radius(mover.unit.name, unit.name);
            let range = if mover.unit.name.spec_is_melee() {
                touch
            } else {
                mover.reach as int
            };
            &&& other.id != mover.id
            &&& dist_sq <= range * range
            &&& engagement(mover, other) is None
            &&& dist_sq <= touch * touch
            &&& unit.on_building is None
            &&& mover.collides
        },
        Body::Building(_) => false,
    }
}

/// The direction in which a unit leaves another that stands on the same
/// spot. It depends on the unit's identity alone, so that a replay of the
/// same tick separates the two in the same way.
pub open spec fn spec_tiebreak(id: u64) -> V2 {
    let turn = id % 8;
    if turn == 0 {
        V2 { x: 1000, y: 0 }
    } else if turn == 1 {
        V2 { x: 707, y: 707 }
    } else if turn == 2 {
        V2 { x: 0, y: 1000 }
    } else if turn == 3 {
        V2 { x: -707, y: 707 }
    } else if turn == 4 {
        V2 { x: -1000, y: 0 }
    } else if turn == 5 {
        V2 { x: -707, y: -707 }
    } else if turn == 6 {
        V2 { x: 0, y: -1000 }
    } else {
        V2 { x: 707, y: -707 }
    }
}

/// The direction in which a unit leaves another that stands on the same
/// spot.
pub fn tiebreak(id: u64) -> (direction: Vec2)
    ensures
        direction@ == spec_tiebreak(id),
        direction@.within(SCALE as int),
{
    let turn: u64 = id % 8;
    if turn == 0 {
        Vec2 { x: 1000, y: 0 }
    } else if turn == 1 {
        Vec2 { x: 707, y: 707 }
    } else if turn == 2 {
        Vec2 { x: 0, y: 1000 }
    } else if turn == 3 {
        Vec2 { x: -707, y: 707 }
    } else if turn == 4 {
        Vec2 { x: -1000, y: 0 }
    } else if turn == 5 {
        Vec2 { x: -707, y: -707 }
    } else if turn == 6 {
        Vec2 { x: 0, y: -1000 }
    } else {
        Vec2 { x: 707, y: -707 }
    }
}

/// The force with which a unit at `other`, touching the mover within
/// `touch`, pushes it aside.
///
/// The force has two parts. One points across the mover's heading, to the
/// side on which the mover already is, and has the length of a direction.
/// The other points away from the pushing unit and grows with the cube of
/// the depth by which the two overlap, divided by `touch`.
pub open spec fn push_force(mover: Mover, other: V2, touch: int) -> V2 {
    let delta = mover.position@.minus(other);
    let dist = delta.length();
    let away = if dist < COINCIDENT_DISTANCE {
        spec_tiebreak(mover.id)
    } else {
        delta.direction()
    };
    let side = mover.heading@.perp();
    let sign: int = if away.dot(side) >= 0 {
        1
    } else {
        -1
    };
    let depth = touch - dist;
    let cube = depth * depth * depth;
    V2 {
        x: side.x * sign + tdiv(away.x * cube, touch * 1_000_000),
        y: side.y * sign + tdiv(away.y * cube, touch * 1_000_000),
    }
}

/// The force that `other` adds to the separation of the mover: the push
/// where it pushes, nothing otherwise.
pub open spec fn separation_from(mover: Mover, other: Occupant) -> V2 {
    match other.body {
        Body::Unit(unit) => if pushes(mover, other) {
            push_force(
                mover,
                other.position@,
                spec_separation_radius(mover.unit.name, unit.name),
            )
        } else {
            V2::zero()
        },
        Body::Building(_) => V2::zero(),
    }
}

/// The action that the first of `others` to start one makes the mover
/// begin.
pub open spec fn scan_action(mover: Mover, others: Seq<Occupant>) -> Option<Action>
    decreases others.len(),
{
    if others.len() == 0 {
        None
    } else {
        match scan_action(mover, others.drop_last()) {
            Some(action) => Some(action),
            None => engagement(mover, others.last()),
        }
    }
}

/// The separation force that `others` put on the mover together. After each
/// addition every component is limited to `FORCE_LIMIT`.
pub open spec fn scan_force(mover: Mover, others: Seq<Occupant>) -> V2
    decreases others.len(),
{
    if others.len() == 0 {
        V2::zero()
    } else {
        scan_force(mover, others.drop_last()).plus(separation_from(mover, others.last())).clamped(
            FORCE_LIMIT as int,
        )
    }
}

/// An action that a part of the neighbours starts is the action that all of
/// them start.
pub proof fn lemma_scan_action_prefix(mover: Mover, others: Seq<Occupant>, n: int)
    requires
        0 <= n <= others.len(),
        scan_action(mover, others.take(n)) is Some,
    ensures
        scan_action(mover, others) == scan_action(mover, others.take(n)),
    decreases others.len() - n,
{
    if n < others.len() {
        assert(others.take(n + 1).drop_last() =~= others.take(n));
        lemma_scan_action_prefix(mover, others, n + 1);
    } else {
        assert(others.take(n) =~= others);
    }
}

/// An action that the scan starts aims at one of the scanned occupants, which
/// is not the mover itself where it is a unit.
pub proof fn lemma_scan_action_target(mover: Mover, others: Seq<Occupant>)
    ensures
        scan_action(mover, others) matches Some(action) ==> {
            &&& action is Attack || action is Heal
            &&& exists|k: int|
                0 <= k < others.len() && engagement(mover, #[trigger] others[k]) == Some(action)
                    && action.spec_target() == Some(others[k].id)
        },
    decreases others.len(),
{
    if others.len() > 0 {
        lemma_scan_action_target(mover, others.drop_last());
        match scan_action(mover, others.drop_last()) {
            Some(action) => {
                let k = choose|k: int|
                    0 <= k < others.drop_last().len() && engagement(
                        mover,
                        #[trigger] others.drop_last()[k],
                    ) == Some(action) && action.spec_target() == Some(others.drop_last()[k].id);
                assert(others[k] == others.drop_last()[k]);
            },
            None => {
                if engagement(mover, others.last()) is Some {
                    assert(others[others.len() - 1] == others.last());
                }
            },
        }
    }
}

/// The force with which a unit at `other`, touching the mover within
/// `touch`, pushes it aside.
fn push(mover: &Mover, other: &Vec2, touch: i64) -> (force: Vec2)
    requires
        mover.wf(),
        other@.within(WIDE_LIMIT as int),
        28_800 <= touch <= 48_000,
        mover.position@.dist_sq(other@) <= touch * touch,
    ensures
        force@ == push_force(*mover, other@, touch as int),
        force@.within(200_000_000_000_000_000),
{
    let delta: Vec2 = mover.position.minus(other);
    assert(abs(delta.x as int) <= touch && abs(delta.y as int) <= touch) by (nonlinear_arith)
        requires
            delta.x * delta.x + delta.y * delta.y <= touch * touch,
            touch >= 0,
    ;
    let dist: i64 = delta.length();
    proof {
        lemma_sqrt_le(delta@.norm_sq(), touch as int);
    }
    let away: Vec2 = if dist < COINCIDENT_DISTANCE {
        tiebreak(mover.id)
    } else {
        delta.direction()
    };
    let side: Vec2 = mover.heading.perp();
    let sign: i64 = if away.dot(&side) >= 0 {
        1
    } else {
        -1
    };
    let depth: i64 = touch - dist;
    assert(0 <= depth * depth <= 48_000 * 48_000) by (nonlinear_arith)
        requires
            0 <= depth <= 48_000,
    ;
    let square: i64 = depth * depth;
    assert(0 <= square * depth <= 48_000 * 48_000 * 48_000) by (nonlinear_arith)
        requires
            0 <= depth <= 48_000,
            0 <= square <= 48_000 * 48_000,
    ;
    let cube: i64 = square * depth;
    let per: i64 = touch * 1_000_000;
    proof {
        assert(abs(away.x * cube) <= 1000 * (48_000 * 48_000 * 48_000)) by (nonlinear_arith)
            requires
                abs(away.x as int) <= 1000,
                0 <= cube <= 48_000 * 48_000 * 48_000,
        ;
        assert(abs(away.y * cube) <= 1000 * (48_000 * 48_000 * 48_000)) by (nonlinear_arith)
            requires
                abs(away.y as int) <= 1000,
                0 <= cube <= 48_000 * 48_000 * 48_000,
        ;
        lemma_tdiv_bounds(away.x * cube, per as int);
        lemma_tdiv_bounds(away.y * cube, per as int);
        assert(side.x * sign == if sign == 1 {
            side.x as int
        } else {
            -side.x
        }) by (nonlinear_arith)
            requires
                sign == 1 || sign == -1,
        ;
        assert(side.y * sign == if sign == 1 {
            side.y as int
        } else {
            -side.y
        }) by (nonlinear_arith)
            requires
                sign == 1 || sign == -1,
        ;
    }
    let x: i128 = mul_wide(away.x, cube) / (per as i128);
    let y: i128 = mul_wide(away.y, cube) / (per as i128);
    Vec2 { x: side.x * sign + (x as i64), y: side.y * sign + (y as i64) }
}

/// What the neighbours of a unit make it do: the action that the first of
/// them starts, or else the separation force of all of them.
pub fn scan(mover: &Mover, others: &Vec<Occupant>) -> (found: (Option<Action>, Vec2))
    requires
        mover.wf(),
        forall|k: int|
            0 <= k < others@.len() ==> (#[trigger] others@[k]).position@.within(WIDE_LIMIT as int),
    ensures
        found.0 == scan_action(*mover, others@),
        found.0 is None ==> found.1@ == scan_force(*mover, others@),
        found.1@.within(FORCE_LIMIT as int),
{
    let name: UnitName = mover.unit.name;
    let melee: bool = name.is_melee();
    let attacks: bool = name.can_attack();
    let healer: bool = !attacks;
    let mut force: Vec2 = Vec2 { x: 0, y: 0 };
    let n: usize = others.len();
    let mut i: usize = 0;
    while i < n
        invariant
            mover.wf(),
            name == mover.unit.name,
            melee == name.spec_is_melee(),
            attacks == name.spec_can_attack(),
            healer == (name == UnitName::Priest),
            n == others@.len(),
            i <= n,
            forall|k: int|
                0 <= k < others@.len() ==> (#[trigger] others@[k]).position@.within(
                    WIDE_LIMIT as int,
                ),
            scan_action(*mover, others@.take(i as int)) is None,
            force@ == scan_force(*mover, others@.take(i as int)),
            force@.within(FORCE_LIMIT as int),
        decreases n - i,
    {
        let other: Occupant = others[i];
        proof {
            let grown = others@.take(i + 1);
            assert(grown.drop_last() =~= others@.take(i as int));
            assert(grown.last() == other);
        }
        let dist_sq: u128 = mover.position.distance_squared(&other.position);
        let mut added: Vec2 = Vec2 { x: 0, y: 0 };
        let mut begun: Option<Action> = None;
        match other.body {
            Body::Unit(unit) => {
                let touch: i64 = separation_radius(name, unit.name);
                let range: i64 = if melee {
                    touch
                } else {
                    mover.reach
                };
                assert(0 <= range * range <= 432_000 * 432_000) by (nonlinear_arith)
                    requires
                        0 <= range <= 432_000,
                ;
                assert(0 <= touch * touch <= 48_000 * 48_000) by (nonlinear_arith)
                    requires
                        0 <= touch <= 48_000,
                ;
                let in_range: bool = other.id != mover.id && dist_sq <= (range * range) as u128;
                let touching: bool = dist_sq <= (touch * touch) as u128;
                if in_range {
                    if healer && mover.unit.color == unit.color && unit.is_hurt() {
                        begun = Some(Action::Heal(other.id));
                    } else if mover.unit.color != unit.color && attacks && (!melee || touching)
                        && mover.engages {
                        begun = Some(Action::Attack(other.id));
                    } else if touching && unit.on_building.is_none() && mover.collides {
                        added = push(mover, &other.position, touch);
                    }
                }
            },
            Body::Building(building) => {
                let range: i64 = if melee {
                    building_reach(name, building.name)
                } else {
                    mover.reach
                };
                assert(0 <= range * range <= 432_000 * 432_000) by (nonlinear_arith)
                    requires
                        0 <= range <= 432_000,
                ;
                if attacks && building.color != mover.unit.color && dist_sq <= (range
                    * range) as u128 {
                    begun = Some(Action::Attack(other.id));
                }
            },
        }
        assert(begun == engagement(*mover, other));
        if begun.is_some() {
            proof {
                lemma_scan_action_prefix(*mover, others@, i + 1);
            }
            return (begun, force);
        }
        assert(added@ == separation_from(*mover, other));
        force = Vec2 {
            x: clamp_wide((force.x as i128) + (added.x as i128), FORCE_LIMIT),
            y: clamp_wide((force.y as i128) + (added.y as i128), FORCE_LIMIT),
        };
        i = i + 1;
    }
    assert(others@.take(n as int) =~= others@);
    (None, force)
}

/// The direction of travel of a unit that follows `heading` under the
/// separation force `force`.
///
/// The part of the force that points against the heading is taken out, so
/// that a blocked unit does not turn back. What is left counts
/// `SEPARATION_WEIGHT` times as much as the heading.
pub open spec fn spec_steer(heading: V2, force: V2) -> V2 {
    let along = tdiv(force.dot(heading), SCALE as int);
    let free = if along < 0 {
        force.minus(heading.scaled(along, SCALE as int))
    } else {
        force
    };
    heading.plus(free.direction().times(SEPARATION_WEIGHT as int)).direction()
}

/// The direction of travel of a unit that follows `heading` under the
/// separation force `force`.
pub fn steer(heading: &Vec2, force: &Vec2) -> (direction: Vec2)
    requires
        heading@.within(SCALE as int),
        force@.within(FORCE_LIMIT as int),
    ensures
        direction@ == spec_steer(heading@, force@),
        direction@.within(SCALE as int),
{
    let dot: i128 = force.dot(heading);
    proof {
        assert(abs(force.x * heading.x) <= FORCE_LIMIT * SCALE) by (nonlinear_arith)
            requires
                abs(force.x as int) <= FORCE_LIMIT,
                abs(heading.x as int) <= SCALE,
        ;
        assert(abs(force.y * heading.y) <= FORCE_LIMIT * SCALE) by (nonlinear_arith)
            requires
                abs(force.y as int) <= FORCE_LIMIT,
                abs(heading.y as int) <= SCALE,
        ;
        lemma_tdiv_bounds(dot as int, SCALE as int);
    }
    let along: i64 = (dot / (SCALE as i128)) as i64;
    let free: Vec2 = if along < 0 {
        proof {
            assert(abs(heading.x * along) <= SCALE * (2 * FORCE_LIMIT * SCALE)) by (nonlinear_arith)
                requires
                    abs(heading.x as int) <= SCALE,
                    abs(along as int) <= 2 * FORCE_LIMIT * SCALE,
            ;
            assert(abs(heading.y * along) <= SCALE * (2 * FORCE_LIMIT * SCALE)) by (nonlinear_arith)
                requires
                    abs(heading.y as int) <= SCALE,
                    abs(along as int) <= 2 * FORCE_LIMIT * SCALE,
            ;
        }
        let back_x: i128 = mul_div_wide(heading.x, along, SCALE);
        let back_y: i128 = mul_div_wide(heading.y, along, SCALE);
        Vec2 { x: force.x - (back_x as i64), y: force.y - (back_y as i64) }
    } else {
        *force
    };
    let aside: Vec2 = free.direction();
    let movement: Vec2 = Vec2 {
        x: heading.x + aside.x * SEPARATION_WEIGHT,
        y: heading.y + aside.y * SEPARATION_WEIGHT,
    };
    movement.direction()
}

/// Distance that a unit covers in one tick, in thousandths of a world unit.
///
/// `speed` is the walking speed in world units per second, `run` and `march`
/// say whether the run boost and the march strategy apply, `game_speed` is
/// the global simulation speed in thousandths and `delta` the real time of
/// the tick in microseconds. Running doubles the distance, marching makes it
/// half as long again.
pub open spec fn spec_step_length(speed: u32, run: bool, march: bool, game_speed: u32, delta: u64) -> int {
    speed * (if run {
        2000int
    } else {
        1000int
    }) * (if march {
        1500int
    } else {
        1000int
    }) * game_speed * delta / 1_000_000_000_000
}

/// Distance that a unit covers in the tick `tick`, in thousandths of a world
/// unit.
pub fn step_length(speed: u32, run: bool, march: bool, tick: &Tick) -> (step: i64)
    ensures
        step == spec_step_length(speed, run, march, tick.spec_speed(), tick.spec_delta()),
        0 <= step <= 3_000_000_000_000_000_000,
{
    let run_factor: u128 = if run {
        2000
    } else {
        1000
    };
    let march_factor: u128 = if march {
        1500
    } else {
        1000
    };
    let game_speed: u32 = tick.speed();
    let delta: u64 = tick.delta();
    let a: u128 = (speed as u128) * run_factor;
    assert(a * march_factor <= 0xffff_ffff * 2000 * 1500) by (nonlinear_arith)
        requires
            a <= 0xffff_ffff * 2000,
            march_factor <= 1500,
    ;
    let b: u128 = a * march_factor;
    assert(b * game_speed <= 0xffff_ffff * 2000 * 1500 * 0xffff_ffff) by (nonlinear_arith)
        requires
            b <= 0xffff_ffff * 2000 * 1500,
            game_speed <= 0xffff_ffff,
    ;
    let c: u128 = b * (game_speed as u128);
    assert(c * delta <= 0xffff_ffff * 2000 * 1500 * 0xffff_ffff * 50_000) by (nonlinear_arith)
        requires
            c <= 0xffff_ffff * 2000 * 1500 * 0xffff_ffff,
            delta <= 50_000,
    ;
    let d: u128 = c * (delta as u128);
    (d / 1_000_000_000_000) as i64
}

/// The position that a unit at `position` reaches with a step of length
/// `step` in `direction`, kept inside the coordinate limit.
pub open spec fn spec_candidate(position: V2, direction: V2, step: int) -> V2 {
    position.plus(direction.scaled(step, SCALE as int)).clamped(COORD_LIMIT as int)
}

/// The position that a unit at `position` reaches with a step of length
/// `step` in `direction`, kept inside the coordinate limit.
pub fn candidate(position: &Vec2, direction: &Vec2, step: i64) -> (reached: Vec2)
    requires
        position.in_bounds(),
        direction@.within(SCALE as int),
        0 <= step <= 3_000_000_000_000_000_000,
    ensures
        reached@ == spec_candidate(position@, direction@, step as int),
        reached.in_bounds(),
        abs(reached.x - position.x) <= step,
        abs(reached.y - position.y) <= step,
{
    let dx: i64 = mul_div(step, direction.x, SCALE);
    let dy: i64 = mul_div(step, direction.y, SCALE);
    proof {
        assert(step * direction.x == direction.x * step) by (nonlinear_arith);
        assert(step * direction.y == direction.y * step) by (nonlinear_arith);
    }
    let moved: Vec2 = Vec2 { x: position.x + dx, y: position.y + dy };
    moved.clamped(COORD_LIMIT)
}

/// Lowest world y at which a unit of world size `world_size` stands on
/// `tile` when there is no ground under the tile: a quarter of its size
/// above the lower edge.
pub open spec fn spec_ledge_limit(map: &GameMap, tile: TilePos, world_size: int) -> int {
    map.spec_tile_to_world(tile).y - TILE_SIZE / 2 + world_size / 4
}

/// What a tick of steering leaves of a unit: its action, its position and
/// the way it faces.
pub struct Step {
    pub action: Action,
    pub position: V2,
    pub flip_x: bool,
}

/// The outcome of a step to `reached`.
///
/// The step is taken if `reached` lies on the tile the unit stands on or on
/// a walkable tile; the unit then runs. Where there is no ground under the
/// tile reached, the unit is kept on the upper part of that tile. The unit
/// faces left after a step to a tile further left, right after a step to a
/// tile further right, and the way its team faces (`team_faces_left`) after
/// a step that changes no column. A step that is not taken leaves the unit
/// idle where it is.
pub open spec fn spec_commit(
    map: &GameMap,
    entity: UnitEntity,
    reached: V2,
    team_faces_left: bool,
) -> Step {
    let tile = map.spec_world_to_tile(entity.position@);
    let next_tile = map.spec_world_to_tile(reached);
    if tile == next_tile || map.spec_is_walkable(next_tile) {
        let ledge = spec_ledge_limit(map, next_tile, entity.unit.name.spec_world_size() as int);
        Step {
            action: Action::Run,
            position: V2 {
                x: reached.x,
                y: if !map.spec_walkable_below(next_tile) && reached.y < ledge {
                    ledge
                } else {
                    reached.y
                },
            },
            flip_x: if next_tile.x != tile.x {
                next_tile.x < tile.x
            } else {
                team_faces_left
            },
        }
    } else {
        Step { action: Action::Idle, position: entity.position@, flip_x: entity.flip_x }
    }
}

/// Takes the step to `reached` if the ground allows it.
pub fn commit(map: &GameMap, entity: &mut UnitEntity, reached: &Vec2, team_faces_left: bool)
    requires
        map.wf(),
        old(entity).wf(),
        reached.in_bounds(),
    ensures
        final(entity).id == old(entity).id,
        final(entity).unit == (Unit {
            action: spec_commit(map, *old(entity), reached@, team_faces_left).action,
            ..old(entity).unit
        }),
        final(entity).position@ == spec_commit(map, *old(entity), reached@, team_faces_left).position,
        final(entity).flip_x == spec_commit(map, *old(entity), reached@, team_faces_left).flip_x,
        final(entity).wf(),
        final(entity).unit.action == Action::Run ==> {
            let tile = map.spec_world_to_tile(old(entity).position@);
            let next_tile = map.spec_world_to_tile(final(entity).position@);
            next_tile == tile || map.spec_is_walkable(next_tile)
        },
        final(entity).unit.action != Action::Run ==> final(entity).position == old(entity).position,
        final(entity).unit.action == Action::Run ==> final(entity).position.x == reached.x,
{
    let tile: TilePos = map.world_to_tile(&entity.position);
    let next_tile: TilePos = map.world_to_tile(reached);
    if tile == next_tile || map.is_walkable(next_tile) {
        let mut y: i64 = reached.y;
        if !map.walkable_below(next_tile) {
            let ledge: i64 = map.tile_to_world(next_tile).y - TILE_SIZE / 2
                + entity.unit.name.world_size() / 4;
            if y < ledge {
                y = ledge;
            }
        }
        entity.flip_x = if next_tile.x != tile.x {
            next_tile.x < tile.x
        } else {
            team_faces_left
        };
        entity.position = Vec2 { x: reached.x, y };
        entity.unit.action = Action::Run;
    } else {
        entity.unit.action = Action::Idle;
    }
}

/// The waypoints of the lane of `entity` in the order in which its team
/// walks them.
pub open spec fn spec_path(entity: UnitEntity, map: &GameMap, players: &Players) -> Seq<TilePos> {
    map.spec_lane(entity.unit.lane, players.by_color(entity.unit.color).side == Side::Right)
}

/// The unit `entity` as the proximity scan sees it: heading for the waypoint
/// after the nearest one of its lane, with the reach of its class, place and
/// boosts, engaging unless its team marches, and colliding unless its team
/// passes through others.
pub open spec fn spec_mover(entity: UnitEntity, map: &GameMap, players: &Players) -> Mover {
    let player = players.by_color(entity.unit.color);
    let target = target_tile(map, entity.position@, spec_path(entity, map, players));
    Mover {
        id: entity.id,
        position: entity.position,
        unit: entity.unit,
        heading: map.spec_tile_to_world(target).minus(entity.position@).direction().fixed(),
        reach: (entity.unit.spec_range(player.boosts.spec_has(Boost::Longbow)) * RADIUS
            / 1000) as i64,
        engages: player.strategy != Strategy::March,
        collides: !player.boosts.spec_has(Boost::NoCollision),
    }
}

impl Step {
    /// The unit `entity` after the step.
    pub open spec fn applied(self, entity: UnitEntity) -> UnitEntity {
        UnitEntity {
            id: entity.id,
            position: self.position.fixed(),
            flip_x: self.flip_x,
            unit: Unit { action: self.action, ..entity.unit },
        }
    }
}

/// What one tick of steering makes of the unit `entity`.
///
/// A unit on the last waypoint of its lane has arrived and idles. Any other
/// unit looks at the occupants of the tiles within `SCAN_DISTANCE`, and if
/// one of them makes it heal or attack, it begins that action where it
/// stands. Otherwise a unit on a building stays as it is, a unit whose
/// opponents have frozen it idles, and every other unit tries a step along
/// its lane, pushed aside by the units it touches.
#[verifier::opaque]
pub open spec fn spec_move_unit(
    entity: UnitEntity,
    index: &SpatialIndex,
    map: &GameMap,
    players: &Players,
    tick: &Tick,
) -> Step {
    let player = players.by_color(entity.unit.color);
    let enemy = players.by_side(player.side.spec_opposite());
    let path = spec_path(entity, map, players);
    let tile = map.spec_world_to_tile(entity.position@);
    if tile == path.last() {
        Step { action: Action::Idle, position: entity.position@, flip_x: entity.flip_x }
    } else {
        let mover = spec_mover(entity, map, players);
        let others = index.gather(tiles_in_square(tile, SCAN_DISTANCE));
        match scan_action(mover, others) {
            Some(action) => Step { action, position: entity.position@, flip_x: entity.flip_x },
            None => if entity.unit.on_building is Some {
                Step {
                    action: entity.unit.action,
                    position: entity.position@,
                    flip_x: entity.flip_x,
                }
            } else if enemy.boosts.spec_has(Boost::Frozen) {
                Step { action: Action::Idle, position: entity.position@, flip_x: entity.flip_x }
            } else {
                spec_commit(
                    map,
                    entity,
                    spec_candidate(
                        entity.position@,
                        spec_steer(mover.heading@, scan_force(mover, others)),
                        spec_step_length(
                            entity.unit.name.spec_speed(),
                            player.boosts.spec_has(Boost::Run),
                            player.strategy == Strategy::March,
                            tick.spec_speed(),
                            tick.spec_delta(),
                        ),
                    ),
                    players.me.color != entity.unit.color,
                )
            },
        }
    }
}

/// Steers the unit `entity` through one tick: it arrives, begins to heal or
/// to attack, stays, or takes a step along its lane.
///
/// `index` holds the occupants of the world as they stood when the tick
/// began. A step is only ever taken onto a walkable tile or within the tile
/// that the unit already stands on, and it never takes the unit further to
/// the side than the unit walks in the time of the tick.
pub fn move_unit(
    entity: &mut UnitEntity,
    index: &SpatialIndex,
    map: &GameMap,
    players: &Players,
    tick: &Tick,
)
    requires
        old(entity).wf(),
        map.wf(),
        index.wf(),
    ensures
        *final(entity) == spec_move_unit(*old(entity), index, map, players, tick).applied(
            *old(entity),
        ),
        final(entity).position@ == spec_move_unit(*old(entity), index, map, players, tick).position,
        final(entity).wf(),
        final(entity).position != old(entity).position ==> {
            let tile = map.spec_world_to_tile(old(entity).position@);
            let next_tile = map.spec_world_to_tile(final(entity).position@);
            final(entity).unit.action == Action::Run && (next_tile == tile || map.spec_is_walkable(
                next_tile,
            ))
        },
        final(entity).unit.action is Attack || final(entity).unit.action is Heal
            ==> final(entity).position == old(entity).position,
        abs(final(entity).position.x - old(entity).position.x) <= spec_step_length(
            old(entity).unit.name.spec_speed(),
            players.by_color(old(entity).unit.color).boosts.spec_has(Boost::Run),
            players.by_color(old(entity).unit.color).strategy == Strategy::March,
            tick.spec_speed(),
            tick.spec_delta(),
        ),
{
    reveal(spec_move_unit);
    let player: &Player = players.get_by_color(entity.unit.color);
    let enemy: &Player = players.get_by_side(player.side.opposite());
    let path: Vec<TilePos> = map.lane(entity.unit.lane, player.side == Side::Right);
    let tile: TilePos = map.world_to_tile(&entity.position);
    if tile == path[path.len() - 1] {
        entity.unit.action = Action::Idle;
        return;
    }
    let target: TilePos = get_target_tile(map, &entity.position, &path);
    let heading: Vec2 = map.tile_to_world(target).minus(&entity.position).direction();
    let mover: Mover = Mover {
        id: entity.id,
        position: entity.position,
        unit: entity.unit,
        heading,
        reach: (entity.unit.range(player) as i64) * RADIUS / 1000,
        engages: player.strategy != Strategy::March,
        collides: !player.has_boost(Boost::NoCollision),
    };
    assert(mover == spec_mover(*entity, map, players));
    let tiles: Vec<TilePos> = get_tiles_at_distance(&tile, SCAN_DISTANCE);
    let others: Vec<Occupant> = index.nearby(&tiles);
    let (begun, force) = scan(&mover, &others);
    match begun {
        Some(action) => {
            entity.unit.action = action;
            return;
        },
        None => {},
    }
    if entity.unit.on_building.is_some() {
        return;
    }
    if enemy.has_boost(Boost::Frozen) {
        entity.unit.action = Action::Idle;
        return;
    }
    let direction: Vec2 = steer(&heading, &force);
    let step: i64 = step_length(
        entity.unit.name.speed(),
        player.has_boost(Boost::Run),
        player.strategy == Strategy::March,
        tick,
    );
    let reached: Vec2 = candidate(&entity.position, &direction, step);
    commit(map, entity, &reached, players.me.color != entity.unit.color);
}

/// Distance that a projectile covers in a tick of `delta` real microseconds
/// at simulation speed `game_speed`, in thousandths of a world unit.
pub open spec fn spec_flight_step(game_speed: u32, delta: u64) -> int {
    ARROW_SPEED * game_speed * delta / 1_000_000
}

/// Distance that a projectile covers in the tick `tick`.
pub fn flight_step(tick: &Tick) -> (step: i64)
    ensures
        step == spec_flight_step(tick.spec_speed(), tick.spec_delta()),
        0 <= step <= 70_000_000_000,
{
    let game_speed: u32 = tick.speed();
    let delta: u64 = tick.delta();
    assert(ARROW_SPEED * game_speed <= 300 * 0xffff_ffff) by (nonlinear_arith)
        requires
            game_speed <= 0xffff_ffff,
    ;
    let a: u64 = ARROW_SPEED * (game_speed as u64);
    assert(a * delta <= 300 * 0xffff_ffff * 50_000) by (nonlinear_arith)
        requires
            a <= 300 * 0xffff_ffff,
            delta <= 50_000,
    ;
    ((a * delta) / 1_000_000) as i64
}

/// Height of the arc of a parabolic flight of length `total` after
/// `traveled`: nothing at both ends, a fifth of the length half-way.
pub open spec fn arc_height(traveled: int, total: int) -> int {
    4 * traveled * (total - traveled) / (5 * total)
}

/// Where a projectile is after `traveled` of its flight: on the straight line
/// from start to destination, lifted by the arc if it flies a parabola.
pub open spec fn flight_position(arrow: Arrow, traveled: int) -> V2 {
    let total = arrow.total_distance as int;
    let line = arrow.start@.plus(arrow.destination@.minus(arrow.start@).scaled(traveled, total));
    if arrow.projectile.spec_mode() == ProjectileMode::Parabolic {
        V2 { x: line.x, y: line.y + arc_height(traveled, total) }
    } else {
        line
    }
}

/// Where a projectile is after `traveled` of its flight.
pub fn position_at(arrow: &Arrow, traveled: i64) -> (position: Vec2)
    requires
        arrow.wf(),
        0 <= traveled <= arrow.total_distance,
        arrow.total_distance > 0,
    ensures
        position@ == flight_position(*arrow, traveled as int),
        position@.within(4 * COORD_LIMIT),
{
    let total: i64 = arrow.total_distance;
    let span: Vec2 = arrow.destination.minus(&arrow.start);
    proof {
        lemma_norm_sq_bounds(span@, 2 * COORD_LIMIT);
        assert(span@.norm_sq() <= (3 * COORD_LIMIT) * (3 * COORD_LIMIT)) by (nonlinear_arith)
            requires
                span@.norm_sq() <= 2 * (2 * COORD_LIMIT) * (2 * COORD_LIMIT),
        ;
        lemma_sqrt_le(span@.norm_sq(), 3 * COORD_LIMIT);
    }
    let dx: i64 = mul_div(span.x, traveled, total);
    let dy: i64 = mul_div(span.y, traveled, total);
    proof {
        assert(span.x >= 0 ==> span.x * traveled >= 0) by (nonlinear_arith)
            requires
                traveled >= 0,
        ;
        assert(span.x <= 0 ==> span.x * traveled <= 0) by (nonlinear_arith)
            requires
                traveled >= 0,
        ;
        assert(span.y >= 0 ==> span.y * traveled >= 0) by (nonlinear_arith)
            requires
                traveled >= 0,
        ;
        assert(span.y <= 0 ==> span.y * traveled <= 0) by (nonlinear_arith)
            requires
                traveled >= 0,
        ;
    }
    let line: Vec2 = Vec2 { x: arrow.start.x + dx, y: arrow.start.y + dy };
    match arrow.projectile.mode() {
        ProjectileMode::Parabolic => {
            let rest: i64 = total - traveled;
            assert(0 <= traveled * rest <= total * total) by (nonlinear_arith)
                requires
                    0 <= traveled <= total,
                    rest == total - traveled,
            ;
            assert(total * total <= 3_000_000_000_000 * 3_000_000_000_000) by (nonlinear_arith)
                requires
                    0 <= total <= 3_000_000_000_000,
            ;
            let lift: i128 = 4 * mul_wide(traveled, rest) / (5 * (total as i128));
            assert(0 <= lift <= total) by (nonlinear_arith)
                requires
                    lift == 4 * (traveled * rest) / (5 * total),
                    0 <= traveled * rest <= total * total,
                    total > 0,
            ;
            assert(4 * traveled * rest == 4 * (traveled * rest)) by (nonlinear_arith);
            Vec2 { x: line.x, y: line.y + (lift as i64) }
        },
        ProjectileMode::Straight => line,
    }
}

/// Whether a projectile of team `color` at `position` strikes `other`: an
/// occupant of another team nearer than `STRIKE_RADIUS`.
pub open spec fn strikes(color: PlayerColor, position: V2, other: Occupant) -> bool {
    other.spec_color() != color && position.dist_sq(other.position@) < STRIKE_RADIUS
        * STRIKE_RADIUS
}

/// The first of `others` that a projectile of team `color` at `position`
/// strikes.
pub open spec fn first_hit(color: PlayerColor, position: V2, others: Seq<Occupant>) -> Option<u64>
    decreases others.len(),
{
    if others.len() == 0 {
        None
    } else {
        match first_hit(color, position, others.drop_last()) {
            Some(id) => Some(id),
            None => if strikes(color, position, others.last()) {
                Some(others.last().id)
            } else {
                None
            },
        }
    }
}

/// A hit among a part of the candidates is the hit among all of them.
pub proof fn lemma_first_hit_prefix(color: PlayerColor, position: V2, others: Seq<Occupant>, n: int)
    requires
        0 <= n <= others.len(),
        first_hit(color, position, others.take(n)) is Some,
    ensures
        first_hit(color, position, others) == first_hit(color, position, others.take(n)),
    decreases others.len() - n,
{
    if n < others.len() {
        assert(others.take(n + 1).drop_last() =~= others.take(n));
        lemma_first_hit_prefix(color, position, others, n + 1);
    } else {
        assert(others.take(n) =~= others);
    }
}

/// Impact does not depend on where in the world it happens: a projectile
/// and candidates that are all moved by the same offset give the same hit.
pub proof fn lemma_first_hit_translation(
    color: PlayerColor,
    position: V2,
    others: Seq<Occupant>,
    moved: Seq<Occupant>,
    offset: V2,
)
    requires
        moved.len() == others.len(),
        forall|k: int|
            0 <= k < others.len() ==> (#[trigger] moved[k]).id == others[k].id && moved[k].body
                == others[k].body && moved[k].position@ == others[k].position@.plus(offset),
    ensures
        first_hit(color, position.plus(offset), moved) == first_hit(color, position, others),
    decreases others.len(),
{
    if others.len() > 0 {
        assert forall|k: int| 0 <= k < others.drop_last().len() implies (
        #[trigger] moved.drop_last()[k]).id == others.drop_last()[k].id && moved.drop_last()[k].body
            == others.drop_last()[k].body && moved.drop_last()[k].position@
            == others.drop_last()[k].position@.plus(offset) by {
            assert(moved.drop_last()[k] == moved[k]);
        }
        lemma_first_hit_translation(
            color,
            position,
            others.drop_last(),
            moved.drop_last(),
            offset,
        );
        let last = others.len() - 1;
        assert(moved[last].id == others[last].id);
    }
}

/// The first of `others` that a projectile of team `color` at `position`
/// strikes.
pub fn find_hit(color: PlayerColor, position: &Vec2, others: &Vec<Occupant>) -> (hit: Option<u64>)
    requires
        position@.within(WIDE_LIMIT as int),
        forall|k: int|
            0 <= k < others@.len() ==> (#[trigger] others@[k]).position@.within(WIDE_LIMIT as int),
    ensures
        hit == first_hit(color, position@, others@),
{
    let n: usize = others.len();
    let mut i: usize = 0;
    while i < n
        invariant
            n == others@.len(),
            i <= n,
            position@.within(WIDE_LIMIT as int),
            forall|k: int|
                0 <= k < others@.len() ==> (#[trigger] others@[k]).position@.within(
                    WIDE_LIMIT as int,
                ),
            first_hit(color, position@, others@.take(i as int)) is None,
        decreases n - i,
    {
        let other: Occupant = others[i];
        proof {
            let grown = others@.take(i + 1);
            assert(grown.drop_last() =~= others@.take(i as int));
            assert(grown.last() == other);
        }
        if other.color() != color && position.distance_squared(&other.position) < (STRIKE_RADIUS
            * STRIKE_RADIUS) as u128 {
            proof {
                lemma_first_hit_prefix(color, position@, others@, i + 1);
            }
            return Some(other.id);
        }
        i = i + 1;
    }
    assert(others@.take(n as int) =~= others@);
    None
}

/// What became of a projectile in a tick.
#[derive(Clone, Copy, Debug, PartialEq, Eq, Structural)]
pub enum Flight {
    /// It is still in the air.
    Flying,
    /// It struck `target`, which takes `damage`; the projectile is gone.
    Hit { target: u64, damage: i32 },
    /// It has landed and stays in the ground for a while.
    Landed,
    /// It is gone without having struck anything.
    Expired,
}

/// What one tick of flight makes of a projectile.
pub struct ArrowStep {
    pub traveled: int,
    pub timer: Timer,
    pub position: V2,
    pub heading: Option<V2>,
    pub flight: Flight,
}

impl ArrowStep {
    /// The projectile `entity` after the step.
    pub open spec fn applied(self, entity: ArrowEntity) -> ArrowEntity {
        ArrowEntity {
            id: entity.id,
            position: self.position.fixed(),
            heading: match self.heading {
                Some(heading) => Some(heading.fixed()),
                None => None,
            },
            arrow: Arrow {
                traveled: self.traveled as i64,
                despawn_timer: self.timer,
                ..entity.arrow
            },
        }
    }
}

/// Distance covered after the tick: the step of the tick further, counted
/// up to `TRAVEL_LIMIT`.
pub open spec fn spec_advanced(arrow: Arrow, tick: &Tick) -> int {
    let reached = arrow.traveled + spec_flight_step(tick.spec_speed(), tick.spec_delta());
    if reached >= TRAVEL_LIMIT {
        TRAVEL_LIMIT as int
    } else {
        reached
    }
}

/// The direction of flight of a parabolic projectile after `traveled`: from
/// where it is to where it is one world unit further on, where the two are
/// more than a hundredth of a world unit apart.
pub open spec fn spec_heading(arrow: Arrow, traveled: int) -> Option<V2> {
    let ahead = if traveled + SCALE >= arrow.total_distance {
        arrow.total_distance as int
    } else {
        traveled + SCALE
    };
    let velocity = flight_position(arrow, ahead).minus(flight_position(arrow, traveled));
    if velocity.norm_sq() > COINCIDENT_DISTANCE * COINCIDENT_DISTANCE {
        Some(velocity)
    } else {
        None
    }
}

/// What one tick of flight makes of the projectile `entity`.
///
/// The projectile covers the distance of the tick, also past its end. Once
/// it has covered its whole distance it has landed: a straight one is gone at once, a parabolic
/// one stays where it is until its timer, which runs in simulated time, has
/// finished. Before that it moves to its new position and strikes the first
/// opposing occupant within `STRIKE_RADIUS` on the tiles within
/// `STRIKE_SCAN_DISTANCE`; a parabolic one that strikes nothing turns into
/// its direction of flight.
#[verifier::opaque]
pub open spec fn spec_move_arrow(
    entity: ArrowEntity,
    index: &SpatialIndex,
    map: &GameMap,
    tick: &Tick,
) -> ArrowStep {
    let arrow = entity.arrow;
    let traveled = spec_advanced(arrow, tick);
    let parabolic = arrow.projectile.spec_mode() == ProjectileMode::Parabolic;
    if traveled >= arrow.total_distance {
        if parabolic {
            ArrowStep {
                traveled,
                timer: arrow.despawn_timer.ticked(tick.spec_scaled_delta() as u64),
                position: entity.position@,
                heading: match entity.heading {
                    Some(heading) => Some(heading@),
                    None => None,
                },
                flight: if arrow.despawn_timer.finishes_in(tick.spec_scaled_delta() as u64) {
                    Flight::Expired
                } else {
                    Flight::Landed
                },
            }
        } else {
            ArrowStep {
                traveled,
                timer: arrow.despawn_timer,
                position: entity.position@,
                heading: match entity.heading {
                    Some(heading) => Some(heading@),
                    None => None,
                },
                flight: Flight::Expired,
            }
        }
    } else {
        let position = flight_position(arrow, traveled);
        let others = index.gather(
            tiles_in_square(map.spec_world_to_tile(position), STRIKE_SCAN_DISTANCE),
        );
        match first_hit(arrow.color, position, others) {
            Some(target) => ArrowStep {
                traveled,
                timer: arrow.despawn_timer,
                position,
                heading: match entity.heading {
                    Some(heading) => Some(heading@),
                    None => None,
                },
                flight: Flight::Hit { target, damage: arrow.damage },
            },
            None => ArrowStep {
                traveled,
                timer: arrow.despawn_timer,
                position,
                heading: if parabolic && spec_heading(arrow, traveled) is Some {
                    spec_heading(arrow, traveled)
                } else {
                    match entity.heading {
                        Some(heading) => Some(heading@),
                        None => None,
                    }
                },
                flight: Flight::Flying,
            },
        }
    }
}

/// Moves the projectile `entity` through one tick and reports what became of
/// it. `index` holds the occupants of the world as they stood when the tick
/// began.
pub fn move_arrow(entity: &mut ArrowEntity, index: &SpatialIndex, map: &GameMap, tick: &Tick) -> (flight:
    Flight)
    requires
        old(entity).wf(),
        map.wf(),
        index.wf(),
    ensures
        flight == spec_move_arrow(*old(entity), index, map, tick).flight,
        *final(entity) == spec_move_arrow(*old(entity), index, map, tick).applied(*old(entity)),
        final(entity).position@ == spec_move_arrow(*old(entity), index, map, tick).position,
        final(entity).arrow.traveled == spec_advanced(old(entity).arrow, tick),
        final(entity).wf(),
        final(entity).arrow.traveled >= old(entity).arrow.traveled,
        old(entity).arrow.projectile.spec_mode() == ProjectileMode::Straight
            && final(entity).arrow.spec_has_landed() ==> flight == Flight::Expired,
{
    reveal(spec_move_arrow);
    let step: i64 = flight_step(tick);
    let total: i64 = entity.arrow.total_distance;
    proof {
        let span = entity.arrow.destination@.minus(entity.arrow.start@);
        lemma_norm_sq_bounds(span, 2 * COORD_LIMIT);
        assert(span.norm_sq() <= (3 * COORD_LIMIT) * (3 * COORD_LIMIT)) by (nonlinear_arith)
            requires
                span.norm_sq() <= 2 * (2 * COORD_LIMIT) * (2 * COORD_LIMIT),
        ;
        lemma_sqrt_le(span.norm_sq(), 3 * COORD_LIMIT);
    }
    let traveled: i64 = if entity.arrow.traveled + step >= TRAVEL_LIMIT {
        TRAVEL_LIMIT
    } else {
        entity.arrow.traveled + step
    };
    entity.arrow.traveled = traveled;
    if traveled >= total {
        return match entity.arrow.projectile.mode() {
            ProjectileMode::Parabolic => {
                if entity.arrow.despawn_timer.tick(tick.scaled_delta()) {
                    Flight::Expired
                } else {
                    Flight::Landed
                }
            },
            ProjectileMode::Straight => Flight::Expired,
        };
    }
    let position: Vec2 = position_at(&entity.arrow, traveled);
    entity.position = position;
    let tile: TilePos = map.world_to_tile(&position);
    let tiles: Vec<TilePos> = get_tiles_at_distance(&tile, STRIKE_SCAN_DISTANCE);
    let others: Vec<Occupant> = index.nearby(&tiles);
    match find_hit(entity.arrow.color, &position, &others) {
        Some(target) => Flight::Hit { target, damage: entity.arrow.damage },
        None => {
            match entity.arrow.projectile.mode() {
                ProjectileMode::Parabolic => {
                    let ahead: i64 = if traveled + SCALE >= total {
                        total
                    } else {
                        traveled + SCALE
                    };
                    let velocity: Vec2 = position_at(&entity.arrow, ahead).minus(&position);
                    if velocity.norm_sq() > (COINCIDENT_DISTANCE * COINCIDENT_DISTANCE) as u128 {
                        entity.heading = Some(velocity);
                    }
                },
                ProjectileMode::Straight => {},
            }
            Flight::Flying
        },
    }
}

/// What a tick of movement makes of the unit `entity`: a unit that idles or
/// runs is steered, a unit that attacks or heals is left as it is.
pub open spec fn spec_unit_moved(
    entity: UnitEntity,
    index: &SpatialIndex,
    map: &GameMap,
    players: &Players,
    tick: &Tick,
) -> UnitEntity {
    if entity.unit.action.spec_is_mobile() {
        spec_move_unit(entity, index, map, players, tick).applied(entity)
    } else {
        entity
    }
}

/// Whether `after` and `flights` are what a tick of movement makes of the
/// world `before`, where `index` holds the occupants of `before`: every unit
/// and every projectile has moved on its own against that one snapshot,
/// `flights` tells what became of each projectile, and the buildings are
/// untouched.
pub open spec fn movement_applied(
    before: &World,
    after: &World,
    flights: Seq<Flight>,
    index: &SpatialIndex,
    map: &GameMap,
    players: &Players,
    tick: &Tick,
) -> bool {
    &&& after.buildings@ == before.buildings@
    &&& after.units@.len() == before.units@.len()
    &&& forall|i: int|
        0 <= i < before.units@.len() ==> #[trigger] after.units@[i] == spec_unit_moved(
            before.units@[i],
            index,
            map,
            players,
            tick,
        )
    &&& after.arrows@.len() == before.arrows@.len()
    &&& flights.len() == before.arrows@.len()
    &&& forall|i: int|
        0 <= i < before.arrows@.len() ==> #[trigger] after.arrows@[i] == spec_move_arrow(
            before.arrows@[i],
            index,
            map,
            tick,
        ).applied(before.arrows@[i])
    &&& forall|i: int|
        0 <= i < before.arrows@.len() ==> #[trigger] flights[i] == spec_move_arrow(
            before.arrows@[i],
            index,
            map,
            tick,
        ).flight
}

/// Steering depends on the index only through the entries it holds.
pub proof fn lemma_move_unit_same_index(
    entity: UnitEntity,
    first: &SpatialIndex,
    second: &SpatialIndex,
    map: &GameMap,
    all: Seq<Occupant>,
    players: &Players,
    tick: &Tick,
)
    requires
        first.holds(map, all),
        second.holds(map, all),
    ensures
        spec_move_unit(entity, first, map, players, tick) == spec_move_unit(
            entity,
            second,
            map,
            players,
            tick,
        ),
{
    reveal(spec_move_unit);
    lemma_same_gather(
        first,
        second,
        map,
        all,
        tiles_in_square(map.spec_world_to_tile(entity.position@), SCAN_DISTANCE),
    );
}

/// Flight depends on the index only through the entries it holds.
pub proof fn lemma_move_arrow_same_index(
    entity: ArrowEntity,
    first: &SpatialIndex,
    second: &SpatialIndex,
    map: &GameMap,
    all: Seq<Occupant>,
    tick: &Tick,
)
    requires
        first.holds(map, all),
        second.holds(map, all),
    ensures
        spec_move_arrow(entity, first, map, tick) == spec_move_arrow(entity, second, map, tick),
{
    reveal(spec_move_arrow);
    let position = flight_position(entity.arrow, spec_advanced(entity.arrow, tick));
    lemma_same_gather(
        first,
        second,
        map,
        all,
        tiles_in_square(map.spec_world_to_tile(position), STRIKE_SCAN_DISTANCE),
    );
}

/// A tick of movement is a function of the world, the map, the players and
/// the tick: whatever two outcomes it has for the same snapshot are the same
/// outcome.
pub proof fn lemma_movement_deterministic(
    before: &World,
    first: &World,
    first_flights: Seq<Flight>,
    second: &World,
    second_flights: Seq<Flight>,
    index: &SpatialIndex,
    map: &GameMap,
    players: &Players,
    tick: &Tick,
)
    requires
        movement_applied(before, first, first_flights, index, map, players, tick),
        movement_applied(before, second, second_flights, index, map, players, tick),
    ensures
        first.units@ == second.units@,
        first.buildings@ == second.buildings@,
        first.arrows@ == second.arrows@,
        first_flights == second_flights,
{
    assert(first.units@ =~= second.units@);
    assert(first.arrows@ =~= second.arrows@);
    assert(first_flights =~= second_flights);
}

/// Moves every unit and every projectile of the world through one tick.
///
/// The spatial index is built once, from the world as it stands when the
/// tick begins, and everything that moves in the tick looks at that one
/// snapshot. The result tells for each projectile, in their order in the
/// world, what became of it.
pub fn apply_movement(world: &mut World, map: &GameMap, players: &Players, tick: &Tick) -> (flights:
    Vec<Flight>)
    requires
        old(world).wf(),
        map.wf(),
    ensures
        final(world).wf(),
        forall|index: &SpatialIndex| #[trigger]
            index.holds(map, old(world).spec_occupants()) ==> movement_applied(
                old(world),
                final(world),
                flights@,
                index,
                map,
                players,
                tick,
            ),
{
    let index: SpatialIndex = world.index(map);
    let ghost all = world.spec_occupants();
    let n: usize = world.units.len();
    let mut i: usize = 0;
    while i < n
        invariant
            map.wf(),
            index.wf(),
            world.wf(),
            n == world.units@.len(),
            n == old(world).units@.len(),
            i <= n,
            world.buildings@ == old(world).buildings@,
            world.arrows@ == old(world).arrows@,
            forall|k: int|
                0 <= k < i ==> #[trigger] world.units@[k] == spec_unit_moved(
                    old(world).units@[k],
                    &index,
                    map,
                    players,
                    tick,
                ),
            forall|k: int| i <= k < n ==> #[trigger] world.units@[k] == old(world).units@[k],
        decreases n - i,
    {
        let mut entity: UnitEntity = world.units[i];
        if entity.unit.action.is_mobile() {
            move_unit(&mut entity, &index, map, players, tick);
            world.units.set(i, entity);
        }
        i = i + 1;
    }
    let mut flights: Vec<Flight> = Vec::new();
    let m: usize = world.arrows.len();
    let mut j: usize = 0;
    while j < m
        invariant
            map.wf(),
            index.wf(),
            world.wf(),
            m == world.arrows@.len(),
            m == old(world).arrows@.len(),
            j <= m,
            flights@.len() == j,
            world.buildings@ == old(world).buildings@,
            world.units@.len() == old(world).units@.len(),
            forall|k: int|
                0 <= k < world.units@.len() ==> #[trigger] world.units@[k] == spec_unit_moved(
                    old(world).units@[k],
                    &index,
                    map,
                    players,
                    tick,
                ),
            forall|k: int|
                0 <= k < j ==> #[trigger] world.arrows@[k] == spec_move_arrow(
                    old(world).arrows@[k],
                    &index,
                    map,
                    tick,
                ).applied(old(world).arrows@[k]),
            forall|k: int|
                0 <= k < j ==> #[trigger] flights@[k] == spec_move_arrow(
                    old(world).arrows@[k],
                    &index,
                    map,
                    tick,
                ).flight,
            forall|k: int| j <= k < m ==> #[trigger] world.arrows@[k] == old(world).arrows@[k],
        decreases m - j,
    {
        let mut entity: ArrowEntity = world.arrows[j];
        let flight: Flight = move_arrow(&mut entity, &index, map, tick);
        world.arrows.set(j, entity);
        flights.push(flight);
        j = j + 1;
    }
    proof {
        assert forall|other: &SpatialIndex| #[trigger]
            other.holds(map, old(world).spec_occupants()) implies movement_applied(
            old(world),
            world,
            flights@,
            other,
            map,
            players,
            tick,
        ) by {
            assert forall|k: int| 0 <= k < old(world).units@.len() implies #[trigger] world.units@[k]
                == spec_unit_moved(old(world).units@[k], other, map, players, tick) by {
                lemma_move_unit_same_index(
                    old(world).units@[k],
                    &index,
                    other,
                    map,
                    all,
                    players,
                    tick,
                );
            }
            assert forall|k: int| 0 <= k < old(world).arrows@.len() implies #[trigger] world.arrows@[k]
                == spec_move_arrow(old(world).arrows@[k], other, map, tick).applied(
                old(world).arrows@[k],
            ) by {
                lemma_move_arrow_same_index(old(world).arrows@[k], &index, other, map, all, tick);
            }
            assert forall|k: int| 0 <= k < old(world).arrows@.len() implies #[trigger] flights@[k]
                == spec_move_arrow(old(world).arrows@[k], other, map, tick).flight by {
                lemma_move_arrow_same_index(old(world).arrows@[k], &index, other, map, all, tick);
            }
        }
    }
    flights
}

} // verus!
