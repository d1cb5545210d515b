//! The entities of the simulated world.

use vstd::prelude::*;
use crate::buildings::Building;
use crate::combat::Arrow;
use crate::geometry::Vec2;
use crate::map::GameMap;
use crate::spatial::{Body, Occupant, SpatialIndex};
use crate::units::{Action, Unit};

verus! {

/// A unit with its identity, its place in the world and the way it faces.
#[derive(Clone, Copy, Debug, PartialEq, Eq, Structural)]
pub struct UnitEntity {
    pub id: u64,
    pub position: Vec2,
    pub flip_x: bool,
    pub unit: Unit,
}

impl UnitEntity {
    /// The unit is well-formed and stands inside the coordinate limit.
    pub open spec fn wf(&self) -> bool {
        self.unit.wf() && self.position.in_bounds()
    }

    /// The entry that stands for the unit in a spatial index.
    pub open spec fn spec_occupant(&self) -> Occupant {
        Occupant { id: self.id, position: self.position, body: Body::Unit(self.unit) }
    }

    /// The entry that stands for the unit in a spatial index.
    #[verifier::when_used_as_spec(spec_occupant)]
    pub fn occupant(&self) -> (occupant: Occupant)
        ensures
            occupant == self.spec_occupant(),
    {
        Occupant { id: self.id, position: self.position, body: Body::Unit(self.unit) }
    }
}

/// A building with its identity and its place in the world.
#[derive(Clone, Copy, Debug, PartialEq, Eq, Structural)]
pub struct BuildingEntity {
    pub id: u64,
    pub position: Vec2,
    pub building: Building,
}

impl BuildingEntity {
    /// The building is well-formed and stands inside the coordinate limit.
    pub open spec fn wf(&self) -> bool {
        self.building.wf() && self.position.in_bounds()
    }

    /// The entry that stands for the building in a spatial index.
    pub open spec fn spec_occupant(&self) -> Occupant {
        Occupant { id: self.id, position: self.position, body: Body::Building(self.building) }
    }

    /// The entry that stands for the building in a spatial index.
    #[verifier::when_used_as_spec(spec_occupant)]
    pub fn occupant(&self) -> (occupant: Occupant)
        ensures
            occupant == self.spec_occupant(),
    {
        Occupant { id: self.id, position: self.position, body: Body::Building(self.building) }
    }
}

/// A projectile in flight with its identity and its place in the world.
/// `heading` is the direction of flight where it is known.
#[derive(Clone, Copy, Debug, PartialEq, Eq, Structural)]
pub struct ArrowEntity {
    pub id: u64,
    pub position: Vec2,
    pub heading: Option<Vec2>,
    pub arrow: Arrow,
}

impl ArrowEntity {
    /// The projectile is well-formed.
    pub open spec fn wf(&self) -> bool {
        self.arrow.wf()
    }
}

/// Everything that lives in the simulated world.
#[derive(Debug)]
pub struct World {
    pub units: Vec<UnitEntity>,
    pub buildings: Vec<BuildingEntity>,
    pub arrows: Vec<ArrowEntity>,
}

/// The entries that stand for `units` in a spatial index.
pub open spec fn unit_occupants(units: Seq<UnitEntity>) -> Seq<Occupant> {
    Seq::new(units.len(), |i: int| units[i].spec_occupant())
}

/// The entries that stand for `buildings` in a spatial index.
pub open spec fn building_occupants(buildings: Seq<BuildingEntity>) -> Seq<Occupant> {
    Seq::new(buildings.len(), |i: int| buildings[i].spec_occupant())
}

/// Whether one of `units` or `buildings` has the identity `id`.
pub open spec fn is_alive(units: Seq<UnitEntity>, buildings: Seq<BuildingEntity>, id: u64) -> bool {
    (exists|i: int| 0 <= i < units.len() && (#[trigger] units[i]).id == id) || (exists|i: int|
        0 <= i < buildings.len() && (#[trigger] buildings[i]).id == id)
}

/// Position in `units` of the first unit with the identity `id`.
pub open spec fn unit_index(units: Seq<UnitEntity>, id: u64) -> Option<int>
    decreases units.len(),
{
    if units.len() == 0 {
        None
    } else {
        match unit_index(units.drop_last(), id) {
            Some(i) => Some(i),
            None => if units.last().id == id {
                Some(units.len() - 1)
            } else {
                None
            },
        }
    }
}

/// Position in `buildings` of the first building with the identity `id`.
pub open spec fn building_index(buildings: Seq<BuildingEntity>, id: u64) -> Option<int>
    decreases buildings.len(),
{
    if buildings.len() == 0 {
        None
    } else {
        match building_index(buildings.drop_last(), id) {
            Some(i) => Some(i),
            None => if buildings.last().id == id {
                Some(buildings.len() - 1)
            } else {
                None
            },
        }
    }
}

/// The position found for a unit is that of the first unit with the
/// identity; nothing is found only where no unit has it.
pub proof fn lemma_unit_index(units: Seq<UnitEntity>, id: u64)
    ensures
        match unit_index(units, id) {
            Some(i) => 0 <= i < units.len() && units[i].id == id && forall|k: int|
                0 <= k < i ==> (#[trigger] units[k]).id != id,
            None => forall|k: int| 0 <= k < units.len() ==> (#[trigger] units[k]).id != id,
        },
    decreases units.len(),
{
    if units.len() > 0 {
        lemma_unit_index(units.drop_last(), id);
        assert forall|k: int| 0 <= k < units.len() - 1 implies units.drop_last()[k] == units[k] by {}
        match unit_index(units.drop_last(), id) {
            Some(i) => {
                assert(units.drop_last()[i] == units[i]);
                assert forall|k: int| 0 <= k < i implies (#[trigger] units[k]).id != id by {
                    assert(units.drop_last()[k] == units[k]);
                }
            },
            None => {
                assert forall|k: int| 0 <= k < units.len() - 1 implies (#[trigger] units[k]).id
                    != id by {
                    assert(units.drop_last()[k] == units[k]);
                }
            },
        }
    }
}

/// The position found for a building is that of the first building with the
/// identity; nothing is found only where no building has it.
pub proof fn lemma_building_index(buildings: Seq<BuildingEntity>, id: u64)
    ensures
        match building_index(buildings, id) {
            Some(i) => 0 <= i < buildings.len() && buildings[i].id == id && forall|k: int|
                0 <= k < i ==> (#[trigger] buildings[k]).id != id,
            None => forall|k: int| 0 <= k < buildings.len() ==> (#[trigger] buildings[k]).id != id,
        },
    decreases buildings.len(),
{
    if buildings.len() > 0 {
        lemma_building_index(buildings.drop_last(), id);
        assert forall|k: int| 0 <= k < buildings.len() - 1 implies buildings.drop_last()[k]
            == buildings[k] by {}
        match building_index(buildings.drop_last(), id) {
            Some(i) => {
                assert(buildings.drop_last()[i] == buildings[i]);
                assert forall|k: int| 0 <= k < i implies (#[trigger] buildings[k]).id != id by {
                    assert(buildings.drop_last()[k] == buildings[k]);
                }
            },
            None => {
                assert forall|k: int| 0 <= k < buildings.len() - 1 implies (
                #[trigger] buildings[k]).id != id by {
                    assert(buildings.drop_last()[k] == buildings[k]);
                }
            },
        }
    }
}

/// The unit `entity` with its target checked against the living: a unit
/// whose target is gone idles, every other unit is unchanged.
pub open spec fn validated(
    entity: UnitEntity,
    units: Seq<UnitEntity>,
    buildings: Seq<BuildingEntity>,
) -> UnitEntity {
    match entity.unit.action.spec_target() {
        Some(target) => if is_alive(units, buildings, target) {
            entity
        } else {
            UnitEntity { unit: Unit { action: Action::Idle, ..entity.unit }, ..entity }
        },
        None => entity,
    }
}

/// Whether no two of the entities share an identity.
pub open spec fn distinct_ids(
    units: Seq<UnitEntity>,
    buildings: Seq<BuildingEntity>,
    arrows: Seq<ArrowEntity>,
) -> bool {
    &&& forall|i: int, j: int|
        0 <= i < j < units.len() ==> (#[trigger] units[i]).id != (#[trigger] units[j]).id
    &&& forall|i: int, j: int|
        0 <= i < j < buildings.len() ==> (#[trigger] buildings[i]).id != (
        #[trigger] buildings[j]).id
    &&& forall|i: int, j: int|
        0 <= i < j < arrows.len() ==> (#[trigger] arrows[i]).id != (#[trigger] arrows[j]).id
    &&& forall|i: int, j: int|
        0 <= i < units.len() && 0 <= j < buildings.len() ==> (#[trigger] units[i]).id != (
        #[trigger] buildings[j]).id
    &&& forall|i: int, j: int|
        0 <= i < units.len() && 0 <= j < arrows.len() ==> (#[trigger] units[i]).id != (
        #[trigger] arrows[j]).id
    &&& forall|i: int, j: int|
        0 <= i < buildings.len() && 0 <= j < arrows.len() ==> (#[trigger] buildings[i]).id != (
        #[trigger] arrows[j]).id
}

/// Whether none of the entities has the identity `id`.
pub open spec fn id_is_free(
    units: Seq<UnitEntity>,
    buildings: Seq<BuildingEntity>,
    arrows: Seq<ArrowEntity>,
    id: u64,
) -> bool {
    &&& forall|i: int| 0 <= i < units.len() ==> (#[trigger] units[i]).id != id
    &&& forall|i: int| 0 <= i < buildings.len() ==> (#[trigger] buildings[i]).id != id
    &&& forall|i: int| 0 <= i < arrows.len() ==> (#[trigger] arrows[i]).id != id
}

impl World {
    /// Every entity is well-formed, and no two entities share an identity.
    pub open spec fn wf(&self) -> bool {
        &&& forall|i: int| 0 <= i < self.units@.len() ==> (#[trigger] self.units@[i]).wf()
        &&& forall|i: int| 0 <= i < self.buildings@.len() ==> (#[trigger] self.buildings@[i]).wf()
        &&& forall|i: int| 0 <= i < self.arrows@.len() ==> (#[trigger] self.arrows@[i]).wf()
        &&& distinct_ids(self.units@, self.buildings@, self.arrows@)
    }

    /// Whether no entity of the world has the identity `id`.
    pub open spec fn spec_is_free(&self, id: u64) -> bool {
        id_is_free(self.units@, self.buildings@, self.arrows@, id)
    }

    /// Whether no entity of the world has the identity `id`.
    pub fn is_free(&self, id: u64) -> (free: bool)
        ensures
            free == self.spec_is_free(id),
    {
        let n: usize = self.units.len();
        let mut i: usize = 0;
        while i < n
            invariant
                n == self.units@.len(),
                i <= n,
                forall|k: int| 0 <= k < i ==> (#[trigger] self.units@[k]).id != id,
            decreases n - i,
        {
            if self.units[i].id == id {
                return false;
            }
            i = i + 1;
        }
        let m: usize = self.buildings.len();
        let mut j: usize = 0;
        while j < m
            invariant
                m == self.buildings@.len(),
                j <= m,
                forall|k: int| 0 <= k < self.units@.len() ==> (#[trigger] self.units@[k]).id != id,
                forall|k: int| 0 <= k < j ==> (#[trigger] self.buildings@[k]).id != id,
            decreases m - j,
        {
            if self.buildings[j].id == id {
                return false;
            }
            j = j + 1;
        }
        let a: usize = self.arrows.len();
        let mut k: usize = 0;
        while k < a
            invariant
                a == self.arrows@.len(),
                k <= a,
                forall|at: int|
                    0 <= at < self.units@.len() ==> (#[trigger] self.units@[at]).id != id,
                forall|at: int|
                    0 <= at < self.buildings@.len() ==> (#[trigger] self.buildings@[at]).id != id,
                forall|at: int| 0 <= at < k ==> (#[trigger] self.arrows@[at]).id != id,
            decreases a - k,
        {
            if self.arrows[k].id == id {
                return false;
            }
            k = k + 1;
        }
        true
    }

    /// The entries that stand for the world in a spatial index: the units,
    /// then the buildings.
    pub open spec fn spec_occupants(&self) -> Seq<Occupant> {
        unit_occupants(self.units@) + building_occupants(self.buildings@)
    }

    /// Whether a unit or building with the identity `id` is in the world.
    pub open spec fn spec_contains(&self, id: u64) -> bool {
        is_alive(self.units@, self.buildings@, id)
    }

    /// A world without entities.
    pub fn new() -> (world: World)
        ensures
            world.units@.len() == 0,
            world.buildings@.len() == 0,
            world.arrows@.len() == 0,
            world.wf(),
    {
        World { units: Vec::new(), buildings: Vec::new(), arrows: Vec::new() }
    }

    /// Whether a unit or building with the identity `id` is in the world.
    pub fn contains(&self, id: u64) -> (found: bool)
        ensures
            found == self.spec_contains(id),
    {
        let n: usize = self.units.len();
        let mut i: usize = 0;
        while i < n
            invariant
                n == self.units@.len(),
                i <= n,
                forall|k: int| 0 <= k < i ==> (#[trigger] self.units@[k]).id != id,
            decreases n - i,
        {
            if self.units[i].id == id {
                return true;
            }
            i = i + 1;
        }
        let m: usize = self.buildings.len();
        let mut j: usize = 0;
        while j < m
            invariant
                m == self.buildings@.len(),
                j <= m,
                forall|k: int| 0 <= k < self.units@.len() ==> (#[trigger] self.units@[k]).id != id,
                forall|k: int| 0 <= k < j ==> (#[trigger] self.buildings@[k]).id != id,
            decreases m - j,
        {
            if self.buildings[j].id == id {
                return true;
            }
            j = j + 1;
        }
        false
    }

    /// Position of the first unit with the identity `id`.
    pub fn find_unit(&self, id: u64) -> (found: Option<usize>)
        ensures
            match found {
                Some(i) => unit_index(self.units@, id) == Some(i as int) && i < self.units@.len()
                    && self.units@[i as int].id == id,
                None => unit_index(self.units@, id) is None,
            },
    {
        let n: usize = self.units.len();
        let mut i: usize = 0;
        while i < n
            invariant
                n == self.units@.len(),
                i <= n,
                forall|k: int| 0 <= k < i ==> (#[trigger] self.units@[k]).id != id,
            decreases n - i,
        {
            if self.units[i].id == id {
                proof {
                    lemma_unit_index(self.units@, id);
                }
                return Some(i);
            }
            i = i + 1;
        }
        proof {
            lemma_unit_index(self.units@, id);
        }
        None
    }

    /// Position of the first building with the identity `id`.
    pub fn find_building(&self, id: u64) -> (found: Option<usize>)
        ensures
            match found {
                Some(i) => building_index(self.buildings@, id) == Some(i as int) && i
                    < self.buildings@.len() && self.buildings@[i as int].id == id,
                None => building_index(self.buildings@, id) is None,
            },
    {
        let n: usize = self.buildings.len();
        let mut i: usize = 0;
        while i < n
            invariant
                n == self.buildings@.len(),
                i <= n,
                forall|k: int| 0 <= k < i ==> (#[trigger] self.buildings@[k]).id != id,
            decreases n - i,
        {
            if self.buildings[i].id == id {
                proof {
                    lemma_building_index(self.buildings@, id);
                }
                return Some(i);
            }
            i = i + 1;
        }
        proof {
            lemma_building_index(self.buildings@, id);
        }
        None
    }

    /// The entries that stand for the world in a spatial index.
    pub fn occupants(&self) -> (all: Vec<Occupant>)
        requires
            self.wf(),
        ensures
            all@ == self.spec_occupants(),
            forall|k: int| 0 <= k < all@.len() ==> (#[trigger] all@[k]).position.in_bounds(),
    {
        let mut all: Vec<Occupant> = Vec::new();
        let n: usize = self.units.len();
        let mut i: usize = 0;
        while i < n
            invariant
                self.wf(),
                n == self.units@.len(),
                i <= n,
                all@ == unit_occupants(self.units@.take(i as int)),
                forall|k: int| 0 <= k < all@.len() ==> (#[trigger] all@[k]).position.in_bounds(),
            decreases n - i,
        {
            all.push(self.units[i].occupant());
            assert(all@ =~= unit_occupants(self.units@.take(i + 1)));
            i = i + 1;
        }
        assert(self.units@.take(n as int) =~= self.units@);
        let m: usize = self.buildings.len();
        let mut j: usize = 0;
        while j < m
            invariant
                self.wf(),
                m == self.buildings@.len(),
                j <= m,
                all@ == unit_occupants(self.units@) + building_occupants(
                    self.buildings@.take(j as int),
                ),
                forall|k: int| 0 <= k < all@.len() ==> (#[trigger] all@[k]).position.in_bounds(),
            decreases m - j,
        {
            all.push(self.buildings[j].occupant());
            assert(all@ =~= unit_occupants(self.units@) + building_occupants(
                self.buildings@.take(j + 1),
            ));
            j = j + 1;
        }
        assert(self.buildings@.take(m as int) =~= self.buildings@);
        all
    }

    /// The spatial index of the world as it stands, over the tiles of `map`.
    pub fn index(&self, map: &GameMap) -> (index: SpatialIndex)
        requires
            self.wf(),
            map.wf(),
        ensures
            index.holds(map, self.spec_occupants()),
            index.wf(),
    {
        let all: Vec<Occupant> = self.occupants();
        SpatialIndex::build(map, &all)
    }

    /// Checks the target of every unit against the living: a unit whose
    /// target has left the world goes back to idling.
    pub fn validate_targets(&mut self)
        requires
            old(self).wf(),
        ensures
            final(self).wf(),
            final(self).buildings == old(self).buildings,
            final(self).arrows == old(self).arrows,
            final(self).units@.len() == old(self).units@.len(),
            forall|i: int|
                0 <= i < old(self).units@.len() ==> #[trigger] final(self).units@[i] == validated(
                    old(self).units@[i],
                    old(self).units@,
                    old(self).buildings@,
                ),
    {
        let n: usize = self.units.len();
        let mut i: usize = 0;
        while i < n
            invariant
                n == self.units@.len(),
                n == old(self).units@.len(),
                i <= n,
                self.wf(),
                self.buildings == old(self).buildings,
                self.arrows == old(self).arrows,
                forall|k: int|
                    0 <= k < n ==> (#[trigger] self.units@[k]).id == old(self).units@[k].id,
                forall|k: int|
                    0 <= k < i ==> #[trigger] self.units@[k] == validated(
                        old(self).units@[k],
                        old(self).units@,
                        old(self).buildings@,
                    ),
                forall|k: int| i <= k < n ==> #[trigger] self.units@[k] == old(self).units@[k],
            decreases n - i,
        {
            let entity: UnitEntity = self.units[i];
            match entity.unit.action.target() {
                Some(target) => {
                    let alive: bool = self.contains(target);
                    proof {
                        let now = self.units@;
                        let then = old(self).units@;
                        if is_alive(now, self.buildings@, target) && !is_alive(
                            then,
                            old(self).buildings@,
                            target,
                        ) {
                            if exists|k: int| 0 <= k < now.len() && (#[trigger] now[k]).id == target {
                                let k = choose|k: int|
                                    0 <= k < now.len() && (#[trigger] now[k]).id == target;
                                assert(then[k].id == target);
                            }
                        }
                        if !is_alive(now, self.buildings@, target) && is_alive(
                            then,
                            old(self).buildings@,
                            target,
                        ) {
                            if exists|k: int|
                                0 <= k < then.len() && (#[trigger] then[k]).id == target {
                                let k = choose|k: int|
                                    0 <= k < then.len() && (#[trigger] then[k]).id == target;
                                assert(now[k].id == target);
                            }
                        }
                    }
                    if !alive {
                        let mut idle: UnitEntity = entity;
                        idle.unit.action = Action::Idle;
                        self.units.set(i, idle);
                    }
                },
                None => {},
            }
            i = i + 1;
        }
    }
}

} // verus!
