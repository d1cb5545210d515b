//! Building classes and buildings.

use vstd::prelude::*;
use crate::constants::BUILDING_SCALE;
use crate::geometry::Vec2;
use crate::settings::PlayerColor;

verus! {

/// The classes of building.
#[derive(Clone, Copy, Debug, PartialEq, Eq, Structural)]
pub enum BuildingName {
    Barracks,
    Castle,
}

impl BuildingName {
    /// Every class, in declaration order.
    pub fn all() -> (names: Vec<BuildingName>)
        ensures
            names@ == seq![BuildingName::Barracks, BuildingName::Castle],
    {
        let mut names: Vec<BuildingName> = Vec::new();
        names.push(BuildingName::Barracks);
        names.push(BuildingName::Castle);
        assert(names@ =~= seq![BuildingName::Barracks, BuildingName::Castle]);
        names
    }

    /// Width and height of the sprite, in world units.
    pub open spec fn spec_size(&self) -> (u32, u32) {
        match self {
            BuildingName::Barracks => (192u32, 256u32),
            BuildingName::Castle => (320u32, 256u32),
        }
    }

    /// Width and height of the sprite, in world units.
    #[verifier::when_used_as_spec(spec_size)]
    pub fn size(&self) -> (size: (u32, u32))
        ensures
            size == self.spec_size(),
    {
        match self {
            BuildingName::Barracks => (192, 256),
            BuildingName::Castle => (320, 256),
        }
    }

    /// Width of the building as it stands in the world, in thousandths of a
    /// world unit: the sprite width times `BUILDING_SCALE`.
    pub open spec fn spec_world_width(&self) -> i64 {
        (self.spec_size().0 * BUILDING_SCALE) as i64
    }

    /// Width of the building as it stands in the world.
    #[verifier::when_used_as_spec(spec_world_width)]
    pub fn world_width(&self) -> (width: i64)
        ensures
            width == self.spec_world_width(),
            width == 115_200 || width == 192_000,
    {
        (self.size().0 as i64) * BUILDING_SCALE
    }

    /// Where the archers of a building stand, as offsets from its centre:
    /// one on the barracks, two on the castle.
    pub open spec fn spec_units(&self) -> Seq<Vec2> {
        match self {
            BuildingName::Barracks => seq![Vec2 { x: 0, y: 40_000 }],
            BuildingName::Castle => seq![
                Vec2 { x: (-60_000i64) as i64, y: 40_000 },
                Vec2 { x: 60_000, y: 40_000 },
            ],
        }
    }

    /// Where the archers of a building stand, as offsets from its centre.
    pub fn units(&self) -> (offsets: Vec<Vec2>)
        ensures
            offsets@ == self.spec_units(),
    {
        let mut offsets: Vec<Vec2> = Vec::new();
        match self {
            BuildingName::Barracks => {
                offsets.push(Vec2 { x: 0, y: 40_000 });
            },
            BuildingName::Castle => {
                offsets.push(Vec2 { x: -60_000, y: 40_000 });
                offsets.push(Vec2 { x: 60_000, y: 40_000 });
            },
        }
        assert(offsets@ =~= self.spec_units());
        offsets
    }

    /// Health of a fresh building, which is also the most it can have.
    pub open spec fn spec_health(&self) -> u32 {
        match self {
            BuildingName::Barracks => 500,
            BuildingName::Castle => 1000,
        }
    }

    /// Health of a fresh building, which is also the most it can have.
    #[verifier::when_used_as_spec(spec_health)]
    pub fn health(&self) -> (value: u32)
        ensures
            value == self.spec_health(),
            0 < value <= 1000,
    {
        match self {
            BuildingName::Barracks => 500,
            BuildingName::Castle => 1000,
        }
    }
}

/// A building on the battlefield. Its health never exceeds that of its
/// class.
#[derive(Clone, Copy, Debug, PartialEq, Eq, Structural)]
pub struct Building {
    pub name: BuildingName,
    pub color: PlayerColor,
    pub is_base: bool,
    pub health: u32,
}

impl Building {
    /// The health lies between zero and the health of the class.
    pub open spec fn wf(&self) -> bool {
        self.health <= self.name.spec_health()
    }

    /// A building with the given health, limited to that of its class.
    pub fn new(name: BuildingName, color: PlayerColor, is_base: bool, health: u32) -> (building:
        Building)
        ensures
            building.name == name,
            building.color == color,
            building.is_base == is_base,
            building.health == if health <= name.spec_health() {
                health
            } else {
                name.spec_health()
            },
            building.wf(),
    {
        let most: u32 = name.health();
        let health: u32 = if health <= most {
            health
        } else {
            most
        };
        Building { name, color, is_base, health }
    }
}

} // verus!
