use lane_battle::buildings::{Building, BuildingName};
use lane_battle::geometry::Vec2;
use lane_battle::map::{GameMap, Lane, TilePos};
use lane_battle::settings::PlayerColor;
use lane_battle::spatial::{get_tiles_at_distance, Body, Occupant, SpatialIndex};
use lane_battle::units::{Unit, UnitName};
use lane_battle::world::{BuildingEntity, UnitEntity, World};

fn lane(row: u32) -> Vec<TilePos> {
    (0..10).map(|x| TilePos::new(x, row)).collect()
}

fn open_map() -> GameMap {
    GameMap {
        width: 10,
        height: 5,
        walkable: vec![true; 50],
        top: lane(1),
        mid: lane(2),
        bot: lane(3),
    }
}

fn unit_at(id: u64, x: i64, y: i64, color: PlayerColor) -> UnitEntity {
    UnitEntity {
        id,
        position: Vec2::new(x, y),
        flip_x: false,
        unit: Unit::with_lane(UnitName::Warrior, color, Lane::Mid, None),
    }
}

#[test]
fn tile_centres() {
    let map = open_map();
    assert_eq!(map.tile_to_world(TilePos::new(0, 0)), Vec2::new(-288_000, 128_000));
    assert_eq!(map.tile_to_world(TilePos::new(0, 2)), Vec2::new(-288_000, 0));
    assert_eq!(map.tile_to_world(TilePos::new(9, 2)), Vec2::new(288_000, 0));
    assert_eq!(map.tile_to_world(TilePos::new(5, 4)), Vec2::new(32_000, -128_000));
}

#[test]
fn positions_fall_into_tiles() {
    let map = open_map();
    assert_eq!(map.world_to_tile(&Vec2::new(0, 0)), TilePos::new(5, 2));
    assert_eq!(map.world_to_tile(&Vec2::new(-288_000, 128_000)), TilePos::new(0, 0));
    assert_eq!(map.world_to_tile(&Vec2::new(-256_001, 0)), TilePos::new(0, 2));
    assert_eq!(map.world_to_tile(&Vec2::new(-256_000, 0)), TilePos::new(1, 2));
    assert_eq!(map.world_to_tile(&Vec2::new(0, 96_000)), TilePos::new(5, 1));
    assert_eq!(map.world_to_tile(&Vec2::new(0, 96_001)), TilePos::new(5, 0));
}

#[test]
fn positions_outside_the_grid() {
    let map = open_map();
    assert_eq!(map.world_to_tile(&Vec2::new(-1_000_000, 1_000_000)), TilePos::new(0, 0));
    assert_eq!(map.world_to_tile(&Vec2::new(1_000_000, -1_000_000)), TilePos::new(20, 18));
}

#[test]
fn centre_of_a_tile_lies_in_the_tile() {
    let map = open_map();
    for x in 0..10 {
        for y in 0..5 {
            let tile = TilePos::new(x, y);
            assert_eq!(map.world_to_tile(&map.tile_to_world(tile)), tile);
        }
    }
}

#[test]
fn walkable_tiles() {
    let mut map = open_map();
    map.walkable[2 * 10 + 3] = false;
    assert!(map.is_walkable(TilePos::new(2, 2)));
    assert!(!map.is_walkable(TilePos::new(3, 2)));
    assert!(!map.is_walkable(TilePos::new(10, 2)));
    assert!(!map.is_walkable(TilePos::new(2, 5)));
    assert!(!map.walkable_below(TilePos::new(3, 1)));
    assert!(map.walkable_below(TilePos::new(2, 1)));
    assert!(!map.walkable_below(TilePos::new(2, 4)));
    assert!(!map.walkable_below(TilePos::new(2, u32::MAX)));
}

#[test]
fn lanes_in_walking_order() {
    let map = open_map();
    let forwards = map.lane(Lane::Mid, false);
    let backwards = map.lane(Lane::Mid, true);
    assert_eq!(forwards.len(), 10);
    assert_eq!(forwards[0], TilePos::new(0, 2));
    assert_eq!(forwards[9], TilePos::new(9, 2));
    assert_eq!(backwards[0], TilePos::new(9, 2));
    assert_eq!(backwards[9], TilePos::new(0, 2));
    assert_eq!(map.lane(Lane::Top, false)[4], TilePos::new(4, 1));
    assert_eq!(map.lane(Lane::Bot, true)[0], TilePos::new(9, 3));
}

#[test]
fn tiles_around_a_tile() {
    let tiles = get_tiles_at_distance(&TilePos::new(5, 5), 1);
    assert_eq!(
        tiles,
        vec![
            TilePos::new(4, 4),
            TilePos::new(4, 5),
            TilePos::new(4, 6),
            TilePos::new(5, 4),
            TilePos::new(5, 5),
            TilePos::new(5, 6),
            TilePos::new(6, 4),
            TilePos::new(6, 5),
            TilePos::new(6, 6),
        ]
    );
    assert_eq!(get_tiles_at_distance(&TilePos::new(5, 5), 0), vec![TilePos::new(5, 5)]);
    assert_eq!(get_tiles_at_distance(&TilePos::new(7, 3), 5).len(), 9 * 11);
}

#[test]
fn tiles_around_a_corner() {
    let tiles = get_tiles_at_distance(&TilePos::new(0, 1), 2);
    assert_eq!(tiles.len(), 3 * 4);
    assert_eq!(tiles[0], TilePos::new(0, 0));
    assert_eq!(tiles[11], TilePos::new(2, 3));
    let far = get_tiles_at_distance(&TilePos::new(u32::MAX, u32::MAX), 1);
    assert_eq!(
        far,
        vec![
            TilePos::new(u32::MAX - 1, u32::MAX - 1),
            TilePos::new(u32::MAX - 1, u32::MAX),
            TilePos::new(u32::MAX, u32::MAX - 1),
            TilePos::new(u32::MAX, u32::MAX),
        ]
    );
}

#[test]
fn index_holds_each_occupant_on_its_tile() {
    let map = open_map();
    let a = unit_at(1, -288_000, 0, PlayerColor::Blue).occupant();
    let b = unit_at(2, -280_000, 5_000, PlayerColor::Red).occupant();
    let c = unit_at(3, 0, 0, PlayerColor::Red).occupant();
    let index = SpatialIndex::build(&map, &vec![a, b, c]);
    assert_eq!(index.get(&TilePos::new(0, 2)), Some(&vec![a, b]));
    assert_eq!(index.get(&TilePos::new(5, 2)), Some(&vec![c]));
    assert_eq!(index.get(&TilePos::new(1, 2)), None);
    assert_eq!(
        index.nearby(&vec![TilePos::new(5, 2), TilePos::new(4, 2), TilePos::new(0, 2)]),
        vec![c, a, b]
    );
    assert_eq!(index.nearby(&vec![]), vec![]);
}

#[test]
fn world_is_indexed_units_first() {
    let map = open_map();
    let mut world = World::new();
    let building = BuildingEntity {
        id: 10,
        position: Vec2::new(-290_000, 10_000),
        building: Building::new(BuildingName::Castle, PlayerColor::Blue, true, 1000),
    };
    world.buildings.push(building);
    world.units.push(unit_at(1, -288_000, 0, PlayerColor::Blue));
    assert!(world.contains(1));
    assert!(world.contains(10));
    assert!(!world.contains(2));
    assert!(!world.is_free(1));
    assert!(!world.is_free(10));
    assert!(world.is_free(2));
    assert_eq!(world.find_unit(1), Some(0));
    assert_eq!(world.find_unit(10), None);
    assert_eq!(world.find_building(10), Some(0));
    let all = world.occupants();
    assert_eq!(all.len(), 2);
    assert_eq!(all[0].id, 1);
    assert_eq!(all[1].id, 10);
    assert_eq!(all[1].body, Body::Building(building.building));
    assert_eq!(all[1].color(), PlayerColor::Blue);
    let index = world.index(&map);
    let cell = index.get(&TilePos::new(0, 2)).unwrap();
    assert_eq!(cell.len(), 2);
    assert_eq!(cell[0], Occupant { id: 1, position: Vec2::new(-288_000, 0), body: all[0].body });
    assert_eq!(cell[1].id, 10);
}
