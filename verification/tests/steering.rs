use lane_battle::buildings::{Building, BuildingName};
use lane_battle::geometry::Vec2;
use lane_battle::map::{GameMap, Lane, TilePos};
use lane_battle::movement::{
    building_reach, candidate, commit, get_target_tile, move_unit, scan, separation_radius,
    steer, step_length, tiebreak, Mover,
};
use lane_battle::player::{Boost, Player, Players, Side, Strategy};
use lane_battle::settings::PlayerColor;
use lane_battle::spatial::SpatialIndex;
use lane_battle::time::Tick;
use lane_battle::units::{Action, Unit, UnitName};
use lane_battle::world::{BuildingEntity, UnitEntity, World};

fn lane(row: u32) -> Vec<TilePos> {
    (0..10).map(|x| TilePos::new(x, row)).collect()
}

fn open_map() -> GameMap {
    GameMap {
        width: 10,
        height: 5,
        walkable: vec![true; 50],
        top: lane(1),
        mid: lane(2),
        bot: lane(3),
    }
}

fn two_players() -> Players {
    Players {
        me: Player::new(0, PlayerColor::Blue, Side::Left),
        enemy: Player::new(1, PlayerColor::Red, Side::Right),
    }
}

fn unit(id: u64, name: UnitName, color: PlayerColor, x: i64, y: i64) -> UnitEntity {
    UnitEntity {
        id,
        position: Vec2::new(x, y),
        flip_x: false,
        unit: Unit::with_lane(name, color, Lane::Mid, None),
    }
}

fn world_of(units: Vec<UnitEntity>) -> World {
    let mut world = World::new();
    world.units = units;
    world
}

fn frame() -> Tick {
    Tick::new(16_667, 1000)
}

#[test]
fn target_is_the_waypoint_after_the_nearest() {
    let map = open_map();
    let path = map.lane(Lane::Mid, false);
    assert_eq!(get_target_tile(&map, &Vec2::new(-288_000, 0), &path), TilePos::new(1, 2));
    assert_eq!(get_target_tile(&map, &Vec2::new(-256_100, 0), &path), TilePos::new(1, 2));
    assert_eq!(get_target_tile(&map, &Vec2::new(0, 50_000), &path), TilePos::new(5, 2));
    assert_eq!(get_target_tile(&map, &Vec2::new(288_000, 0), &path), TilePos::new(9, 2));
}

#[test]
fn nearest_waypoint_ties_go_to_the_first() {
    let map = open_map();
    let path = map.lane(Lane::Mid, false);
    // Half-way between the centres of the first two waypoints.
    assert_eq!(get_target_tile(&map, &Vec2::new(-256_000, 0), &path), TilePos::new(1, 2));
    let back = map.lane(Lane::Mid, true);
    assert_eq!(get_target_tile(&map, &Vec2::new(-256_000, 0), &back), TilePos::new(0, 2));
}

#[test]
fn touching_distances() {
    assert_eq!(separation_radius(UnitName::Warrior, UnitName::Warrior), 28_800);
    assert_eq!(separation_radius(UnitName::Warrior, UnitName::Lancer), 38_400);
    assert_eq!(separation_radius(UnitName::Turtle, UnitName::Lancer), 48_000);
    assert_eq!(building_reach(UnitName::Warrior, BuildingName::Castle), 115_200);
    assert_eq!(building_reach(UnitName::Lancer, BuildingName::Barracks), 110_080);
}

#[test]
fn tiebreak_depends_on_the_identity_alone() {
    assert_eq!(tiebreak(0), Vec2::new(1000, 0));
    assert_eq!(tiebreak(1), Vec2::new(707, 707));
    assert_eq!(tiebreak(2), Vec2::new(0, 1000));
    assert_eq!(tiebreak(3), Vec2::new(-707, 707));
    assert_eq!(tiebreak(4), Vec2::new(-1000, 0));
    assert_eq!(tiebreak(5), Vec2::new(-707, -707));
    assert_eq!(tiebreak(6), Vec2::new(0, -1000));
    assert_eq!(tiebreak(7), Vec2::new(707, -707));
    assert_eq!(tiebreak(8), tiebreak(0));
    assert_eq!(tiebreak(u64::MAX), tiebreak(7));
}

#[test]
fn step_of_one_frame() {
    assert_eq!(step_length(30, false, false, &frame()), 500);
    assert_eq!(step_length(30, true, false, &frame()), 1000);
    assert_eq!(step_length(30, false, true, &frame()), 750);
    assert_eq!(step_length(30, true, true, &frame()), 1500);
    assert_eq!(step_length(15, false, false, &Tick::new(16_667, 2000)), 500);
    assert_eq!(step_length(40, false, false, &Tick::new(1_000_000, 1000)), 2000);
    assert_eq!(step_length(0, true, true, &frame()), 0);
}

#[test]
fn steering_without_force_follows_the_heading() {
    assert_eq!(steer(&Vec2::new(1000, 0), &Vec2::new(0, 0)), Vec2::new(1000, 0));
    assert_eq!(steer(&Vec2::new(954, 298), &Vec2::new(0, 0)), Vec2::new(954, 298));
}

#[test]
fn steering_takes_out_what_points_backwards() {
    // The force points straight back: nothing of it is left.
    assert_eq!(steer(&Vec2::new(1000, 0), &Vec2::new(-5000, 0)), Vec2::new(1000, 0));
    // The force points back and down: only the part across the heading stays.
    assert_eq!(steer(&Vec2::new(1000, 0), &Vec2::new(-5000, -24_662)), Vec2::new(141, -989));
    assert_eq!(steer(&Vec2::new(1000, 0), &Vec2::new(0, -24_662)), Vec2::new(141, -989));
}

#[test]
fn candidate_position() {
    let at = Vec2::new(-288_000, 0);
    assert_eq!(candidate(&at, &Vec2::new(1000, 0), 500), Vec2::new(-287_500, 0));
    assert_eq!(candidate(&at, &Vec2::new(141, -989), 500), Vec2::new(-287_930, -494));
    let edge = Vec2::new(1_000_000_000_000, 0);
    assert_eq!(candidate(&edge, &Vec2::new(1000, 0), 500), edge);
}

#[test]
fn unit_walks_along_its_lane() {
    let map = open_map();
    let players = two_players();
    let mut walker = unit(1, UnitName::Warrior, PlayerColor::Blue, -288_000, 0);
    let index = world_of(vec![walker]).index(&map);
    move_unit(&mut walker, &index, &map, &players, &frame());
    assert_eq!(walker.position, Vec2::new(-287_500, 0));
    assert_eq!(walker.unit.action, Action::Run);
    assert!(!walker.flip_x);
    assert_eq!(walker.unit.health, 130);
    assert_eq!(walker.id, 1);
}

#[test]
fn unit_of_the_right_side_walks_the_lane_backwards() {
    let map = open_map();
    let players = two_players();
    let mut walker = unit(2, UnitName::Warrior, PlayerColor::Red, 288_000, 0);
    let index = world_of(vec![walker]).index(&map);
    move_unit(&mut walker, &index, &map, &players, &frame());
    assert_eq!(walker.position, Vec2::new(287_500, 0));
    assert_eq!(walker.unit.action, Action::Run);
    assert!(walker.flip_x);
}

#[test]
fn facing_follows_a_change_of_column() {
    let map = open_map();
    let players = two_players();
    let mut right = unit(1, UnitName::Warrior, PlayerColor::Blue, -256_100, 0);
    right.flip_x = true;
    let index = world_of(vec![right]).index(&map);
    move_unit(&mut right, &index, &map, &players, &frame());
    assert_eq!(right.position, Vec2::new(-255_600, 0));
    assert!(!right.flip_x);
    let mut left = unit(2, UnitName::Warrior, PlayerColor::Red, -255_900, 0);
    let index = world_of(vec![left]).index(&map);
    move_unit(&mut left, &index, &map, &players, &frame());
    assert_eq!(left.position, Vec2::new(-256_400, 0));
    assert!(left.flip_x);
}

#[test]
fn unit_at_the_end_of_its_lane_idles() {
    let map = open_map();
    let players = two_players();
    let mut arrived = unit(1, UnitName::Warrior, PlayerColor::Blue, 290_000, 3_000);
    arrived.unit.action = Action::Run;
    let index = world_of(vec![arrived]).index(&map);
    move_unit(&mut arrived, &index, &map, &players, &frame());
    assert_eq!(arrived.position, Vec2::new(290_000, 3_000));
    assert_eq!(arrived.unit.action, Action::Idle);
}

#[test]
fn unit_does_not_step_onto_a_tile_that_is_not_walkable() {
    let mut map = open_map();
    map.walkable[2 * 10 + 1] = false;
    let players = two_players();
    let mut blocked = unit(1, UnitName::Warrior, PlayerColor::Blue, -256_100, 0);
    blocked.unit.action = Action::Run;
    let index = world_of(vec![blocked]).index(&map);
    move_unit(&mut blocked, &index, &map, &players, &frame());
    assert_eq!(blocked.position, Vec2::new(-256_100, 0));
    assert_eq!(blocked.unit.action, Action::Idle);
}

#[test]
fn unit_keeps_walking_inside_a_tile_that_is_not_walkable() {
    let mut map = open_map();
    map.walkable[2 * 10] = false;
    let players = two_players();
    let mut inside = unit(1, UnitName::Warrior, PlayerColor::Blue, -288_000, 0);
    let index = world_of(vec![inside]).index(&map);
    move_unit(&mut inside, &index, &map, &players, &frame());
    assert_eq!(inside.position, Vec2::new(-287_500, 0));
    assert_eq!(inside.unit.action, Action::Run);
}

#[test]
fn unit_stays_on_the_upper_part_of_a_ledge() {
    let mut map = open_map();
    map.walkable[3 * 10] = false;
    let players = two_players();
    let mut low = unit(1, UnitName::Warrior, PlayerColor::Blue, -288_000, -20_000);
    let index = world_of(vec![low]).index(&map);
    move_unit(&mut low, &index, &map, &players, &frame());
    assert_eq!(low.position, Vec2::new(-287_523, -8_000));
    assert_eq!(low.unit.action, Action::Run);
    let mut high = unit(2, UnitName::Warrior, PlayerColor::Blue, -288_000, 0);
    let index = world_of(vec![high]).index(&map);
    move_unit(&mut high, &index, &map, &players, &frame());
    assert_eq!(high.position, Vec2::new(-287_500, 0));
}

#[test]
fn commit_takes_or_refuses_the_step() {
    let mut map = open_map();
    map.walkable[2 * 10 + 1] = false;
    let mut walker = unit(1, UnitName::Warrior, PlayerColor::Blue, -256_100, 0);
    commit(&map, &mut walker, &Vec2::new(-256_050, 10), true);
    assert_eq!(walker.position, Vec2::new(-256_050, 10));
    assert_eq!(walker.unit.action, Action::Run);
    assert!(walker.flip_x);
    commit(&map, &mut walker, &Vec2::new(-255_000, 10), false);
    assert_eq!(walker.position, Vec2::new(-256_050, 10));
    assert_eq!(walker.unit.action, Action::Idle);
    assert!(walker.flip_x);
}

#[test]
fn melee_unit_attacks_the_enemy_it_touches() {
    let map = open_map();
    let players = two_players();
    let mut warrior = unit(1, UnitName::Warrior, PlayerColor::Blue, 0, 0);
    let enemy = unit(2, UnitName::Warrior, PlayerColor::Red, 20_000, 0);
    let index = world_of(vec![warrior, enemy]).index(&map);
    move_unit(&mut warrior, &index, &map, &players, &frame());
    assert_eq!(warrior.unit.action, Action::Attack(2));
    assert_eq!(warrior.position, Vec2::new(0, 0));
}

#[test]
fn melee_unit_walks_on_while_the_enemy_is_out_of_touch() {
    let map = open_map();
    let players = two_players();
    let mut warrior = unit(1, UnitName::Warrior, PlayerColor::Blue, 0, 0);
    let enemy = unit(2, UnitName::Warrior, PlayerColor::Red, 28_801, 0);
    let index = world_of(vec![warrior, enemy]).index(&map);
    move_unit(&mut warrior, &index, &map, &players, &frame());
    assert_eq!(warrior.unit.action, Action::Run);
    assert_eq!(warrior.position, Vec2::new(500, 0));
    let mut again = unit(1, UnitName::Warrior, PlayerColor::Blue, 0, 0);
    let touching = unit(2, UnitName::Warrior, PlayerColor::Red, 28_800, 0);
    let index = world_of(vec![again, touching]).index(&map);
    move_unit(&mut again, &index, &map, &players, &frame());
    assert_eq!(again.unit.action, Action::Attack(2));
}

#[test]
fn archer_attacks_from_a_distance() {
    let map = open_map();
    let players = two_players();
    let mut archer = unit(1, UnitName::Archer, PlayerColor::Blue, 0, 0);
    let enemy = unit(2, UnitName::Warrior, PlayerColor::Red, 144_000, 0);
    let index = world_of(vec![archer, enemy]).index(&map);
    move_unit(&mut archer, &index, &map, &players, &frame());
    assert_eq!(archer.unit.action, Action::Attack(2));
    let mut far = unit(1, UnitName::Archer, PlayerColor::Blue, 0, 0);
    let beyond = unit(2, UnitName::Warrior, PlayerColor::Red, 144_001, 0);
    let index = world_of(vec![far, beyond]).index(&map);
    move_unit(&mut far, &index, &map, &players, &frame());
    assert_eq!(far.unit.action, Action::Run);
}

#[test]
fn longbow_lets_the_archer_reach_further() {
    let map = open_map();
    let mut players = two_players();
    players.me.boosts.set(Boost::Longbow, true);
    let mut archer = unit(1, UnitName::Archer, PlayerColor::Blue, 0, 0);
    let enemy = unit(2, UnitName::Warrior, PlayerColor::Red, 216_000, 0);
    let index = world_of(vec![archer, enemy]).index(&map);
    move_unit(&mut archer, &index, &map, &players, &frame());
    assert_eq!(archer.unit.action, Action::Attack(2));
}

#[test]
fn marching_team_passes_enemy_units() {
    let map = open_map();
    let mut players = two_players();
    players.me.strategy = Strategy::March;
    players.me.boosts.set(Boost::NoCollision, true);
    let mut warrior = unit(1, UnitName::Warrior, PlayerColor::Blue, 0, 0);
    let enemy = unit(2, UnitName::Warrior, PlayerColor::Red, 20_000, 0);
    let index = world_of(vec![warrior, enemy]).index(&map);
    move_unit(&mut warrior, &index, &map, &players, &frame());
    assert_eq!(warrior.unit.action, Action::Run);
    assert_eq!(warrior.position, Vec2::new(750, 0));
}

#[test]
fn healer_heals_the_hurt_ally_it_touches() {
    let map = open_map();
    let players = two_players();
    let mut priest = unit(1, UnitName::Priest, PlayerColor::Blue, 0, 0);
    let mut ally = unit(2, UnitName::Warrior, PlayerColor::Blue, 10_000, 0);
    ally.unit.health = 100;
    let index = world_of(vec![priest, ally]).index(&map);
    move_unit(&mut priest, &index, &map, &players, &frame());
    assert_eq!(priest.unit.action, Action::Heal(2));
    assert_eq!(priest.position, Vec2::new(0, 0));
}

#[test]
fn healer_ignores_enemies_and_healthy_allies() {
    let map = open_map();
    let mut players = two_players();
    players.me.boosts.set(Boost::NoCollision, true);
    let mut priest = unit(1, UnitName::Priest, PlayerColor::Blue, 0, 0);
    let ally = unit(2, UnitName::Warrior, PlayerColor::Blue, 10_000, 0);
    let enemy = unit(3, UnitName::Warrior, PlayerColor::Red, -10_000, 0);
    let index = world_of(vec![priest, ally, enemy]).index(&map);
    move_unit(&mut priest, &index, &map, &players, &frame());
    assert_eq!(priest.unit.action, Action::Run);
    assert_eq!(priest.position, Vec2::new(416, 0));
}

#[test]
fn unit_attacks_an_enemy_building_in_reach() {
    let map = open_map();
    let players = two_players();
    let mut world = World::new();
    let mut warrior = unit(1, UnitName::Warrior, PlayerColor::Blue, 0, 0);
    world.units.push(warrior);
    world.buildings.push(BuildingEntity {
        id: 9,
        position: Vec2::new(115_200, 0),
        building: Building::new(BuildingName::Castle, PlayerColor::Red, true, 1000),
    });
    let index = world.index(&map);
    move_unit(&mut warrior, &index, &map, &players, &frame());
    assert_eq!(warrior.unit.action, Action::Attack(9));
}

#[test]
fn first_engagement_in_scan_order_wins() {
    let map = open_map();
    let players = two_players();
    let mut warrior = unit(1, UnitName::Warrior, PlayerColor::Blue, 0, 0);
    let second = unit(5, UnitName::Warrior, PlayerColor::Red, 10_000, 0);
    let first = unit(4, UnitName::Warrior, PlayerColor::Red, 1_000, 10_000);
    let index = world_of(vec![warrior, second, first]).index(&map);
    move_unit(&mut warrior, &index, &map, &players, &frame());
    // Both stand on the same tile; the one handed over first is found first.
    assert_eq!(warrior.unit.action, Action::Attack(5));
}

#[test]
fn tiles_are_scanned_column_by_column() {
    let map = open_map();
    let players = two_players();
    let mut warrior = unit(1, UnitName::Warrior, PlayerColor::Blue, 0, 0);
    let right = unit(5, UnitName::Warrior, PlayerColor::Red, 10_000, 0);
    let left = unit(4, UnitName::Warrior, PlayerColor::Red, -10_000, 0);
    let index = world_of(vec![warrior, right, left]).index(&map);
    move_unit(&mut warrior, &index, &map, &players, &frame());
    // The enemy on the left stands in the column that is looked at first.
    assert_eq!(warrior.unit.action, Action::Attack(4));
}

#[test]
fn touching_ally_pushes_the_unit_aside() {
    let map = open_map();
    let players = two_players();
    let mut walker = unit(1, UnitName::Warrior, PlayerColor::Blue, -288_000, 0);
    let ally = unit(2, UnitName::Warrior, PlayerColor::Blue, -288_000, 20_000);
    let index = world_of(vec![walker, ally]).index(&map);
    move_unit(&mut walker, &index, &map, &players, &frame());
    assert_eq!(walker.position, Vec2::new(-287_930, -494));
    assert_eq!(walker.unit.action, Action::Run);
}

#[test]
fn no_collision_boost_lets_the_unit_pass_through() {
    let map = open_map();
    let mut players = two_players();
    players.me.boosts.set(Boost::NoCollision, true);
    let mut walker = unit(1, UnitName::Warrior, PlayerColor::Blue, -288_000, 0);
    let ally = unit(2, UnitName::Warrior, PlayerColor::Blue, -288_000, 20_000);
    let index = world_of(vec![walker, ally]).index(&map);
    move_unit(&mut walker, &index, &map, &players, &frame());
    assert_eq!(walker.position, Vec2::new(-287_500, 0));
}

#[test]
fn units_on_the_same_spot_separate_by_identity() {
    let map = open_map();
    let players = two_players();
    let at = Vec2::new(-288_000, 0);
    let mover = Mover {
        id: 2,
        position: at,
        unit: Unit::with_lane(UnitName::Warrior, PlayerColor::Blue, Lane::Mid, None),
        heading: Vec2::new(1000, 0),
        reach: 48_000,
        engages: true,
        collides: true,
    };
    let twin = unit(3, UnitName::Warrior, PlayerColor::Blue, -288_000, 0).occupant();
    let (begun, force) = scan(&mover, &vec![twin]);
    assert_eq!(begun, None);
    // Away is straight up for identity 2; the side across the heading is up
    // as well, and the push is the cube of the whole touching distance.
    assert_eq!(force, Vec2::new(0, 1000 + 829_440));
    let again = scan(&mover, &vec![twin]);
    assert_eq!(again, (begun, force));
    let _ = (map, players);
}

#[test]
fn scan_skips_the_unit_itself_and_units_out_of_range() {
    let mover = Mover {
        id: 1,
        position: Vec2::new(0, 0),
        unit: Unit::with_lane(UnitName::Warrior, PlayerColor::Blue, Lane::Mid, None),
        heading: Vec2::new(1000, 0),
        reach: 48_000,
        engages: true,
        collides: true,
    };
    let itself = unit(1, UnitName::Warrior, PlayerColor::Red, 0, 0).occupant();
    let far = unit(2, UnitName::Warrior, PlayerColor::Red, 30_000, 0).occupant();
    assert_eq!(scan(&mover, &vec![itself, far]), (None, Vec2::new(0, 0)));
    assert_eq!(scan(&mover, &vec![]), (None, Vec2::new(0, 0)));
}

#[test]
fn unit_on_a_building_stays_where_it_is() {
    let map = open_map();
    let players = two_players();
    let mut hosted = unit(1, UnitName::Archer, PlayerColor::Blue, 0, 0);
    hosted.unit.on_building = Some(9);
    hosted.unit.action = Action::Run;
    let index = world_of(vec![hosted]).index(&map);
    move_unit(&mut hosted, &index, &map, &players, &frame());
    assert_eq!(hosted.position, Vec2::new(0, 0));
    assert_eq!(hosted.unit.action, Action::Run);
}

#[test]
fn frozen_unit_idles() {
    let map = open_map();
    let mut players = two_players();
    players.enemy.boosts.set(Boost::Frozen, true);
    let mut frozen = unit(1, UnitName::Warrior, PlayerColor::Blue, 0, 0);
    frozen.unit.action = Action::Run;
    let index = world_of(vec![frozen]).index(&map);
    move_unit(&mut frozen, &index, &map, &players, &frame());
    assert_eq!(frozen.position, Vec2::new(0, 0));
    assert_eq!(frozen.unit.action, Action::Idle);
    let mut free = unit(2, UnitName::Warrior, PlayerColor::Red, 0, 0);
    let index = world_of(vec![free]).index(&map);
    move_unit(&mut free, &index, &map, &players, &frame());
    assert_eq!(free.unit.action, Action::Run);
}

#[test]
fn run_boost_doubles_the_step() {
    let map = open_map();
    let mut players = two_players();
    players.me.boosts.set(Boost::Run, true);
    let mut runner = unit(1, UnitName::Warrior, PlayerColor::Blue, -288_000, 0);
    let index = world_of(vec![runner]).index(&map);
    move_unit(&mut runner, &index, &map, &players, &frame());
    assert_eq!(runner.position, Vec2::new(-287_000, 0));
}

#[test]
fn same_snapshot_gives_the_same_step() {
    let map = open_map();
    let players = two_players();
    let walker = unit(1, UnitName::Warrior, PlayerColor::Blue, -288_000, 0);
    let ally = unit(2, UnitName::Warrior, PlayerColor::Blue, -288_000, 20_000);
    let enemy = unit(3, UnitName::Archer, PlayerColor::Red, -100_000, 0);
    let mut first = walker;
    let mut second = walker;
    let index = world_of(vec![walker, ally, enemy]).index(&map);
    move_unit(&mut first, &index, &map, &players, &frame());
    let rebuilt = SpatialIndex::build(
        &map,
        &vec![walker.occupant(), ally.occupant(), enemy.occupant()],
    );
    move_unit(&mut second, &rebuilt, &map, &players, &frame());
    assert_eq!(first, second);
}
