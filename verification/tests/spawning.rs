use lane_battle::buildings::{Building, BuildingName};
use lane_battle::effects::{
    deferred_message, effect_message, route, DeferredEffectMsg, Effect, EffectMsg, EffectPlan,
    EffectRoute,
};
use lane_battle::geometry::Vec2;
use lane_battle::map::Lane;
use lane_battle::player::{Player, PlayerDirection, Players, Side};
use lane_battle::settings::PlayerColor;
use lane_battle::spawn::{
    despawn, despawn_message, find_spawn_position, spawn_arrow, spawn_arrow_message,
    spawn_building, spawn_building_message, spawn_unit, spawn_unit_message, DespawnMsg,
    SpawnArrowMsg, SpawnBuildingMsg, SpawnUnitMsg,
};
use lane_battle::units::{Action, Projectile, Unit, UnitName};
use lane_battle::world::{BuildingEntity, UnitEntity, World};

fn two_players() -> Players {
    Players {
        me: Player::new(0, PlayerColor::Blue, Side::Left),
        enemy: Player::new(1, PlayerColor::Red, Side::Right),
    }
}

fn unit(id: u64, color: PlayerColor, on_building: Option<u64>) -> UnitEntity {
    UnitEntity {
        id,
        position: Vec2::new(0, 0),
        flip_x: false,
        unit: Unit::with_lane(UnitName::Archer, color, Lane::Mid, on_building),
    }
}

fn castle(id: u64, color: PlayerColor, x: i64, y: i64) -> BuildingEntity {
    BuildingEntity {
        id,
        position: Vec2::new(x, y),
        building: Building::new(BuildingName::Castle, color, true, 1000),
    }
}

#[test]
fn new_request_leaves_everything_open() {
    let msg = SpawnUnitMsg::new(PlayerColor::Red, UnitName::Turtle);
    assert_eq!(msg.color, PlayerColor::Red);
    assert_eq!(msg.unit, UnitName::Turtle);
    assert_eq!(msg.position, None);
    assert_eq!(msg.on_building, None);
    assert_eq!(msg.lane, None);
    assert!(!msg.dust_effect);
    assert_eq!(msg.entity, None);
}

#[test]
fn unit_appears_at_the_door_of_its_base() {
    let mut players = two_players();
    players.enemy.direction = PlayerDirection::Top;
    let mut world = World::new();
    world.buildings.push(castle(10, PlayerColor::Blue, -250_000, 0));
    world.buildings.push(castle(11, PlayerColor::Red, 250_000, 8_000));
    let msg = SpawnUnitMsg::new(PlayerColor::Red, UnitName::Lancer);
    assert_eq!(find_spawn_position(&world, &msg), Some(Vec2::new(250_000, -62_000)));
    assert!(spawn_unit(&mut world, &players, &msg, 77));
    assert_eq!(world.units.len(), 1);
    let spawned = world.units[0];
    assert_eq!(spawned.id, 77);
    assert_eq!(spawned.position, Vec2::new(250_000, -62_000));
    assert!(spawned.flip_x);
    assert_eq!(spawned.unit.name, UnitName::Lancer);
    assert_eq!(spawned.unit.color, PlayerColor::Red);
    assert_eq!(spawned.unit.health, 100);
    assert_eq!(spawned.unit.action, Action::Idle);
    assert_eq!(spawned.unit.lane, Lane::Top);
    assert_eq!(spawned.unit.on_building, None);
}

#[test]
fn unit_with_a_position_appears_there() {
    let players = two_players();
    let mut world = World::new();
    let mut msg = SpawnUnitMsg::new(PlayerColor::Blue, UnitName::Archer);
    msg.position = Some(Vec2::new(5, -6));
    msg.lane = Some(Lane::Bot);
    msg.on_building = Some(3);
    assert!(spawn_unit(&mut world, &players, &msg, 1));
    assert_eq!(world.units[0].position, Vec2::new(5, -6));
    assert!(!world.units[0].flip_x);
    assert_eq!(world.units[0].unit.lane, Lane::Bot);
    assert_eq!(world.units[0].unit.on_building, Some(3));
    msg.position = Some(Vec2::new(i64::MAX, i64::MIN));
    assert!(spawn_unit(&mut world, &players, &msg, 2));
    assert_eq!(world.units[1].position, Vec2::new(1_000_000_000_000, -1_000_000_000_000));
}

#[test]
fn unit_without_a_place_does_not_appear() {
    let players = two_players();
    let mut world = World::new();
    world.buildings.push(castle(10, PlayerColor::Blue, 0, 0));
    world.buildings.push(BuildingEntity {
        id: 12,
        position: Vec2::new(9, 9),
        building: Building::new(BuildingName::Barracks, PlayerColor::Red, false, 500),
    });
    let msg = SpawnUnitMsg::new(PlayerColor::Red, UnitName::Warrior);
    assert_eq!(find_spawn_position(&world, &msg), None);
    assert!(!spawn_unit(&mut world, &players, &msg, 1));
    assert_eq!(world.units.len(), 0);
}

#[test]
fn building_appears_with_its_archers() {
    let mut world = World::new();
    let msg = SpawnBuildingMsg {
        color: PlayerColor::Red,
        building: BuildingName::Castle,
        position: Vec2::new(250_000, 0),
        is_base: true,
        health: 9_999,
        with_units: true,
        dust_effect: false,
        entity: None,
    };
    let units = spawn_building(&mut world, &msg, 30);
    assert_eq!(world.buildings.len(), 1);
    assert_eq!(world.buildings[0], castle(30, PlayerColor::Red, 250_000, 0));
    assert_eq!(units.len(), 2);
    assert_eq!(
        units[0],
        SpawnUnitMsg {
            color: PlayerColor::Red,
            unit: UnitName::Archer,
            position: Some(Vec2::new(190_000, 40_000)),
            on_building: Some(30),
            lane: None,
            dust_effect: false,
            entity: None,
        }
    );
    assert_eq!(units[1].position, Some(Vec2::new(310_000, 40_000)));
    let bare = SpawnBuildingMsg { with_units: false, health: 1, ..msg };
    assert_eq!(spawn_building(&mut world, &bare, 31), vec![]);
    assert_eq!(world.buildings[1].building.health, 1);
}

#[test]
fn projectile_appears_at_its_start() {
    let mut world = World::new();
    let msg = SpawnArrowMsg {
        color: PlayerColor::Blue,
        projectile: Projectile::Harpoon,
        damage: 10,
        start: Vec2::new(0, 0),
        destination: Vec2::new(30_000, 40_000),
        entity: None,
    };
    spawn_arrow(&mut world, &msg, 5);
    assert_eq!(world.arrows.len(), 1);
    assert_eq!(world.arrows[0].id, 5);
    assert_eq!(world.arrows[0].position, Vec2::new(0, 0));
    assert_eq!(world.arrows[0].heading, None);
    assert_eq!(world.arrows[0].arrow.total_distance, 50_000);
    assert_eq!(world.arrows[0].arrow.traveled, 0);
    assert_eq!(world.arrows[0].arrow.damage, 10);
    assert_eq!(world.arrows[0].arrow.projectile, Projectile::Harpoon);
}

#[test]
fn building_takes_its_units_with_it() {
    let mut world = World::new();
    world.buildings.push(castle(10, PlayerColor::Blue, 0, 0));
    world.buildings.push(castle(11, PlayerColor::Red, 9, 9));
    world.units.push(unit(1, PlayerColor::Blue, Some(10)));
    world.units.push(unit(2, PlayerColor::Blue, None));
    world.units.push(unit(3, PlayerColor::Red, Some(11)));
    world.units.push(unit(4, PlayerColor::Blue, Some(10)));
    despawn(&mut world, 10);
    assert_eq!(world.buildings.len(), 1);
    assert_eq!(world.buildings[0].id, 11);
    assert_eq!(world.units.len(), 2);
    assert_eq!(world.units[0].id, 2);
    assert_eq!(world.units[1].id, 3);
}

#[test]
fn despawning_twice_is_despawning_once() {
    let mut world = World::new();
    world.units.push(unit(1, PlayerColor::Blue, None));
    world.units.push(unit(2, PlayerColor::Blue, None));
    despawn(&mut world, 1);
    let once = world.units.clone();
    despawn(&mut world, 1);
    assert_eq!(world.units, once);
    assert_eq!(world.units.len(), 1);
    despawn(&mut world, 404);
    assert_eq!(world.units, once);
    despawn_message(&mut world, &vec![DespawnMsg(2), DespawnMsg(2), DespawnMsg(1)]);
    assert_eq!(world.units.len(), 0);
}

#[test]
fn projectiles_are_despawned_by_identity() {
    let mut world = World::new();
    let msg = SpawnArrowMsg {
        color: PlayerColor::Blue,
        projectile: Projectile::Arrow,
        damage: 10,
        start: Vec2::new(0, 0),
        destination: Vec2::new(30_000, 40_000),
        entity: None,
    };
    spawn_arrow(&mut world, &msg, 5);
    spawn_arrow(&mut world, &msg, 6);
    despawn(&mut world, 5);
    assert_eq!(world.arrows.len(), 1);
    assert_eq!(world.arrows[0].id, 6);
}

#[test]
fn effect_requests() {
    assert_eq!(EffectMsg::dust(4), EffectMsg { effect: Effect::Dust, entity: 4 });
    assert_eq!(EffectMsg::explosion(4), EffectMsg { effect: Effect::Explosion, entity: 4 });
}

#[test]
fn effects_play_on_entities_that_are_there() {
    let mut world = World::new();
    world.buildings.push(castle(10, PlayerColor::Blue, -250_000, 5));
    let mut lancer = unit(1, PlayerColor::Blue, None);
    lancer.unit.name = UnitName::Lancer;
    lancer.unit.health = 100;
    lancer.position = Vec2::new(7, 8);
    world.units.push(lancer);
    assert_eq!(
        route(&world, EffectMsg::explosion(10)),
        EffectRoute::Play(EffectPlan {
            effect: Effect::Explosion,
            position: Vec2::new(-250_000, 5),
            width: 192_000,
            height: 153_600,
            particles: 20,
            spread: 300,
            scale: 1000,
            sound: true,
        })
    );
    assert_eq!(
        route(&world, EffectMsg::dust(1)),
        EffectRoute::Play(EffectPlan {
            effect: Effect::Dust,
            position: Vec2::new(7, 8),
            width: 160_000,
            height: 160_000,
            particles: 3,
            spread: 100,
            scale: 500,
            sound: false,
        })
    );
}

#[test]
fn effects_wait_for_entities_that_are_not_there_yet() {
    let mut world = World::new();
    world.units.push(unit(1, PlayerColor::Blue, None));
    let routes = effect_message(
        &world,
        &vec![EffectMsg::dust(9), EffectMsg::dust(1), EffectMsg::explosion(8)],
    );
    assert_eq!(routes.len(), 3);
    assert_eq!(
        routes[0],
        EffectRoute::Defer(DeferredEffectMsg { effect: Effect::Dust, entity: 9 })
    );
    assert!(matches!(routes[1], EffectRoute::Play(_)));
    assert_eq!(
        routes[2],
        EffectRoute::Defer(DeferredEffectMsg { effect: Effect::Explosion, entity: 8 })
    );
    let again = deferred_message(&vec![
        DeferredEffectMsg { effect: Effect::Dust, entity: 9 },
        DeferredEffectMsg { effect: Effect::Explosion, entity: 8 },
    ]);
    assert_eq!(again, vec![EffectMsg::dust(9), EffectMsg::explosion(8)]);
    world.units.push(unit(9, PlayerColor::Red, None));
    assert!(matches!(route(&world, again[0]), EffectRoute::Play(_)));
}

#[test]
fn requests_are_carried_out_in_order() {
    let players = two_players();
    let mut world = World::new();
    let base = SpawnBuildingMsg {
        color: PlayerColor::Blue,
        building: BuildingName::Castle,
        position: Vec2::new(-250_000, 0),
        is_base: true,
        health: 1000,
        with_units: true,
        dust_effect: true,
        entity: Some(7),
    };
    let barracks = SpawnBuildingMsg {
        building: BuildingName::Barracks,
        position: Vec2::new(-150_000, 0),
        is_base: false,
        ..base
    };
    let archers = spawn_building_message(&mut world, &vec![base, barracks], &vec![10, 11]);
    assert_eq!(world.buildings.len(), 2);
    assert_eq!(world.buildings[0].id, 10);
    assert_eq!(world.buildings[1].id, 11);
    assert_eq!(world.buildings[1].building.health, 500);
    assert_eq!(archers.len(), 3);
    assert_eq!(archers[0].on_building, Some(10));
    assert_eq!(archers[1].on_building, Some(10));
    assert_eq!(archers[2].on_building, Some(11));
    assert_eq!(archers[2].position, Some(Vec2::new(-150_000, 40_000)));

    let walker = SpawnUnitMsg::new(PlayerColor::Blue, UnitName::Warrior);
    let homeless = SpawnUnitMsg::new(PlayerColor::Red, UnitName::Warrior);
    let mut requests = archers.clone();
    requests.push(walker);
    requests.push(homeless);
    let spawned = spawn_unit_message(&mut world, &players, &requests, &vec![1, 2, 3, 4, 5]);
    assert_eq!(spawned, vec![true, true, true, true, false]);
    assert_eq!(world.units.len(), 4);
    assert_eq!(world.units[0].id, 1);
    assert_eq!(world.units[0].position, Vec2::new(-310_000, 40_000));
    assert_eq!(world.units[0].unit.name, UnitName::Archer);
    assert_eq!(world.units[2].unit.on_building, Some(11));
    assert_eq!(world.units[3].id, 4);
    assert_eq!(world.units[3].position, Vec2::new(-250_000, -70_000));

    let shot = SpawnArrowMsg {
        color: PlayerColor::Blue,
        projectile: Projectile::Arrow,
        damage: 10,
        start: Vec2::new(0, 0),
        destination: Vec2::new(3_000, 4_000),
        entity: None,
    };
    spawn_arrow_message(&mut world, &vec![shot, shot], &vec![20, 21]);
    assert_eq!(world.arrows.len(), 2);
    assert_eq!(world.arrows[0].id, 20);
    assert_eq!(world.arrows[1].id, 21);
    assert_eq!(world.arrows[1].arrow.total_distance, 5_000);

    despawn_message(&mut world, &vec![DespawnMsg(10), DespawnMsg(20), DespawnMsg(4)]);
    assert_eq!(world.buildings.len(), 1);
    assert_eq!(world.units.len(), 1);
    assert_eq!(world.units[0].id, 3);
    assert_eq!(world.arrows.len(), 1);
    assert_eq!(world.arrows[0].id, 21);
}
