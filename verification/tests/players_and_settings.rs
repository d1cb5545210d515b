use lane_battle::buildings::{Building, BuildingName};
use lane_battle::geometry::Vec2;
use lane_battle::map::Lane;
use lane_battle::player::{
    change_direction, change_strategy, Boost, Boosts, Player, PlayerDirection, Players,
    QueuedUnit, Side, Strategy,
};
use lane_battle::settings::{AudioState, PlayerColor, Settings};
use lane_battle::time::{Tick, Timer};
use lane_battle::units::UnitName;

#[test]
fn colours_as_bytes_and_positions() {
    assert_eq!(PlayerColor::Black.color(), (104, 128, 145));
    assert_eq!(PlayerColor::Blue.color(), (71, 149, 167));
    assert_eq!(PlayerColor::Purple.color(), (163, 112, 150));
    assert_eq!(PlayerColor::Red.color(), (222, 84, 84));
    assert_eq!(PlayerColor::Yellow.color(), (220, 170, 70));
    assert_eq!(PlayerColor::Black.index(), 4);
    assert_eq!(PlayerColor::Blue.index(), 0);
    assert_eq!(PlayerColor::Purple.index(), 3);
    assert_eq!(PlayerColor::Red.index(), 1);
    assert_eq!(PlayerColor::Yellow.index(), 2);
}

#[test]
fn default_settings() {
    let settings = Settings::default();
    assert_eq!(settings.color, PlayerColor::Blue);
    assert_eq!(settings.enemy_color, PlayerColor::Red);
    assert_eq!(settings.speed, 1000);
    assert_eq!(settings.audio, AudioState::Sound);
    assert!(settings.autosave);
    assert_eq!(AudioState::default(), AudioState::Sound);
}

#[test]
fn tick_caps_the_time_step() {
    let tick = Tick::new(16_667, 1000);
    assert_eq!(tick.delta(), 16_667);
    assert_eq!(tick.speed(), 1000);
    assert_eq!(tick.scaled_delta(), 16_667);
    let stalled = Tick::new(3_000_000, 2000);
    assert_eq!(stalled.delta(), 50_000);
    assert_eq!(stalled.scaled_delta(), 100_000);
    assert_eq!(Tick::new(1001, 500).scaled_delta(), 500);
}

#[test]
fn timer_runs_once() {
    let mut timer = Timer::from_millis(3);
    assert_eq!(timer.duration, 3000);
    assert!(!timer.is_finished());
    assert!(!timer.tick(1000));
    assert_eq!(timer.elapsed, 1000);
    assert!(!timer.tick(1999));
    assert_eq!(timer.elapsed, 2999);
    assert!(timer.tick(5000));
    assert!(timer.is_finished());
    assert_eq!(timer.elapsed, 3000);
    assert!(!timer.tick(5000));
    assert_eq!(timer.elapsed, 3000);
    timer.reset();
    assert!(!timer.is_finished());
    assert_eq!(timer.elapsed, 0);
    assert_eq!(timer.duration, 3000);
}

#[test]
fn timer_of_no_duration_finishes_with_the_first_tick() {
    let mut timer = Timer::from_millis(0);
    assert!(!timer.is_finished());
    assert!(timer.tick(0));
    assert!(timer.is_finished());
}

#[test]
fn timer_does_not_overflow() {
    let mut timer = Timer::from_millis(18_000_000_000_000_000);
    assert!(!timer.tick(u64::MAX / 2));
    assert!(timer.tick(u64::MAX));
    assert_eq!(timer.elapsed, timer.duration);
}

#[test]
fn sides_are_opposite() {
    assert_eq!(Side::Left.opposite(), Side::Right);
    assert_eq!(Side::Right.opposite(), Side::Left);
    assert_eq!(Strategy::default(), Strategy::Normal);
    assert_eq!(PlayerDirection::default(), PlayerDirection::Any);
}

#[test]
fn boosts_are_a_set() {
    let mut boosts = Boosts::none();
    assert!(!boosts.has(Boost::Run));
    boosts.set(Boost::Run, true);
    boosts.set(Boost::Frozen, true);
    assert!(boosts.has(Boost::Run));
    assert!(boosts.has(Boost::Frozen));
    assert!(!boosts.has(Boost::Longbow));
    assert!(!boosts.has(Boost::NoCollision));
    boosts.set(Boost::Run, false);
    assert!(!boosts.has(Boost::Run));
    assert!(boosts.has(Boost::Frozen));
}

#[test]
fn lanes_of_the_directions() {
    assert_eq!(PlayerDirection::Any.lanes(), vec![Lane::Top, Lane::Mid, Lane::Bot]);
    assert_eq!(PlayerDirection::Top.lanes(), vec![Lane::Top]);
    assert_eq!(PlayerDirection::TopMid.lanes(), vec![Lane::Top, Lane::Mid]);
    assert_eq!(PlayerDirection::Mid.lanes(), vec![Lane::Mid]);
    assert_eq!(PlayerDirection::MidBot.lanes(), vec![Lane::Mid, Lane::Bot]);
    assert_eq!(PlayerDirection::Bot.lanes(), vec![Lane::Bot]);
}

#[test]
fn queued_unit_counts_down_its_production_time() {
    let queued = QueuedUnit::new(UnitName::Archer, 3300);
    assert_eq!(queued.unit, UnitName::Archer);
    assert_eq!(queued.timer.duration, 3_300_000);
    assert_eq!(queued.timer.elapsed, 0);
    assert_eq!(QueuedUnit::for_unit(UnitName::Turtle).timer.duration, 7_500_000);
}

#[test]
fn new_player_has_nothing_queued() {
    let player = Player::new(12, PlayerColor::Red, Side::Right);
    assert_eq!(player.id, 12);
    assert_eq!(player.color, PlayerColor::Red);
    assert_eq!(player.side, Side::Right);
    assert_eq!(player.direction, PlayerDirection::Any);
    assert_eq!(player.strategy, Strategy::Normal);
    assert_eq!(player.queue.len(), 0);
    assert_eq!(player.queue_default, UnitName::Warrior);
    assert!(player.can_queue());
    assert!(!player.has_boost(Boost::Run));
}

#[test]
fn who_is_human() {
    assert!(Player::new(0, PlayerColor::Blue, Side::Left).is_human());
    assert!(!Player::new(1, PlayerColor::Blue, Side::Left).is_human());
    assert!(!Player::new(10, PlayerColor::Blue, Side::Left).is_human());
    assert!(Player::new(11, PlayerColor::Blue, Side::Left).is_human());
    assert!(!Player::new(u64::MAX, PlayerColor::Blue, Side::Left).is_human());
    assert!(Player::new(u64::MAX - 1, PlayerColor::Blue, Side::Left).is_human());
}

fn two_players() -> Players {
    Players {
        me: Player::new(0, PlayerColor::Blue, Side::Left),
        enemy: Player::new(1, PlayerColor::Red, Side::Right),
    }
}

#[test]
fn players_are_found_by_identity_colour_and_side() {
    let mut players = two_players();
    assert_eq!(players.get(0).color, PlayerColor::Blue);
    assert_eq!(players.get(1).color, PlayerColor::Red);
    assert_eq!(players.get(77).color, PlayerColor::Red);
    assert_eq!(players.get_by_color(PlayerColor::Blue).id, 0);
    assert_eq!(players.get_by_color(PlayerColor::Yellow).id, 1);
    assert_eq!(players.get_by_side(Side::Left).id, 0);
    assert_eq!(players.get_by_side(Side::Right).id, 1);
    players.get_mut(1).strategy = Strategy::March;
    assert_eq!(players.enemy.strategy, Strategy::March);
    assert_eq!(players.me.strategy, Strategy::Normal);
    players.get_mut(0).direction = PlayerDirection::Top;
    assert_eq!(players.me.direction, PlayerDirection::Top);
}

#[test]
fn both_players_in_order() {
    let mut players = two_players();
    let both = players.iter();
    assert_eq!(both.len(), 2);
    assert_eq!(both[0].id, 0);
    assert_eq!(both[1].id, 1);
    let (me, enemy) = players.iter_mut();
    me.queue_default = UnitName::Skull;
    enemy.queue_default = UnitName::Shark;
    assert_eq!(players.me.queue_default, UnitName::Skull);
    assert_eq!(players.enemy.queue_default, UnitName::Shark);
}

#[test]
fn building_tables() {
    assert_eq!(BuildingName::all(), vec![BuildingName::Barracks, BuildingName::Castle]);
    assert_eq!(BuildingName::Castle.size(), (320, 256));
    assert_eq!(BuildingName::Barracks.size(), (192, 256));
    assert_eq!(BuildingName::Castle.world_width(), 192_000);
    assert_eq!(BuildingName::Barracks.world_width(), 115_200);
    assert_eq!(BuildingName::Castle.health(), 1000);
    assert_eq!(BuildingName::Barracks.health(), 500);
    assert_eq!(BuildingName::Barracks.units(), vec![Vec2::new(0, 40_000)]);
    assert_eq!(
        BuildingName::Castle.units(),
        vec![Vec2::new(-60_000, 40_000), Vec2::new(60_000, 40_000)]
    );
}

#[test]
fn building_health_is_limited_to_its_class() {
    let castle = Building::new(BuildingName::Castle, PlayerColor::Blue, true, 5000);
    assert_eq!(castle.health, 1000);
    assert!(castle.is_base);
    let hurt = Building::new(BuildingName::Barracks, PlayerColor::Red, false, 120);
    assert_eq!(hurt.health, 120);
    assert_eq!(hurt.color, PlayerColor::Red);
    assert_eq!(hurt.name, BuildingName::Barracks);
}

#[test]
fn berserk_attacks_play_faster() {
    let mut player = Player::new(0, PlayerColor::Blue, Side::Left);
    assert_eq!(player.animation_speed(1000, true), 1000);
    player.strategy = Strategy::Berserk;
    assert_eq!(player.animation_speed(1000, true), 1300);
    assert_eq!(player.animation_speed(1000, false), 1000);
    assert_eq!(player.animation_speed(2000, true), 2600);
    assert_eq!(player.animation_speed(u32::MAX, true), 5_583_457_483);
    player.strategy = Strategy::March;
    assert_eq!(player.animation_speed(1000, true), 1000);
}

#[test]
fn strategy_timer_runs_in_simulated_time() {
    let mut players = two_players();
    assert_eq!(players.me.strategy_timer.duration, 10_000_000);
    players.update_strategy_timer(&Tick::new(50_000, 2000));
    assert_eq!(players.me.strategy_timer.elapsed, 100_000);
    assert_eq!(players.enemy.strategy_timer.elapsed, 0);
    for _ in 0..99 {
        players.update_strategy_timer(&Tick::new(50_000, 2000));
    }
    assert!(players.me.strategy_timer.is_finished());
    assert_eq!(players.me.strategy_timer.elapsed, 10_000_000);
}

#[test]
fn strategy_changes_only_after_the_wait() {
    let mut player = Player::new(0, PlayerColor::Blue, Side::Left);
    assert_eq!(change_strategy(&mut player, Strategy::Normal), None);
    assert_eq!(change_strategy(&mut player, Strategy::March), Some(false));
    assert_eq!(player.strategy, Strategy::Normal);
    assert_eq!(player.strategy_timer.elapsed, 0);
    player.strategy_timer.tick(10_000_000);
    assert!(player.strategy_timer.is_finished());
    assert_eq!(change_strategy(&mut player, Strategy::Normal), None);
    assert!(player.strategy_timer.is_finished());
    assert_eq!(change_strategy(&mut player, Strategy::March), Some(true));
    assert_eq!(player.strategy, Strategy::March);
    assert_eq!(player.strategy_timer.elapsed, 0);
    assert_eq!(player.strategy_timer.duration, 10_000_000);
    assert!(!player.strategy_timer.is_finished());
    assert_eq!(change_strategy(&mut player, Strategy::Berserk), Some(false));
    assert_eq!(player.strategy, Strategy::March);
}

#[test]
fn direction_changes_at_once() {
    let mut player = Player::new(0, PlayerColor::Blue, Side::Left);
    assert!(!change_direction(&mut player, PlayerDirection::Any));
    assert!(change_direction(&mut player, PlayerDirection::TopMid));
    assert_eq!(player.direction, PlayerDirection::TopMid);
    assert!(!change_direction(&mut player, PlayerDirection::TopMid));
    assert_eq!(player.id, 0);
    assert_eq!(player.strategy, Strategy::Normal);
}
