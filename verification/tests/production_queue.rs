use lane_battle::constants::MAX_QUEUE_LENGTH;
use lane_battle::player::{Player, Players, QueuedUnit, Side};
use lane_battle::queue::{enqueue, queue_message, resolve_queue, tick_queue, Cue, QueueUnitMsg};
use lane_battle::settings::PlayerColor;
use lane_battle::spawn::SpawnUnitMsg;
use lane_battle::time::Tick;
use lane_battle::units::UnitName;

fn two_players() -> Players {
    Players {
        me: Player::new(0, PlayerColor::Blue, Side::Left),
        enemy: Player::new(1, PlayerColor::Red, Side::Right),
    }
}

#[test]
fn capacity_of_the_queue() {
    assert_eq!(MAX_QUEUE_LENGTH, 5);
}

#[test]
fn sixth_request_is_turned_down() {
    let mut players = two_players();
    for _ in 0..5 {
        assert_eq!(
            queue_message(&mut players, QueueUnitMsg::new(0, UnitName::Warrior)),
            Some(Cue::Button)
        );
    }
    assert_eq!(players.me.queue.len(), 5);
    assert!(!players.me.can_queue());
    let before: Vec<QueuedUnit> = players.me.queue.iter().copied().collect();
    assert_eq!(
        queue_message(&mut players, QueueUnitMsg::new(0, UnitName::Archer)),
        Some(Cue::Error)
    );
    assert_eq!(players.me.queue.len(), 5);
    let after: Vec<QueuedUnit> = players.me.queue.iter().copied().collect();
    assert_eq!(before, after);
    assert_eq!(players.enemy.queue.len(), 0);
}

#[test]
fn requests_queue_up_in_order() {
    let mut player = Player::new(0, PlayerColor::Blue, Side::Left);
    assert!(enqueue(&mut player, UnitName::Skull));
    assert!(enqueue(&mut player, UnitName::Turtle));
    assert_eq!(player.queue.len(), 2);
    assert_eq!(player.queue[0], QueuedUnit::for_unit(UnitName::Skull));
    assert_eq!(player.queue[1], QueuedUnit::for_unit(UnitName::Turtle));
    assert_eq!(player.queue[1].timer.duration, 7_500_000);
    assert_eq!(player.queue[1].timer.elapsed, 0);
}

#[test]
fn computer_players_hear_nothing() {
    let mut players = two_players();
    for _ in 0..5 {
        assert_eq!(queue_message(&mut players, QueueUnitMsg::new(1, UnitName::Skull)), None);
    }
    assert_eq!(queue_message(&mut players, QueueUnitMsg::new(1, UnitName::Skull)), None);
    assert_eq!(players.enemy.queue.len(), 5);
    assert_eq!(players.me.queue.len(), 0);
}

#[test]
fn request_for_an_unknown_player_goes_to_the_opponent() {
    let mut players = two_players();
    assert_eq!(queue_message(&mut players, QueueUnitMsg::new(42, UnitName::Skull)), None);
    assert_eq!(players.enemy.queue.len(), 1);
}

#[test]
fn names_of_the_cues() {
    assert_eq!(Cue::Button.name(), "button");
    assert_eq!(Cue::Error.name(), "error");
}

#[test]
fn only_the_head_counts_down() {
    let mut player = Player::new(0, PlayerColor::Blue, Side::Left);
    enqueue(&mut player, UnitName::Skull);
    enqueue(&mut player, UnitName::Warrior);
    assert_eq!(tick_queue(&mut player, 300_000), None);
    assert_eq!(player.queue.len(), 2);
    assert_eq!(player.queue[0].timer.elapsed, 300_000);
    assert_eq!(player.queue[1].timer.elapsed, 0);
}

#[test]
fn finished_head_leaves_and_the_next_starts_afresh() {
    let mut player = Player::new(0, PlayerColor::Blue, Side::Left);
    enqueue(&mut player, UnitName::Skull);
    enqueue(&mut player, UnitName::Warrior);
    assert_eq!(tick_queue(&mut player, 700_000), None);
    assert_eq!(
        tick_queue(&mut player, 900_000),
        Some(SpawnUnitMsg::new(PlayerColor::Blue, UnitName::Skull))
    );
    assert_eq!(player.queue.len(), 1);
    assert_eq!(player.queue[0].unit, UnitName::Warrior);
    assert_eq!(player.queue[0].timer.elapsed, 0);
    assert_eq!(tick_queue(&mut player, 2_499_999), None);
    assert_eq!(
        tick_queue(&mut player, 1),
        Some(SpawnUnitMsg::new(PlayerColor::Blue, UnitName::Warrior))
    );
    assert_eq!(player.queue.len(), 0);
}

#[test]
fn empty_queue_does_nothing() {
    let mut player = Player::new(0, PlayerColor::Blue, Side::Left);
    assert_eq!(tick_queue(&mut player, 1_000_000), None);
    assert_eq!(player.queue.len(), 0);
}

#[test]
fn queues_of_both_players_advance_with_the_simulation_speed() {
    let mut players = two_players();
    enqueue(&mut players.me, UnitName::Skull);
    enqueue(&mut players.enemy, UnitName::Skull);
    enqueue(&mut players.enemy, UnitName::Archer);
    players.enemy.queue[0].timer.elapsed = 750_000;
    let tick = Tick::new(50_000, 1000);
    assert_eq!(resolve_queue(&mut players, &tick), vec![SpawnUnitMsg::new(PlayerColor::Red, UnitName::Skull)]);
    assert_eq!(players.me.queue[0].timer.elapsed, 50_000);
    assert_eq!(players.enemy.queue.len(), 1);
    assert_eq!(players.enemy.queue[0].timer.elapsed, 0);
    let fast = Tick::new(50_000, 15_000);
    assert_eq!(
        resolve_queue(&mut players, &fast),
        vec![SpawnUnitMsg::new(PlayerColor::Blue, UnitName::Skull)]
    );
    assert_eq!(players.me.queue.len(), 0);
    assert_eq!(players.enemy.queue[0].timer.elapsed, 750_000);
    assert_eq!(resolve_queue(&mut players, &Tick::new(0, 1000)), vec![]);
}
