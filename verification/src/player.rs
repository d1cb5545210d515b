//! Players: their side, posture, boosts and production queue.

use vstd::prelude::*;
use std::collections::VecDeque;
use crate::constants::MAX_QUEUE_LENGTH;
use crate::map::Lane;
use crate::settings::PlayerColor;
use crate::time::{Tick, Timer, MAX_TIMER_MILLIS};
use crate::units::UnitName;

verus! {

/// The side of the map that a player's base stands on.
#[derive(Clone, Copy, Debug, PartialEq, Eq, Structural)]
pub enum Side {
    Left,
    Right,
}

impl Side {
    /// The other side.
    pub open spec fn spec_opposite(self) -> Side {
        match self {
            Side::Left => Side::Right,
            Side::Right => Side::Left,
        }
    }

    /// The other side.
    #[verifier::when_used_as_spec(spec_opposite)]
    pub fn opposite(self) -> (other: Side)
        ensures
            other == self.spec_opposite(),
    {
        match self {
            Side::Left => Side::Right,
            Side::Right => Side::Left,
        }
    }
}

/// The combat posture a player has chosen for the team.
#[derive(Clone, Copy, Debug, PartialEq, Eq, Structural)]
pub enum Strategy {
    /// Engage every enemy in reach.
    Normal,
    /// Walk faster and pass enemy units without engaging them.
    March,
    /// Engage like `Normal`, with a faster attack cadence.
    Berserk,
}

impl Default for Strategy {
    fn default() -> (strategy: Strategy)
        ensures
            strategy == Strategy::Normal,
    {
        Strategy::Normal
    }
}

/// A temporary team-wide modifier.
#[derive(Clone, Copy, Debug, PartialEq, Eq, Structural)]
pub enum Boost {
    /// The team's units walk twice as fast.
    Run,
    /// The team's archers reach half as far again.
    Longbow,
    /// The team's units pass through others.
    NoCollision,
    /// The units of the opposing team stand still.
    Frozen,
}

/// The set of boosts that are active for a team.
#[derive(Clone, Copy, Debug, PartialEq, Eq, Structural)]
pub struct Boosts {
    pub run: bool,
    pub longbow: bool,
    pub no_collision: bool,
    pub frozen: bool,
}

impl Boosts {
    /// Whether `boost` is in the set.
    pub open spec fn spec_has(&self, boost: Boost) -> bool {
        match boost {
            Boost::Run => self.run,
            Boost::Longbow => self.longbow,
            Boost::NoCollision => self.no_collision,
            Boost::Frozen => self.frozen,
        }
    }

    /// The set with `boost` put in (`active`) or taken out.
    pub open spec fn spec_with(self, boost: Boost, active: bool) -> Boosts {
        match boost {
            Boost::Run => Boosts { run: active, ..self },
            Boost::Longbow => Boosts { longbow: active, ..self },
            Boost::NoCollision => Boosts { no_collision: active, ..self },
            Boost::Frozen => Boosts { frozen: active, ..self },
        }
    }

    /// The empty set.
    pub fn none() -> (boosts: Boosts)
        ensures
            forall|boost: Boost| !boosts.spec_has(boost),
    {
        Boosts { run: false, longbow: false, no_collision: false, frozen: false }
    }

    /// Whether `boost` is in the set.
    #[verifier::when_used_as_spec(spec_has)]
    pub fn has(&self, boost: Boost) -> (active: bool)
        ensures
            active == self.spec_has(boost),
    {
        match boost {
            Boost::Run => self.run,
            Boost::Longbow => self.longbow,
            Boost::NoCollision => self.no_collision,
            Boost::Frozen => self.frozen,
        }
    }

    /// Puts `boost` into the set (`active`) or takes it out.
    pub fn set(&mut self, boost: Boost, active: bool)
        ensures
            *final(self) == old(self).spec_with(boost, active),
            final(self).spec_has(boost) == active,
            forall|other: Boost| other != boost ==> final(self).spec_has(other) == old(self).spec_has(other),
    {
        match boost {
            Boost::Run => {
                self.run = active;
            },
            Boost::Longbow => {
                self.longbow = active;
            },
            Boost::NoCollision => {
                self.no_collision = active;
            },
            Boost::Frozen => {
                self.frozen = active;
            },
        }
    }
}

/// The lanes a player sends new units down.
#[derive(Clone, Copy, Debug, PartialEq, Eq, Structural)]
pub enum PlayerDirection {
    Any,
    Top,
    TopMid,
    Mid,
    MidBot,
    Bot,
}

impl Default for PlayerDirection {
    fn default() -> (direction: PlayerDirection)
        ensures
            direction == PlayerDirection::Any,
    {
        PlayerDirection::Any
    }
}

impl PlayerDirection {
    /// The lanes that the direction stands for, from top to bottom.
    pub open spec fn spec_lanes(&self) -> Seq<Lane> {
        match self {
            PlayerDirection::Any => seq![Lane::Top, Lane::Mid, Lane::Bot],
            PlayerDirection::Top => seq![Lane::Top],
            PlayerDirection::TopMid => seq![Lane::Top, Lane::Mid],
            PlayerDirection::Mid => seq![Lane::Mid],
            PlayerDirection::MidBot => seq![Lane::Mid, Lane::Bot],
            PlayerDirection::Bot => seq![Lane::Bot],
        }
    }

    /// The lanes that the direction stands for, from top to bottom.
    pub fn lanes(&self) -> (lanes: Vec<Lane>)
        ensures
            lanes@ == self.spec_lanes(),
            lanes@.len() > 0,
    {
        let mut lanes: Vec<Lane> = Vec::new();
        match self {
            PlayerDirection::Any => {
                lanes.push(Lane::Top);
                lanes.push(Lane::Mid);
                lanes.push(Lane::Bot);
            },
            PlayerDirection::Top => {
                lanes.push(Lane::Top);
            },
            PlayerDirection::TopMid => {
                lanes.push(Lane::Top);
                lanes.push(Lane::Mid);
            },
            PlayerDirection::Mid => {
                lanes.push(Lane::Mid);
            },
            PlayerDirection::MidBot => {
                lanes.push(Lane::Mid);
                lanes.push(Lane::Bot);
            },
            PlayerDirection::Bot => {
                lanes.push(Lane::Bot);
            },
        }
        assert(lanes@ =~= self.spec_lanes());
        lanes
    }
}

/// A request in a production queue: the class to produce and the countdown
/// until the unit is ready.
#[derive(Clone, Copy, Debug, PartialEq, Eq, Structural)]
pub struct QueuedUnit {
    pub unit: UnitName,
    pub timer: Timer,
}

impl QueuedUnit {
    /// A request for `unit` that takes `millis` milliseconds.
    pub fn new(unit: UnitName, millis: u64) -> (queued: QueuedUnit)
        requires
            millis <= MAX_TIMER_MILLIS,
        ensures
            queued == (QueuedUnit { unit, timer: Timer::fresh((millis * 1000) as u64) }),
    {
        QueuedUnit { unit, timer: Timer::from_millis(millis) }
    }

    /// A request for `unit` with the production time of its class.
    pub open spec fn fresh(unit: UnitName) -> QueuedUnit {
        QueuedUnit { unit, timer: Timer::fresh((unit.spec_spawn_duration() * 1000) as u64) }
    }

    /// A request for `unit` with the production time of its class.
    pub fn for_unit(unit: UnitName) -> (queued: QueuedUnit)
        ensures
            queued == QueuedUnit::fresh(unit),
    {
        QueuedUnit::new(unit, unit.spawn_duration())
    }
}

/// A player. The production queue never holds more than
/// `MAX_QUEUE_LENGTH` requests.
#[derive(Debug)]
pub struct Player {
    pub id: u64,
    pub color: PlayerColor,
    pub side: Side,
    pub direction: PlayerDirection,
    pub strategy: Strategy,
    pub strategy_timer: Timer,
    pub boosts: Boosts,
    pub queue: VecDeque<QueuedUnit>,
    pub queue_default: UnitName,
}

/// Time a player waits between two changes of strategy, in milliseconds.
pub const STRATEGY_COOLDOWN_MILLIS: u64 = 10_000;

impl Player {
    /// The queue is within its capacity, and every request in it still
    /// counts down: a request whose unit is ready has left the queue.
    pub open spec fn wf(&self) -> bool {
        &&& self.queue@.len() <= MAX_QUEUE_LENGTH
        &&& forall|i: int|
            0 <= i < self.queue@.len() ==> (#[trigger] self.queue@[i]).timer.wf()
                && !self.queue@[i].timer.finished
    }

    /// Whether `other` is this player in everything but the queue.
    pub open spec fn same_but_queue(&self, other: &Player) -> bool {
        &&& self.id == other.id
        &&& self.color == other.color
        &&& self.side == other.side
        &&& self.direction == other.direction
        &&& self.strategy == other.strategy
        &&& self.strategy_timer == other.strategy_timer
        &&& self.boosts == other.boosts
        &&& self.queue_default == other.queue_default
    }

    /// Whether a person plays: the local player, or a peer of a network
    /// game. The identities from one to ten, and the largest one, belong to
    /// computer players.
    pub open spec fn spec_is_human(&self) -> bool {
        self.id == 0 || (self.id > 10 && self.id < u64::MAX)
    }

    /// Whether the queue has room for another request.
    pub open spec fn spec_can_queue(&self) -> bool {
        self.queue@.len() < MAX_QUEUE_LENGTH
    }

    /// A player with an empty queue, the default direction and strategy,
    /// and no boosts.
    pub fn new(id: u64, color: PlayerColor, side: Side) -> (player: Player)
        ensures
            player.id == id,
            player.color == color,
            player.side == side,
            player.direction == PlayerDirection::Any,
            player.strategy == Strategy::Normal,
            player.strategy_timer == Timer::fresh((STRATEGY_COOLDOWN_MILLIS * 1000) as u64),
            forall|boost: Boost| !player.boosts.spec_has(boost),
            player.queue@ == Seq::<QueuedUnit>::empty(),
            player.queue_default == UnitName::Warrior,
            player.wf(),
    {
        Player {
            id,
            color,
            side,
            direction: PlayerDirection::Any,
            strategy: Strategy::Normal,
            strategy_timer: Timer::from_millis(STRATEGY_COOLDOWN_MILLIS),
            boosts: Boosts::none(),
            queue: VecDeque::new(),
            queue_default: UnitName::Warrior,
        }
    }

    /// Whether a person plays.
    #[verifier::when_used_as_spec(spec_is_human)]
    pub fn is_human(&self) -> (human: bool)
        ensures
            human == self.spec_is_human(),
    {
        self.id == 0 || (self.id > 10 && self.id < u64::MAX)
    }

    /// Whether `boost` is active for the player's team.
    pub fn has_boost(&self, boost: Boost) -> (active: bool)
        ensures
            active == self.boosts.spec_has(boost),
    {
        self.boosts.has(boost)
    }

    /// Speed at which the animation of a unit of the player's team plays, in
    /// thousandths: the global simulation speed, and three tenths more for
    /// the attacks of a team that has gone berserk.
    pub open spec fn spec_animation_speed(&self, game_speed: u32, attacking: bool) -> u64 {
        if self.strategy == Strategy::Berserk && attacking {
            (game_speed * 13 / 10) as u64
        } else {
            game_speed as u64
        }
    }

    /// Speed at which the animation of a unit of the player's team plays.
    pub fn animation_speed(&self, game_speed: u32, attacking: bool) -> (speed: u64)
        ensures
            speed == self.spec_animation_speed(game_speed, attacking),
    {
        let berserk: bool = match self.strategy {
            Strategy::Berserk => true,
            _ => false,
        };
        if berserk && attacking {
            (game_speed as u64) * 13 / 10
        } else {
            game_speed as u64
        }
    }

    /// Whether the queue has room for another request.
    #[verifier::when_used_as_spec(spec_can_queue)]
    pub fn can_queue(&self) -> (room: bool)
        ensures
            room == self.spec_can_queue(),
    {
        self.queue.len() < MAX_QUEUE_LENGTH
    }
}

/// The player after asking for the strategy `wanted`: with that strategy and
/// a fresh wait if the strategy is a new one and the wait since the last
/// change has finished, and unchanged otherwise.
pub open spec fn spec_change_strategy(player: Player, wanted: Strategy) -> Player {
    if wanted != player.strategy && player.strategy_timer.finished {
        Player {
            strategy: wanted,
            strategy_timer: Timer::fresh(player.strategy_timer.duration),
            ..player
        }
    } else {
        player
    }
}

/// Asks for the strategy `wanted`. Nothing is answered where the player has
/// that strategy already. Otherwise the answer tells whether the strategy
/// changed: it changes, and the wait until the next change starts over, only
/// once the wait since the last change has finished.
pub fn change_strategy(player: &mut Player, wanted: Strategy) -> (changed: Option<bool>)
    ensures
        *final(player) == spec_change_strategy(*old(player), wanted),
        changed == if wanted == old(player).strategy {
            None
        } else {
            Some(old(player).strategy_timer.finished)
        },
        old(player).wf() ==> final(player).wf(),
{
    if wanted == player.strategy {
        None
    } else if player.strategy_timer.is_finished() {
        player.strategy = wanted;
        player.strategy_timer.reset();
        Some(true)
    } else {
        Some(false)
    }
}

/// Sends the player's new units down the lanes of `wanted`, and tells
/// whether that is a change.
pub fn change_direction(player: &mut Player, wanted: PlayerDirection) -> (changed: bool)
    ensures
        *final(player) == (Player { direction: wanted, ..*old(player) }),
        changed == (wanted != old(player).direction),
        old(player).wf() ==> final(player).wf(),
{
    if wanted == player.direction {
        false
    } else {
        player.direction = wanted;
        true
    }
}

/// The two players of a game.
#[derive(Debug)]
pub struct Players {
    pub me: Player,
    pub enemy: Player,
}

impl Players {
    /// Both players are well-formed.
    pub open spec fn wf(&self) -> bool {
        self.me.wf() && self.enemy.wf()
    }

    /// The player whose team has `color`: the local player if the colour is
    /// theirs, the opponent otherwise.
    pub open spec fn by_color(&self, color: PlayerColor) -> &Player {
        if self.me.color == color {
            &self.me
        } else {
            &self.enemy
        }
    }

    /// The player on `side`: the local player if the side is theirs, the
    /// opponent otherwise.
    pub open spec fn by_side(&self, side: Side) -> &Player {
        if self.me.side == side {
            &self.me
        } else {
            &self.enemy
        }
    }

    /// The player with identity `id`: the local player if the identity is
    /// theirs, the opponent otherwise.
    pub open spec fn by_id(&self, id: u64) -> &Player {
        if self.me.id == id {
            &self.me
        } else {
            &self.enemy
        }
    }

    /// The player with identity `id`: the local player if the identity is
    /// theirs, the opponent otherwise.
    pub fn get(&self, id: u64) -> (player: &Player)
        ensures
            player == self.by_id(id),
    {
        if self.me.id == id {
            &self.me
        } else {
            &self.enemy
        }
    }

    /// The player with identity `id`, for changing.
    pub fn get_mut(&mut self, id: u64) -> (player: &mut Player)
        ensures
            old(self).me.id == id ==> *player == old(self).me && final(self).me == *final(player)
                && final(self).enemy == old(self).enemy,
            old(self).me.id != id ==> *player == old(self).enemy && final(self).me == old(self).me
                && final(self).enemy == *final(player),
    {
        if self.me.id == id {
            &mut self.me
        } else {
            &mut self.enemy
        }
    }

    /// The player whose team has `color`: the local player if the colour is
    /// theirs, the opponent otherwise.
    pub fn get_by_color(&self, color: PlayerColor) -> (player: &Player)
        ensures
            player == self.by_color(color),
    {
        if self.me.color == color {
            &self.me
        } else {
            &self.enemy
        }
    }

    /// The player on `side`: the local player if the side is theirs, the
    /// opponent otherwise.
    pub fn get_by_side(&self, side: Side) -> (player: &Player)
        ensures
            player == self.by_side(side),
    {
        if self.me.side == side {
            &self.me
        } else {
            &self.enemy
        }
    }

    /// Lets the time of the tick pass for the local player's wait between
    /// two changes of strategy.
    pub fn update_strategy_timer(&mut self, tick: &Tick)
        ensures
            final(self).me.strategy_timer == old(self).me.strategy_timer.ticked(
                tick.spec_scaled_delta() as u64,
            ),
            final(self).me.queue == old(self).me.queue,
            final(self).me.id == old(self).me.id,
            final(self).me.color == old(self).me.color,
            final(self).me.side == old(self).me.side,
            final(self).me.direction == old(self).me.direction,
            final(self).me.strategy == old(self).me.strategy,
            final(self).me.boosts == old(self).me.boosts,
            final(self).me.queue_default == old(self).me.queue_default,
            final(self).enemy == old(self).enemy,
    {
        let delta: u64 = tick.scaled_delta();
        self.me.strategy_timer.tick(delta);
    }

    /// Both players, the local one first.
    pub fn iter(&self) -> (both: Vec<&Player>)
        ensures
            both@.len() == 2,
            *both@[0] == self.me,
            *both@[1] == self.enemy,
    {
        let mut both: Vec<&Player> = Vec::new();
        both.push(&self.me);
        both.push(&self.enemy);
        both
    }

    /// Both players, the local one first, for changing.
    pub fn iter_mut(&mut self) -> (both: (&mut Player, &mut Player))
        ensures
            *both.0 == old(self).me,
            *both.1 == old(self).enemy,
            final(self).me == *final(both.0),
            final(self).enemy == *final(both.1),
    {
        (&mut self.me, &mut self.enemy)
    }
}

} // verus!
