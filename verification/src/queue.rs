//! The production queues: requests come in at the back, and the request at
//! the front counts down until its unit is ready.

use vstd::prelude::*;
use crate::constants::MAX_QUEUE_LENGTH;
use crate::player::{Player, Players, QueuedUnit};
use crate::spawn::SpawnUnitMsg;
use crate::time::Tick;
use crate::units::UnitName;

verus! {

/// A request to queue a unit of class `unit` for the player `id`.
#[derive(Clone, Copy, Debug, PartialEq, Eq, Structural)]
pub struct QueueUnitMsg {
    pub id: u64,
    pub unit: UnitName,
}

impl QueueUnitMsg {
    pub fn new(id: u64, unit: UnitName) -> (msg: QueueUnitMsg)
        ensures
            msg == (QueueUnitMsg { id, unit }),
    {
        QueueUnitMsg { id, unit }
    }
}

/// The sound that answers a request of a person who plays.
#[derive(Clone, Copy, Debug, PartialEq, Eq, Structural)]
pub enum Cue {
    /// The request was taken.
    Button,
    /// The request was turned down.
    Error,
}

impl Cue {
    /// The name under which the sound is kept.
    pub fn name(&self) -> (name: &'static str)
        ensures
            name@ == match self {
                Cue::Button => "button"@,
                Cue::Error => "error"@,
            },
    {
        match self {
            Cue::Button => "button",
            Cue::Error => "error",
        }
    }
}

/// The queue after a request for `unit`: with the request at the back,
/// counting down the production time of the class, if there was room, and
/// unchanged if there was none.
pub open spec fn spec_enqueued(queue: Seq<QueuedUnit>, unit: UnitName) -> Seq<QueuedUnit> {
    if queue.len() < MAX_QUEUE_LENGTH {
        queue.push(QueuedUnit::fresh(unit))
    } else {
        queue
    }
}

/// Puts a request for `unit` at the back of the player's queue if the queue
/// has room, and tells whether it did.
pub fn enqueue(player: &mut Player, unit: UnitName) -> (taken: bool)
    ensures
        taken == (old(player).queue@.len() < MAX_QUEUE_LENGTH),
        final(player).queue@ == spec_enqueued(old(player).queue@, unit),
        old(player).wf() ==> final(player).wf(),
        !taken ==> final(player).queue@.len() == old(player).queue@.len(),
        final(player).same_but_queue(old(player)),
{
    if player.queue.len() < MAX_QUEUE_LENGTH {
        player.queue.push_back(QueuedUnit::for_unit(unit));
        true
    } else {
        false
    }
}

/// The sound that answers a request: none for a computer player, and for a
/// person the one that tells whether the request was taken.
pub open spec fn spec_cue(human: bool, taken: bool) -> Option<Cue> {
    if !human {
        None
    } else if taken {
        Some(Cue::Button)
    } else {
        Some(Cue::Error)
    }
}

/// Handles a queue request: the unit is queued for the player that the
/// request names if that player's queue has room. The result is the sound
/// that answers the request.
pub fn queue_message(players: &mut Players, msg: QueueUnitMsg) -> (cue: Option<Cue>)
    ensures
        old(players).me.id == msg.id ==> {
            &&& final(players).me.queue@ == spec_enqueued(old(players).me.queue@, msg.unit)
            &&& final(players).enemy.queue@ == old(players).enemy.queue@
            &&& cue == spec_cue(
                old(players).me.spec_is_human(),
                old(players).me.queue@.len() < MAX_QUEUE_LENGTH,
            )
        },
        old(players).me.id != msg.id ==> {
            &&& final(players).enemy.queue@ == spec_enqueued(old(players).enemy.queue@, msg.unit)
            &&& final(players).me.queue@ == old(players).me.queue@
            &&& cue == spec_cue(
                old(players).enemy.spec_is_human(),
                old(players).enemy.queue@.len() < MAX_QUEUE_LENGTH,
            )
        },
        old(players).wf() ==> final(players).wf(),
        final(players).me.same_but_queue(&old(players).me),
        final(players).enemy.same_but_queue(&old(players).enemy),
{
    if players.me.id == msg.id {
        let human: bool = players.me.is_human();
        let taken: bool = enqueue(&mut players.me, msg.unit);
        if !human {
            None
        } else if taken {
            Some(Cue::Button)
        } else {
            Some(Cue::Error)
        }
    } else {
        let human: bool = players.enemy.is_human();
        let taken: bool = enqueue(&mut players.enemy, msg.unit);
        if !human {
            None
        } else if taken {
            Some(Cue::Button)
        } else {
            Some(Cue::Error)
        }
    }
}

/// Whether the request at the front of `queue` is ready after `delta` more
/// microseconds.
pub open spec fn spec_head_ready(queue: Seq<QueuedUnit>, delta: u64) -> bool {
    queue.len() > 0 && queue[0].timer.finishes_in(delta)
}

/// The queue after `delta` more microseconds: only the request at the front
/// counts down; once it is ready it leaves the queue, and the one behind it
/// begins its own countdown with the next tick.
pub open spec fn spec_queue_ticked(queue: Seq<QueuedUnit>, delta: u64) -> Seq<QueuedUnit> {
    if queue.len() == 0 {
        queue
    } else if queue[0].timer.finishes_in(delta) {
        queue.drop_first()
    } else {
        queue.update(0, QueuedUnit { unit: queue[0].unit, timer: queue[0].timer.ticked(delta) })
    }
}

/// Advances the player's queue by `delta` microseconds of simulated time and
/// returns the request for the unit that became ready, if one did.
pub fn tick_queue(player: &mut Player, delta: u64) -> (ready: Option<SpawnUnitMsg>)
    ensures
        final(player).queue@ == spec_queue_ticked(old(player).queue@, delta),
        ready == if spec_head_ready(old(player).queue@, delta) {
            Some(
                SpawnUnitMsg {
                    color: old(player).color,
                    unit: old(player).queue@[0].unit,
                    position: None,
                    on_building: None,
                    lane: None,
                    dust_effect: false,
                    entity: None,
                },
            )
        } else {
            None
        },
        old(player).wf() ==> final(player).wf(),
        final(player).queue@.len() <= old(player).queue@.len(),
        final(player).same_but_queue(old(player)),
{
    match player.queue.pop_front() {
        Some(mut head) => {
            if head.timer.tick(delta) {
                assert(player.queue@ =~= old(player).queue@.drop_first());
                Some(SpawnUnitMsg::new(player.color, head.unit))
            } else {
                player.queue.push_front(head);
                assert(player.queue@ =~= old(player).queue@.update(0, head));
                None
            }
        },
        None => None,
    }
}

/// Advances both production queues through the tick and returns the requests
/// for the units that became ready, the local player's first.
pub fn resolve_queue(players: &mut Players, tick: &Tick) -> (ready: Vec<SpawnUnitMsg>)
    ensures
        final(players).me.queue@ == spec_queue_ticked(
            old(players).me.queue@,
            tick.spec_scaled_delta() as u64,
        ),
        final(players).enemy.queue@ == spec_queue_ticked(
            old(players).enemy.queue@,
            tick.spec_scaled_delta() as u64,
        ),
        ready@ == (if spec_head_ready(old(players).me.queue@, tick.spec_scaled_delta() as u64) {
            seq![SpawnUnitMsg {
                color: old(players).me.color,
                unit: old(players).me.queue@[0].unit,
                position: None,
                on_building: None,
                lane: None,
                dust_effect: false,
                entity: None,
            }]
        } else {
            Seq::empty()
        }) + (if spec_head_ready(old(players).enemy.queue@, tick.spec_scaled_delta() as u64) {
            seq![SpawnUnitMsg {
                color: old(players).enemy.color,
                unit: old(players).enemy.queue@[0].unit,
                position: None,
                on_building: None,
                lane: None,
                dust_effect: false,
                entity: None,
            }]
        } else {
            Seq::empty()
        }),
        old(players).wf() ==> final(players).wf(),
        final(players).me.same_but_queue(&old(players).me),
        final(players).enemy.same_but_queue(&old(players).enemy),
{
    let delta: u64 = tick.scaled_delta();
    let mut ready: Vec<SpawnUnitMsg> = Vec::new();
    match tick_queue(&mut players.me, delta) {
        Some(msg) => {
            ready.push(msg);
        },
        None => {},
    }
    let ghost first = ready@;
    match tick_queue(&mut players.enemy, delta) {
        Some(msg) => {
            ready.push(msg);
            assert(ready@ =~= first + seq![msg]);
        },
        None => {
            assert(ready@ =~= first + Seq::<SpawnUnitMsg>::empty());
        },
    }
    ready
}

/// A queue that is within its capacity stays within it, whatever is requested
/// and however much time passes, and a request to a full queue leaves its
/// length as it is.
pub proof fn lemma_queue_bounded(queue: Seq<QueuedUnit>, unit: UnitName, delta: u64)
    requires
        queue.len() <= MAX_QUEUE_LENGTH,
    ensures
        spec_enqueued(queue, unit).len() <= MAX_QUEUE_LENGTH,
        spec_queue_ticked(queue, delta).len() <= MAX_QUEUE_LENGTH,
        queue.len() == MAX_QUEUE_LENGTH ==> spec_enqueued(queue, unit) == queue,
{
}

} // verus!
