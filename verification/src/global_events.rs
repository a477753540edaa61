//! The host's side of the shared objects: when to spawn one, under which
//! identifier, and when an avatar is near enough to claim one.

use vstd::prelude::*;
use crate::cache::elapsed;
use crate::message::SpawnItem;
use crate::pickups::Pickup;
use crate::pickups::PickupTable;

verus! {

/// The least time between two spawns, in microseconds.
pub const SPAWN_INTERVAL_MICROS: u64 = 2_000_000;

/// How many objects may be live at once.
pub const MAX_LIVE_ITEMS: usize = 3;

/// How long an object waits to be claimed before it goes away, in
/// microseconds.
pub const PICKUP_LIFETIME_MICROS: u64 = 10_000_000;

/// The distance below which an avatar claims an object.
pub const CLAIM_DISTANCE: u64 = 90;

/// What the host remembers between spawns.
#[derive(Clone, Copy, Debug, PartialEq, Eq, Structural)]
pub struct GlobalEvents {
    /// When the last object was spawned.
    pub last_spawn_time: u64,
    /// The identifier that the next object gets.
    pub uid: u32,
}

/// A spawn is due for the host of a started match when the interval has
/// passed since the last spawn, fewer objects are live than may be, and an
/// identifier is left.
pub open spec fn spawn_due(
    events: GlobalEvents,
    live: Map<u32, Pickup>,
    now: u64,
    is_host: bool,
    game_started: bool,
) -> bool {
    &&& is_host
    &&& game_started
    &&& elapsed(events.last_spawn_time, now) >= SPAWN_INTERVAL_MICROS
    &&& live.len() < MAX_LIVE_ITEMS
    &&& events.uid < u32::MAX
}

/// Whether an avatar at `(px, py)` is within claiming distance of an object
/// at `(ox, oy)`. The distance is taken between the avatar's centre, 16 to
/// the right of and 32 below its position, and the object's centre, 16 to
/// the right of and 16 below its position.
pub open spec fn claims(px: u32, py: u32, ox: u16, oy: u16) -> bool {
    (px - ox) * (px - ox) + (py + 16 - oy) * (py + 16 - oy) < CLAIM_DISTANCE * CLAIM_DISTANCE
}

/// Whether an avatar at `(px, py)` claims an object at `(ox, oy)`: see
/// [`claims`].
pub fn in_claim_range(px: u32, py: u32, ox: u16, oy: u16) -> (r: bool)
    ensures
        r == claims(px, py, ox, oy),
{
    let dx: u64 = if px >= ox as u32 {
        (px - ox as u32) as u64
    } else {
        (ox as u32 - px) as u64
    };
    let py16: u64 = py as u64 + 16;
    let dy: u64 = if py16 >= oy as u64 {
        py16 - oy as u64
    } else {
        oy as u64 - py16
    };
    proof {
        assert(dx * dx == (px - ox) * (px - ox)) by (nonlinear_arith)
            requires
                dx == px - ox || dx == ox - px,
        ;
        assert(dy * dy == (py + 16 - oy) * (py + 16 - oy)) by (nonlinear_arith)
            requires
                dy == py + 16 - oy || dy == oy - (py + 16),
        ;
        assert(dx >= 90 ==> dx * dx >= 8100) by (nonlinear_arith);
        assert(dy >= 90 ==> dy * dy >= 8100) by (nonlinear_arith);
        assert(dx * dx >= 0 && dy * dy >= 0) by (nonlinear_arith);
    }
    if dx >= CLAIM_DISTANCE || dy >= CLAIM_DISTANCE {
        return false;
    }
    proof {
        assert(dx * dx < 8100) by (nonlinear_arith)
            requires
                dx < 90,
        ;
        assert(dy * dy < 8100) by (nonlinear_arith)
            requires
                dy < 90,
        ;
    }
    dx * dx + dy * dy < CLAIM_DISTANCE * CLAIM_DISTANCE
}

/// Whether an object that appeared at `spawned_at` has waited out its
/// lifetime at time `now`.
pub fn pickup_expired(spawned_at: u64, now: u64) -> (r: bool)
    ensures
        r == (elapsed(spawned_at, now) >= PICKUP_LIFETIME_MICROS),
{
    now >= spawned_at && now - spawned_at >= PICKUP_LIFETIME_MICROS
}

impl GlobalEvents {
    /// The host's memory at the start of a match: nothing spawned, and the
    /// first object will get identifier 1.
    pub fn new() -> (r: GlobalEvents)
        ensures
            r == (GlobalEvents { last_spawn_time: 0, uid: 1 }),
    {
        GlobalEvents { last_spawn_time: 0, uid: 1 }
    }

    /// Whether a spawn is due: see [`spawn_due`].
    pub fn should_spawn(
        &self,
        live: &PickupTable,
        now: u64,
        is_host: bool,
        game_started: bool,
    ) -> (r: bool)
        ensures
            r == spawn_due(*self, live@, now, is_host, game_started),
    {
        is_host && game_started && now >= self.last_spawn_time && now - self.last_spawn_time
            >= SPAWN_INTERVAL_MICROS && live.len() < MAX_LIVE_ITEMS && self.uid < u32::MAX
    }

    /// Spawns an object of kind `item_type` at `(x, y)` if a spawn is due.
    /// The object gets the next identifier, is mirrored locally, and its
    /// announcement is returned. Where no spawn is due nothing changes.
    pub fn spawn(
        &mut self,
        live: &mut PickupTable,
        now: u64,
        is_host: bool,
        game_started: bool,
        x: u16,
        y: u16,
        item_type: u64,
    ) -> (r: Option<SpawnItem>)
        ensures
            r is Some == spawn_due(*old(self), old(live)@, now, is_host, game_started),
            r is Some ==> {
                &&& r->Some_0 == (SpawnItem { id: old(self).uid, x, y, item_type })
                &&& *final(self) == (GlobalEvents {
                    last_spawn_time: now,
                    uid: (old(self).uid + 1) as u32,
                })
                &&& final(live)@ == old(live)@.insert(old(self).uid, Pickup { x, y, item_type })
            },
            r is None ==> *final(self) == *old(self) && final(live)@ == old(live)@,
    {
        if !self.should_spawn(live, now, is_host, game_started) {
            return None;
        }
        let id = self.uid;
        live.spawn(id, Pickup::new(x, y, item_type));
        self.last_spawn_time = now;
        self.uid = self.uid + 1;
        Some(SpawnItem { id, x, y, item_type })
    }
}

} // verus!
