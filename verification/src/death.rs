//! What happens to the local player after a hit, as a state machine that is
//! advanced once per tick: the fish is knocked off its feet, lands, lies,
//! explodes and comes back at a spawn point.
//!
//! Time is a count of microseconds from any fixed start.

use vstd::prelude::*;

verus! {

/// How long a fish that was hit has to leave the ground, in microseconds.
pub const TAKE_OFF_MICROS: u64 = 100_000;

/// How long a fish lies before it explodes, and how long after the
/// explosion it comes back, in microseconds.
pub const REST_MICROS: u64 = 500_000;

/// Where the sequence stands.
#[derive(Clone, Copy, Debug, PartialEq, Eq, Structural)]
pub enum DeathPhase {
    /// Knocked away; until `until` the ground does not count.
    TakingOff { until: u64 },
    /// In the air, waiting to land.
    Airborne,
    /// On the ground until `until`.
    Lying { until: u64 },
    /// Exploded; gone until `until`.
    Exploded { until: u64 },
    /// The sequence is over.
    Over,
}

/// One thing that the sequence asks of the game.
#[derive(Clone, Copy, Debug, PartialEq, Eq, Structural)]
pub enum DeathAction {
    /// Mark the fish dead, throw it back and up, and show it falling.
    Knock,
    /// Stop the fish and show it lying.
    Land,
    /// Freeze the fish and show an explosion where it lies.
    Explode,
    /// Put the fish at a spawn point without its weapon.
    Respawn,
    /// Bring the fish back to life.
    Revive,
}

/// The time `span` after `now`, or the end of time.
pub open spec fn later(now: u64, span: u64) -> u64 {
    if now + span <= u64::MAX {
        (now + span) as u64
    } else {
        u64::MAX
    }
}

/// The phase after a tick at time `now`, and what the tick asks.
///
/// A fish that took off long enough ago, or is in the air, lands as soon
/// as it is on the ground. It lies for a while and explodes, and a while
/// later it is put at a spawn point; in a deathmatch it then lives again.
pub open spec fn death_step(phase: DeathPhase, now: u64, on_ground: bool, deathmatch: bool) -> (
    DeathPhase,
    Seq<DeathAction>,
) {
    match phase {
        DeathPhase::TakingOff { until } => if now < until {
            (phase, Seq::empty())
        } else if on_ground {
            (DeathPhase::Lying { until: later(now, REST_MICROS) }, seq![DeathAction::Land])
        } else {
            (DeathPhase::Airborne, Seq::empty())
        },
        DeathPhase::Airborne => if on_ground {
            (DeathPhase::Lying { until: later(now, REST_MICROS) }, seq![DeathAction::Land])
        } else {
            (phase, Seq::empty())
        },
        DeathPhase::Lying { until } => if now < until {
            (phase, Seq::empty())
        } else {
            (DeathPhase::Exploded { until: later(now, REST_MICROS) }, seq![DeathAction::Explode])
        },
        DeathPhase::Exploded { until } => if now < until {
            (phase, Seq::empty())
        } else if deathmatch {
            (DeathPhase::Over, seq![DeathAction::Respawn, DeathAction::Revive])
        } else {
            (DeathPhase::Over, seq![DeathAction::Respawn])
        },
        DeathPhase::Over => (phase, Seq::empty()),
    }
}

/// The time `span` after `now`: see [`later`].
fn after(now: u64, span: u64) -> (r: u64)
    ensures
        r == later(now, span),
{
    if now <= u64::MAX - span {
        now + span
    } else {
        u64::MAX
    }
}

impl DeathPhase {
    /// The local player was hit at time `now`: the sequence starts, and the
    /// fish is to be knocked away.
    pub fn begin(now: u64) -> (r: (DeathPhase, Vec<DeathAction>))
        ensures
            r.0 == (DeathPhase::TakingOff { until: later(now, TAKE_OFF_MICROS) }),
            r.1@ == seq![DeathAction::Knock],
    {
        let mut actions: Vec<DeathAction> = Vec::new();
        actions.push(DeathAction::Knock);
        (DeathPhase::TakingOff { until: after(now, TAKE_OFF_MICROS) }, actions)
    }

    /// Advances the sequence by one tick: see [`death_step`].
    pub fn update(&mut self, now: u64, on_ground: bool, deathmatch: bool) -> (actions: Vec<
        DeathAction,
    >)
        ensures
            *final(self) == death_step(*old(self), now, on_ground, deathmatch).0,
            actions@ == death_step(*old(self), now, on_ground, deathmatch).1,
    {
        let mut actions: Vec<DeathAction> = Vec::new();
        match *self {
            DeathPhase::TakingOff { until } => {
                if now >= until {
                    if on_ground {
                        actions.push(DeathAction::Land);
                        *self = DeathPhase::Lying { until: after(now, REST_MICROS) };
                    } else {
                        *self = DeathPhase::Airborne;
                    }
                }
            },
            DeathPhase::Airborne => {
                if on_ground {
                    actions.push(DeathAction::Land);
                    *self = DeathPhase::Lying { until: after(now, REST_MICROS) };
                }
            },
            DeathPhase::Lying { until } => {
                if now >= until {
                    actions.push(DeathAction::Explode);
                    *self = DeathPhase::Exploded { until: after(now, REST_MICROS) };
                }
            },
            DeathPhase::Exploded { until } => {
                if now >= until {
                    actions.push(DeathAction::Respawn);
                    if deathmatch {
                        actions.push(DeathAction::Revive);
                    }
                    *self = DeathPhase::Over;
                }
            },
            DeathPhase::Over => {},
        }
        assert(actions@ =~= death_step(*old(self), now, on_ground, deathmatch).1);
        actions
    }

    /// Whether the sequence is over.
    pub fn is_over(&self) -> (r: bool)
        ensures
            r == (*self == DeathPhase::Over),
    {
        match *self {
            DeathPhase::Over => true,
            _ => false,
        }
    }
}

} // verus!
