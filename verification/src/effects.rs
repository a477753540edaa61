//! What the surrounding game has to do after the session handled an event:
//! the hooks into rendering, sound and the local player.

use vstd::prelude::*;

verus! {

/// One thing for the surrounding game to do.
#[derive(Clone, Copy, Debug, PartialEq, Eq, Structural)]
pub enum Effect {
    /// The sender's mirror died at this position: show an explosion.
    Explosion { x: u32, y: u32 },
    /// The sender's mirror lost its weapon at this position.
    Disarmed { x: u32, y: u32 },
    /// The sender's mirror took up a weapon of this type.
    WeaponPicked { item_type: u64 },
    /// The sender's mirror fired.
    RemoteShot,
    /// A participant left whose mirror stood at this position.
    PeerDestroyed { x: u32, y: u32 },
    /// The local player was hit and falls in this direction.
    LocalKilled { direction: bool },
    /// The object mirrored under this identifier was replaced: destroy the
    /// old one.
    PickupReplaced { id: u32 },
    /// An object is mirrored under this identifier: show it.
    PickupSpawned { id: u32 },
    /// The object mirrored under this identifier is gone: destroy it.
    PickupRemoved { id: u32 },
}

/// An effect together with the place, in the tick's deliveries, of the
/// delivery that asked for it.
#[derive(Clone, Copy, Debug, PartialEq, Eq, Structural)]
pub struct Tagged {
    pub event: usize,
    pub effect: Effect,
}

/// Effects tagged with the place of their delivery.
pub open spec fn tagged(event: int, effects: Seq<Effect>) -> Seq<Tagged> {
    effects.map_values(|effect: Effect| Tagged { event: event as usize, effect })
}

/// Tags the effects of the delivery at place `event`.
pub fn tag_all(event: usize, effects: &Vec<Effect>) -> (r: Vec<Tagged>)
    ensures
        r@ == tagged(event as int, effects@),
{
    let mut r: Vec<Tagged> = Vec::new();
    let mut i: usize = 0;
    while i < effects.len()
        invariant
            i <= effects.len(),
            r@.len() == i,
            forall|j: int| 0 <= j < i ==> r@[j] == (Tagged { event, effect: effects@[j] }),
        decreases effects.len() - i,
    {
        r.push(Tagged { event, effect: effects[i] });
        i = i + 1;
    }
    assert(r@ =~= tagged(event as int, effects@));
    r
}

} // verus!
