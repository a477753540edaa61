//! The basic weapons, a gun and a sword, as state machines that are advanced
//! once per tick and say what the game has to do.
//!
//! Time is a count of microseconds from any fixed start.

use std::collections::HashMap;
use vstd::prelude::*;
use crate::plugin_api::ItemInstanceId;
use crate::plugin_api::ItemType;

verus! {

broadcast use vstd::std_specs::hash::group_hash_axioms;

/// The item type of the gun.
pub const GUN: u64 = 9868317461196439167;

/// The item type of the sword.
pub const SWORD: u64 = 11238048715746880612;

/// How many shots a gun holds.
pub const GUN_AMMO: u32 = 3;

/// How long a shot or a swing takes, in microseconds.
pub const RECOVERY_MICROS: u64 = 240_000;

/// A sound of the basic weapons.
#[derive(Clone, Copy, Debug, PartialEq, Eq, Structural)]
pub enum Sound {
    Shoot,
    Sword,
}

/// One thing that a weapon asks of the game.
#[derive(Clone, Copy, Debug, PartialEq, Eq, Structural)]
pub enum GameAction {
    /// A bullet leaves the holder.
    SpawnBullet,
    /// The sword's blade hits what stands before the holder.
    SwordHit,
    /// Shows or hides the muzzle flash.
    SetSpriteFx(bool),
    /// The gun throws its holder back.
    Throwback,
    /// Plays this animation of the weapon.
    SetSpriteAnimation(u32),
    /// The holder drops the weapon.
    Disarm,
    /// Plays a sound once.
    PlaySoundOnce(Sound),
    /// Tells the other participants of the shot.
    NakamaShoot,
}

/// A gun: its shots left, and until when the current shot lasts.
#[derive(Clone, Copy, Debug, PartialEq, Eq, Structural)]
pub struct GunState {
    pub recovery_time: Option<u64>,
    pub ammo: u32,
}

/// A sword: until when the current swing lasts.
#[derive(Clone, Copy, Debug, PartialEq, Eq, Structural)]
pub struct SwordState {
    pub recovery_time: Option<u64>,
}

/// The state of one item.
#[derive(Clone, Copy, Debug, PartialEq, Eq, Structural)]
pub enum ItemState {
    Gun(GunState),
    Sword(SwordState),
}

impl Default for GunState {
    /// A loaded gun at rest.
    fn default() -> (r: GunState)
        ensures
            r == (GunState { recovery_time: None, ammo: 3 }),
    {
        GunState { recovery_time: None, ammo: 3 }
    }
}

impl Default for SwordState {
    /// A sword at rest.
    fn default() -> (r: SwordState)
        ensures
            r == (SwordState { recovery_time: None }),
    {
        SwordState { recovery_time: None }
    }
}

/// When an action that starts at `now` is over.
pub open spec fn recovery_end(now: u64) -> u64 {
    if now + RECOVERY_MICROS <= u64::MAX {
        (now + RECOVERY_MICROS) as u64
    } else {
        u64::MAX
    }
}

/// The item can be used by its holder: a gun at rest has a shot left.
pub open spec fn usable(state: ItemState) -> bool {
    state matches ItemState::Gun(g) ==> g.recovery_time is Some || g.ammo > 0
}

/// What a tick at time `now` does to an item in its holder's hands: the
/// state after it, whether the action is over, and what it asks.
///
/// A gun at rest fires: it loses a shot and recovers for a while. A gun
/// that has recovered comes to rest, and is dropped when it is empty. A
/// sword at rest starts a swing; while it swings the blade hits; after the
/// swing it comes to rest.
pub open spec fn shoot_step(state: ItemState, now: u64) -> (ItemState, bool, Seq<GameAction>) {
    match state {
        ItemState::Gun(g) => match g.recovery_time {
            Some(time) => if time <= now {
                (
                    ItemState::Gun(GunState { recovery_time: None, ammo: g.ammo }),
                    true,
                    if g.ammo == 0 {
                        seq![
                            GameAction::SetSpriteAnimation(0),
                            GameAction::SetSpriteFx(false),
                            GameAction::Disarm,
                        ]
                    } else {
                        seq![GameAction::SetSpriteAnimation(0), GameAction::SetSpriteFx(false)]
                    },
                )
            } else {
                (state, false, Seq::empty())
            },
            None => (
                ItemState::Gun(
                    GunState { recovery_time: Some(recovery_end(now)), ammo: (g.ammo - 1) as u32 },
                ),
                false,
                seq![
                    GameAction::PlaySoundOnce(Sound::Shoot),
                    GameAction::SpawnBullet,
                    GameAction::NakamaShoot,
                    GameAction::SetSpriteFx(true),
                    GameAction::Throwback,
                    GameAction::SetSpriteAnimation(1),
                ],
            ),
        },
        ItemState::Sword(s) => match s.recovery_time {
            Some(time) => if time <= now {
                (
                    ItemState::Sword(SwordState { recovery_time: None }),
                    true,
                    seq![GameAction::SetSpriteAnimation(0)],
                )
            } else {
                (
                    state,
                    false,
                    seq![
                        GameAction::NakamaShoot,
                        GameAction::PlaySoundOnce(Sound::Sword),
                        GameAction::SwordHit,
                    ],
                )
            },
            None => (
                ItemState::Sword(SwordState { recovery_time: Some(recovery_end(now)) }),
                false,
                seq![GameAction::SetSpriteAnimation(1)],
            ),
        },
    }
}

/// What a tick at time `now` does to an item in the hands of a mirrored
/// participant who fired: a gun just fires, and a sword swings as in its
/// holder's hands but hits nothing.
pub open spec fn remote_shoot_step(state: ItemState, now: u64) -> (
    ItemState,
    bool,
    Seq<GameAction>,
) {
    match state {
        ItemState::Gun(_) => (
            state,
            true,
            seq![GameAction::SpawnBullet, GameAction::PlaySoundOnce(Sound::Shoot)],
        ),
        ItemState::Sword(s) => match s.recovery_time {
            Some(time) => if time <= now {
                (
                    ItemState::Sword(SwordState { recovery_time: None }),
                    true,
                    seq![GameAction::SetSpriteAnimation(0)],
                )
            } else {
                (state, false, Seq::empty())
            },
            None => (
                ItemState::Sword(SwordState { recovery_time: Some(recovery_end(now)) }),
                false,
                seq![
                    GameAction::PlaySoundOnce(Sound::Sword),
                    GameAction::SetSpriteAnimation(1),
                ],
            ),
        },
    }
}

/// When an action that starts at `now` is over: see [`recovery_end`].
fn recovery_from(now: u64) -> (r: u64)
    ensures
        r == recovery_end(now),
{
    if now <= u64::MAX - RECOVERY_MICROS {
        now + RECOVERY_MICROS
    } else {
        u64::MAX
    }
}

impl ItemState {
    /// Advances the item in its holder's hands: see [`shoot_step`].
    pub fn update_shoot(&mut self, now: u64) -> (r: (bool, Vec<GameAction>))
        requires
            usable(*old(self)),
        ensures
            *final(self) == shoot_step(*old(self), now).0,
            r.0 == shoot_step(*old(self), now).1,
            r.1@ == shoot_step(*old(self), now).2,
    {
        let mut actions: Vec<GameAction> = Vec::new();
        let done = match *self {
            ItemState::Gun(g) => match g.recovery_time {
                Some(time) => {
                    if time <= now {
                        actions.push(GameAction::SetSpriteAnimation(0));
                        actions.push(GameAction::SetSpriteFx(false));
                        if g.ammo == 0 {
                            actions.push(GameAction::Disarm);
                        }
                        *self = ItemState::Gun(GunState { recovery_time: None, ammo: g.ammo });
                        true
                    } else {
                        false
                    }
                },
                None => {
                    actions.push(GameAction::PlaySoundOnce(Sound::Shoot));
                    actions.push(GameAction::SpawnBullet);
                    actions.push(GameAction::NakamaShoot);
                    actions.push(GameAction::SetSpriteFx(true));
                    actions.push(GameAction::Throwback);
                    actions.push(GameAction::SetSpriteAnimation(1));
                    *self = ItemState::Gun(
                        GunState { recovery_time: Some(recovery_from(now)), ammo: g.ammo - 1 },
                    );
                    false
                },
            },
            ItemState::Sword(s) => match s.recovery_time {
                Some(time) => {
                    if time <= now {
                        actions.push(GameAction::SetSpriteAnimation(0));
                        *self = ItemState::Sword(SwordState { recovery_time: None });
                        true
                    } else {
                        actions.push(GameAction::NakamaShoot);
                        actions.push(GameAction::PlaySoundOnce(Sound::Sword));
                        actions.push(GameAction::SwordHit);
                        false
                    }
                },
                None => {
                    actions.push(GameAction::SetSpriteAnimation(1));
                    *self = ItemState::Sword(
                        SwordState { recovery_time: Some(recovery_from(now)) },
                    );
                    false
                },
            },
        };
        assert(actions@ =~= shoot_step(*old(self), now).2);
        (done, actions)
    }

    /// Advances the item in a mirror's hands: see [`remote_shoot_step`].
    pub fn update_remote_shoot(&mut self, now: u64) -> (r: (bool, Vec<GameAction>))
        ensures
            *final(self) == remote_shoot_step(*old(self), now).0,
            r.0 == remote_shoot_step(*old(self), now).1,
            r.1@ == remote_shoot_step(*old(self), now).2,
    {
        let mut actions: Vec<GameAction> = Vec::new();
        let done = match *self {
            ItemState::Gun(_) => {
                actions.push(GameAction::SpawnBullet);
                actions.push(GameAction::PlaySoundOnce(Sound::Shoot));
                true
            },
            ItemState::Sword(s) => match s.recovery_time {
                Some(time) => {
                    if time <= now {
                        actions.push(GameAction::SetSpriteAnimation(0));
                        *self = ItemState::Sword(SwordState { recovery_time: None });
                        true
                    } else {
                        false
                    }
                },
                None => {
                    actions.push(GameAction::PlaySoundOnce(Sound::Sword));
                    actions.push(GameAction::SetSpriteAnimation(1));
                    *self = ItemState::Sword(
                        SwordState { recovery_time: Some(recovery_from(now)) },
                    );
                    false
                },
            },
        };
        assert(actions@ =~= remote_shoot_step(*old(self), now).2);
        (done, actions)
    }
}

/// The items that exist, by instance number.
#[derive(Clone, Debug)]
pub struct Items {
    pub states: HashMap<u64, ItemState>,
}

impl View for Items {
    type V = Map<u64, ItemState>;

    open spec fn view(&self) -> Map<u64, ItemState> {
        self.states@
    }
}

/// The state of a new item of a type.
pub open spec fn fresh_item(item_type: u64) -> ItemState {
    if item_type == GUN {
        ItemState::Gun(GunState { recovery_time: None, ammo: 3 })
    } else {
        ItemState::Sword(SwordState { recovery_time: None })
    }
}

impl Items {
    /// No items.
    pub fn new() -> (r: Items)
        ensures
            r@ == Map::<u64, ItemState>::empty(),
    {
        Items { states: HashMap::new() }
    }

    /// Makes an item of a type under an instance number. The type must be
    /// that of the gun or of the sword.
    pub fn new_instance(&mut self, item_type: ItemType, item_id: ItemInstanceId)
        requires
            item_type.id == GUN || item_type.id == SWORD,
        ensures
            final(self)@ == old(self)@.insert(item_id.id, fresh_item(item_type.id)),
    {
        let state = if item_type.id == GUN {
            ItemState::Gun(GunState::default())
        } else {
            ItemState::Sword(SwordState::default())
        };
        self.states.insert(item_id.id, state);
    }

    /// Forgets an item.
    pub fn destroy_instance(&mut self, item_id: ItemInstanceId)
        ensures
            final(self)@ == old(self)@.remove(item_id.id),
    {
        self.states.remove(&item_id.id);
    }

    /// The state of an item.
    pub fn get(&self, item_id: ItemInstanceId) -> (r: Option<ItemState>)
        ensures
            r == (if self@.contains_key(item_id.id) {
                Some(self@[item_id.id])
            } else {
                None
            }),
    {
        match self.states.get(&item_id.id) {
            Some(s) => Some(*s),
            None => None,
        }
    }

    /// For a gun, the shots left and the shots it holds when full; for
    /// anything else, nothing.
    pub fn uses_remaining(&self, item_id: ItemInstanceId) -> (r: Option<(u32, u32)>)
        ensures
            r == (if self@.contains_key(item_id.id) {
                match self@[item_id.id] {
                    ItemState::Gun(g) => Some((g.ammo, GUN_AMMO)),
                    ItemState::Sword(_) => None,
                }
            } else {
                None
            }),
    {
        match self.get(item_id) {
            Some(ItemState::Gun(g)) => Some((g.ammo, GUN_AMMO)),
            _ => None,
        }
    }

    /// Advances an item in its holder's hands and returns whether the
    /// action is over and what it asks. An item that does not exist is
    /// done at once.
    pub fn update_shoot(&mut self, item_id: ItemInstanceId, now: u64) -> (r: (
        bool,
        Vec<GameAction>,
    ))
        requires
            old(self)@.contains_key(item_id.id) ==> usable(old(self)@[item_id.id]),
        ensures
            !old(self)@.contains_key(item_id.id) ==> final(self)@ == old(self)@ && r.0 && r.1@
                == Seq::<GameAction>::empty(),
            old(self)@.contains_key(item_id.id) ==> {
                let step = shoot_step(old(self)@[item_id.id], now);
                &&& final(self)@ == old(self)@.insert(item_id.id, step.0)
                &&& r.0 == step.1
                &&& r.1@ == step.2
            },
    {
        match self.get(item_id) {
            Some(state) => {
                let mut state = state;
                let r = state.update_shoot(now);
                self.states.insert(item_id.id, state);
                r
            },
            None => (true, Vec::new()),
        }
    }

    /// Advances an item in a mirror's hands and returns whether the action
    /// is over and what it asks. An item that does not exist is done at
    /// once.
    pub fn update_remote_shoot(&mut self, item_id: ItemInstanceId, now: u64) -> (r: (
        bool,
        Vec<GameAction>,
    ))
        ensures
            !old(self)@.contains_key(item_id.id) ==> final(self)@ == old(self)@ && r.0 && r.1@
                == Seq::<GameAction>::empty(),
            old(self)@.contains_key(item_id.id) ==> {
                let step = remote_shoot_step(old(self)@[item_id.id], now);
                &&& final(self)@ == old(self)@.insert(item_id.id, step.0)
                &&& r.0 == step.1
                &&& r.1@ == step.2
            },
    {
        match self.get(item_id) {
            Some(state) => {
                let mut state = state;
                let r = state.update_remote_shoot(now);
                self.states.insert(item_id.id, state);
                r
            },
            None => (true, Vec::new()),
        }
    }
}

} // verus!
