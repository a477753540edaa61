//! Identifiers and descriptions that the game and its item plugins share.

use vstd::prelude::*;

verus! {

/// The kind of an item.
#[derive(Clone, Copy, Debug, PartialEq, Eq, Hash, Structural)]
pub struct ItemType {
    pub id: u64,
}

impl ItemType {
    /// The item type with this number.
    pub fn new(id: u64) -> (r: ItemType)
        ensures
            r.id == id,
    {
        ItemType { id }
    }

    /// What a snapshot carries for a weapon: its type's number, or 0 for
    /// none.
    pub fn weapon_code(weapon: Option<ItemType>) -> (r: u64)
        ensures
            r == (match weapon {
                Some(t) => t.id,
                None => 0,
            }),
    {
        match weapon {
            Some(t) => t.id,
            None => 0,
        }
    }
}

impl From<ItemType> for u64 {
    /// The item type's number.
    fn from(item_type: ItemType) -> (r: u64) {
        item_type.id
    }
}

impl vstd::std_specs::convert::FromSpecImpl<ItemType> for u64 {
    open spec fn obeys_from_spec() -> bool {
        true
    }

    open spec fn from_spec(item_type: ItemType) -> u64 {
        item_type.id
    }
}

impl From<u64> for ItemType {
    /// The item type with this number.
    fn from(id: u64) -> (r: ItemType) {
        ItemType { id }
    }
}

impl vstd::std_specs::convert::FromSpecImpl<u64> for ItemType {
    open spec fn obeys_from_spec() -> bool {
        true
    }

    open spec fn from_spec(id: u64) -> ItemType {
        ItemType { id }
    }
}

/// One item in the world.
#[derive(Clone, Copy, Debug, PartialEq, Eq, Hash, Structural)]
pub struct ItemInstanceId {
    pub id: u64,
}

impl ItemInstanceId {
    /// The instance with this number.
    pub fn new(id: u64) -> (r: ItemInstanceId)
        ensures
            r.id == id,
    {
        ItemInstanceId { id }
    }
}

/// A plugin.
#[derive(Clone, Copy, Debug, PartialEq, Eq, Hash, Structural)]
pub struct PluginId {
    pub id: u64,
}

impl PluginId {
    /// The plugin with this number.
    pub fn new(id: u64) -> (r: PluginId)
        ensures
            r.id == id,
    {
        PluginId { id }
    }
}

/// A sound that a plugin brings.
#[derive(Clone, Debug, PartialEq, Eq)]
pub struct SoundDescription {
    pub name: String,
    pub bytes: Vec<u8>,
}

/// An image that a plugin brings.
#[derive(Clone, Debug, PartialEq, Eq)]
pub struct ImageDescription {
    pub bytes: Vec<u8>,
    pub width: u16,
    pub height: u16,
}

/// A sprite sheet and its animations.
#[derive(Clone, Debug, PartialEq, Eq)]
pub struct AnimatedSpriteDescription {
    pub tile_width: u32,
    pub tile_height: u32,
    pub animations: Vec<AnimationDescription>,
    pub playing: bool,
}

/// One animation of a sprite sheet.
#[derive(Clone, Debug, PartialEq, Eq)]
pub struct AnimationDescription {
    pub name: String,
    pub row: u32,
    pub frames: u32,
    pub fps: u32,
}

/// Hands out item instance identifiers, counting up from 1.
#[derive(Clone, Copy, Debug)]
pub struct ItemIdSource(pub u64);

impl Default for ItemIdSource {
    /// A source whose first identifier is 1.
    fn default() -> (r: ItemIdSource)
        ensures
            r.0 == 1,
    {
        ItemIdSource(1)
    }
}

impl ItemIdSource {
    /// The next identifier. The counter must not be used up.
    pub fn next_id(&mut self) -> (r: ItemInstanceId)
        requires
            old(self).0 < u64::MAX,
        ensures
            r.id == old(self).0,
            final(self).0 == old(self).0 + 1,
    {
        let new_id = self.0;
        self.0 = self.0 + 1;
        ItemInstanceId { id: new_id }
    }
}

} // verus!
