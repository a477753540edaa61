//! What a client and the relay server say to each other: the handshake that
//! opens a connection, and the messages after it.

use vstd::prelude::*;
use crate::wire::DecodeError;
use crate::wire::le_u16;
use crate::wire::le_u32;
use crate::wire::le_u64;
use crate::wire::le_len;
use crate::wire::u16_le;
use crate::wire::u32_le;
use crate::wire::u64_le;
use crate::wire::de_u8;
use crate::wire::de_u16;
use crate::wire::de_u32;
use crate::wire::de_u64;
use crate::wire::de_usize;
use crate::wire::ser_u8;
use crate::wire::ser_u16;
use crate::wire::ser_u32;
use crate::wire::ser_u64;
use crate::wire::ser_usize;

verus! {

/// The constant that a handshake of this protocol starts with.
pub const MAGIC: u64 = 16727391561867853824;

/// The protocol version spoken.
pub const PROTOCOL_VERSION: u32 = 2;

/// The first message of a connection.
#[derive(Clone, Copy, Debug, PartialEq, Eq, Structural)]
pub struct Handshake {
    pub magic: u64,
    pub version: u32,
}

impl Handshake {
    /// The payload: `magic` and `version`, each little-endian.
    pub open spec fn wire(self) -> Seq<u8> {
        u64_le(self.magic as nat) + u32_le(self.version as nat)
    }

    /// What a payload holds: the two fields in its first twelve bytes.
    pub open spec fn parse(b: Seq<u8>) -> Result<Handshake, DecodeError> {
        if b.len() < 12 {
            Err(DecodeError::Truncated)
        } else {
            Ok(Handshake { magic: le_u64(b, 0) as u64, version: le_u32(b, 8) as u32 })
        }
    }

    /// Whether the handshake is that of this protocol in this version.
    pub open spec fn accepted(self) -> bool {
        self.magic == MAGIC && self.version == PROTOCOL_VERSION
    }

    /// The handshake that a client of this version sends.
    pub fn current() -> (r: Handshake)
        ensures
            r.accepted(),
    {
        Handshake { magic: MAGIC, version: PROTOCOL_VERSION }
    }

    /// Whether the handshake is accepted: see [`Handshake::accepted`].
    pub fn is_accepted(&self) -> (r: bool)
        ensures
            r == self.accepted(),
    {
        self.magic == MAGIC && self.version == PROTOCOL_VERSION
    }

    /// Writes the payload.
    pub fn serialize_bin(&self) -> (out: Vec<u8>)
        ensures
            out@ == self.wire(),
    {
        let mut out: Vec<u8> = Vec::new();
        ser_u64(self.magic, &mut out);
        ser_u32(self.version, &mut out);
        out
    }

    /// Reads a payload. Bytes after the twelfth are ignored.
    pub fn deserialize_bin(bytes: &[u8]) -> (r: Result<Handshake, DecodeError>)
        ensures
            r == Handshake::parse(bytes@),
    {
        let mut offset: usize = 0;
        let magic = match de_u64(&mut offset, bytes) {
            Ok(v) => v,
            Err(_) => {
                return Err(DecodeError::Truncated);
            },
        };
        let version = match de_u32(&mut offset, bytes) {
            Ok(v) => v,
            Err(_) => {
                return Err(DecodeError::Truncated);
            },
        };
        Ok(Handshake { magic, version })
    }
}

/// What was written for a handshake is read back as the same handshake.
pub proof fn lemma_handshake_roundtrip(h: Handshake)
    ensures
        Handshake::parse(h.wire()) == Ok::<Handshake, DecodeError>(h),
{
    let b = h.wire();
    assert(b.len() == 12);
    assert(le_u64(b, 0) == h.magic);
    assert(le_u32(b, 8) == h.version);
}

/// A message after the handshake.
#[derive(Clone, Debug, PartialEq, Eq)]
pub enum Message {
    /// A client moved to this position.
    Move(u16, u8),
    /// The positions of the other players.
    Players(Vec<(u16, u8)>),
    /// A client asks to be put into the world.
    SpawnRequest,
    /// The server put the client into the world under this number.
    Spawned(usize),
}

/// A [`Message`] as contracts see it.
pub enum MessageView {
    Move(u16, u8),
    Players(Seq<(u16, u8)>),
    SpawnRequest,
    Spawned(usize),
}

impl View for Message {
    type V = MessageView;

    open spec fn view(&self) -> MessageView {
        match *self {
            Message::Move(x, y) => MessageView::Move(x, y),
            Message::Players(v) => MessageView::Players(v@),
            Message::SpawnRequest => MessageView::SpawnRequest,
            Message::Spawned(id) => MessageView::Spawned(id),
        }
    }
}

/// The bytes of a list of positions: for each, `x` in two bytes and `y` in
/// one.
pub open spec fn players_wire(players: Seq<(u16, u8)>) -> Seq<u8>
    decreases players.len(),
{
    if players.len() == 0 {
        Seq::empty()
    } else {
        players_wire(players.drop_last()) + u16_le(players.last().0 as nat).push(players.last().1)
    }
}

/// The position that stands at index `i` of a list that starts at byte 10.
pub open spec fn player_at(b: Seq<u8>, i: int) -> (u16, u8) {
    (le_u16(b, 10 + 3 * i) as u16, b[10 + 3 * i + 2])
}

impl Message {
    /// The payload: the variant's number in two bytes, then its fields. A
    /// list is its length in eight bytes, then its items.
    pub open spec fn wire(m: MessageView) -> Seq<u8> {
        match m {
            MessageView::Move(x, y) => (u16_le(0) + u16_le(x as nat)).push(y),
            MessageView::Players(v) => u16_le(1) + u64_le(v.len()) + players_wire(v),
            MessageView::SpawnRequest => u16_le(2),
            MessageView::Spawned(id) => u16_le(3) + u64_le(id as nat),
        }
    }

    /// What a payload holds. Bytes after the message are ignored.
    pub open spec fn parse(b: Seq<u8>) -> Result<MessageView, DecodeError> {
        if b.len() < 2 {
            Err(DecodeError::Truncated)
        } else if le_u16(b, 0) == 0 {
            if b.len() < 5 {
                Err(DecodeError::Truncated)
            } else {
                Ok(MessageView::Move(le_u16(b, 2) as u16, b[4]))
            }
        } else if le_u16(b, 0) == 1 {
            if b.len() < 10 || 10 + 3 * le_len(b, 2) > b.len() {
                Err(DecodeError::Truncated)
            } else {
                Ok(MessageView::Players(Seq::new(le_len(b, 2), |i: int| player_at(b, i))))
            }
        } else if le_u16(b, 0) == 2 {
            Ok(MessageView::SpawnRequest)
        } else if le_u16(b, 0) == 3 {
            if b.len() < 10 {
                Err(DecodeError::Truncated)
            } else {
                Ok(MessageView::Spawned(le_len(b, 2) as usize))
            }
        } else {
            Err(DecodeError::BadVariant)
        }
    }

    /// Writes the payload.
    pub fn serialize_bin(&self) -> (out: Vec<u8>)
        ensures
            out@ == Message::wire(self@),
    {
        let mut out: Vec<u8> = Vec::new();
        match self {
            Message::Move(x, y) => {
                ser_u16(0, &mut out);
                ser_u16(*x, &mut out);
                ser_u8(*y, &mut out);
            },
            Message::Players(players) => {
                ser_u16(1, &mut out);
                ser_usize(players.len(), &mut out);
                let ghost head = out@;
                let mut i: usize = 0;
                assert(players@.take(0) =~= Seq::<(u16, u8)>::empty());
                while i < players.len()
                    invariant
                        i <= players.len(),
                        out@ == head + players_wire(players@.take(i as int)),
                    decreases players.len() - i,
                {
                    let (x, y) = players[i];
                    ser_u16(x, &mut out);
                    ser_u8(y, &mut out);
                    proof {
                        let upto = players@.take(i + 1);
                        assert(upto.drop_last() =~= players@.take(i as int));
                        assert(upto.last() == players@[i as int]);
                        assert(out@ =~= head + players_wire(upto));
                    }
                    i = i + 1;
                }
                assert(players@.take(players.len() as int) =~= players@);
            },
            Message::SpawnRequest => {
                ser_u16(2, &mut out);
            },
            Message::Spawned(id) => {
                ser_u16(3, &mut out);
                ser_usize(*id, &mut out);
            },
        }
        out
    }

    /// Reads a payload.
    pub fn deserialize_bin(bytes: &[u8]) -> (r: Result<Message, DecodeError>)
        ensures
            r is Ok ==> Message::parse(bytes@) == Ok::<MessageView, DecodeError>(r->Ok_0@),
            r is Err ==> Message::parse(bytes@) == Err::<MessageView, DecodeError>(r->Err_0),
    {
        let mut offset: usize = 0;
        let tag = match de_u16(&mut offset, bytes) {
            Ok(v) => v,
            Err(_) => {
                return Err(DecodeError::Truncated);
            },
        };
        if tag == 0 {
            let x = match de_u16(&mut offset, bytes) {
                Ok(v) => v,
                Err(_) => {
                    return Err(DecodeError::Truncated);
                },
            };
            let y = match de_u8(&mut offset, bytes) {
                Ok(v) => v,
                Err(_) => {
                    return Err(DecodeError::Truncated);
                },
            };
            Ok(Message::Move(x, y))
        } else if tag == 1 {
            let len = match de_usize(&mut offset, bytes) {
                Ok(v) => v,
                Err(_) => {
                    return Err(DecodeError::Truncated);
                },
            };
            if len > (bytes.len() - 10) / 3 {
                return Err(DecodeError::Truncated);
            }
            let mut players: Vec<(u16, u8)> = Vec::new();
            let mut i: usize = 0;
            while i < len
                invariant
                    i <= len,
                    len == le_len(bytes@, 2),
                    10 + 3 * len <= bytes@.len(),
                    offset == 10 + 3 * i,
                    players@.len() == i,
                    forall|j: int| 0 <= j < i ==> players@[j] == player_at(bytes@, j),
                decreases len - i,
            {
                let x = match de_u16(&mut offset, bytes) {
                    Ok(v) => v,
                    Err(_) => {
                        return Err(DecodeError::Truncated);
                    },
                };
                let y = match de_u8(&mut offset, bytes) {
                    Ok(v) => v,
                    Err(_) => {
                        return Err(DecodeError::Truncated);
                    },
                };
                players.push((x, y));
                i = i + 1;
            }
            assert(players@ =~= Seq::new(le_len(bytes@, 2), |i: int| player_at(bytes@, i)));
            Ok(Message::Players(players))
        } else if tag == 2 {
            Ok(Message::SpawnRequest)
        } else if tag == 3 {
            match de_usize(&mut offset, bytes) {
                Ok(id) => Ok(Message::Spawned(id)),
                Err(_) => Err(DecodeError::Truncated),
            }
        } else {
            Err(DecodeError::BadVariant)
        }
    }
}

} // verus!
