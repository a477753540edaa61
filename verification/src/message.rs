//! The messages that peers exchange, each with its opcode and the binary
//! shape of its payload.

use vstd::prelude::*;
use vstd::slice::slice_subrange;
use vstd::utf8::valid_utf8;
use vstd::utf8::decode_utf8;
use vstd::utf8::encode_utf8;
use vstd::utf8::encode_utf8_decode_utf8;
use vstd::utf8::encode_utf8_valid_utf8;
use crate::wire::DecodeError;
use crate::wire::le_u16;
use crate::wire::le_u32;
use crate::wire::le_u64;
use crate::wire::le_len;
use crate::wire::u16_le;
use crate::wire::u32_le;
use crate::wire::u64_le;
use crate::wire::bool_byte;
use crate::wire::string_wire;
use crate::wire::lemma_le_u64_prefix;
use crate::wire::de_u16;
use crate::wire::de_u32;
use crate::wire::de_u64;
use crate::wire::de_usize;
use crate::wire::de_bool;
use crate::wire::de_string;
use crate::wire::de_bytes11;
use crate::wire::is_utf8;
use crate::wire::ser_u16;
use crate::wire::ser_u32;
use crate::wire::ser_u64;
use crate::wire::ser_bool;
use crate::wire::ser_string;
use crate::wire::ser_bytes11;

verus! {

/// A peer's packed snapshot.
#[derive(Clone, Copy, Debug)]
pub struct State(pub [u8; 11]);

impl State {
    pub const OPCODE: i32 = 1;

    /// The payload: the eleven bytes as they are.
    pub open spec fn wire(self) -> Seq<u8> {
        self.0@
    }

    /// What a payload holds: its first eleven bytes.
    pub open spec fn parse(b: Seq<u8>) -> Result<Seq<u8>, DecodeError> {
        if b.len() < 11 {
            Err(DecodeError::Truncated)
        } else {
            Ok(b.subrange(0, 11))
        }
    }

    /// Writes the payload.
    pub fn serialize_bin(&self) -> (out: Vec<u8>)
        ensures
            out@ == self.wire(),
    {
        let mut out: Vec<u8> = Vec::new();
        ser_bytes11(&self.0, &mut out);
        out
    }

    /// Reads a payload. Bytes after the eleventh are ignored.
    pub fn deserialize_bin(bytes: &[u8]) -> (r: Result<State, DecodeError>)
        ensures
            r is Ok ==> State::parse(bytes@) == Ok::<Seq<u8>, DecodeError>(r->Ok_0.0@),
            r is Err ==> State::parse(bytes@) == Err::<Seq<u8>, DecodeError>(r->Err_0),
    {
        let mut offset: usize = 0;
        match de_bytes11(&mut offset, bytes) {
            Ok(data) => Ok(State(data)),
            Err(_) => Err(DecodeError::Truncated),
        }
    }
}

/// A shared object appears: sent by the host.
#[derive(Clone, Copy, Debug, PartialEq, Eq, Structural)]
pub struct SpawnItem {
    pub id: u32,
    pub x: u16,
    pub y: u16,
    pub item_type: u64,
}

impl SpawnItem {
    pub const OPCODE: i32 = 4;

    /// The payload: `id`, `x`, `y` and `item_type`, each little-endian.
    pub open spec fn wire(self) -> Seq<u8> {
        u32_le(self.id as nat) + u16_le(self.x as nat) + u16_le(self.y as nat) + u64_le(
            self.item_type as nat,
        )
    }

    /// What a payload holds: the four fields in its first sixteen bytes.
    pub open spec fn parse(b: Seq<u8>) -> Result<SpawnItem, DecodeError> {
        if b.len() < 16 {
            Err(DecodeError::Truncated)
        } else {
            Ok(
                SpawnItem {
                    id: le_u32(b, 0) as u32,
                    x: le_u16(b, 4) as u16,
                    y: le_u16(b, 6) as u16,
                    item_type: le_u64(b, 8) as u64,
                },
            )
        }
    }

    /// Writes the payload.
    pub fn serialize_bin(&self) -> (out: Vec<u8>)
        ensures
            out@ == self.wire(),
    {
        let mut out: Vec<u8> = Vec::new();
        ser_u32(self.id, &mut out);
        ser_u16(self.x, &mut out);
        ser_u16(self.y, &mut out);
        ser_u64(self.item_type, &mut out);
        out
    }

    /// Reads a payload. Bytes after the sixteenth are ignored.
    pub fn deserialize_bin(bytes: &[u8]) -> (r: Result<SpawnItem, DecodeError>)
        ensures
            r == SpawnItem::parse(bytes@),
    {
        let mut offset: usize = 0;
        let id = match de_u32(&mut offset, bytes) {
            Ok(v) => v,
            Err(_) => {
                return Err(DecodeError::Truncated);
            },
        };
        let x = match de_u16(&mut offset, bytes) {
            Ok(v) => v,
            Err(_) => {
                return Err(DecodeError::Truncated);
            },
        };
        let y = match de_u16(&mut offset, bytes) {
            Ok(v) => v,
            Err(_) => {
                return Err(DecodeError::Truncated);
            },
        };
        let item_type = match de_u64(&mut offset, bytes) {
            Ok(v) => v,
            Err(_) => {
                return Err(DecodeError::Truncated);
            },
        };
        Ok(SpawnItem { id, x, y, item_type })
    }
}

/// A shared object is gone: sent by whoever claimed it.
#[derive(Clone, Copy, Debug, PartialEq, Eq, Structural)]
pub struct DeleteItem {
    pub id: u32,
}

impl DeleteItem {
    pub const OPCODE: i32 = 5;

    /// The payload: `id`, little-endian.
    pub open spec fn wire(self) -> Seq<u8> {
        u32_le(self.id as nat)
    }

    /// What a payload holds: the identifier in its first four bytes.
    pub open spec fn parse(b: Seq<u8>) -> Result<DeleteItem, DecodeError> {
        if b.len() < 4 {
            Err(DecodeError::Truncated)
        } else {
            Ok(DeleteItem { id: le_u32(b, 0) as u32 })
        }
    }

    /// Writes the payload.
    pub fn serialize_bin(&self) -> (out: Vec<u8>)
        ensures
            out@ == self.wire(),
    {
        let mut out: Vec<u8> = Vec::new();
        ser_u32(self.id, &mut out);
        out
    }

    /// Reads a payload. Bytes after the fourth are ignored.
    pub fn deserialize_bin(bytes: &[u8]) -> (r: Result<DeleteItem, DecodeError>)
        ensures
            r == DeleteItem::parse(bytes@),
    {
        let mut offset: usize = 0;
        match de_u32(&mut offset, bytes) {
            Ok(id) => Ok(DeleteItem { id }),
            Err(_) => Err(DecodeError::Truncated),
        }
    }
}

/// A peer was hit: `target` names the victim, `direction` the way it falls.
#[derive(Clone, Debug, PartialEq, Eq)]
pub struct Damage {
    pub target: String,
    pub direction: bool,
}

/// A [`Damage`] as contracts see it.
pub struct DamageView {
    pub target: Seq<char>,
    pub direction: bool,
}

impl View for Damage {
    type V = DamageView;

    open spec fn view(&self) -> DamageView {
        DamageView { target: self.target@, direction: self.direction }
    }
}

impl Damage {
    pub const OPCODE: i32 = 2;

    /// The payload: the target as a length-prefixed string, then one byte
    /// for the direction.
    pub open spec fn wire(v: DamageView) -> Seq<u8> {
        string_wire(encode_utf8(v.target)).push(bool_byte(v.direction))
    }

    /// Where the target's text ends in a payload: after the eight bytes of
    /// the length and as many bytes as they announce.
    pub open spec fn text_end(b: Seq<u8>) -> int {
        8 + le_len(b, 0) as int
    }

    /// What a payload holds. The length prefix, the text and the direction
    /// byte must all be there, and the text must be UTF-8.
    pub open spec fn parse(b: Seq<u8>) -> Result<DamageView, DecodeError> {
        if b.len() < 8 || Damage::text_end(b) > b.len() {
            Err(DecodeError::Truncated)
        } else if !valid_utf8(b.subrange(8, Damage::text_end(b))) {
            Err(DecodeError::BadText)
        } else if Damage::text_end(b) + 1 > b.len() {
            Err(DecodeError::Truncated)
        } else {
            Ok(
                DamageView {
                    target: decode_utf8(b.subrange(8, Damage::text_end(b))),
                    direction: b[Damage::text_end(b)] != 0,
                },
            )
        }
    }

    /// Writes the payload.
    pub fn serialize_bin(&self) -> (out: Vec<u8>)
        ensures
            out@ == Damage::wire(self@),
    {
        let mut out: Vec<u8> = Vec::new();
        ser_string(&self.target, &mut out);
        ser_bool(self.direction, &mut out);
        out
    }

    /// Reads a payload. Bytes after the direction byte are ignored.
    pub fn deserialize_bin(bytes: &[u8]) -> (r: Result<Damage, DecodeError>)
        ensures
            r is Ok ==> Damage::parse(bytes@) == Ok::<DamageView, DecodeError>(r->Ok_0@),
            r is Err ==> Damage::parse(bytes@) == Err::<DamageView, DecodeError>(r->Err_0),
    {
        let mut probe: usize = 0;
        let len = match de_usize(&mut probe, bytes) {
            Ok(v) => v,
            Err(_) => {
                return Err(DecodeError::Truncated);
            },
        };
        if len > bytes.len() - 8 {
            return Err(DecodeError::Truncated);
        }
        if !is_utf8(slice_subrange(bytes, 8, 8 + len)) {
            return Err(DecodeError::BadText);
        }
        let mut offset: usize = 0;
        let target = match de_string(&mut offset, bytes) {
            Ok(v) => v,
            Err(_) => {
                return Err(DecodeError::Truncated);
            },
        };
        let direction = match de_bool(&mut offset, bytes) {
            Ok(v) => v,
            Err(_) => {
                return Err(DecodeError::Truncated);
            },
        };
        proof {
            encode_utf8_decode_utf8(target@);
        }
        Ok(Damage { target, direction })
    }
}

/// The sender is ready for the match to start. No payload.
#[derive(Clone, Copy, Debug, PartialEq, Eq, Structural)]
pub struct Ready;

impl Ready {
    pub const OPCODE: i32 = 6;
}

/// The sender is alive. No payload.
#[derive(Clone, Copy, Debug, PartialEq, Eq, Structural)]
pub struct Idle;

impl Idle {
    pub const OPCODE: i32 = 7;
}

/// The host starts the match. No payload.
#[derive(Clone, Copy, Debug, PartialEq, Eq, Structural)]
pub struct StartGame;

impl StartGame {
    pub const OPCODE: i32 = 8;
}

/// A decoded message of a known kind.
#[derive(Clone, Debug)]
pub enum Packet {
    State(State),
    Damage(Damage),
    SpawnItem(SpawnItem),
    DeleteItem(DeleteItem),
    Ready,
    Idle,
    StartGame,
}

/// A [`Packet`] as contracts see it.
pub enum PacketView {
    State(Seq<u8>),
    Damage(DamageView),
    SpawnItem(SpawnItem),
    DeleteItem(DeleteItem),
    Ready,
    Idle,
    StartGame,
}

impl View for Packet {
    type V = PacketView;

    open spec fn view(&self) -> PacketView {
        match *self {
            Packet::State(m) => PacketView::State(m.0@),
            Packet::Damage(m) => PacketView::Damage(m@),
            Packet::SpawnItem(m) => PacketView::SpawnItem(m),
            Packet::DeleteItem(m) => PacketView::DeleteItem(m),
            Packet::Ready => PacketView::Ready,
            Packet::Idle => PacketView::Idle,
            Packet::StartGame => PacketView::StartGame,
        }
    }
}

/// Whether an opcode names a message of this protocol.
pub open spec fn known_opcode(opcode: i32) -> bool {
    opcode == 1 || opcode == 2 || opcode == 4 || opcode == 5 || opcode == 6 || opcode == 7
        || opcode == 8
}

/// What an opcode and a payload stand for: a message, nothing where the
/// opcode is not known, or the reason why the payload is malformed. The
/// messages without a payload accept any bytes.
pub open spec fn parse_packet(opcode: i32, b: Seq<u8>) -> Result<Option<PacketView>, DecodeError> {
    if opcode == 1 {
        match State::parse(b) {
            Ok(m) => Ok(Some(PacketView::State(m))),
            Err(e) => Err(e),
        }
    } else if opcode == 2 {
        match Damage::parse(b) {
            Ok(m) => Ok(Some(PacketView::Damage(m))),
            Err(e) => Err(e),
        }
    } else if opcode == 4 {
        match SpawnItem::parse(b) {
            Ok(m) => Ok(Some(PacketView::SpawnItem(m))),
            Err(e) => Err(e),
        }
    } else if opcode == 5 {
        match DeleteItem::parse(b) {
            Ok(m) => Ok(Some(PacketView::DeleteItem(m))),
            Err(e) => Err(e),
        }
    } else if opcode == 6 {
        Ok(Some(PacketView::Ready))
    } else if opcode == 7 {
        Ok(Some(PacketView::Idle))
    } else if opcode == 8 {
        Ok(Some(PacketView::StartGame))
    } else {
        Ok(None)
    }
}

/// Decodes an inbound message by its opcode. An unknown opcode is no error:
/// it gives `Ok(None)`.
pub fn decode(opcode: i32, data: &[u8]) -> (r: Result<Option<Packet>, DecodeError>)
    ensures
        match r {
            Ok(Some(p)) => parse_packet(opcode, data@) == Ok::<Option<PacketView>, DecodeError>(
                Some(p@),
            ),
            Ok(None) => parse_packet(opcode, data@) == Ok::<Option<PacketView>, DecodeError>(None),
            Err(e) => parse_packet(opcode, data@) == Err::<Option<PacketView>, DecodeError>(e),
        },
        !known_opcode(opcode) ==> r == Ok::<Option<Packet>, DecodeError>(None),
{
    if opcode == State::OPCODE {
        match State::deserialize_bin(data) {
            Ok(m) => Ok(Some(Packet::State(m))),
            Err(e) => Err(e),
        }
    } else if opcode == Damage::OPCODE {
        match Damage::deserialize_bin(data) {
            Ok(m) => Ok(Some(Packet::Damage(m))),
            Err(e) => Err(e),
        }
    } else if opcode == SpawnItem::OPCODE {
        match SpawnItem::deserialize_bin(data) {
            Ok(m) => Ok(Some(Packet::SpawnItem(m))),
            Err(e) => Err(e),
        }
    } else if opcode == DeleteItem::OPCODE {
        match DeleteItem::deserialize_bin(data) {
            Ok(m) => Ok(Some(Packet::DeleteItem(m))),
            Err(e) => Err(e),
        }
    } else if opcode == Ready::OPCODE {
        Ok(Some(Packet::Ready))
    } else if opcode == Idle::OPCODE {
        Ok(Some(Packet::Idle))
    } else if opcode == StartGame::OPCODE {
        Ok(Some(Packet::StartGame))
    } else {
        Ok(None)
    }
}

/// A message ready for the transport.
#[derive(Clone, Debug, PartialEq, Eq)]
pub struct Outgoing {
    pub opcode: i32,
    pub data: Vec<u8>,
}

/// What was written for a spawn or a delete is read back as the same
/// message.
pub proof fn lemma_item_messages_roundtrip(spawn: SpawnItem, delete: DeleteItem)
    ensures
        SpawnItem::parse(spawn.wire()) == Ok::<SpawnItem, DecodeError>(spawn),
        DeleteItem::parse(delete.wire()) == Ok::<DeleteItem, DecodeError>(delete),
{
    let b = spawn.wire();
    assert(b.len() == 16);
    assert(le_u32(b, 0) == spawn.id);
    assert(le_u16(b, 4) == spawn.x);
    assert(le_u16(b, 6) == spawn.y);
    assert(le_u64(b, 8) == spawn.item_type);
    let d = delete.wire();
    assert(d.len() == 4);
    assert(le_u32(d, 0) == delete.id);
}

/// What was written for a snapshot is read back as the same eleven bytes.
pub proof fn lemma_state_roundtrip(m: State)
    ensures
        State::parse(m.wire()) == Ok::<Seq<u8>, DecodeError>(m.0@),
{
    assert(m.0@.subrange(0, 11) =~= m.0@);
}

/// The shape of a written hit: the length prefix announces the text, the
/// text follows it, and the direction byte comes last.
proof fn lemma_damage_wire_shape(text: Seq<u8>, direction: bool)
    requires
        text.len() <= usize::MAX,
    ensures
        ({
            let b = string_wire(text).push(bool_byte(direction));
            &&& b.len() == 8 + text.len() + 1
            &&& Damage::text_end(b) == 8 + text.len()
            &&& b.subrange(8, Damage::text_end(b)) == text
            &&& b[Damage::text_end(b)] == bool_byte(direction)
        }),
{
    let n = text.len();
    let framed = string_wire(text);
    let b = framed.push(bool_byte(direction));
    lemma_le_u64_prefix(n, text);
    assert(framed.len() == 8 + n);
    assert(b[0] == framed[0] && b[1] == framed[1] && b[2] == framed[2] && b[3] == framed[3]);
    assert(b[4] == framed[4] && b[5] == framed[5] && b[6] == framed[6] && b[7] == framed[7]);
    assert(le_u64(b, 0) == le_u64(framed, 0));
    assert(le_len(b, 0) == n);
    assert(b.subrange(8, 8 + n as int) =~= text);
}

/// What was written for a hit is read back as the same message, for a
/// target whose byte length fits a `usize`.
pub proof fn lemma_damage_roundtrip(v: DamageView)
    requires
        encode_utf8(v.target).len() <= usize::MAX,
    ensures
        Damage::parse(Damage::wire(v)) == Ok::<DamageView, DecodeError>(v),
{
    lemma_damage_wire_shape(encode_utf8(v.target), v.direction);
    encode_utf8_valid_utf8(v.target);
    encode_utf8_decode_utf8(v.target);
}

} // verus!
