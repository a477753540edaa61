//! The relay server's side of a connection: the handshake, the request to
//! be spawned, and the moves after it.

use vstd::prelude::*;
use crate::shared::Handshake;
use crate::shared::Message;
use crate::shared::MessageView;

verus! {

/// The players of the relay, by the number each was spawned under. A
/// player who left stays as an empty place.
#[derive(Clone, Debug, PartialEq, Eq)]
pub struct World {
    pub players: Vec<Option<(u16, u8)>>,
    pub unique_id: usize,
}

/// How far a connection has come.
#[derive(Clone, Copy, Debug, PartialEq, Eq, Structural)]
pub enum ClientState {
    /// Nothing received yet: a handshake is expected.
    Unknown,
    /// The handshake was accepted: a spawn request is expected.
    Connected,
    /// The client is in the world under this number: moves are expected.
    Spawned { id: usize },
}

impl Default for ClientState {
    fn default() -> (r: ClientState)
        ensures
            r == ClientState::Unknown,
    {
        ClientState::Unknown
    }
}

/// What the server does after a message.
#[derive(Clone, Debug, PartialEq, Eq)]
pub enum Outcome {
    /// The connection is closed.
    Disconnect,
    /// The message was taken; nothing is answered.
    Accepted,
    /// The message was taken and this is answered.
    Reply(Message),
}

/// An [`Outcome`] as contracts see it.
pub enum OutcomeView {
    Disconnect,
    Accepted,
    Reply(MessageView),
}

impl View for Outcome {
    type V = OutcomeView;

    open spec fn view(&self) -> OutcomeView {
        match *self {
            Outcome::Disconnect => OutcomeView::Disconnect,
            Outcome::Accepted => OutcomeView::Accepted,
            Outcome::Reply(m) => OutcomeView::Reply(m@),
        }
    }
}

/// The next number to hand out is the number of places, and the client of
/// a connection in state `state` has its place in `world`.
pub open spec fn placed(state: ClientState, world: World) -> bool {
    &&& world.unique_id == world.players@.len()
    &&& state matches ClientState::Spawned { id } ==> id < world.players@.len()
}

/// What a message does to a connection and to the world, and what the
/// server does after it.
///
/// Before the handshake only a handshake with the right constant and
/// version is accepted. After it only a spawn request is: the client gets
/// the next number and an empty-handed place at the origin. Once spawned
/// only moves are, and each sets the client's position. Anything else,
/// and any payload that cannot be read, closes the connection and changes
/// nothing.
pub open spec fn handled(state: ClientState, world: World, msg: Seq<u8>) -> (
    ClientState,
    Seq<Option<(u16, u8)>>,
    int,
    OutcomeView,
) {
    let same = (state, world.players@, world.unique_id as int, OutcomeView::Disconnect);
    match state {
        ClientState::Unknown => match Handshake::parse(msg) {
            Ok(h) => if h.accepted() {
                (
                    ClientState::Connected,
                    world.players@,
                    world.unique_id as int,
                    OutcomeView::Accepted,
                )
            } else {
                same
            },
            Err(_) => same,
        },
        ClientState::Connected => match Message::parse(msg) {
            Ok(MessageView::SpawnRequest) => if world.unique_id < usize::MAX {
                (
                    ClientState::Spawned { id: world.unique_id },
                    world.players@.push(Some((0u16, 0u8))),
                    world.unique_id + 1,
                    OutcomeView::Reply(MessageView::Spawned(world.unique_id)),
                )
            } else {
                same
            },
            _ => same,
        },
        ClientState::Spawned { id } => match Message::parse(msg) {
            Ok(MessageView::Move(x, y)) => (
                state,
                world.players@.update(id as int, Some((x, y))),
                world.unique_id as int,
                OutcomeView::Accepted,
            ),
            _ => same,
        },
    }
}

/// Handles one message of a connection: see [`handled`].
pub fn handle_message(state: &mut ClientState, msg: &[u8], world: &mut World) -> (r: Outcome)
    requires
        placed(*old(state), *old(world)),
    ensures
        placed(*final(state), *final(world)),
        *final(state) == handled(*old(state), *old(world), msg@).0,
        final(world).players@ == handled(*old(state), *old(world), msg@).1,
        final(world).unique_id == handled(*old(state), *old(world), msg@).2,
        r@ == handled(*old(state), *old(world), msg@).3,
{
    match *state {
        ClientState::Unknown => {
            let handshake = match Handshake::deserialize_bin(msg) {
                Ok(h) => h,
                Err(_) => {
                    return Outcome::Disconnect;
                },
            };
            if !handshake.is_accepted() {
                return Outcome::Disconnect;
            }
            *state = ClientState::Connected;
            Outcome::Accepted
        },
        ClientState::Connected => {
            let message = match Message::deserialize_bin(msg) {
                Ok(m) => m,
                Err(_) => {
                    return Outcome::Disconnect;
                },
            };
            match message {
                Message::SpawnRequest => {
                    if world.unique_id == usize::MAX {
                        return Outcome::Disconnect;
                    }
                    let id = world.unique_id;
                    world.players.push(Some((0, 0)));
                    world.unique_id = world.unique_id + 1;
                    *state = ClientState::Spawned { id };
                    Outcome::Reply(Message::Spawned(id))
                },
                _ => Outcome::Disconnect,
            }
        },
        ClientState::Spawned { id } => {
            let message = match Message::deserialize_bin(msg) {
                Ok(m) => m,
                Err(_) => {
                    return Outcome::Disconnect;
                },
            };
            match message {
                Message::Move(x, y) => {
                    world.players[id] = Some((x, y));
                    Outcome::Accepted
                },
                _ => Outcome::Disconnect,
            }
        },
    }
}

/// The positions that the client spawned under `id` is told of: those of
/// all others who are still there, in the order of their numbers.
pub open spec fn others_of(players: Seq<Option<(u16, u8)>>, id: int) -> Seq<(u16, u8)>
    decreases players.len(),
{
    if players.len() == 0 {
        Seq::empty()
    } else {
        let before = others_of(players.drop_last(), id);
        match players.last() {
            Some(p) => if players.len() - 1 != id {
                before.push(p)
            } else {
                before
            },
            None => before,
        }
    }
}

/// The message that the server sends a spawned client at each timer tick.
pub fn players_message(world: &World, id: usize) -> (r: Message)
    ensures
        r@ == MessageView::Players(others_of(world.players@, id as int)),
{
    let mut seen: Vec<(u16, u8)> = Vec::new();
    let mut n: usize = 0;
    assert(world.players@.take(0) =~= Seq::<Option<(u16, u8)>>::empty());
    while n < world.players.len()
        invariant
            n <= world.players.len(),
            seen@ == others_of(world.players@.take(n as int), id as int),
        decreases world.players.len() - n,
    {
        proof {
            let upto = world.players@.take(n + 1);
            assert(upto.drop_last() =~= world.players@.take(n as int));
            assert(upto.last() == world.players@[n as int]);
        }
        match world.players[n] {
            Some(p) => {
                if n != id {
                    seen.push(p);
                }
            },
            None => {},
        }
        n = n + 1;
    }
    assert(world.players@.take(world.players.len() as int) =~= world.players@);
    Message::Players(seen)
}

/// A connection was closed: a spawned client's place becomes empty.
pub fn disconnect(state: &ClientState, world: &mut World)
    requires
        placed(*state, *old(world)),
    ensures
        placed(*state, *final(world)),
        final(world).unique_id == old(world).unique_id,
        final(world).players@ == (match *state {
            ClientState::Spawned { id } => old(world).players@.update(id as int, None),
            _ => old(world).players@,
        }),
{
    match *state {
        ClientState::Spawned { id } => {
            world.players[id] = None;
        },
        _ => {},
    }
}

impl World {
    /// A world without players.
    pub fn new() -> (r: World)
        ensures
            r.players@ == Seq::<Option<(u16, u8)>>::empty(),
            r.unique_id == 0,
            placed(ClientState::Unknown, r),
    {
        World { players: Vec::new(), unique_id: 0 }
    }
}

} // verus!
