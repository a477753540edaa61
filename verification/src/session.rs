//! One participant's view of a match: its own identifier, the mirrors of the
//! others, the shared objects, the lobby flags and the send cache, and the
//! per-tick procedure that keeps them up to date.

use vstd::prelude::*;
use crate::cache::NetworkCache;
use crate::cache::CacheView;
use crate::cache::flushed_cache;
use crate::cache::cache_after_send;
use crate::cache::send_due;
use crate::codec::PlayerSnapshot;
use crate::codec::encode;
use crate::codec::decode;
use crate::codec::spec_encode;
use crate::codec::spec_decode;
use crate::effects::Effect;
use crate::effects::Tagged;
use crate::effects::tagged;
use crate::effects::tag_all;
use crate::global_events::claims;
use crate::global_events::in_claim_range;
use crate::host::spec_is_host;
use crate::ident::id_same;
use crate::message::Damage;
use crate::message::DamageView;
use crate::message::DeleteItem;
use crate::message::Idle;
use crate::message::Outgoing;
use crate::message::Packet;
use crate::message::PacketView;
use crate::message::Ready;
use crate::message::SpawnItem;
use crate::message::StartGame;
use crate::message::State;
use crate::message::known_opcode;
use crate::message::parse_packet;
use crate::nakama::Event;
use crate::nakama::EventView;
use crate::nakama::MatchData;
use crate::peers::PeerDirectory;
use crate::peers::RemotePlayerView;
use crate::peers::ids;
use crate::peers::joined;
use crate::peers::left;
use crate::peers::listed;
use crate::peers::mirror_after;
use crate::peers::place;
use crate::peers::sorted;
use crate::peers::state_effects;
use crate::peers::lemma_place_of_listed;
use crate::pickups::Pickup;
use crate::pickups::PickupTable;

verus! {

/// The rules of a match.
#[derive(Clone, Copy, Debug, PartialEq, Eq, Structural)]
pub enum GameType {
    /// No winner; the match starts at once and goes on.
    Deathmatch,
    /// The last one alive wins; the match starts from the lobby.
    LastFishStanding {
        /// Made for friends rather than by matchmaking.
        private: bool,
    },
}

/// Where the lobby handshake stands.
#[derive(Clone, Copy, Debug, PartialEq, Eq, Structural)]
pub enum LobbyState {
    WaitingForReady,
    Started,
}

/// What the game knows of the local player at a tick.
#[derive(Clone, Copy, Debug, PartialEq, Eq, Structural)]
pub struct LocalState {
    pub x: u32,
    pub y: u32,
    pub facing: bool,
    /// The item type held, 0 when unarmed.
    pub weapon: u64,
    pub dead: bool,
}

impl LocalState {
    /// The snapshot to broadcast, given whether a shot started this tick.
    pub open spec fn snapshot(self, shooting: bool) -> PlayerSnapshot {
        PlayerSnapshot {
            x: self.x,
            y: self.y,
            facing: self.facing,
            shooting,
            weapon: self.weapon,
            dead: self.dead,
        }
    }
}

/// Something the transport delivered.
#[derive(Clone, Debug, PartialEq, Eq)]
pub enum Inbound {
    Presence(Event),
    Data(MatchData),
}

/// An [`Inbound`] as contracts see it.
pub enum InboundView {
    Presence(EventView),
    Data { data: Seq<u8>, opcode: i32, user_id: Seq<char> },
}

impl View for Inbound {
    type V = InboundView;

    open spec fn view(&self) -> InboundView {
        match *self {
            Inbound::Presence(e) => InboundView::Presence(e@),
            Inbound::Data(m) => InboundView::Data {
                data: m.data@,
                opcode: m.opcode,
                user_id: m.user_id@,
            },
        }
    }
}

/// The views of a vector of deliveries.
pub open spec fn inbound_views(v: Seq<Inbound>) -> Seq<InboundView> {
    v.map_values(|e: Inbound| e@)
}

/// One participant's state of a match.
#[derive(Clone, Debug)]
pub struct NakamaRealtimeGame {
    pub game_type: GameType,
    pub game_started: bool,
    pub network_id: String,
    pub network_cache: NetworkCache,
    pub remote_players: PeerDirectory,
    pub pickups: PickupTable,
    pub shoot_pending: bool,
    pub ready: bool,
}

/// A [`NakamaRealtimeGame`] as contracts see it.
pub struct SessionView {
    pub game_type: GameType,
    pub game_started: bool,
    pub network_id: Seq<char>,
    pub network_cache: CacheView,
    pub remote_players: Seq<RemotePlayerView>,
    pub pickups: Map<u32, Pickup>,
    pub shoot_pending: bool,
    pub ready: bool,
}

impl View for NakamaRealtimeGame {
    type V = SessionView;

    open spec fn view(&self) -> SessionView {
        SessionView {
            game_type: self.game_type,
            game_started: self.game_started,
            network_id: self.network_id@,
            network_cache: self.network_cache@,
            remote_players: self.remote_players@,
            pickups: self.pickups@,
            shoot_pending: self.shoot_pending,
            ready: self.ready,
        }
    }
}

/// The mirrors are in order and none of them is the local participant.
pub open spec fn session_wf(v: SessionView) -> bool {
    sorted(v.remote_players) && !listed(v.remote_players, v.network_id)
}

/// The state at the start of a match: nobody else known, nothing mirrored,
/// not ready, the cache flushed. A deathmatch is started from the outset.
pub open spec fn initial(game_type: GameType, network_id: Seq<char>) -> SessionView {
    SessionView {
        game_type,
        game_started: game_type == GameType::Deathmatch,
        network_id,
        network_cache: flushed_cache(),
        remote_players: Seq::empty(),
        pickups: Map::empty(),
        shoot_pending: false,
        ready: false,
    }
}

/// The state after a participant joined. The local participant's own join
/// and that of a known participant change nothing; a new participant gets
/// a fresh mirror, and the cache is flushed so that it learns the local
/// state at once.
pub open spec fn after_join(v: SessionView, id: Seq<char>, username: Seq<char>) -> SessionView {
    if id == v.network_id || listed(v.remote_players, id) {
        v
    } else {
        SessionView {
            network_cache: flushed_cache(),
            remote_players: joined(v.remote_players, username, id),
            ..v
        }
    }
}

/// The state after a participant left, and what to do about it: its
/// mirror is removed and destroyed where it stood.
pub open spec fn after_leave(v: SessionView, id: Seq<char>) -> (SessionView, Seq<Effect>) {
    if listed(v.remote_players, id) {
        let gone = v.remote_players[place(v.remote_players, id)];
        (
            SessionView { remote_players: left(v.remote_players, id), ..v },
            seq![Effect::PeerDestroyed { x: gone.state.x, y: gone.state.y }],
        )
    } else {
        (v, Seq::empty())
    }
}

/// The state after a message of the participant mirrored at place `at`.
pub open spec fn after_packet(v: SessionView, at: int, p: PacketView) -> (
    SessionView,
    Seq<Effect>,
) {
    let sender = v.remote_players[at];
    match p {
        PacketView::State(bytes) => (
            SessionView {
                remote_players: v.remote_players.update(
                    at,
                    mirror_after(sender, spec_decode(bytes)),
                ),
                ..v
            },
            state_effects(sender, spec_decode(bytes)),
        ),
        PacketView::Damage(d) => (
            v,
            if d.target == v.network_id {
                seq![Effect::LocalKilled { direction: d.direction }]
            } else {
                Seq::empty()
            },
        ),
        PacketView::SpawnItem(m) => (
            SessionView {
                pickups: v.pickups.insert(
                    m.id,
                    Pickup { x: m.x, y: m.y, item_type: m.item_type },
                ),
                ..v
            },
            if v.pickups.contains_key(m.id) {
                seq![Effect::PickupReplaced { id: m.id }, Effect::PickupSpawned { id: m.id }]
            } else {
                seq![Effect::PickupSpawned { id: m.id }]
            },
        ),
        PacketView::DeleteItem(m) => (
            SessionView { pickups: v.pickups.remove(m.id), ..v },
            if v.pickups.contains_key(m.id) {
                seq![Effect::PickupRemoved { id: m.id }]
            } else {
                Seq::empty()
            },
        ),
        PacketView::Ready => (
            SessionView {
                remote_players: v.remote_players.update(
                    at,
                    RemotePlayerView { ready: true, ..sender },
                ),
                ..v
            },
            Seq::empty(),
        ),
        PacketView::Idle => (v, Seq::empty()),
        PacketView::StartGame => (SessionView { game_started: true, ..v }, Seq::empty()),
    }
}

/// The state after a message was received. A message of an unknown sender,
/// with an unknown opcode or with a malformed payload changes nothing and
/// asks nothing.
pub open spec fn after_data(v: SessionView, user_id: Seq<char>, opcode: i32, data: Seq<u8>) -> (
    SessionView,
    Seq<Effect>,
) {
    if !listed(v.remote_players, user_id) {
        (v, Seq::empty())
    } else {
        match parse_packet(opcode, data) {
            Ok(Some(p)) => after_packet(v, place(v.remote_players, user_id), p),
            _ => (v, Seq::empty()),
        }
    }
}

/// The state after one delivery.
pub open spec fn after_inbound(v: SessionView, e: InboundView) -> (SessionView, Seq<Effect>) {
    match e {
        InboundView::Presence(EventView::Join { network_id, username }) => (
            after_join(v, network_id, username),
            Seq::empty(),
        ),
        InboundView::Presence(EventView::Leave(id)) => after_leave(v, id),
        InboundView::Data { data, opcode, user_id } => after_data(v, user_id, opcode, data),
    }
}

/// The state after a sequence of deliveries, handled in their order, and
/// all that they ask, in that order, each tagged with the place of its
/// delivery.
pub open spec fn after_all(v: SessionView, events: Seq<InboundView>) -> (SessionView, Seq<Tagged>)
    decreases events.len(),
{
    if events.len() == 0 {
        (v, Seq::empty())
    } else {
        let before = after_all(v, events.drop_last());
        let step = after_inbound(before.0, events.last());
        (step.0, before.1 + tagged(events.len() - 1, step.1))
    }
}

/// The state after the sending half of a tick, and the snapshot to send if
/// one is due. The pending shot goes into the snapshot and forces it out.
pub open spec fn after_poll(v: SessionView, local: LocalState, now: u64) -> (
    SessionView,
    Option<Seq<u8>>,
) {
    let encoded = spec_encode(local.snapshot(v.shoot_pending));
    if send_due(v.network_cache, encoded, now, v.shoot_pending) {
        (
            SessionView {
                network_cache: cache_after_send(encoded, now),
                shoot_pending: false,
                ..v
            },
            Some(encoded),
        )
    } else {
        (SessionView { shoot_pending: false, ..v }, None)
    }
}

/// Every known participant is ready, there is at least one, and so is the
/// local one.
pub open spec fn all_ready(v: SessionView) -> bool {
    &&& v.ready
    &&& v.remote_players.len() > 0
    &&& forall|i: int| 0 <= i < v.remote_players.len() ==> (#[trigger] v.remote_players[i]).ready
}

/// Who is near enough to an object to claim it.
#[derive(Clone, Copy, Debug, PartialEq, Eq, Structural)]
pub enum Claimant {
    /// The local player.
    Local,
    /// A mirrored participant.
    Remote,
}

/// Whether some mirrored participant is within claiming distance of an
/// object.
pub open spec fn mirror_claims(players: Seq<RemotePlayerView>, p: Pickup) -> bool {
    exists|i: int|
        0 <= i < players.len() && claims(
            (#[trigger] players[i]).state.x,
            players[i].state.y,
            p.x,
            p.y,
        )
}

/// Who claims an object, as the local participant sees it: the local
/// player if it is within claiming distance, else a mirrored participant
/// if one is, else nobody.
pub open spec fn claimant(v: SessionView, local: LocalState, p: Pickup) -> Option<Claimant> {
    if claims(local.x, local.y, p.x, p.y) {
        Some(Claimant::Local)
    } else if mirror_claims(v.remote_players, p) {
        Some(Claimant::Remote)
    } else {
        None
    }
}

/// The identifiers of the mirrored objects that somebody claims.
pub open spec fn claimed_ids(v: SessionView, local: LocalState) -> Set<u32> {
    Set::new(
        |id: u32| v.pickups.contains_key(id) && claimant(v, local, v.pickups[id]) is Some,
    )
}

/// The members of `s` that are at least `from`, in ascending order.
pub open spec fn ascending(s: Set<u32>, from: nat) -> Seq<u32>
    decreases 0x1_0000_0000 - from,
{
    if from > u32::MAX {
        Seq::empty()
    } else if s.contains(from as u32) {
        seq![from as u32] + ascending(s, from + 1)
    } else {
        ascending(s, from + 1)
    }
}

/// The identifiers of the objects that a sweep removes, in ascending order.
pub open spec fn swept(v: SessionView, local: LocalState) -> Seq<u32> {
    ascending(claimed_ids(v, local), 0)
}

/// The state after a sweep: every mirrored object that somebody claims is
/// gone, and nothing else has changed.
pub open spec fn after_sweep(v: SessionView, local: LocalState) -> SessionView {
    SessionView { pickups: v.pickups.remove_keys(claimed_ids(v, local)), ..v }
}

/// The first identifier that a sweep has not looked at yet, after it has
/// looked at the first `done` of `ids`; past the last identifier when it
/// has looked at all.
pub open spec fn sweep_bound(ids: Seq<u32>, done: int) -> int {
    if done < ids.len() {
        ids[done] as int
    } else {
        0x1_0000_0000
    }
}

/// An identifier at place `at` of an ascending sequence is below the bound
/// exactly when the sweep has looked at it.
pub proof fn lemma_sweep_bound(ids: Seq<u32>, done: int, at: int)
    requires
        forall|a: int, b: int| 0 <= a < b < ids.len() ==> ids[a] < ids[b],
        0 <= done <= ids.len(),
        0 <= at < ids.len(),
    ensures
        ids[at] < sweep_bound(ids, done) <==> at < done,
{
    if done < ids.len() {
        if at < done {
            assert(ids[at] < ids[done]);
        } else if at > done {
            assert(ids[done] < ids[at]);
        }
    }
}

/// A sequence in strictly ascending order that holds exactly the members
/// of `s` from `from` on is [`ascending`].
pub proof fn lemma_ascending_unique(s: Set<u32>, from: nat, t: Seq<u32>)
    requires
        forall|i: int, j: int| 0 <= i < j < t.len() ==> t[i] < t[j],
        forall|x: u32| t.contains(x) <==> (s.contains(x) && x >= from),
    ensures
        t == ascending(s, from),
    decreases 0x1_0000_0000 - from,
{
    if from > u32::MAX {
        if t.len() > 0 {
            assert(t.contains(t[0]));
        }
        assert(t =~= Seq::<u32>::empty());
    } else {
        let first = from as u32;
        let rest = if s.contains(first) {
            t.drop_first()
        } else {
            t
        };
        if s.contains(first) {
            assert(t.contains(first));
            let k = choose|k: int| 0 <= k < t.len() && t[k] == first;
            assert(t.contains(t[0]));
            assert(k == 0);
            assert(t =~= seq![first] + rest);
        }
        assert forall|i: int, j: int| 0 <= i < j < rest.len() implies rest[i] < rest[j] by {
            if s.contains(first) {
                assert(rest[i] == t[i + 1] && rest[j] == t[j + 1]);
            }
        }
        assert forall|x: u32| rest.contains(x) <==> (s.contains(x) && x >= from + 1) by {
            if rest.contains(x) {
                let k = choose|k: int| 0 <= k < rest.len() && rest[k] == x;
                if s.contains(first) {
                    assert(t[k + 1] == x);
                    assert(t.contains(x));
                    assert(t[0] < t[k + 1]);
                } else {
                    assert(t.contains(x));
                }
            }
            if s.contains(x) && x >= from + 1 {
                assert(t.contains(x));
                let k = choose|k: int| 0 <= k < t.len() && t[k] == x;
                if s.contains(first) {
                    assert(k > 0);
                    assert(rest[k - 1] == x);
                }
            }
        }
        lemma_ascending_unique(s, from + 1, rest);
    }
}

/// How many mirrored participants are alive.
pub open spec fn alive(players: Seq<RemotePlayerView>) -> nat
    decreases players.len(),
{
    if players.len() == 0 {
        0
    } else {
        alive(players.drop_last()) + (if players.last().dead {
            0nat
        } else {
            1nat
        })
    }
}

/// How a started match that has a winner stands for the local participant:
/// won once no mirrored participant is alive, lost once the local player
/// is dead while another lives, undecided else. A deathmatch and a match
/// that has not started are never decided.
pub open spec fn verdict(v: SessionView, local_dead: bool) -> Option<bool> {
    if v.game_type == GameType::Deathmatch || !v.game_started {
        None
    } else if alive(v.remote_players) == 0 {
        Some(true)
    } else if local_dead {
        Some(false)
    } else {
        None
    }
}

/// The local participant may start the match: it waits in the lobby, is
/// the host, and everyone is ready.
pub open spec fn may_start(v: SessionView) -> bool {
    &&& v.game_type != GameType::Deathmatch
    &&& !v.game_started
    &&& spec_is_host(v.network_id, ids(v.remote_players))
    &&& all_ready(v)
}

impl NakamaRealtimeGame {
    /// The session's invariant: see [`session_wf`].
    pub open spec fn wf(&self) -> bool {
        session_wf(self@)
    }

    /// The state of the local participant `network_id` at the start of a
    /// match.
    pub fn new(game_type: GameType, network_id: String) -> (r: NakamaRealtimeGame)
        ensures
            r@ == initial(game_type, network_id@),
            r.wf(),
    {
        let started = match game_type {
            GameType::Deathmatch => true,
            GameType::LastFishStanding { .. } => false,
        };
        let r = NakamaRealtimeGame {
            game_type,
            game_started: started,
            network_id,
            network_cache: NetworkCache::new(),
            remote_players: PeerDirectory::new(),
            pickups: PickupTable::new(),
            shoot_pending: false,
            ready: false,
        };
        assert(r@.remote_players =~= Seq::<RemotePlayerView>::empty());
        r
    }

    /// Whether the match has started.
    pub fn game_started(&self) -> (r: bool)
        ensures
            r == self@.game_started,
    {
        self.game_started
    }

    /// Where the lobby handshake stands.
    pub fn lobby_state(&self) -> (r: LobbyState)
        ensures
            r == (if self@.game_started {
                LobbyState::Started
            } else {
                LobbyState::WaitingForReady
            }),
    {
        if self.game_started {
            LobbyState::Started
        } else {
            LobbyState::WaitingForReady
        }
    }

    /// The local player started a shot: the next snapshot carries it and is
    /// sent whatever the cache holds.
    pub fn shoot(&mut self)
        ensures
            final(self)@ == (SessionView { shoot_pending: true, ..old(self)@ }),
    {
        self.shoot_pending = true;
    }

    /// The announcement of an object that the host spawned.
    pub fn spawn_item(&self, id: u32, x: u16, y: u16, item_type: u64) -> (r: Outgoing)
        ensures
            r.opcode == 4,
            r.data@ == (SpawnItem { id, x, y, item_type }).wire(),
    {
        Outgoing {
            opcode: SpawnItem::OPCODE,
            data: (SpawnItem { id, x, y, item_type }).serialize_bin(),
        }
    }

    /// The announcement that an object was claimed.
    pub fn delete_item(&self, id: u32) -> (r: Outgoing)
        ensures
            r.opcode == 5,
            r.data@ == (DeleteItem { id }).wire(),
    {
        Outgoing { opcode: DeleteItem::OPCODE, data: (DeleteItem { id }).serialize_bin() }
    }

    /// The announcement that the local player hit `target`.
    pub fn kill(&self, target: &str, direction: bool) -> (r: Outgoing)
        ensures
            r.opcode == 2,
            r.data@ == Damage::wire(DamageView { target: target@, direction }),
    {
        let m = Damage { target: target.to_owned(), direction };
        Outgoing { opcode: Damage::OPCODE, data: m.serialize_bin() }
    }

    /// The local participant claims the object mirrored under `id`: its
    /// mirror is removed at once and the announcement is returned. Where
    /// nothing is mirrored under `id` nothing happens.
    pub fn claim_item(&mut self, id: u32) -> (r: Option<Outgoing>)
        ensures
            final(self)@ == (SessionView { pickups: old(self)@.pickups.remove(id), ..old(self)@ }),
            r is Some == old(self)@.pickups.contains_key(id),
            r is Some ==> r->Some_0.opcode == 5 && r->Some_0.data@ == (DeleteItem { id }).wire(),
    {
        match self.pickups.delete(id) {
            Some(_) => Some(self.delete_item(id)),
            None => None,
        }
    }

    /// Looks at every mirrored object and claims those that the local
    /// player or a mirrored participant is near enough to: each is removed
    /// at once, and the announcements are returned in ascending order of
    /// identifier. Nothing else changes.
    pub fn claim_sweep(&mut self, local: &LocalState) -> (sent: Vec<Outgoing>)
        ensures
            final(self)@ == after_sweep(old(self)@, *local),
            sent@.len() == swept(old(self)@, *local).len(),
            forall|i: int|
                0 <= i < sent@.len() ==> (#[trigger] sent@[i]).opcode == 5 && sent@[i].data@ == (
                DeleteItem { id: swept(old(self)@, *local)[i] }).wire(),
    {
        let ids = self.pickups.ids();
        let mut sent: Vec<Outgoing> = Vec::new();
        let ghost claimed = claimed_ids(old(self)@, *local);
        let ghost mut taken: Seq<u32> = Seq::empty();
        let mut i: usize = 0;
        proof {
            assert forall|k: u32| claimed.contains(k) implies !(k < sweep_bound(ids@, 0)) by {
                assert(ids@.contains(k));
                let j = choose|j: int| 0 <= j < ids@.len() && ids@[j] == k;
                lemma_sweep_bound(ids@, 0, j);
            }
        }
        while i < ids.len()
            invariant
                i <= ids.len(),
                forall|a: int, b: int| 0 <= a < b < ids@.len() ==> ids@[a] < ids@[b],
                forall|id: u32| ids@.contains(id) <==> old(self)@.pickups.contains_key(id),
                claimed == claimed_ids(old(self)@, *local),
                self@ == (SessionView { pickups: self@.pickups, ..old(self)@ }),
                forall|k: u32|
                    #![trigger self@.pickups.contains_key(k)]
                    #![trigger old(self)@.pickups.contains_key(k)]
                    self@.pickups.contains_key(k) <==> (old(self)@.pickups.contains_key(k) && !(
                    claimed.contains(k) && k < sweep_bound(ids@, i as int))),
                forall|k: u32|
                    #![trigger self@.pickups[k]]
                    self@.pickups.contains_key(k) ==> self@.pickups[k] == old(self)@.pickups[k],
                sent@.len() == taken.len(),
                forall|j: int|
                    0 <= j < sent@.len() ==> (#[trigger] sent@[j]).opcode == 5 && sent@[j].data@
                        == (DeleteItem { id: taken[j] }).wire(),
                forall|a: int, b: int| 0 <= a < b < taken.len() ==> taken[a] < taken[b],
                forall|x: u32|
                    taken.contains(x) <==> (claimed.contains(x) && x < sweep_bound(ids@, i as int)),
            decreases ids.len() - i,
        {
            let id = ids[i];
            let ghost before = taken;
            proof {
                assert(ids@.contains(id));
                lemma_sweep_bound(ids@, i as int, i as int);
                lemma_sweep_bound(ids@, i + 1, i as int);
                assert forall|k: u32| claimed.contains(k) implies (k < sweep_bound(ids@, i + 1) <==> (k
                    < sweep_bound(ids@, i as int) || k == id)) by {
                    assert(ids@.contains(k));
                    let j = choose|j: int| 0 <= j < ids@.len() && ids@[j] == k;
                    lemma_sweep_bound(ids@, i as int, j);
                    lemma_sweep_bound(ids@, i + 1, j);
                }
            }
            let mut claim = false;
            match self.pickups.get(id) {
                Some(pickup) => {
                    claim = self.claimant_of(local, &pickup).is_some();
                },
                None => {},
            }
            assert(claim == claimed.contains(id));
            if claim {
                self.pickups.delete(id);
                sent.push(self.delete_item(id));
                proof {
                    taken = taken.push(id);
                    assert forall|a: int, b: int| 0 <= a < b < taken.len() implies taken[a]
                        < taken[b] by {
                        if b == before.len() {
                            assert(before.contains(before[a]));
                        }
                    }
                    assert forall|x: u32| taken.contains(x) <==> (claimed.contains(x) && x
                        < sweep_bound(ids@, i + 1)) by {
                        if taken.contains(x) {
                            let k = choose|k: int| 0 <= k < taken.len() && taken[k] == x;
                            if k < before.len() {
                                assert(before.contains(x));
                            }
                        }
                        if claimed.contains(x) && x < sweep_bound(ids@, i + 1) {
                            if x == id {
                                assert(taken[before.len() as int] == x);
                            } else {
                                assert(before.contains(x));
                                let k = choose|k: int| 0 <= k < before.len() && before[k] == x;
                                assert(taken[k] == x);
                            }
                        }
                    }
                }
            }
            i = i + 1;
        }
        proof {
            lemma_ascending_unique(claimed, 0, taken);
            assert(self@.pickups =~= old(self)@.pickups.remove_keys(claimed));
        }
        sent
    }

    /// The liveness message, to be sent once a second.
    pub fn idle(&self) -> (r: Outgoing)
        ensures
            r.opcode == 7,
            r.data@ == Seq::<u8>::empty(),
    {
        Outgoing { opcode: Idle::OPCODE, data: Vec::new() }
    }

    /// Whether the local participant is the host.
    pub fn is_host(&self) -> (r: bool)
        requires
            self.wf(),
        ensures
            r == spec_is_host(self@.network_id, ids(self@.remote_players)),
    {
        crate::host::is_host(&self.network_id, &self.remote_players)
    }

    /// Whether everyone, the local participant included, is ready.
    pub fn everyone_ready(&self) -> (r: bool)
        ensures
            r == all_ready(self@),
    {
        if !self.ready || self.remote_players.len() == 0 {
            return false;
        }
        let mut i: usize = 0;
        while i < self.remote_players.len()
            invariant
                i <= self.remote_players@.len(),
                forall|j: int| 0 <= j < i ==> (#[trigger] self@.remote_players[j]).ready,
            decreases self.remote_players@.len() - i,
        {
            match self.remote_players.get_at(i) {
                Some(p) => {
                    if !p.ready {
                        assert(!self@.remote_players[i as int].ready);
                        return false;
                    }
                },
                None => {},
            }
            i = i + 1;
        }
        true
    }

    /// Who claims an object, if anybody: see [`claimant`].
    pub fn claimant_of(&self, local: &LocalState, pickup: &Pickup) -> (r: Option<Claimant>)
        ensures
            r == claimant(self@, *local, *pickup),
    {
        if in_claim_range(local.x, local.y, pickup.x, pickup.y) {
            return Some(Claimant::Local);
        }
        let mut i: usize = 0;
        while i < self.remote_players.len()
            invariant
                i <= self.remote_players@.len(),
                !claims(local.x, local.y, pickup.x, pickup.y),
                forall|j: int|
                    0 <= j < i ==> !claims(
                        (#[trigger] self@.remote_players[j]).state.x,
                        self@.remote_players[j].state.y,
                        pickup.x,
                        pickup.y,
                    ),
            decreases self.remote_players@.len() - i,
        {
            match self.remote_players.get_at(i) {
                Some(other) => {
                    if in_claim_range(other.state.x, other.state.y, pickup.x, pickup.y) {
                        assert(self@.remote_players[i as int].state == other.state);
                        return Some(Claimant::Remote);
                    }
                },
                None => {},
            }
            i = i + 1;
        }
        None
    }

    /// How many mirrored participants are alive.
    pub fn alive_enemies(&self) -> (n: usize)
        ensures
            n == alive(self@.remote_players),
    {
        let mut n: usize = 0;
        let mut i: usize = 0;
        assert(self@.remote_players.take(0) =~= Seq::<RemotePlayerView>::empty());
        while i < self.remote_players.len()
            invariant
                i <= self.remote_players@.len(),
                n <= i,
                n == alive(self@.remote_players.take(i as int)),
            decreases self.remote_players@.len() - i,
        {
            proof {
                let upto = self@.remote_players.take(i + 1);
                assert(upto.drop_last() =~= self@.remote_players.take(i as int));
                assert(upto.last() == self@.remote_players[i as int]);
            }
            match self.remote_players.get_at(i) {
                Some(p) => {
                    if !p.dead {
                        n = n + 1;
                    }
                },
                None => {},
            }
            i = i + 1;
        }
        assert(self@.remote_players.take(self.remote_players@.len() as int)
            =~= self@.remote_players);
        n
    }

    /// Whether the local participant has won (`Some(true)`), has lost
    /// (`Some(false)`), or the match is undecided: see [`verdict`].
    pub fn outcome(&self, local_dead: bool) -> (r: Option<bool>)
        ensures
            r == verdict(self@, local_dead),
    {
        let lobby = match self.game_type {
            GameType::Deathmatch => false,
            GameType::LastFishStanding { .. } => true,
        };
        if !lobby || !self.game_started {
            None
        } else if self.alive_enemies() == 0 {
            Some(true)
        } else if local_dead {
            Some(false)
        } else {
            None
        }
    }

    /// The local participant declares itself ready. The first time this
    /// gives the message to broadcast; later it gives nothing.
    pub fn set_ready(&mut self) -> (r: Option<Outgoing>)
        ensures
            final(self)@ == (SessionView { ready: true, ..old(self)@ }),
            r is Some == !old(self)@.ready,
            r is Some ==> r->Some_0.opcode == 6 && r->Some_0.data@ == Seq::<u8>::empty(),
    {
        if self.ready {
            None
        } else {
            self.ready = true;
            Some(Outgoing { opcode: Ready::OPCODE, data: Vec::new() })
        }
    }

    /// Whether the local participant may start the match.
    pub fn can_start(&self) -> (r: bool)
        requires
            self.wf(),
        ensures
            r == may_start(self@),
    {
        let lobby = match self.game_type {
            GameType::Deathmatch => false,
            GameType::LastFishStanding { .. } => true,
        };
        lobby && !self.game_started && self.is_host() && self.everyone_ready()
    }

    /// The host starts the match. Where it may, the match is started and
    /// the message to broadcast is returned; else nothing happens.
    pub fn start_match(&mut self) -> (r: Option<Outgoing>)
        requires
            old(self).wf(),
        ensures
            r is Some == may_start(old(self)@),
            r is Some ==> final(self)@ == (SessionView { game_started: true, ..old(self)@ })
                && r->Some_0.opcode == 8 && r->Some_0.data@ == Seq::<u8>::empty(),
            r is None ==> final(self)@ == old(self)@,
    {
        if self.can_start() {
            self.game_started = true;
            Some(Outgoing { opcode: StartGame::OPCODE, data: Vec::new() })
        } else {
            None
        }
    }

    /// The sending half of a tick: packs the local player's snapshot and
    /// returns the message to send if the cache says that one is due.
    pub fn poll_state(&mut self, local: &LocalState, now: u64) -> (r: Option<Outgoing>)
        ensures
            final(self)@ == after_poll(old(self)@, *local, now).0,
            r is Some == after_poll(old(self)@, *local, now).1 is Some,
            r is Some ==> r->Some_0.opcode == 1 && r->Some_0.data@ == after_poll(
                old(self)@,
                *local,
                now,
            ).1->Some_0,
    {
        let shooting = self.shoot_pending;
        self.shoot_pending = false;
        let snapshot = PlayerSnapshot {
            x: local.x,
            y: local.y,
            facing: local.facing,
            shooting,
            weapon: local.weapon,
            dead: local.dead,
        };
        let encoded = encode(&snapshot);
        if self.network_cache.should_send(&encoded, now, shooting) {
            self.network_cache.record_send(&encoded, now);
            Some(Outgoing { opcode: State::OPCODE, data: State(encoded).serialize_bin() })
        } else {
            None
        }
    }

    /// A change of membership was reported.
    pub fn handle_presence(&mut self, event: &Event) -> (effects: Vec<Effect>)
        requires
            old(self).wf(),
        ensures
            final(self).wf(),
            final(self)@ == after_inbound(old(self)@, InboundView::Presence(event@)).0,
            effects@ == after_inbound(old(self)@, InboundView::Presence(event@)).1,
    {
        let mut effects: Vec<Effect> = Vec::new();
        match event {
            Event::Join { network_id, username } => {
                if !id_same(network_id, &self.network_id) {
                    let created = self.remote_players.on_join(
                        network_id.as_str(),
                        username.as_str(),
                    );
                    if created {
                        self.network_cache.flush();
                        proof {
                            lemma_join_keeps_self_out(
                                old(self)@.remote_players,
                                username@,
                                network_id@,
                                self@.network_id,
                            );
                        }
                    }
                }
            },
            Event::Leave(id) => {
                match self.remote_players.on_leave(id) {
                    Some(gone) => {
                        effects.push(Effect::PeerDestroyed { x: gone.state.x, y: gone.state.y });
                        proof {
                            lemma_leave_keeps_self_out(
                                old(self)@.remote_players,
                                id@,
                                self@.network_id,
                            );
                        }
                    },
                    None => {},
                }
            },
        }
        effects
    }

    /// A message was received.
    pub fn handle_match_data(&mut self, msg: &MatchData) -> (effects: Vec<Effect>)
        requires
            old(self).wf(),
        ensures
            final(self).wf(),
            final(self)@ == after_data(old(self)@, msg.user_id@, msg.opcode, msg.data@).0,
            effects@ == after_data(old(self)@, msg.user_id@, msg.opcode, msg.data@).1,
            !known_opcode(msg.opcode) ==> final(self)@ == old(self)@ && effects@
                == Seq::<Effect>::empty(),
    {
        let mut effects: Vec<Effect> = Vec::new();
        let at = match self.remote_players.find(&msg.user_id) {
            Some(at) => at,
            None => {
                return effects;
            },
        };
        let packet = match crate::message::decode(msg.opcode, msg.data.as_slice()) {
            Ok(Some(p)) => p,
            Ok(None) => {
                return effects;
            },
            Err(_) => {
                return effects;
            },
        };
        let ghost sender = self@.remote_players[at as int];
        match packet {
            Packet::State(m) => {
                let snapshot = decode(&m.0);
                effects = self.remote_players.apply_state_at(at, &snapshot);
                proof {
                    lemma_update_keeps_self_out(
                        old(self)@.remote_players,
                        at as int,
                        mirror_after(sender, snapshot),
                        self@.network_id,
                    );
                }
            },
            Packet::Damage(m) => {
                if id_same(&m.target, &self.network_id) {
                    effects.push(Effect::LocalKilled { direction: m.direction });
                }
            },
            Packet::SpawnItem(m) => {
                let replaced = self.pickups.spawn(m.id, Pickup::new(m.x, m.y, m.item_type));
                if replaced.is_some() {
                    effects.push(Effect::PickupReplaced { id: m.id });
                }
                effects.push(Effect::PickupSpawned { id: m.id });
            },
            Packet::DeleteItem(m) => {
                let removed = self.pickups.delete(m.id);
                if removed.is_some() {
                    effects.push(Effect::PickupRemoved { id: m.id });
                }
            },
            Packet::Ready => {
                self.remote_players.mark_ready_at(at);
                proof {
                    lemma_update_keeps_self_out(
                        old(self)@.remote_players,
                        at as int,
                        RemotePlayerView { ready: true, ..sender },
                        self@.network_id,
                    );
                }
            },
            Packet::Idle => {},
            Packet::StartGame => {
                self.game_started = true;
            },
        }
        proof {
            let expect = after_data(old(self)@, msg.user_id@, msg.opcode, msg.data@);
            assert(effects@ =~= expect.1);
            assert(self@.pickups =~= expect.0.pickups);
        }
        effects
    }

    /// One delivery of the transport.
    pub fn handle(&mut self, inbound: &Inbound) -> (effects: Vec<Effect>)
        requires
            old(self).wf(),
        ensures
            final(self).wf(),
            final(self)@ == after_inbound(old(self)@, inbound@).0,
            effects@ == after_inbound(old(self)@, inbound@).1,
    {
        match inbound {
            Inbound::Presence(event) => self.handle_presence(event),
            Inbound::Data(msg) => self.handle_match_data(msg),
        }
    }

    /// One tick: the local snapshot is packed and, if due, returned for
    /// sending; then the deliveries are handled in the order in which they
    /// came. Returns the message to send, if any, and all that the
    /// deliveries ask of the surrounding game, each effect with the place
    /// of its delivery in `inbound`.
    pub fn update(&mut self, local: &LocalState, now: u64, inbound: &Vec<Inbound>) -> (r: (
        Option<Outgoing>,
        Vec<Tagged>,
    ))
        requires
            old(self).wf(),
        ensures
            final(self).wf(),
            final(self)@ == after_all(
                after_poll(old(self)@, *local, now).0,
                inbound_views(inbound@),
            ).0,
            r.1@ == after_all(after_poll(old(self)@, *local, now).0, inbound_views(inbound@)).1,
            r.0 is Some == after_poll(old(self)@, *local, now).1 is Some,
            r.0 is Some ==> r.0->Some_0.opcode == 1 && r.0->Some_0.data@ == after_poll(
                old(self)@,
                *local,
                now,
            ).1->Some_0,
    {
        let outgoing = self.poll_state(local, now);
        let ghost start = self@;
        let ghost events = inbound_views(inbound@);
        let mut effects: Vec<Tagged> = Vec::new();
        let mut i: usize = 0;
        assert(events.take(0) =~= Seq::<InboundView>::empty());
        while i < inbound.len()
            invariant
                i <= inbound.len(),
                self.wf(),
                events == inbound_views(inbound@),
                self@ == after_all(start, events.take(i as int)).0,
                effects@ == after_all(start, events.take(i as int)).1,
            decreases inbound.len() - i,
        {
            let asked = self.handle(&inbound[i]);
            let mut more = tag_all(i, &asked);
            effects.append(&mut more);
            proof {
                let upto = events.take(i + 1);
                assert(upto.drop_last() =~= events.take(i as int));
                assert(upto.last() == inbound@[i as int]@);
            }
            i = i + 1;
        }
        assert(events.take(inbound.len() as int) =~= events);
        (outgoing, effects)
    }
}

/// A message with an unknown opcode changes nothing and asks nothing,
/// whoever sent it and whatever it carries.
pub proof fn lemma_unknown_opcode_ignored(
    v: SessionView,
    user_id: Seq<char>,
    opcode: i32,
    data: Seq<u8>,
)
    requires
        !known_opcode(opcode),
    ensures
        after_data(v, user_id, opcode, data) == (v, Seq::<Effect>::empty()),
{
}

/// A message with a malformed payload changes nothing and asks nothing.
pub proof fn lemma_malformed_ignored(v: SessionView, user_id: Seq<char>, opcode: i32, data: Seq<u8>)
    requires
        parse_packet(opcode, data) is Err,
    ensures
        after_data(v, user_id, opcode, data) == (v, Seq::<Effect>::empty()),
{
}

/// A delete that is received a second time changes nothing and asks
/// nothing: after the first, no object is mirrored under its identifier.
pub proof fn lemma_delete_twice(v: SessionView, user_id: Seq<char>, data: Seq<u8>)
    ensures
        ({
            let once = after_data(v, user_id, 5, data).0;
            after_data(once, user_id, 5, data) == (once, Seq::<Effect>::empty())
        }),
{
    let once = after_data(v, user_id, 5, data).0;
    if listed(v.remote_players, user_id) {
        match parse_packet(5, data) {
            Ok(Some(PacketView::DeleteItem(m))) => {
                assert(once.pickups.remove(m.id) =~= once.pickups);
            },
            _ => {},
        }
    }
}

/// A sweep right after a sweep finds nothing to claim: it removes nothing
/// and announces nothing.
pub proof fn lemma_sweep_twice(v: SessionView, local: LocalState)
    ensures
        after_sweep(after_sweep(v, local), local) == after_sweep(v, local),
        swept(after_sweep(v, local), local) == Seq::<u32>::empty(),
{
    let once = after_sweep(v, local);
    assert(claimed_ids(once, local) =~= Set::<u32>::empty());
    assert(once.pickups.remove_keys(Set::<u32>::empty()) =~= once.pickups);
    lemma_ascending_unique(Set::<u32>::empty(), 0, Seq::<u32>::empty());
}

/// A started match stays started: no delivery and no tick takes it back
/// to the lobby.
pub proof fn lemma_started_is_final(v: SessionView, e: InboundView, local: LocalState, now: u64)
    requires
        v.game_started,
    ensures
        after_inbound(v, e).0.game_started,
        after_poll(v, local, now).0.game_started,
{
}

/// Every delivery keeps the mirrors in ascending order and the local
/// participant out of them.
pub proof fn lemma_delivery_keeps_order(v: SessionView, e: InboundView)
    requires
        session_wf(v),
    ensures
        session_wf(after_inbound(v, e).0),
{
    let s = v.remote_players;
    match e {
        InboundView::Presence(EventView::Join { network_id, username }) => {
            if network_id != v.network_id && !listed(s, network_id) {
                lemma_join_keeps_self_out(s, username, network_id, v.network_id);
                crate::peers::lemma_joined_sorted(s, username, network_id);
            }
        },
        InboundView::Presence(EventView::Leave(id)) => {
            lemma_leave_keeps_self_out(s, id, v.network_id);
            crate::peers::lemma_left_sorted(s, id);
        },
        InboundView::Data { data, opcode, user_id } => {
            if listed(s, user_id) {
                lemma_place_of_listed(s, user_id);
                let at = place(s, user_id);
                match parse_packet(opcode, data) {
                    Ok(Some(PacketView::State(bytes))) => {
                        lemma_update_keeps_self_out(
                            s,
                            at,
                            mirror_after(s[at], spec_decode(bytes)),
                            v.network_id,
                        );
                    },
                    Ok(Some(PacketView::Ready)) => {
                        lemma_update_keeps_self_out(
                            s,
                            at,
                            RemotePlayerView { ready: true, ..s[at] },
                            v.network_id,
                        );
                    },
                    _ => {},
                }
            }
        },
    }
}

/// After a participant joined that was not known, the next snapshot is
/// sent whatever it holds and whenever the tick comes.
pub proof fn lemma_join_forces_send(
    v: SessionView,
    id: Seq<char>,
    username: Seq<char>,
    local: LocalState,
    now: u64,
)
    requires
        id != v.network_id,
        !listed(v.remote_players, id),
    ensures
        after_poll(after_join(v, id, username), local, now).1 is Some,
{
}

/// A snapshot that one participant sends reaches its mirror at the other:
/// after the message the mirror holds the snapshot, positions reduced
/// modulo 1024.
pub proof fn lemma_state_reaches_mirror(v: SessionView, at: int, s: PlayerSnapshot)
    requires
        0 <= at < v.remote_players.len(),
    ensures
        after_packet(v, at, PacketView::State(spec_encode(s))).0.remote_players[at].state
            == s.masked(),
        after_packet(v, at, PacketView::State(spec_encode(s))).0.remote_players[at].id
            == v.remote_players[at].id,
{
    crate::codec::lemma_encoding_exists(s);
    crate::codec::lemma_decode_encode(spec_encode(s), s);
}

/// A mirror put in for another participant does not list the local one.
proof fn lemma_join_keeps_self_out(
    s: Seq<RemotePlayerView>,
    username: Seq<char>,
    id: Seq<char>,
    me: Seq<char>,
)
    requires
        sorted(s),
        !listed(s, id),
        !listed(s, me),
        id != me,
    ensures
        !listed(joined(s, username, id), me),
{
    lemma_place_of_listed(s, id);
    let at = place(s, id);
    let t = joined(s, username, id);
    if listed(t, me) {
        let k = choose|k: int| 0 <= k < t.len() && #[trigger] t[k].id == me;
        if k < at {
            assert(s[k].id == me);
        } else if k > at {
            assert(s[k - 1].id == me);
        }
    }
}

/// Taking a mirror out does not list the local participant.
proof fn lemma_leave_keeps_self_out(s: Seq<RemotePlayerView>, id: Seq<char>, me: Seq<char>)
    requires
        sorted(s),
        !listed(s, me),
    ensures
        !listed(left(s, id), me),
{
    lemma_place_of_listed(s, id);
    let t = left(s, id);
    if listed(s, id) && listed(t, me) {
        let at = place(s, id);
        let k = choose|k: int| 0 <= k < t.len() && #[trigger] t[k].id == me;
        if k < at {
            assert(s[k].id == me);
        } else {
            assert(s[k + 1].id == me);
        }
    }
}

/// Replacing a mirror by one with the same identifier does not list the
/// local participant.
proof fn lemma_update_keeps_self_out(
    s: Seq<RemotePlayerView>,
    at: int,
    m: RemotePlayerView,
    me: Seq<char>,
)
    requires
        sorted(s),
        0 <= at < s.len(),
        m.id == s[at].id,
        !listed(s, me),
    ensures
        !listed(s.update(at, m), me),
{
    crate::peers::lemma_update_keeps_order(s, at, m);
}

} // verus!
