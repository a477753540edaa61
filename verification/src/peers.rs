//! The mirrors of the other participants, held in ascending order of their
//! identifiers.

use vstd::prelude::*;
use crate::codec::PlayerSnapshot;
use crate::effects::Effect;
use crate::ident::id_lt;
use crate::ident::id_before;
use crate::ident::id_same;
use crate::ident::lemma_id_lt_irreflexive;
use crate::ident::lemma_id_lt_transitive;
use crate::ident::lemma_id_lt_total;

verus! {

/// The local copy of another participant's state.
#[derive(Clone, Debug, PartialEq, Eq)]
pub struct RemotePlayer {
    pub username: String,
    pub id: String,
    /// The last snapshot received, or the spawn state before the first.
    pub state: PlayerSnapshot,
    pub dead: bool,
    pub ready: bool,
}

/// A [`RemotePlayer`] as contracts see it.
pub struct RemotePlayerView {
    pub username: Seq<char>,
    pub id: Seq<char>,
    pub state: PlayerSnapshot,
    pub dead: bool,
    pub ready: bool,
}

impl View for RemotePlayer {
    type V = RemotePlayerView;

    open spec fn view(&self) -> RemotePlayerView {
        RemotePlayerView {
            username: self.username@,
            id: self.id@,
            state: self.state,
            dead: self.dead,
            ready: self.ready,
        }
    }
}

/// The state of a participant of whom nothing was heard yet: at the spawn
/// point, facing right, unarmed, alive.
pub open spec fn spawn_state() -> PlayerSnapshot {
    PlayerSnapshot { x: 100, y: 105, facing: true, shooting: false, weapon: 0, dead: false }
}

/// The mirror made when a participant joins.
pub open spec fn fresh_mirror(username: Seq<char>, id: Seq<char>) -> RemotePlayerView {
    RemotePlayerView { username, id, state: spawn_state(), dead: false, ready: false }
}

/// A mirror after a snapshot was received: it holds the snapshot.
pub open spec fn mirror_after(m: RemotePlayerView, s: PlayerSnapshot) -> RemotePlayerView {
    RemotePlayerView { state: s, dead: s.dead, ..m }
}

/// What a received snapshot asks of the surrounding game, in this order:
/// an explosion where the participant died, a disarm where it lost its
/// weapon, a pick where it holds another weapon than before, a shot where
/// it fired.
pub open spec fn state_effects(m: RemotePlayerView, s: PlayerSnapshot) -> Seq<Effect> {
    (if s.dead && !m.dead {
        seq![Effect::Explosion { x: s.x, y: s.y }]
    } else {
        Seq::<Effect>::empty()
    }) + (if m.state.weapon != 0 && s.weapon == 0 {
        seq![Effect::Disarmed { x: s.x, y: s.y }]
    } else {
        Seq::<Effect>::empty()
    }) + (if s.weapon != 0 && m.state.weapon != s.weapon {
        seq![Effect::WeaponPicked { item_type: s.weapon }]
    } else {
        Seq::<Effect>::empty()
    }) + (if s.shooting {
        seq![Effect::RemoteShot]
    } else {
        Seq::<Effect>::empty()
    })
}

impl RemotePlayer {
    /// The mirror of a participant who just joined.
    pub fn new(username: &str, id: &str) -> (r: RemotePlayer)
        ensures
            r@ == fresh_mirror(username@, id@),
    {
        RemotePlayer {
            username: username.to_owned(),
            id: id.to_owned(),
            state: PlayerSnapshot {
                x: 100,
                y: 105,
                facing: true,
                shooting: false,
                weapon: 0,
                dead: false,
            },
            dead: false,
            ready: false,
        }
    }

    /// Takes up a weapon.
    pub fn pick_weapon(&mut self, item_type: u64)
        ensures
            final(self)@ == (RemotePlayerView {
                state: PlayerSnapshot { weapon: item_type, ..old(self).state },
                ..old(self)@
            }),
    {
        self.state.weapon = item_type;
    }

    /// Drops the weapon.
    pub fn disarm(&mut self)
        ensures
            final(self)@ == (RemotePlayerView {
                state: PlayerSnapshot { weapon: 0, ..old(self).state },
                ..old(self)@
            }),
    {
        self.state.weapon = 0;
    }

    /// The weapon held, if any.
    pub fn weapon(&self) -> (r: Option<u64>)
        ensures
            r == (if self.state.weapon == 0 {
                None
            } else {
                Some(self.state.weapon)
            }),
    {
        if self.state.weapon == 0 {
            None
        } else {
            Some(self.state.weapon)
        }
    }

    /// Moves the mirror.
    pub fn set_pos(&mut self, x: u32, y: u32)
        ensures
            final(self)@ == (RemotePlayerView {
                state: PlayerSnapshot { x: x, y: y, ..old(self).state },
                ..old(self)@
            }),
    {
        self.state.x = x;
        self.state.y = y;
    }

    /// Turns the mirror.
    pub fn set_facing(&mut self, facing: bool)
        ensures
            final(self)@ == (RemotePlayerView {
                state: PlayerSnapshot { facing: facing, ..old(self).state },
                ..old(self)@
            }),
    {
        self.state.facing = facing;
    }

    /// Records whether the participant is dead.
    pub fn set_dead(&mut self, dead: bool)
        ensures
            final(self)@ == (RemotePlayerView { dead: dead, ..old(self)@ }),
    {
        self.dead = dead;
    }

    /// Takes over a snapshot received from the participant, and says what
    /// the change asks of the surrounding game.
    pub fn apply_state(&mut self, s: &PlayerSnapshot) -> (effects: Vec<Effect>)
        ensures
            final(self)@ == mirror_after(old(self)@, *s),
            effects@ == state_effects(old(self)@, *s),
    {
        let mut effects: Vec<Effect> = Vec::new();
        self.set_pos(s.x, s.y);
        self.set_facing(s.facing);
        if s.dead && !self.dead {
            effects.push(Effect::Explosion { x: s.x, y: s.y });
        }
        self.set_dead(s.dead);
        self.state.dead = s.dead;
        if self.weapon().is_some() && s.weapon == 0 {
            effects.push(Effect::Disarmed { x: s.x, y: s.y });
            self.disarm();
        }
        if s.weapon != 0 && self.state.weapon != s.weapon {
            effects.push(Effect::WeaponPicked { item_type: s.weapon });
            self.pick_weapon(s.weapon);
        }
        self.state.shooting = s.shooting;
        if s.shooting {
            effects.push(Effect::RemoteShot);
        }
        assert(effects@ =~= state_effects(old(self)@, *s));
        effects
    }

    /// Where the mirror stands.
    pub fn pos(&self) -> (r: (u32, u32))
        ensures
            r == (self.state.x, self.state.y),
    {
        (self.state.x, self.state.y)
    }
}

/// Mirrors are in strictly ascending order of their identifiers, so that no
/// identifier occurs twice.
pub open spec fn sorted(s: Seq<RemotePlayerView>) -> bool {
    forall|i: int, j: int| 0 <= i < j < s.len() ==> id_lt(#[trigger] s[i].id, #[trigger] s[j].id)
}

/// Whether a mirror with this identifier is among `s`.
pub open spec fn listed(s: Seq<RemotePlayerView>, id: Seq<char>) -> bool {
    exists|i: int| 0 <= i < s.len() && #[trigger] s[i].id == id
}

/// The identifiers of the mirrors in `s`.
pub open spec fn ids(s: Seq<RemotePlayerView>) -> Set<Seq<char>> {
    Set::new(|id: Seq<char>| listed(s, id))
}

/// The place that `id` has, or would have, in ascending order: the number
/// of leading mirrors whose identifiers come before it.
pub open spec fn place(s: Seq<RemotePlayerView>, id: Seq<char>) -> int
    decreases s.len(),
{
    if s.len() == 0 || !id_lt(s[0].id, id) {
        0
    } else {
        1 + place(s.drop_first(), id)
    }
}

/// The directory after a participant joined: unchanged where it is known,
/// else with a fresh mirror at its place.
pub open spec fn joined(
    s: Seq<RemotePlayerView>,
    username: Seq<char>,
    id: Seq<char>,
) -> Seq<RemotePlayerView> {
    if listed(s, id) {
        s
    } else {
        s.insert(place(s, id), fresh_mirror(username, id))
    }
}

/// The directory after a participant left: without its mirror.
pub open spec fn left(s: Seq<RemotePlayerView>, id: Seq<char>) -> Seq<RemotePlayerView> {
    if listed(s, id) {
        s.remove(place(s, id))
    } else {
        s
    }
}

/// With the mirrors before `at` below `id` and the one at `at`, if any,
/// not below it, `at` is the place of `id`.
pub proof fn lemma_place(s: Seq<RemotePlayerView>, id: Seq<char>, at: int)
    requires
        0 <= at <= s.len(),
        forall|j: int| 0 <= j < at ==> id_lt((#[trigger] s[j]).id, id),
        at < s.len() ==> !id_lt(s[at].id, id),
    ensures
        place(s, id) == at,
    decreases at,
{
    if at > 0 {
        let t = s.drop_first();
        assert(id_lt(s[0].id, id));
        assert forall|j: int| 0 <= j < at - 1 implies id_lt((#[trigger] t[j]).id, id) by {
            assert(t[j] == s[j + 1]);
        }
        if at - 1 < t.len() {
            assert(t[at - 1] == s[at]);
        }
        lemma_place(t, id, at - 1);
    }
}

/// In an ordered directory a mirror stands at the place of its identifier,
/// and an identifier is listed exactly if the mirror at its place has it.
pub proof fn lemma_place_of_listed(s: Seq<RemotePlayerView>, id: Seq<char>)
    requires
        sorted(s),
    ensures
        0 <= place(s, id) <= s.len(),
        listed(s, id) == (place(s, id) < s.len() && s[place(s, id)].id == id),
        forall|i: int| 0 <= i < s.len() && s[i].id == id ==> place(s, id) == i,
    decreases s.len(),
{
    lemma_id_lt_irreflexive(id);
    assert forall|i: int| 0 <= i < s.len() && s[i].id == id implies place(s, id) == i by {
        assert forall|j: int| 0 <= j < i implies id_lt((#[trigger] s[j]).id, id) by {
            assert(id_lt(s[j].id, s[i].id));
        }
        lemma_place(s, id, i);
    }
    if s.len() > 0 && id_lt(s[0].id, id) {
        let t = s.drop_first();
        assert forall|i: int, j: int| 0 <= i < j < t.len() implies id_lt(
            #[trigger] t[i].id,
            #[trigger] t[j].id,
        ) by {
            assert(t[i] == s[i + 1] && t[j] == s[j + 1]);
        }
        lemma_place_of_listed(t, id);
        if place(t, id) < t.len() {
            assert(t[place(t, id)] == s[place(t, id) + 1]);
        }
    }
    if listed(s, id) {
        let k = choose|k: int| 0 <= k < s.len() && #[trigger] s[k].id == id;
        assert(place(s, id) == k);
    }
}

/// A join keeps the order.
pub proof fn lemma_joined_sorted(s: Seq<RemotePlayerView>, username: Seq<char>, id: Seq<char>)
    requires
        sorted(s),
    ensures
        sorted(joined(s, username, id)),
{
    if !listed(s, id) {
        lemma_place_of_listed(s, id);
        lemma_place_splits(s, id);
        let at = place(s, id);
        let m = fresh_mirror(username, id);
        let t = s.insert(at, m);
        assert forall|j: int| at <= j < s.len() implies id_lt(id, (#[trigger] s[j]).id) by {
            lemma_id_lt_total(s[at].id, id);
            assert(s[at].id != id);
            if j > at {
                assert(id_lt(s[at].id, s[j].id));
                lemma_id_lt_transitive(id, s[at].id, s[j].id);
            }
        }
        assert forall|i: int, j: int| 0 <= i < j < t.len() implies id_lt(
            #[trigger] t[i].id,
            #[trigger] t[j].id,
        ) by {
            if j < at {
                assert(t[i] == s[i] && t[j] == s[j]);
            } else if j == at {
                assert(t[i] == s[i]);
            } else if i < at {
                assert(t[i] == s[i] && t[j] == s[j - 1]);
                if i < j - 1 {
                    assert(id_lt(s[i].id, s[j - 1].id));
                }
            } else if i == at {
                assert(t[j] == s[j - 1]);
            } else {
                assert(t[i] == s[i - 1] && t[j] == s[j - 1]);
            }
        }
    }
}

/// The mirrors before the place of `id` are below it, and the one at its
/// place, if any, is not.
pub proof fn lemma_place_splits(s: Seq<RemotePlayerView>, id: Seq<char>)
    ensures
        0 <= place(s, id) <= s.len(),
        forall|j: int| 0 <= j < place(s, id) ==> id_lt((#[trigger] s[j]).id, id),
        place(s, id) < s.len() ==> !id_lt(s[place(s, id)].id, id),
    decreases s.len(),
{
    if s.len() > 0 && id_lt(s[0].id, id) {
        let t = s.drop_first();
        lemma_place_splits(t, id);
        assert forall|j: int| 0 <= j < place(s, id) implies id_lt((#[trigger] s[j]).id, id) by {
            if j > 0 {
                assert(s[j] == t[j - 1]);
            }
        }
        if place(s, id) < s.len() {
            assert(s[place(s, id)] == t[place(t, id)]);
        }
    }
}

/// A leave keeps the order.
pub proof fn lemma_left_sorted(s: Seq<RemotePlayerView>, id: Seq<char>)
    requires
        sorted(s),
    ensures
        sorted(left(s, id)),
{
    if listed(s, id) {
        lemma_place_of_listed(s, id);
        let at = place(s, id);
        let t = s.remove(at);
        assert forall|a: int, b: int| 0 <= a < b < t.len() implies id_lt(
            #[trigger] t[a].id,
            #[trigger] t[b].id,
        ) by {
            let a0 = if a < at { a } else { a + 1 };
            let b0 = if b < at { b } else { b + 1 };
            assert(t[a] == s[a0] && t[b] == s[b0]);
        }
    }
}

/// Replacing a mirror by one with the same identifier keeps the order.
pub proof fn lemma_update_keeps_order(s: Seq<RemotePlayerView>, at: int, m: RemotePlayerView)
    requires
        sorted(s),
        0 <= at < s.len(),
        m.id == s[at].id,
    ensures
        sorted(s.update(at, m)),
        forall|id: Seq<char>| listed(s.update(at, m), id) == listed(s, id),
{
    let t = s.update(at, m);
    assert forall|i: int, j: int| 0 <= i < j < t.len() implies id_lt(
        #[trigger] t[i].id,
        #[trigger] t[j].id,
    ) by {
        assert(t[i].id == s[i].id && t[j].id == s[j].id);
    }
    assert forall|id: Seq<char>| listed(t, id) == listed(s, id) by {
        if listed(t, id) {
            let k = choose|k: int| 0 <= k < t.len() && #[trigger] t[k].id == id;
            assert(s[k].id == id);
        }
        if listed(s, id) {
            let k = choose|k: int| 0 <= k < s.len() && #[trigger] s[k].id == id;
            assert(t[k].id == id);
        }
    }
}

/// The views of a vector of mirrors.
pub open spec fn views(v: Seq<RemotePlayer>) -> Seq<RemotePlayerView> {
    v.map_values(|p: RemotePlayer| p@)
}

/// The other participants, in ascending order of identifier.
#[derive(Clone, Debug)]
pub struct PeerDirectory {
    pub peers: Vec<RemotePlayer>,
}

impl View for PeerDirectory {
    type V = Seq<RemotePlayerView>;

    open spec fn view(&self) -> Seq<RemotePlayerView> {
        views(self.peers@)
    }
}

impl PeerDirectory {
    /// The directory's invariant: ascending order.
    pub open spec fn wf(&self) -> bool {
        sorted(self@)
    }

    /// A directory without mirrors.
    pub fn new() -> (r: PeerDirectory)
        ensures
            r@ == Seq::<RemotePlayerView>::empty(),
            r.wf(),
    {
        let r = PeerDirectory { peers: Vec::new() };
        assert(r@ =~= Seq::<RemotePlayerView>::empty());
        r
    }

    /// How many mirrors there are.
    pub fn len(&self) -> (n: usize)
        ensures
            n == self@.len(),
    {
        self.peers.len()
    }

    /// The mirror at a place in the ascending order.
    pub fn get_at(&self, index: usize) -> (r: Option<&RemotePlayer>)
        ensures
            index < self@.len() ==> r is Some && r->Some_0@ == self@[index as int],
            index >= self@.len() ==> r is None,
    {
        if index < self.peers.len() {
            Some(&self.peers[index])
        } else {
            None
        }
    }

    /// The identifiers of all mirrors, in ascending order.
    pub fn ids_in_order(&self) -> (r: Vec<String>)
        ensures
            r@.len() == self@.len(),
            forall|i: int| 0 <= i < r@.len() ==> (#[trigger] r@[i])@ == self@[i].id,
    {
        let mut r: Vec<String> = Vec::new();
        let mut i: usize = 0;
        while i < self.peers.len()
            invariant
                i <= self.peers.len(),
                r@.len() == i,
                forall|j: int| 0 <= j < i ==> (#[trigger] r@[j])@ == self@[j].id,
            decreases self.peers.len() - i,
        {
            r.push(self.peers[i].id.clone());
            i = i + 1;
        }
        r
    }

    /// The place of the mirror with this identifier.
    pub fn find(&self, id: &String) -> (r: Option<usize>)
        ensures
            r is Some ==> r->Some_0 < self@.len() && self@[r->Some_0 as int].id == id@,
            r is Some == listed(self@, id@),
            self.wf() && r is Some ==> r->Some_0 == place(self@, id@),
    {
        let mut i: usize = 0;
        while i < self.peers.len()
            invariant
                i <= self.peers.len(),
                forall|j: int| 0 <= j < i ==> (#[trigger] self@[j]).id != id@,
            decreases self.peers.len() - i,
        {
            if id_same(&self.peers[i].id, id) {
                proof {
                    assert(self@[i as int].id == id@);
                    if self.wf() {
                        lemma_place_of_listed(self@, id@);
                    }
                }
                return Some(i);
            }
            i = i + 1;
        }
        None
    }

    /// The mirror with this identifier.
    pub fn get(&self, id: &String) -> (r: Option<&RemotePlayer>)
        ensures
            r is Some == listed(self@, id@),
            r is Some ==> r->Some_0@.id == id@ && exists|i: int|
                0 <= i < self@.len() && #[trigger] self@[i] == r->Some_0@,
            self.wf() && r is Some ==> r->Some_0@ == self@[place(self@, id@)],
    {
        match self.find(id) {
            Some(i) => {
                assert(self@[i as int] == self.peers[i as int]@);
                Some(&self.peers[i])
            },
            None => None,
        }
    }

    /// Whether a mirror with this identifier is there.
    pub fn contains(&self, id: &String) -> (r: bool)
        ensures
            r == listed(self@, id@),
    {
        self.find(id).is_some()
    }

    /// A participant joined. Where the identifier is new, a fresh mirror is
    /// put at its place in the order and the result is true; where it is
    /// known, nothing changes.
    pub fn on_join(&mut self, id: &str, username: &str) -> (created: bool)
        requires
            old(self).wf(),
        ensures
            final(self).wf(),
            created == !listed(old(self)@, id@),
            final(self)@ == joined(old(self)@, username@, id@),
            !created ==> final(self)@ == old(self)@,
            created ==> exists|at: int|
                0 <= at <= old(self)@.len() && #[trigger] final(self)@ == old(self)@.insert(
                    at,
                    fresh_mirror(username@, id@),
                ),
    {
        let fresh = RemotePlayer::new(username, id);
        let mut i: usize = 0;
        while i < self.peers.len() && id_before(&self.peers[i].id, &fresh.id)
            invariant
                i <= self.peers.len(),
                *self == *old(self),
                fresh@ == fresh_mirror(username@, id@),
                forall|j: int| 0 <= j < i ==> id_lt((#[trigger] self@[j]).id, id@),
            decreases self.peers.len() - i,
        {
            i = i + 1;
        }
        if i < self.peers.len() && id_same(&self.peers[i].id, &fresh.id) {
            proof {
                assert(self@[i as int].id == id@);
            }
            return false;
        }
        proof {
            lemma_place(self@, id@, i as int);
            lemma_place_of_listed(self@, id@);
            lemma_joined_sorted(self@, username@, id@);
        }
        let ghost before = self.peers@;
        self.peers.insert(i, fresh);
        proof {
            assert(views(self.peers@) =~= views(before).insert(i as int, fresh@));
        }
        true
    }

    /// Hands a snapshot to the mirror at `index` and returns what it asks
    /// of the surrounding game.
    pub fn apply_state_at(&mut self, index: usize, s: &PlayerSnapshot) -> (effects: Vec<Effect>)
        requires
            old(self).wf(),
            index < old(self)@.len(),
        ensures
            final(self).wf(),
            final(self)@ == old(self)@.update(
                index as int,
                mirror_after(old(self)@[index as int], *s),
            ),
            effects@ == state_effects(old(self)@[index as int], *s),
    {
        let ghost before = self.peers@;
        let effects = self.peers[index].apply_state(s);
        proof {
            assert(views(self.peers@) =~= views(before).update(
                index as int,
                mirror_after(views(before)[index as int], *s),
            ));
            lemma_update_keeps_order(
                views(before),
                index as int,
                mirror_after(views(before)[index as int], *s),
            );
        }
        effects
    }

    /// Records that the participant at `index` is ready.
    pub fn mark_ready_at(&mut self, index: usize)
        requires
            old(self).wf(),
            index < old(self)@.len(),
        ensures
            final(self).wf(),
            final(self)@ == old(self)@.update(
                index as int,
                RemotePlayerView { ready: true, ..old(self)@[index as int] },
            ),
    {
        let ghost before = self.peers@;
        self.peers[index].ready = true;
        proof {
            let m = RemotePlayerView { ready: true, ..views(before)[index as int] };
            assert(views(self.peers@) =~= views(before).update(index as int, m));
            lemma_update_keeps_order(views(before), index as int, m);
        }
    }

    /// A participant left. Its mirror, if there is one, is taken out and
    /// returned; the others stay as they are.
    pub fn on_leave(&mut self, id: &String) -> (r: Option<RemotePlayer>)
        requires
            old(self).wf(),
        ensures
            final(self).wf(),
            r is Some == listed(old(self)@, id@),
            final(self)@ == left(old(self)@, id@),
            r is Some ==> r->Some_0@ == old(self)@[place(old(self)@, id@)],
            r is None ==> final(self)@ == old(self)@,
            r is Some ==> r->Some_0@.id == id@ && exists|at: int|
                0 <= at < old(self)@.len() && old(self)@[at] == r->Some_0@
                    && #[trigger] final(self)@ == old(self)@.remove(at),
    {
        match self.find(id) {
            Some(i) => {
                let ghost before = self.peers@;
                let gone = self.peers.remove(i);
                proof {
                    assert(views(self.peers@) =~= views(before).remove(i as int));
                    assert(views(before)[i as int] == gone@);
                    lemma_left_sorted(views(before), id@);
                }
                Some(gone)
            },
            None => None,
        }
    }
}

} // verus!
