//! The transport as a desktop build has it: nothing is connected, nothing is
//! received and every request is dropped. The types are those that a
//! connected transport hands over.

use vstd::prelude::*;

verus! {

/// A message received from another participant.
#[derive(Clone, Debug, PartialEq, Eq)]
pub struct MatchData {
    pub data: Vec<u8>,
    pub opcode: i32,
    pub user_id: String,
}

/// A change of membership.
#[derive(Clone, Debug, PartialEq, Eq)]
pub enum Event {
    Join { network_id: String, username: String },
    Leave(String),
}

/// An [`Event`] as contracts see it.
pub enum EventView {
    Join { network_id: Seq<char>, username: Seq<char> },
    Leave(Seq<char>),
}

impl View for Event {
    type V = EventView;

    open spec fn view(&self) -> EventView {
        match *self {
            Event::Join { network_id, username } => EventView::Join {
                network_id: network_id@,
                username: username@,
            },
            Event::Leave(id) => EventView::Leave(id@),
        }
    }
}

impl Event {
    /// The event that the presence feed reports with kind number `kind`:
    /// 1 is a join, 2 a leave. Other kinds are no event.
    pub fn from_kind(kind: u32, user_id: String, username: String) -> (r: Option<Event>)
        ensures
            kind == 1 ==> r is Some && r->Some_0@ == (EventView::Join {
                network_id: user_id@,
                username: username@,
            }),
            kind == 2 ==> r is Some && r->Some_0@ == EventView::Leave(user_id@),
            kind != 1 && kind != 2 ==> r is None,
    {
        if kind == 1 {
            Some(Event::Join { network_id: user_id, username })
        } else if kind == 2 {
            Some(Event::Leave(user_id))
        } else {
            None
        }
    }
}

/// One line of a leaderboard.
#[derive(Clone, Debug, PartialEq, Eq)]
pub struct LeaderboardRecord {
    pub username: String,
    pub score: i32,
}

/// Opens no connection.
pub fn connect(_key: &str, _server: &str, _port: u32, _protocol: &str) {
}

/// The local participant's identifier: always `"self"`.
pub fn self_id() -> (id: String)
    ensures
        id@ == "self"@,
{
    "self".to_owned()
}

/// Drops the message.
pub fn send_bin(_opcode: i32, _data: &[u8]) {
}

/// The next message received: never one.
pub fn try_recv() -> (r: Option<MatchData>)
    ensures
        r is None,
{
    None
}

/// The next change of membership: never one.
pub fn events() -> (r: Option<Event>)
    ensures
        r is None,
{
    None
}

/// Signs nobody in.
pub fn authenticate(_email: &str, _password: &str) {
}

/// Signs nobody out.
pub fn logout() {
}

/// Creates no match.
pub fn create_private_match() {
}

/// Joins no queue.
pub fn add_matchmaker() {
}

/// Registers nobody.
pub fn register(_email: &str, _password: &str, _username: &str) {
}

/// Whether a request is under way: never.
pub fn async_in_progress() -> (r: bool)
    ensures
        !r,
{
    false
}

/// Leaves no match.
pub fn leave_match() {
}

/// Whether somebody is signed in: never.
pub fn authenticated() -> (r: bool)
    ensures
        !r,
{
    false
}

/// The match joined: never one.
pub fn match_id() -> (r: Option<String>)
    ensures
        r is None,
{
    None
}

/// Joins no match.
pub fn join_match(_match_id: &str) {
}

/// The last error: always that the transport is not there.
pub fn error() -> (r: Option<String>)
    ensures
        r is Some,
        r->Some_0@ == "Nakama on desktop is not supported."@,
{
    Some("Nakama on desktop is not supported.".to_owned())
}

/// The name signed in with: never one.
pub fn username() -> (r: Option<String>)
    ensures
        r is None,
{
    None
}

/// Records no win.
pub fn add_leaderboard_win() {
}

/// Requests no leaderboard.
pub fn load_leaderboard_records() {
}

/// The leaderboard loaded: never one.
pub fn leaderboard_records() -> (r: Option<Vec<LeaderboardRecord>>)
    ensures
        r is None,
{
    None
}

} // verus!
