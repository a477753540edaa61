//! Peer synchronisation for a small realtime multiplayer game.
//!
//! Each participant packs its own player's state into eleven bytes
//! ([`codec`]), sends it when the send cache says so ([`cache`]), and keeps
//! a mirror of every other participant ([`peers`]) from what it receives
//! ([`message`], [`wire`]). The participant whose identifier comes first
//! ([`ident`]) is the host ([`host`]): it spawns the shared objects
//! ([`global_events`], [`pickups`]) and starts the match from the lobby.
//! [`session`] ties these together in one tick per frame and says what the
//! surrounding game has to do ([`effects`]).
//!
//! Around that core stand the transport's types ([`nakama`]), the relay
//! server's handshake and connection states ([`shared`], [`server`]), and
//! the timed weapons and death sequence ([`plugin_api`], [`items`],
//! [`death`]). Bits are read and written by [`bits`].

pub mod bits;
pub mod cache;
pub mod codec;
pub mod death;
pub mod effects;
pub mod global_events;
pub mod host;
pub mod ident;
pub mod items;
pub mod message;
pub mod nakama;
pub mod peers;
pub mod pickups;
pub mod plugin_api;
pub mod server;
pub mod session;
pub mod shared;
pub mod wire;
