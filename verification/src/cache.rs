//! The send cache: what was sent last and when, so that an unchanged
//! snapshot is sent again only once per heartbeat interval.
//!
//! Time is a count of microseconds from any fixed start.

use vstd::prelude::*;

verus! {

/// How often per second a snapshot is sent at least.
pub const NETWORK_FPS: u64 = 15;

/// Microseconds in a second.
pub const MICROS_PER_SECOND: u64 = 1_000_000;

/// The least whole number of microseconds that is a heartbeat interval.
pub const HEARTBEAT_MICROS: u64 = 66_667;

/// Time passed from `last` to `now`; none where the clock went back.
pub open spec fn elapsed(last: u64, now: u64) -> nat {
    if now >= last {
        (now - last) as nat
    } else {
        0
    }
}

/// Whether a heartbeat interval, the `NETWORK_FPS`-th part of a second,
/// has passed in `micros` microseconds.
pub open spec fn heartbeat_due(micros: nat) -> bool {
    micros * NETWORK_FPS as nat >= MICROS_PER_SECOND as nat
}

/// Whether two snapshots are the same bytes.
pub fn same_bytes(a: &[u8; 11], b: &[u8; 11]) -> (r: bool)
    ensures
        r == (a@ == b@),
{
    let mut i: usize = 0;
    while i < 11
        invariant
            i <= 11,
            forall|j: int| 0 <= j < i ==> a@[j] == b@[j],
        decreases 11 - i,
    {
        if a[i] != b[i] {
            return false;
        }
        i = i + 1;
    }
    assert(a@ =~= b@);
    true
}

/// What the local peer sent last.
#[derive(Clone, Copy, Debug)]
pub struct NetworkCache {
    /// The snapshot sent last; zeroes after a flush.
    pub sent_position: [u8; 11],
    /// When it was sent; zero after a flush.
    pub last_send_time: u64,
    /// Set by a flush and cleared by the next send.
    pub flushed: bool,
}

/// A [`NetworkCache`] as contracts see it.
pub struct CacheView {
    pub sent_position: Seq<u8>,
    pub last_send_time: u64,
    pub flushed: bool,
}

impl View for NetworkCache {
    type V = CacheView;

    open spec fn view(&self) -> CacheView {
        CacheView {
            sent_position: self.sent_position@,
            last_send_time: self.last_send_time,
            flushed: self.flushed,
        }
    }
}

/// The cache in its flushed state: zeroes, and marked.
pub open spec fn flushed_cache() -> CacheView {
    CacheView { sent_position: Seq::new(11, |i: int| 0u8), last_send_time: 0, flushed: true }
}

/// The cache after `encoded` was sent at time `now`.
pub open spec fn cache_after_send(encoded: Seq<u8>, now: u64) -> CacheView {
    CacheView { sent_position: encoded, last_send_time: now, flushed: false }
}

/// A snapshot is due when the cache was flushed, when a send is forced,
/// when the snapshot differs from the one sent last, or when a heartbeat
/// interval has passed since.
pub open spec fn send_due(cache: CacheView, encoded: Seq<u8>, now: u64, forced: bool) -> bool {
    cache.flushed || forced || encoded != cache.sent_position || heartbeat_due(
        elapsed(cache.last_send_time, now),
    )
}

impl NetworkCache {
    /// The cache is in its flushed state.
    pub open spec fn is_flushed(self) -> bool {
        self@ == flushed_cache()
    }

    /// Whether `encoded` is due at time `now`: see [`send_due`].
    pub open spec fn spec_should_send(self, encoded: Seq<u8>, now: u64, forced: bool) -> bool {
        send_due(self@, encoded, now, forced)
    }

    /// A cache that lets the first snapshot through.
    pub fn new() -> (r: NetworkCache)
        ensures
            r.is_flushed(),
    {
        let r = NetworkCache { sent_position: [0u8; 11], last_send_time: 0, flushed: true };
        assert(r.sent_position@ =~= Seq::new(11, |i: int| 0u8));
        r
    }

    /// Forgets what was sent, so that the next snapshot is sent whatever it
    /// holds.
    pub fn flush(&mut self)
        ensures
            final(self).is_flushed(),
    {
        self.sent_position = [0u8; 11];
        self.last_send_time = 0;
        self.flushed = true;
        assert(self.sent_position@ =~= Seq::new(11, |i: int| 0u8));
    }

    /// Whether the snapshot `encoded` is to be sent at time `now`.
    pub fn should_send(&self, encoded: &[u8; 11], now: u64, forced: bool) -> (r: bool)
        ensures
            r == self.spec_should_send(encoded@, now, forced),
    {
        if self.flushed || forced {
            return true;
        }
        if !same_bytes(encoded, &self.sent_position) {
            return true;
        }
        now >= self.last_send_time && now - self.last_send_time >= HEARTBEAT_MICROS
    }

    /// Records that `encoded` was sent at time `now`.
    pub fn record_send(&mut self, encoded: &[u8; 11], now: u64)
        ensures
            final(self)@ == cache_after_send(encoded@, now),
    {
        self.sent_position = *encoded;
        self.last_send_time = now;
        self.flushed = false;
    }
}

/// After a send, the same snapshot is held back until a heartbeat interval
/// has passed, and is due from then on.
pub proof fn lemma_suppression(encoded: Seq<u8>, sent_at: u64, now: u64)
    ensures
        send_due(cache_after_send(encoded, sent_at), encoded, now, false) == heartbeat_due(
            elapsed(sent_at, now),
        ),
        now < sent_at + HEARTBEAT_MICROS ==> !send_due(
            cache_after_send(encoded, sent_at),
            encoded,
            now,
            false,
        ),
        now >= sent_at + HEARTBEAT_MICROS ==> send_due(
            cache_after_send(encoded, sent_at),
            encoded,
            now,
            false,
        ),
{
}

/// After a flush every snapshot is due, at any time.
pub proof fn lemma_flush_forces_send(encoded: Seq<u8>, now: u64, forced: bool)
    ensures
        send_due(flushed_cache(), encoded, now, forced),
{
}

} // verus!
