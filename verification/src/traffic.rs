//! Byte and connection counters for proxied traffic.
//!
//! The counters wrap around on overflow, as atomic counters do.
use vstd::prelude::*;

verus! {

/// `a + b` modulo 2^64.
pub open spec fn wrap_add_u64(a: u64, b: u64) -> u64 {
    if a + b > u64::MAX {
        (a + b - 0x1_0000_0000_0000_0000) as u64
    } else {
        (a + b) as u64
    }
}

/// `a + 1` modulo 2^32.
pub open spec fn wrap_inc_u32(a: u32) -> u32 {
    if a == u32::MAX {
        0
    } else {
        (a + 1) as u32
    }
}

/// `a - 1` modulo 2^32.
pub open spec fn wrap_dec_u32(a: u32) -> u32 {
    if a == 0 {
        u32::MAX
    } else {
        (a - 1) as u32
    }
}

/// Adds modulo 2^64.
pub fn wrapping_add_u64(a: u64, b: u64) -> (r: u64)
    ensures
        r == wrap_add_u64(a, b),
{
    if b > u64::MAX - a {
        b - (u64::MAX - a) - 1
    } else {
        a + b
    }
}

/// Increments modulo 2^32.
pub fn wrapping_inc_u32(a: u32) -> (r: u32)
    ensures
        r == wrap_inc_u32(a),
{
    if a == u32::MAX {
        0
    } else {
        a + 1
    }
}

/// Decrements modulo 2^32.
pub fn wrapping_dec_u32(a: u32) -> (r: u32)
    ensures
        r == wrap_dec_u32(a),
{
    if a == 0 {
        u32::MAX
    } else {
        a - 1
    }
}

/// Totals of bytes sent and received and the number of open connections.
///
/// A counter is not `Clone`: the connections that count into the same totals
/// share one counter (the program holds it behind a lock), so there is never a
/// second copy whose counts could drift apart from it.
#[derive(Debug)]
pub struct TrafficCounter {
    pub bytes_sent: u64,
    pub bytes_received: u64,
    pub active_connections: u32,
}

/// A reading of a `TrafficCounter`.
#[derive(Debug, Clone, Copy)]
pub struct TrafficSnapshot {
    pub bytes_sent: u64,
    pub bytes_received: u64,
    pub active_connections: u32,
}

impl TrafficCounter {
    /// All counters at zero.
    pub fn new() -> (c: Self)
        ensures
            c.bytes_sent == 0,
            c.bytes_received == 0,
            c.active_connections == 0,
    {
        TrafficCounter { bytes_sent: 0, bytes_received: 0, active_connections: 0 }
    }

    /// Counts `n` more bytes sent.
    pub fn add_sent(&mut self, n: u64)
        ensures
            final(self).bytes_sent == wrap_add_u64(old(self).bytes_sent, n),
            final(self).bytes_received == old(self).bytes_received,
            final(self).active_connections == old(self).active_connections,
    {
        self.bytes_sent = wrapping_add_u64(self.bytes_sent, n);
    }

    /// Counts `n` more bytes received.
    pub fn add_received(&mut self, n: u64)
        ensures
            final(self).bytes_received == wrap_add_u64(old(self).bytes_received, n),
            final(self).bytes_sent == old(self).bytes_sent,
            final(self).active_connections == old(self).active_connections,
    {
        self.bytes_received = wrapping_add_u64(self.bytes_received, n);
    }

    /// Counts `size` bytes as sent when `is_upload` is set, otherwise as received.
    pub fn add(&mut self, size: u64, is_upload: bool)
        ensures
            is_upload ==> final(self).bytes_sent == wrap_add_u64(old(self).bytes_sent, size)
                && final(self).bytes_received == old(self).bytes_received,
            !is_upload ==> final(self).bytes_received == wrap_add_u64(old(self).bytes_received, size)
                && final(self).bytes_sent == old(self).bytes_sent,
            final(self).active_connections == old(self).active_connections,
    {
        if is_upload {
            self.add_sent(size);
        } else {
            self.add_received(size);
        }
    }

    /// One more open connection.
    pub fn inc_connections(&mut self)
        ensures
            final(self).active_connections == wrap_inc_u32(old(self).active_connections),
            final(self).bytes_sent == old(self).bytes_sent,
            final(self).bytes_received == old(self).bytes_received,
    {
        self.active_connections = wrapping_inc_u32(self.active_connections);
    }

    /// One open connection fewer.
    pub fn dec_connections(&mut self)
        ensures
            final(self).active_connections == wrap_dec_u32(old(self).active_connections),
            final(self).bytes_sent == old(self).bytes_sent,
            final(self).bytes_received == old(self).bytes_received,
    {
        self.active_connections = wrapping_dec_u32(self.active_connections);
    }

    /// The current values.
    pub fn snapshot(&self) -> (s: TrafficSnapshot)
        ensures
            s.bytes_sent == self.bytes_sent,
            s.bytes_received == self.bytes_received,
            s.active_connections == self.active_connections,
    {
        TrafficSnapshot {
            bytes_sent: self.bytes_sent,
            bytes_received: self.bytes_received,
            active_connections: self.active_connections,
        }
    }
}

impl Default for TrafficCounter {
    fn default() -> (c: Self)
        ensures
            c.bytes_sent == 0,
            c.bytes_received == 0,
            c.active_connections == 0,
    {
        TrafficCounter::new()
    }
}

/// Opening a connection and closing it leaves the connection count as it was.
pub proof fn lemma_open_close_connection(count: u32)
    ensures
        wrap_dec_u32(wrap_inc_u32(count)) == count,
{
}

/// Per-peer upload and download totals, keyed by peer in the owner's table.
#[derive(Debug, Clone, Copy)]
pub struct Traffic {
    pub upload: u64,
    pub download: u64,
}

} // verus!
