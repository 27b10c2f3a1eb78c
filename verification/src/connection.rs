//! Bookkeeping for the connection to one remote peer: where it stands in its
//! life, which sequence number was issued last, and when the peer was last
//! heard from.

use vstd::prelude::*;
use crate::clock::unix_time_now;

verus! {

/// Where a connection stands.
#[derive(Debug, Clone, Copy, PartialEq, Eq, Structural)]
pub enum ConnectionState {
    /// Not connected.
    Disconnected,
    /// Attempting to connect.
    Connecting,
    /// Connected and ready.
    Connected,
    /// The attempt or the connection failed.
    Failed,
}

/// What can happen to a connection.
#[derive(Debug, Clone, Copy, PartialEq, Eq, Structural)]
pub enum ConnectionEvent {
    /// The local side asks to connect.
    ConnectRequested,
    /// The peer's handshake arrived unasked.
    HandshakeReceived,
    /// The peer acknowledged the handshake.
    HandshakeAcknowledged,
    /// A timeout or an error was detected.
    Failure,
    /// The caller puts the connection back to its start.
    Reset,
}

impl ConnectionState {
    /// The state that follows `self` on `event`. A failure leads to `Failed`
    /// from every state; any other event that does not apply in a state
    /// leaves it as it is.
    pub open spec fn after(self, event: ConnectionEvent) -> ConnectionState {
        match (self, event) {
            (ConnectionState::Disconnected, ConnectionEvent::ConnectRequested) => {
                ConnectionState::Connecting
            },
            (ConnectionState::Disconnected, ConnectionEvent::HandshakeReceived) => {
                ConnectionState::Connecting
            },
            (ConnectionState::Connecting, ConnectionEvent::HandshakeAcknowledged) => {
                ConnectionState::Connected
            },
            (_, ConnectionEvent::Failure) => ConnectionState::Failed,
            (ConnectionState::Connected, ConnectionEvent::Reset) => ConnectionState::Disconnected,
            (ConnectionState::Failed, ConnectionEvent::Reset) => ConnectionState::Disconnected,
            _ => self,
        }
    }

    /// The state reached from `self` by a run of events, first to last.
    pub open spec fn after_all(self, events: Seq<ConnectionEvent>) -> ConnectionState
        decreases events.len(),
    {
        if events.len() == 0 {
            self
        } else {
            self.after_all(events.drop_last()).after(events.last())
        }
    }

    /// Moves to the state that follows on `event`.
    pub fn next(self, event: ConnectionEvent) -> (state: ConnectionState)
        ensures
            state == self.after(event),
    {
        match event {
            ConnectionEvent::ConnectRequested | ConnectionEvent::HandshakeReceived => match self {
                ConnectionState::Disconnected => ConnectionState::Connecting,
                _ => self,
            },
            ConnectionEvent::HandshakeAcknowledged => match self {
                ConnectionState::Connecting => ConnectionState::Connected,
                _ => self,
            },
            ConnectionEvent::Failure => ConnectionState::Failed,
            ConnectionEvent::Reset => match self {
                ConnectionState::Connected | ConnectionState::Failed => {
                    ConnectionState::Disconnected
                },
                _ => self,
            },
        }
    }
}

/// An endpoint address, of either family.
#[derive(Debug, Clone, Copy, PartialEq, Eq)]
pub enum PeerAddr {
    /// An IPv4 address and port.
    V4 { octets: [u8; 4], port: u16 },
    /// An IPv6 address and port, with flow information and scope.
    V6 { segments: [u16; 8], port: u16, flowinfo: u32, scope_id: u32 },
}

/// The connection to one remote peer.
#[derive(Debug, Clone)]
pub struct P2PConnection {
    /// Identifier of the remote peer.
    pub peer_id: String,
    /// The local endpoint.
    pub local_addr: PeerAddr,
    /// The peer's endpoint.
    pub remote_addr: PeerAddr,
    /// Where the connection stands.
    pub state: ConnectionState,
    /// When the peer was last heard from, in seconds since the Unix epoch.
    pub last_ping: u64,
    /// The sequence number issued last.
    pub sequence_num: u32,
}

/// The sequence number that follows `n`: one more, and zero after the largest.
pub open spec fn sequence_after(n: u32) -> u32 {
    if n == u32::MAX {
        0
    } else {
        (n + 1) as u32
    }
}

/// The later of the last contact and a newly reported one.
pub open spec fn latest_contact(last_contact: u64, timestamp: u64) -> u64 {
    if timestamp > last_contact {
        timestamp
    } else {
        last_contact
    }
}

/// A keep-alive is due when more than `timeout_secs` seconds have passed
/// between `last_contact` and `now`. A clock that reads earlier than the last
/// contact has let no time pass.
pub open spec fn keepalive_due(last_contact: u64, now: u64, timeout_secs: u64) -> bool {
    now - last_contact > timeout_secs
}

impl P2PConnection {
    /// A connection that was created at `now`: disconnected, with no sequence
    /// number issued yet.
    pub fn new_at(peer_id: String, local_addr: PeerAddr, remote_addr: PeerAddr, now: u64) -> (conn:
        Self)
        ensures
            conn == (P2PConnection {
                peer_id,
                local_addr,
                remote_addr,
                state: ConnectionState::Disconnected,
                last_ping: now,
                sequence_num: 0,
            }),
    {
        P2PConnection {
            peer_id,
            local_addr,
            remote_addr,
            state: ConnectionState::Disconnected,
            last_ping: now,
            sequence_num: 0,
        }
    }

    /// A connection created at the current time. Whatever the clock reads,
    /// it is disconnected and has issued no sequence number.
    pub fn new(peer_id: String, local_addr: PeerAddr, remote_addr: PeerAddr) -> (conn: Self)
        ensures
            conn == (P2PConnection {
                peer_id,
                local_addr,
                remote_addr,
                state: ConnectionState::Disconnected,
                last_ping: conn.last_ping,
                sequence_num: 0,
            }),
    {
        let now = unix_time_now();
        P2PConnection::new_at(peer_id, local_addr, remote_addr, now)
    }

    /// Issues the next sequence number: one more than the last, and zero
    /// after the largest.
    pub fn next_sequence(&mut self) -> (n: u32)
        ensures
            n == sequence_after(old(self).sequence_num),
            *final(self) == (P2PConnection { sequence_num: n, ..*old(self) }),
    {
        self.sequence_num = self.sequence_num.wrapping_add(1);
        self.sequence_num
    }

    /// Tells whether a keep-alive is due at `now`.
    pub fn needs_keepalive_at(&self, now: u64, timeout_secs: u64) -> (due: bool)
        ensures
            due == keepalive_due(self.last_ping, now, timeout_secs),
    {
        now > self.last_ping && now - self.last_ping > timeout_secs
    }

    /// Tells whether a keep-alive is due at the current time: the answer of
    /// `needs_keepalive_at` for whatever the clock reads.
    pub fn needs_keepalive(&self, timeout_secs: u64) -> (due: bool)
        ensures
            exists|now: u64| due == #[trigger] keepalive_due(self.last_ping, now, timeout_secs),
    {
        let now = unix_time_now();
        let due = self.needs_keepalive_at(now, timeout_secs);
        assert(due == keepalive_due(self.last_ping, now, timeout_secs));
        due
    }

    /// Notes that the peer was heard from at `timestamp`. The last contact
    /// only moves forward: a stale or replayed packet does not set it back.
    pub fn record_contact(&mut self, timestamp: u64)
        ensures
            *final(self) == (P2PConnection {
                last_ping: latest_contact(old(self).last_ping, timestamp),
                ..*old(self)
            }),
    {
        if timestamp > self.last_ping {
            self.last_ping = timestamp;
        }
    }

    /// Applies an event to the connection's state.
    pub fn apply(&mut self, event: ConnectionEvent)
        ensures
            *final(self) == (P2PConnection {
                state: old(self).state.after(event),
                ..*old(self)
            }),
    {
        self.state = self.state.next(event);
    }

    /// Starts a connection attempt: a disconnected peer becomes connecting.
    pub fn connect(&mut self)
        ensures
            *final(self) == (P2PConnection {
                state: old(self).state.after(ConnectionEvent::ConnectRequested),
                ..*old(self)
            }),
    {
        self.apply(ConnectionEvent::ConnectRequested);
    }

    /// Takes in a handshake that the peer sent unasked: a disconnected peer
    /// becomes connecting, as the responder.
    pub fn handshake_received(&mut self)
        ensures
            *final(self) == (P2PConnection {
                state: old(self).state.after(ConnectionEvent::HandshakeReceived),
                ..*old(self)
            }),
    {
        self.apply(ConnectionEvent::HandshakeReceived);
    }

    /// Takes in the peer's acknowledgement, received at `timestamp`: a
    /// connecting peer becomes connected, and the contact is recorded.
    pub fn handshake_acknowledged(&mut self, timestamp: u64)
        ensures
            *final(self) == (P2PConnection {
                state: old(self).state.after(ConnectionEvent::HandshakeAcknowledged),
                last_ping: latest_contact(old(self).last_ping, timestamp),
                ..*old(self)
            }),
    {
        self.apply(ConnectionEvent::HandshakeAcknowledged);
        self.record_contact(timestamp);
    }

    /// Marks the connection as failed, wherever it stood.
    pub fn fail(&mut self)
        ensures
            *final(self) == (P2PConnection {
                state: old(self).state.after(ConnectionEvent::Failure),
                ..*old(self)
            }),
    {
        self.apply(ConnectionEvent::Failure);
    }

    /// Puts a connected or failed connection back to disconnected.
    pub fn reset(&mut self)
        ensures
            *final(self) == (P2PConnection {
                state: old(self).state.after(ConnectionEvent::Reset),
                ..*old(self)
            }),
    {
        self.apply(ConnectionEvent::Reset);
    }
}

/// No step skips the attempt: a connection that becomes connected was
/// connecting just before.
pub proof fn lemma_connected_only_from_connecting(state: ConnectionState, event: ConnectionEvent)
    requires
        state != ConnectionState::Connected,
        state.after(event) == ConnectionState::Connected,
    ensures
        state == ConnectionState::Connecting,
        event == ConnectionEvent::HandshakeAcknowledged,
{
}

/// Whatever run of events leads a disconnected peer to connected, the peer
/// was connecting at some point of it.
pub proof fn lemma_run_passes_connecting(events: Seq<ConnectionEvent>)
    requires
        ConnectionState::Disconnected.after_all(events) == ConnectionState::Connected,
    ensures
        exists|k: int|
            0 <= k < events.len() && #[trigger] ConnectionState::Disconnected.after_all(
                events.take(k),
            ) == ConnectionState::Connecting,
    decreases events.len(),
{
    let start = ConnectionState::Disconnected;
    assert(events.len() > 0);
    let before = events.drop_last();
    let prior = start.after_all(before);
    if prior == ConnectionState::Connected {
        lemma_run_passes_connecting(before);
        let k = choose|k: int|
            0 <= k < before.len() && #[trigger] start.after_all(before.take(k))
                == ConnectionState::Connecting;
        assert(before.take(k) == events.take(k));
    } else {
        lemma_connected_only_from_connecting(prior, events.last());
        let k = events.len() - 1;
        assert(events.take(k) == before);
    }
}

/// Sequence numbers count modulo 2^32, and no two numbers have the same
/// successor.
pub proof fn lemma_sequence_counts_modulo(n: u32, m: u32)
    ensures
        sequence_after(n) == (n + 1) % 0x1_0000_0000,
        sequence_after(n) == sequence_after(m) ==> n == m,
{
}

/// Once a keep-alive is due it stays due as the clock moves on, until a
/// contact is recorded.
pub proof fn lemma_keepalive_stays_due(last_contact: u64, now: u64, later: u64, timeout_secs: u64)
    requires
        keepalive_due(last_contact, now, timeout_secs),
        now <= later,
    ensures
        keepalive_due(last_contact, later, timeout_secs),
{
}

/// A contact recorded at `now` puts off the keep-alive: none is due at `now`,
/// whatever the timeout.
pub proof fn lemma_contact_puts_off_keepalive(last_contact: u64, now: u64, timeout_secs: u64)
    ensures
        !keepalive_due(latest_contact(last_contact, now), now, timeout_secs),
{
}

/// The last contact never moves back, and is never earlier than a contact
/// that was recorded.
pub proof fn lemma_contact_monotone(last_contact: u64, timestamp: u64)
    ensures
        latest_contact(last_contact, timestamp) >= last_contact,
        latest_contact(last_contact, timestamp) >= timestamp,
{
}

/// Recording contacts in either order leaves the same last contact: packets
/// that arrive out of order do no harm.
pub proof fn lemma_contact_order_free(last_contact: u64, first: u64, second: u64)
    ensures
        latest_contact(latest_contact(last_contact, first), second) == latest_contact(
            latest_contact(last_contact, second),
            first,
        ),
{
}

} // verus!
