//! Decisions of the background streaming client: connection state,
//! reconnect backoff and heartbeat cadence.

use crate::protocol::{encode, heartbeat_view, AudioPacket, PacketView};
use vstd::prelude::*;

verus! {

/// State of the streaming client's connection.
#[derive(Debug, Clone, Copy, PartialEq, Eq, Structural)]
pub enum ConnectionState {
    Disconnected,
    Connecting,
    Connected,
    Error,
}

impl ConnectionState {
    /// Whether the state is `Connected`.
    pub fn is_connected(&self) -> (r: bool)
        ensures
            r == (*self == ConnectionState::Connected),
    {
        *self == ConnectionState::Connected
    }
}

/// Port the client connects to until told otherwise.
pub const DEFAULT_PORT: u16 = 9847;

/// Capacity of each fan-out lane; a packet offered to a full lane is dropped.
pub const LANE_CAPACITY: usize = 32;

/// Lowest port a port setting may select.
pub const MIN_PORT: u16 = 1024;

/// The port a port setting selects: the value held to `MIN_PORT..=65535`.
pub fn port_from_setting(value: i32) -> (r: u16)
    ensures
        r == if value < MIN_PORT {
            MIN_PORT as int
        } else if value > u16::MAX {
            u16::MAX as int
        } else {
            value as int
        },
{
    if value < MIN_PORT as i32 {
        MIN_PORT
    } else if value > u16::MAX as i32 {
        u16::MAX
    } else {
        value as u16
    }
}

/// Wait after the first failure of a run of failed connects.
pub const INITIAL_BACKOFF_MS: u64 = 100;

/// Longest wait between connect attempts.
pub const MAX_BACKOFF_MS: u64 = 5000;

/// Longest silence on an open connection before a heartbeat is sent.
pub const HEARTBEAT_INTERVAL_MS: u64 = 1000;

/// Wait before the next attempt after `failures` consecutive failed connects
/// (after a session that ended, `failures` is 0): 100 ms, doubled per
/// further failure, at most 5 s.
pub open spec fn backoff_after(failures: nat) -> nat
    decreases failures,
{
    if failures == 0 {
        INITIAL_BACKOFF_MS as nat
    } else {
        let d = 2 * backoff_after((failures - 1) as nat);
        if d < MAX_BACKOFF_MS { d } else { MAX_BACKOFF_MS as nat }
    }
}

proof fn lemma_backoff_bounds(failures: nat)
    ensures
        INITIAL_BACKOFF_MS <= backoff_after(failures) <= MAX_BACKOFF_MS,
    decreases failures,
{
    if failures > 0 {
        lemma_backoff_bounds((failures - 1) as nat);
    }
}

/// The waits before retrying grow as 100, 200, 400 ms over three consecutive
/// failed connects, double on every further failure until capped at 5 s, and
/// always lie between 100 ms and 5 s.
pub proof fn lemma_backoff_sequence(failures: nat)
    ensures
        backoff_after(0) == 100,
        backoff_after(1) == 200,
        backoff_after(2) == 400,
        backoff_after(failures + 1) == if 2 * backoff_after(failures) < MAX_BACKOFF_MS {
            2 * backoff_after(failures)
        } else {
            MAX_BACKOFF_MS as nat
        },
        INITIAL_BACKOFF_MS <= backoff_after(failures) <= MAX_BACKOFF_MS,
{
    reveal_with_fuel(backoff_after, 3);
    lemma_backoff_bounds(failures);
}

/// Connection supervisor of the streaming client: the published state and
/// the reconnect backoff. The owner runs the attempts and reports outcomes.
pub struct Supervisor {
    state: ConnectionState,
    delay_ms: u64,
    failures: Ghost<nat>,
}

impl Supervisor {
    /// Consecutive failed connects since the last success.
    pub closed spec fn failures(&self) -> nat {
        self.failures@
    }

    /// The published connection state.
    pub closed spec fn spec_state(&self) -> ConnectionState {
        self.state
    }

    /// The stored wait is the backoff for the current run of failures.
    pub closed spec fn wf(&self) -> bool {
        self.delay_ms == backoff_after(self.failures@)
    }

    /// A disconnected supervisor that has seen no failure.
    pub fn new() -> (r: Self)
        ensures
            r.wf(),
            r.spec_state() == ConnectionState::Disconnected,
            r.failures() == 0,
    {
        Supervisor {
            state: ConnectionState::Disconnected,
            delay_ms: INITIAL_BACKOFF_MS,
            failures: Ghost(0),
        }
    }

    /// The published connection state.
    pub fn state(&self) -> (r: ConnectionState)
        ensures
            r == self.spec_state(),
    {
        self.state
    }

    /// A connect attempt starts.
    pub fn begin_attempt(&mut self)
        requires
            old(self).wf(),
            old(self).spec_state() == ConnectionState::Disconnected,
        ensures
            final(self).wf(),
            final(self).spec_state() == ConnectionState::Connecting,
            final(self).failures() == old(self).failures(),
    {
        self.state = ConnectionState::Connecting;
    }

    /// The handshake succeeded: connected, and the backoff starts over.
    pub fn connect_succeeded(&mut self)
        requires
            old(self).wf(),
            old(self).spec_state() == ConnectionState::Connecting,
        ensures
            final(self).wf(),
            final(self).spec_state() == ConnectionState::Connected,
            final(self).failures() == 0,
    {
        self.state = ConnectionState::Connected;
        self.delay_ms = INITIAL_BACKOFF_MS;
        self.failures = Ghost(0);
    }

    /// The attempt failed: disconnected; returns how long to wait before the
    /// next attempt, and the wait after the next failure doubles (capped).
    pub fn connect_failed(&mut self) -> (wait_ms: u64)
        requires
            old(self).wf(),
            old(self).spec_state() == ConnectionState::Connecting,
        ensures
            final(self).wf(),
            final(self).spec_state() == ConnectionState::Disconnected,
            wait_ms == backoff_after(old(self).failures()),
            final(self).failures() == old(self).failures() + 1,
    {
        let wait_ms = self.delay_ms;
        proof {
            lemma_backoff_bounds(self.failures@);
        }
        self.delay_ms = if self.delay_ms < MAX_BACKOFF_MS / 2 {
            2 * self.delay_ms
        } else {
            MAX_BACKOFF_MS
        };
        self.state = ConnectionState::Disconnected;
        self.failures = Ghost(self.failures@ + 1);
        wait_ms
    }

    /// An open connection was lost: disconnected; returns how long to wait
    /// before the next attempt. This is no failed connect, so the backoff
    /// does not grow.
    pub fn session_ended(&mut self) -> (wait_ms: u64)
        requires
            old(self).wf(),
            old(self).spec_state() == ConnectionState::Connected,
        ensures
            final(self).wf(),
            final(self).spec_state() == ConnectionState::Disconnected,
            wait_ms == backoff_after(old(self).failures()),
            final(self).failures() == old(self).failures(),
    {
        self.state = ConnectionState::Disconnected;
        self.delay_ms
    }
}

/// Whether a heartbeat is due at `now_ms` when the last message went out at
/// `last_ms` (both in ms since the connection opened).
pub open spec fn heartbeat_due(last_ms: u64, now_ms: u64) -> bool {
    now_ms >= last_ms + HEARTBEAT_INTERVAL_MS
}

/// What one polling step of an open connection sends, and the new time of
/// the last message: the polled packet if there is one, else a heartbeat if
/// one is due, else nothing.
pub open spec fn outgoing(last_ms: u64, polled: Option<PacketView>, now_ms: u64) -> (
    Option<Seq<u8>>,
    u64,
) {
    match polled {
        Some(p) => (Some(encode(p)), now_ms),
        None => if heartbeat_due(last_ms, now_ms) {
            (Some(encode(heartbeat_view(0, 0))), now_ms)
        } else {
            (None, last_ms)
        },
    }
}

/// With no packet to forward, a heartbeat goes out exactly when a full
/// interval has passed since the last message, and it restarts the interval;
/// a forwarded packet also restarts it, so while packets keep arriving less
/// than an interval apart no heartbeat is sent.
pub proof fn lemma_heartbeat_cadence(last_ms: u64, now_ms: u64, p: PacketView, later_ms: u64)
    requires
        later_ms < now_ms + HEARTBEAT_INTERVAL_MS,
    ensures
        outgoing(last_ms, None, now_ms).0 is Some <==> now_ms >= last_ms + HEARTBEAT_INTERVAL_MS,
        outgoing(last_ms, None, now_ms).0 is Some ==> outgoing(last_ms, None, now_ms).1 == now_ms,
        outgoing(last_ms, None, now_ms).0 is None ==> outgoing(last_ms, None, now_ms).1 == last_ms,
        outgoing(last_ms, Some(p), now_ms) == (Some(encode(p)), now_ms),
        outgoing(outgoing(last_ms, Some(p), now_ms).1, None, later_ms).0 is None,
{
}

/// The model of a packet that may be absent.
pub open spec fn packet_view(o: Option<AudioPacket>) -> Option<PacketView> {
    match o {
        Some(p) => Some(p@),
        None => None,
    }
}

/// Sending side of an open connection: remembers when the last message
/// went out.
pub struct Outbox {
    last_send_ms: u64,
}

impl Outbox {
    /// A connection opened at `now_ms`; the heartbeat interval starts there.
    pub fn new(now_ms: u64) -> (r: Self)
        ensures
            r.last_send() == now_ms,
    {
        Outbox { last_send_ms: now_ms }
    }

    /// Time of the last message sent.
    pub closed spec fn last_send(&self) -> u64 {
        self.last_send_ms
    }

    /// One polling step at `now_ms`: the bytes to send as one binary message,
    /// if any.
    pub fn next_message(&mut self, polled: Option<AudioPacket>, now_ms: u64) -> (r: Option<
        Vec<u8>,
    >)
        ensures
            r is Some <==> outgoing(old(self).last_send(), packet_view(polled), now_ms).0 is Some,
            r matches Some(b) ==> outgoing(
                old(self).last_send(),
                packet_view(polled),
                now_ms,
            ).0 == Some(b@),
            final(self).last_send() == outgoing(
                old(self).last_send(),
                packet_view(polled),
                now_ms,
            ).1,
    {
        match polled {
            Some(p) => {
                self.last_send_ms = now_ms;
                Some(p.to_bytes())
            },
            None => {
                if now_ms >= self.last_send_ms && now_ms - self.last_send_ms
                    >= HEARTBEAT_INTERVAL_MS {
                    self.last_send_ms = now_ms;
                    Some(AudioPacket::new_heartbeat(0, 0).to_bytes())
                } else {
                    None
                }
            },
        }
    }
}

} // verus!
