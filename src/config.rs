//! Server configuration: the session cap, the shortest deadline a client
//! may ask for, and the handshake timeout.
use vstd::prelude::*;

verus! {

/// A span of time: whole seconds and the nanoseconds beyond them.
#[derive(Debug, Clone, Copy, PartialEq, Eq, Structural)]
pub struct TimeSpan {
    secs: u64,
    nanos: u32,
}

impl TimeSpan {
    /// The whole seconds of the span.
    pub closed spec fn spec_secs(&self) -> u64 {
        self.secs
    }

    /// The nanoseconds beyond the whole seconds.
    pub closed spec fn spec_nanos(&self) -> u32 {
        self.nanos
    }

    /// A span of `secs` seconds and `nanos` nanoseconds.
    pub fn new(secs: u64, nanos: u32) -> (r: TimeSpan)
        requires
            nanos < 1_000_000_000,
        ensures
            r.spec_secs() == secs,
            r.spec_nanos() == nanos,
    {
        TimeSpan { secs, nanos }
    }

    /// A span of whole seconds.
    pub fn from_secs(secs: u64) -> (r: TimeSpan)
        ensures
            r.spec_secs() == secs,
            r.spec_nanos() == 0,
    {
        TimeSpan { secs, nanos: 0 }
    }

    /// The whole seconds of the span.
    pub fn as_secs(&self) -> (r: u64)
        ensures
            r == self.spec_secs(),
    {
        self.secs
    }

    /// The nanoseconds beyond the whole seconds.
    pub fn subsec_nanos(&self) -> (r: u32)
        ensures
            r == self.spec_nanos(),
    {
        self.nanos
    }
}

/// Whether a client deadline of `secs` whole seconds is shorter than `min`.
pub open spec fn deadline_below(secs: u64, min: TimeSpan) -> bool {
    secs < min.spec_secs() || (secs == min.spec_secs() && min.spec_nanos() > 0)
}

/// Tests whether a client deadline of `secs` whole seconds is shorter than
/// `min`.
pub fn is_deadline_below(secs: u64, min: &TimeSpan) -> (r: bool)
    ensures
        r == deadline_below(secs, *min),
{
    secs < min.as_secs() || (secs == min.as_secs() && min.subsec_nanos() > 0)
}

/// The default cap on simultaneous sessions.
pub const DEFAULT_MAXIMUM_SESSIONS: usize = 1000;

/// The default shortest client deadline, in seconds.
pub const DEFAULT_MINIMUM_CLIENT_DEADLINE_SECS: u64 = 1;

/// The default handshake timeout, in seconds.
pub const DEFAULT_HANDSHAKE_TIMEOUT_SECS: u64 = 15;

/// The settings of an RPC server.
#[derive(Debug, Clone, Copy)]
pub struct RpcServerBuilder {
    maximum_simultaneous_sessions: Option<usize>,
    minimum_client_deadline: TimeSpan,
    handshake_timeout: TimeSpan,
}

impl RpcServerBuilder {
    /// The session cap; `None` where sessions are unlimited.
    pub closed spec fn spec_max_sessions(&self) -> Option<usize> {
        self.maximum_simultaneous_sessions
    }

    /// The shortest deadline a client may ask for.
    pub closed spec fn spec_min_deadline(&self) -> TimeSpan {
        self.minimum_client_deadline
    }

    /// How long the handshake may take.
    pub closed spec fn spec_handshake_timeout(&self) -> TimeSpan {
        self.handshake_timeout
    }

    /// The default settings: at most 1000 sessions, a shortest client
    /// deadline of one second and a handshake timeout of 15 seconds.
    pub fn new() -> (r: RpcServerBuilder)
        ensures
            r.spec_max_sessions() == Some(DEFAULT_MAXIMUM_SESSIONS),
            r.spec_min_deadline().spec_secs() == DEFAULT_MINIMUM_CLIENT_DEADLINE_SECS,
            r.spec_min_deadline().spec_nanos() == 0,
            r.spec_handshake_timeout().spec_secs() == DEFAULT_HANDSHAKE_TIMEOUT_SECS,
            r.spec_handshake_timeout().spec_nanos() == 0,
    {
        RpcServerBuilder {
            maximum_simultaneous_sessions: Some(DEFAULT_MAXIMUM_SESSIONS),
            minimum_client_deadline: TimeSpan::from_secs(DEFAULT_MINIMUM_CLIENT_DEADLINE_SECS),
            handshake_timeout: TimeSpan::from_secs(DEFAULT_HANDSHAKE_TIMEOUT_SECS),
        }
    }

    /// Caps the number of simultaneous sessions at `limit`.
    pub fn with_maximum_simultaneous_sessions(self, limit: usize) -> (r: RpcServerBuilder)
        ensures
            r.spec_max_sessions() == Some(limit),
            r.spec_min_deadline() == self.spec_min_deadline(),
            r.spec_handshake_timeout() == self.spec_handshake_timeout(),
    {
        RpcServerBuilder { maximum_simultaneous_sessions: Some(limit), ..self }
    }

    /// Lifts the cap on simultaneous sessions.
    pub fn with_unlimited_simultaneous_sessions(self) -> (r: RpcServerBuilder)
        ensures
            r.spec_max_sessions() == None::<usize>,
            r.spec_min_deadline() == self.spec_min_deadline(),
            r.spec_handshake_timeout() == self.spec_handshake_timeout(),
    {
        RpcServerBuilder { maximum_simultaneous_sessions: None, ..self }
    }

    /// Sets the shortest deadline a client may ask for.
    pub fn with_minimum_client_deadline(self, deadline: TimeSpan) -> (r: RpcServerBuilder)
        ensures
            r.spec_max_sessions() == self.spec_max_sessions(),
            r.spec_min_deadline() == deadline,
            r.spec_handshake_timeout() == self.spec_handshake_timeout(),
    {
        RpcServerBuilder { minimum_client_deadline: deadline, ..self }
    }

    /// The session cap; `None` where sessions are unlimited.
    pub fn maximum_simultaneous_sessions(&self) -> (r: Option<usize>)
        ensures
            r == self.spec_max_sessions(),
    {
        self.maximum_simultaneous_sessions
    }

    /// The shortest deadline a client may ask for.
    pub fn minimum_client_deadline(&self) -> (r: TimeSpan)
        ensures
            r == self.spec_min_deadline(),
    {
        self.minimum_client_deadline
    }

    /// How long the handshake may take.
    pub fn handshake_timeout(&self) -> (r: TimeSpan)
        ensures
            r == self.spec_handshake_timeout(),
    {
        self.handshake_timeout
    }
}

impl Default for RpcServerBuilder {
    fn default() -> (r: RpcServerBuilder)
        ensures
            r.spec_max_sessions() == Some(DEFAULT_MAXIMUM_SESSIONS),
            r.spec_min_deadline().spec_secs() == DEFAULT_MINIMUM_CLIENT_DEADLINE_SECS,
            r.spec_min_deadline().spec_nanos() == 0,
            r.spec_handshake_timeout().spec_secs() == DEFAULT_HANDSHAKE_TIMEOUT_SECS,
            r.spec_handshake_timeout().spec_nanos() == 0,
    {
        RpcServerBuilder::new()
    }
}

} // verus!
