//! The server side that admits new substreams: the admission check before
//! the handshake, the session permit after it, and the count of active
//! sessions.
use vstd::prelude::*;

use crate::bounded_executor::{after_try_spawn, BoundedExecutor, ExecutorView, SessionPermit};
use crate::config::RpcServerBuilder;
use crate::error::{HandshakeError, RpcServerError};
use crate::handshake::HandshakeRejectReason;

verus! {

/// The number of permits the server's executor has under `config`: the
/// session cap, or the executor's maximum where sessions are unlimited.
pub open spec fn permits_for(config: RpcServerBuilder) -> nat {
    match config.spec_max_sessions() {
        Some(n) => n as nat,
        None => (usize::MAX / 16) as nat,
    }
}

/// What the server does with a new substream while its executor is in
/// state `e`: admit it (`None`) or turn it down with a reason.
pub open spec fn offer_outcome(e: ExecutorView) -> Option<HandshakeRejectReason> {
    if e.available > 0 {
        None
    } else {
        Some(HandshakeRejectReason::NoSessionsAvailable)
    }
}

/// The outcomes of `k` substreams offered one after another, none of the
/// admitted sessions ending meanwhile and each handshake succeeding.
pub open spec fn offer_outcomes(e: ExecutorView, k: nat) -> Seq<Option<HandshakeRejectReason>>
    decreases k,
{
    if k == 0 {
        Seq::empty()
    } else {
        seq![offer_outcome(e)] + offer_outcomes(after_try_spawn(e), (k - 1) as nat)
    }
}

proof fn lemma_offer_outcomes(e: ExecutorView, k: nat)
    ensures
        offer_outcomes(e, k).len() == k,
        forall|i: int| 0 <= i < k ==> (#[trigger] offer_outcomes(e, k)[i] is None <==> i < e.available),
        forall|i: int| 0 <= i < k && i >= e.available ==> #[trigger] offer_outcomes(e, k)[i]
            == Some(HandshakeRejectReason::NoSessionsAvailable),
    decreases k,
{
    if k > 0 {
        let next = after_try_spawn(e);
        lemma_offer_outcomes(next, (k - 1) as nat);
        let s = offer_outcomes(e, k);
        assert forall|i: int| 0 <= i < k implies (#[trigger] s[i] is None <==> i < e.available) by {
            if i > 0 {
                assert(s[i] == offer_outcomes(next, (k - 1) as nat)[i - 1]);
            }
        }
        assert forall|i: int| 0 <= i < k && i >= e.available implies #[trigger] s[i]
            == Some(HandshakeRejectReason::NoSessionsAvailable) by {
            if i > 0 {
                assert(s[i] == offer_outcomes(next, (k - 1) as nat)[i - 1]);
            }
        }
    }
}

/// With a cap of `n` sessions and `n + 1` substreams offered at once,
/// exactly the first `n` are admitted and the last is turned down with
/// `NoSessionsAvailable`.
pub proof fn lemma_admission_overflow(n: nat)
    ensures
        offer_outcomes(ExecutorView { max: n, available: n, active: 0 }, n + 1).len() == n + 1,
        forall|i: int| 0 <= i < n ==> #[trigger] offer_outcomes(
            ExecutorView { max: n, available: n, active: 0 },
            n + 1,
        )[i] is None,
        offer_outcomes(ExecutorView { max: n, available: n, active: 0 }, n + 1)[n as int] == Some(
            HandshakeRejectReason::NoSessionsAvailable,
        ),
{
    lemma_offer_outcomes(ExecutorView { max: n, available: n, active: 0 }, n + 1);
}

/// The server: its settings and the executor whose permits bound the
/// number of sessions.
pub struct PeerRpcServer {
    config: RpcServerBuilder,
    executor: BoundedExecutor,
}

impl PeerRpcServer {
    /// The executor has as many permits as the settings call for.
    #[verifier::type_invariant]
    spec fn executor_matches_config(&self) -> bool {
        self.executor@.max == permits_for(self.config)
    }

    /// The settings of the server.
    pub closed spec fn spec_config(&self) -> RpcServerBuilder {
        self.config
    }

    /// The state of the server's executor.
    pub closed spec fn executor_view(&self) -> ExecutorView {
        self.executor@
    }

    /// A server with no sessions under `config`.
    pub fn new(config: RpcServerBuilder) -> (r: PeerRpcServer)
        ensures
            r.spec_config() == config,
            r.executor_view() == (ExecutorView {
                max: permits_for(config),
                available: permits_for(config),
                active: 0,
            }),
    {
        let executor = match config.maximum_simultaneous_sessions() {
            Some(n) => BoundedExecutor::new(n),
            None => BoundedExecutor::allow_maximum(),
        };
        PeerRpcServer { config, executor }
    }

    /// The number of sessions running: the session cap less the free
    /// permits.
    pub fn num_active_sessions(&self) -> (r: usize)
        ensures
            r == self.executor_view().active,
            r + self.executor_view().available == self.executor_view().max,
            self.executor_view().max == permits_for(self.spec_config()),
    {
        proof {
            use_type_invariant(self);
        }
        let max_sessions: usize = match self.config.maximum_simultaneous_sessions() {
            Some(n) => n,
            None => BoundedExecutor::max_theoretical_tasks(),
        };
        let available = self.executor.num_available();
        if max_sessions >= available {
            max_sessions - available
        } else {
            0
        }
    }

    /// The check made before the handshake: with no free permit, the
    /// substream is turned down with `NoSessionsAvailable` and the attempt
    /// fails with `MaximumSessionsReached`.
    pub fn check_admission(&self) -> (r: Result<(), (HandshakeRejectReason, RpcServerError)>)
        ensures
            r is Ok <==> self.executor_view().available > 0,
            r is Err ==> r matches Err(
                (HandshakeRejectReason::NoSessionsAvailable, RpcServerError::MaximumSessionsReached),
            ),
    {
        if self.executor.can_spawn() {
            Ok(())
        } else {
            Err((HandshakeRejectReason::NoSessionsAvailable, RpcServerError::MaximumSessionsReached))
        }
    }

    /// The step after asking for a service for the protocol: where there is
    /// none, the substream is turned down with `ProtocolNotSupported` and
    /// the attempt fails with the factory's error.
    pub fn after_make_service(&self, made: Result<(), RpcServerError>) -> (r: Result<
        (),
        (HandshakeRejectReason, RpcServerError),
    >)
        ensures
            made is Ok ==> r is Ok,
            made matches Err(e) ==> r == Err::<(), (HandshakeRejectReason, RpcServerError)>(
                (HandshakeRejectReason::ProtocolNotSupported, e),
            ),
    {
        match made {
            Ok(()) => Ok(()),
            Err(e) => Err((HandshakeRejectReason::ProtocolNotSupported, e)),
        }
    }

    /// The step after the handshake: a failed handshake fails the attempt
    /// and takes no permit; else the session takes a permit, or the attempt
    /// fails with `MaximumSessionsReached` where none is free.
    pub fn start_session(&mut self, handshake: Result<u32, HandshakeError>) -> (r: Result<
        SessionPermit,
        RpcServerError,
    >)
        ensures
            final(self).spec_config() == old(self).spec_config(),
            match handshake {
                Err(h) => r matches Err(RpcServerError::HandshakeError(h2)) && h2 == h
                    && final(self).executor_view() == old(self).executor_view(),
                Ok(_) => final(self).executor_view() == after_try_spawn(old(self).executor_view()) && (
                r is Ok <==> old(self).executor_view().available > 0) && (r is Err ==> r matches Err(
                    RpcServerError::MaximumSessionsReached,
                )),
            },
    {
        proof {
            use_type_invariant(&*self);
        }
        match handshake {
            Err(h) => Err(RpcServerError::HandshakeError(h)),
            Ok(_) => {
                let mut executor = self.executor.clone_state();
                let spawned = executor.try_spawn();
                *self = PeerRpcServer { config: self.config, executor };
                match spawned {
                    Ok(permit) => Ok(permit),
                    Err(_) => Err(RpcServerError::MaximumSessionsReached),
                }
            },
        }
    }

    /// Gives back the permit of a session that has ended.
    pub fn end_session(&mut self, permit: SessionPermit)
        ensures
            final(self).spec_config() == old(self).spec_config(),
            final(self).executor_view() == crate::bounded_executor::after_release(old(self).executor_view()),
    {
        proof {
            use_type_invariant(&*self);
        }
        let mut executor = self.executor.clone_state();
        executor.release(permit);
        *self = PeerRpcServer { config: self.config, executor };
    }
}

} // verus!
