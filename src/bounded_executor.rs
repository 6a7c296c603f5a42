//! Admission control: a fixed number of permits, one held by each running
//! session for its whole life.
use vstd::prelude::*;

verus! {

/// There was no free permit.
#[derive(Debug, Clone, Copy, PartialEq, Eq, Structural)]
pub struct TrySpawnError;

/// The right to run one task, handed out by an executor and given back
/// when the task ends.
#[derive(Debug)]
pub struct SessionPermit(());

/// The state of an executor: its number of permits, how many are free, and
/// how many tasks hold one.
pub struct ExecutorView {
    pub max: nat,
    pub available: nat,
    pub active: nat,
}

/// The executor after one non-waiting spawn: a free permit goes to the new
/// task; with none free, nothing changes.
pub open spec fn after_try_spawn(e: ExecutorView) -> ExecutorView {
    if e.available > 0 {
        ExecutorView { max: e.max, available: (e.available - 1) as nat, active: e.active + 1 }
    } else {
        e
    }
}

/// The executor after a task ends and gives its permit back.
pub open spec fn after_release(e: ExecutorView) -> ExecutorView {
    if e.active > 0 {
        ExecutorView { max: e.max, available: e.available + 1, active: (e.active - 1) as nat }
    } else {
        e
    }
}

/// The executor after each operation of `ops` in turn: `true` a
/// non-waiting spawn, `false` a task that ends.
pub open spec fn after_ops(e: ExecutorView, ops: Seq<bool>) -> ExecutorView
    decreases ops.len(),
{
    if ops.len() == 0 {
        e
    } else {
        let next = if ops[0] {
            after_try_spawn(e)
        } else {
            after_release(e)
        };
        after_ops(next, ops.drop_first())
    }
}

/// However sessions are admitted and end, every permit is either free or
/// held by exactly one active session: free permits and active sessions
/// add up to the number of permits.
pub proof fn lemma_permits_balance(e: ExecutorView, ops: Seq<bool>)
    requires
        e.available + e.active == e.max,
    ensures
        after_ops(e, ops).available + after_ops(e, ops).active == e.max,
        after_ops(e, ops).max == e.max,
    decreases ops.len(),
{
    if ops.len() > 0 {
        let next = if ops[0] {
            after_try_spawn(e)
        } else {
            after_release(e)
        };
        lemma_permits_balance(next, ops.drop_first());
    }
}

/// A task executor bounded by a number of permits.
pub struct BoundedExecutor {
    max_available: usize,
    available: usize,
    active: Ghost<nat>,
}

impl View for BoundedExecutor {
    type V = ExecutorView;

    closed spec fn view(&self) -> ExecutorView {
        ExecutorView { max: self.max_available as nat, available: self.available as nat, active: self.active@ }
    }
}

impl BoundedExecutor {
    /// Every permit is either free or held by a running task.
    #[verifier::type_invariant]
    spec fn permits_conserved(&self) -> bool {
        &&& self.available <= self.max_available
        &&& self.available + self.active@ == self.max_available
    }

    /// An executor with `num_permits` permits, all free.
    pub fn new(num_permits: usize) -> (r: BoundedExecutor)
        ensures
            r@ == (ExecutorView { max: num_permits as nat, available: num_permits as nat, active: 0 }),
    {
        BoundedExecutor { max_available: num_permits, available: num_permits, active: Ghost(0) }
    }

    /// An executor with as many permits as it can hold.
    pub fn allow_maximum() -> (r: BoundedExecutor)
        ensures
            r@ == (ExecutorView {
                max: (usize::MAX / 16) as nat,
                available: (usize::MAX / 16) as nat,
                active: 0,
            }),
    {
        BoundedExecutor::new(BoundedExecutor::max_theoretical_tasks())
    }

    /// The largest number of permits an executor holds.
    pub fn max_theoretical_tasks() -> (r: usize)
        ensures
            r == usize::MAX / 16,
    {
        usize::MAX / 16
    }

    /// A copy of this executor's state.
    pub fn clone_state(&self) -> (r: BoundedExecutor)
        ensures
            r@ == self@,
    {
        proof {
            use_type_invariant(self);
        }
        BoundedExecutor { max_available: self.max_available, available: self.available, active: Ghost(self.active@) }
    }

    /// Whether a task can be spawned without waiting.
    pub fn can_spawn(&self) -> (r: bool)
        ensures
            r <==> self@.available > 0,
    {
        self.available > 0
    }

    /// The number of free permits.
    pub fn num_available(&self) -> (r: usize)
        ensures
            r == self@.available,
            self@.available + self@.active == self@.max,
    {
        proof {
            use_type_invariant(self);
        }
        self.available
    }

    /// The number of permits in all.
    pub fn max_available(&self) -> (r: usize)
        ensures
            r == self@.max,
    {
        self.max_available
    }

    /// The number of tasks that hold a permit.
    pub fn num_active(&self) -> (r: usize)
        ensures
            r == self@.active,
            self@.available + self@.active == self@.max,
    {
        proof {
            use_type_invariant(self);
        }
        self.max_available - self.available
    }

    /// Takes a free permit for a new task, without waiting; fails where
    /// there is none.
    pub fn try_spawn(&mut self) -> (r: Result<SessionPermit, TrySpawnError>)
        ensures
            final(self)@ == after_try_spawn(old(self)@),
            r is Ok <==> old(self)@.available > 0,
            final(self)@.available + final(self)@.active == final(self)@.max,
    {
        proof {
            use_type_invariant(&*self);
        }
        if self.available > 0 {
            *self = BoundedExecutor {
                max_available: self.max_available,
                available: self.available - 1,
                active: Ghost(self.active@ + 1),
            };
            Ok(SessionPermit(()))
        } else {
            Err(TrySpawnError)
        }
    }

    /// Gives back the permit of a task that has ended.
    pub fn release(&mut self, permit: SessionPermit)
        ensures
            final(self)@ == after_release(old(self)@),
            final(self)@.available + final(self)@.active == final(self)@.max,
    {
        proof {
            use_type_invariant(&*self);
        }
        if self.available < self.max_available {
            *self = BoundedExecutor {
                max_available: self.max_available,
                available: self.available + 1,
                active: Ghost((self.active@ - 1) as nat),
            };
        }
    }
}

/// A task executor that is bounded or not.
pub struct OptionallyBoundedExecutor {
    inner: Option<BoundedExecutor>,
}

impl OptionallyBoundedExecutor {
    /// Bounded by `num_permits` where given, else unbounded.
    pub fn new(num_permits: Option<usize>) -> (r: OptionallyBoundedExecutor)
        ensures
            r.limit_view() == match num_permits {
                Some(n) => Some(ExecutorView { max: n as nat, available: n as nat, active: 0 }),
                None => None,
            },
    {
        match num_permits {
            Some(n) => OptionallyBoundedExecutor { inner: Some(BoundedExecutor::new(n)) },
            None => OptionallyBoundedExecutor { inner: None },
        }
    }

    /// The state of the bounded executor, where bounded.
    pub closed spec fn limit_view(&self) -> Option<ExecutorView> {
        match self.inner {
            Some(e) => Some(e@),
            None => None,
        }
    }

    /// The number of permits, where bounded.
    pub open spec fn bound(&self) -> Option<usize> {
        match self.limit_view() {
            Some(e) => Some(e.max as usize),
            None => None,
        }
    }

    /// Whether a task can be spawned without waiting: always where unbounded.
    pub fn can_spawn(&self) -> (r: bool)
        ensures
            r <==> match self.limit_view() {
                Some(e) => e.available > 0,
                None => true,
            },
    {
        match &self.inner {
            Some(e) => e.can_spawn(),
            None => true,
        }
    }

    /// Spawns without waiting; fails only where bounded and full.
    pub fn try_spawn(&mut self) -> (r: Result<SessionPermit, TrySpawnError>)
        ensures
            r is Ok <==> match old(self).limit_view() {
                Some(e) => e.available > 0,
                None => true,
            },
            final(self).limit_view() == match old(self).limit_view() {
                Some(e) => Some(after_try_spawn(e)),
                None => None,
            },
    {
        match &mut self.inner {
            Some(e) => e.try_spawn(),
            None => Ok(SessionPermit(())),
        }
    }

    /// The number of tasks that can be spawned without waiting; `usize::MAX`
    /// where unbounded.
    pub fn num_available(&self) -> (r: usize)
        ensures
            r == match self.limit_view() {
                Some(e) => e.available as usize,
                None => usize::MAX,
            },
    {
        match &self.inner {
            Some(e) => e.num_available(),
            None => usize::MAX,
        }
    }

    /// The number of permits, where bounded.
    pub fn max_available(&self) -> (r: Option<usize>)
        ensures
            r == self.bound(),
    {
        match &self.inner {
            Some(e) => Some(e.max_available()),
            None => None,
        }
    }
}

} // verus!
