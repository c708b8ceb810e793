use vstd::prelude::*;

verus! {

/// What a spin lock handle is: the address of the kernel spin lock it works on, and
/// whether it holds that lock.
pub struct SpinLockState {
    pub lock: usize,
    pub acquired: bool,
}

/// The state after acquiring the lock.
pub open spec fn after_acquire(s: SpinLockState) -> SpinLockState {
    SpinLockState { lock: s.lock, acquired: true }
}

/// The state after releasing, and whether the kernel lock had to be given back: only a
/// handle that holds the lock gives it back.
pub open spec fn after_release(s: SpinLockState) -> (SpinLockState, bool) {
    (SpinLockState { lock: s.lock, acquired: false }, s.acquired)
}

/// A handle on a kernel spin lock, acquired in queued (in-stack) mode. The kernel calls
/// are made by whoever holds the handle; the handle decides which calls are due.
pub struct SpinLock {
    pub spin_lock_ptr: usize,
    acquired: bool,
}

impl View for SpinLock {
    type V = SpinLockState;

    closed spec fn view(&self) -> SpinLockState {
        SpinLockState { lock: self.spin_lock_ptr, acquired: self.acquired }
    }
}

impl SpinLock {
    /// A handle on the spin lock just initialized at `spin_lock_ptr`; it does not hold it.
    pub fn new(spin_lock_ptr: usize) -> (lock: Self)
        ensures
            lock@ == (SpinLockState { lock: spin_lock_ptr, acquired: false }),
    {
        SpinLock { spin_lock_ptr, acquired: false }
    }

    /// A handle on an existing spin lock; it does not hold it.
    pub fn from_existing(existing: usize) -> (lock: Self)
        ensures
            lock@ == (SpinLockState { lock: existing, acquired: false }),
    {
        SpinLock { spin_lock_ptr: existing, acquired: false }
    }

    /// Whether the handle holds the lock.
    pub fn is_acquired(&self) -> (held: bool)
        ensures
            held == self@.acquired,
    {
        self.acquired
    }

    /// Records that the handle now holds the lock. Acquiring a lock that the handle already
    /// holds would never return.
    pub fn acquire(&mut self)
        requires
            !old(self)@.acquired,
        ensures
            final(self)@ == after_acquire(old(self)@),
    {
        self.acquired = true;
    }

    /// Gives the lock up; returns whether the kernel lock must be released, which is so
    /// exactly when the handle held it.
    pub fn release(&mut self) -> (must_release: bool)
        ensures
            (final(self)@, must_release) == after_release(old(self)@),
    {
        if self.acquired {
            self.acquired = false;
            true
        } else {
            false
        }
    }
}

/// A release right after a release gives nothing back and changes nothing.
pub proof fn lemma_release_twice(s: SpinLockState)
    ensures
        after_release(after_release(s).0) == (after_release(s).0, false),
{
}

/// Releasing right after acquiring gives the lock back and returns the handle to where it
/// was.
pub proof fn lemma_acquire_then_release(s: SpinLockState)
    requires
        !s.acquired,
    ensures
        after_release(after_acquire(s)) == (s, true),
{
}

/// A call made through a spin lock handle.
pub enum LockCall {
    Acquire,
    Release,
}

/// Each acquire in `calls`, made from state `s`, comes while the handle does not hold the
/// lock.
pub open spec fn calls_allowed(s: SpinLockState, calls: Seq<LockCall>) -> bool
    decreases calls.len(),
{
    if calls.len() == 0 {
        true
    } else {
        &&& calls_allowed(s, calls.drop_last())
        &&& calls.last() is Acquire ==> !lock_run(s, calls.drop_last()).acquired
    }
}

/// The state after `calls`, made from state `s`.
pub open spec fn lock_run(s: SpinLockState, calls: Seq<LockCall>) -> SpinLockState
    decreases calls.len(),
{
    if calls.len() == 0 {
        s
    } else {
        let before = lock_run(s, calls.drop_last());
        match calls.last() {
            LockCall::Acquire => after_acquire(before),
            LockCall::Release => after_release(before).0,
        }
    }
}

/// How many times `calls`, made from state `s`, acquire the kernel lock.
pub open spec fn kernel_acquires(s: SpinLockState, calls: Seq<LockCall>) -> nat
    decreases calls.len(),
{
    if calls.len() == 0 {
        0
    } else {
        kernel_acquires(s, calls.drop_last()) + if calls.last() is Acquire { 1nat } else { 0nat }
    }
}

/// How many times `calls`, made from state `s`, give the kernel lock back.
pub open spec fn kernel_releases(s: SpinLockState, calls: Seq<LockCall>) -> nat
    decreases calls.len(),
{
    if calls.len() == 0 {
        0
    } else {
        let before = lock_run(s, calls.drop_last());
        kernel_releases(s, calls.drop_last()) + if calls.last() is Release && after_release(before).1 {
            1nat
        } else {
            0nat
        }
    }
}

/// Over any allowed calls on a handle that starts out not holding its lock, the kernel lock
/// is acquired once more than it is given back while the handle holds it, and as often
/// otherwise; a final release, as letting the handle go makes, balances them and leaves the
/// lock not held.
pub proof fn lemma_acquires_and_releases_balance(s: SpinLockState, calls: Seq<LockCall>)
    requires
        !s.acquired,
        calls_allowed(s, calls),
    ensures
        kernel_acquires(s, calls) == kernel_releases(s, calls) + if lock_run(s, calls).acquired { 1nat } else { 0nat },
        lock_run(s, calls).lock == s.lock,
        kernel_acquires(s, calls.push(LockCall::Release)) == kernel_releases(s, calls.push(LockCall::Release)),
        !lock_run(s, calls.push(LockCall::Release)).acquired,
    decreases calls.len(),
{
    if calls.len() > 0 {
        lemma_acquires_and_releases_balance(s, calls.drop_last());
    }
    assert(calls.push(LockCall::Release).drop_last() =~= calls);
}

} // verus!
