//! Exclusive access to the repository, with a record of who held it when.
use vstd::prelude::*;

verus! {

#[derive(Clone, Copy, Debug, PartialEq, Eq, Structural)]
pub enum LockEvent {
    Acquired(u64),
    Released(u64),
}

/// Who holds the lock after the events of `log`.
pub open spec fn holder_after(log: Seq<LockEvent>) -> Option<u64>
    decreases log.len(),
{
    if log.len() == 0 {
        None
    } else {
        match log.last() {
            LockEvent::Acquired(o) => Some(o),
            LockEvent::Released(_) => None,
        }
    }
}

/// Each acquisition happens while nobody holds the lock, and each release is
/// made by the holder.
pub open spec fn well_bracketed(log: Seq<LockEvent>) -> bool
    decreases log.len(),
{
    if log.len() == 0 {
        true
    } else {
        let prev = log.drop_last();
        &&& well_bracketed(prev)
        &&& match log.last() {
            LockEvent::Acquired(_) => holder_after(prev) is None,
            LockEvent::Released(o) => holder_after(prev) == Some(o),
        }
    }
}

/// A lock on the repository that records every acquisition and release.
pub struct RepoLock {
    holder: Option<u64>,
    log: Vec<LockEvent>,
}

impl RepoLock {
    pub closed spec fn spec_holder(&self) -> Option<u64> {
        self.holder
    }

    pub closed spec fn spec_log(&self) -> Seq<LockEvent> {
        self.log@
    }

    pub open spec fn wf(&self) -> bool {
        well_bracketed(self.spec_log()) && self.spec_holder() == holder_after(self.spec_log())
    }

    pub fn new() -> (r: RepoLock)
        ensures
            r.wf(),
            r.spec_holder() is None,
            r.spec_log().len() == 0,
    {
        RepoLock { holder: None, log: Vec::new() }
    }

    /// Takes the lock for `owner` when nobody holds it.
    pub fn try_acquire(&mut self, owner: u64) -> (r: bool)
        requires
            old(self).wf(),
        ensures
            final(self).wf(),
            r == (old(self).spec_holder() is None),
            r ==> final(self).spec_holder() == Some(owner)
                && final(self).spec_log() == old(self).spec_log().push(LockEvent::Acquired(owner)),
            !r ==> *final(self) == *old(self),
    {
        if self.holder.is_none() {
            let ghost prev = self.log@;
            self.log.push(LockEvent::Acquired(owner));
            self.holder = Some(owner);
            assert(self.log@.drop_last() =~= prev);
            true
        } else {
            false
        }
    }

    /// Gives the lock up when `owner` holds it.
    pub fn release(&mut self, owner: u64) -> (r: bool)
        requires
            old(self).wf(),
        ensures
            final(self).wf(),
            r == (old(self).spec_holder() == Some(owner)),
            r ==> final(self).spec_holder() is None
                && final(self).spec_log() == old(self).spec_log().push(LockEvent::Released(owner)),
            !r ==> *final(self) == *old(self),
    {
        let held = match self.holder {
            Some(h) => h == owner,
            None => false,
        };
        if held {
            let ghost prev = self.log@;
            self.log.push(LockEvent::Released(owner));
            self.holder = None;
            assert(self.log@.drop_last() =~= prev);
            true
        } else {
            false
        }
    }

    pub fn holder(&self) -> (r: Option<u64>)
        ensures
            r == self.spec_holder(),
    {
        self.holder
    }

    /// The acquisitions and releases so far, oldest first.
    pub fn events(&self) -> (r: Vec<LockEvent>)
        ensures
            r@ == self.spec_log(),
    {
        let mut r: Vec<LockEvent> = Vec::new();
        let mut i: usize = 0;
        while i < self.log.len()
            invariant
                i <= self.log.len(),
                r@ == self.log@.take(i as int),
            decreases self.log.len() - i,
        {
            r.push(self.log[i]);
            assert(r@ =~= self.log@.take(i + 1));
            i += 1;
        }
        assert(self.log@.take(self.log.len() as int) =~= self.log@);
        r
    }
}

proof fn lemma_well_bracketed_prefix(log: Seq<LockEvent>, n: int)
    requires
        well_bracketed(log),
        0 <= n <= log.len(),
    ensures
        well_bracketed(log.take(n)),
    decreases log.len(),
{
    if n < log.len() {
        assert(log.drop_last().take(n) =~= log.take(n));
        lemma_well_bracketed_prefix(log.drop_last(), n);
    } else {
        assert(log.take(n) =~= log);
    }
}

proof fn lemma_acquired_until_released(log: Seq<LockEvent>, i: int, a: u64)
    requires
        well_bracketed(log),
        0 <= i < log.len(),
        log[i] == LockEvent::Acquired(a),
    ensures
        holder_after(log) == Some(a) || exists|k: int| i < k < log.len() && log[k] == LockEvent::Released(a),
    decreases log.len(),
{
    if i < log.len() - 1 {
        let prev = log.drop_last();
        lemma_acquired_until_released(prev, i, a);
        if holder_after(prev) == Some(a) {
            assert(log[log.len() - 1] == LockEvent::Released(a));
        } else {
            let k = choose|k: int| i < k < prev.len() && prev[k] == LockEvent::Released(a);
            assert(log[k] == LockEvent::Released(a));
        }
    }
}

/// Holders do not interleave: once `a` has acquired the lock, nobody acquires it
/// again before `a` has released it.
pub proof fn lemma_lock_excludes(log: Seq<LockEvent>, i: int, j: int, a: u64, b: u64)
    requires
        well_bracketed(log),
        0 <= i < j < log.len(),
        log[i] == LockEvent::Acquired(a),
        log[j] == LockEvent::Acquired(b),
    ensures
        exists|k: int| i < k < j && log[k] == LockEvent::Released(a),
{
    lemma_well_bracketed_prefix(log, j + 1);
    let p = log.take(j + 1);
    assert(p.drop_last() =~= log.take(j));
    let q = log.take(j);
    lemma_acquired_until_released(q, i, a);
    let k = choose|k: int| i < k < q.len() && q[k] == LockEvent::Released(a);
    assert(log[k] == LockEvent::Released(a));
}

} // verus!
