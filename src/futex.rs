use vstd::prelude::*;

verus! {

/// A task waiting on a user address.
#[derive(Clone, Copy, Debug, PartialEq, Eq, Structural)]
pub struct FutexWaiter {
    pub addr: usize,
    pub task_id: usize,
}

/// The tasks waiting on `addr`, in the order they began to wait.
pub open spec fn waiters(s: Seq<FutexWaiter>, addr: usize) -> Seq<usize>
    decreases s.len(),
{
    if s.len() == 0 {
        Seq::empty()
    } else {
        waiters(s.drop_last(), addr) + if s.last().addr == addr {
            seq![s.last().task_id]
        } else {
            Seq::empty()
        }
    }
}

pub open spec fn min(a: int, b: int) -> int {
    if a < b {
        a
    } else {
        b
    }
}

/// Waiters on user addresses, oldest first.
pub struct FutexTable {
    entries: Vec<FutexWaiter>,
}

impl View for FutexTable {
    type V = Seq<FutexWaiter>;

    closed spec fn view(&self) -> Seq<FutexWaiter> {
        self.entries@
    }
}

proof fn lemma_waiters_push(s: Seq<FutexWaiter>, e: FutexWaiter, b: usize)
    ensures
        waiters(s.push(e), b) == waiters(s, b) + if e.addr == b {
            seq![e.task_id]
        } else {
            Seq::empty()
        },
{
    assert(s.push(e).drop_last() =~= s);
}

impl FutexTable {
    pub fn new() -> (r: FutexTable)
        ensures
            r@ == Seq::<FutexWaiter>::empty(),
    {
        FutexTable { entries: Vec::new() }
    }

    /// Task `task_id` starts waiting on `addr`, behind those already waiting.
    pub fn futex_wait(&mut self, addr: usize, task_id: usize)
        ensures
            waiters(final(self)@, addr) == waiters(old(self)@, addr).push(task_id),
            forall|b: usize| b != addr ==> waiters(final(self)@, b) == waiters(old(self)@, b),
    {
        let e = FutexWaiter { addr, task_id };
        self.entries.push(e);
        proof {
            assert forall|b: usize| true implies waiters(self@, b) == waiters(old(self)@, b) + if e.addr == b {
                seq![e.task_id]
            } else {
                Seq::empty()
            } by {
                lemma_waiters_push(old(self)@, e, b);
            }
            assert(waiters(self@, addr) =~= waiters(old(self)@, addr).push(task_id));
            assert forall|b: usize| b != addr implies waiters(self@, b) == waiters(old(self)@, b) by {
                assert(waiters(self@, b) =~= waiters(old(self)@, b));
            }
        }
    }

    /// Wakes up to `count` tasks waiting on `addr`, oldest first, and returns them.
    pub fn futex_wake(&mut self, addr: usize, count: usize) -> (r: Vec<usize>)
        ensures
            r@.len() == min(count as int, waiters(old(self)@, addr).len() as int),
            r@ == waiters(old(self)@, addr).take(r@.len() as int),
            waiters(final(self)@, addr) == waiters(old(self)@, addr).skip(r@.len() as int),
            forall|b: usize| b != addr ==> waiters(final(self)@, b) == waiters(old(self)@, b),
    {
        let ghost s = self.entries@;
        let mut kept: Vec<FutexWaiter> = Vec::new();
        let mut woken: Vec<usize> = Vec::new();
        let mut i: usize = 0;
        while i < self.entries.len()
            invariant
                s == self.entries@,
                i <= s.len(),
                woken@.len() == min(count as int, waiters(s.take(i as int), addr).len() as int),
                woken@ == waiters(s.take(i as int), addr).take(woken@.len() as int),
                waiters(kept@, addr) == waiters(s.take(i as int), addr).skip(woken@.len() as int),
                forall|b: usize| b != addr ==> waiters(kept@, b) == waiters(s.take(i as int), b),
            decreases s.len() - i,
        {
            let e = self.entries[i];
            let ghost c = waiters(s.take(i as int), addr);
            let ghost k0 = kept@;
            let ghost w0 = woken@;
            proof {
                assert(s.take(i + 1).drop_last() =~= s.take(i as int));
                assert(s.take(i + 1).last() == e);
            }
            if e.addr == addr && woken.len() < count {
                woken.push(e.task_id);
                proof {
                    assert(waiters(s.take(i + 1), addr) =~= c.push(e.task_id));
                    assert(woken@ =~= c.push(e.task_id).take(woken@.len() as int));
                    assert(c.skip(w0.len() as int) =~= Seq::<usize>::empty());
                    assert(waiters(kept@, addr) =~= c.push(e.task_id).skip(woken@.len() as int));
                    assert forall|b: usize| b != addr implies waiters(kept@, b) == waiters(
                        s.take(i + 1),
                        b,
                    ) by {
                        assert(waiters(s.take(i + 1), b) =~= waiters(s.take(i as int), b));
                    }
                }
            } else {
                kept.push(e);
                proof {
                    assert forall|b: usize| true implies waiters(kept@, b) == waiters(k0, b) + if e.addr == b {
                        seq![e.task_id]
                    } else {
                        Seq::empty()
                    } by {
                        lemma_waiters_push(k0, e, b);
                    }
                    if e.addr == addr {
                        assert(waiters(s.take(i + 1), addr) =~= c.push(e.task_id));
                        assert(woken@ =~= c.push(e.task_id).take(woken@.len() as int));
                        assert(waiters(kept@, addr) =~= c.push(e.task_id).skip(woken@.len() as int));
                    } else {
                        assert(waiters(s.take(i + 1), addr) =~= c);
                        assert(waiters(kept@, addr) =~= waiters(k0, addr));
                    }
                    assert forall|b: usize| b != addr implies waiters(kept@, b) == waiters(
                        s.take(i + 1),
                        b,
                    ) by {
                        if e.addr == b {
                            assert(waiters(s.take(i + 1), b) =~= waiters(s.take(i as int), b).push(
                                e.task_id,
                            ));
                            assert(waiters(kept@, b) =~= waiters(k0, b).push(e.task_id));
                        } else {
                            assert(waiters(s.take(i + 1), b) =~= waiters(s.take(i as int), b));
                            assert(waiters(kept@, b) =~= waiters(k0, b));
                        }
                    }
                }
            }
            i = i + 1;
        }
        assert(s.take(i as int) =~= s);
        self.entries = kept;
        woken
    }
}

} // verus!
