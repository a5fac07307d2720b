//! The ids of a program's running threads: each new thread gets the next
//! number from 1 on, and an id stays in use until its thread is joined or
//! the program exits.
use vstd::prelude::*;
use crate::vm::VMRuntimeError;

verus! {

/// The thread ids handed out so far (`counter`, the last one) and those
/// still in use (`live`, in the order they were handed out).
#[derive(Debug)]
pub struct ThreadIds {
    pub counter: usize,
    pub live: Vec<usize>,
}

impl ThreadIds {
    /// Ids in use are distinct, handed out in increasing order, and between 1 and `counter`.
    pub open spec fn wf(&self) -> bool {
        &&& forall|i: int, j: int| 0 <= i < j < self.live@.len() ==> self.live@[i] < self.live@[j]
        &&& forall|i: int| 0 <= i < self.live@.len() ==> 1 <= #[trigger] self.live@[i] <= self.counter
    }

    /// No id handed out yet.
    pub fn new() -> (r: ThreadIds)
        ensures
            r.wf(),
            r.counter == 0,
            r.live@ == Seq::<usize>::empty(),
    {
        ThreadIds { counter: 0, live: Vec::new() }
    }

    /// Hands out the id of a new thread: one more than the last. The caller
    /// ensures that the last id is below `usize::MAX`.
    pub fn next_thread_id(&mut self) -> (id: usize)
        requires
            old(self).wf(),
            old(self).counter < usize::MAX,
        ensures
            final(self).wf(),
            id == old(self).counter + 1,
            final(self).counter == id,
            final(self).live@ == old(self).live@.push(id),
    {
        self.counter = self.counter + 1;
        let id = self.counter;
        self.live.push(id);
        id
    }

    /// Ends the use of `id` when its thread is joined: `InvalidThreadId`
    /// when `id` is not in use, and otherwise `id` is no longer in use.
    pub fn end_thread(&mut self, id: usize) -> (r: Result<(), VMRuntimeError>)
        requires
            old(self).wf(),
        ensures
            final(self).wf(),
            final(self).counter == old(self).counter,
            r is Ok <==> old(self).live@.contains(id),
            r is Err ==> r == Err::<(), VMRuntimeError>(VMRuntimeError::InvalidThreadId(id))
                && final(self).live@ == old(self).live@,
            r is Ok ==> exists|i: int| 0 <= i < old(self).live@.len() && old(self).live@[i] == id
                && final(self).live@ == old(self).live@.remove(i),
            !final(self).live@.contains(id),
    {
        let mut i: usize = 0;
        while i < self.live.len()
            invariant
                i <= self.live@.len(),
                self.live@ == old(self).live@,
                self.counter == old(self).counter,
                old(self).wf(),
                forall|j: int| 0 <= j < i ==> self.live@[j] != id,
            decreases self.live@.len() - i,
        {
            if self.live[i] == id {
                let ghost before = self.live@;
                self.live.remove(i);
                assert(before.remove(i as int) == self.live@);
                assert(before[i as int] == id);
                let ghost after = self.live@;
                assert forall|k: int| 0 <= k < after.len() implies
                    after[k] == (if k < i { before[k] } else { before[k + 1] }) by {}
                assert forall|k: int| 0 <= k < after.len() implies after[k] != id by {
                    if k >= i {
                        assert(i < k + 1);
                        assert(before[i as int] < before[k + 1]);
                    }
                }
                assert forall|p: int, q: int| 0 <= p < q < after.len() implies after[p] < after[q] by {
                    let pp = if p < i { p } else { p + 1 };
                    let qq = if q < i { q } else { q + 1 };
                    assert(after[p] == before[pp]);
                    assert(after[q] == before[qq]);
                    assert(pp < qq);
                }
                assert forall|k: int| 0 <= k < after.len() implies 1 <= #[trigger] after[k] <= self.counter by {
                    let kk = if k < i { k } else { k + 1 };
                    assert(after[k] == before[kk]);
                }
                return Ok(());
            }
            i = i + 1;
        }
        Err(VMRuntimeError::InvalidThreadId(id))
    }

    /// Ends the use of every id when the program exits, returning them in the
    /// order they were handed out.
    pub fn end_all(&mut self) -> (r: Vec<usize>)
        requires
            old(self).wf(),
        ensures
            final(self).wf(),
            final(self).counter == old(self).counter,
            r@ == old(self).live@,
            final(self).live@ == Seq::<usize>::empty(),
    {
        let mut all: Vec<usize> = Vec::new();
        std::mem::swap(&mut all, &mut self.live);
        all
    }
}

} // verus!
