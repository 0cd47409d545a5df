use vstd::prelude::*;

verus! {

/// A first-in first-out queue in a fixed array of `X` slots, of which at
/// most `X - 1` are in use at once.
pub struct RingBuf<T, const X: usize> {
    data: [Option<T>; X],
    insert: usize,
    remove: usize,
}

/// Position `i` of a ring of `x` slots that starts at slot `start`.
pub open spec fn ring_at(start: int, i: int, x: int) -> int {
    if start + i < x {
        start + i
    } else {
        start + i - x
    }
}

impl<T: Copy, const X: usize> RingBuf<T, X> {
    /// Number of values queued.
    pub closed spec fn spec_len(&self) -> nat {
        if self.remove <= self.insert {
            (self.insert - self.remove) as nat
        } else {
            (X - self.remove + self.insert) as nat
        }
    }

    /// The values queued, oldest first.
    pub closed spec fn view(&self) -> Seq<T> {
        Seq::new(
            self.spec_len(),
            |i: int| self.data@[ring_at(self.remove as int, i, X as int)]->Some_0,
        )
    }

    /// The queued values fill the slots from `remove` up to `insert`; the
    /// other slots are empty.
    pub closed spec fn wf(&self) -> bool {
        &&& 0 < X
        &&& self.insert < X
        &&& self.remove < X
        &&& forall|i: int|
            0 <= i < X ==> (#[trigger] self.data@[ring_at(self.remove as int, i, X as int)]).is_some()
                == (i < self.spec_len())
    }

    /// An empty queue.
    pub fn new() -> (r: Self)
        requires
            0 < X,
        ensures
            r.wf(),
            r.view().len() == 0,
    {
        RingBuf { data: [None; X], insert: 0, remove: 0 }
    }

    /// Number of values queued.
    pub fn len(&self) -> (r: usize)
        requires
            self.wf(),
        ensures
            r == self.view().len(),
    {
        if self.remove <= self.insert {
            self.insert - self.remove
        } else {
            X - self.remove + self.insert
        }
    }

    /// Queues `el`; a full queue (`X - 1` values) is excluded.
    pub fn push(&mut self, el: T)
        requires
            old(self).wf(),
            old(self).view().len() < X - 1,
        ensures
            final(self).wf(),
            final(self).view() == old(self).view().push(el),
    {
        let ghost n = self.spec_len();
        self.data[self.insert] = Some(el);
        if self.insert + 1 >= X {
            self.insert = 0;
        } else {
            self.insert = self.insert + 1;
        }
        assert(self.spec_len() == n + 1);
        assert forall|i: int| 0 <= i < X implies (#[trigger] self.data@[ring_at(
            self.remove as int,
            i,
            X as int,
        )]).is_some() == (i < self.spec_len()) by {
            if i != n {
                assert(old(self).data@[ring_at(self.remove as int, i, X as int)].is_some() == (i
                    < n));
            }
        }
        assert(self.view() =~= old(self).view().push(el));
    }

    /// Takes the oldest value out, or gives `None` on an empty queue.
    pub fn pop(&mut self) -> (r: Option<T>)
        requires
            old(self).wf(),
        ensures
            final(self).wf(),
            old(self).view().len() == 0 ==> r.is_none() && final(self).view() == old(
                self,
            ).view(),
            old(self).view().len() > 0 ==> r == Some(old(self).view()[0]) && final(self).view()
                == old(self).view().drop_first(),
    {
        let x = self.data[self.remove];
        proof {
            assert(ring_at(self.remove as int, 0, X as int) == self.remove);
            assert(self.data@[ring_at(self.remove as int, 0, X as int)].is_some() == (0
                < self.spec_len()));
        }
        if x.is_some() {
            let ghost n = self.spec_len();
            let ghost r0 = self.remove as int;
            self.data[self.remove] = None;
            if self.remove + 1 >= X {
                self.remove = 0;
            } else {
                self.remove = self.remove + 1;
            }
            assert(self.spec_len() == n - 1);
            assert forall|i: int| 0 <= i < X implies (#[trigger] self.data@[ring_at(
                self.remove as int,
                i,
                X as int,
            )]).is_some() == (i < self.spec_len()) by {
                if i + 1 < X {
                    assert(ring_at(self.remove as int, i, X as int) == ring_at(r0, i + 1, X as int));
                    assert(old(self).data@[ring_at(r0, i + 1, X as int)].is_some() == (i + 1 < n));
                }
            }
            assert(self.view() =~= old(self).view().drop_first());
        } else {
            assert(self.view() =~= old(self).view());
        }
        x
    }
}

} // verus!
