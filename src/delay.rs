use vstd::arithmetic::div_mod::*;
use vstd::prelude::*;

verus! {

/// A delay line for a single channel, kept in memory.
///
/// The buffer holds `N` samples; only the first `sample_count` of them take
/// part in the ring. The cursor marks the slot that is read next and
/// overwritten next, so the value read right before a write is the one
/// written `sample_count` writes ago.
#[derive(Clone, Copy)]
pub struct MemoryDelay<T, const N: usize> {
    buffer: [T; N],
    sample_count: usize,
    index: usize,
}

impl<T: Copy, const N: usize> MemoryDelay<T, N> {
    /// The samples held, slot by slot.
    pub closed spec fn slots(&self) -> Seq<T> {
        self.buffer@
    }

    /// The active length of the ring.
    pub closed spec fn sample_count(&self) -> nat {
        self.sample_count as nat
    }

    /// The slot read and written next.
    pub closed spec fn cursor(&self) -> nat {
        self.index as nat
    }

    /// Cursor and active length stay inside the buffer.
    pub open spec fn wf(&self) -> bool {
        &&& self.slots().len() == N
        &&& 0 < N
        &&& self.cursor() < N
        &&& self.sample_count() <= N
    }

    /// The cursor after one write.
    pub open spec fn next_cursor(&self) -> nat {
        if self.cursor() + 1 >= self.sample_count() {
            0
        } else {
            (self.cursor() + 1) as nat
        }
    }

    /// A line of full length whose every slot holds `silence`.
    pub fn new(silence: T) -> (r: Self)
        requires
            0 < N,
        ensures
            r.wf(),
            r.sample_count() == N,
            r.cursor() == 0,
            forall|i: int| 0 <= i < N ==> #[trigger] r.slots()[i] == silence,
    {
        MemoryDelay { buffer: [silence; N], sample_count: N, index: 0 }
    }

    /// Sets the active length of the ring. A length beyond the buffer is a
    /// configuration error and is excluded.
    pub fn set_sample_count(&mut self, sample_count: usize)
        requires
            old(self).wf(),
            sample_count <= N,
        ensures
            final(self).wf(),
            final(self).sample_count() == sample_count,
            final(self).cursor() == old(self).cursor(),
            final(self).slots() == old(self).slots(),
    {
        self.sample_count = sample_count;
    }

    /// The sample at the cursor: the oldest one in the ring.
    pub fn read(&self) -> (r: T)
        requires
            self.wf(),
        ensures
            r == self.slots()[self.cursor() as int],
    {
        self.buffer[self.index]
    }

    /// Stores `v` at the cursor and moves the cursor on, back to the start
    /// at the end of the ring.
    pub fn write(&mut self, v: T)
        requires
            old(self).wf(),
        ensures
            final(self).is_write_of(old(self), v),
    {
        self.buffer[self.index] = v;
        if self.index + 1 >= self.sample_count {
            self.index = 0;
        } else {
            self.index = self.index + 1;
        }
    }

    /// `self` is what `prev` becomes when `v` is written to it.
    pub open spec fn is_write_of(&self, prev: &Self, v: T) -> bool {
        &&& self.wf()
        &&& self.slots() == prev.slots().update(prev.cursor() as int, v)
        &&& self.cursor() == prev.next_cursor()
        &&& self.sample_count() == prev.sample_count()
    }
}

/// One delay line per channel, for frames of `C` samples.
pub struct DelayBank<T, const N: usize, const C: usize> {
    lines: [MemoryDelay<T, N>; C],
}

impl<T: Copy, const N: usize, const C: usize> DelayBank<T, N, C> {
    /// The delay line of channel `i`.
    pub closed spec fn line(&self, i: int) -> MemoryDelay<T, N> {
        self.lines@[i]
    }

    /// There is a channel, and every line is well formed.
    pub open spec fn wf(&self) -> bool {
        &&& 0 < C
        &&& forall|i: int| 0 <= i < C ==> (#[trigger] self.line(i)).wf()
    }

    /// Silent lines, channel `i` of length `lengths[i]`.
    pub fn new(silence: T, lengths: [usize; C]) -> (r: Self)
        requires
            0 < N,
            0 < C,
            forall|i: int| 0 <= i < C ==> #[trigger] lengths@[i] <= N,
        ensures
            r.wf(),
            forall|i: int|
                0 <= i < C ==> {
                    &&& (#[trigger] r.line(i)).sample_count() == lengths@[i]
                    &&& r.line(i).cursor() == 0
                    &&& forall|k: int| 0 <= k < N ==> #[trigger] r.line(i).slots()[k] == silence
                },
    {
        let blank = MemoryDelay::<T, N>::new(silence);
        let mut lines: [MemoryDelay<T, N>; C] = [blank; C];
        let mut i: usize = 0;
        while i < C
            invariant
                0 < N,
                0 < C,
                i <= C,
                forall|j: int| 0 <= j < C ==> #[trigger] lengths@[j] <= N,
                forall|j: int|
                    0 <= j < C ==> {
                        &&& (#[trigger] lines@[j]).wf()
                        &&& lines@[j].cursor() == 0
                        &&& forall|k: int| 0 <= k < N ==> #[trigger] lines@[j].slots()[k] == silence
                        &&& j < i ==> lines@[j].sample_count() == lengths@[j]
                    },
            decreases C - i,
        {
            lines[i].set_sample_count(lengths[i]);
            i = i + 1;
        }
        DelayBank { lines }
    }

    /// The sample at each line's cursor.
    pub fn read_all(&self) -> (r: [T; C])
        requires
            self.wf(),
        ensures
            forall|i: int|
                0 <= i < C ==> #[trigger] r@[i] == self.line(i).slots()[self.line(i).cursor() as int],
    {
        assert(self.line(0).wf());
        let mut out: [T; C] = [self.lines[0].read(); C];
        let mut i: usize = 0;
        while i < C
            invariant
                self.wf(),
                i <= C,
                forall|j: int|
                    0 <= j < i ==> #[trigger] out@[j] == self.line(j).slots()[self.line(
                        j,
                    ).cursor() as int],
            decreases C - i,
        {
            assert(self.line(i as int).wf());
            out[i] = self.lines[i].read();
            i = i + 1;
        }
        out
    }

    /// Writes each sample of `frame` to its channel's line.
    pub fn write_all(&mut self, frame: [T; C])
        requires
            old(self).wf(),
        ensures
            final(self).wf(),
            forall|i: int|
                0 <= i < C ==> (#[trigger] final(self).line(i)).is_write_of(
                    &old(self).line(i),
                    frame@[i],
                ),
    {
        let mut i: usize = 0;
        while i < C
            invariant
                i <= C,
                0 < C,
                forall|j: int| 0 <= j < C ==> (#[trigger] self.line(j)).wf(),
                forall|j: int|
                    0 <= j < i ==> (#[trigger] self.line(j)).is_write_of(
                        &old(self).line(j),
                        frame@[j],
                    ),
                forall|j: int| i <= j < C ==> #[trigger] self.line(j) == old(self).line(j),
            decreases C - i,
        {
            assert(self.line(i as int).wf());
            let ghost before = *self;
            self.lines[i].write(frame[i]);
            assert forall|j: int| 0 <= j < C && j != i implies #[trigger] self.line(j) == before.line(
                j,
            ) by {}
            i = i + 1;
        }
    }

    /// Writes each sample of `frame` to its channel's line, then reads each
    /// line: with lines of length `n`, the sample written `n` frames ago.
    pub fn write_then_read(&mut self, frame: [T; C]) -> (r: [T; C])
        requires
            old(self).wf(),
        ensures
            final(self).wf(),
            forall|i: int|
                0 <= i < C ==> (#[trigger] final(self).line(i)).is_write_of(
                    &old(self).line(i),
                    frame@[i],
                ),
            forall|i: int|
                0 <= i < C ==> #[trigger] r@[i] == final(self).line(i).slots()[final(self).line(
                    i,
                ).cursor() as int],
    {
        self.write_all(frame);
        self.read_all()
    }
}

/// Two positions less than `n` apart never share a slot of a ring of `n`.
proof fn lemma_close_positions_differ(i: int, m: int, n: int)
    requires
        0 <= i < m,
        m - i < n,
        0 < n,
    ensures
        i % n != m % n,
{
    lemma_fundamental_div_mod(i, n);
    lemma_fundamental_div_mod(m, n);
    let qi = i / n;
    let qm = m / n;
    if i % n == m % n {
        assert(m - i == (qm - qi) * n) by (nonlinear_arith)
            requires
                i == n * qi + i % n,
                m == n * qm + m % n,
                i % n == m % n,
        ;
        assert(false) by (nonlinear_arith)
            requires
                m - i == (qm - qi) * n,
                0 < m - i < n,
                0 < n,
        ;
    }
}

/// The slot after position `m` in a ring of `n` is position `m + 1`.
proof fn lemma_ring_next(m: int, n: int)
    requires
        0 <= m,
        0 < n,
    ensures
        (m % n) + 1 >= n ==> (m + 1) % n == 0,
        (m % n) + 1 < n ==> (m + 1) % n == (m % n) + 1,
{
    lemma_fundamental_div_mod(m, n);
    let q = m / n;
    if (m % n) + 1 >= n {
        assert(m + 1 == (q + 1) * n + 0) by (nonlinear_arith)
            requires
                m == n * q + m % n,
                m % n + 1 == n,
        ;
        lemma_fundamental_div_mod_converse(m + 1, n, q + 1, 0);
    } else {
        assert(m + 1 == q * n + (m % n + 1)) by (nonlinear_arith)
            requires
                m == n * q + m % n,
        ;
        lemma_fundamental_div_mod_converse(m + 1, n, q, m % n + 1);
    }
}

/// What a line holds after the first `m` writes of a trace that starts at
/// the beginning of a ring of `n`: the cursor is at position `m`, and each of
/// the last `n` samples written sits in the slot of its position.
proof fn lemma_trace_prefix<T: Copy, const N: usize>(
    lines: Seq<MemoryDelay<T, N>>,
    samples: Seq<T>,
    n: nat,
    m: nat,
)
    requires
        lines.len() == samples.len() + 1,
        m <= samples.len(),
        lines[0].wf(),
        lines[0].cursor() == 0,
        lines[0].sample_count() == n,
        0 < n,
        forall|k: int|
            0 <= k < samples.len() ==> #[trigger] lines[k + 1].is_write_of(&lines[k], samples[k]),
    ensures
        lines[m as int].wf(),
        lines[m as int].sample_count() == n,
        lines[m as int].cursor() == m % n,
        forall|i: int|
            0 <= i < m && m - n <= i ==> lines[m as int].slots()[#[trigger] (i % n as int)]
                == samples[i],
    decreases m,
{
    if m == 0 {
        lemma_small_mod(0, n);
    } else {
        let p = (m - 1) as nat;
        lemma_trace_prefix(lines, samples, n, p);
        assert(lines[p as int + 1].is_write_of(&lines[p as int], samples[p as int]));
        lemma_ring_next(p as int, n as int);
        let prev = lines[p as int];
        let cur = lines[m as int];
        assert forall|i: int| 0 <= i < m && m - n <= i implies cur.slots()[#[trigger] (i
            % n as int)] == samples[i] by {
            lemma_mod_bound(i, n as int);
            if i < p {
                lemma_close_positions_differ(i, p as int, n as int);
            }
        }
    }
}

/// A line set to a length of `n`, with its cursor at the start, reproduces
/// its input delayed by `n` samples: in a trace of writes, the value read
/// before the write of sample `m` (for `m >= n`) is sample `m - n`.
pub proof fn lemma_delay_round_trip<T: Copy, const N: usize>(
    lines: Seq<MemoryDelay<T, N>>,
    samples: Seq<T>,
    n: nat,
)
    requires
        lines.len() == samples.len() + 1,
        lines[0].wf(),
        lines[0].cursor() == 0,
        lines[0].sample_count() == n,
        0 < n,
        forall|k: int|
            0 <= k < samples.len() ==> #[trigger] lines[k + 1].is_write_of(&lines[k], samples[k]),
    ensures
        forall|m: int|
            n <= m <= samples.len() ==> (#[trigger] lines[m]).slots()[lines[m].cursor() as int]
                == samples[m - n],
{
    assert forall|m: int| n <= m <= samples.len() implies (#[trigger] lines[m]).slots()[lines[
        m].cursor() as int] == samples[m - n] by {
        lemma_trace_prefix(lines, samples, n, m as nat);
        lemma_mod_add_multiples_vanish(m - n, n as int);
        assert((m - n) % (n as int) == m % (n as int));
    }
}

} // verus!
