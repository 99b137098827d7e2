//! A fixed-capacity ring buffer for one producer and one consumer that never
//! blocks the producer: when full, a write discards the oldest element.
//!
//! The producer only moves the write cursor (and the read cursor past an
//! element it overwrites); the consumer only moves the read cursor. Both
//! operations take `&mut self`: exactly one producer and one consumer may
//! use a buffer, and their calls must not interleave.
use vstd::prelude::*;

verus! {

/// Position of the `i`-th slot after `start` in a ring of `cap` slots.
pub open spec fn ring_slot(start: int, i: int, cap: int) -> int {
    if start + i < cap {
        start + i
    } else {
        start + i - cap
    }
}

/// Number of slots from `read` up to `write` going round a ring of `cap`.
pub open spec fn ring_distance(read: int, write: int, cap: int) -> int {
    if write >= read {
        write - read
    } else {
        write + cap - read
    }
}

/// The last `n` elements of `s` (all of `s` when it is shorter).
pub open spec fn keep_last<T>(s: Seq<T>, n: int) -> Seq<T> {
    if s.len() > n {
        s.subrange(s.len() - n, s.len() as int)
    } else {
        s
    }
}

/// A ring of `capacity` slots holding at most `capacity - 1` elements:
/// `read == write` means empty, so the write cursor never catches up with
/// the read cursor.
pub struct CircularBuffer<T> {
    read: usize,
    write: usize,
    buf: Vec<Option<T>>,
}

impl<T> View for CircularBuffer<T> {
    type V = Seq<T>;

    /// The unread elements, oldest first.
    closed spec fn view(&self) -> Seq<T> {
        Seq::new(
            ring_distance(self.read as int, self.write as int, self.buf@.len() as int) as nat,
            |i: int| self.buf@[ring_slot(self.read as int, i, self.buf@.len() as int)].unwrap(),
        )
    }
}

impl<T> CircularBuffer<T> {
    /// Number of slots; one fewer elements can be held.
    pub closed spec fn capacity(&self) -> int {
        self.buf@.len() as int
    }

    pub closed spec fn wf(&self) -> bool {
        &&& self.buf@.len() > 0
        &&& self.read < self.buf@.len()
        &&& self.write < self.buf@.len()
        &&& forall|i: int|
            0 <= i < ring_distance(self.read as int, self.write as int, self.buf@.len() as int)
                ==> (#[trigger] self.buf@[ring_slot(self.read as int, i, self.buf@.len() as int)]).is_some()
    }

    /// The buffer holds fewer elements than it has slots.
    pub proof fn lemma_len_bound(&self)
        requires
            self.wf(),
        ensures
            self@.len() < self.capacity(),
    {
    }

    /// An empty buffer of `cap` slots.
    pub fn new(cap: usize) -> (r: Self)
        requires
            cap > 0,
        ensures
            r.wf(),
            r.capacity() == cap,
            r@ == Seq::<T>::empty(),
    {
        let mut buf: Vec<Option<T>> = Vec::new();
        let mut i: usize = 0;
        while i < cap
            invariant
                i <= cap,
                buf@.len() == i,
            decreases cap - i,
        {
            buf.push(None);
            i = i + 1;
        }
        let r = CircularBuffer { read: 0, write: 0, buf };
        assert(r@ =~= Seq::<T>::empty());
        r
    }

    fn next_index(&self, idx: usize) -> (r: usize)
        requires
            self.buf@.len() > 0,
            idx < self.buf@.len(),
        ensures
            r == ring_slot(idx as int, 1, self.buf@.len() as int),
    {
        if idx >= self.buf.len() - 1 {
            0
        } else {
            idx + 1
        }
    }

    /// Appends `elem`; when the buffer already holds `capacity - 1`
    /// elements the oldest one is discarded first. Never blocks or fails.
    pub fn write(&mut self, elem: T)
        requires
            old(self).wf(),
        ensures
            final(self).wf(),
            final(self).capacity() == old(self).capacity(),
            final(self)@ == keep_last(old(self)@.push(elem), old(self).capacity() - 1),
    {
        let ghost old_view = self@;
        let ghost cap = self.buf@.len() as int;
        let ghost old_buf = self.buf@;
        let ghost old_read = self.read as int;
        let ghost live = ring_distance(self.read as int, self.write as int, cap);
        let next = self.next_index(self.write);
        if next == self.read {
            self.read = self.next_index(self.read);
        }
        let w = self.write;
        self.buf.set(w, Some(elem));
        self.write = next;
        assert(w == ring_slot(old_read, live, cap));
        assert forall|i: int|
            0 <= i < ring_distance(self.read as int, self.write as int, cap) implies (
            #[trigger] self.buf@[ring_slot(self.read as int, i, cap)]).is_some() by {
            if self.read as int == old_read {
                if i < live {
                    assert(old_buf[ring_slot(old_read, i, cap)].is_some());
                }
            } else {
                if i + 1 < live {
                    assert(old_buf[ring_slot(old_read, i + 1, cap)].is_some());
                }
            }
        }
        assert(self@ =~= keep_last(old_view.push(elem), cap - 1));
    }

    /// Takes the oldest unread element, or `None` when there is none.
    pub fn read(&mut self) -> (r: Option<T>)
        requires
            old(self).wf(),
        ensures
            final(self).wf(),
            final(self).capacity() == old(self).capacity(),
            old(self)@.len() == 0 ==> r.is_none() && final(self)@ == old(self)@,
            old(self)@.len() > 0 ==> r == Some(old(self)@[0]) && final(self)@ == old(self)@.drop_first(),
    {
        if self.read == self.write {
            return None;
        }
        let ghost old_view = self@;
        let r = self.read;
        let mut taken: Option<T> = None;
        let ghost old_buf = self.buf@;
        let ghost cap = self.buf@.len() as int;
        let ghost live = ring_distance(self.read as int, self.write as int, cap);
        std::mem::swap(&mut self.buf[r], &mut taken);
        self.read = self.next_index(r);
        assert forall|i: int|
            0 <= i < ring_distance(self.read as int, self.write as int, cap) implies (
            #[trigger] self.buf@[ring_slot(self.read as int, i, cap)]).is_some() by {
            assert(old_buf[ring_slot(r as int, i + 1, cap)].is_some());
        }
        assert(self@ =~= old_view.drop_first());
        taken
    }
}

/// Overwrite: a buffer that holds the newest `n` values of a history of
/// writes, written once more, holds the newest `n` values of the longer
/// history. So after any run of writes without reads the buffer holds the
/// last `capacity - 1` values written, oldest first.
pub proof fn lemma_keeps_newest<T>(history: Seq<T>, v: T, n: int)
    requires
        n >= 0,
    ensures
        keep_last(keep_last(history, n).push(v), n) == keep_last(history.push(v), n),
{
    let k = keep_last(history, n);
    let h = history.push(v);
    if history.len() > n {
        assert(keep_last(k.push(v), n) =~= keep_last(h, n));
    } else {
        assert(k == history);
    }
}

/// Interleaving: a value written into an empty buffer of at least two
/// slots is what the next read returns, after which the buffer is empty
/// again; so alternating writes and reads never loses a value.
pub proof fn lemma_write_then_read<T>(v: T, cap: int)
    requires
        cap >= 2,
    ensures
        keep_last(Seq::<T>::empty().push(v), cap - 1).len() == 1,
        keep_last(Seq::<T>::empty().push(v), cap - 1)[0] == v,
        keep_last(Seq::<T>::empty().push(v), cap - 1).drop_first() == Seq::<T>::empty(),
{
    assert(keep_last(Seq::<T>::empty().push(v), cap - 1).drop_first() =~= Seq::<T>::empty());
}

} // verus!
