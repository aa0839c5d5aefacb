//! Fixed-capacity FIFO with peek at an offset, between the event
//! synthesizer (writer) and the transform engine (reader).
use vstd::prelude::*;

verus! {

/// Number of slots. One slot stays unused, so at most `BUFFER_SIZE - 1`
/// items are held at a time.
pub const BUFFER_SIZE: usize = 64;

/// What `push` makes of the unread items `s`: `x` is appended; when the
/// buffer was already holding `BUFFER_SIZE - 1` items, the write position
/// catches up with the read position and every unread item is lost.
pub open spec fn ring_push<T>(s: Seq<T>, x: T) -> Seq<T> {
    if s.len() + 1 < BUFFER_SIZE {
        s.push(x)
    } else {
        Seq::empty()
    }
}

/// A ring of `BUFFER_SIZE` slots; the unread items run from `read_ptr` up to
/// (not including) `write_ptr`, wrapping around.
pub struct RingBuffer<T: Copy> {
    buf: [T; BUFFER_SIZE],
    read_ptr: usize,
    write_ptr: usize,
}

impl<T: Copy> View for RingBuffer<T> {
    type V = Seq<T>;

    /// The unread items, oldest first.
    closed spec fn view(&self) -> Seq<T> {
        let len = (self.write_ptr - self.read_ptr + BUFFER_SIZE) % (BUFFER_SIZE as int);
        Seq::new(len as nat, |i: int| self.buf@[(self.read_ptr + i) % (BUFFER_SIZE as int)])
    }
}

impl<T: Copy> RingBuffer<T> {
    /// Both positions lie in the ring.
    pub closed spec fn wf(&self) -> bool {
        self.read_ptr < BUFFER_SIZE && self.write_ptr < BUFFER_SIZE
    }

    /// An empty buffer whose slots are filled with `t`.
    pub fn new(t: T) -> (r: RingBuffer<T>)
        ensures
            r.wf(),
            r@ == Seq::<T>::empty(),
    {
        let r = RingBuffer { buf: [t; BUFFER_SIZE], read_ptr: 0, write_ptr: 0 };
        assert(r@ =~= Seq::<T>::empty());
        r
    }

    /// At most `BUFFER_SIZE - 1` items are unread.
    pub proof fn lemma_len(&self)
        requires
            self.wf(),
        ensures
            self@.len() < BUFFER_SIZE,
    {
    }

    /// Stores `item` after the unread items (see `ring_push` for a full buffer).
    pub fn push(&mut self, item: &T)
        requires
            old(self).wf(),
        ensures
            final(self).wf(),
            final(self)@ == ring_push(old(self)@, *item),
    {
        let ghost old_view = self@;
        self.buf[self.write_ptr] = *item;
        self.write_ptr += 1;
        if self.write_ptr >= BUFFER_SIZE {
            self.write_ptr = 0;
        }
        proof {
            if old_view.len() + 1 < BUFFER_SIZE {
                assert(self@ =~= old_view.push(*item));
            } else {
                assert(self@ =~= Seq::<T>::empty());
            }
        }
    }

    /// The unread item at `offset` from the oldest, if there is one.
    pub fn peek(&self, offset: usize) -> (r: Option<T>)
        requires
            self.wf(),
            offset < BUFFER_SIZE,
        ensures
            r == (if offset < self@.len() {
                Some(self@[offset as int])
            } else {
                None
            }),
    {
        let read_pos = self.read_ptr + offset;
        let write_pos = if self.write_ptr < self.read_ptr {
            self.write_ptr + BUFFER_SIZE
        } else {
            self.write_ptr
        };
        if read_pos >= write_pos {
            None
        } else {
            Some(self.buf[read_pos % BUFFER_SIZE])
        }
    }

    /// Drops the oldest unread item, if there is one.
    pub fn consume(&mut self)
        requires
            old(self).wf(),
        ensures
            final(self).wf(),
            final(self)@ == (if old(self)@.len() > 0 {
                old(self)@.drop_first()
            } else {
                old(self)@
            }),
    {
        let ghost old_view = self@;
        if self.read_ptr != self.write_ptr {
            self.read_ptr += 1;
            if self.read_ptr >= BUFFER_SIZE {
                self.read_ptr = 0;
            }
            assert(self@ =~= old_view.drop_first());
        }
    }
}

} // verus!
