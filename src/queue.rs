//! The ring itself.
use vstd::prelude::*;
use vstd::arithmetic::div_mod::lemma_fundamental_div_mod_converse;
use crate::model::{occupied, pushed, popped, front};

verus! {

/// A queue of at most `N - 1` bytes held in `N` slots.
pub struct ShortQueue<const N: usize> {
    head: u8,
    tail: u8,
    buf: [u8; N],
}

impl<const N: usize> View for ShortQueue<N> {
    type V = Seq<u8>;

    /// The bytes in the queue, oldest first.
    closed spec fn view(&self) -> Seq<u8> {
        Seq::new(
            occupied(self.head as int, self.tail as int, N as int) as nat,
            |i: int| self.buf@[(self.head as int + i) % (N as int)],
        )
    }
}

/// The slot `i` places after slot `start` on a ring of `n` slots.
spec fn slot(start: int, i: int, n: int) -> int {
    if n > start + i {
        start + i
    } else {
        start + i - n
    }
}

/// Once around the ring at most: `x mod n` is `x` or `x - n`.
proof fn lemma_mod_once(x: int, n: int)
    requires
        0 < n,
        0 <= x < 2 * n,
    ensures
        x % n == (if n > x { x } else { x - n }),
{
    if n > x {
        lemma_fundamental_div_mod_converse(x, n, 0, x);
    } else {
        lemma_fundamental_div_mod_converse(x, n, 1, x - n);
    }
}

impl<const N: usize> ShortQueue<N> {
    /// The slot count is in range and both cursors point at a slot.
    pub closed spec fn wf(&self) -> bool {
        &&& 1 <= N <= 256
        &&& (self.head as int) < N
        &&& (self.tail as int) < N
    }

    /// The slot that the next byte popped comes from.
    pub closed spec fn head_index(&self) -> nat {
        self.head as nat
    }

    /// The slot that the next byte pushed goes to.
    pub closed spec fn tail_index(&self) -> nat {
        self.tail as nat
    }

    /// The backing slots, occupied or not.
    pub closed spec fn slots(&self) -> Seq<u8> {
        self.buf@
    }

    /// How many bytes the queue can hold at once.
    pub open spec fn cap() -> nat {
        (N - 1) as nat
    }

    /// The view without remainders: its length, and the slot of each byte.
    proof fn lemma_view(&self)
        requires
            self.wf(),
        ensures
            self@.len() == slot(self.tail as int, N - self.head, N as int),
            self@.len() < N,
            forall|i: int|
                0 <= i < self@.len() ==> #[trigger] self@[i] == self.buf@[slot(
                    self.head as int,
                    i,
                    N as int,
                )],
    {
        let (h, t, n) = (self.head as int, self.tail as int, N as int);
        lemma_mod_once(t - h + n, n);
        assert forall|i: int| 0 <= i < self@.len() implies #[trigger] self@[i] == self.buf@[slot(
            h,
            i,
            n,
        )] by {
            lemma_mod_once(h + i, n);
        }
    }

    /// A well-formed queue never holds more than its capacity.
    pub proof fn lemma_len_bound(&self)
        requires
            self.wf(),
        ensures
            self@.len() <= Self::cap(),
    {
        self.lemma_view();
    }

    /// The cursor position after `p`, wrapping to the first slot.
    fn increment(p: u8) -> (r: u8)
        requires
            1 <= N <= 256,
            (p as int) < N,
        ensures
            r as int == (p as int + 1) % (N as int),
    {
        proof {
            lemma_mod_once(p as int + 1, N as int);
        }
        if p as usize + 1 == N {
            0
        } else {
            p + 1
        }
    }

    /// An empty queue with zeroed slots and both cursors at the first slot.
    pub fn new() -> (q: Self)
        requires
            1 <= N <= 256,
        ensures
            q.wf(),
            q@ == Seq::<u8>::empty(),
            q.head_index() == 0,
            q.tail_index() == 0,
            q.slots().len() == N,
            forall|i: int| 0 <= i < N ==> #[trigger] q.slots()[i] == 0,
    {
        let q = ShortQueue { head: 0, tail: 0, buf: [0u8; N] };
        assert((N as int) % (N as int) == 0) by (nonlinear_arith)
            requires
                N >= 1,
        ;
        assert(q@ =~= Seq::<u8>::empty());
        q
    }

    /// How many bytes the queue can hold at once: one less than its slots.
    pub fn capacity(&self) -> (r: usize)
        requires
            self.wf(),
        ensures
            r == N - 1,
            r == Self::cap(),
    {
        N - 1
    }

    /// Appends `v` when there is room and says whether it did; a full queue
    /// is left exactly as it was.
    pub fn push(&mut self, v: u8) -> (r: bool)
        requires
            old(self).wf(),
        ensures
            final(self).wf(),
            r == (old(self)@.len() < Self::cap()),
            !r <==> old(self)@.len() == Self::cap(),
            final(self)@ == pushed(old(self)@, Self::cap(), v),
            !r ==> *final(self) == *old(self),
            r ==> final(self).tail_index() as int == (old(self).tail_index() as int + 1) % (N as int),
            r ==> final(self).slots() == old(self).slots().update(old(self).tail_index() as int, v),
            final(self).head_index() == old(self).head_index(),
    {
        proof {
            self.lemma_view();
        }
        let tail = self.tail;
        let next_tail = Self::increment(tail);
        proof {
            lemma_mod_once(tail as int + 1, N as int);
        }
        if next_tail == self.head {
            return false;
        }
        self.buf[tail as usize] = v;
        self.tail = next_tail;
        proof {
            self.lemma_view();
            old(self).lemma_view();
            assert(self@ =~= old(self)@.push(v));
        }
        true
    }

    /// Takes the oldest byte, or `None` from an empty queue, which is left
    /// exactly as it was.
    pub fn pop(&mut self) -> (r: Option<u8>)
        requires
            old(self).wf(),
        ensures
            final(self).wf(),
            r == front(old(self)@),
            r is None <==> old(self)@.len() == 0,
            final(self)@ == popped(old(self)@),
            r is None ==> *final(self) == *old(self),
            r is Some ==> final(self).head_index() as int == (old(self).head_index() as int + 1) % (
            N as int),
            final(self).tail_index() == old(self).tail_index(),
            final(self).slots() == old(self).slots(),
    {
        proof {
            self.lemma_view();
        }
        let head = self.head;
        if head == self.tail {
            return None;
        }
        let rv = self.buf[head as usize];
        self.head = Self::increment(head);
        proof {
            lemma_mod_once(head as int + 1, N as int);
            self.lemma_view();
            old(self).lemma_view();
            assert(self@ =~= old(self)@.drop_first());
        }
        Some(rv)
    }

    /// Discards every byte in the queue at once by moving the head cursor
    /// onto the tail cursor; the slots are not touched.
    pub fn drain(&mut self)
        requires
            old(self).wf(),
        ensures
            final(self).wf(),
            final(self)@ == Seq::<u8>::empty(),
            final(self).head_index() == old(self).tail_index(),
            final(self).tail_index() == old(self).tail_index(),
            final(self).slots() == old(self).slots(),
            old(self)@.len() == 0 ==> *final(self) == *old(self),
    {
        proof {
            old(self).lemma_view();
        }
        self.head = self.tail;
        proof {
            self.lemma_view();
        }
        assert(self@ =~= Seq::<u8>::empty());
    }

    /// How many bytes the queue holds.
    pub fn len(&self) -> (r: usize)
        requires
            self.wf(),
        ensures
            r == self@.len(),
            r <= Self::cap(),
    {
        proof {
            self.lemma_view();
        }
        if self.head <= self.tail {
            (self.tail - self.head) as usize
        } else {
            self.tail as usize + N - self.head as usize
        }
    }

    /// Whether the queue holds no byte: the cursors are equal.
    pub fn is_empty(&self) -> (r: bool)
        requires
            self.wf(),
        ensures
            r == (self@.len() == 0),
    {
        proof {
            self.lemma_view();
        }
        self.head == self.tail
    }

    /// Whether the queue holds as many bytes as it can: the slot after the
    /// tail cursor is the head cursor's.
    pub fn is_full(&self) -> (r: bool)
        requires
            self.wf(),
        ensures
            r == (self@.len() == Self::cap()),
    {
        proof {
            self.lemma_view();
            lemma_mod_once(self.tail as int + 1, N as int);
        }
        Self::increment(self.tail) == self.head
    }
}

} // verus!
