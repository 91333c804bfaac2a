//! The abstract queue: the bytes it holds, oldest first, and how each
//! operation changes them.
use vstd::prelude::*;

verus! {

/// The number of occupied slots between the cursors of a ring of `n` slots.
pub open spec fn occupied(head: int, tail: int, n: int) -> int {
    (tail - head + n) % n
}

/// The contents after offering `v` to a queue holding `s` with room for `cap`:
/// appended when there is room, unchanged otherwise.
pub open spec fn pushed(s: Seq<u8>, cap: nat, v: u8) -> Seq<u8> {
    if s.len() < cap {
        s.push(v)
    } else {
        s
    }
}

/// The contents after taking one byte from a queue holding `s`.
pub open spec fn popped(s: Seq<u8>) -> Seq<u8> {
    if s.len() == 0 {
        s
    } else {
        s.drop_first()
    }
}

/// What a pop on a queue holding `s` hands back.
pub open spec fn front(s: Seq<u8>) -> Option<u8> {
    if s.len() == 0 {
        None
    } else {
        Some(s[0])
    }
}

/// The contents after offering each byte of `xs` in turn to a queue holding
/// `s` with room for `cap`.
pub open spec fn push_all(s: Seq<u8>, cap: nat, xs: Seq<u8>) -> Seq<u8>
    decreases xs.len(),
{
    if xs.len() == 0 {
        s
    } else {
        pushed(push_all(s, cap, xs.drop_last()), cap, xs.last())
    }
}

/// What `n` pops in a row hand back from a queue holding `s`.
pub open spec fn pops(s: Seq<u8>, n: nat) -> Seq<Option<u8>>
    decreases n,
{
    if n == 0 {
        Seq::empty()
    } else {
        seq![front(s)] + pops(popped(s), (n - 1) as nat)
    }
}

/// The contents after `n` pops in a row from a queue holding `s`.
pub open spec fn pop_n(s: Seq<u8>, n: nat) -> Seq<u8>
    decreases n,
{
    if n == 0 {
        s
    } else {
        pop_n(popped(s), (n - 1) as nat)
    }
}

/// Pushes that all fit append their bytes in order.
pub proof fn lemma_push_all_fits(s: Seq<u8>, cap: nat, xs: Seq<u8>)
    requires
        s.len() + xs.len() <= cap,
    ensures
        push_all(s, cap, xs) == s + xs,
    decreases xs.len(),
{
    if xs.len() == 0 {
        assert(s + xs =~= s);
    } else {
        lemma_push_all_fits(s, cap, xs.drop_last());
        assert(s + xs =~= (s + xs.drop_last()).push(xs.last()));
    }
}

/// Filling an empty queue with `k` bytes, `k` at most its capacity: every
/// push succeeds, the queue then holds `k` bytes, and it is full exactly
/// when `k` is the capacity.
pub proof fn law_fill_from_empty(cap: nat, xs: Seq<u8>)
    requires
        xs.len() <= cap,
    ensures
        push_all(Seq::empty(), cap, xs) == xs,
        push_all(Seq::empty(), cap, xs).len() == xs.len(),
        (push_all(Seq::empty(), cap, xs).len() == cap) == (xs.len() == cap),
{
    lemma_push_all_fits(Seq::empty(), cap, xs);
    assert(Seq::<u8>::empty() + xs =~= xs);
}

/// Popping as many times as a queue holds bytes hands them all back, oldest
/// first, and leaves the queue empty.
pub proof fn lemma_pop_everything(s: Seq<u8>)
    ensures
        pops(s, s.len()) == s.map_values(|b: u8| Some(b)),
        pop_n(s, s.len()) == Seq::<u8>::empty(),
    decreases s.len(),
{
    if s.len() == 0 {
        assert(s.map_values(|b: u8| Some(b)) =~= Seq::<Option<u8>>::empty());
    } else {
        lemma_pop_everything(s.drop_first());
        assert(s.map_values(|b: u8| Some(b)) =~= seq![Some(s[0])] + s.drop_first().map_values(
            |b: u8| Some(b),
        ));
    }
}

/// First in, first out: after pushing `xs` onto a queue holding `s`, with
/// room for all of them, as many pops as there are bytes hand back `s` and
/// then `xs`, each in the order it went in, and leave the queue empty.
pub proof fn law_first_in_first_out(s: Seq<u8>, cap: nat, xs: Seq<u8>)
    requires
        s.len() + xs.len() <= cap,
    ensures
        pops(push_all(s, cap, xs), s.len() + xs.len()) == (s + xs).map_values(|b: u8| Some(b)),
        pop_n(push_all(s, cap, xs), s.len() + xs.len()) == Seq::<u8>::empty(),
{
    lemma_push_all_fits(s, cap, xs);
    lemma_pop_everything(s + xs);
}

} // verus!
