use vstd::prelude::*;
use std::collections::VecDeque;

use crate::tally::{count_of, last_n, lemma_counts, lemma_last_n, sum_of, tally_deque};
use crate::ternary::Ternary;

verus! {

/// The contents of a window of capacity `cap` holding `s` after `v` is pushed:
/// the last `cap` values of `s` followed by `v`.
pub open spec fn window_after_push(cap: nat, s: Seq<Ternary>, v: Ternary) -> Seq<Ternary> {
    last_n(s.push(v), cap)
}

/// The value that leaves a window of capacity `cap` holding `s` when `v` is
/// pushed: the oldest value, when the window would otherwise grow past its
/// capacity (with capacity zero, that is `v` itself).
pub open spec fn window_evicted(cap: nat, s: Seq<Ternary>, v: Ternary) -> Option<Ternary> {
    if s.push(v).len() > cap {
        Some(s.push(v)[0])
    } else {
        None
    }
}

/// Majority vote over counts: the value that occurs strictly more often than
/// both others, or `Zero` when no value does.
pub open spec fn strict_majority(neg: nat, zero: nat, pos: nat) -> Ternary {
    if pos > neg && pos > zero {
        Ternary::Pos
    } else if neg > pos && neg > zero {
        Ternary::Neg
    } else {
        Ternary::Zero
    }
}

/// Majority vote over a sequence, with ties giving `Zero`.
pub open spec fn window_majority(s: Seq<Ternary>) -> Ternary {
    strict_majority(
        count_of(s, Ternary::Neg),
        count_of(s, Ternary::Zero),
        count_of(s, Ternary::Pos),
    )
}

/// A sliding window over a ternary data stream.
#[derive(Debug)]
pub struct StreamWindow {
    buffer: VecDeque<Ternary>,
    capacity: usize,
}

impl View for StreamWindow {
    type V = Seq<Ternary>;

    /// The values in the window, oldest first.
    closed spec fn view(&self) -> Seq<Ternary> {
        self.buffer@
    }
}

impl Clone for StreamWindow {
    fn clone(&self) -> (r: Self)
        ensures
            r@ == self@,
            r.capacity_view() == self.capacity_view(),
    {
        proof {
            use_type_invariant(self);
        }
        let buffer = self.buffer.clone();
        proof {
            assert(buffer@ =~= self.buffer@);
        }
        Self { buffer, capacity: self.capacity }
    }
}

impl StreamWindow {
    /// The window never holds more values than its capacity.
    #[verifier::type_invariant]
    closed spec fn within_capacity(&self) -> bool {
        self.buffer@.len() <= self.capacity
    }

    /// The capacity the window was made with.
    pub closed spec fn capacity_view(&self) -> nat {
        self.capacity as nat
    }

    pub fn new(capacity: usize) -> (w: Self)
        ensures
            w@ == Seq::<Ternary>::empty(),
            w.capacity_view() == capacity,
    {
        Self { buffer: VecDeque::with_capacity(capacity), capacity }
    }

    /// Push a new value; if the window is full, returns the evicted value.
    pub fn push(&mut self, val: Ternary) -> (evicted: Option<Ternary>)
        ensures
            old(self)@.len() <= old(self).capacity_view(),
            final(self)@ == window_after_push(old(self).capacity_view(), old(self)@, val),
            evicted == window_evicted(old(self).capacity_view(), old(self)@, val),
            final(self).capacity_view() == old(self).capacity_view(),
            final(self)@.len() <= final(self).capacity_view(),
    {
        proof {
            use_type_invariant(&*self);
        }
        if self.capacity == 0 {
            // A window of capacity zero holds nothing: the value leaves at once.
            return Some(val);
        }
        let mut buffer: VecDeque<Ternary> = VecDeque::new();
        std::mem::swap(&mut buffer, &mut self.buffer);
        let evicted = if buffer.len() == self.capacity {
            buffer.pop_front()
        } else {
            None
        };
        buffer.push_back(val);
        proof {
            if old(self)@.len() == old(self).capacity_view() {
                assert(buffer@ =~= last_n(old(self)@.push(val), old(self).capacity_view()));
            }
        }
        self.buffer = buffer;
        evicted
    }

    pub fn len(&self) -> (r: usize)
        ensures
            r == self@.len(),
            r <= self.capacity_view(),
    {
        proof {
            use_type_invariant(self);
        }
        self.buffer.len()
    }

    pub fn is_empty(&self) -> (r: bool)
        ensures
            r == (self@.len() == 0),
    {
        self.buffer.len() == 0
    }

    pub fn capacity(&self) -> (r: usize)
        ensures
            r == self.capacity_view(),
    {
        self.capacity
    }

    /// The values in the window, oldest first.
    pub fn contents(&self) -> (r: Vec<Ternary>)
        ensures
            r@ == self@,
    {
        let mut out: Vec<Ternary> = Vec::new();
        let n: usize = self.buffer.len();
        let mut i: usize = 0;
        while i < n
            invariant
                n == self@.len(),
                i <= n,
                out@ == self@.take(i as int),
            decreases n - i,
        {
            out.push(self.buffer[i]);
            i = i + 1;
            proof {
                assert(out@ =~= self@.take(i as int));
            }
        }
        proof {
            assert(self@.take(n as int) =~= self@);
        }
        out
    }

    /// Sum of ternary values in the window as i64.
    pub fn sum(&self) -> (r: i64)
        requires
            i64::MIN <= sum_of(self@) <= i64::MAX,
        ensures
            r == sum_of(self@),
            r == count_of(self@, Ternary::Pos) - count_of(self@, Ternary::Neg),
            -self@.len() <= r <= self@.len(),
    {
        let (neg, _zero, pos) = tally_deque(&self.buffer);
        proof {
            lemma_counts(self@);
        }
        let s: i128 = (pos as i128) - (neg as i128);
        s as i64
    }

    /// Majority vote: returns the most common value, or Zero on tie.
    pub fn majority(&self) -> (r: Ternary)
        ensures
            r == window_majority(self@),
    {
        let (neg, zero, pos) = tally_deque(&self.buffer);
        if pos > neg && pos > zero {
            Ternary::Pos
        } else if neg > pos && neg > zero {
            Ternary::Neg
        } else {
            Ternary::Zero
        }
    }

    pub fn clear(&mut self)
        ensures
            final(self)@ == Seq::<Ternary>::empty(),
            final(self).capacity_view() == old(self).capacity_view(),
    {
        let mut buffer: VecDeque<Ternary> = VecDeque::new();
        std::mem::swap(&mut buffer, &mut self.buffer);
    }
}

/// The contents of a window of capacity `cap`, started empty, after the values
/// of `s` have been pushed in order.
pub open spec fn window_of_stream(cap: nat, s: Seq<Ternary>) -> Seq<Ternary>
    decreases s.len(),
{
    if s.len() == 0 {
        Seq::empty()
    } else {
        window_after_push(cap, window_of_stream(cap, s.drop_last()), s.last())
    }
}

/// A window holds the last `capacity` values pushed (all of them, while
/// fewer were pushed); a window of capacity zero stays empty.
pub proof fn lemma_window_holds_latest(cap: nat, s: Seq<Ternary>)
    ensures
        window_of_stream(cap, s) == last_n(s, cap),
        window_of_stream(cap, s).len() <= cap,
    decreases s.len(),
{
    if s.len() > 0 {
        lemma_window_holds_latest(cap, s.drop_last());
        assert(s.drop_last().push(s.last()) =~= s);
        assert(window_of_stream(cap, s) =~= last_n(s, cap));
    } else {
        assert(window_of_stream(cap, s) =~= last_n(s, cap));
    }
}

/// A majority other than `Zero` occurs strictly more often than each other
/// value, and a value that occurs strictly more often than each other value is
/// the majority (with `Zero` also standing for "no strict winner").
pub proof fn lemma_majority_is_strict(s: Seq<Ternary>)
    ensures
        window_majority(s) == Ternary::Pos <==> count_of(s, Ternary::Pos) > count_of(
            s,
            Ternary::Neg,
        ) && count_of(s, Ternary::Pos) > count_of(s, Ternary::Zero),
        window_majority(s) == Ternary::Neg <==> count_of(s, Ternary::Neg) > count_of(
            s,
            Ternary::Pos,
        ) && count_of(s, Ternary::Neg) > count_of(s, Ternary::Zero),
{
}

/// One push, spelled out: a window of capacity zero stays empty and hands the
/// value back; a window with room appends the value and evicts nothing; a
/// full window drops its oldest value, hands it back, and appends the new one.
pub proof fn lemma_push_spelled_out(cap: nat, s: Seq<Ternary>, v: Ternary)
    requires
        s.len() <= cap,
    ensures
        cap == 0 ==> window_after_push(cap, s, v) == Seq::<Ternary>::empty() && window_evicted(
            cap,
            s,
            v,
        ) == Some(v),
        0 < cap && s.len() < cap ==> window_after_push(cap, s, v) == s.push(v) && window_evicted(
            cap,
            s,
            v,
        ) == None::<Ternary>,
        0 < cap && s.len() == cap ==> window_after_push(cap, s, v) == s.drop_first().push(v)
            && window_evicted(cap, s, v) == Some(s[0]),
{
    lemma_last_n(s.push(v), cap);
    if cap == 0 {
        assert(window_after_push(cap, s, v) =~= Seq::<Ternary>::empty());
    } else if s.len() == cap {
        assert(window_after_push(cap, s, v) =~= s.drop_first().push(v));
    }
}

} // verus!
