use vstd::prelude::*;

use crate::tally::{count_of, lemma_count_concat, lemma_counts, sum_of};
use crate::ternary::{value, Ternary};

verus! {

/// The number of observations in a tally of (negatives, zeros, positives).
pub open spec fn total(v: (nat, nat, nat)) -> nat {
    v.0 + v.1 + v.2
}

/// The sum of the observations in a tally: positives minus negatives.
pub open spec fn balance(v: (nat, nat, nat)) -> int {
    v.2 - v.0
}

/// A tally with one more observation of `t`.
pub open spec fn tally_add(v: (nat, nat, nat), t: Ternary) -> (nat, nat, nat) {
    match t {
        Ternary::Neg => (v.0 + 1, v.1, v.2),
        Ternary::Zero => (v.0, v.1 + 1, v.2),
        Ternary::Pos => (v.0, v.1, v.2 + 1),
    }
}

/// Two tallies combined.
pub open spec fn tally_merge(a: (nat, nat, nat), b: (nat, nat, nat)) -> (nat, nat, nat) {
    (a.0 + b.0, a.1 + b.1, a.2 + b.2)
}

/// The tally of a whole sequence.
pub open spec fn tally_of(s: Seq<Ternary>) -> (nat, nat, nat) {
    (count_of(s, Ternary::Neg), count_of(s, Ternary::Zero), count_of(s, Ternary::Pos))
}

/// Integer division rounding toward zero, as Rust's `/` on signed integers.
pub open spec fn trunc_div(a: int, b: int) -> int {
    let q: int = (if a < 0 { -a } else { a }) / (if b < 0 { -b } else { b });
    if (a < 0) != (b < 0) {
        -q
    } else {
        q
    }
}

/// A count read as a signed 64-bit integer (two's complement reinterpretation).
pub open spec fn as_signed(n: int) -> int {
    if n <= i64::MAX {
        n
    } else {
        n - 0x1_0000_0000_0000_0000
    }
}

/// Most frequent value, ties going to `Pos` first and then to `Neg`.
pub open spec fn mode_of(v: (nat, nat, nat)) -> Ternary {
    if v.2 >= v.0 && v.2 >= v.1 {
        Ternary::Pos
    } else if v.0 >= v.2 && v.0 >= v.1 {
        Ternary::Neg
    } else {
        Ternary::Zero
    }
}

/// Running statistics over a ternary stream.
#[derive(Debug)]
pub struct StreamAggregator {
    count: u64,
    sum: i64,
    neg: u64,
    zero: u64,
    pos: u64,
}

impl View for StreamAggregator {
    type V = (nat, nat, nat);

    /// The tally of what was observed: (negatives, zeros, positives).
    closed spec fn view(&self) -> (nat, nat, nat) {
        (self.neg as nat, self.zero as nat, self.pos as nat)
    }
}

impl StreamAggregator {
    /// The count is the number of observations and the sum is their sum.
    #[verifier::type_invariant]
    closed spec fn consistent(&self) -> bool {
        &&& self.count == self.neg + self.zero + self.pos
        &&& self.sum == self.pos - self.neg
    }

    pub fn new() -> (a: Self)
        ensures
            a@ == (0nat, 0nat, 0nat),
    {
        Self { count: 0, sum: 0, neg: 0, zero: 0, pos: 0 }
    }

    /// Record one observation.
    pub fn observe(&mut self, val: Ternary)
        requires
            total(old(self)@) < u64::MAX,
            i64::MIN <= balance(old(self)@) + value(val) <= i64::MAX,
        ensures
            final(self)@ == tally_add(old(self)@, val),
    {
        proof {
            use_type_invariant(&*self);
        }
        let count = self.count + 1;
        let sum = self.sum + val.to_i8() as i64;
        let (neg, zero, pos) = match val {
            Ternary::Neg => (self.neg + 1, self.zero, self.pos),
            Ternary::Zero => (self.neg, self.zero + 1, self.pos),
            Ternary::Pos => (self.neg, self.zero, self.pos + 1),
        };
        *self = Self { count, sum, neg, zero, pos };
    }

    pub fn count(&self) -> (r: u64)
        ensures
            r == total(self@),
    {
        proof {
            use_type_invariant(self);
        }
        self.count
    }

    pub fn sum(&self) -> (r: i64)
        ensures
            r == balance(self@),
    {
        proof {
            use_type_invariant(self);
        }
        self.sum
    }

    /// Fixed-point mean scaled by 1000 (avoids floats).
    /// Returns None if no observations.
    pub fn mean_milli(&self) -> (r: Option<i64>)
        requires
            total(self@) > 0 ==> i64::MIN <= balance(self@) * 1000 <= i64::MAX,
        ensures
            r is None <==> total(self@) == 0,
            r matches Some(m) ==> m == trunc_div(balance(self@) * 1000, as_signed(total(self@) as int)),
    {
        proof {
            use_type_invariant(self);
        }
        if self.count == 0 {
            return None;
        }
        let a: i64 = self.sum * 1000;
        if self.count <= i64::MAX as u64 {
            let d: i64 = self.count as i64;
            let q: i64 = a / d;
            proof {
                if a >= 0 {
                    assert(q == a as int / d as int);
                } else {
                    assert(q == -((-(a as int)) / (d as int)));
                }
            }
            Some(q)
        } else {
            // Read as a signed integer the count is negative: its magnitude
            // is 2^64 - count.
            let ud: u64 = (u64::MAX - self.count) + 1;
            let ua: u64 = if a < 0 { (-a) as u64 } else { a as u64 };
            let q: u64 = ua / ud;
            proof {
                assert(q <= ua) by (nonlinear_arith) requires q == ua / ud, ud >= 1;
            }
            if a < 0 {
                Some(q as i64)
            } else {
                Some(-(q as i64))
            }
        }
    }

    pub fn count_neg(&self) -> (r: u64)
        ensures
            r == self@.0,
    {
        self.neg
    }

    pub fn count_zero(&self) -> (r: u64)
        ensures
            r == self@.1,
    {
        self.zero
    }

    pub fn count_pos(&self) -> (r: u64)
        ensures
            r == self@.2,
    {
        self.pos
    }

    /// The most frequent value (ties favour `Pos`, then `Neg`).
    pub fn mode(&self) -> (r: Ternary)
        ensures
            r == mode_of(self@),
    {
        let n = self.neg;
        let z = self.zero;
        let p = self.pos;
        if p >= n && p >= z {
            Ternary::Pos
        } else if n >= p && n >= z {
            Ternary::Neg
        } else {
            Ternary::Zero
        }
    }

    /// Merge another aggregator into this one.
    pub fn merge(&mut self, other: &StreamAggregator)
        requires
            total(old(self)@) + total(other@) <= u64::MAX,
            i64::MIN <= balance(old(self)@) + balance(other@) <= i64::MAX,
        ensures
            final(self)@ == tally_merge(old(self)@, other@),
    {
        proof {
            use_type_invariant(&*self);
            use_type_invariant(other);
        }
        let count = self.count + other.count;
        let sum = self.sum + other.sum;
        let neg = self.neg + other.neg;
        let zero = self.zero + other.zero;
        let pos = self.pos + other.pos;
        *self = Self { count, sum, neg, zero, pos };
    }
}

impl Clone for StreamAggregator {
    fn clone(&self) -> (r: Self)
        ensures
            r@ == self@,
    {
        proof {
            use_type_invariant(self);
        }
        Self { count: self.count, sum: self.sum, neg: self.neg, zero: self.zero, pos: self.pos }
    }
}

impl Default for StreamAggregator {
    fn default() -> (a: Self)
        ensures
            a@ == (0nat, 0nat, 0nat),
    {
        Self::new()
    }
}

/// The tally after each value of `s` has been observed, in order, starting
/// from the tally `v`.
pub open spec fn observe_all(v: (nat, nat, nat), s: Seq<Ternary>) -> (nat, nat, nat)
    decreases s.len(),
{
    if s.len() == 0 {
        v
    } else {
        tally_add(observe_all(v, s.drop_last()), s.last())
    }
}

/// Observing a stream from scratch counts each value of the stream: the count
/// is the stream's length and the sum is the stream's sum.
pub proof fn lemma_observe_counts_stream(s: Seq<Ternary>)
    ensures
        observe_all((0nat, 0nat, 0nat), s) == tally_of(s),
        total(observe_all((0nat, 0nat, 0nat), s)) == s.len(),
        balance(observe_all((0nat, 0nat, 0nat), s)) == sum_of(s),
    decreases s.len(),
{
    lemma_counts(s);
    if s.len() > 0 {
        lemma_observe_counts_stream(s.drop_last());
    }
}

/// Merging two aggregators gives what one aggregator would hold after seeing
/// both streams, one after the other: streams can be processed in parallel.
pub proof fn lemma_merge_is_concatenation(s1: Seq<Ternary>, s2: Seq<Ternary>)
    ensures
        tally_merge(observe_all((0nat, 0nat, 0nat), s1), observe_all((0nat, 0nat, 0nat), s2))
            == observe_all((0nat, 0nat, 0nat), s1 + s2),
        observe_all(observe_all((0nat, 0nat, 0nat), s1), s2) == observe_all(
            (0nat, 0nat, 0nat),
            s1 + s2,
        ),
{
    lemma_observe_counts_stream(s1);
    lemma_observe_counts_stream(s2);
    lemma_observe_counts_stream(s1 + s2);
    lemma_count_concat(s1, s2, Ternary::Neg);
    lemma_count_concat(s1, s2, Ternary::Zero);
    lemma_count_concat(s1, s2, Ternary::Pos);
    lemma_observe_from(observe_all((0nat, 0nat, 0nat), s1), s2);
}

/// Observing a stream from any tally adds the stream's tally to it.
pub proof fn lemma_observe_from(v: (nat, nat, nat), s: Seq<Ternary>)
    ensures
        observe_all(v, s) == tally_merge(v, tally_of(s)),
    decreases s.len(),
{
    if s.len() > 0 {
        lemma_observe_from(v, s.drop_last());
    }
}

/// Merging is commutative and associative, and the empty tally is neutral.
pub proof fn lemma_merge_algebra(a: (nat, nat, nat), b: (nat, nat, nat), c: (nat, nat, nat))
    ensures
        tally_merge(a, b) == tally_merge(b, a),
        tally_merge(tally_merge(a, b), c) == tally_merge(a, tally_merge(b, c)),
        tally_merge(a, (0nat, 0nat, 0nat)) == a,
        total(tally_merge(a, b)) == total(a) + total(b),
        balance(tally_merge(a, b)) == balance(a) + balance(b),
{
}

/// The mode occurs at least as often as every value.
pub proof fn lemma_mode_is_most_frequent(v: (nat, nat, nat))
    ensures
        ({
            let m = mode_of(v);
            let c = match m {
                Ternary::Neg => v.0,
                Ternary::Zero => v.1,
                Ternary::Pos => v.2,
            };
            c >= v.0 && c >= v.1 && c >= v.2
        }),
{
}

/// The fixed-point mean lies between -1000 and 1000 (the mean of values in
/// {-1, 0, 1}, scaled by 1000), as long as the count reads as a positive
/// signed integer.
pub proof fn lemma_mean_bounded(v: (nat, nat, nat))
    requires
        0 < total(v) <= i64::MAX,
    ensures
        -1000 <= trunc_div(balance(v) * 1000, as_signed(total(v) as int)) <= 1000,
{
    let t = total(v) as int;
    let b = balance(v);
    let a: int = if b * 1000 < 0 { -(b * 1000) } else { b * 1000 };
    assert(0 <= a <= 1000 * t) by (nonlinear_arith)
        requires
            -t <= b <= t,
            a == (if b * 1000 < 0 { -(b * 1000) } else { b * 1000 }),
    ;
    assert(a / t <= 1000) by (nonlinear_arith)
        requires
            0 <= a <= 1000 * t,
            t > 0,
    ;
    assert(a / t >= 0) by (nonlinear_arith)
        requires
            0 <= a,
            t > 0,
    ;
}

/// A stream of at most `i64::MAX` values can always be observed in full from
/// a fresh aggregator: before each value, the count and the sum leave room
/// for it.
pub proof fn lemma_stream_fits(s: Seq<Ternary>)
    requires
        s.len() <= i64::MAX,
    ensures
        forall|i: int|
            0 <= i < s.len() ==> {
                let v = #[trigger] observe_all((0nat, 0nat, 0nat), s.take(i));
                &&& total(v) < u64::MAX
                &&& i64::MIN <= balance(v) + value(s[i]) <= i64::MAX
            },
{
    assert forall|i: int| 0 <= i < s.len() implies {
        let v = #[trigger] observe_all((0nat, 0nat, 0nat), s.take(i));
        &&& total(v) < u64::MAX
        &&& i64::MIN <= balance(v) + value(s[i]) <= i64::MAX
    } by {
        lemma_observe_counts_stream(s.take(i));
        lemma_counts(s.take(i));
    }
}

/// Observing a value adds one to the count, adds the value to the sum, and
/// adds one to that value's count only.
pub proof fn lemma_observe_step(v: (nat, nat, nat), t: Ternary)
    ensures
        total(tally_add(v, t)) == total(v) + 1,
        balance(tally_add(v, t)) == balance(v) + value(t),
        tally_add(v, t).0 == v.0 + (if t == Ternary::Neg { 1nat } else { 0nat }),
        tally_add(v, t).1 == v.1 + (if t == Ternary::Zero { 1nat } else { 0nat }),
        tally_add(v, t).2 == v.2 + (if t == Ternary::Pos { 1nat } else { 0nat }),
{
}

/// The mode is a most frequent value; among values tied for most frequent,
/// `Pos` is preferred, then `Neg`.
pub proof fn lemma_mode_ties(v: (nat, nat, nat))
    ensures
        v.2 >= v.0 && v.2 >= v.1 ==> mode_of(v) == Ternary::Pos,
        v.0 > v.2 && v.0 >= v.1 ==> mode_of(v) == Ternary::Neg,
        v.1 > v.0 && v.1 > v.2 ==> mode_of(v) == Ternary::Zero,
{
}

/// Division rounding toward zero: the remainder `a - q * b` is smaller than
/// `b` in magnitude and has the sign of `a` (or is zero).
pub proof fn lemma_trunc_div(a: int, b: int)
    requires
        b != 0,
    ensures
        ({
            let r = a - trunc_div(a, b) * b;
            &&& -(if b < 0 { -b } else { b }) < r < (if b < 0 { -b } else { b })
            &&& a >= 0 ==> r >= 0
            &&& a < 0 ==> r <= 0
        }),
{
    let aa: int = if a < 0 { -a } else { a };
    let bb: int = if b < 0 { -b } else { b };
    vstd::arithmetic::div_mod::lemma_fundamental_div_mod(aa, bb);
    vstd::arithmetic::div_mod::lemma_mod_pos_bound(aa, bb);
    let qq = aa / bb;
    let rr = aa % bb;
    let q = trunc_div(a, b);
    assert(q == if (a < 0) != (b < 0) { -qq } else { qq });
    assert(a - q * b == if a < 0 { -rr } else { rr }) by (nonlinear_arith)
        requires
            aa == bb * qq + rr,
            aa == (if a < 0 { -a } else { a }),
            bb == (if b < 0 { -b } else { b }),
            q == (if (a < 0) != (b < 0) { -qq } else { qq }),
    ;
}

} // verus!
