use vstd::prelude::*;
use std::collections::VecDeque;

use crate::ternary::{negated, value, Ternary};

verus! {

/// How many times `t` occurs in `s`.
pub open spec fn count_of(s: Seq<Ternary>, t: Ternary) -> nat
    decreases s.len(),
{
    if s.len() == 0 {
        0
    } else {
        count_of(s.drop_last(), t) + (if s.last() == t { 1nat } else { 0nat })
    }
}

/// The sum of the integer values of the elements of `s`.
pub open spec fn sum_of(s: Seq<Ternary>) -> int
    decreases s.len(),
{
    if s.len() == 0 {
        0
    } else {
        sum_of(s.drop_last()) + value(s.last())
    }
}

/// The sign of an integer as a ternary value.
pub open spec fn sign_of(x: int) -> Ternary {
    if x > 0 {
        Ternary::Pos
    } else if x < 0 {
        Ternary::Neg
    } else {
        Ternary::Zero
    }
}

/// The three counts of a sequence add up to its length, and its sum is the
/// number of `Pos` minus the number of `Neg`.
pub proof fn lemma_counts(s: Seq<Ternary>)
    ensures
        count_of(s, Ternary::Neg) + count_of(s, Ternary::Zero) + count_of(s, Ternary::Pos)
            == s.len(),
        sum_of(s) == count_of(s, Ternary::Pos) - count_of(s, Ternary::Neg),
        -s.len() <= sum_of(s) <= s.len(),
    decreases s.len(),
{
    if s.len() > 0 {
        lemma_counts(s.drop_last());
    }
}

/// Counting distributes over concatenation.
pub proof fn lemma_count_concat(a: Seq<Ternary>, b: Seq<Ternary>, t: Ternary)
    ensures
        count_of(a + b, t) == count_of(a, t) + count_of(b, t),
    decreases b.len(),
{
    if b.len() > 0 {
        lemma_count_concat(a, b.drop_last(), t);
        assert((a + b).drop_last() =~= a + b.drop_last());
    } else {
        assert(a + b =~= a);
    }
}

/// Counts the occurrences of each value in a double-ended queue:
/// (negatives, zeros, positives).
pub fn tally_deque(buf: &VecDeque<Ternary>) -> (r: (usize, usize, usize))
    ensures
        r.0 == count_of(buf@, Ternary::Neg),
        r.1 == count_of(buf@, Ternary::Zero),
        r.2 == count_of(buf@, Ternary::Pos),
{
    let mut neg: usize = 0;
    let mut zero: usize = 0;
    let mut pos: usize = 0;
    let n: usize = buf.len();
    let mut i: usize = 0;
    while i < n
        invariant
            n == buf@.len(),
            i <= n,
            neg == count_of(buf@.take(i as int), Ternary::Neg),
            zero == count_of(buf@.take(i as int), Ternary::Zero),
            pos == count_of(buf@.take(i as int), Ternary::Pos),
        decreases n - i,
    {
        proof {
            assert(buf@.take(i + 1).drop_last() =~= buf@.take(i as int));
            lemma_counts(buf@.take(i as int));
        }
        match buf[i] {
            Ternary::Neg => neg = neg + 1,
            Ternary::Zero => zero = zero + 1,
            Ternary::Pos => pos = pos + 1,
        }
        i = i + 1;
    }
    proof {
        assert(buf@.take(n as int) =~= buf@);
    }
    (neg, zero, pos)
}

/// The last `n` values of `s` (all of `s` when it is shorter).
pub open spec fn last_n(s: Seq<Ternary>, n: nat) -> Seq<Ternary> {
    if s.len() <= n {
        s
    } else {
        s.skip(s.len() - n)
    }
}

/// Every value of `s` negated.
pub open spec fn negate_all(s: Seq<Ternary>) -> Seq<Ternary> {
    s.map_values(|t: Ternary| negated(t))
}

/// Negating every value swaps the counts of `Neg` and `Pos`, keeps the count
/// of `Zero`, and negates the sum.
pub proof fn lemma_negate_all(s: Seq<Ternary>)
    ensures
        count_of(negate_all(s), Ternary::Neg) == count_of(s, Ternary::Pos),
        count_of(negate_all(s), Ternary::Zero) == count_of(s, Ternary::Zero),
        count_of(negate_all(s), Ternary::Pos) == count_of(s, Ternary::Neg),
        sum_of(negate_all(s)) == -sum_of(s),
    decreases s.len(),
{
    if s.len() > 0 {
        lemma_negate_all(s.drop_last());
        assert(negate_all(s).drop_last() =~= negate_all(s.drop_last()));
    }
}

/// The count of `t` is the length of the subsequence of the values equal to
/// `t`.
pub proof fn lemma_count_is_filter_len(s: Seq<Ternary>, t: Ternary)
    ensures
        count_of(s, t) == s.filter(|x: Ternary| x == t).len(),
    decreases s.len(),
{
    reveal(Seq::filter);
    if s.len() > 0 {
        lemma_count_is_filter_len(s.drop_last(), t);
    }
}

/// `last_n(s, n)` holds `min(len, n)` values: the final ones of `s`, in order.
pub proof fn lemma_last_n(s: Seq<Ternary>, n: nat)
    ensures
        last_n(s, n).len() == (if s.len() <= n {
            s.len()
        } else {
            n
        }),
        forall|i: int|
            0 <= i < last_n(s, n).len() ==> #[trigger] last_n(s, n)[i] == s[s.len() - last_n(
                s,
                n,
            ).len() + i],
{
}

} // verus!
