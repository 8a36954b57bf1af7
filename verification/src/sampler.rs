use vstd::prelude::*;

use std::collections::VecDeque;

use crate::tally::{
    count_of, lemma_count_is_filter_len, lemma_counts, lemma_negate_all, negate_all, sign_of, sum_of,
    tally_deque,
};
use crate::ternary::{negated, Ternary};

verus! {

/// Downsample a ternary stream by aggregating groups.
#[derive(Clone, Copy, Debug, PartialEq, Eq, Structural)]
pub enum SampleMethod {
    /// Majority vote in each group.
    Majority,
    /// Sum: positive sum → Pos, negative → Neg, zero → Zero.
    Sum,
    /// Take the first element of each group.
    First,
    /// Take the last element of each group.
    Last,
}

/// Majority vote of a group: `Pos` or `Neg` when it occurs strictly more
/// often than the opposite value and at least as often as `Zero`; otherwise
/// `Zero`.
pub open spec fn group_majority(neg: nat, zero: nat, pos: nat) -> Ternary {
    if pos > neg && pos >= zero {
        Ternary::Pos
    } else if neg > pos && neg >= zero {
        Ternary::Neg
    } else {
        Ternary::Zero
    }
}

/// The single value a non-empty group is reduced to.
pub open spec fn aggregate_of(m: SampleMethod, s: Seq<Ternary>) -> Ternary
    recommends
        s.len() > 0,
{
    match m {
        SampleMethod::First => s[0],
        SampleMethod::Last => s.last(),
        SampleMethod::Sum => sign_of(sum_of(s)),
        SampleMethod::Majority => group_majority(
            count_of(s, Ternary::Neg),
            count_of(s, Ternary::Zero),
            count_of(s, Ternary::Pos),
        ),
    }
}

/// Downsampler that collects `factor` values then outputs one.
#[derive(Debug)]
pub struct StreamSampler {
    factor: usize,
    method: SampleMethod,
    buffer: VecDeque<Ternary>,
}

impl StreamSampler {
    /// The group size is positive and a group is never left complete.
    #[verifier::type_invariant]
    closed spec fn partial_group(&self) -> bool {
        &&& self.factor > 0
        &&& self.buffer.len() < self.factor
    }

    /// The number of values per group.
    pub closed spec fn factor_view(&self) -> nat {
        self.factor as nat
    }

    /// How each group is reduced.
    pub closed spec fn method_view(&self) -> SampleMethod {
        self.method
    }

    /// The values of the group being collected, oldest first.
    pub closed spec fn pending(&self) -> Seq<Ternary> {
        self.buffer@
    }

    pub fn new(factor: usize, method: SampleMethod) -> (s: Self)
        requires
            factor > 0,
        ensures
            s.factor_view() == factor,
            s.method_view() == method,
            s.pending() == Seq::<Ternary>::empty(),
            s.factor_view() > 0,
    {
        Self { factor, method, buffer: VecDeque::with_capacity(factor) }
    }

    /// Push a value. Returns a downsampled value when the group is complete.
    pub fn push(&mut self, val: Ternary) -> (r: Option<Ternary>)
        ensures
            final(self).factor_view() == old(self).factor_view(),
            final(self).method_view() == old(self).method_view(),
            old(self).pending().len() < old(self).factor_view(),
            old(self).pending().len() + 1 < old(self).factor_view() ==> r == None::<Ternary>
                && final(self).pending() == old(self).pending().push(val),
            old(self).pending().len() + 1 == old(self).factor_view() ==> r == Some(
                aggregate_of(old(self).method_view(), old(self).pending().push(val)),
            ) && final(self).pending() == Seq::<Ternary>::empty(),
            final(self).pending().len() < final(self).factor_view(),
    {
        proof {
            use_type_invariant(&*self);
        }
        let mut buffer: VecDeque<Ternary> = VecDeque::new();
        std::mem::swap(&mut buffer, &mut self.buffer);
        buffer.push_back(val);
        if buffer.len() < self.factor {
            self.buffer = buffer;
            return None;
        }
        let result = aggregate(self.method, &buffer);
        Some(result)
    }

    /// Flush any remaining partial group.
    pub fn flush(&mut self) -> (r: Option<Ternary>)
        ensures
            final(self).factor_view() == old(self).factor_view(),
            final(self).method_view() == old(self).method_view(),
            old(self).pending().len() == 0 ==> r == None::<Ternary>,
            old(self).pending().len() > 0 ==> r == Some(
                aggregate_of(old(self).method_view(), old(self).pending()),
            ),
            final(self).pending() == Seq::<Ternary>::empty(),
    {
        proof {
            use_type_invariant(&*self);
        }
        if self.buffer.len() == 0 {
            return None;
        }
        let mut buffer: VecDeque<Ternary> = VecDeque::new();
        std::mem::swap(&mut buffer, &mut self.buffer);
        let result = aggregate(self.method, &buffer);
        Some(result)
    }
}

impl Clone for StreamSampler {
    fn clone(&self) -> (r: Self)
        ensures
            r.factor_view() == self.factor_view(),
            r.method_view() == self.method_view(),
            r.pending() == self.pending(),
    {
        proof {
            use_type_invariant(self);
        }
        let buffer = self.buffer.clone();
        proof {
            assert(buffer@ =~= self.buffer@);
        }
        Self { factor: self.factor, method: self.method, buffer }
    }
}

/// Reduce a non-empty group to one value.
fn aggregate(method: SampleMethod, buffer: &VecDeque<Ternary>) -> (r: Ternary)
    requires
        buffer@.len() > 0,
    ensures
        r == aggregate_of(method, buffer@),
{
    match method {
        SampleMethod::First => buffer[0],
        SampleMethod::Last => buffer[buffer.len() - 1],
        SampleMethod::Sum => {
            let (neg, _zero, pos) = tally_deque(buffer);
            proof {
                lemma_counts(buffer@);
            }
            if pos > neg {
                Ternary::Pos
            } else if pos < neg {
                Ternary::Neg
            } else {
                Ternary::Zero
            }
        },
        SampleMethod::Majority => {
            let (neg, zero, pos) = tally_deque(buffer);
            if pos > neg && pos >= zero {
                Ternary::Pos
            } else if neg > pos && neg >= zero {
                Ternary::Neg
            } else {
                Ternary::Zero
            }
        },
    }
}

/// The number of groups a stream of `n` values falls into with groups of `f`
/// values: the last group may be partial.
pub open spec fn num_groups(n: nat, f: nat) -> nat
    recommends
        f > 0,
{
    ((n + f - 1) / (f as int)) as nat
}

/// The `j`-th group of `s` with groups of `f` values.
pub open spec fn group(s: Seq<Ternary>, f: nat, j: int) -> Seq<Ternary> {
    let lo = j * f;
    let hi = if (j + 1) * f < s.len() {
        (j + 1) * f
    } else {
        s.len() as int
    };
    s.subrange(lo, hi)
}

/// A stream downsampled: each group of `f` values (the last possibly partial)
/// reduced to one value by method `m`.
pub open spec fn downsampled(s: Seq<Ternary>, f: nat, m: SampleMethod) -> Seq<Ternary> {
    Seq::new(num_groups(s.len(), f), |j: int| aggregate_of(m, group(s, f, j)))
}

proof fn lemma_group_bounds(n: nat, f: nat, k: nat, kf: int, j: int)
    requires
        f > 0,
        kf == k * f,
        kf <= n,
        0 <= j < k,
    ensures
        j * f + f == (j + 1) * f,
        (j + 1) * f <= kf,
        0 <= j * f,
{
    assert(j * f + f == (j + 1) * f) by (nonlinear_arith);
    assert((j + 1) * f <= k * f) by (nonlinear_arith)
        requires
            j + 1 <= k,
            f > 0,
    ;
    assert(0 <= j * f) by (nonlinear_arith)
        requires
            j >= 0,
            f > 0,
    ;
}

proof fn lemma_group_count(n: nat, f: nat, k: nat, kf: int)
    requires
        f > 0,
        kf == k * f,
        kf <= n < kf + f,
    ensures
        num_groups(n, f) == k + (if n > kf { 1nat } else { 0nat }),
{
    let x: int = n + f - 1;
    if n > kf {
        let r: int = n - kf - 1;
        assert(x == (k + 1) * f + r) by (nonlinear_arith)
            requires
                x == n + f - 1,
                r == n - kf - 1,
                kf == k * f,
        ;
        vstd::arithmetic::div_mod::lemma_fundamental_div_mod_converse(x, f as int, (k + 1) as int, r);
    } else {
        let r: int = f - 1;
        assert(x == k * f + r);
        vstd::arithmetic::div_mod::lemma_fundamental_div_mod_converse(x, f as int, k as int, r);
    }
}

/// Batch-downsample a slice of ternary values.
pub fn downsample(data: &[Ternary], factor: usize, method: SampleMethod) -> (r: Vec<Ternary>)
    requires
        factor > 0,
    ensures
        r@ == downsampled(data@, factor as nat, method),
{
    let mut sampler = StreamSampler::new(factor, method);
    let mut result: Vec<Ternary> = Vec::new();
    let ghost mut kf: int = 0;
    let n: usize = data.len();
    let mut i: usize = 0;
    while i < n
        invariant
            n == data@.len(),
            i <= n,
            factor > 0,
            sampler.factor_view() == factor,
            sampler.method_view() == method,
            kf == result@.len() * factor,
            kf + sampler.pending().len() == i,
            sampler.pending() == data@.subrange(kf, i as int),
            sampler.pending().len() < factor,
            forall|j: int|
                0 <= j < result@.len() ==> #[trigger] result@[j] == aggregate_of(
                    method,
                    data@.subrange(j * factor, j * factor + factor),
                ),
        decreases n - i,
    {
        let v = data[i];
        let out = sampler.push(v);
        proof {
            assert(data@.subrange(kf, i + 1) =~= data@.subrange(kf, i as int).push(v));
        }
        match out {
            Some(x) => {
                let ghost k = result@.len();
                result.push(x);
                proof {
                    assert(kf + factor == (k + 1) * factor) by (nonlinear_arith)
                        requires
                            kf == k * factor,
                    ;
                    kf = kf + factor;
                    assert(sampler.pending() =~= data@.subrange(kf, i + 1));
                }
            },
            None => {},
        }
        i = i + 1;
    }
    let ghost k = result@.len();
    let ghost full = result@;
    match sampler.flush() {
        Some(x) => result.push(x),
        None => {},
    }
    proof {
        lemma_group_count(n as nat, factor as nat, k, kf);
        let d = downsampled(data@, factor as nat, method);
        assert forall|j: int| 0 <= j < result@.len() implies result@[j] == d[j] by {
            if j < k {
                lemma_group_bounds(n as nat, factor as nat, k, kf, j);
                assert(group(data@, factor as nat, j) =~= data@.subrange(j * factor, j * factor + factor));
                assert(result@[j] == full[j]);
            } else {
                assert(j == k);
                assert((j + 1) * factor == kf + factor && j * factor == kf) by (nonlinear_arith)
                    requires
                        j == k,
                        kf == k * factor,
                ;
                assert(group(data@, factor as nat, j) =~= data@.subrange(kf, n as int));
            }
        }
        assert(result@ =~= d);
    }
    result
}

/// Reducing a group has no sign bias: negating every value of a group negates
/// what it is reduced to, whatever the method.
pub proof fn lemma_aggregate_sign_symmetric(m: SampleMethod, s: Seq<Ternary>)
    requires
        s.len() > 0,
    ensures
        aggregate_of(m, negate_all(s)) == negated(aggregate_of(m, s)),
{
    lemma_negate_all(s);
}

/// How each method reduces a non-empty group, in terms of the group itself:
/// `First` and `Last` take the first and last values; `Sum` gives the sign of
/// the group's sum (so `Pos` exactly when `Pos` occurs more often than `Neg`);
/// `Majority` gives `Pos` or `Neg` exactly when that value occurs more often
/// than the opposite one and at least as often as `Zero`, and `Zero` otherwise.
pub proof fn lemma_group_reduction(s: Seq<Ternary>)
    requires
        s.len() > 0,
    ensures
        aggregate_of(SampleMethod::First, s) == s[0],
        aggregate_of(SampleMethod::Last, s) == s[s.len() - 1],
        aggregate_of(SampleMethod::Sum, s) == Ternary::Pos <==> sum_of(s) > 0,
        aggregate_of(SampleMethod::Sum, s) == Ternary::Neg <==> sum_of(s) < 0,
        aggregate_of(SampleMethod::Sum, s) == Ternary::Zero <==> sum_of(s) == 0,
        aggregate_of(SampleMethod::Sum, s) == Ternary::Pos <==> s.filter(
            |x: Ternary| x == Ternary::Pos,
        ).len() > s.filter(|x: Ternary| x == Ternary::Neg).len(),
        aggregate_of(SampleMethod::Sum, s) == Ternary::Neg <==> s.filter(
            |x: Ternary| x == Ternary::Neg,
        ).len() > s.filter(|x: Ternary| x == Ternary::Pos).len(),
        aggregate_of(SampleMethod::Majority, s) == Ternary::Pos <==> s.filter(
            |x: Ternary| x == Ternary::Pos,
        ).len() > s.filter(|x: Ternary| x == Ternary::Neg).len() && s.filter(
            |x: Ternary| x == Ternary::Pos,
        ).len() >= s.filter(|x: Ternary| x == Ternary::Zero).len(),
        aggregate_of(SampleMethod::Majority, s) == Ternary::Neg <==> s.filter(
            |x: Ternary| x == Ternary::Neg,
        ).len() > s.filter(|x: Ternary| x == Ternary::Pos).len() && s.filter(
            |x: Ternary| x == Ternary::Neg,
        ).len() >= s.filter(|x: Ternary| x == Ternary::Zero).len(),
{
    lemma_counts(s);
    lemma_count_is_filter_len(s, Ternary::Neg);
    lemma_count_is_filter_len(s, Ternary::Zero);
    lemma_count_is_filter_len(s, Ternary::Pos);
}

/// What `downsample` gives, in terms of its input: one value per group of
/// `f` consecutive values, the last group being the (possibly partial) rest;
/// as many values as needed to cover the input and no more; and each value is
/// its group reduced by the method.
pub proof fn lemma_downsample_groups(s: Seq<Ternary>, f: nat, m: SampleMethod)
    requires
        f > 0,
    ensures
        ({
            let r = downsampled(s, f, m);
            &&& r.len() == 0 <==> s.len() == 0
            &&& r.len() * f >= s.len()
            &&& s.len() > 0 ==> (r.len() - 1) * f < s.len()
            &&& forall|j: int|
                0 <= j < r.len() ==> j * f < s.len() && #[trigger] r[j] == aggregate_of(
                    m,
                    s.subrange(
                        j * f,
                        if (j + 1) * f <= s.len() {
                            (j + 1) * f
                        } else {
                            s.len() as int
                        },
                    ),
                )
        }),
{
    let n = s.len() as int;
    let fi = f as int;
    let x = n + fi - 1;
    let q = num_groups(s.len(), f) as int;
    vstd::arithmetic::div_mod::lemma_fundamental_div_mod(x, fi);
    vstd::arithmetic::div_mod::lemma_mod_pos_bound(x, fi);
    let rem = x % fi;
    assert(q == x / fi);
    assert(x == fi * q + rem);
    assert(q * fi >= n) by (nonlinear_arith)
        requires
            x == fi * q + rem,
            rem < fi,
            x == n + fi - 1,
    ;
    if n > 0 {
        assert((q - 1) * fi < n) by (nonlinear_arith)
            requires
                x == fi * q + rem,
                rem >= 0,
                x == n + fi - 1,
        ;
    } else {
        assert(q == 0) by (nonlinear_arith)
            requires
                x == fi * q + rem,
                0 <= rem < fi,
                x == fi - 1,
        ;
    }
    if q == 0 {
        assert(n == 0) by (nonlinear_arith)
            requires
                q * fi >= n,
                q == 0,
                n >= 0,
        ;
    }
    let r = downsampled(s, f, m);
    assert forall|j: int| 0 <= j < r.len() implies j * f < s.len() && #[trigger] r[j]
        == aggregate_of(
        m,
        s.subrange(
            j * f,
            if (j + 1) * f <= s.len() {
                (j + 1) * f
            } else {
                s.len() as int
            },
        ),
    ) by {
        assert(j * fi <= (q - 1) * fi) by (nonlinear_arith)
            requires
                0 <= j <= q - 1,
                fi > 0,
        ;
        assert(group(s, f, j) =~= s.subrange(
            j * f,
            if (j + 1) * f <= s.len() {
                (j + 1) * f
            } else {
                s.len() as int
            },
        ));
    }
}

} // verus!
