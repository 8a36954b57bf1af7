use vstd::prelude::*;
use std::collections::VecDeque;

use crate::tally::{last_n, lemma_last_n};
use crate::ternary::Ternary;

verus! {

/// The buffer of a pattern detector after `v` is fed to it: with a non-empty
/// pattern, the latest values, as many as the pattern has. An empty pattern
/// leaves the buffer as it was.
pub open spec fn feed_buffer(p: Seq<Ternary>, b: Seq<Ternary>, v: Ternary) -> Seq<Ternary> {
    if p.len() == 0 {
        b
    } else {
        last_n(b.push(v), p.len())
    }
}

/// What `feed` answers: the pattern is not empty and the latest values,
/// `v` last, are the pattern.
pub open spec fn feed_result(p: Seq<Ternary>, b: Seq<Ternary>, v: Ternary) -> bool {
    p.len() > 0 && feed_buffer(p, b, v) == p
}

/// The buffer of a run detector after `v` is fed with run length `n`: the
/// latest `n` values, `v` last.
pub open spec fn run_buffer(b: Seq<Ternary>, v: Ternary, n: nat) -> Seq<Ternary> {
    last_n(b.push(v), n)
}

/// Every value of `b` equals `v`.
pub open spec fn all_equal(b: Seq<Ternary>, v: Ternary) -> bool {
    forall|i: int| 0 <= i < b.len() ==> b[i] == v
}

/// What `feed_run` answers: at least `n` values are kept and the latest `n`
/// all equal `v`.
pub open spec fn run_result(b: Seq<Ternary>, v: Ternary, n: nat) -> bool {
    let b1 = run_buffer(b, v, n);
    b1.len() == n && all_equal(b1, v)
}

/// Detect patterns in real-time ternary streams.
#[derive(Debug)]
pub struct StreamDetector {
    pattern: Vec<Ternary>,
    buffer: VecDeque<Ternary>,
}

impl Clone for StreamDetector {
    fn clone(&self) -> (r: Self)
        ensures
            r.pattern_view() == self.pattern_view(),
            r.buffer_view() == self.buffer_view(),
    {
        let pattern = self.pattern.clone();
        let buffer = self.buffer.clone();
        proof {
            assert(pattern@ =~= self.pattern@);
            assert(buffer@ =~= self.buffer@);
        }
        Self { pattern, buffer }
    }
}

impl StreamDetector {
    /// The pattern watched for.
    pub closed spec fn pattern_view(&self) -> Seq<Ternary> {
        self.pattern@
    }

    /// The most recent values kept, oldest first.
    pub closed spec fn buffer_view(&self) -> Seq<Ternary> {
        self.buffer@
    }

    pub fn new(pattern: &[Ternary]) -> (d: Self)
        ensures
            d.pattern_view() == pattern@,
            d.buffer_view() == Seq::<Ternary>::empty(),
    {
        Self {
            pattern: vstd::slice::slice_to_vec(pattern),
            buffer: VecDeque::with_capacity(pattern.len()),
        }
    }

    /// Whether the buffer holds exactly the pattern.
    fn buffer_is_pattern(&self) -> (r: bool)
        ensures
            r == (self.buffer_view() == self.pattern_view()),
    {
        let n: usize = self.pattern.len();
        if self.buffer.len() != n {
            return false;
        }
        let mut i: usize = 0;
        while i < n
            invariant
                n == self.pattern@.len(),
                n == self.buffer@.len(),
                i <= n,
                forall|j: int| 0 <= j < i ==> self.buffer@[j] == self.pattern@[j],
            decreases n - i,
        {
            if self.buffer[i] != self.pattern[i] {
                return false;
            }
            i = i + 1;
        }
        proof {
            assert(self.buffer@ =~= self.pattern@);
        }
        true
    }

    /// Drop the oldest values until at most `n` are kept.
    fn keep_latest(&mut self, n: usize)
        ensures
            final(self).pattern_view() == old(self).pattern_view(),
            final(self).buffer_view() == last_n(old(self).buffer_view(), n as nat),
    {
        while self.buffer.len() > n
            invariant
                self.pattern@ == old(self).pattern@,
                last_n(self.buffer@, n as nat) == last_n(old(self).buffer@, n as nat),
            decreases self.buffer@.len(),
        {
            let ghost before = self.buffer@;
            self.buffer.pop_front();
            proof {
                assert(last_n(self.buffer@, n as nat) =~= last_n(before, n as nat));
            }
        }
        proof {
            assert(last_n(self.buffer@, n as nat) =~= self.buffer@);
        }
    }

    /// Feed a new value. Returns `true` if the pattern was just matched.
    pub fn feed(&mut self, val: Ternary) -> (r: bool)
        ensures
            final(self).pattern_view() == old(self).pattern_view(),
            final(self).buffer_view() == feed_buffer(
                old(self).pattern_view(),
                old(self).buffer_view(),
                val,
            ),
            r == feed_result(old(self).pattern_view(), old(self).buffer_view(), val),
    {
        if self.pattern.len() == 0 {
            return false;
        }
        self.buffer.push_back(val);
        let n = self.pattern.len();
        self.keep_latest(n);
        self.buffer_is_pattern()
    }

    /// Detect a run of `run_length` identical values.
    pub fn feed_run(&mut self, val: Ternary, run_length: usize) -> (r: bool)
        ensures
            final(self).pattern_view() == old(self).pattern_view(),
            final(self).buffer_view() == run_buffer(old(self).buffer_view(), val, run_length as nat),
            r == run_result(old(self).buffer_view(), val, run_length as nat),
    {
        self.buffer.push_back(val);
        self.keep_latest(run_length);
        if self.buffer.len() < run_length {
            return false;
        }
        self.buffer_all_equal(val)
    }

    /// Whether every value in the buffer equals `val`.
    fn buffer_all_equal(&self, val: Ternary) -> (r: bool)
        ensures
            r == all_equal(self.buffer_view(), val),
    {
        let n: usize = self.buffer.len();
        let mut i: usize = 0;
        while i < n
            invariant
                n == self.buffer@.len(),
                i <= n,
                forall|j: int| 0 <= j < i ==> self.buffer@[j] == val,
            decreases n - i,
        {
            if self.buffer[i] != val {
                return false;
            }
            i = i + 1;
        }
        true
    }

    pub fn reset(&mut self)
        ensures
            final(self).pattern_view() == old(self).pattern_view(),
            final(self).buffer_view() == Seq::<Ternary>::empty(),
    {
        self.buffer.clear();
    }
}

/// The buffer of a pattern detector, started empty, after the values of `s`
/// have been fed in order.
pub open spec fn pattern_buffer_after(p: Seq<Ternary>, s: Seq<Ternary>) -> Seq<Ternary>
    decreases s.len(),
{
    if s.len() == 0 {
        Seq::empty()
    } else {
        feed_buffer(p, pattern_buffer_after(p, s.drop_last()), s.last())
    }
}

/// Keeping the latest `n` values of what was kept, plus one more, keeps the
/// latest `n` values of everything.
proof fn lemma_last_n_push(s: Seq<Ternary>, v: Ternary, n: nat)
    ensures
        last_n(last_n(s, n).push(v), n) == last_n(s.push(v), n),
{
    assert(last_n(last_n(s, n).push(v), n) =~= last_n(s.push(v), n));
}

/// A pattern detector fed a stream reports a match exactly when the stream's
/// latest values are the pattern: it matches contiguous patterns only, and
/// never matches an empty pattern.
pub proof fn lemma_feed_matches_latest(p: Seq<Ternary>, s: Seq<Ternary>, v: Ternary)
    ensures
        pattern_buffer_after(p, s) == (if p.len() == 0 {
            Seq::<Ternary>::empty()
        } else {
            last_n(s, p.len())
        }),
        feed_result(p, pattern_buffer_after(p, s), v) <==> p.len() > 0 && s.push(v).len()
            >= p.len() && last_n(s.push(v), p.len()) == p,
    decreases s.len(),
{
    if s.len() > 0 {
        lemma_feed_matches_latest(p, s.drop_last(), s.last());
        assert(s.drop_last().push(s.last()) =~= s);
        if p.len() > 0 {
            lemma_last_n_push(s.drop_last(), s.last(), p.len());
        }
    }
    if p.len() > 0 {
        lemma_last_n_push(s, v, p.len());
        if last_n(s.push(v), p.len()) == p {
            assert(s.push(v).len() >= p.len());
        }
    }
}

/// The buffer of a run detector, started empty, after the values of `s` have
/// been fed in order with run length `n`.
pub open spec fn run_buffer_after(n: nat, s: Seq<Ternary>) -> Seq<Ternary>
    decreases s.len(),
{
    if s.len() == 0 {
        Seq::empty()
    } else {
        run_buffer(run_buffer_after(n, s.drop_last()), s.last(), n)
    }
}

/// A run detector reports a run exactly when at least `n` values have been
/// kept and the latest `n` of them, the value just fed last, all equal it,
/// whatever run lengths were used before: only the latest values count.
pub proof fn lemma_run_is_latest_values(b: Seq<Ternary>, v: Ternary, n: nat)
    ensures
        run_result(b, v, n) <==> b.push(v).len() >= n && all_equal(last_n(b.push(v), n), v),
{
}

/// With a fixed run length `n`, a run detector fed a stream keeps its latest
/// `n` values and reports a run exactly when they all equal the value just fed.
pub proof fn lemma_run_matches_latest(n: nat, s: Seq<Ternary>, v: Ternary)
    ensures
        run_buffer_after(n, s) == last_n(s, n),
        run_result(run_buffer_after(n, s), v, n) <==> s.push(v).len() >= n && all_equal(
            last_n(s.push(v), n),
            v,
        ),
    decreases s.len(),
{
    if s.len() > 0 {
        lemma_run_matches_latest(n, s.drop_last(), s.last());
        assert(s.drop_last().push(s.last()) =~= s);
        lemma_last_n_push(s.drop_last(), s.last(), n);
    }
    lemma_last_n_push(s, v, n);
}

/// What `feed_run` answers, spelled out: at least `n` values have been kept
/// with the new one, and every one of the latest `n` of them equals the value
/// just fed. What it keeps is exactly those latest values.
pub proof fn lemma_run_result_spelled_out(b: Seq<Ternary>, v: Ternary, n: nat)
    ensures
        run_result(b, v, n) <==> b.len() + 1 >= n && (forall|i: int|
            b.len() + 1 - n <= i < b.len() + 1 ==> #[trigger] b.push(v)[i] == v),
        b.len() + 1 >= n ==> run_buffer(b, v, n) == b.push(v).subrange(
            b.len() + 1 - n,
            b.len() + 1 as int,
        ),
{
    let s = b.push(v);
    lemma_last_n(s, n);
    let k = run_buffer(b, v, n);
    if b.len() + 1 >= n {
        assert(k =~= s.subrange(b.len() + 1 - n, b.len() + 1 as int));
        if run_result(b, v, n) {
            assert forall|i: int| b.len() + 1 - n <= i < b.len() + 1 implies #[trigger] s[i] == v by {
                assert(k[i - (b.len() + 1 - n)] == s[i]);
            }
        }
        if forall|i: int| b.len() + 1 - n <= i < b.len() + 1 ==> #[trigger] s[i] == v {
            assert forall|j: int| 0 <= j < k.len() implies k[j] == v by {
                assert(s[b.len() + 1 - n + j] == v);
            }
        }
    }
}

/// What `feed` answers, spelled out: the pattern is not empty, at least as
/// many values as it has have been kept with the new one, and the latest of
/// them are the pattern, value by value.
pub proof fn lemma_feed_result_spelled_out(p: Seq<Ternary>, b: Seq<Ternary>, v: Ternary)
    ensures
        feed_result(p, b, v) <==> p.len() > 0 && b.len() + 1 >= p.len() && (forall|i: int|
            0 <= i < p.len() ==> #[trigger] b.push(v)[b.len() + 1 - p.len() + i] == p[i]),
{
    let s = b.push(v);
    lemma_last_n(s, p.len());
    if p.len() > 0 {
        let k = feed_buffer(p, b, v);
        if b.len() + 1 >= p.len() && (forall|i: int|
            0 <= i < p.len() ==> #[trigger] s[b.len() + 1 - p.len() + i] == p[i]) {
            assert(k =~= p);
        }
        if feed_result(p, b, v) {
            assert(k.len() == p.len());
            assert forall|i: int| 0 <= i < p.len() implies #[trigger] s[b.len() + 1 - p.len() + i]
                == p[i] by {
                assert(k[i] == p[i]);
            }
        }
    }
}

} // verus!
