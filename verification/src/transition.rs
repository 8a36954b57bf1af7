use vstd::prelude::*;

use crate::ternary::Ternary;

verus! {

/// Whether `v` differs from the previous value `last`, if there is one.
pub open spec fn is_transition(last: Option<Ternary>, v: Ternary) -> bool {
    match last {
        Some(l) => l != v,
        None => false,
    }
}

/// The transition from `last` to `v`, if `v` differs from a previous value.
pub open spec fn transition_of(last: Option<Ternary>, v: Ternary) -> Option<(Ternary, Ternary)> {
    match last {
        Some(l) => if l != v {
            Some((l, v))
        } else {
            None
        },
        None => None,
    }
}

/// Detect transitions (neg→pos, pos→neg, zero→non-zero, etc.).
#[derive(Debug)]
pub struct TransitionDetector {
    last: Option<Ternary>,
}

impl Clone for TransitionDetector {
    fn clone(&self) -> (r: Self)
        ensures
            r.last_view() == self.last_view(),
    {
        Self { last: self.last }
    }
}

impl TransitionDetector {
    /// The previous value fed, if any.
    pub closed spec fn last_view(&self) -> Option<Ternary> {
        self.last
    }

    pub fn new() -> (d: Self)
        ensures
            d.last_view() == None::<Ternary>,
    {
        Self { last: None }
    }

    /// Returns `true` if this value differs from the previous.
    pub fn feed(&mut self, val: Ternary) -> (changed: bool)
        ensures
            changed == is_transition(old(self).last_view(), val),
            final(self).last_view() == Some(val),
    {
        let changed = match self.last {
            Some(l) => l != val,
            None => false,
        };
        self.last = Some(val);
        changed
    }

    /// Returns the transition type: (from, to) or None on first value.
    pub fn feed_detailed(&mut self, val: Ternary) -> (r: Option<(Ternary, Ternary)>)
        ensures
            r == transition_of(old(self).last_view(), val),
            final(self).last_view() == Some(val),
    {
        let result = match self.last {
            Some(l) => Some((l, val)),
            None => None,
        };
        self.last = Some(val);
        match result {
            Some((a, b)) => if a != b {
                Some((a, b))
            } else {
                None
            },
            None => None,
        }
    }

    pub fn reset(&mut self)
        ensures
            final(self).last_view() == None::<Ternary>,
    {
        self.last = None;
    }
}

impl Default for TransitionDetector {
    fn default() -> (d: Self)
        ensures
            d.last_view() == None::<Ternary>,
    {
        Self::new()
    }
}

/// `feed` and `feed_detailed` agree: a transition is reported exactly when a
/// previous value exists and differs, and then it goes from that previous
/// value to the new one.
pub proof fn lemma_detailed_agrees(last: Option<Ternary>, v: Ternary)
    ensures
        is_transition(last, v) <==> last is Some && last.unwrap() != v,
        transition_of(last, v) is Some <==> is_transition(last, v),
        transition_of(last, v) matches Some(t) ==> last == Some(t.0) && t.1 == v && t.0 != t.1,
{
}

/// The number of transitions reported while feeding the values of `s` in
/// order, starting from the previous value `last`.
pub open spec fn transitions_in(last: Option<Ternary>, s: Seq<Ternary>) -> nat
    decreases s.len(),
{
    if s.len() == 0 {
        0
    } else {
        transitions_in(last, s.drop_last()) + (if is_transition(
            (if s.len() == 1 {
                last
            } else {
                Some(s[s.len() - 2])
            }),
            s.last(),
        ) {
            1nat
        } else {
            0nat
        })
    }
}

/// Without debouncing, a stream that changes value at every step reports a
/// transition at every element but the first.
pub proof fn lemma_no_debounce(s: Seq<Ternary>)
    requires
        forall|i: int| 0 < i < s.len() ==> #[trigger] s[i] != s[i - 1],
    ensures
        s.len() > 0 ==> transitions_in(None, s) == s.len() - 1,
    decreases s.len(),
{
    if s.len() > 1 {
        let p = s.drop_last();
        assert forall|i: int| 0 < i < p.len() implies #[trigger] p[i] != p[i - 1] by {
            assert(p[i] == s[i] && p[i - 1] == s[i - 1]);
        }
        lemma_no_debounce(p);
        assert(s[s.len() - 1] != s[s.len() - 2]);
        assert(is_transition(Some(s[s.len() - 2]), s.last()));
    } else if s.len() == 1 {
        assert(transitions_in(None, s.drop_last()) == 0);
    }
}

} // verus!
