//! One guess at the target: its characters, how well they match, and how it mutates.

use crate::random::{all_alphanumeric, is_alphanumeric, sample_alphanumeric, sample_below};
use rand::rngs::StdRng;
use vstd::prelude::*;

verus! {

/// Mutation rates are given in parts per million: `RATE_SCALE` is certain mutation.
pub const RATE_SCALE: u32 = 1_000_000;

/// Number of positions below `n` at which `v` and `t` hold the same character.
pub open spec fn matches_upto(v: Seq<char>, t: Seq<char>, n: nat) -> nat
    decreases n,
{
    if n == 0 {
        0
    } else {
        let rest = matches_upto(v, t, (n - 1) as nat);
        if v[n - 1] == t[n - 1] {
            rest + 1
        } else {
            rest
        }
    }
}

/// Number of positions of the target that the value matches.
pub open spec fn count_matches(v: Seq<char>, t: Seq<char>) -> nat {
    matches_upto(v, t, t.len())
}

/// The value after mutation: position `i` takes `fresh[i]` when its draw falls below
/// `rate`, and keeps its character otherwise.
pub open spec fn mutated(v: Seq<char>, draws: Seq<u32>, fresh: Seq<char>, rate: u32) -> Seq<char> {
    Seq::new(v.len(), |i: int| if draws[i] < rate { fresh[i] } else { v[i] })
}

/// Fitness of a candidate: `matched` positions out of `total`, the target's length.
#[derive(Clone, Copy, Debug, PartialEq, Eq, Structural)]
pub struct Score {
    pub matched: usize,
    pub total: usize,
}

impl Score {
    /// The candidate matches the target at every position.
    pub fn is_perfect(&self) -> (r: bool)
        ensures
            r == (self.matched == self.total),
    {
        self.matched == self.total
    }
}

/// A candidate string together with the target it is scored against.
pub struct TextElement {
    target: Vec<char>,
    value: Vec<char>,
}

impl TextElement {
    pub closed spec fn target_view(&self) -> Seq<char> {
        self.target@
    }

    pub closed spec fn value_view(&self) -> Seq<char> {
        self.value@
    }

    /// The value has the target's length, so that the two can be compared position by position.
    pub open spec fn wf(&self) -> bool {
        self.value_view().len() == self.target_view().len()
    }

    pub open spec fn score_view(&self) -> Score {
        Score {
            matched: count_matches(self.value_view(), self.target_view()) as usize,
            total: self.target_view().len() as usize,
        }
    }

    /// A candidate for `target`: `defined_value` as given when it is non-empty, otherwise a
    /// fresh random alphanumeric value of the target's length.
    pub fn new(target: Vec<char>, defined_value: Vec<char>, rng: &mut StdRng) -> (r: Self)
        ensures
            r.target_view() == target@,
            defined_value@.len() > 0 ==> r.value_view() == defined_value@,
            defined_value@.len() == 0 ==> r.value_view().len() == target@.len() && all_alphanumeric(
                r.value_view(),
            ),
    {
        if defined_value.len() == 0 {
            let value = TextElement::generate_random_value(&target, rng);
            TextElement::from_value(target, value)
        } else {
            TextElement::from_value(target, defined_value)
        }
    }

    /// A candidate for `target` whose value is `value` as given.
    pub fn from_value(target: Vec<char>, value: Vec<char>) -> (r: Self)
        ensures
            r.target_view() == target@,
            r.value_view() == value@,
    {
        TextElement { target, value }
    }

    /// The candidate's characters.
    pub fn value(&self) -> (r: &Vec<char>)
        ensures
            r@ == self.value_view(),
    {
        &self.value
    }

    /// The target the candidate is scored against.
    pub fn target(&self) -> (r: &Vec<char>)
        ensures
            r@ == self.target_view(),
    {
        &self.target
    }

    /// A random alphanumeric string as long as `target`.
    pub fn generate_random_value(target: &Vec<char>, rng: &mut StdRng) -> (r: Vec<char>)
        ensures
            r@.len() == target@.len(),
            all_alphanumeric(r@),
    {
        sample_alphanumeric(rng, target.len())
    }

    /// The number of positions at which the value matches the target, out of the target's length.
    pub fn get_score(&self) -> (s: Score)
        requires
            self.wf(),
        ensures
            s == self.score_view(),
            s.matched as nat == count_matches(self.value_view(), self.target_view()),
            s.total as nat == self.target_view().len(),
            s.matched <= s.total,
    {
        let n = self.target.len();
        let mut total: usize = 0;
        let mut i: usize = 0;
        while i < n
            invariant
                n == self.target@.len(),
                self.wf(),
                i <= n,
                total == matches_upto(self.value@, self.target@, i as nat),
                total <= i,
            decreases n - i,
        {
            if self.value[i] == self.target[i] {
                total = total + 1;
            }
            i = i + 1;
        }
        proof {
            lemma_score_bounds(self.value@, self.target@);
        }
        Score { matched: total, total: n }
    }

    /// Replaces the characters whose draw falls below `mutation_rate` with the matching
    /// characters of `fresh`; every position is judged against the value before the call.
    pub fn mutate_with(&mut self, mutation_rate: u32, draws: &Vec<u32>, fresh: &Vec<char>)
        requires
            draws@.len() == old(self).value_view().len(),
            fresh@.len() == old(self).value_view().len(),
        ensures
            final(self).target_view() == old(self).target_view(),
            final(self).value_view() == mutated(old(self).value_view(), draws@, fresh@, mutation_rate),
    {
        let n = self.value.len();
        let mut mutated_value: Vec<char> = Vec::with_capacity(n);
        let mut i: usize = 0;
        while i < n
            invariant
                n == self.value@.len(),
                draws@.len() == n,
                fresh@.len() == n,
                i <= n,
                mutated_value@ == mutated(self.value@, draws@, fresh@, mutation_rate).take(i as int),
            decreases n - i,
        {
            if draws[i] < mutation_rate {
                mutated_value.push(fresh[i]);
            } else {
                mutated_value.push(self.value[i]);
            }
            i = i + 1;
        }
        assert(mutated_value@ =~= mutated(self.value@, draws@, fresh@, mutation_rate));
        self.value = mutated_value;
    }

    /// Each position independently takes a fresh random alphanumeric character with
    /// probability `mutation_rate / RATE_SCALE`, and keeps its character otherwise.
    pub fn mutate(&mut self, mutation_rate: u32, rng: &mut StdRng)
        requires
            mutation_rate <= RATE_SCALE,
        ensures
            final(self).target_view() == old(self).target_view(),
            final(self).value_view().len() == old(self).value_view().len(),
            forall|i: int|
                0 <= i < old(self).value_view().len() ==> {
                    ||| #[trigger] final(self).value_view()[i] == old(self).value_view()[i]
                    ||| is_alphanumeric(final(self).value_view()[i])
                },
            mutation_rate == 0 ==> final(self).value_view() == old(self).value_view(),
            mutation_rate == RATE_SCALE ==> all_alphanumeric(final(self).value_view()),
    {
        let n = self.value.len();
        let fresh = sample_alphanumeric(rng, n);
        let draws = draw_mutation_draws(rng, n);
        self.mutate_with(mutation_rate, &draws, &fresh);
        assert(mutation_rate == 0 ==> final(self).value_view() =~= old(self).value_view());
    }
}

/// `n` independent draws below `RATE_SCALE`, one per position of a value to mutate.
pub(crate) fn draw_mutation_draws(rng: &mut StdRng, n: usize) -> (r: Vec<u32>)
    ensures
        r@.len() == n,
        forall|j: int| 0 <= j < n ==> #[trigger] r@[j] < RATE_SCALE,
{
    let mut draws: Vec<u32> = Vec::with_capacity(n);
    let mut i: usize = 0;
    while i < n
        invariant
            i <= n,
            draws@.len() == i,
            forall|j: int| 0 <= j < i ==> #[trigger] draws@[j] < RATE_SCALE,
        decreases n - i,
    {
        let d = sample_below(rng, RATE_SCALE);
        draws.push(d);
        i = i + 1;
    }
    draws
}

/// A score never exceeds the target's length, and it reaches it exactly when the value
/// equals the target character for character.
pub proof fn lemma_score_bounds(v: Seq<char>, t: Seq<char>)
    requires
        v.len() == t.len(),
    ensures
        count_matches(v, t) <= t.len(),
        count_matches(v, t) == t.len() <==> v == t,
{
    lemma_matches_upto(v, t, t.len());
    if count_matches(v, t) == t.len() {
        assert(v =~= t);
    }
}

proof fn lemma_matches_upto(v: Seq<char>, t: Seq<char>, n: nat)
    requires
        n <= v.len(),
        n <= t.len(),
    ensures
        matches_upto(v, t, n) <= n,
        matches_upto(v, t, n) == n <==> forall|i: int| 0 <= i < n ==> v[i] == t[i],
    decreases n,
{
    if n > 0 {
        lemma_matches_upto(v, t, (n - 1) as nat);
    }
}

/// The score depends on the value and the target alone: two candidates that agree on both
/// score the same, so scoring one candidate again gives the same result.
pub proof fn lemma_score_determined(a: TextElement, b: TextElement)
    requires
        a.value_view() == b.value_view(),
        a.target_view() == b.target_view(),
    ensures
        a.score_view() == b.score_view(),
{
}

/// Mutation keeps the length of the value, and at rate zero it changes nothing.
pub proof fn lemma_mutation_rate_zero(v: Seq<char>, draws: Seq<u32>, fresh: Seq<char>)
    ensures
        mutated(v, draws, fresh, 0).len() == v.len(),
        mutated(v, draws, fresh, 0) == v,
{
    assert(mutated(v, draws, fresh, 0) =~= v);
}

/// At the full rate every position takes its freshly drawn character, since every draw
/// lies below `RATE_SCALE`.
pub proof fn lemma_mutation_full_rate(v: Seq<char>, draws: Seq<u32>, fresh: Seq<char>)
    requires
        draws.len() == v.len(),
        fresh.len() == v.len(),
        forall|i: int| 0 <= i < draws.len() ==> #[trigger] draws[i] < RATE_SCALE,
    ensures
        mutated(v, draws, fresh, RATE_SCALE) == fresh,
{
    assert(mutated(v, draws, fresh, RATE_SCALE) =~= fresh);
}

} // verus!
