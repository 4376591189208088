//! The population and the generational loop that drives it towards the target.

use crate::candidate::{
    count_matches, draw_mutation_draws, lemma_score_bounds, mutated, Score, TextElement, RATE_SCALE,
};
use crate::random::{all_alphanumeric, is_alphanumeric, sample_alphanumeric, sample_bool};
use rand::rngs::StdRng;
use vstd::prelude::*;

verus! {

/// The scores of a population, position by position.
pub open spec fn scores(pop: Seq<TextElement>) -> Seq<nat> {
    pop.map_values(|e: TextElement| count_matches(e.value_view(), e.target_view()))
}

/// `r` indexes the elite of `s`: a maximal score, and the first position that reaches it.
pub open spec fn is_elite(s: Seq<nat>, r: int) -> bool {
    &&& 0 <= r < s.len()
    &&& forall|j: int| 0 <= j < s.len() ==> #[trigger] s[j] <= s[r]
    &&& forall|j: int| 0 <= j < r ==> #[trigger] s[j] < s[r]
}

/// The index of the elite of `s`.
pub open spec fn elite_index(s: Seq<nat>) -> int {
    choose|r: int| is_elite(s, r)
}

/// `child` is as long as `elite`, and each of its characters comes from `elite` or
/// `partner` at that position, or, where mutation may happen, is any alphanumeric character.
pub open spec fn offspring_of(child: Seq<char>, elite: Seq<char>, partner: Seq<char>, may_mutate: bool) -> bool {
    &&& child.len() == elite.len()
    &&& forall|k: int|
        0 <= k < child.len() ==> {
            ||| #[trigger] child[k] == elite[k]
            ||| child[k] == partner[k]
            ||| may_mutate && is_alphanumeric(child[k])
        }
}

/// The uniform crossover of `a` and `b`: position `i` comes from `a` where `coins[i]`
/// holds, and from `b` otherwise.
pub open spec fn crossed(a: Seq<char>, b: Seq<char>, coins: Seq<bool>) -> Seq<char> {
    Seq::new(a.len(), |i: int| if coins[i] { a[i] } else { b[i] })
}

/// What the search reports after selecting a generation's elite.
pub struct Progress {
    /// The generation in which the elite was selected.
    pub generation: u64,
    /// The elite's characters.
    pub value: Vec<char>,
    /// The elite's score.
    pub score: Score,
}

/// The population controller: a fixed-size population bred towards `target`.
pub struct Guesser {
    target: Vec<char>,
    population_size: usize,
    mutation_rate: u32,
    population: Vec<TextElement>,
    generation: u64,
    best_score: Score,
}

impl Guesser {
    pub closed spec fn target_view(&self) -> Seq<char> {
        self.target@
    }

    pub closed spec fn population_size_view(&self) -> usize {
        self.population_size
    }

    pub closed spec fn mutation_rate_view(&self) -> u32 {
        self.mutation_rate
    }

    pub closed spec fn population_view(&self) -> Seq<TextElement> {
        self.population@
    }

    pub closed spec fn generation_view(&self) -> u64 {
        self.generation
    }

    pub closed spec fn best_score_view(&self) -> Score {
        self.best_score
    }

    /// Every member is scored against this target and has its length.
    pub open spec fn members_wf(&self) -> bool {
        forall|i: int|
            0 <= i < self.population_view().len() ==> {
                &&& (#[trigger] self.population_view()[i]).wf()
                &&& self.population_view()[i].target_view() == self.target_view()
            }
    }

    pub open spec fn wf(&self) -> bool {
        &&& self.target_view().len() > 0
        &&& self.population_size_view() > 0
        &&& self.mutation_rate_view() <= RATE_SCALE
        &&& self.members_wf()
        &&& self.best_score_view().total == self.target_view().len()
        &&& self.best_score_view().matched <= self.best_score_view().total
    }

    /// Every member is written in the alphanumeric alphabet.
    pub open spec fn members_alphanumeric(&self) -> bool {
        forall|i: int|
            0 <= i < self.population_view().len() ==> all_alphanumeric(
                (#[trigger] self.population_view()[i]).value_view(),
            )
    }

    /// The population has been created and holds `population_size` candidates.
    pub open spec fn initialized(&self) -> bool {
        self.population_view().len() == self.population_size_view()
    }

    /// A controller with no population yet, at generation 0 and best score 0.
    pub fn new(target: Vec<char>, population_size: usize, mutation_rate: u32) -> (r: Self)
        requires
            target@.len() > 0,
            population_size > 0,
            mutation_rate <= RATE_SCALE,
        ensures
            r.wf(),
            r.target_view() == target@,
            r.population_size_view() == population_size,
            r.mutation_rate_view() == mutation_rate,
            r.population_view().len() == 0,
            r.generation_view() == 0,
            r.best_score_view() == (Score { matched: 0, total: target@.len() as usize }),
    {
        let total = target.len();
        Guesser {
            target,
            population_size,
            mutation_rate,
            population: Vec::new(),
            generation: 0,
            best_score: Score { matched: 0, total },
        }
    }

    /// A controller that starts from the given population, whose size it keeps, at
    /// generation 0 and best score 0.
    pub fn from_population(target: Vec<char>, mutation_rate: u32, population: Vec<TextElement>) -> (r:
        Self)
        requires
            target@.len() > 0,
            population@.len() > 0,
            mutation_rate <= RATE_SCALE,
            forall|i: int|
                0 <= i < population@.len() ==> (#[trigger] population@[i]).wf()
                    && population@[i].target_view() == target@,
        ensures
            r.wf(),
            r.initialized(),
            r.target_view() == target@,
            r.population_size_view() == population@.len(),
            r.mutation_rate_view() == mutation_rate,
            r.population_view() == population@,
            r.generation_view() == 0,
            r.best_score_view() == (Score { matched: 0, total: target@.len() as usize }),
    {
        let total = target.len();
        let population_size = population.len();
        Guesser {
            target,
            population_size,
            mutation_rate,
            population,
            generation: 0,
            best_score: Score { matched: 0, total },
        }
    }

    /// Replaces the population with `population_size` fresh random candidates.
    pub fn initialize_population(&mut self, rng: &mut StdRng)
        requires
            old(self).wf(),
        ensures
            final(self).wf(),
            final(self).initialized(),
            final(self).target_view() == old(self).target_view(),
            final(self).population_size_view() == old(self).population_size_view(),
            final(self).mutation_rate_view() == old(self).mutation_rate_view(),
            final(self).generation_view() == old(self).generation_view(),
            final(self).best_score_view() == old(self).best_score_view(),
            forall|i: int|
                0 <= i < final(self).population_view().len() ==> all_alphanumeric(
                    (#[trigger] final(self).population_view()[i]).value_view(),
                ),
    {
        let n = self.population_size;
        let mut population: Vec<TextElement> = Vec::with_capacity(n);
        let mut i: usize = 0;
        while i < n
            invariant
                i <= n,
                population@.len() == i,
                forall|k: int|
                    0 <= k < i ==> {
                        &&& (#[trigger] population@[k]).wf()
                        &&& population@[k].target_view() == self.target@
                        &&& all_alphanumeric(population@[k].value_view())
                    },
            decreases n - i,
        {
            let target = self.target.clone();
            assert(target@ =~= self.target@);
            let element = TextElement::new(target, Vec::new(), rng);
            population.push(element);
            i = i + 1;
        }
        self.population = population;
    }

    /// The index of the first candidate with the greatest score.
    fn best_index(&self) -> (r: usize)
        requires
            self.members_wf(),
            self.population_view().len() > 0,
        ensures
            is_elite(scores(self.population_view()), r as int),
    {
        let ghost s = scores(self.population@);
        let n = self.population.len();
        let mut best: usize = 0;
        let mut best_score = self.population[0].get_score();
        let mut index: usize = 1;
        while index < n
            invariant
                n == self.population@.len(),
                s == scores(self.population@),
                self.members_wf(),
                1 <= index <= n,
                best < index,
                best_score.matched as nat == s[best as int],
                forall|j: int| 0 <= j < index ==> #[trigger] s[j] <= s[best as int],
                forall|j: int| 0 <= j < best ==> #[trigger] s[j] < s[best as int],
            decreases n - index,
        {
            assert(self.population_view()[index as int].wf());
            let current = self.population[index].get_score();
            if current.matched > best_score.matched {
                best = index;
                best_score = current;
            }
            index = index + 1;
        }
        best
    }

    /// The first candidate with the greatest score.
    pub fn get_best_from_population(&self) -> (r: &TextElement)
        requires
            self.wf(),
            self.initialized(),
            self.population_view().len() > 0,
        ensures
            exists|k: int|
                is_elite(scores(self.population_view()), k) && *r == self.population_view()[k],
    {
        let k = self.best_index();
        &self.population[k]
    }

    /// Picks the elite (the first candidate with the greatest score) and records its score
    /// as the best so far; the population is left as it is.
    pub fn select(&mut self) -> (r: usize)
        requires
            old(self).wf(),
            old(self).population_view().len() > 0,
        ensures
            final(self).wf(),
            is_elite(scores(old(self).population_view()), r as int),
            r as int == elite_index(scores(old(self).population_view())),
            final(self).best_score_view() == old(self).population_view()[r as int].score_view(),
            final(self).target_view() == old(self).target_view(),
            final(self).population_size_view() == old(self).population_size_view(),
            final(self).mutation_rate_view() == old(self).mutation_rate_view(),
            final(self).population_view() == old(self).population_view(),
            final(self).generation_view() == old(self).generation_view(),
    {
        let k = self.best_index();
        proof {
            lemma_elite_unique(scores(self.population@), k as int, elite_index(scores(self.population@)));
        }
        assert(self.population_view()[k as int].wf());
        self.best_score = self.population[k].get_score();
        k
    }

    /// A child of `pivot` and `partner` for this target: each position takes the character
    /// of one parent or the other, chosen by a fair coin. Parents with no characters give a
    /// child with a fresh random value, as a candidate built from an empty value has.
    pub fn crossover(&self, pivot: &TextElement, partner: &TextElement, rng: &mut StdRng) -> (r:
        TextElement)
        requires
            partner.value_view().len() == pivot.value_view().len(),
        ensures
            r.target_view() == self.target_view(),
            pivot.value_view().len() > 0 ==> r.value_view().len() == pivot.value_view().len(),
            forall|i: int|
                0 <= i < r.value_view().len() && pivot.value_view().len() > 0 ==> {
                    ||| #[trigger] r.value_view()[i] == pivot.value_view()[i]
                    ||| r.value_view()[i] == partner.value_view()[i]
                },
            pivot.value_view().len() == 0 ==> r.value_view().len() == self.target_view().len()
                && all_alphanumeric(r.value_view()),
    {
        let coins = draw_coins(rng, pivot.value().len());
        let child_value = crossover_with(pivot.value(), partner.value(), &coins);
        let target = self.target.clone();
        assert(target@ =~= self.target@);
        TextElement::new(target, child_value, rng)
    }

    /// One breeding cycle on given random outcomes: selects the elite, then replaces each
    /// member `i` with the crossover of the elite with it under `coins[i]`, mutated at the
    /// controller's rate under `draws[i]` and `fresh[i]`. Returns the elite as it stood
    /// before the population was replaced.
    pub fn breed_with(
        &mut self,
        coins: &Vec<Vec<bool>>,
        draws: &Vec<Vec<u32>>,
        fresh: &Vec<Vec<char>>,
    ) -> (p: Progress)
        requires
            old(self).wf(),
            old(self).initialized(),
            coins@.len() == old(self).population_view().len(),
            draws@.len() == old(self).population_view().len(),
            fresh@.len() == old(self).population_view().len(),
            forall|i: int|
                0 <= i < coins@.len() ==> (#[trigger] coins@[i])@.len()
                    == old(self).target_view().len(),
            forall|i: int|
                0 <= i < draws@.len() ==> (#[trigger] draws@[i])@.len()
                    == old(self).target_view().len(),
            forall|i: int|
                0 <= i < fresh@.len() ==> (#[trigger] fresh@[i])@.len()
                    == old(self).target_view().len(),
        ensures
            final(self).wf(),
            final(self).initialized(),
            final(self).target_view() == old(self).target_view(),
            final(self).population_size_view() == old(self).population_size_view(),
            final(self).mutation_rate_view() == old(self).mutation_rate_view(),
            final(self).generation_view() == old(self).generation_view(),
            ({
                let e = elite_index(scores(old(self).population_view()));
                let elite = old(self).population_view()[e];
                &&& is_elite(scores(old(self).population_view()), e)
                &&& p.generation == old(self).generation_view()
                &&& p.value@ == elite.value_view()
                &&& p.score == elite.score_view()
                &&& final(self).best_score_view() == p.score
                &&& forall|i: int|
                    0 <= i < final(self).population_view().len() ==> (
                    #[trigger] final(self).population_view()[i]).value_view() == mutated(
                        crossed(elite.value_view(), old(self).population_view()[i].value_view(), coins@[i]@),
                        draws@[i]@,
                        fresh@[i]@,
                        old(self).mutation_rate_view(),
                    )
            }),
            p.score.matched == p.score.total ==> p.value@ == old(self).target_view(),
    {
        let mutation_rate = self.mutation_rate;
        let pivot_index = self.select();
        let ghost pop = self.population@;
        let ghost elite = pop[pivot_index as int].value_view();
        let n = self.population.len();
        assert(self.population_view()[pivot_index as int].wf());
        let mut new_population: Vec<TextElement> = Vec::with_capacity(n);
        let mut i: usize = 0;
        while i < n
            invariant
                self.wf(),
                self.initialized(),
                n == self.population@.len(),
                pop == self.population@,
                pivot_index < n,
                mutation_rate == self.mutation_rate,
                elite == pop[pivot_index as int].value_view(),
                coins@.len() == n,
                draws@.len() == n,
                fresh@.len() == n,
                forall|j: int| 0 <= j < n ==> (#[trigger] coins@[j])@.len() == self.target@.len(),
                forall|j: int| 0 <= j < n ==> (#[trigger] draws@[j])@.len() == self.target@.len(),
                forall|j: int| 0 <= j < n ==> (#[trigger] fresh@[j])@.len() == self.target@.len(),
                i <= n,
                new_population@.len() == i,
                forall|k: int|
                    0 <= k < i ==> {
                        &&& (#[trigger] new_population@[k]).wf()
                        &&& new_population@[k].target_view() == self.target@
                        &&& new_population@[k].value_view() == mutated(
                            crossed(elite, pop[k].value_view(), coins@[k]@),
                            draws@[k]@,
                            fresh@[k]@,
                            mutation_rate,
                        )
                    },
            decreases n - i,
        {
            assert(self.population_view()[i as int].wf());
            let child_value = crossover_with(self.population[pivot_index].value(), self.population[i].value(), &coins[i]);
            let target = self.target.clone();
            assert(target@ =~= self.target@);
            let mut child = TextElement::from_value(target, child_value);
            child.mutate_with(mutation_rate, &draws[i], &fresh[i]);
            new_population.push(child);
            i = i + 1;
        }
        let value = self.population[pivot_index].value().clone();
        assert(value@ =~= elite);
        let score = self.best_score;
        proof {
            lemma_score_bounds(elite, self.target@);
        }
        self.population = new_population;
        Progress { generation: self.generation, value, score }
    }

    /// One breeding cycle: draws for every member a fair coin per position, a mutation draw
    /// per position and a fresh alphanumeric character per position, then breeds with them.
    pub fn breed(&mut self, rng: &mut StdRng) -> (p: Progress)
        requires
            old(self).wf(),
            old(self).initialized(),
        ensures
            final(self).wf(),
            final(self).initialized(),
            final(self).target_view() == old(self).target_view(),
            final(self).population_size_view() == old(self).population_size_view(),
            final(self).mutation_rate_view() == old(self).mutation_rate_view(),
            final(self).generation_view() == old(self).generation_view(),
            ({
                let e = elite_index(scores(old(self).population_view()));
                let elite = old(self).population_view()[e];
                &&& is_elite(scores(old(self).population_view()), e)
                &&& p.generation == old(self).generation_view()
                &&& p.value@ == elite.value_view()
                &&& p.score == elite.score_view()
                &&& final(self).best_score_view() == p.score
                &&& forall|i: int|
                    0 <= i < final(self).population_view().len() ==> offspring_of(
                        (#[trigger] final(self).population_view()[i]).value_view(),
                        elite.value_view(),
                        old(self).population_view()[i].value_view(),
                        old(self).mutation_rate_view() > 0,
                    )
            }),
            p.score.matched == p.score.total ==> p.value@ == old(self).target_view(),
            old(self).mutation_rate_view() == RATE_SCALE ==> final(self).members_alphanumeric(),
            old(self).members_alphanumeric() ==> final(self).members_alphanumeric(),
    {
        let n = self.population.len();
        let len = self.target.len();
        let mut coins: Vec<Vec<bool>> = Vec::with_capacity(n);
        let mut draws: Vec<Vec<u32>> = Vec::with_capacity(n);
        let mut fresh: Vec<Vec<char>> = Vec::with_capacity(n);
        let mut i: usize = 0;
        while i < n
            invariant
                i <= n,
                len == self.target@.len(),
                coins@.len() == i,
                draws@.len() == i,
                fresh@.len() == i,
                forall|j: int| 0 <= j < i ==> (#[trigger] coins@[j])@.len() == len,
                forall|j: int|
                    0 <= j < i ==> (#[trigger] draws@[j])@.len() == len && forall|k: int|
                        0 <= k < len ==> #[trigger] draws@[j]@[k] < RATE_SCALE,
                forall|j: int|
                    0 <= j < i ==> (#[trigger] fresh@[j])@.len() == len && all_alphanumeric(
                        fresh@[j]@,
                    ),
            decreases n - i,
        {
            coins.push(draw_coins(rng, len));
            draws.push(draw_mutation_draws(rng, len));
            fresh.push(sample_alphanumeric(rng, len));
            i = i + 1;
        }
        let ghost old_pop = self.population@;
        let ghost rate = self.mutation_rate;
        let p = self.breed_with(&coins, &draws, &fresh);
        let ghost elite = old_pop[elite_index(scores(old_pop))].value_view();
        assert(old_pop[elite_index(scores(old_pop))].wf());
        assert forall|i: int| 0 <= i < self.population@.len() implies {
            &&& offspring_of(
                (#[trigger] self.population@[i]).value_view(),
                elite,
                old_pop[i].value_view(),
                rate > 0,
            )
            &&& rate == RATE_SCALE ==> all_alphanumeric(self.population@[i].value_view())
            &&& (all_alphanumeric(elite) && all_alphanumeric(old_pop[i].value_view()))
                ==> all_alphanumeric(self.population@[i].value_view())
        } by {
            assert(old_pop[i].wf());
            lemma_child(elite, old_pop[i].value_view(), coins@[i]@, draws@[i]@, fresh@[i]@, rate);
        }
        p
    }

    /// One generation: breeds, then advances the generation counter.
    pub fn step(&mut self, rng: &mut StdRng) -> (p: Progress)
        requires
            old(self).wf(),
            old(self).initialized(),
            old(self).generation_view() < u64::MAX,
        ensures
            final(self).wf(),
            final(self).initialized(),
            final(self).target_view() == old(self).target_view(),
            final(self).population_size_view() == old(self).population_size_view(),
            final(self).mutation_rate_view() == old(self).mutation_rate_view(),
            final(self).generation_view() == old(self).generation_view() + 1,
            ({
                let e = elite_index(scores(old(self).population_view()));
                let elite = old(self).population_view()[e];
                &&& is_elite(scores(old(self).population_view()), e)
                &&& p.generation == old(self).generation_view()
                &&& p.value@ == elite.value_view()
                &&& p.score == elite.score_view()
                &&& final(self).best_score_view() == p.score
                &&& forall|i: int|
                    0 <= i < final(self).population_view().len() ==> offspring_of(
                        (#[trigger] final(self).population_view()[i]).value_view(),
                        elite.value_view(),
                        old(self).population_view()[i].value_view(),
                        old(self).mutation_rate_view() > 0,
                    )
            }),
            p.score.matched == p.score.total ==> p.value@ == old(self).target_view(),
            old(self).mutation_rate_view() == RATE_SCALE ==> final(self).members_alphanumeric(),
            old(self).members_alphanumeric() ==> final(self).members_alphanumeric(),
    {
        let p = self.breed(rng);
        self.generation = self.generation + 1;
        p
    }

    /// Creates the population, then runs generations until the best score is perfect or
    /// `max_generations` generations have run. Returns whether the best score is perfect.
    pub fn start(&mut self, max_generations: u64, rng: &mut StdRng) -> (r: bool)
        requires
            old(self).wf(),
            old(self).generation_view() as int + max_generations as int <= u64::MAX as int,
        ensures
            final(self).wf(),
            final(self).initialized(),
            final(self).target_view() == old(self).target_view(),
            final(self).population_size_view() == old(self).population_size_view(),
            final(self).mutation_rate_view() == old(self).mutation_rate_view(),
            r == (final(self).best_score_view().matched == final(self).best_score_view().total),
            final(self).generation_view() <= old(self).generation_view() + max_generations,
            !r ==> final(self).generation_view() == old(self).generation_view() + max_generations,
            r && old(self).best_score_view().matched < old(self).best_score_view().total
                ==> final(self).generation_view() >= old(self).generation_view() + 1,
            final(self).members_alphanumeric(),
    {
        self.initialize_population(rng);
        let ghost start = self.generation;
        let mut ran: u64 = 0;
        while !self.best_score.is_perfect() && ran < max_generations
            invariant
                self.wf(),
                self.initialized(),
                self.target@ == old(self).target_view(),
                self.population_size == old(self).population_size_view(),
                self.mutation_rate == old(self).mutation_rate_view(),
                start == old(self).generation_view(),
                ran <= max_generations,
                self.generation == start + ran,
                start + max_generations <= u64::MAX,
                ran == 0 ==> self.best_score == old(self).best_score_view(),
                self.members_alphanumeric(),
            decreases max_generations - ran,
        {
            self.step(rng);
            ran = ran + 1;
        }
        self.best_score.is_perfect()
    }

    /// The target string.
    pub fn target(&self) -> (r: &Vec<char>)
        ensures
            r@ == self.target_view(),
    {
        &self.target
    }

    /// The number of candidates in each generation.
    pub fn population_size(&self) -> (r: usize)
        ensures
            r == self.population_size_view(),
    {
        self.population_size
    }

    /// The mutation rate, in parts per `RATE_SCALE`.
    pub fn mutation_rate(&self) -> (r: u32)
        ensures
            r == self.mutation_rate_view(),
    {
        self.mutation_rate
    }

    /// The current population.
    pub fn population(&self) -> (r: &Vec<TextElement>)
        ensures
            r@ == self.population_view(),
    {
        &self.population
    }

    /// The number of completed breeding cycles.
    pub fn generation(&self) -> (r: u64)
        ensures
            r == self.generation_view(),
    {
        self.generation
    }

    /// The elite's score at the last selection.
    pub fn best_score(&self) -> (r: Score)
        ensures
            r == self.best_score_view(),
    {
        self.best_score
    }
}

/// The uniform crossover of `a` and `b` under the given coin flips.
pub fn crossover_with(a: &Vec<char>, b: &Vec<char>, coins: &Vec<bool>) -> (r: Vec<char>)
    requires
        b@.len() == a@.len(),
        coins@.len() == a@.len(),
    ensures
        r@ == crossed(a@, b@, coins@),
{
    let n = a.len();
    let mut child: Vec<char> = Vec::with_capacity(n);
    let mut i: usize = 0;
    while i < n
        invariant
            n == a@.len(),
            b@.len() == n,
            coins@.len() == n,
            i <= n,
            child@ == crossed(a@, b@, coins@).take(i as int),
        decreases n - i,
    {
        if coins[i] {
            child.push(a[i]);
        } else {
            child.push(b[i]);
        }
        i = i + 1;
    }
    assert(child@ =~= crossed(a@, b@, coins@));
    child
}

/// `n` fair coin flips, one per position of a child.
fn draw_coins(rng: &mut StdRng, n: usize) -> (r: Vec<bool>)
    ensures
        r@.len() == n,
{
    let mut coins: Vec<bool> = Vec::with_capacity(n);
    let mut i: usize = 0;
    while i < n
        invariant
            i <= n,
            coins@.len() == i,
        decreases n - i,
    {
        coins.push(sample_bool(rng));
        i = i + 1;
    }
    coins
}

/// A child bred from `elite` and `partner` with draws below `RATE_SCALE` and alphanumeric
/// fresh characters comes from its parents or from the alphabet, is wholly fresh at the
/// full rate, and stays in the alphabet when its parents are.
proof fn lemma_child(
    elite: Seq<char>,
    partner: Seq<char>,
    coins: Seq<bool>,
    draws: Seq<u32>,
    fresh: Seq<char>,
    rate: u32,
)
    requires
        partner.len() == elite.len(),
        coins.len() == elite.len(),
        draws.len() == elite.len(),
        fresh.len() == elite.len(),
        forall|k: int| 0 <= k < draws.len() ==> #[trigger] draws[k] < RATE_SCALE,
        all_alphanumeric(fresh),
    ensures
        offspring_of(mutated(crossed(elite, partner, coins), draws, fresh, rate), elite, partner, rate > 0),
        rate == RATE_SCALE ==> all_alphanumeric(mutated(crossed(elite, partner, coins), draws, fresh, rate)),
        all_alphanumeric(elite) && all_alphanumeric(partner) ==> all_alphanumeric(
            mutated(crossed(elite, partner, coins), draws, fresh, rate),
        ),
{
    let child = mutated(crossed(elite, partner, coins), draws, fresh, rate);
    assert forall|k: int| 0 <= k < child.len() implies {
        ||| #[trigger] child[k] == elite[k]
        ||| child[k] == partner[k]
        ||| rate > 0 && is_alphanumeric(child[k])
    } by {
        assert(fresh[k] == fresh[k]);
    }
    if rate == RATE_SCALE {
        assert forall|k: int| 0 <= k < child.len() implies is_alphanumeric(#[trigger] child[k]) by {
            assert(draws[k] < RATE_SCALE);
            assert(is_alphanumeric(fresh[k]));
        }
    }
    if all_alphanumeric(elite) && all_alphanumeric(partner) {
        assert forall|k: int| 0 <= k < child.len() implies is_alphanumeric(#[trigger] child[k]) by {
            assert(is_alphanumeric(fresh[k]));
            assert(is_alphanumeric(elite[k]));
            assert(is_alphanumeric(partner[k]));
        }
    }
}

/// The elite of a sequence of scores is unique.
pub proof fn lemma_elite_unique(s: Seq<nat>, r1: int, r2: int)
    requires
        is_elite(s, r1),
        is_elite(s, r2),
    ensures
        r1 == r2,
{
    if r1 < r2 {
        assert(s[r1] < s[r2]);
        assert(s[r2] <= s[r1]);
    } else if r2 < r1 {
        assert(s[r2] < s[r1]);
        assert(s[r1] <= s[r2]);
    }
}

/// When two candidates share the greatest score, the elite is never the later one: it is
/// the earlier one, or a still earlier candidate with the same score.
pub proof fn lemma_elite_tie_break(s: Seq<nat>, i: int, j: int)
    requires
        0 <= i < j < s.len(),
        s[i] == s[j],
        forall|k: int| 0 <= k < s.len() ==> #[trigger] s[k] <= s[i],
    ensures
        is_elite(s, elite_index(s)),
        elite_index(s) <= i,
        s[elite_index(s)] == s[i],
{
    let r = lemma_first_reaching(s, s[i], 0, i);
    assert(is_elite(s, r));
    lemma_elite_unique(s, r, elite_index(s));
}

/// The first position from `lo` on whose score reaches `v`, given one at `i`.
proof fn lemma_first_reaching(s: Seq<nat>, v: nat, lo: int, i: int) -> (r: int)
    requires
        0 <= lo <= i < s.len(),
        s[i] >= v,
        forall|k: int| 0 <= k < lo ==> #[trigger] s[k] < v,
    ensures
        lo <= r <= i,
        s[r] >= v,
        forall|k: int| 0 <= k < r ==> #[trigger] s[k] < v,
    decreases i - lo,
{
    if s[lo] >= v {
        lo
    } else {
        lemma_first_reaching(s, v, lo + 1, i)
    }
}

/// Crossover keeps the parents' common length, and each position of the child holds the
/// character of one parent or the other at that position.
pub proof fn lemma_crossover_positions(a: Seq<char>, b: Seq<char>, coins: Seq<bool>)
    requires
        b.len() == a.len(),
        coins.len() == a.len(),
    ensures
        crossed(a, b, coins).len() == a.len(),
        forall|i: int|
            0 <= i < a.len() ==> #[trigger] crossed(a, b, coins)[i] == a[i] || crossed(a, b, coins)[i]
                == b[i],
{
}

} // verus!
