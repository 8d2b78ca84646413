//! The resolver: what a tick does to the agents of a chunk.
//!
//! A tick has three parts. In the pairwise pass every agent faces every
//! member of the population as it stood when the tick began. Then every agent
//! ages on its own. Last, the dead are removed. The rolls of the pairwise pass
//! are an input of `tick`, so that a tick is a function; `resolve` draws them.

use crate::chunk::Chunk;
use crate::dice::draw_below;
use crate::entity::{after_fast, Entity, Stance, Stats, Status, ROLL_BOUND};
use vstd::prelude::*;

verus! {

/// Those of `pop` that are alive, in the order in which they stand in `pop`.
pub open spec fn survivors(pop: Seq<Entity>) -> Seq<Entity>
    decreases pop.len(),
{
    if pop.len() == 0 {
        Seq::empty()
    } else if pop.last().alive() {
        survivors(pop.drop_last()).push(pop.last())
    } else {
        survivors(pop.drop_last())
    }
}

/// The roll of the `p`-th meeting of a tick: the `p`-th of `rolls`, and zero,
/// a blow that does no harm, where `rolls` has run out.
pub open spec fn roll_at(rolls: Seq<u8>, p: int) -> u8 {
    if 0 <= p < rolls.len() {
        rolls[p]
    } else {
        0
    }
}

/// What each of `pop` shows to the others.
pub open spec fn stances_of(pop: Seq<Entity>) -> Seq<Stance> {
    Seq::new(pop.len(), |i: int| pop[i].stance_of())
}

/// The agent `e`, the `i`-th of its population, after facing the first `upto`
/// of `stances` in turn. Its meeting with the `j`-th of them is meeting number
/// `j * stances.len() + i` of the tick, and takes that roll.
pub open spec fn beset(e: Entity, i: int, stances: Seq<Stance>, rolls: Seq<u8>, upto: int) -> Entity
    decreases upto,
{
    if upto <= 0 {
        e
    } else {
        beset(e, i, stances, rolls, upto - 1).struck(
            stances[upto - 1],
            roll_at(rolls, (upto - 1) * stances.len() + i),
        )
    }
}

/// The population after the pairwise pass of a tick: every agent has faced
/// every member of the population, itself included, as each of them stood
/// when the tick began.
pub open spec fn clashed(pop: Seq<Entity>, rolls: Seq<u8>) -> Seq<Entity> {
    Seq::new(pop.len(), |i: int| beset(pop[i], i, stances_of(pop), rolls, pop.len() as int))
}

/// The population after the pass in which every agent ages on its own.
pub open spec fn aged_all(pop: Seq<Entity>, steps: i32) -> Seq<Entity> {
    Seq::new(pop.len(), |i: int| pop[i].aged(steps))
}

/// The population after both passes of a tick, the dead still among it.
pub open spec fn advanced(pop: Seq<Entity>, steps: i32, rolls: Seq<u8>) -> Seq<Entity> {
    aged_all(clashed(pop, rolls), steps)
}

/// The population after one tick.
pub open spec fn ticked(pop: Seq<Entity>, steps: i32, rolls: Seq<u8>) -> Seq<Entity> {
    survivors(advanced(pop, steps, rolls))
}

/// The population after one tick for each entry of `history`, the entry
/// holding the rolls of its tick.
pub open spec fn resolved(pop: Seq<Entity>, steps: i32, history: Seq<Seq<u8>>) -> Seq<Entity>
    decreases history.len(),
{
    if history.len() == 0 {
        pop
    } else {
        ticked(resolved(pop, steps, history.drop_last()), steps, history.last())
    }
}

/// Whether every roll of `history` is one that the die of a blow can show.
pub open spec fn fair_rolls(history: Seq<Seq<u8>>) -> bool {
    forall|t: int, p: int|
        0 <= t < history.len() && 0 <= p < history[t].len() ==> #[trigger] history[t][p] < ROLL_BOUND
}

/// The history of a resolution of `ticks` ticks that takes its rolls from
/// `given`: tick `t` takes `given[t]`, and no rolls where `given` has run
/// out.
pub open spec fn history_of(given: Seq<Vec<u8>>, ticks: nat) -> Seq<Seq<u8>> {
    Seq::new(
        ticks,
        |t: int|
            if t < given.len() {
                given[t]@
            } else {
                Seq::empty()
            },
    )
}

/// The number of ticks in a resolution of `steps` steps.
pub open spec fn ticks_of(steps: i32) -> nat {
    if steps > 0 {
        steps as nat
    } else {
        0
    }
}

impl Chunk {
    /// The pairwise pass of a tick: every agent faces every member of the
    /// population as it stood when the pass began. The meetings take their
    /// rolls from `rolls` in turn, stance by stance and, for each stance,
    /// agent by agent.
    pub fn clash(&mut self, rolls: &Vec<u8>)
        ensures
            final(self).entities@ == clashed(old(self).entities@, rolls@),
            final(self).tiles == old(self).tiles,
            final(self).coords == old(self).coords,
            final(self).index == old(self).index,
    {
        let n = self.entities.len();
        let ghost orig = self.entities@;
        let mut stances: Vec<Stance> = Vec::new();
        let mut i: usize = 0;
        while i < n
            invariant
                i <= n,
                n == self.entities@.len(),
                *self == *old(self),
                stances@.len() == i,
                forall|k: int| 0 <= k < i ==> stances@[k] == self.entities@[k].stance_of(),
            decreases n - i,
        {
            let stance = self.entities[i].stance();
            stances.push(stance);
            i += 1;
        }
        assert(stances@ == stances_of(orig));
        let mut used: usize = 0;
        let mut j: usize = 0;
        while j < n
            invariant
                j <= n,
                n == orig.len(),
                self.entities@.len() == n,
                stances@ == stances_of(orig),
                used <= rolls@.len(),
                used == j * n || (used == rolls@.len() && used <= j * n),
                forall|k: int| 0 <= k < n ==> self.entities@[k] == beset(orig[k], k, stances@, rolls@, j as int),
                self.tiles == old(self).tiles,
                self.coords == old(self).coords,
                self.index == old(self).index,
            decreases n - j,
        {
            let by = stances[j];
            let mut i: usize = 0;
            while i < n
                invariant
                    i <= n,
                    j < n,
                    n == orig.len(),
                    self.entities@.len() == n,
                    stances@ == stances_of(orig),
                    by == stances@[j as int],
                    used <= rolls@.len(),
                    used == j * n + i || (used == rolls@.len() && used <= j * n + i),
                    forall|k: int| 0 <= k < i ==> self.entities@[k] == beset(orig[k], k, stances@, rolls@, j + 1),
                    forall|k: int| i <= k < n ==> self.entities@[k] == beset(orig[k], k, stances@, rolls@, j as int),
                    self.tiles == old(self).tiles,
                    self.coords == old(self).coords,
                    self.index == old(self).index,
                decreases n - i,
            {
                let mut roll: u8 = 0;
                if used < rolls.len() {
                    roll = rolls[used];
                    used += 1;
                }
                assert(roll == roll_at(rolls@, j * n + i));
                let e = &mut self.entities[i];
                e.face(&by, roll);
                i += 1;
            }
            assert(j * n + n == (j + 1) * n) by (nonlinear_arith);
            j += 1;
        }
        assert(self.entities@ == clashed(orig, rolls@));
    }

    /// The pass in which every agent ages on its own.
    pub fn age(&mut self, step_increment: i32)
        ensures
            final(self).entities@ == aged_all(old(self).entities@, step_increment),
            final(self).tiles == old(self).tiles,
            final(self).coords == old(self).coords,
            final(self).index == old(self).index,
    {
        let n = self.entities.len();
        let ghost orig = self.entities@;
        let mut i: usize = 0;
        while i < n
            invariant
                i <= n,
                n == orig.len(),
                self.entities@.len() == n,
                forall|k: int| 0 <= k < i ==> self.entities@[k] == orig[k].aged(step_increment),
                forall|k: int| i <= k < n ==> self.entities@[k] == orig[k],
                self.tiles == old(self).tiles,
                self.coords == old(self).coords,
                self.index == old(self).index,
            decreases n - i,
        {
            let e = &mut self.entities[i];
            e.resolve(step_increment);
            i += 1;
        }
        assert(self.entities@ == aged_all(orig, step_increment));
    }

    /// Removes the dead: the agents that are alive stay, in their order.
    pub fn cull(&mut self)
        ensures
            final(self).entities@ == survivors(old(self).entities@),
            final(self).tiles == old(self).tiles,
            final(self).coords == old(self).coords,
            final(self).index == old(self).index,
    {
        let mut all: Vec<Entity> = Vec::new();
        std::mem::swap(&mut self.entities, &mut all);
        let ghost before = all@;
        for e in it: all.into_iter()
            invariant
                it.seq() == before,
                self.entities@ == survivors(before.take(it.index() as int)),
                self.tiles == old(self).tiles,
                self.coords == old(self).coords,
                self.index == old(self).index,
        {
            assert(before.take(it.index() + 1).drop_last() == before.take(it.index() as int));
            if e.stats.health > 0 {
                self.entities.push(e);
            }
        }
        assert(before.take(before.len() as int) == before);
    }

    /// One tick: the pairwise pass with the given rolls, the pass in which
    /// every agent ages, and the removal of the dead.
    pub fn tick(&mut self, step_increment: i32, rolls: &Vec<u8>)
        ensures
            final(self).entities@ == ticked(old(self).entities@, step_increment, rolls@),
            forall|k: int| 0 <= k < final(self).entities@.len() ==> (#[trigger] final(self).entities@[k]).alive(),
            final(self).tiles == old(self).tiles,
            final(self).coords == old(self).coords,
            final(self).index == old(self).index,
    {
        self.clash(rolls);
        self.age(step_increment);
        proof {
            lemma_survivors_alive(self.entities@);
        }
        self.cull();
    }

    /// Draws the rolls of one tick: one for every pair of agents of the
    /// chunk, each below `ROLL_BOUND`.
    pub fn cast(&self) -> (rolls: Vec<u8>)
        ensures
            rolls@.len() == self.entities@.len() * self.entities@.len(),
            forall|p: int| 0 <= p < rolls@.len() ==> #[trigger] rolls@[p] < ROLL_BOUND,
    {
        let n = self.entities.len();
        let mut rolls: Vec<u8> = Vec::new();
        let mut j: usize = 0;
        while j < n
            invariant
                j <= n,
                n == self.entities@.len(),
                rolls@.len() == j * n,
                forall|p: int| 0 <= p < rolls@.len() ==> #[trigger] rolls@[p] < ROLL_BOUND,
            decreases n - j,
        {
            let mut i: usize = 0;
            while i < n
                invariant
                    i <= n,
                    j < n,
                    rolls@.len() == j * n + i,
                    forall|p: int| 0 <= p < rolls@.len() ==> #[trigger] rolls@[p] < ROLL_BOUND,
                decreases n - i,
            {
                rolls.push(draw_below(ROLL_BOUND));
                i += 1;
            }
            assert(j * n + n == (j + 1) * n) by (nonlinear_arith);
            j += 1;
        }
        rolls
    }

    /// Takes the chunk's agents through `step_increment` ticks, one after the
    /// other, tick `t` with the rolls `rolls[t]`. Nothing else changes.
    pub fn resolve_with(&mut self, step_increment: i32, rolls: &Vec<Vec<u8>>)
        ensures
            final(self).entities@ == resolved(
                old(self).entities@,
                step_increment,
                history_of(rolls@, ticks_of(step_increment)),
            ),
            final(self).tiles == old(self).tiles,
            final(self).coords == old(self).coords,
            final(self).index == old(self).index,
    {
        let ghost orig = self.entities@;
        let none: Vec<u8> = Vec::new();
        let mut t: i32 = 0;
        while t < step_increment
            invariant
                0 <= t <= ticks_of(step_increment),
                none@.len() == 0,
                self.entities@ == resolved(orig, step_increment, history_of(rolls@, t as nat)),
                self.tiles == old(self).tiles,
                self.coords == old(self).coords,
                self.index == old(self).index,
            decreases step_increment - t,
        {
            let ghost longer = history_of(rolls@, (t + 1) as nat);
            assert(longer.drop_last() == history_of(rolls@, t as nat));
            if (t as usize) < rolls.len() {
                assert(longer.last() == rolls@[t as int]@);
                self.tick(step_increment, &rolls[t as usize]);
            } else {
                assert(longer.last() == none@);
                self.tick(step_increment, &none);
            }
            t += 1;
        }
    }

    /// Takes the chunk's agents through `step_increment` ticks, one after the
    /// other, with rolls as the dice give them: the population ends as
    /// `resolved` says for some history of that many ticks whose rolls are
    /// all below `ROLL_BOUND`. Nothing else changes. After at least one tick
    /// no agent is left that is not alive.
    pub fn resolve(&mut self, step_increment: i32)
        ensures
            old(self).resolves_to(final(self), step_increment),
            step_increment > 0 ==> forall|k: int|
                0 <= k < final(self).entities@.len() ==> (#[trigger] final(self).entities@[k]).alive(),
    {
        let ghost orig = self.entities@;
        let ghost mut history: Seq<Seq<u8>> = Seq::empty();
        let mut t: i32 = 0;
        while t < step_increment
            invariant
                0 <= t <= ticks_of(step_increment),
                history.len() == t,
                fair_rolls(history),
                self.entities@ == resolved(orig, step_increment, history),
                t > 0 ==> forall|k: int| 0 <= k < self.entities@.len() ==> (#[trigger] self.entities@[k]).alive(),
                self.tiles == old(self).tiles,
                self.coords == old(self).coords,
                self.index == old(self).index,
            decreases step_increment - t,
        {
            let rolls = self.cast();
            self.tick(step_increment, &rolls);
            proof {
                let longer = history.push(rolls@);
                assert(longer.drop_last() == history);
                history = longer;
            }
            t += 1;
        }
        assert(history.len() == ticks_of(step_increment));
    }

    /// Whether `after` is what a resolution of `steps` steps can make of this
    /// chunk: the same chunk, its population taken through that many ticks
    /// with rolls that the die can show.
    pub open spec fn resolves_to(&self, after: &Chunk, steps: i32) -> bool {
        &&& after.tiles == self.tiles
        &&& after.coords == self.coords
        &&& after.index == self.index
        &&& exists|history: Seq<Seq<u8>>|
            history.len() == ticks_of(steps) && fair_rolls(history) && after.entities@ == #[trigger] resolved(
                self.entities@,
                steps,
                history,
            )
    }
}

/// No agent that is not alive survives the removal of the dead.
pub proof fn lemma_survivors_alive(pop: Seq<Entity>)
    ensures
        forall|k: int| 0 <= k < survivors(pop).len() ==> (#[trigger] survivors(pop)[k]).alive(),
    decreases pop.len(),
{
    if pop.len() > 0 {
        lemma_survivors_alive(pop.drop_last());
        let rest = survivors(pop.drop_last());
        assert forall|k: int| 0 <= k < survivors(pop).len() implies (#[trigger] survivors(pop)[k]).alive() by {
            if k < rest.len() {
                assert(survivors(pop)[k] == rest[k]);
            }
        }
    }
}

/// The places in `pop` of those that are alive, in rising order.
pub open spec fn living(pop: Seq<Entity>) -> Seq<int>
    decreases pop.len(),
{
    if pop.len() == 0 {
        Seq::empty()
    } else if pop.last().alive() {
        living(pop.drop_last()).push(pop.len() - 1)
    } else {
        living(pop.drop_last())
    }
}

/// The removal of the dead keeps exactly the living, each in its place
/// among them: the `k`-th survivor is the agent that stood at the `k`-th
/// living place, the living places rise, and no living agent is left out.
pub proof fn lemma_survivors_are_the_living(pop: Seq<Entity>)
    ensures
        survivors(pop).len() == living(pop).len(),
        survivors(pop).len() <= pop.len(),
        forall|k: int|
            0 <= k < living(pop).len() ==> 0 <= #[trigger] living(pop)[k] < pop.len() && pop[living(pop)[k]].alive()
                && survivors(pop)[k] == pop[living(pop)[k]],
        forall|j: int, k: int| 0 <= j < k < living(pop).len() ==> living(pop)[j] < living(pop)[k],
        forall|i: int| 0 <= i < pop.len() && (#[trigger] pop[i]).alive() ==> living(pop).contains(i),
    decreases pop.len(),
{
    if pop.len() > 0 {
        let front = pop.drop_last();
        lemma_survivors_are_the_living(front);
        let places = living(pop);
        assert forall|k: int| 0 <= k < places.len() implies 0 <= #[trigger] places[k] < pop.len()
            && pop[places[k]].alive() && survivors(pop)[k] == pop[places[k]] by {
            if k < living(front).len() {
                assert(places[k] == living(front)[k]);
                assert(survivors(pop)[k] == survivors(front)[k]);
                assert(front[living(front)[k]] == pop[living(front)[k]]);
            }
        }
        assert forall|j: int, k: int| 0 <= j < k < places.len() implies places[j] < places[k] by {
            assert(places[j] == living(front)[j]);
            if k < living(front).len() {
                assert(places[k] == living(front)[k]);
            }
        }
        assert forall|i: int| 0 <= i < pop.len() && (#[trigger] pop[i]).alive() implies places.contains(i) by {
            if i < front.len() {
                assert(front[i] == pop[i]);
                let k = choose|k: int| 0 <= k < living(front).len() && living(front)[k] == i;
                assert(places[k] == i);
            } else {
                assert(places[places.len() - 1] == i);
            }
        }
    }
}

/// Facing the others changes nothing of an agent but its health and its
/// status: its health does not rise, and its status either stays or turns to
/// fighting.
pub proof fn lemma_beset_keeps(e: Entity, i: int, stances: Seq<Stance>, rolls: Seq<u8>, upto: int)
    ensures
        beset(e, i, stances, rolls, upto) == (Entity {
            stats: Stats { health: beset(e, i, stances, rolls, upto).stats.health, ..e.stats },
            status: beset(e, i, stances, rolls, upto).status,
            ..e
        }),
        beset(e, i, stances, rolls, upto).stats.health <= e.stats.health,
        beset(e, i, stances, rolls, upto).status == e.status || beset(e, i, stances, rolls, upto).status
            == Status::Fighting,
    decreases upto,
{
    if upto > 0 {
        lemma_beset_keeps(e, i, stances, rolls, upto - 1);
        let by = stances[upto - 1];
        let roll = roll_at(rolls, (upto - 1) * stances.len() + i);
        assert(0 <= by.strength * roll) by (nonlinear_arith)
            requires
                0 <= by.strength,
                0 <= roll,
        ;
    }
}

/// Hunger across one tick. Before the dead are removed the population has
/// its old size, and the hunger of the agent at each place is one less than
/// it was, or zero if it was zero: it never rises and never falls below zero.
/// The `k`-th agent left after the tick is the one that stood at the `k`-th
/// living place, so its hunger has not risen either.
pub proof fn lemma_tick_hunger(pop: Seq<Entity>, steps: i32, rolls: Seq<u8>)
    ensures
        advanced(pop, steps, rolls).len() == pop.len(),
        forall|i: int|
            0 <= i < pop.len() ==> (#[trigger] advanced(pop, steps, rolls)[i]).stats.hunger == after_fast(
                pop[i].stats.hunger,
            ) && 0 <= advanced(pop, steps, rolls)[i].stats.hunger <= pop[i].stats.hunger,
        ticked(pop, steps, rolls).len() == living(advanced(pop, steps, rolls)).len(),
        forall|k: int|
            0 <= k < ticked(pop, steps, rolls).len() ==> 0 <= living(advanced(pop, steps, rolls))[k] < pop.len()
                && (#[trigger] ticked(pop, steps, rolls)[k]).stats.hunger <= pop[living(
                advanced(pop, steps, rolls),
            )[k]].stats.hunger,
{
    let after = advanced(pop, steps, rolls);
    assert forall|i: int| 0 <= i < pop.len() implies (#[trigger] after[i]).stats.hunger == after_fast(
        pop[i].stats.hunger,
    ) && 0 <= after[i].stats.hunger <= pop[i].stats.hunger by {
        lemma_beset_keeps(pop[i], i, stances_of(pop), rolls, pop.len() as int);
    }
    lemma_survivors_are_the_living(after);
    assert forall|k: int| 0 <= k < ticked(pop, steps, rolls).len() implies 0 <= living(after)[k] < pop.len()
        && (#[trigger] ticked(pop, steps, rolls)[k]).stats.hunger <= pop[living(after)[k]].stats.hunger by {
        let i = living(after)[k];
        assert(ticked(pop, steps, rolls)[k] == after[i]);
    }
}

/// A tick never adds an agent, and leaves none that is not alive.
pub proof fn lemma_tick_culls(pop: Seq<Entity>, steps: i32, rolls: Seq<u8>)
    ensures
        ticked(pop, steps, rolls).len() <= pop.len(),
        forall|k: int| 0 <= k < ticked(pop, steps, rolls).len() ==> (#[trigger] ticked(pop, steps, rolls)[k]).alive(),
{
    lemma_survivors_alive(advanced(pop, steps, rolls));
    lemma_survivors_are_the_living(advanced(pop, steps, rolls));
}

/// A resolution never adds an agent, and after at least one tick it leaves
/// none that is not alive.
pub proof fn lemma_resolved_culls(pop: Seq<Entity>, steps: i32, history: Seq<Seq<u8>>)
    ensures
        resolved(pop, steps, history).len() <= pop.len(),
        history.len() > 0 ==> forall|k: int|
            0 <= k < resolved(pop, steps, history).len() ==> (#[trigger] resolved(pop, steps, history)[k]).alive(),
    decreases history.len(),
{
    if history.len() > 0 {
        lemma_resolved_culls(pop, steps, history.drop_last());
        lemma_tick_culls(resolved(pop, steps, history.drop_last()), steps, history.last());
    }
}

} // verus!
