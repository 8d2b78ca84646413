//! The world: the chunks in their order, their generation one by one, and the
//! stages of a simulation step.

use crate::chunk::Chunk;
use crate::entity::Entity;
use crate::generator::{Draw, Terrain};
use crate::geometry::Coords;
use crate::resolver::{fair_rolls, history_of, resolved, ticks_of};
use vstd::arithmetic::div_mod::{lemma_fundamental_div_mod, lemma_mod_bound};
use vstd::prelude::*;

verus! {

/// All the chunks of a world. A chunk's place in the list is its index.
#[derive(Debug, PartialEq, Eq)]
pub struct World {
    pub chunks: Vec<Chunk>,
}

/// The ground of a whole world: the terrain of each chunk of a square grid,
/// row by row.
#[derive(Debug, PartialEq, Eq)]
pub struct Survey {
    /// Chunks along one side of the world.
    pub world_size: u32,
    /// Tiles along one side of each chunk.
    pub chunk_size: u32,
    pub terrains: Vec<Terrain>,
}

/// The grid position of chunk `c` in a world whose side is `world_size`
/// chunks: the chunks are counted row by row.
pub open spec fn chunk_coords(world_size: u32, c: int) -> Coords {
    Coords { x: (c % (world_size as int)) as i32, y: (c / (world_size as int)) as i32 }
}

impl Survey {
    /// Whether the survey has a terrain for each chunk of the square, each
    /// of the survey's chunk size and with a height for each of its tiles,
    /// and every tile of the world has coordinates within the range of
    /// `i32`.
    pub open spec fn wf(&self) -> bool {
        &&& self.terrains@.len() == self.world_size * self.world_size
        &&& self.world_size <= i32::MAX
        &&& forall|c: int|
            0 <= c < self.terrains@.len() ==> (#[trigger] self.terrains@[c]).size == self.chunk_size
                && self.terrains@[c].wf() && self.terrains@[c].fits(chunk_coords(self.world_size, c))
    }
}

/// Chunk `c` of a square of side `side` lies within the square.
proof fn lemma_cell_in_square(c: int, side: int)
    requires
        0 <= c < side * side,
        0 <= side,
    ensures
        side > 0,
        0 <= c % side < side,
        0 <= c / side < side,
{
    assert(side > 0) by (nonlinear_arith)
        requires
            0 <= c < side * side,
            0 <= side,
    ;
    lemma_mod_bound(c, side);
    lemma_fundamental_div_mod(c, side);
    assert(0 <= c / side < side) by (nonlinear_arith)
        requires
            c == side * (c / side) + c % side,
            0 <= c % side < side,
            0 <= c < side * side,
    ;
}

impl Survey {
    /// The survey of a world of `world_size` by `world_size` chunks of
    /// `chunk_size` by `chunk_size` tiles, if `terrains` makes it
    /// well-formed, and nothing otherwise.
    pub fn new(world_size: u32, chunk_size: u32, terrains: Vec<Terrain>) -> (r: Option<Survey>)
        ensures
            r is Some <==> (Survey { world_size, chunk_size, terrains }).wf(),
            r matches Some(s) ==> s == (Survey { world_size, chunk_size, terrains }),
    {
        let survey = Survey { world_size, chunk_size, terrains };
        if survey.is_wf() {
            Some(survey)
        } else {
            None
        }
    }

    /// Computes `wf`.
    pub fn is_wf(&self) -> (b: bool)
        ensures
            b == self.wf(),
    {
        proof {
            crate::math::lemma_product_bounded(self.world_size as int, self.world_size as int, 0xffff_ffff);
        }
        let area: u64 = (self.world_size as u64) * (self.world_size as u64);
        if self.terrains.len() as u64 != area || self.world_size > i32::MAX as u32 {
            return false;
        }
        let n = self.terrains.len();
        let side = self.world_size as usize;
        let mut c: usize = 0;
        while c < n
            invariant
                c <= n,
                n == self.terrains@.len(),
                n == self.world_size * self.world_size,
                side == self.world_size,
                self.world_size <= i32::MAX,
                forall|k: int|
                    0 <= k < c ==> (#[trigger] self.terrains@[k]).size == self.chunk_size && self.terrains@[k].wf()
                        && self.terrains@[k].fits(chunk_coords(self.world_size, k)),
            decreases n - c,
        {
            proof {
                lemma_cell_in_square(c as int, self.world_size as int);
            }
            let at = Coords::from(((c % side) as i32, (c / side) as i32));
            let terrain = &self.terrains[c];
            if terrain.size != self.chunk_size || !terrain.is_wf() || !terrain.frames(&at) {
                return false;
            }
            c += 1;
        }
        true
    }
}

/// The population of each of `chunks`.
pub open spec fn populations(chunks: Seq<Chunk>) -> Seq<Seq<Entity>> {
    Seq::new(chunks.len(), |i: int| chunks[i].entities@)
}

/// The populations after every one of them has been resolved on its own,
/// population `i` with the history `histories[i]`.
pub open spec fn resolved_each(pops: Seq<Seq<Entity>>, steps: i32, histories: Seq<Seq<Seq<u8>>>) -> Seq<
    Seq<Entity>,
> {
    Seq::new(pops.len(), |i: int| resolved(pops[i], steps, histories[i]))
}

/// The populations after they have been resolved one at a time in the order
/// `order`, each step taking the populations as the steps before left them.
pub open spec fn resolved_in_turn(
    pops: Seq<Seq<Entity>>,
    steps: i32,
    histories: Seq<Seq<Seq<u8>>>,
    order: Seq<int>,
) -> Seq<Seq<Entity>>
    decreases order.len(),
{
    if order.len() == 0 {
        pops
    } else {
        let before = resolved_in_turn(pops, steps, histories, order.drop_last());
        let i = order.last();
        if 0 <= i < before.len() {
            before.update(i, resolved(before[i], steps, histories[i]))
        } else {
            before
        }
    }
}

/// The histories that the chunks of a world of `n` chunks take from `given`
/// in a resolution of `ticks` ticks: chunk `i` takes `given[i]`, and no rolls
/// where `given` has run out.
pub open spec fn histories_of(given: Seq<Vec<Vec<u8>>>, n: nat, ticks: nat) -> Seq<Seq<Seq<u8>>> {
    Seq::new(
        n,
        |i: int|
            if i < given.len() {
                history_of(given[i]@, ticks)
            } else {
                history_of(Seq::empty(), ticks)
            },
    )
}

/// Whether `after` holds the chunks of `before` with nothing changed but
/// their populations.
pub open spec fn same_ground(before: Seq<Chunk>, after: Seq<Chunk>) -> bool {
    &&& after.len() == before.len()
    &&& forall|i: int|
        0 <= i < before.len() ==> (#[trigger] after[i]).tiles == before[i].tiles && after[i].coords
            == before[i].coords && after[i].index == before[i].index
}

/// Whether `histories` holds, for each of `n` chunks, a history of `ticks`
/// ticks whose rolls the die can show.
pub open spec fn fair_histories(histories: Seq<Seq<Seq<u8>>>, n: nat, ticks: nat) -> bool {
    &&& histories.len() == n
    &&& forall|i: int| 0 <= i < n ==> (#[trigger] histories[i]).len() == ticks && fair_rolls(histories[i])
}

/// Where every chunk of `after` is what a resolution of its own can make of
/// the chunk of `before` in its place, the populations of `after` are those
/// of `before` resolved each on its own, under some histories.
pub proof fn lemma_chunkwise(before: Seq<Chunk>, after: Seq<Chunk>, steps: i32)
    requires
        after.len() == before.len(),
        forall|i: int| 0 <= i < before.len() ==> (#[trigger] before[i]).resolves_to(&after[i], steps),
    ensures
        same_ground(before, after),
        exists|histories: Seq<Seq<Seq<u8>>>|
            fair_histories(histories, before.len(), ticks_of(steps)) && populations(after)
                == #[trigger] resolved_each(populations(before), steps, histories),
{
    let histories = Seq::new(
        before.len(),
        |i: int|
            choose|history: Seq<Seq<u8>>|
                history.len() == ticks_of(steps) && fair_rolls(history) && after[i].entities@
                    == #[trigger] resolved(before[i].entities@, steps, history),
    );
    assert forall|i: int| 0 <= i < before.len() implies (#[trigger] histories[i]).len() == ticks_of(steps)
        && fair_rolls(histories[i]) && after[i].entities@ == resolved(before[i].entities@, steps, histories[i]) by {
        assert(before[i].resolves_to(&after[i], steps));
    }
    assert(same_ground(before, after)) by {
        assert forall|i: int| 0 <= i < before.len() implies (#[trigger] after[i]).tiles == before[i].tiles
            && after[i].coords == before[i].coords && after[i].index == before[i].index by {
            assert(before[i].resolves_to(&after[i], steps));
        }
    }
    assert(populations(after) == resolved_each(populations(before), steps, histories));
}

impl World {
    /// Whether this is a world that generation can give on `survey`: chunk
    /// `c` is one that generation can give at its grid position on its
    /// terrain.
    pub open spec fn generated(&self, survey: &Survey) -> bool {
        &&& self.chunks@.len() == survey.terrains@.len()
        &&& forall|c: int|
            0 <= c < self.chunks@.len() ==> (#[trigger] self.chunks@[c]).generated(
                chunk_coords(survey.world_size, c),
                c as usize,
                &survey.terrains@[c],
            )
    }

    /// Whether this is the bare world of `world_size` by `world_size`
    /// chunks: every chunk stands at its place in the grid, carries its
    /// index, and has neither tiles nor agents yet.
    pub open spec fn bare(&self, world_size: u32) -> bool {
        &&& self.chunks@.len() == world_size * world_size
        &&& forall|c: int|
            0 <= c < self.chunks@.len() ==> {
                let chunk = #[trigger] self.chunks@[c];
                &&& chunk.coords == chunk_coords(world_size, c)
                &&& chunk.index == c
                &&& chunk.tiles@.len() == 0
                &&& chunk.entities@.len() == 0
            }
    }

    /// The bare world of `world_size` by `world_size` chunks, ready to be
    /// filled chunk by chunk in any order. There is none where the grid
    /// positions or the indices of the chunks would not fit their ranges.
    pub fn blank(world_size: u32) -> (r: Option<World>)
        ensures
            r is Some <==> world_size <= i32::MAX && world_size * world_size <= usize::MAX,
            r matches Some(world) ==> world.bare(world_size),
    {
        proof {
            crate::math::lemma_product_bounded(world_size as int, world_size as int, 0xffff_ffff);
        }
        let area: u64 = (world_size as u64) * (world_size as u64);
        if world_size > i32::MAX as u32 || area > usize::MAX as u64 {
            return None;
        }
        let n = area as usize;
        let side = world_size as usize;
        let mut chunks: Vec<Chunk> = Vec::new();
        let mut c: usize = 0;
        while c < n
            invariant
                c <= n,
                n == world_size * world_size,
                side == world_size,
                world_size <= i32::MAX,
                chunks@.len() == c,
                forall|k: int|
                    0 <= k < c ==> {
                        let chunk = #[trigger] chunks@[k];
                        &&& chunk.coords == chunk_coords(world_size, k)
                        &&& chunk.index == k
                        &&& chunk.tiles@.len() == 0
                        &&& chunk.entities@.len() == 0
                    },
            decreases n - c,
        {
            proof {
                lemma_cell_in_square(c as int, world_size as int);
            }
            let at = Coords::from(((c % side) as i32, (c / side) as i32));
            chunks.push(Chunk::from(Vec::new(), Vec::new(), at, c));
            c += 1;
        }
        Some(World::from(chunks))
    }

    /// The world with the given chunks.
    pub fn from(chunks: Vec<Chunk>) -> (r: World)
        ensures
            r.chunks == chunks,
    {
        World { chunks }
    }

    /// The chunk at `index`, to be changed in place.
    pub fn fetch_chunk_mut(&mut self, index: usize) -> (chunk: &mut Chunk)
        requires
            index < old(self).chunks@.len(),
        ensures
            *chunk == old(self).chunks@[index as int],
            final(self).chunks@ == old(self).chunks@.update(index as int, *final(chunk)),
    {
        &mut self.chunks[index]
    }

    /// The chunk at `index`.
    pub fn fetch_chunk(&self, index: usize) -> (chunk: &Chunk)
        requires
            index < self.chunks@.len(),
        ensures
            *chunk == self.chunks@[index as int],
    {
        &self.chunks[index]
    }

    /// Whether `after` is what the stage within chunks, with `steps` steps,
    /// can make of this world: the same ground, and the populations resolved
    /// each on its own, with histories of that many ticks whose rolls the die
    /// can show.
    pub open spec fn resolves_to(&self, after: &World, steps: i32) -> bool {
        &&& same_ground(self.chunks@, after.chunks@)
        &&& exists|histories: Seq<Seq<Seq<u8>>>|
            fair_histories(histories, self.chunks@.len(), ticks_of(steps)) && populations(after.chunks@)
                == #[trigger] resolved_each(populations(self.chunks@), steps, histories)
    }

    /// The stage within chunks: every chunk is resolved on its own, the
    /// chunks in their order, with rolls as the dice give them. Each chunk
    /// ends as a resolution of that chunk alone can leave it, whatever became
    /// of the others, and so the world ends as `resolves_to` says.
    pub fn resolve(&mut self, step_increment: i32)
        ensures
            final(self).chunks@.len() == old(self).chunks@.len(),
            forall|i: int|
                0 <= i < old(self).chunks@.len() ==> (#[trigger] old(self).chunks@[i]).resolves_to(
                    &final(self).chunks@[i],
                    step_increment,
                ),
            old(self).resolves_to(final(self), step_increment),
    {
        let n = self.chunks.len();
        let mut i: usize = 0;
        while i < n
            invariant
                i <= n,
                n == old(self).chunks@.len(),
                self.chunks@.len() == n,
                forall|k: int|
                    0 <= k < i ==> (#[trigger] old(self).chunks@[k]).resolves_to(
                        &self.chunks@[k],
                        step_increment,
                    ),
                forall|k: int| i <= k < n ==> self.chunks@[k] == old(self).chunks@[k],
            decreases n - i,
        {
            let chunk = &mut self.chunks[i];
            chunk.resolve(step_increment);
            i += 1;
        }
        proof {
            lemma_chunkwise(old(self).chunks@, self.chunks@, step_increment);
        }
    }

    /// The stage within chunks with given rolls: chunk `i` is resolved with
    /// the rolls `rolls[i]`, as `Chunk::resolve_with` does it. Every
    /// population ends as its own resolution leaves it.
    pub fn resolve_with(&mut self, step_increment: i32, rolls: &Vec<Vec<Vec<u8>>>)
        ensures
            same_ground(old(self).chunks@, final(self).chunks@),
            populations(final(self).chunks@) == resolved_each(
                populations(old(self).chunks@),
                step_increment,
                histories_of(rolls@, old(self).chunks@.len(), ticks_of(step_increment)),
            ),
    {
        let n = self.chunks.len();
        let none: Vec<Vec<u8>> = Vec::new();
        let ghost histories = histories_of(rolls@, n as nat, ticks_of(step_increment));
        let mut i: usize = 0;
        while i < n
            invariant
                i <= n,
                n == old(self).chunks@.len(),
                self.chunks@.len() == n,
                none@.len() == 0,
                histories == histories_of(rolls@, n as nat, ticks_of(step_increment)),
                same_ground(old(self).chunks@, self.chunks@),
                forall|k: int|
                    0 <= k < i ==> (#[trigger] self.chunks@[k]).entities@ == resolved(
                        old(self).chunks@[k].entities@,
                        step_increment,
                        histories[k],
                    ),
                forall|k: int| i <= k < n ==> self.chunks@[k] == old(self).chunks@[k],
            decreases n - i,
        {
            let chunk = &mut self.chunks[i];
            if i < rolls.len() {
                chunk.resolve_with(step_increment, &rolls[i]);
            } else {
                chunk.resolve_with(step_increment, &none);
                assert(history_of(none@, ticks_of(step_increment)) == history_of(
                    Seq::empty(),
                    ticks_of(step_increment),
                ));
            }
            i += 1;
        }
        assert(populations(self.chunks@) == resolved_each(
            populations(old(self).chunks@),
            step_increment,
            histories,
        ));
    }

    /// The stage between chunks. Nothing crosses from one chunk to another
    /// yet: the world is left as it is.
    pub fn resolve_between(&mut self, step_increment: i32)
        ensures
            *final(self) == *old(self),
    {
    }
}

/// The draws that chunk `c` takes from `given`: `given[c]`, and none where
/// `given` has run out.
pub open spec fn draws_for(given: Seq<Vec<Draw>>, c: int) -> Seq<Draw> {
    if 0 <= c < given.len() {
        given[c]@
    } else {
        Seq::empty()
    }
}

/// Generates the world that lies on `survey`, chunk by chunk, chunk `c` under
/// the draws `draws[c]`.
pub fn worldgen_with(survey: &Survey, draws: &Vec<Vec<Draw>>) -> (world: World)
    requires
        survey.wf(),
    ensures
        world.chunks@.len() == survey.terrains@.len(),
        forall|c: int|
            0 <= c < world.chunks@.len() ==> (#[trigger] world.chunks@[c]).generated_from(
                chunk_coords(survey.world_size, c),
                c as usize,
                &survey.terrains@[c],
                draws_for(draws@, c),
            ),
{
    let n = survey.terrains.len();
    let none: Vec<Draw> = Vec::new();
    let mut world = match World::blank(survey.world_size) {
        Some(world) => world,
        // a well-formed survey has a bare world
        None => World::from(Vec::new()),
    };
    let mut c: usize = 0;
    while c < n
        invariant
            c <= n,
            n == survey.terrains@.len(),
            survey.wf(),
            none@.len() == 0,
            world.chunks@.len() == n,
            forall|k: int|
                0 <= k < c ==> (#[trigger] world.chunks@[k]).generated_from(
                    chunk_coords(survey.world_size, k),
                    k as usize,
                    &survey.terrains@[k],
                    draws_for(draws@, k),
                ),
            forall|k: int|
                c <= k < n ==> (#[trigger] world.chunks@[k]).coords == chunk_coords(survey.world_size, k)
                    && world.chunks@[k].index == k,
        decreases n - c,
    {
        let site = &mut world.chunks[c];
        let chunk = if c < draws.len() {
            site.gen_with(&survey.terrains[c], &draws[c])
        } else {
            assert(none@ == draws_for(draws@, c as int));
            site.gen_with(&survey.terrains[c], &none)
        };
        *site = chunk;
        c += 1;
    }
    world
}

/// Generates the world that lies on `survey`, chunk by chunk, with draws as
/// the dice give them: the result is `generated`.
pub fn worldgen(survey: &Survey) -> (world: World)
    requires
        survey.wf(),
    ensures
        world.generated(survey),
{
    let n = survey.terrains.len();
    let mut world = match World::blank(survey.world_size) {
        Some(world) => world,
        // a well-formed survey has a bare world
        None => World::from(Vec::new()),
    };
    let mut c: usize = 0;
    while c < n
        invariant
            c <= n,
            n == survey.terrains@.len(),
            survey.wf(),
            world.chunks@.len() == n,
            forall|k: int|
                0 <= k < c ==> (#[trigger] world.chunks@[k]).generated(
                    chunk_coords(survey.world_size, k),
                    k as usize,
                    &survey.terrains@[k],
                ),
            forall|k: int|
                c <= k < n ==> (#[trigger] world.chunks@[k]).coords == chunk_coords(survey.world_size, k)
                    && world.chunks@[k].index == k,
        decreases n - c,
    {
        let site = &mut world.chunks[c];
        let chunk = site.gen(&survey.terrains[c]);
        *site = chunk;
        c += 1;
    }
    world
}

/// Whether `order` names each of `n` chunks exactly once.
pub open spec fn each_once(order: Seq<int>, n: nat) -> bool {
    &&& order.no_duplicates()
    &&& forall|k: int| 0 <= k < order.len() ==> 0 <= #[trigger] order[k] < n
    &&& forall|i: int| 0 <= i < n ==> order.contains(i)
}

/// While chunks are resolved one at a time, each population is either as it
/// was or resolved, according to whether its turn has come.
proof fn lemma_resolved_so_far(
    pops: Seq<Seq<Entity>>,
    steps: i32,
    histories: Seq<Seq<Seq<u8>>>,
    order: Seq<int>,
)
    requires
        order.no_duplicates(),
        forall|k: int| 0 <= k < order.len() ==> 0 <= #[trigger] order[k] < pops.len(),
    ensures
        resolved_in_turn(pops, steps, histories, order).len() == pops.len(),
        forall|i: int|
            0 <= i < pops.len() ==> #[trigger] resolved_in_turn(pops, steps, histories, order)[i] == (if order.contains(
                i,
            ) {
                resolved(pops[i], steps, histories[i])
            } else {
                pops[i]
            }),
    decreases order.len(),
{
    if order.len() > 0 {
        let earlier = order.drop_last();
        let last = order.last();
        assert forall|k: int| 0 <= k < earlier.len() implies 0 <= #[trigger] earlier[k] < pops.len() by {
            assert(earlier[k] == order[k]);
        }
        assert(earlier.no_duplicates()) by {
            assert forall|j: int, k: int| 0 <= j < earlier.len() && 0 <= k < earlier.len() && j != k implies earlier[j]
                != earlier[k] by {
                assert(earlier[j] == order[j] && earlier[k] == order[k]);
            }
        }
        lemma_resolved_so_far(pops, steps, histories, earlier);
        assert(!earlier.contains(last)) by {
            if earlier.contains(last) {
                let k = choose|k: int| 0 <= k < earlier.len() && earlier[k] == last;
                assert(order[k] == order[order.len() - 1]);
            }
        }
        assert(0 <= last < pops.len()) by {
            assert(order[order.len() - 1] == last);
        }
        assert forall|i: int| 0 <= i < pops.len() implies #[trigger] resolved_in_turn(pops, steps, histories, order)[i]
            == (if order.contains(i) {
            resolved(pops[i], steps, histories[i])
        } else {
            pops[i]
        }) by {
            if i == last {
                assert(order[order.len() - 1] == i);
            } else if earlier.contains(i) {
                let k = choose|k: int| 0 <= k < earlier.len() && earlier[k] == i;
                assert(order[k] == i);
            } else if order.contains(i) {
                let k = choose|k: int| 0 <= k < order.len() && order[k] == i;
                assert(earlier[k] == i);
            }
        }
    }
}

/// The order in which the chunks are resolved is immaterial. Resolving them
/// one at a time, in any order that takes each chunk once, leaves every
/// population as its own resolution leaves it: the same result as resolving
/// all of them side by side, each from the state in which the stage began.
pub proof fn lemma_order_of_chunks_is_immaterial(
    pops: Seq<Seq<Entity>>,
    steps: i32,
    histories: Seq<Seq<Seq<u8>>>,
    order: Seq<int>,
)
    requires
        each_once(order, pops.len()),
    ensures
        resolved_in_turn(pops, steps, histories, order) == resolved_each(pops, steps, histories),
{
    lemma_resolved_so_far(pops, steps, histories, order);
}

/// Two schedules that each take every chunk once leave the same world.
pub proof fn lemma_schedules_agree(
    pops: Seq<Seq<Entity>>,
    steps: i32,
    histories: Seq<Seq<Seq<u8>>>,
    first: Seq<int>,
    second: Seq<int>,
)
    requires
        each_once(first, pops.len()),
        each_once(second, pops.len()),
    ensures
        resolved_in_turn(pops, steps, histories, first) == resolved_in_turn(pops, steps, histories, second),
{
    lemma_order_of_chunks_is_immaterial(pops, steps, histories, first);
    lemma_order_of_chunks_is_immaterial(pops, steps, histories, second);
}

} // verus!
