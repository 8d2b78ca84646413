//! The generator: how a chunk comes by its tiles and its first agents.
//!
//! The terrain of a chunk is an input: one height for each tile and one noise
//! sample that zones the chunk, all as integers. So are the draws of chance,
//! one for each tile. From these `gen_with` builds the chunk as a function;
//! `gen` makes the draws itself.

use crate::chunk::Chunk;
use crate::config::{SPAWN_HIT, SPAWN_ODDS, TILE_SIZE};
use crate::dice::draw_below;
use crate::entity::{
    birth_genders, gen_gender, gen_human_name, name_table, Alignment, Entity, EntityType, Gender,
    Personality, Stats, AGGRESSION_BOUND,
};
use crate::faction::{faction_of, Faction};
use crate::geometry::{Coords, Size};
use crate::tile::{Tile, TileType};
use vstd::arithmetic::div_mod::{lemma_fundamental_div_mod, lemma_mod_bound};
use vstd::prelude::*;

verus! {

/// The seed of noise field `octave` of a world with seed `seed`: the
/// world's seed with the octave's number added, starting over from zero
/// beyond the largest seed.
pub open spec fn octave_seed(seed: u32, octave: int) -> u32 {
    ((seed + octave) % 0x1_0000_0000) as u32
}

/// The seeds of the three noise fields whose sum is the terrain: the world's
/// seed and the two that follow it. They differ from each other, so the
/// fields are independent. Beyond the largest seed the count starts over:
/// the largest seed is followed by zero and one.
pub fn octave_seeds(seed: u32) -> (seeds: (u32, u32, u32))
    ensures
        seeds.0 == octave_seed(seed, 0),
        seeds.1 == octave_seed(seed, 1),
        seeds.2 == octave_seed(seed, 2),
        seeds.0 == seed,
        seed <= u32::MAX - 2 ==> seeds.1 == seed + 1 && seeds.2 == seed + 2,
        seed == u32::MAX - 1 ==> seeds.1 == u32::MAX && seeds.2 == 0,
        seed == u32::MAX ==> seeds.1 == 0 && seeds.2 == 1,
        seeds.0 != seeds.1 && seeds.1 != seeds.2 && seeds.0 != seeds.2,
{
    let second = if seed == u32::MAX {
        0
    } else {
        seed + 1
    };
    let third = if second == u32::MAX {
        0
    } else {
        second + 1
    };
    (seed, second, third)
}

/// The ground of one chunk, as the noise fields give it.
#[derive(Debug, PartialEq, Eq)]
pub struct Terrain {
    /// Tiles along one side of the chunk.
    pub size: u32,
    /// The noise sample that zones the chunk, in counts of
    /// `1 / SAMPLE_UNIT`.
    pub faction_sample: i32,
    /// The height of each tile, row by row.
    pub heights: Vec<i32>,
}

impl Clone for Terrain {
    /// The same ground once more.
    fn clone(&self) -> (r: Terrain)
        ensures
            r.size == self.size,
            r.faction_sample == self.faction_sample,
            r.heights@ == self.heights@,
    {
        Terrain { size: self.size, faction_sample: self.faction_sample, heights: self.heights.clone() }
    }
}

impl Terrain {
    /// Whether there is a height for each tile of the square.
    pub open spec fn wf(&self) -> bool {
        self.heights@.len() == self.size * self.size
    }

    /// Whether the tiles of the chunk at grid position `chunk` have world
    /// coordinates within the range of `i32`.
    pub open spec fn fits(&self, chunk: Coords) -> bool {
        self.size > 0 ==> {
            &&& i32::MIN <= chunk.x * self.size
            &&& chunk.x * self.size + self.size - 1 <= i32::MAX
            &&& i32::MIN <= chunk.y * self.size
            &&& chunk.y * self.size + self.size - 1 <= i32::MAX
        }
    }

    /// The terrain of a chunk of `size` by `size` tiles, if `heights` has a
    /// height for each of them, and nothing otherwise.
    pub fn new(size: u32, faction_sample: i32, heights: Vec<i32>) -> (r: Option<Terrain>)
        ensures
            r is Some <==> heights@.len() == size * size,
            r matches Some(t) ==> t == (Terrain { size, faction_sample, heights }) && t.wf(),
    {
        proof {
            crate::math::lemma_product_bounded(size as int, size as int, 0xffff_ffff);
        }
        let area: u64 = (size as u64) * (size as u64);
        if heights.len() as u64 == area {
            Some(Terrain { size, faction_sample, heights })
        } else {
            None
        }
    }

    /// Computes `wf`.
    pub fn is_wf(&self) -> (b: bool)
        ensures
            b == self.wf(),
    {
        proof {
            crate::math::lemma_product_bounded(self.size as int, self.size as int, 0xffff_ffff);
        }
        let area: u64 = (self.size as u64) * (self.size as u64);
        self.heights.len() as u64 == area
    }

    /// Computes `fits`.
    pub fn frames(&self, chunk: &Coords) -> (b: bool)
        ensures
            b == self.fits(*chunk),
    {
        if self.size == 0 {
            return true;
        }
        proof {
            crate::math::lemma_product_bounded(chunk.x as int, self.size as int, 0x1_0000_0000);
            crate::math::lemma_product_bounded(chunk.y as int, self.size as int, 0x1_0000_0000);
        }
        let size: i128 = self.size as i128;
        let west: i128 = (chunk.x as i128) * size;
        let north: i128 = (chunk.y as i128) * size;
        i32::MIN as i128 <= west && west + size - 1 <= i32::MAX as i128 && i32::MIN as i128 <= north
            && north + size - 1 <= i32::MAX as i128
    }

    /// The faction of the chunk.
    pub fn faction(&self) -> (f: Faction)
        ensures
            f == faction_of(self.faction_sample as int),
    {
        Faction::classify(self.faction_sample)
    }
}

/// What chance decides for one tile: whether an agent is born there, and who
/// it would be.
#[derive(Debug, PartialEq, Eq)]
pub struct Draw {
    /// The spawn roll. An agent is born on `SPAWN_HIT`.
    pub spawn: u8,
    pub gender: Gender,
    pub stats: Stats,
    pub personality: Personality,
    pub name: String,
}

impl Clone for Draw {
    /// The same draw once more.
    fn clone(&self) -> (r: Draw)
        ensures
            r == *self,
    {
        Draw {
            spawn: self.spawn,
            gender: self.gender,
            stats: self.stats,
            personality: self.personality,
            name: self.name.clone(),
        }
    }
}

impl Draw {
    /// Whether the dice can give this draw in a chunk of `faction`.
    pub open spec fn fair(&self, faction: Faction) -> bool {
        &&& self.spawn < SPAWN_ODDS
        &&& birth_genders().contains(self.gender)
        &&& self.stats.newborn()
        &&& self.personality.aggression < AGGRESSION_BOUND
        &&& name_table(faction, self.gender).contains(self.name@)
    }

    /// A draw as the dice give it.
    pub fn gen(faction: Faction) -> (d: Draw)
        ensures
            d.fair(faction),
    {
        let gender = gen_gender();
        let spawn = draw_below(SPAWN_ODDS);
        let stats = Stats::gen();
        let personality = Personality::gen();
        let name = gen_human_name(faction, &gender);
        Draw { spawn, gender, stats, personality, name }
    }
}

/// Whether every one of `draws` is one that the dice can give in a chunk of
/// `faction`.
pub open spec fn fair_draws(draws: Seq<Draw>, faction: Faction) -> bool {
    forall|c: int| 0 <= c < draws.len() ==> (#[trigger] draws[c]).fair(faction)
}

/// The world position of tile `c` of the chunk at grid position `chunk`,
/// whose side is `size` tiles: the tiles are counted row by row.
pub open spec fn tile_coords(chunk: Coords, size: u32, c: int) -> Coords {
    Coords {
        x: (c % (size as int) + chunk.x * size) as i32,
        y: (c / (size as int) + chunk.y * size) as i32,
    }
}

/// Tile `c` of the chunk at grid position `chunk`: grass at the height the
/// terrain gives, with nobody on it and no design.
pub open spec fn tile_at(chunk: Coords, terrain: &Terrain, c: int) -> Tile {
    Tile {
        coords: tile_coords(chunk, terrain.size, c),
        index: c as usize,
        size: Size { x: TILE_SIZE as i32, y: TILE_SIZE as i32 },
        height: terrain.heights@[c],
        ttype: TileType::Grass,
        holds: None,
        designed: None,
    }
}

/// The tiles of the chunk at grid position `chunk`.
pub open spec fn tiles_of(chunk: Coords, terrain: &Terrain) -> Seq<Tile> {
    Seq::new(terrain.heights@.len(), |c: int| tile_at(chunk, terrain, c))
}

/// Whether an agent is born on tile `c`: the tile's height is positive, the
/// chunk has a faction, and the tile's spawn roll is `SPAWN_HIT`. A tile
/// without a draw bears nobody.
pub open spec fn spawns(terrain: &Terrain, draws: Seq<Draw>, c: int) -> bool {
    &&& 0 <= c < terrain.heights@.len()
    &&& terrain.heights@[c] > 0
    &&& faction_of(terrain.faction_sample as int) != Faction::Empty
    &&& c < draws.len()
    &&& draws[c].spawn == SPAWN_HIT
}

/// The tiles among the first `upto` on which an agent is born, in rising
/// order.
pub open spec fn sites(terrain: &Terrain, draws: Seq<Draw>, upto: int) -> Seq<int>
    decreases upto,
{
    if upto <= 0 {
        Seq::empty()
    } else if spawns(terrain, draws, upto - 1) {
        sites(terrain, draws, upto - 1).push(upto - 1)
    } else {
        sites(terrain, draws, upto - 1)
    }
}

/// Whether `e` is the agent born on tile `c` of the chunk at grid position
/// `chunk` under the draw `draw`: it stands on the tile and carries the
/// tile's number, it is human and of the chunk's faction, and it has the
/// gender, measures, personality and name of the draw.
pub open spec fn born_at(e: &Entity, chunk: Coords, terrain: &Terrain, c: int, draw: &Draw) -> bool {
    &&& e.index == c
    &&& e.coords == tile_coords(chunk, terrain.size, c)
    &&& e.etype == EntityType::Human
    &&& e.stats == draw.stats
    &&& e.alignment == (Alignment {
        faction: faction_of(terrain.faction_sample as int),
        personality: draw.personality,
    })
    &&& e.name == draw.name
    &&& e.gender == draw.gender
    &&& e.newborn()
}

impl Chunk {
    /// Whether this is the chunk that generation gives at grid position
    /// `coords` and list position `index`, on `terrain` and under `draws`:
    /// it has the terrain's tiles, and one agent for each site, in the order
    /// of the sites.
    pub open spec fn generated_from(
        &self,
        coords: Coords,
        index: usize,
        terrain: &Terrain,
        draws: Seq<Draw>,
    ) -> bool {
        let places = sites(terrain, draws, terrain.heights@.len() as int);
        &&& self.coords == coords
        &&& self.index == index
        &&& self.tiles@ == tiles_of(coords, terrain)
        &&& self.entities@.len() == places.len()
        &&& forall|k: int|
            0 <= k < places.len() ==> spawns(terrain, draws, places[k]) && born_at(
                #[trigger] &self.entities@[k],
                coords,
                terrain,
                places[k],
                &draws[places[k]],
            )
    }

    /// Whether this is a chunk that generation can give at grid position
    /// `coords` and list position `index` on `terrain`: the one generated
    /// from some draws that the dice can give.
    pub open spec fn generated(&self, coords: Coords, index: usize, terrain: &Terrain) -> bool {
        exists|draws: Seq<Draw>|
            fair_draws(draws, faction_of(terrain.faction_sample as int)) && #[trigger] self.generated_from(
                coords,
                index,
                terrain,
                draws,
            )
    }

    /// Generates the chunk that stands where this one stands, on `terrain`
    /// and under `draws`, the draw of tile `c` being `draws[c]`. This chunk
    /// gives its grid position and its list position, and is left as it was.
    pub fn gen_with(&mut self, terrain: &Terrain, draws: &Vec<Draw>) -> (chunk: Chunk)
        requires
            terrain.wf(),
            terrain.fits(old(self).coords),
        ensures
            *final(self) == *old(self),
            chunk.generated_from(old(self).coords, old(self).index, terrain, draws@),
            faction_of(terrain.faction_sample as int) == Faction::Empty ==> chunk.entities@.len() == 0,
    {
        let n = terrain.heights.len();
        let size: usize = terrain.size as usize;
        let faction = terrain.faction();
        let discard_entities = !faction.settles();
        let mut tiles: Vec<Tile> = Vec::new();
        let mut entities: Vec<Entity> = Vec::new();
        let mut c: usize = 0;
        while c < n
            invariant
                c <= n,
                n == terrain.heights@.len(),
                n == terrain.size * terrain.size,
                size == terrain.size,
                terrain.fits(self.coords),
                faction == faction_of(terrain.faction_sample as int),
                discard_entities == (faction == Faction::Empty),
                *self == *old(self),
                tiles@.len() == c,
                forall|k: int| 0 <= k < c ==> tiles@[k] == tile_at(self.coords, terrain, k),
                entities@.len() == sites(terrain, draws@, c as int).len(),
                forall|k: int|
                    0 <= k < entities@.len() ==> born_at(
                        #[trigger] &entities@[k],
                        self.coords,
                        terrain,
                        sites(terrain, draws@, c as int)[k],
                        &draws@[sites(terrain, draws@, c as int)[k]],
                    ),
                discard_entities ==> entities@.len() == 0,
            decreases n - c,
        {
            proof {
                let s = terrain.size as int;
                assert(s > 0) by (nonlinear_arith)
                    requires
                        c < s * s,
                        0 <= c,
                        s >= 0,
                ;
                lemma_mod_bound(c as int, s);
                lemma_fundamental_div_mod(c as int, s);
                assert(0 <= c as int / s < s) by (nonlinear_arith)
                    requires
                        c == s * (c as int / s) + c as int % s,
                        0 <= c as int % s < s,
                        0 <= c < s * s,
                ;
            }
            let col: i64 = (c % size) as i64;
            let row: i64 = (c / size) as i64;
            let x: i32 = (col + (self.coords.x as i64) * (terrain.size as i64)) as i32;
            let y: i32 = (row + (self.coords.y as i64) * (terrain.size as i64)) as i32;
            let height: i32 = terrain.heights[c];
            let ghost before = sites(terrain, draws@, c as int);
            if height > 0 && !discard_entities && c < draws.len() && draws[c].spawn == SPAWN_HIT {
                let draw = &draws[c];
                entities.push(
                    Entity::from(
                        c,
                        Coords::from((x, y)),
                        (0, 0),
                        EntityType::Human,
                        draw.stats,
                        Alignment { faction: faction, personality: draw.personality },
                        draw.name.clone(),
                        draw.gender,
                    ),
                );
                assert(sites(terrain, draws@, c + 1) == before.push(c as int));
            } else {
                assert(sites(terrain, draws@, c + 1) == before);
            }
            tiles.push(
                Tile::from(
                    Coords::from((x, y)),
                    c,
                    Size::from((TILE_SIZE as i32, TILE_SIZE as i32)),
                    height,
                    TileType::Grass,
                    None,
                ),
            );
            c += 1;
        }
        assert(tiles@ == tiles_of(self.coords, terrain));
        proof {
            lemma_sites(terrain, draws@, n as int);
        }
        Chunk { tiles: tiles, entities: entities, coords: self.coords, index: self.index }
    }

    /// Generates the chunk that stands where this one stands, on `terrain`,
    /// with one draw for each tile as the dice give it: the result is
    /// `generated`. Its tiles are those of the terrain whatever the dice give,
    /// and a chunk without a faction has no agents. This chunk is left as it
    /// was.
    pub fn gen(&mut self, terrain: &Terrain) -> (chunk: Chunk)
        requires
            terrain.wf(),
            terrain.fits(old(self).coords),
        ensures
            *final(self) == *old(self),
            chunk.generated(old(self).coords, old(self).index, terrain),
            chunk.coords == old(self).coords,
            chunk.index == old(self).index,
            chunk.tiles@ == tiles_of(old(self).coords, terrain),
            faction_of(terrain.faction_sample as int) == Faction::Empty ==> chunk.entities@.len() == 0,
    {
        let n = terrain.heights.len();
        let faction = terrain.faction();
        let mut draws: Vec<Draw> = Vec::new();
        if !faction.settles() {
            // nobody is born here, whatever the dice would give
            return self.gen_with(terrain, &draws);
        }
        let mut c: usize = 0;
        while c < n
            invariant
                c <= n,
                n == terrain.heights@.len(),
                draws@.len() == c,
                fair_draws(draws@, faction),
            decreases n - c,
        {
            draws.push(Draw::gen(faction));
            c += 1;
        }
        self.gen_with(terrain, &draws)
    }
}

/// The sites are exactly the tiles that spawn, in rising order: every site
/// is a tile among the first `upto` that spawns, a later site is a higher
/// tile, and no tile that spawns is left out.
pub proof fn lemma_sites(terrain: &Terrain, draws: Seq<Draw>, upto: int)
    ensures
        upto <= 0 ==> sites(terrain, draws, upto).len() == 0,
        upto >= 0 ==> sites(terrain, draws, upto).len() <= upto,
        forall|k: int|
            0 <= k < sites(terrain, draws, upto).len() ==> 0 <= #[trigger] sites(terrain, draws, upto)[k] < upto
                && spawns(terrain, draws, sites(terrain, draws, upto)[k]),
        forall|j: int, k: int|
            0 <= j < k < sites(terrain, draws, upto).len() ==> sites(terrain, draws, upto)[j] < sites(
                terrain,
                draws,
                upto,
            )[k],
        forall|c: int| 0 <= c < upto && spawns(terrain, draws, c) ==> sites(terrain, draws, upto).contains(c),
    decreases upto,
{
    if upto > 0 {
        let fewer = sites(terrain, draws, upto - 1);
        let all = sites(terrain, draws, upto);
        lemma_sites(terrain, draws, upto - 1);
        assert forall|k: int| 0 <= k < all.len() implies 0 <= #[trigger] all[k] < upto && spawns(
            terrain,
            draws,
            all[k],
        ) by {
            if k < fewer.len() {
                assert(all[k] == fewer[k]);
            }
        }
        assert forall|j: int, k: int| 0 <= j < k < all.len() implies all[j] < all[k] by {
            assert(all[j] == fewer[j]);
            if k < fewer.len() {
                assert(all[k] == fewer[k]);
            }
        }
        assert forall|c: int| 0 <= c < upto && spawns(terrain, draws, c) implies all.contains(c) by {
            if c < upto - 1 {
                let k = choose|k: int| 0 <= k < fewer.len() && fewer[k] == c;
                assert(all[k] == c);
            } else {
                assert(all[all.len() - 1] == c);
            }
        }
    }
}

/// A chunk without a faction has no sites: nobody is born in it, whatever
/// the heights and the draws.
pub proof fn lemma_no_sites_without_faction(terrain: &Terrain, draws: Seq<Draw>, upto: int)
    requires
        faction_of(terrain.faction_sample as int) == Faction::Empty,
    ensures
        sites(terrain, draws, upto).len() == 0,
    decreases upto,
{
    if upto > 0 {
        lemma_no_sites_without_faction(terrain, draws, upto - 1);
    }
}

/// Every agent of a generated chunk stands on a tile of the chunk whose
/// height is positive, carries that tile's number, and belongs to the
/// chunk's faction, which is not `Empty`. The agents stand in the order of
/// their tiles.
pub proof fn lemma_settlers_on_land(chunk: &Chunk, coords: Coords, index: usize, terrain: &Terrain, draws: Seq<Draw>)
    requires
        chunk.generated_from(coords, index, terrain, draws),
    ensures
        forall|k: int|
            0 <= k < chunk.entities@.len() ==> {
                let e = #[trigger] chunk.entities@[k];
                &&& e.index < chunk.tiles@.len()
                &&& chunk.tiles@[e.index as int].height > 0
                &&& chunk.tiles@[e.index as int].coords == e.coords
                &&& e.alignment.faction == faction_of(terrain.faction_sample as int)
                &&& e.alignment.faction != Faction::Empty
            },
        forall|j: int, k: int|
            0 <= j < k < chunk.entities@.len() ==> chunk.entities@[j].index < chunk.entities@[k].index,
{
    lemma_sites(terrain, draws, terrain.heights@.len() as int);
}

/// Generation repeats itself. Two chunks generated at the same place on the
/// same terrain have the same tiles, height by height, and the same faction,
/// whatever the draws were; under the same draws they also have the same
/// agents.
pub proof fn lemma_generation_repeats(
    a: &Chunk,
    b: &Chunk,
    coords: Coords,
    index: usize,
    terrain: &Terrain,
    draws_a: Seq<Draw>,
    draws_b: Seq<Draw>,
)
    requires
        a.generated_from(coords, index, terrain, draws_a),
        b.generated_from(coords, index, terrain, draws_b),
    ensures
        a.tiles@ == b.tiles@,
        a.coords == b.coords,
        a.index == b.index,
        forall|j: int, k: int|
            0 <= j < a.entities@.len() && 0 <= k < b.entities@.len() ==> (#[trigger] a.entities@[j]).alignment.faction
                == (#[trigger] b.entities@[k]).alignment.faction,
        draws_a == draws_b ==> a.entities@.len() == b.entities@.len() && forall|k: int|
            0 <= k < a.entities@.len() ==> (#[trigger] a.entities@[k]).mirrors(&b.entities@[k]),
{
}

} // verus!
