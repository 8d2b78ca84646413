use baltia::chunk::Chunk;
use baltia::entity::{EntityType, Gender, Personality, Stats, Status, Tasks};
use baltia::faction::Faction;
use baltia::generator::{octave_seeds, Draw, Terrain};
use baltia::geometry::{Coords, Size};
use baltia::tile::TileType;

fn blank_draw(spawn: u8) -> Draw {
    Draw {
        spawn,
        gender: Gender::Male,
        stats: Stats { health: 100, hunger: 100, strength: 1, intelligence: 2, agility: 3 },
        personality: Personality { aggression: 40 },
        name: "Hans".to_string(),
    }
}

fn site_at(x: i32, y: i32, index: usize) -> Chunk {
    Chunk::from(vec![], vec![], Coords::from((x, y)), index)
}

#[test]
fn forced_spawn_on_the_first_tile_of_a_small_chunk() {
    let terrain = Terrain::new(2, 50, vec![3, 1, 2, 7]).unwrap();
    assert_eq!(terrain.faction(), Faction::Novgorod);
    let mut draws = vec![];
    for c in 0..4 {
        let mut d = Draw::gen(terrain.faction());
        d.spawn = if c == 0 { 1 } else { 0 };
        draws.push(d);
    }
    let mut site = site_at(3, 5, 11);
    let chunk = site.gen_with(&terrain, &draws);
    assert_eq!(chunk.entities.len(), 1);
    let e = &chunk.entities[0];
    assert_eq!(e.index, 0);
    assert_eq!(e.coords, Coords::from((6, 10)));
    assert_eq!(e.coords, chunk.tiles[0].coords);
    assert_eq!(e.stats.health, 100);
    assert_eq!(e.stats.hunger, 100);
    assert!(e.stats.strength < 10);
    assert!(e.stats.intelligence < 10);
    assert!(e.stats.agility < 10);
    assert_eq!(e.alignment.faction, Faction::Novgorod);
    assert!(e.alignment.personality.aggression < 100);
    assert_eq!(e.status, Status::Idle);
    assert_eq!(e.vel, (0, 0));
    assert_eq!(e.etype, EntityType::Human);
    assert_eq!(e.tasks, Tasks::new());
    assert_eq!(e.inventory.get_coins(), 0);
    assert_eq!(e.name, draws[0].name);
    assert_eq!(e.gender, draws[0].gender);
    assert_eq!(e.stats, draws[0].stats);
}

#[test]
fn tiles_lie_row_by_row_at_world_positions() {
    let terrain = Terrain::new(2, 0, vec![3, -1, 0, 7]).unwrap();
    let mut site = site_at(-1, 4, 9);
    let chunk = site.gen_with(&terrain, &vec![]);
    assert_eq!(chunk.coords, Coords::from((-1, 4)));
    assert_eq!(chunk.index, 9);
    assert_eq!(chunk.tiles.len(), 4);
    let places: Vec<(i32, i32)> = chunk.tiles.iter().map(|t| (t.coords.x, t.coords.y)).collect();
    assert_eq!(places, vec![(-2, 8), (-1, 8), (-2, 9), (-1, 9)]);
    let heights: Vec<i32> = chunk.tiles.iter().map(|t| t.height).collect();
    assert_eq!(heights, vec![3, -1, 0, 7]);
    for (c, t) in chunk.tiles.iter().enumerate() {
        assert_eq!(t.index, c);
        assert_eq!(t.size, Size::from((1, 1)));
        assert_eq!(t.ttype, TileType::Grass);
        assert_eq!(t.holds, None);
        assert_eq!(t.designed, None);
    }
    assert_eq!(site, site_at(-1, 4, 9));
}

#[test]
fn only_positive_heights_spawn() {
    let terrain = Terrain::new(3, 599, vec![1, 0, -1, 5, 0, 2, -7, 9, 0]).unwrap();
    let draws: Vec<Draw> = (0..9).map(|_| blank_draw(1)).collect();
    let mut site = site_at(0, 0, 0);
    let chunk = site.gen_with(&terrain, &draws);
    let born: Vec<usize> = chunk.entities.iter().map(|e| e.index).collect();
    assert_eq!(born, vec![0, 3, 5, 7]);
    for e in &chunk.entities {
        assert!(chunk.tiles[e.index].height > 0);
        assert_eq!(chunk.tiles[e.index].coords, e.coords);
        assert_eq!(e.alignment.faction, Faction::Hiisi);
        assert_eq!(e.alignment.personality.aggression, 40);
        assert_eq!(e.name, "Hans");
    }
}

#[test]
fn only_the_spawn_hit_spawns() {
    let terrain = Terrain::new(2, 100, vec![1, 1, 1, 1]).unwrap();
    let draws = vec![blank_draw(0), blank_draw(1), blank_draw(2), blank_draw(31)];
    let mut site = site_at(0, 0, 0);
    let chunk = site.gen_with(&terrain, &draws);
    let born: Vec<usize> = chunk.entities.iter().map(|e| e.index).collect();
    assert_eq!(born, vec![1]);
}

#[test]
fn a_tile_without_a_draw_bears_nobody() {
    let terrain = Terrain::new(2, 100, vec![1, 1, 1, 1]).unwrap();
    let draws = vec![blank_draw(1), blank_draw(1)];
    let mut site = site_at(0, 0, 0);
    let chunk = site.gen_with(&terrain, &draws);
    let born: Vec<usize> = chunk.entities.iter().map(|e| e.index).collect();
    assert_eq!(born, vec![0, 1]);
}

#[test]
fn an_empty_chunk_spawns_nobody_but_has_its_terrain() {
    for sample in [-1, 600, 601, 1200, -1200, i32::MAX, i32::MIN] {
        let terrain = Terrain::new(2, sample, vec![5, 5, 5, 5]).unwrap();
        assert_eq!(terrain.faction(), Faction::Empty);
        let draws: Vec<Draw> = (0..4).map(|_| blank_draw(1)).collect();
        let mut site = site_at(1, 1, 3);
        let chunk = site.gen_with(&terrain, &draws);
        assert_eq!(chunk.entities.len(), 0);
        assert_eq!(chunk.tiles.len(), 4);
        let random = site.gen(&terrain);
        assert_eq!(random.entities.len(), 0);
        assert_eq!(random.tiles, chunk.tiles);
    }
}

#[test]
fn generation_repeats_itself() {
    let heights: Vec<i32> = (0..64).map(|c| (c % 7) - 2).collect();
    let terrain = Terrain::new(8, 250, heights).unwrap();
    let draws: Vec<Draw> = (0..64).map(|_| Draw::gen(terrain.faction())).collect();
    let mut site = site_at(2, 3, 50);
    let a = site.gen_with(&terrain, &draws);
    let b = site.gen_with(&terrain, &draws);
    assert_eq!(a, b);
    // whatever the dice give, the tiles and the faction are the same
    let c = site.gen(&terrain);
    let d = site.gen(&terrain);
    assert_eq!(c.tiles, a.tiles);
    assert_eq!(d.tiles, a.tiles);
    for e in c.entities.iter().chain(d.entities.iter()) {
        assert_eq!(e.alignment.faction, Faction::Kalevala);
        assert!(chunk_height(&c, e.index) > 0);
    }
}

fn chunk_height(chunk: &Chunk, index: usize) -> i32 {
    chunk.fetch_tile(index).height
}

#[test]
fn generated_agents_are_newborn() {
    let terrain = Terrain::new(16, 450, vec![4; 256]).unwrap();
    let mut site = site_at(0, 0, 0);
    let mut born = 0;
    for _ in 0..20 {
        let chunk = site.gen(&terrain);
        assert_eq!(chunk.tiles.len(), 256);
        let mut last = None;
        for e in &chunk.entities {
            assert!(last < Some(e.index));
            last = Some(e.index);
            assert_eq!(e.coords, Coords::from(((e.index % 16) as i32, (e.index / 16) as i32)));
            assert_eq!(e.stats.health, 100);
            assert_eq!(e.stats.hunger, 100);
            assert!(e.stats.strength < 10 && e.stats.intelligence < 10 && e.stats.agility < 10);
            assert_eq!(e.alignment.faction, Faction::Pohjola);
            assert!(e.alignment.personality.aggression < 100);
            assert!(e.gender == Gender::Male || e.gender == Gender::Female);
            let table: &[&str] = if e.gender == Gender::Female {
                &["Kirsika", "Markus", "Annika", "Maris"]
            } else {
                &["Hans", "Sten", "Markus", "Maris", "Karl"]
            };
            assert!(table.contains(&e.name.as_str()));
            assert_eq!(e.status, Status::Idle);
            born += 1;
        }
    }
    // 5120 tiles at odds of one in 32: the dice do make agents
    assert!(born > 0);
    assert!(born < 5120);
}

#[test]
fn drawn_draws_are_fair() {
    let mut hits = 0;
    for _ in 0..2000 {
        let d = Draw::gen(Faction::Tapiola);
        assert!(d.spawn < 32);
        if d.spawn == 1 {
            hits += 1;
        }
        assert!(d.stats.strength < 10);
        assert!(d.personality.aggression < 100);
        assert!(d.gender != Gender::Other);
    }
    assert!(hits > 0 && hits < 2000);
}

#[test]
fn factions_by_sample() {
    assert_eq!(Faction::classify(-1), Faction::Empty);
    assert_eq!(Faction::classify(0), Faction::Novgorod);
    assert_eq!(Faction::classify(99), Faction::Novgorod);
    assert_eq!(Faction::classify(100), Faction::Virumaa);
    assert_eq!(Faction::classify(199), Faction::Virumaa);
    assert_eq!(Faction::classify(200), Faction::Kalevala);
    assert_eq!(Faction::classify(299), Faction::Kalevala);
    assert_eq!(Faction::classify(300), Faction::Tapiola);
    assert_eq!(Faction::classify(399), Faction::Tapiola);
    assert_eq!(Faction::classify(400), Faction::Pohjola);
    assert_eq!(Faction::classify(499), Faction::Pohjola);
    assert_eq!(Faction::classify(500), Faction::Hiisi);
    assert_eq!(Faction::classify(599), Faction::Hiisi);
    assert_eq!(Faction::classify(600), Faction::Empty);
    assert_eq!(Faction::classify(1200), Faction::Empty);
    assert_eq!(Faction::classify(i32::MIN), Faction::Empty);
    assert_eq!(Faction::classify(i32::MAX), Faction::Empty);
}

#[test]
fn every_sample_has_exactly_one_faction() {
    let named = [
        Faction::Novgorod,
        Faction::Virumaa,
        Faction::Kalevala,
        Faction::Tapiola,
        Faction::Pohjola,
        Faction::Hiisi,
    ];
    for sample in -1300..1300 {
        let f = Faction::classify(sample);
        if (0..600).contains(&sample) {
            assert_eq!(f, named[(sample / 100) as usize]);
            assert!(f.settles());
        } else {
            assert_eq!(f, Faction::Empty);
            assert!(!f.settles());
        }
    }
}

#[test]
fn terrain_needs_a_height_for_each_tile() {
    assert!(Terrain::new(2, 0, vec![0; 4]).is_some());
    assert!(Terrain::new(2, 0, vec![0; 3]).is_none());
    assert!(Terrain::new(2, 0, vec![0; 5]).is_none());
    assert!(Terrain::new(0, 0, vec![]).is_some());
    assert!(Terrain::new(0, 0, vec![1]).is_none());
    let t = Terrain::new(3, -20, vec![7; 9]).unwrap();
    assert_eq!(t.size, 3);
    assert_eq!(t.faction_sample, -20);
    assert_eq!(t.heights, vec![7; 9]);
    assert!(t.is_wf());
    let bad = Terrain { size: 3, faction_sample: 0, heights: vec![0; 8] };
    assert!(!bad.is_wf());
}

#[test]
fn terrain_must_fit_the_range_of_positions() {
    let t = Terrain::new(128, 0, vec![0; 128 * 128]).unwrap();
    assert!(t.frames(&Coords::from((0, 0))));
    assert!(t.frames(&Coords::from((15, 15))));
    // 16777215 * 128 + 127 is the largest position there is
    assert!(t.frames(&Coords::from((16777215, 0))));
    assert!(!t.frames(&Coords::from((16777216, 0))));
    assert!(!t.frames(&Coords::from((0, 16777216))));
    assert!(t.frames(&Coords::from((-16777216, -16777216))));
    assert!(!t.frames(&Coords::from((-16777217, 0))));
    let none = Terrain::new(0, 0, vec![]).unwrap();
    assert!(none.frames(&Coords::from((i32::MAX, i32::MIN))));
}

#[test]
fn a_chunk_at_the_edge_of_the_range() {
    let t = Terrain::new(2, 0, vec![1, 2, 3, 4]).unwrap();
    let at = Coords::from((1073741823, -1073741824));
    assert!(t.frames(&at));
    let mut site = Chunk::from(vec![], vec![], at, 0);
    let chunk = site.gen_with(&t, &vec![blank_draw(1), blank_draw(1), blank_draw(1), blank_draw(1)]);
    assert_eq!(chunk.tiles[3].coords, Coords::from((i32::MAX, i32::MIN + 1)));
    assert_eq!(chunk.tiles[0].coords, Coords::from((i32::MAX - 1, i32::MIN)));
    assert_eq!(chunk.entities[3].coords, Coords::from((i32::MAX, i32::MIN + 1)));
}

#[test]
fn an_empty_terrain_gives_an_empty_chunk() {
    let t = Terrain::new(0, 10, vec![]).unwrap();
    let mut site = site_at(5, 5, 5);
    let chunk = site.gen(&t);
    assert_eq!(chunk.tiles.len(), 0);
    assert_eq!(chunk.entities.len(), 0);
    assert_eq!(chunk.coords, Coords::from((5, 5)));
    assert_eq!(chunk.index, 5);
}

#[test]
fn terrains_and_draws_can_be_copied() {
    let t = Terrain::new(2, 77, vec![1, 2, 3, 4]).unwrap();
    assert_eq!(t.clone(), t);
    let d = blank_draw(5);
    assert_eq!(d.clone(), d);
}

#[test]
fn the_octaves_take_the_seed_and_the_two_that_follow() {
    assert_eq!(octave_seeds(0), (0, 1, 2));
    assert_eq!(octave_seeds(999), (999, 1000, 1001));
    assert_eq!(octave_seeds(u32::MAX - 2), (u32::MAX - 2, u32::MAX - 1, u32::MAX));
}

#[test]
fn the_octaves_of_the_largest_seeds_start_over() {
    assert_eq!(octave_seeds(u32::MAX - 1), (u32::MAX - 1, u32::MAX, 0));
    assert_eq!(octave_seeds(u32::MAX), (u32::MAX, 0, 1));
}
