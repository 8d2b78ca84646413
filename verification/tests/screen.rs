use baltia::chunk::Chunk;
use baltia::entity::{Entity, Item};
use baltia::faction::Faction;
use baltia::generator::Terrain;
use baltia::geometry::Coords;
use baltia::renderer::{Camera, Input, Reaction, Screen};
use baltia::util::{part_span, snapshot, Pace};
use baltia::world::World;

fn ground(x: i32, y: i32, index: usize, side: u32) -> Chunk {
    let terrain = Terrain::new(side, -1, vec![1; (side * side) as usize]).unwrap();
    let mut site = Chunk::from(vec![], vec![], Coords::from((x, y)), index);
    site.gen(&terrain)
}

fn member(faction: Faction) -> Entity {
    let mut e = Entity::new(0);
    e.alignment.faction = faction;
    e
}

fn crowd(factions: &[Faction]) -> Chunk {
    Chunk::from(vec![], factions.iter().map(|f| member(*f)).collect(), Coords::new(), 0)
}

#[test]
fn a_new_screen_shows_the_bare_world() {
    let s = Screen::new();
    assert_eq!(s.camera, Camera::new());
    assert!(!s.factions);
    assert!(!s.news);
    assert!(!s.trigger_refresh);
}

#[test]
fn zoom_keys_change_the_zoom_by_one() {
    let mut s = Screen::new();
    assert_eq!(s.react(&Input::ZoomIn), Reaction::Go);
    assert_eq!(s.camera.zoom, 2);
    assert_eq!(s.react(&Input::ZoomOut), Reaction::Go);
    assert_eq!(s.react(&Input::ZoomOut), Reaction::Go);
    assert_eq!(s.camera.zoom, 0);
    assert!(!s.trigger_refresh);
    s.camera.zoom = i32::MAX;
    s.react(&Input::ZoomIn);
    assert_eq!(s.camera.zoom, i32::MAX);
    s.camera.zoom = i32::MIN;
    s.react(&Input::ZoomOut);
    assert_eq!(s.camera.zoom, i32::MIN);
}

#[test]
fn arrow_keys_move_the_camera_and_ask_for_a_wipe() {
    let mut s = Screen::new();
    assert_eq!(s.react(&Input::Left), Reaction::Go);
    assert_eq!(s.camera.coords, Coords::from((32, 0)));
    assert!(s.trigger_refresh);
    assert!(s.take_refresh());
    assert!(!s.trigger_refresh);
    assert!(!s.take_refresh());
    s.react(&Input::Right);
    s.react(&Input::Right);
    assert_eq!(s.camera.coords, Coords::from((-32, 0)));
    s.react(&Input::Up);
    assert_eq!(s.camera.coords, Coords::from((-32, 32)));
    s.react(&Input::Down);
    s.react(&Input::Down);
    assert_eq!(s.camera.coords, Coords::from((-32, -32)));
    assert!(s.trigger_refresh);
    s.camera.coords = Coords::from((i32::MAX - 5, i32::MIN + 5));
    s.react(&Input::Left);
    s.react(&Input::Down);
    assert_eq!(s.camera.coords, Coords::from((i32::MAX, i32::MIN)));
}

#[test]
fn overlay_keys_switch_their_overlay() {
    let mut s = Screen::new();
    assert_eq!(s.react(&Input::Factions), Reaction::Go);
    assert!(s.factions && !s.news);
    assert_eq!(s.react(&Input::News), Reaction::Clear);
    assert!(s.factions && s.news);
    assert_eq!(s.react(&Input::Factions), Reaction::Go);
    assert_eq!(s.react(&Input::News), Reaction::Clear);
    assert!(!s.factions && !s.news);
    assert!(!s.trigger_refresh);
}

#[test]
fn a_new_window_size_becomes_the_render_distance() {
    let mut s = Screen::new();
    let r = s.react(&Input::Resized { width: 800, height: 600 });
    assert_eq!(r, Reaction::Resize { width: 800, height: 600 });
    assert_eq!(s.camera.render_distance_w, 800);
    assert_eq!(s.camera.render_distance_h, 600);
    assert_eq!(s.camera.coords, Coords::new());
}

#[test]
fn quitting_and_other_inputs_leave_the_screen_alone() {
    let mut s = Screen::new();
    assert_eq!(s.react(&Input::Quit), Reaction::Stop);
    assert_eq!(s, Screen::new());
    assert_eq!(s.react(&Input::Other), Reaction::Go);
    assert_eq!(s, Screen::new());
}

#[test]
fn the_camera_sees_chunks_by_their_corner_tiles() {
    let camera = Camera::new();
    // tiles from (0, 0) to (127, 127)
    assert!(camera.shows(&ground(0, 0, 0, 128)));
    // the last tile lies at x = 1279 + 128 - 1 ... within 1240 + 128
    assert!(camera.shows(&ground(9, 0, 9, 128)));
    // the last tile lies at x = 1407, beyond 1368
    assert!(!camera.shows(&ground(10, 0, 10, 128)));
    // the last tile lies at y = 767 <= 760 + 128
    assert!(camera.shows(&ground(0, 5, 80, 128)));
    assert!(!camera.shows(&ground(0, 6, 96, 128)));
    assert!(!camera.shows(&ground(-1, 0, 0, 128)));
    assert!(!camera.shows(&ground(0, -1, 0, 128)));
    assert!(!camera.shows(&Chunk::new()));
    let mut moved = Camera::new();
    moved.coords = Coords::from((1, 0));
    assert!(!moved.shows(&ground(0, 0, 0, 128)));
    moved.coords = Coords::from((-128, -128));
    assert!(moved.shows(&ground(-1, -1, 0, 128)));
}

#[test]
fn the_camera_covers_a_window_of_chunks() {
    let mut camera = Camera::new();
    assert!(camera.frames(&Coords::from((0, 0))));
    assert!(camera.frames(&Coords::from((158720, 97280))));
    assert!(!camera.frames(&Coords::from((158721, 0))));
    assert!(!camera.frames(&Coords::from((0, 97281))));
    assert!(!camera.frames(&Coords::from((-1, 0))));
    assert!(!camera.frames(&Coords::from((0, -1))));
    camera.zoom = 0;
    assert!(camera.frames(&Coords::from((-5, 999999))));
    // with the zoom turned round the far edge lies on the wrong side
    camera.zoom = -1;
    assert!(!camera.frames(&Coords::from((1, 0))));
    assert!(!camera.frames(&Coords::from((0, 0))));
    camera.zoom = i32::MAX;
    camera.ccoords = Coords::from((i32::MAX, i32::MAX));
    assert!(camera.frames(&Coords::from((i32::MAX, i32::MAX))));
    assert!(!camera.frames(&Coords::from((i32::MAX - 1, i32::MAX))));
}

#[test]
fn the_largest_faction_leads() {
    assert_eq!(crowd(&[]).dominant_faction(), Faction::Empty);
    assert_eq!(crowd(&[Faction::Tapiola]).dominant_faction(), Faction::Tapiola);
    assert_eq!(
        crowd(&[Faction::Tapiola, Faction::Novgorod, Faction::Novgorod]).dominant_faction(),
        Faction::Novgorod
    );
    assert_eq!(
        crowd(&[Faction::Hiisi, Faction::Virumaa, Faction::Virumaa, Faction::Hiisi, Faction::Hiisi])
            .dominant_faction(),
        Faction::Hiisi
    );
    assert_eq!(
        crowd(&[Faction::Empty, Faction::Empty, Faction::Kalevala]).dominant_faction(),
        Faction::Empty
    );
}

#[test]
fn a_tie_between_factions_goes_to_the_earlier_one() {
    assert_eq!(crowd(&[Faction::Novgorod, Faction::Hiisi]).dominant_faction(), Faction::Hiisi);
    assert_eq!(
        crowd(&[Faction::Kalevala, Faction::Pohjola, Faction::Pohjola, Faction::Kalevala])
            .dominant_faction(),
        Faction::Pohjola
    );
    assert_eq!(
        crowd(&[Faction::Novgorod, Faction::Kalevala, Faction::Tapiola]).dominant_faction(),
        Faction::Tapiola
    );
    assert_eq!(crowd(&[Faction::Virumaa, Faction::Empty]).dominant_faction(), Faction::Empty);
}

#[test]
fn parts_cut_the_world_into_sixteenths() {
    assert_eq!(part_span(256, 0), (0, 16));
    assert_eq!(part_span(256, 1), (16, 32));
    assert_eq!(part_span(256, 15), (240, 256));
    assert_eq!(part_span(256, 16), (256, 256));
    assert_eq!(part_span(256, usize::MAX), (256, 256));
    assert_eq!(part_span(40, 3), (6, 8));
    assert_eq!(part_span(40, 19), (38, 40));
    assert_eq!(part_span(40, 20), (40, 40));
    assert_eq!(part_span(15, 7), (0, 0));
    assert_eq!(part_span(0, 0), (0, 0));
}

#[test]
fn a_frame_holds_the_seen_chunks_of_its_part() {
    let mut chunks = vec![];
    for c in 0..32usize {
        let mut chunk = ground((c % 16) as i32, (c / 16) as i32, c, 128);
        let mut rich = Entity::new(c);
        rich.inventory.set(Item::Coin, if c % 2 == 0 { 50 } else { 1 });
        chunk.entities.push(rich);
        chunks.push(chunk);
    }
    let world = World::from(chunks);
    let camera = Camera::new();
    // part 0 holds chunks 0 and 1, part 4 chunks 8 and 9, part 5 chunks 10 and 11
    let first = snapshot(&world, &camera, 0);
    assert_eq!(first.len(), 2);
    assert_eq!(first[0].chunk, world.chunks[0]);
    assert_eq!(first[1].chunk, world.chunks[1]);
    assert_eq!(first[0].news.newscast, vec!["news ".to_string()]);
    assert_eq!(
        first[1].news.newscast,
        vec!["news ".to_string(), "absolute poorness in region x\n".to_string()]
    );
    let fifth = snapshot(&world, &camera, 4);
    assert_eq!(fifth.len(), 2);
    assert_eq!(fifth[0].chunk.index, 8);
    assert_eq!(fifth[1].chunk.index, 9);
    // chunks 10 and 11 lie beyond the render distance
    let sixth = snapshot(&world, &camera, 5);
    assert_eq!(sixth.len(), 0);
    let beyond = snapshot(&world, &camera, 16);
    assert_eq!(beyond.len(), 0);
}

#[test]
fn news_gather_over_the_chunks_of_a_frame() {
    let mut chunks = vec![];
    for c in 0..48usize {
        chunks.push(ground((c % 8) as i32, 0, c, 128));
    }
    let world = World::from(chunks);
    let camera = Camera::new();
    // part 1 holds chunks 3, 4 and 5, all seen and all poor
    let frame = snapshot(&world, &camera, 1);
    assert_eq!(frame.len(), 3);
    for (k, msg) in frame.iter().enumerate() {
        assert_eq!(msg.chunk.index, 3 + k);
        assert_eq!(msg.news.newscast.len(), 2 + k);
        assert_eq!(msg.news.newscast[0], "news ");
        for line in &msg.news.newscast[1..] {
            assert_eq!(line, "absolute poorness in region x\n");
        }
    }
}

#[test]
fn the_world_is_due_once_every_part_was_shown() {
    let mut pace = Pace::new();
    assert_eq!(pace, Pace { partition: 0, step: 0, step_increment: 1 });
    let mut due = 0;
    for frame in 0..64 {
        if pace.begin_frame() {
            due += 1;
            assert_eq!(frame % 16, 0);
            assert_eq!(pace.partition, 0);
        }
        assert_eq!(pace.partition, frame % 16);
        pace.end_frame();
        assert_eq!(pace.step, frame as i32 + 1);
    }
    assert_eq!(due, 3);
}

#[test]
fn the_count_of_steps_stops_at_the_end_of_its_range() {
    let mut pace = Pace { partition: usize::MAX, step: i32::MAX - 1, step_increment: 5 };
    pace.end_frame();
    assert_eq!(pace, Pace { partition: usize::MAX, step: i32::MAX, step_increment: 5 });
    assert!(pace.begin_frame());
    assert_eq!(pace.partition, 0);
    let mut back = Pace { partition: 3, step: i32::MIN + 1, step_increment: -5 };
    back.end_frame();
    assert_eq!(back, Pace { partition: 4, step: i32::MIN, step_increment: -5 });
    assert!(!back.begin_frame());
    assert_eq!(back.partition, 4);
}

#[test]
fn snapshots_are_equal_to_their_chunks() {
    let mut chunk = ground(1, 1, 5, 4);
    let mut e = Entity::new(2);
    e.name = "Maris".to_string();
    e.inventory.set(Item::Bread, 3);
    chunk.entities.push(e.clone());
    chunk.tiles[0].holds = Some(e);
    let copy = chunk.clone();
    assert_eq!(copy, chunk);
    assert_eq!(copy.tiles[0].holds, chunk.tiles[0].holds);
}
