use baltia::chunk::Chunk;
use baltia::entity::{Entity, Stance, Status};
use baltia::geometry::Coords;

fn agent_at(index: usize, x: i32, y: i32) -> Entity {
    let mut e = Entity::new(index);
    e.coords = Coords::from((x, y));
    e.alignment.personality.aggression = 0;
    e
}

fn chunk_of(entities: Vec<Entity>) -> Chunk {
    Chunk::from(vec![], entities, Coords::new(), 0)
}

#[test]
fn starving_agent_with_one_health_is_clamped_to_zero() {
    let mut e = agent_at(0, 0, 0);
    e.stats.hunger = 0;
    e.stats.health = 1;
    e.resolve(1);
    assert_eq!(e.stats.health, 0);
    assert_eq!(e.stats.hunger, 0);
}

#[test]
fn starving_agent_with_one_health_is_removed_by_the_tick() {
    let mut e = agent_at(0, 0, 0);
    e.stats.hunger = 0;
    e.stats.health = 1;
    let mut witness = agent_at(1, 100, 100);
    witness.name = "Sten".to_string();
    let mut chunk = chunk_of(vec![e, witness]);
    chunk.tick(1, &vec![0, 0, 0, 0]);
    assert_eq!(chunk.entities.len(), 1);
    assert_eq!(chunk.entities[0].index, 1);
    assert_eq!(chunk.entities[0].name, "Sten");
}

#[test]
fn starvation_takes_two_points_of_health() {
    let mut e = agent_at(0, 0, 0);
    e.stats.hunger = 1;
    e.stats.health = 50;
    e.resolve(1);
    assert_eq!(e.stats.hunger, 0);
    assert_eq!(e.stats.health, 48);
    e.resolve(1);
    assert_eq!(e.stats.hunger, 0);
    assert_eq!(e.stats.health, 46);
}

#[test]
fn a_fed_agent_only_grows_hungrier() {
    let mut e = agent_at(0, 0, 0);
    e.resolve(1);
    assert_eq!(e.stats.hunger, 99);
    assert_eq!(e.stats.health, 100);
}

#[test]
fn negative_health_of_a_starving_agent_is_raised_to_zero() {
    let mut e = agent_at(0, 0, 0);
    e.stats.hunger = 0;
    e.stats.health = -7;
    e.resolve(1);
    assert_eq!(e.stats.health, 0);
}

#[test]
fn negative_health_of_a_fed_agent_stays() {
    let mut e = agent_at(0, 0, 0);
    e.stats.hunger = 5;
    e.stats.health = -7;
    e.resolve(1);
    assert_eq!(e.stats.health, -7);
    assert_eq!(e.stats.hunger, 4);
}

#[test]
fn an_agent_moves_by_velocity_times_steps() {
    let mut e = agent_at(0, 10, -10);
    e.vel = (3, -2);
    e.resolve(4);
    assert_eq!(e.coords, Coords::from((22, -18)));
}

#[test]
fn movement_stops_at_the_edge_of_the_range() {
    let mut e = agent_at(0, i32::MAX - 1, i32::MIN + 1);
    e.vel = (i32::MAX, i32::MIN);
    e.resolve(i32::MAX);
    assert_eq!(e.coords, Coords::from((i32::MAX, i32::MIN)));
}

#[test]
fn fighter_in_vicinity_hurts_and_provokes() {
    let mut fighter = agent_at(0, 0, 0);
    fighter.status = Status::Fighting;
    fighter.stats.strength = 10;
    let mut other = agent_at(1, 2, 1);
    other.alignment.personality.aggression = 30;
    let mut chunk = chunk_of(vec![fighter, other]);
    // meetings in order: (stance 0, agent 0), (stance 0, agent 1),
    // (stance 1, agent 0), (stance 1, agent 1)
    chunk.tick(1, &vec![0, 3, 9, 9]);
    assert_eq!(chunk.entities.len(), 2);
    assert_eq!(chunk.entities[1].stats.health, 70);
    assert_eq!(chunk.entities[1].status, Status::Fighting);
    assert_eq!(chunk.entities[1].stats.hunger, 99);
    // the fighter met itself with a roll of zero, and the other was idle
    // when the tick began
    assert_eq!(chunk.entities[0].stats.health, 100);
    assert_eq!(chunk.entities[0].status, Status::Fighting);
}

#[test]
fn a_meek_agent_is_hurt_but_does_not_fight() {
    let mut fighter = agent_at(0, 0, 0);
    fighter.status = Status::Fighting;
    fighter.stats.strength = 4;
    let mut other = agent_at(1, 0, 0);
    other.alignment.personality.aggression = 25;
    let mut chunk = chunk_of(vec![fighter, other]);
    chunk.tick(1, &vec![0, 5, 0, 0]);
    assert_eq!(chunk.entities[1].stats.health, 80);
    assert_eq!(chunk.entities[1].status, Status::Idle);
}

#[test]
fn a_fighter_out_of_reach_does_no_harm() {
    let mut fighter = agent_at(0, 0, 0);
    fighter.status = Status::Fighting;
    fighter.stats.strength = 10;
    // the other stands 20 away on one axis alone
    let mut other = agent_at(1, 20, 5);
    other.alignment.personality.aggression = 99;
    let mut chunk = chunk_of(vec![fighter, other]);
    chunk.tick(1, &vec![0, 9, 0, 0]);
    assert_eq!(chunk.entities[1].stats.health, 100);
    assert_eq!(chunk.entities[1].status, Status::Idle);
}

#[test]
fn the_tick_reacts_to_the_state_before_the_tick() {
    // Both agents are aggressive; only the first fights when the tick
    // begins. The second turns to fighting in the pass, but the first has met
    // its stance as it was: idle.
    let mut first = agent_at(0, 0, 0);
    first.status = Status::Fighting;
    first.stats.strength = 1;
    first.alignment.personality.aggression = 99;
    let mut second = agent_at(1, 0, 0);
    second.stats.strength = 7;
    second.alignment.personality.aggression = 99;
    let mut chunk = chunk_of(vec![first, second]);
    chunk.tick(1, &vec![2, 2, 2, 2]);
    assert_eq!(chunk.entities[0].stats.health, 98);
    assert_eq!(chunk.entities[1].stats.health, 98);
    assert_eq!(chunk.entities[1].status, Status::Fighting);
    // in the next tick the second one's stance is fighting
    chunk.tick(1, &vec![2, 2, 2, 2]);
    assert_eq!(chunk.entities[0].stats.health, 98 - 2 - 14);
    assert_eq!(chunk.entities[1].stats.health, 98 - 2 - 14);
}

#[test]
fn missing_rolls_count_as_zero() {
    let mut fighter = agent_at(0, 0, 0);
    fighter.status = Status::Fighting;
    fighter.stats.strength = 10;
    let other = agent_at(1, 0, 0);
    let mut chunk = chunk_of(vec![fighter, other]);
    chunk.tick(1, &vec![1]);
    assert_eq!(chunk.entities[0].stats.health, 90);
    assert_eq!(chunk.entities[1].stats.health, 100);
}

#[test]
fn health_stops_at_the_lowest_value() {
    let mut e = agent_at(0, 0, 0);
    e.stats.health = -100;
    let by = Stance { coords: Coords::new(), status: Status::Fighting, strength: 255 };
    e.face(&by, 255);
    assert_eq!(e.stats.health, i8::MIN);
}

#[test]
fn a_blow_is_strength_times_roll() {
    let mut e = agent_at(0, 0, 0);
    let by = Stance { coords: Coords::new(), status: Status::Fighting, strength: 7 };
    e.face(&by, 6);
    assert_eq!(e.stats.health, 58);
    let idle = Stance { coords: Coords::new(), status: Status::Idle, strength: 7 };
    e.face(&idle, 6);
    assert_eq!(e.stats.health, 58);
    let talking = Stance { coords: Coords::new(), status: Status::Talking, strength: 7 };
    e.face(&talking, 6);
    assert_eq!(e.stats.health, 58);
}

#[test]
fn resolve_against_rolls_below_ten() {
    for _ in 0..200 {
        let mut e = agent_at(0, 0, 0);
        let mut other = agent_at(1, 0, 0);
        other.status = Status::Fighting;
        other.stats.strength = 1;
        let copy = other.clone();
        e.resolve_against(&mut other, 1);
        assert!(e.stats.health > 90 && e.stats.health <= 100);
        assert_eq!(other, copy);
    }
}

#[test]
fn culling_keeps_the_living_in_order() {
    let mut pop = vec![];
    for (i, h) in [5i8, 0, -3, 1, 0, 100].iter().enumerate() {
        let mut e = agent_at(i, 0, 0);
        e.stats.health = *h;
        pop.push(e);
    }
    let mut chunk = chunk_of(pop);
    chunk.cull();
    let left: Vec<usize> = chunk.entities.iter().map(|e| e.index).collect();
    assert_eq!(left, vec![0, 3, 5]);
}

#[test]
fn no_dead_agent_survives_a_resolution() {
    let mut pop = vec![];
    for i in 0..12 {
        let mut e = agent_at(i, (i % 4) as i32, (i / 4) as i32);
        e.stats.health = 20;
        e.stats.strength = 9;
        e.stats.hunger = 1;
        e.alignment.personality.aggression = 50;
        if i % 3 == 0 {
            e.status = Status::Fighting;
        }
        pop.push(e);
    }
    let mut chunk = chunk_of(pop);
    chunk.resolve(3);
    assert!(chunk.entities.len() <= 12);
    for e in &chunk.entities {
        assert!(e.stats.health > 0);
        assert_eq!(e.stats.hunger, 0);
    }
}

#[test]
fn hunger_never_rises_across_a_tick() {
    let mut pop = vec![];
    for i in 0..5 {
        let mut e = agent_at(i, 0, 0);
        e.stats.hunger = i as u8;
        pop.push(e);
    }
    let mut chunk = chunk_of(pop);
    chunk.tick(1, &vec![]);
    assert_eq!(chunk.entities.len(), 5);
    let hungers: Vec<u8> = chunk.entities.iter().map(|e| e.stats.hunger).collect();
    assert_eq!(hungers, vec![0, 0, 1, 2, 3]);
}

#[test]
fn resolve_with_no_steps_changes_nothing() {
    let mut dead = agent_at(0, 0, 0);
    dead.stats.health = 0;
    let mut chunk = chunk_of(vec![dead, agent_at(1, 0, 0)]);
    let before = chunk.clone();
    chunk.resolve(0);
    assert_eq!(chunk, before);
    chunk.resolve(-4);
    assert_eq!(chunk, before);
    chunk.resolve_with(0, &vec![vec![1, 1, 1, 1]]);
    assert_eq!(chunk, before);
}

#[test]
fn resolve_with_runs_one_tick_per_step() {
    let mut fighter = agent_at(0, 0, 0);
    fighter.status = Status::Fighting;
    fighter.stats.strength = 10;
    let other = agent_at(1, 1, 1);
    let mut chunk = chunk_of(vec![fighter, other]);
    let mut twin = chunk.clone();
    let rolls = vec![vec![1, 2, 0, 0], vec![3, 4, 0, 0]];
    chunk.resolve_with(2, &rolls);
    twin.tick(2, &rolls[0]);
    twin.tick(2, &rolls[1]);
    assert_eq!(chunk, twin);
    assert_eq!(chunk.entities[0].stats.health, 100 - 10 - 30);
    assert_eq!(chunk.entities[1].stats.health, 100 - 20 - 40);
    assert_eq!(chunk.entities[0].stats.hunger, 98);
}

#[test]
fn cast_gives_one_roll_for_each_pair() {
    let chunk = chunk_of(vec![agent_at(0, 0, 0), agent_at(1, 0, 0), agent_at(2, 0, 0)]);
    let rolls = chunk.cast();
    assert_eq!(rolls.len(), 9);
    assert!(rolls.iter().all(|r| *r < 10));
}

#[test]
fn stance_shows_place_status_and_strength() {
    let mut e = agent_at(3, 4, 5);
    e.status = Status::Talking;
    e.stats.strength = 8;
    assert_eq!(
        e.stance(),
        Stance { coords: Coords::from((4, 5)), status: Status::Talking, strength: 8 }
    );
}

#[test]
fn an_agent_five_away_is_left_alone() {
    for _ in 0..50 {
        let mut e = agent_at(0, 5, 0);
        e.alignment.personality.aggression = 30;
        let mut other = agent_at(1, 0, 0);
        other.status = Status::Fighting;
        other.stats.strength = 0;
        let before = e.clone();
        e.resolve_against(&mut other, 1);
        assert_eq!(e, before);
        assert_eq!(e.status, Status::Idle);
        assert_eq!(e.stats.health, 100);
    }
}

#[test]
fn a_fighter_far_away_does_no_harm_either_way_round() {
    let mut e = agent_at(0, 0, 0);
    e.alignment.personality.aggression = 99;
    let by = Stance { coords: Coords::from((1000, 0)), status: Status::Fighting, strength: 10 };
    e.face(&by, 5);
    assert_eq!(e.stats.health, 100);
    assert_eq!(e.status, Status::Idle);
    let mut f = agent_at(1, 1000, 0);
    let origin = Stance { coords: Coords::new(), status: Status::Fighting, strength: 10 };
    f.face(&origin, 5);
    assert_eq!(f.stats.health, 100);
}

#[test]
fn the_reach_of_a_blow_is_the_vicinity() {
    let origin = Stance { coords: Coords::new(), status: Status::Fighting, strength: 1 };
    let reached = [(0, 0), (4, 0), (-4, 0), (0, 4), (0, -4), (3, 2), (-2, 3), (2, -3), (1, 1)];
    for (x, y) in reached {
        let mut e = agent_at(0, x, y);
        e.face(&origin, 9);
        assert_eq!(e.stats.health, 91);
    }
    let spared = [(5, 0), (-5, 0), (0, 5), (3, 3), (-3, 3), (4, 1), (1, -4), (4, 4), (100, 100)];
    for (x, y) in spared {
        let mut e = agent_at(0, x, y);
        e.alignment.personality.aggression = 99;
        e.face(&origin, 9);
        assert_eq!(e.stats.health, 100);
        assert_eq!(e.status, Status::Idle);
    }
}

#[test]
fn an_agent_does_not_fight_back_at_an_idle_neighbour() {
    let mut e = agent_at(0, 0, 0);
    e.alignment.personality.aggression = 99;
    let mut other = agent_at(1, 0, 0);
    other.stats.strength = 10;
    e.resolve_against(&mut other, 1);
    assert_eq!(e.stats.health, 100);
    assert_eq!(e.status, Status::Idle);
    other.status = Status::Talking;
    e.resolve_against(&mut other, 1);
    assert_eq!(e.stats.health, 100);
    assert_eq!(e.status, Status::Idle);
}
