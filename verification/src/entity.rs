//! Agents: what they are made of, how they are born, and how one of them
//! fares in a tick of the simulation.

use crate::config::VICINITY_DIST;
use crate::dice::{draw_below, pick};
use crate::faction::Faction;
use crate::geometry::Coords;
use crate::math::{
    clamp_i32, dist_spec, lemma_dist_symmetric, lemma_dist_within, lemma_product_bounded,
    saturate_i32, within, within_spec,
};
use std::collections::HashMap;
use vstd::prelude::*;

verus! {

broadcast use vstd::std_specs::hash::group_hash_axioms;

/// The weight an agent gives to one kind of work, and whether it takes that
/// work at all.
#[derive(Clone, Copy, Debug, PartialEq, Eq)]
pub struct Tasks {
    pub build: (u8, bool),
    pub fight: (u8, bool),
    pub animal_husbandry: (u8, bool),
    pub industry: (u8, bool),
    pub farm: (u8, bool),
    pub oil_rig: (u8, bool),
}

impl Tasks {
    /// The weights an agent starts with: all work allowed, building first.
    pub open spec fn initial() -> Tasks {
        Tasks {
            build: (1, true),
            fight: (0, true),
            animal_husbandry: (0, true),
            industry: (0, true),
            farm: (0, true),
            oil_rig: (0, true),
        }
    }

    /// The weights an agent starts with.
    pub fn new() -> (r: Tasks)
        ensures
            r == Tasks::initial(),
    {
        Tasks {
            build: (1, true),
            fight: (0, true),
            animal_husbandry: (0, true),
            industry: (0, true),
            farm: (0, true),
            oil_rig: (0, true),
        }
    }
}

/// The gender of an agent.
#[derive(Clone, Copy, Debug, PartialEq, Eq, Structural)]
pub enum Gender {
    Male,
    Female,
    Other,
}

/// The names given to women.
pub open spec fn human_names_f() -> Seq<Seq<char>> {
    seq!["Kirsika"@, "Markus"@, "Annika"@, "Maris"@]
}

/// The names given to men.
pub open spec fn human_names_m() -> Seq<Seq<char>> {
    seq!["Hans"@, "Sten"@, "Markus"@, "Maris"@, "Karl"@]
}

/// The names from which an agent of the given faction and gender gets its
/// own. All factions share the human names; women have their table, everyone
/// else is named from the men's.
pub open spec fn name_table(faction: Faction, gender: Gender) -> Seq<Seq<char>> {
    match gender {
        Gender::Female => human_names_f(),
        Gender::Male | Gender::Other => human_names_m(),
    }
}

/// The genders an agent can be born with.
pub open spec fn birth_genders() -> Seq<Gender> {
    seq![Gender::Male, Gender::Female]
}

/// The name table as strings.
pub fn human_names(faction: Faction, gender: &Gender) -> (names: Vec<String>)
    ensures
        names@.len() == name_table(faction, *gender).len(),
        forall|i: int| 0 <= i < names@.len() ==> (#[trigger] names@[i])@ == name_table(faction, *gender)[i],
{
    let mut names: Vec<String> = Vec::new();
    match gender {
        Gender::Female => {
            names.push("Kirsika".to_string());
            names.push("Markus".to_string());
            names.push("Annika".to_string());
            names.push("Maris".to_string());
        },
        Gender::Male | Gender::Other => {
            names.push("Hans".to_string());
            names.push("Sten".to_string());
            names.push("Markus".to_string());
            names.push("Maris".to_string());
            names.push("Karl".to_string());
        },
    }
    names
}

/// The genders an agent can be born with, as a list to pick from.
pub fn genders() -> (list: Vec<Gender>)
    ensures
        list@ == birth_genders(),
{
    let mut list: Vec<Gender> = Vec::new();
    list.push(Gender::Male);
    list.push(Gender::Female);
    list
}

/// Picks a gender for a newborn: one of `birth_genders`, whichever the dice
/// give.
pub fn gen_gender() -> (gender: Gender)
    ensures
        birth_genders().contains(gender),
{
    let list = genders();
    // the list is not empty, so the dice pick one of it, and what they
    // pick is the gender
    let picked = pick(&list);
    assert(picked is Some);
    Gender::picked(picked)
}

/// Picks a name for an agent of the given faction and gender: one of
/// `name_table`, whichever the dice give.
pub fn gen_human_name(faction: Faction, gender: &Gender) -> (name: String)
    ensures
        name_table(faction, *gender).contains(name@),
{
    let names = human_names(faction, gender);
    match pick(&names) {
        Some(chosen) => {
            proof {
                let i = choose|i: int| 0 <= i < names@.len() && names@[i] == *chosen;
                assert(name_table(faction, *gender)[i] == chosen@);
            }
            chosen.clone()
        },
        // no table is empty
        None => String::new(),
    }
}

/// What an agent can hold.
#[derive(Clone, Copy, Debug, PartialEq, Eq, Hash, Structural)]
pub enum Item {
    Bread,
    Coin,
}

impl Item {
    /// The key under which an inventory files this item.
    pub open spec fn code_of(self) -> u64 {
        match self {
            Item::Bread => 0,
            Item::Coin => 1,
        }
    }

    /// The key under which an inventory files this item.
    pub fn code(&self) -> (k: u64)
        ensures
            k == self.code_of(),
    {
        match self {
            Item::Bread => 0,
            Item::Coin => 1,
        }
    }
}

/// What an agent holds: a count for each item it has ever been given, filed
/// under the item's code.
#[derive(Debug, PartialEq, Eq)]
pub struct Inventory {
    pub items: HashMap<u64, i32>,
}

impl Clone for Inventory {
    /// A second inventory with the same counts.
    fn clone(&self) -> (r: Inventory)
        ensures
            r@ == self@,
    {
        Inventory { items: self.items.clone() }
    }
}

impl View for Inventory {
    type V = Map<u64, i32>;

    /// The counts on file, by item code.
    open spec fn view(&self) -> Map<u64, i32> {
        self.items@
    }
}

impl Inventory {
    /// How many of `item` the inventory holds: the count on file, and zero
    /// where none is.
    pub open spec fn held(&self, item: Item) -> int {
        if self@.contains_key(item.code_of()) {
            self@[item.code_of()] as int
        } else {
            0
        }
    }

    /// The inventory that holds nothing.
    pub fn new() -> (r: Inventory)
        ensures
            r@ == Map::<u64, i32>::empty(),
    {
        Inventory { items: HashMap::new() }
    }

    /// How many of `item` the inventory holds.
    pub fn count(&self, item: Item) -> (n: i32)
        ensures
            n == self.held(item),
    {
        let key = item.code();
        match self.items.get(&key) {
            Some(n) => *n,
            None => 0,
        }
    }

    /// How many coins the inventory holds.
    pub fn get_coins(&self) -> (n: i32)
        ensures
            n == self.held(Item::Coin),
    {
        self.count(Item::Coin)
    }

    /// Files `count` as the number of `item` held, in place of any count
    /// there was.
    pub fn set(&mut self, item: Item, count: i32)
        ensures
            final(self)@ == old(self)@.insert(item.code_of(), count),
            final(self).held(item) == count,
            forall|other: Item| other != item ==> final(self).held(other) == old(self).held(other),
    {
        let key = item.code();
        self.items.insert(key, count);
    }
}

/// The measures of an agent's body and mind.
#[derive(Clone, Copy, Debug, PartialEq, Eq, Structural)]
pub struct Stats {
    pub health: i8,
    pub hunger: u8,
    pub strength: u8,
    pub intelligence: u8,
    pub agility: u8,
}

/// How an agent leans.
#[derive(Clone, Copy, Debug, PartialEq, Eq, Structural)]
pub struct Personality {
    pub aggression: u8,
}

/// One more than the highest aggression a personality is born with.
pub const AGGRESSION_BOUND: u8 = 100;

/// An agent whose aggression is above this mark fights back when struck.
pub const AGGRESSION_MARK: u8 = 25;

/// One more than the highest strength, intelligence or agility an agent is
/// born with, and than the highest roll of the die of a blow.
pub const ROLL_BOUND: u8 = 10;

impl Personality {
    /// The meekest personality.
    pub fn new() -> (r: Personality)
        ensures
            r.aggression == 0,
    {
        Personality { aggression: 0 }
    }

    /// A personality as the dice give it: any aggression below
    /// `AGGRESSION_BOUND`.
    pub fn gen() -> (r: Personality)
        ensures
            r.aggression < AGGRESSION_BOUND,
    {
        Personality::rolled(draw_below(AGGRESSION_BOUND))
    }
}

/// Where an agent stands: its faction and its personality.
#[derive(Clone, Copy, Debug, PartialEq, Eq, Structural)]
pub struct Alignment {
    pub faction: Faction,
    pub personality: Personality,
}

impl Alignment {
    /// The alignment of an agent without a faction, with a personality as the
    /// dice give it.
    pub fn new() -> (r: Alignment)
        ensures
            r.faction == Faction::Empty,
            r.personality.aggression < AGGRESSION_BOUND,
    {
        Alignment::of(Faction::Empty, Personality::gen())
    }

    /// The alignment of an agent of `faction`, with a personality as the dice
    /// give it.
    pub fn from(faction: Faction) -> (r: Alignment)
        ensures
            r.faction == faction,
            r.personality.aggression < AGGRESSION_BOUND,
    {
        Alignment { faction: faction, personality: Personality::gen() }
    }
}

impl Gender {
    /// The gender that the dice have picked. What they picked from is for
    /// the caller to say; where they picked nothing, there is no gender to
    /// give.
    pub fn picked(picked: Option<&Gender>) -> (gender: Gender)
        requires
            picked is Some,
        ensures
            picked == Some(&gender),
    {
        match picked {
            Some(gender) => *gender,
            // ruled out by the caller
            None => Gender::Other,
        }
    }
}

impl Personality {
    /// The personality whose aggression is the number that the dice have
    /// rolled.
    pub fn rolled(roll: u8) -> (r: Personality)
        ensures
            r == (Personality { aggression: roll }),
    {
        Personality { aggression: roll }
    }
}

impl Alignment {
    /// The alignment that ties `personality` to `faction`.
    pub fn of(faction: Faction, personality: Personality) -> (r: Alignment)
        ensures
            r == (Alignment { faction, personality }),
    {
        Alignment { faction: faction, personality: personality }
    }
}

impl Stats {
    /// Whether these are the measures of a newborn: full health, a full
    /// stomach, and each talent below `ROLL_BOUND`.
    pub open spec fn newborn(self) -> bool {
        &&& self.health == 100
        &&& self.hunger == 100
        &&& self.strength < ROLL_BOUND
        &&& self.intelligence < ROLL_BOUND
        &&& self.agility < ROLL_BOUND
    }

    /// The measures of an agent in its prime.
    pub fn new() -> (r: Stats)
        ensures
            r == (Stats { health: 100, hunger: 100, strength: 10, intelligence: 10, agility: 10 }),
    {
        Stats { health: 100, hunger: 100, strength: 10, intelligence: 10, agility: 10 }
    }

    /// The measures of a newborn, its talents as the dice give them.
    pub fn gen() -> (r: Stats)
        ensures
            r.newborn(),
    {
        Stats {
            health: 100,
            hunger: 100,
            strength: draw_below(ROLL_BOUND),
            intelligence: draw_below(ROLL_BOUND),
            agility: draw_below(ROLL_BOUND),
        }
    }
}

/// What an agent is doing.
#[derive(Clone, Copy, Debug, PartialEq, Eq, Structural)]
pub enum Status {
    Talking,
    Fighting,
    Idle,
}

/// The kinds of agent.
#[derive(Clone, Copy, Debug, PartialEq, Eq, Structural)]
pub enum EntityType {
    Human,
}

/// What an agent shows to the others around it: where it stands, what it is
/// doing and how hard it hits.
#[derive(Clone, Copy, Debug, PartialEq, Eq, Structural)]
pub struct Stance {
    pub coords: Coords,
    pub status: Status,
    pub strength: u8,
}

/// A mobile agent of the simulation.
#[derive(Debug, PartialEq, Eq)]
pub struct Entity {
    pub coords: Coords,
    pub vel: (i32, i32),
    pub etype: EntityType,
    pub stats: Stats,
    pub status: Status,
    pub index: usize,
    pub alignment: Alignment,
    pub inventory: Inventory,
    pub name: String,
    pub gender: Gender,
    pub tasks: Tasks,
}

/// The value of `v` pulled into the range of `i8`.
pub open spec fn clamp_i8(v: int) -> int {
    if v < i8::MIN {
        i8::MIN as int
    } else if v > i8::MAX {
        i8::MAX as int
    } else {
        v
    }
}

/// The health left of `health` after a blow of the given strength and roll:
/// the damage is their product, and health stops at the lowest value it can
/// hold.
pub open spec fn after_blow(health: i8, strength: u8, roll: u8) -> i8 {
    clamp_i8(health - strength * roll) as i8
}

/// The hunger left of `hunger` after one tick: one less, and never below
/// zero.
pub open spec fn after_fast(hunger: u8) -> u8 {
    if hunger > 0 {
        (hunger - 1) as u8
    } else {
        0
    }
}

/// The health left of `health` after a tick that ends with hunger `hunger`:
/// an agent whose hunger has run out loses two points, and stops at zero.
pub open spec fn after_starving(health: i8, hunger: u8) -> i8 {
    if hunger == 0 {
        if health >= 2 {
            (health - 2) as i8
        } else {
            0
        }
    } else {
        health
    }
}

impl Clone for Entity {
    /// A second agent like this one.
    fn clone(&self) -> (r: Entity)
        ensures
            r.mirrors(self),
    {
        Entity {
            coords: self.coords,
            vel: (self.vel.0, self.vel.1),
            etype: self.etype,
            stats: self.stats,
            status: self.status,
            index: self.index,
            alignment: self.alignment,
            inventory: self.inventory.clone(),
            name: self.name.clone(),
            gender: self.gender,
            tasks: self.tasks,
        }
    }
}

impl Entity {
    /// Whether the agent is like `other` in everything: the same traits, and
    /// the same counts in its inventory.
    pub open spec fn mirrors(&self, other: &Entity) -> bool {
        &&& self.inventory@ == other.inventory@
        &&& *self == (Entity { inventory: self.inventory, ..*other })
    }

    /// Whether the agent has just been made: at rest, idle, with empty hands
    /// and the initial tasks.
    pub open spec fn newborn(&self) -> bool {
        &&& self.vel == (0i32, 0i32)
        &&& self.status == Status::Idle
        &&& self.inventory@ == Map::<u64, i32>::empty()
        &&& self.tasks == Tasks::initial()
    }

    /// Whether the agent is alive.
    pub open spec fn alive(&self) -> bool {
        self.stats.health > 0
    }

    /// A nameless agent at the origin, in its prime and without a faction,
    /// with a personality as the dice give it.
    pub fn new(index: usize) -> (r: Entity)
        ensures
            r.index == index,
            r.coords == (Coords { x: 0, y: 0 }),
            r.etype == EntityType::Human,
            r.stats == (Stats { health: 100, hunger: 100, strength: 10, intelligence: 10, agility: 10 }),
            r.alignment.faction == Faction::Empty,
            r.alignment.personality.aggression < AGGRESSION_BOUND,
            r.name@ == Seq::<char>::empty(),
            r.gender == Gender::Female,
            r.newborn(),
    {
        Entity {
            coords: Coords::new(),
            vel: (0, 0),
            etype: EntityType::Human,
            stats: Stats::new(),
            status: Status::Idle,
            alignment: Alignment::new(),
            inventory: Inventory::new(),
            index: index,
            name: String::new(),
            gender: Gender::Female,
            tasks: Tasks::new(),
        }
    }

    /// A newborn agent with the given traits. It starts at rest: the velocity
    /// handed in is not taken over.
    pub fn from(
        index: usize,
        coords: Coords,
        vel: (i32, i32),
        etype: EntityType,
        stats: Stats,
        alignment: Alignment,
        name: String,
        gender: Gender,
    ) -> (r: Entity)
        ensures
            r.index == index,
            r.coords == coords,
            r.etype == etype,
            r.stats == stats,
            r.alignment == alignment,
            r.name == name,
            r.gender == gender,
            r.newborn(),
    {
        Entity {
            coords: coords,
            etype: etype,
            vel: (0, 0),
            stats: stats,
            status: Status::Idle,
            index: index,
            alignment: alignment,
            inventory: Inventory::new(),
            name: name,
            gender: gender,
            tasks: Tasks::new(),
        }
    }

    /// What the agent shows to the others.
    pub open spec fn stance_of(&self) -> Stance {
        Stance { coords: self.coords, status: self.status, strength: self.stats.strength }
    }

    /// What the agent shows to the others.
    pub fn stance(&self) -> (s: Stance)
        ensures
            s == self.stance_of(),
    {
        Stance { coords: self.coords, status: self.status, strength: self.stats.strength }
    }

    /// Whether `by` can strike the agent: it is fighting, and the two are no
    /// further apart than `VICINITY_DIST`.
    pub open spec fn threatened(&self, by: Stance) -> bool {
        by.status == Status::Fighting && within_spec(self.coords, by.coords, VICINITY_DIST as int)
    }

    /// The agent after a blow of the given strength with the die at `roll`:
    /// its health is what the blow leaves of it, and it fights from then on
    /// if its aggression is above `AGGRESSION_MARK`.
    pub open spec fn hit(self, strength: u8, roll: u8) -> Entity {
        Entity {
            stats: Stats { health: after_blow(self.stats.health, strength, roll), ..self.stats },
            status: if self.alignment.personality.aggression > AGGRESSION_MARK {
                Status::Fighting
            } else {
                self.status
            },
            ..self
        }
    }

    /// The agent after facing `by` with the die at `roll`. Where `by`
    /// threatens it, it takes the blow. Otherwise nothing happens to it.
    pub open spec fn struck(self, by: Stance, roll: u8) -> Entity {
        if self.threatened(by) {
            self.hit(by.strength, roll)
        } else {
            self
        }
    }

    /// The agent after a tick on its own, in a resolution of `steps` steps:
    /// it has moved by its velocity times `steps`, each coordinate kept
    /// within range, its hunger has gone down by one, and it has starved if
    /// its hunger has run out.
    pub open spec fn aged(self, steps: i32) -> Entity {
        let hunger = after_fast(self.stats.hunger);
        Entity {
            coords: Coords {
                x: clamp_i32(self.coords.x + steps * self.vel.0) as i32,
                y: clamp_i32(self.coords.y + steps * self.vel.1) as i32,
            },
            stats: Stats { hunger: hunger, health: after_starving(self.stats.health, hunger), ..self.stats },
            ..self
        }
    }

    /// Lets the agent face `by` with the die at `roll`: it ends as `struck`
    /// says.
    pub fn face(&mut self, by: &Stance, roll: u8)
        ensures
            *final(self) == old(self).struck(*by, roll),
    {
        if by.status == Status::Fighting && within(&self.coords, &by.coords, VICINITY_DIST) {
            proof {
                lemma_product_bounded(by.strength as int, roll as int, 255);
            }
            let left: i32 = self.stats.health as i32 - (by.strength as i32) * (roll as i32);
            self.stats.health = if left < i8::MIN as i32 {
                i8::MIN
            } else {
                left as i8
            };
            if self.alignment.personality.aggression > AGGRESSION_MARK {
                self.status = Status::Fighting;
            }
        }
    }

    /// Lets the agent face `other`, with a die as the dice give it: the agent
    /// ends as `struck` says for some roll below `ROLL_BOUND`. So nothing
    /// happens to it where `other` does not fight, or stands further away
    /// than `VICINITY_DIST`, be it by separation or by distance. `other` is
    /// left as it was.
    pub fn resolve_against(&mut self, other: &mut Entity, step_increment: i32)
        ensures
            *final(other) == *old(other),
            exists|roll: u8| roll < ROLL_BOUND && *final(self) == #[trigger] old(self).struck(old(other).stance_of(), roll),
            old(other).status != Status::Fighting ==> *final(self) == *old(self),
            !within_spec(old(self).coords, old(other).coords, VICINITY_DIST as int) ==> *final(self) == *old(self),
            dist_spec(old(self).coords, old(other).coords) > VICINITY_DIST ==> *final(self) == *old(self),
    {
        let roll = draw_below(ROLL_BOUND);
        let by = other.stance();
        self.face(&by, roll);
        proof {
            lemma_reach_of_a_blow(*old(self), by, roll);
        }
    }

    /// Takes the agent through a tick on its own: it ends as `aged` says.
    /// Its hunger does not rise and its health does not fall below zero
    /// unless it was there before.
    pub fn resolve(&mut self, step_increment: i32)
        ensures
            *final(self) == old(self).aged(step_increment),
            final(self).stats.hunger <= old(self).stats.hunger,
            final(self).stats.hunger == 0 ==> final(self).stats.health >= 0,
    {
        proof {
            lemma_product_bounded(step_increment as int, self.vel.0 as int, 0x8000_0000);
            lemma_product_bounded(step_increment as int, self.vel.1 as int, 0x8000_0000);
        }
        let dx: i64 = (step_increment as i64) * (self.vel.0 as i64);
        let dy: i64 = (step_increment as i64) * (self.vel.1 as i64);
        self.coords.x = saturate_i32(self.coords.x as i64 + dx);
        self.coords.y = saturate_i32(self.coords.y as i64 + dy);
        if self.stats.hunger > 0 {
            self.stats.hunger -= 1;
        }
        if self.stats.hunger == 0 {
            if self.stats.health >= 2 {
                self.stats.health -= 2;
            } else {
                self.stats.health = 0;
            }
        }
    }
}

/// The reach of a blow. An agent is left as it is, whatever the roll, by
/// anyone who does not fight and by anyone further away than
/// `VICINITY_DIST`, be it by separation or by distance. Whether one of two is
/// within reach of the other does not depend on which of them asks.
pub proof fn lemma_reach_of_a_blow(e: Entity, by: Stance, roll: u8)
    ensures
        by.status != Status::Fighting ==> e.struck(by, roll) == e,
        !within_spec(e.coords, by.coords, VICINITY_DIST as int) ==> e.struck(by, roll) == e,
        dist_spec(e.coords, by.coords) > VICINITY_DIST ==> e.struck(by, roll) == e,
        within_spec(e.coords, by.coords, VICINITY_DIST as int) == within_spec(
            by.coords,
            e.coords,
            VICINITY_DIST as int,
        ),
{
    lemma_dist_within(e.coords, by.coords, VICINITY_DIST as int);
    lemma_dist_symmetric(e.coords, by.coords);
}

} // verus!
