//! Factions, and the table that zones a chunk by its noise sample.

use crate::config::SAMPLE_UNIT;
use vstd::prelude::*;

verus! {

/// The group a chunk, and every agent born in it, belongs to.
#[derive(Clone, Copy, Debug, PartialEq, Eq, Hash, Structural)]
pub enum Faction {
    Empty,
    Hiisi,
    Virumaa,
    Pohjola,
    Tapiola,
    Kalevala,
    Novgorod,
}

/// The width of one faction's bin, in sample counts: a twelfth of a unit of
/// noise, so that six bins fill the lower half of the unit.
pub const BIN_WIDTH: i32 = 100;

/// The named factions in the order of their bins, from sample zero upwards.
pub open spec fn bin_order() -> Seq<Faction> {
    seq![
        Faction::Novgorod,
        Faction::Virumaa,
        Faction::Kalevala,
        Faction::Tapiola,
        Faction::Pohjola,
        Faction::Hiisi,
    ]
}

/// The faction of a chunk whose noise sample is `sample`: bin `k` holds the
/// samples from `k * BIN_WIDTH` up to, not including, `(k + 1) * BIN_WIDTH`;
/// a sample below the first bin or beyond the last leaves the chunk empty.
pub open spec fn faction_of(sample: int) -> Faction {
    if 0 <= sample < bin_order().len() * BIN_WIDTH {
        bin_order()[sample / (BIN_WIDTH as int)]
    } else {
        Faction::Empty
    }
}

impl Faction {
    /// Zones a chunk by its sample. The bins are tried in order, each with its
    /// lower and upper edge; a sample in none of them gives `Empty`.
    pub fn classify(sample: i32) -> (f: Faction)
        ensures
            f == faction_of(sample as int),
            f != Faction::Empty <==> 0 <= sample < SAMPLE_UNIT / 2,
    {
        let table: [(i32, i32, Faction); 6] = [
            (0, 100, Faction::Novgorod),
            (100, 200, Faction::Virumaa),
            (200, 300, Faction::Kalevala),
            (300, 400, Faction::Tapiola),
            (400, 500, Faction::Pohjola),
            (500, 600, Faction::Hiisi),
        ];
        let mut i: usize = 0;
        while i < 6
            invariant
                i <= 6,
                table@ == seq![
                    (0i32, 100i32, Faction::Novgorod),
                    (100i32, 200i32, Faction::Virumaa),
                    (200i32, 300i32, Faction::Kalevala),
                    (300i32, 400i32, Faction::Tapiola),
                    (400i32, 500i32, Faction::Pohjola),
                    (500i32, 600i32, Faction::Hiisi),
                ],
                sample < 0 || sample >= i * BIN_WIDTH,
            decreases 6 - i,
        {
            let (lower, upper, faction) = table[i];
            if lower <= sample && sample < upper {
                return faction;
            }
            i += 1;
        }
        Faction::Empty
    }

    /// Whether agents may be born under this faction.
    pub fn settles(&self) -> (b: bool)
        ensures
            b == (*self != Faction::Empty),
    {
        match self {
            Faction::Empty => false,
            _ => true,
        }
    }
}

/// Every sample falls to exactly one of the seven factions, the six named
/// ones share the samples of the lower half unit among them in equal bins,
/// and each named faction has its bin.
pub proof fn lemma_faction_bins(sample: int)
    ensures
        faction_of(sample) != Faction::Empty <==> 0 <= sample < SAMPLE_UNIT / 2,
        0 <= sample < 100 <==> faction_of(sample) == Faction::Novgorod,
        100 <= sample < 200 <==> faction_of(sample) == Faction::Virumaa,
        200 <= sample < 300 <==> faction_of(sample) == Faction::Kalevala,
        300 <= sample < 400 <==> faction_of(sample) == Faction::Tapiola,
        400 <= sample < 500 <==> faction_of(sample) == Faction::Pohjola,
        500 <= sample < 600 <==> faction_of(sample) == Faction::Hiisi,
{
}

} // verus!
