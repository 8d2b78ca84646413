//! The news: what a chunk's agents give away about the state of their
//! region. News are derived afresh from the chunk each time they are asked
//! for.

use crate::chunk::Chunk;
use crate::config::POVERTY_LINE;
use crate::entity::{Entity, Item};
use vstd::prelude::*;

verus! {

/// What is worth telling of a chunk, one line each.
#[derive(Debug, PartialEq, Eq)]
pub struct News {
    pub newscast: Vec<String>,
}

impl View for News {
    type V = Seq<Seq<char>>;

    /// The lines of the news, as text.
    open spec fn view(&self) -> Seq<Seq<char>> {
        Seq::new(self.newscast@.len(), |i: int| self.newscast@[i]@)
    }
}

impl Clone for News {
    /// The same news once more.
    fn clone(&self) -> (r: News)
        ensures
            r.newscast@ == self.newscast@,
            r@ == self@,
    {
        let r = News { newscast: self.newscast.clone() };
        proof {
            assert forall|i: int| 0 <= i < self.newscast@.len() implies r.newscast@[i] == self.newscast@[i] by {
                assert(cloned::<String>(self.newscast@[i], r.newscast@[i]));
            }
            assert(r.newscast@ =~= self.newscast@);
        }
        r
    }
}

impl News {
    /// No news.
    pub fn new() -> (r: News)
        ensures
            r.newscast@ == Seq::<String>::empty(),
    {
        News { newscast: Vec::new() }
    }

    /// The news with the given lines.
    pub fn from(newscast: Vec<String>) -> (r: News)
        ensures
            r.newscast == newscast,
    {
        News { newscast: newscast }
    }
}

/// The coins that the agents of `pop` hold, all together.
pub open spec fn coin_total(pop: Seq<Entity>) -> int
    decreases pop.len(),
{
    if pop.len() == 0 {
        0
    } else {
        coin_total(pop.drop_last()) + pop.last().inventory.held(Item::Coin)
    }
}

/// The line that tells of a poor region.
pub open spec fn poverty_notice() -> Seq<char> {
    "absolute poorness in region x\n"@
}

impl Chunk {
    /// Whether the chunk's agents hold fewer than `POVERTY_LINE` coins, all
    /// together.
    pub open spec fn poor(&self) -> bool {
        coin_total(self.entities@) < POVERTY_LINE
    }

    /// The lines that the news of the chunk hold: the poverty notice if the
    /// chunk is poor, and nothing otherwise.
    pub open spec fn notices(&self) -> Seq<Seq<char>> {
        if self.poor() {
            seq![poverty_notice()]
        } else {
            Seq::empty()
        }
    }

    /// The news of the chunk. The chunk is only read.
    pub fn inquire_news(&self) -> (news: News)
        ensures
            news@ == self.notices(),
    {
        let n = self.entities.len();
        let mut coin_count: i128 = 0;
        let mut i: usize = 0;
        while i < n
            invariant
                i <= n,
                n == self.entities@.len(),
                coin_count == coin_total(self.entities@.take(i as int)),
                -0x8000_0000 * i <= coin_count <= 0x8000_0000 * i,
            decreases n - i,
        {
            assert(self.entities@.take(i + 1).drop_last() == self.entities@.take(i as int));
            coin_count = coin_count + self.entities[i].inventory.get_coins() as i128;
            i += 1;
        }
        assert(self.entities@.take(n as int) == self.entities@);
        let mut newscast: Vec<String> = Vec::new();
        if coin_count < POVERTY_LINE as i128 {
            newscast.push("absolute poorness in region x\n".to_string());
        }
        let news = News::from(newscast);
        assert(news@ =~= self.notices());
        news
    }
}

} // verus!
