//! The messages that pass between the simulation and what draws it, and how
//! a frame's worth of them is put together.

use crate::chunk::Chunk;
use crate::math::{clamp_i32, saturate_i32};
use crate::news::News;
use crate::renderer::Camera;
use crate::world::World;
use vstd::prelude::*;

verus! {

/// A chunk as it stood at the end of a step, with the news that go with it.
#[derive(Debug, PartialEq, Eq)]
pub struct RenderMsg {
    pub chunk: Chunk,
    pub news: News,
}

impl Clone for RenderMsg {
    /// The same message once more.
    fn clone(&self) -> (r: RenderMsg)
        ensures
            r.chunk.mirrors(&self.chunk),
            r.news.newscast@ == self.news.newscast@,
    {
        RenderMsg { chunk: self.chunk.clone(), news: self.news.clone() }
    }
}

impl RenderMsg {
    /// The message that carries `chunk` and `news`.
    pub fn from(chunk: Chunk, news: News) -> (r: RenderMsg)
        ensures
            r == (RenderMsg { chunk, news }),
    {
        RenderMsg { chunk: chunk, news: news }
    }
}

/// The viewer's answer: where the camera stands now, and whether to go on.
#[derive(Clone, Copy, Debug, PartialEq, Eq)]
pub struct MainMsg {
    pub camera: Camera,
    pub ok: bool,
}

impl MainMsg {
    /// The message that carries `camera` and `ok`.
    pub fn from(camera: Camera, ok: bool) -> (r: MainMsg)
        ensures
            r == (MainMsg { camera, ok }),
    {
        MainMsg { camera: camera, ok: ok }
    }
}

/// The number of parts into which a world is cut for showing: one part is
/// shown in each frame.
pub const PARTITION_SIZE: usize = 16;

/// The line with which the news of a frame begin.
pub open spec fn headline() -> Seq<char> {
    "news "@
}

/// The number of chunks in one part of a world of `chunks` chunks.
pub open spec fn part_width(chunks: nat) -> nat {
    chunks / (PARTITION_SIZE as nat)
}

/// The index of the first chunk of part `partition`, and the end of the
/// world where the part lies beyond it.
pub open spec fn part_start(chunks: nat, partition: nat) -> nat {
    if part_width(chunks) * partition <= chunks {
        part_width(chunks) * partition
    } else {
        chunks
    }
}

/// The index behind the last chunk of part `partition`.
pub open spec fn part_end(chunks: nat, partition: nat) -> nat {
    if part_start(chunks, partition) + part_width(chunks) <= chunks {
        part_start(chunks, partition) + part_width(chunks)
    } else {
        chunks
    }
}

/// The chunks from `from` up to, not including, `upto` that `camera` sees,
/// by their indices in rising order.
pub open spec fn seen(chunks: Seq<Chunk>, camera: Camera, from: int, upto: int) -> Seq<int>
    decreases upto - from,
{
    if upto <= from {
        Seq::empty()
    } else if camera.sees(&chunks[upto - 1]) {
        seen(chunks, camera, from, upto - 1).push(upto - 1)
    } else {
        seen(chunks, camera, from, upto - 1)
    }
}

/// The news gathered over the chunks from `from` up to, not including,
/// `upto`: the headline, then the notices of each chunk that `camera` sees,
/// in the order of the chunks.
pub open spec fn gathered(chunks: Seq<Chunk>, camera: Camera, from: int, upto: int) -> Seq<Seq<char>>
    decreases upto - from,
{
    if upto <= from {
        seq![headline()]
    } else if camera.sees(&chunks[upto - 1]) {
        gathered(chunks, camera, from, upto - 1) + chunks[upto - 1].notices()
    } else {
        gathered(chunks, camera, from, upto - 1)
    }
}

/// The first and the end index of part `partition` of a world of `chunks`
/// chunks.
pub fn part_span(chunks: usize, partition: usize) -> (span: (usize, usize))
    ensures
        span.0 == part_start(chunks as nat, partition as nat),
        span.1 == part_end(chunks as nat, partition as nat),
        span.0 <= span.1 <= chunks,
{
    let width = chunks / PARTITION_SIZE;
    let start = match width.checked_mul(partition) {
        Some(start) => if start <= chunks {
            start
        } else {
            chunks
        },
        None => chunks,
    };
    let end = if chunks - start >= width {
        start + width
    } else {
        chunks
    };
    (start, end)
}

/// Whether `msg` is the message of a frame for chunk `i`, in a frame that
/// shows the chunks from `from` up to, not including, `upto`: the chunk lies
/// in the frame and `camera` sees it, the message carries a snapshot of it,
/// and the news gathered up to and including it.
pub open spec fn tells_of(msg: &RenderMsg, chunks: Seq<Chunk>, camera: Camera, from: int, upto: int, i: int) -> bool {
    &&& from <= i < upto
    &&& i < chunks.len()
    &&& camera.sees(&chunks[i])
    &&& msg.chunk.mirrors(&chunks[i])
    &&& msg.news@ == gathered(chunks, camera, from, i + 1)
}

/// The messages of one frame: one for each chunk of part `partition` that
/// `camera` sees, in the order of the chunks. Each carries a snapshot of its
/// chunk, and the news gathered up to and including that chunk.
pub fn snapshot(world: &World, camera: &Camera, partition: usize) -> (state: Vec<RenderMsg>)
    ensures
        state@.len() == seen(
            world.chunks@,
            *camera,
            part_start(world.chunks@.len(), partition as nat) as int,
            part_end(world.chunks@.len(), partition as nat) as int,
        ).len(),
        forall|k: int|
            0 <= k < state@.len() ==> tells_of(
                #[trigger] &state@[k],
                world.chunks@,
                *camera,
                part_start(world.chunks@.len(), partition as nat) as int,
                part_end(world.chunks@.len(), partition as nat) as int,
                seen(
                    world.chunks@,
                    *camera,
                    part_start(world.chunks@.len(), partition as nat) as int,
                    part_end(world.chunks@.len(), partition as nat) as int,
                )[k],
            ),
{
    let (start, end) = part_span(world.chunks.len(), partition);
    let mut first: Vec<String> = Vec::new();
    first.push("news ".to_string());
    let mut news = News::from(first);
    assert(news@ =~= seq![headline()]);
    let mut state: Vec<RenderMsg> = Vec::new();
    let mut i = start;
    while i < end
        invariant
            start <= i <= end <= world.chunks@.len(),
            news@ == gathered(world.chunks@, *camera, start as int, i as int),
            state@.len() == seen(world.chunks@, *camera, start as int, i as int).len(),
            forall|k: int|
                0 <= k < state@.len() ==> tells_of(
                    #[trigger] &state@[k],
                    world.chunks@,
                    *camera,
                    start as int,
                    end as int,
                    seen(world.chunks@, *camera, start as int, i as int)[k],
                ),
        decreases end - i,
    {
        let chunk = world.fetch_chunk(i);
        let ghost before = seen(world.chunks@, *camera, start as int, i as int);
        let ghost after = seen(world.chunks@, *camera, start as int, i + 1);
        let ghost earlier = state@;
        if camera.shows(chunk) {
            let mut fresh = chunk.inquire_news();
            let ghost lines = news@;
            let ghost more = fresh@;
            news.newscast.append(&mut fresh.newscast);
            assert(news@ =~= lines + more);
            let msg = RenderMsg::from(chunk.clone(), news.clone());
            state.push(msg);
            assert(after == before.push(i as int));
        } else {
            assert(after == before);
        }
        assert forall|k: int| 0 <= k < state@.len() implies tells_of(
            #[trigger] &state@[k],
            world.chunks@,
            *camera,
            start as int,
            end as int,
            after[k],
        ) by {
            if k < earlier.len() {
                assert(state@[k] == earlier[k]);
                assert(after[k] == before[k]);
            } else {
                assert(after[k] == i);
            }
        }
        i += 1;
    }
    state
}

/// Where the loop that drives a world stands.
#[derive(Clone, Copy, Debug, PartialEq, Eq, Structural)]
pub struct Pace {
    /// The part of the world that the next frame shows.
    pub partition: usize,
    /// The steps taken so far.
    pub step: i32,
    /// The steps that one frame takes.
    pub step_increment: i32,
}

impl Pace {
    /// The pace at the start: the first part, no step taken, one step a
    /// frame.
    pub fn new() -> (r: Pace)
        ensures
            r == (Pace { partition: 0, step: 0, step_increment: 1 }),
    {
        Pace { partition: 0, step: 0, step_increment: 1 }
    }

    /// Begins a frame. Once every part has been shown the world is due for
    /// its stages, and the parts start over.
    pub fn begin_frame(&mut self) -> (due: bool)
        ensures
            due == (old(self).partition >= PARTITION_SIZE),
            *final(self) == (Pace { partition: if due { 0 } else { old(self).partition }, ..*old(self) }),
            final(self).partition < PARTITION_SIZE,
    {
        if self.partition >= PARTITION_SIZE {
            self.partition = 0;
            true
        } else {
            false
        }
    }

    /// Ends a frame: the steps of the frame are counted, and the next part
    /// is up. Both counts stop at the ends of their range.
    pub fn end_frame(&mut self)
        ensures
            *final(self) == (Pace {
                partition: if old(self).partition < usize::MAX {
                    (old(self).partition + 1) as usize
                } else {
                    old(self).partition
                },
                step: clamp_i32(old(self).step + old(self).step_increment) as i32,
                ..*old(self)
            }),
    {
        self.step = saturate_i32(self.step as i64 + self.step_increment as i64);
        if self.partition < usize::MAX {
            self.partition = self.partition + 1;
        }
    }
}

} // verus!
