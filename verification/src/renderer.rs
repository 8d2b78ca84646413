//! The camera through which a world is looked at, and what the viewer's keys
//! do to it. Nothing here draws: the decisions are made here, and whoever
//! owns the window carries them out.

use crate::chunk::Chunk;
use crate::config::CHUNK_SIZE;
use crate::entity::Entity;
use crate::faction::Faction;
use crate::geometry::Coords;
use crate::math::{clamp_i32, lemma_product_bounded, saturate_i32};
use vstd::prelude::*;

verus! {

/// The width of the window, in pixels.
pub const WINDOW_WIDTH: u32 = 1240;

/// The height of the window, in pixels.
pub const WINDOW_HEIGHT: u32 = 760;

/// The zoom a camera starts with.
pub const DEFAULT_ZOOM: i32 = 1;

/// How far one key press moves the camera, in world units.
pub const CAMERA_STEP: i32 = 32;

/// Where the viewer looks, and how much of the world is drawn.
#[derive(Clone, Copy, Debug, PartialEq, Eq, Structural)]
pub struct Camera {
    /// The camera's position in the world.
    pub coords: Coords,
    /// The grid position of the chunk under the camera, as of the last tick.
    pub ccoords: Coords,
    pub render_distance_w: i32,
    pub render_distance_h: i32,
    pub zoom: i32,
}

/// `a` divided by the positive `d`, rounded towards zero.
pub open spec fn quotient(a: int, d: int) -> int {
    if a >= 0 {
        a / d
    } else {
        -((-a) / d)
    }
}

impl Camera {
    /// A camera at the origin that sees one window's worth of the world.
    pub fn new() -> (r: Camera)
        ensures
            r == (Camera {
                coords: Coords { x: 0, y: 0 },
                ccoords: Coords { x: 0, y: 0 },
                render_distance_w: WINDOW_WIDTH as i32,
                render_distance_h: WINDOW_HEIGHT as i32,
                zoom: DEFAULT_ZOOM,
            }),
    {
        Camera {
            coords: Coords::new(),
            ccoords: Coords::new(),
            render_distance_w: WINDOW_WIDTH as i32,
            render_distance_h: WINDOW_HEIGHT as i32,
            zoom: DEFAULT_ZOOM,
        }
    }

    /// Whether the camera sees `chunk`, judged by the chunk's first and last
    /// tile: the first tile lies at or beyond the camera's position on both
    /// axes, and the last tile lies within the render distance, counted from
    /// the mirror image of the camera's position, with one chunk's width to
    /// spare. A chunk without tiles is not seen.
    pub open spec fn sees(&self, chunk: &Chunk) -> bool {
        let first = chunk.tiles@[0].coords;
        let last = chunk.tiles@[chunk.tiles@.len() - 1].coords;
        &&& chunk.tiles@.len() > 0
        &&& first.x >= self.coords.x
        &&& first.y >= self.coords.y
        &&& last.x <= -self.coords.x + self.render_distance_w + CHUNK_SIZE
        &&& last.y + CHUNK_SIZE <= -self.coords.y + self.render_distance_h + CHUNK_SIZE + CHUNK_SIZE
    }

    /// Computes `sees`.
    pub fn shows(&self, chunk: &Chunk) -> (b: bool)
        ensures
            b == self.sees(chunk),
    {
        let n = chunk.tiles.len();
        if n == 0 {
            return false;
        }
        let first = chunk.tiles[0].coords;
        let last = chunk.tiles[n - 1].coords;
        let span: i64 = CHUNK_SIZE as i64;
        first.x >= self.coords.x && first.y >= self.coords.y && last.x as i64 <= -(self.coords.x as i64)
            + self.render_distance_w as i64 + span && last.y as i64 + span <= -(self.coords.y as i64)
            + self.render_distance_h as i64 + span + span
    }

    /// Whether the chunk at grid position `chunk` lies in the part of the
    /// grid that the camera covers: on both axes, at the zoom of the camera,
    /// it lies at or beyond the chunk under the camera and no further from it
    /// than a window of chunks.
    pub open spec fn covers(&self, chunk: Coords) -> bool {
        &&& chunk.x * self.zoom >= self.ccoords.x * self.zoom
        &&& chunk.y * self.zoom >= self.ccoords.y * self.zoom
        &&& chunk.x * self.zoom <= (self.ccoords.x + WINDOW_WIDTH * CHUNK_SIZE) * self.zoom
        &&& chunk.y * self.zoom <= (self.ccoords.y + WINDOW_HEIGHT * CHUNK_SIZE) * self.zoom
    }

    /// Computes `covers`.
    pub fn frames(&self, chunk: &Coords) -> (b: bool)
        ensures
            b == self.covers(*chunk),
    {
        let zoom: i128 = self.zoom as i128;
        let wide: i128 = self.ccoords.x as i128 + (WINDOW_WIDTH as i128) * (CHUNK_SIZE as i128);
        let high: i128 = self.ccoords.y as i128 + (WINDOW_HEIGHT as i128) * (CHUNK_SIZE as i128);
        proof {
            lemma_product_bounded(chunk.x as int, zoom as int, 0x1_0000_0000);
            lemma_product_bounded(chunk.y as int, zoom as int, 0x1_0000_0000);
            lemma_product_bounded(self.ccoords.x as int, zoom as int, 0x1_0000_0000);
            lemma_product_bounded(self.ccoords.y as int, zoom as int, 0x1_0000_0000);
            lemma_product_bounded(wide as int, zoom as int, 0x1_0000_0000);
            lemma_product_bounded(high as int, zoom as int, 0x1_0000_0000);
        }
        (chunk.x as i128) * zoom >= (self.ccoords.x as i128) * zoom && (chunk.y as i128) * zoom >= (
        self.ccoords.y as i128) * zoom && (chunk.x as i128) * zoom <= wide * zoom && (chunk.y as i128) * zoom
            <= high * zoom
    }

    /// Brings the chunk position up to date with the world position.
    pub fn tick(&mut self)
        ensures
            *final(self) == (Camera {
                ccoords: Coords {
                    x: quotient(old(self).coords.x as int, CHUNK_SIZE as int) as i32,
                    y: quotient(old(self).coords.y as int, CHUNK_SIZE as int) as i32,
                },
                ..*old(self)
            }),
    {
        self.ccoords.x = self.coords.x / CHUNK_SIZE as i32;
        self.ccoords.y = self.coords.y / CHUNK_SIZE as i32;
    }
}

/// What the viewer can ask for.
#[derive(Clone, Copy, Debug, PartialEq, Eq, Structural)]
pub enum Input {
    /// Close the window.
    Quit,
    ZoomIn,
    ZoomOut,
    Left,
    Right,
    Up,
    Down,
    /// Show or hide the factions.
    Factions,
    /// Show or hide the news.
    News,
    /// The window has a new size.
    Resized { width: i32, height: i32 },
    /// Anything else.
    Other,
}

/// What the owner of the window has to do after an input.
#[derive(Clone, Copy, Debug, PartialEq, Eq, Structural)]
pub enum Reaction {
    /// Go on.
    Go,
    /// Stop drawing and close the window.
    Stop,
    /// Wipe the canvas.
    Clear,
    /// Give the window this size and show the canvas.
    Resize { width: i32, height: i32 },
}

/// The state of the view: the camera and what is laid over the world.
#[derive(Clone, Copy, Debug, PartialEq, Eq, Structural)]
pub struct Screen {
    pub camera: Camera,
    /// Whether the factions are shown.
    pub factions: bool,
    /// Whether the news are shown.
    pub news: bool,
    /// Whether the canvas has to be wiped before the next chunk is drawn.
    pub trigger_refresh: bool,
}

/// What the owner of the window has to do after `input`.
pub open spec fn reaction_to(input: Input) -> Reaction {
    match input {
        Input::Quit => Reaction::Stop,
        Input::News => Reaction::Clear,
        Input::Resized { width, height } => Reaction::Resize { width, height },
        _ => Reaction::Go,
    }
}

impl Screen {
    /// The view at the start: a new camera, nothing laid over the world.
    pub fn new() -> (r: Screen)
        ensures
            r == (Screen {
                camera: Camera {
                    coords: Coords { x: 0, y: 0 },
                    ccoords: Coords { x: 0, y: 0 },
                    render_distance_w: WINDOW_WIDTH as i32,
                    render_distance_h: WINDOW_HEIGHT as i32,
                    zoom: DEFAULT_ZOOM,
                },
                factions: false,
                news: false,
                trigger_refresh: false,
            }),
    {
        Screen { camera: Camera::new(), factions: false, news: false, trigger_refresh: false }
    }

    /// The view after `input`. The zoom keys change the zoom by one; the
    /// arrow keys move the camera by `CAMERA_STEP` and ask for a wipe of the
    /// canvas; the overlay keys switch their overlay; a new window size
    /// becomes the render distance. The zoom and the position stop at the
    /// ends of their range.
    pub open spec fn after(self, input: Input) -> Screen {
        let camera = self.camera;
        match input {
            Input::ZoomIn => Screen { camera: Camera { zoom: clamp_i32(camera.zoom + 1) as i32, ..camera }, ..self },
            Input::ZoomOut => Screen { camera: Camera { zoom: clamp_i32(camera.zoom - 1) as i32, ..camera }, ..self },
            Input::Left => Screen {
                camera: Camera {
                    coords: Coords { x: clamp_i32(camera.coords.x + CAMERA_STEP) as i32, ..camera.coords },
                    ..camera
                },
                trigger_refresh: true,
                ..self
            },
            Input::Right => Screen {
                camera: Camera {
                    coords: Coords { x: clamp_i32(camera.coords.x - CAMERA_STEP) as i32, ..camera.coords },
                    ..camera
                },
                trigger_refresh: true,
                ..self
            },
            Input::Up => Screen {
                camera: Camera {
                    coords: Coords { y: clamp_i32(camera.coords.y + CAMERA_STEP) as i32, ..camera.coords },
                    ..camera
                },
                trigger_refresh: true,
                ..self
            },
            Input::Down => Screen {
                camera: Camera {
                    coords: Coords { y: clamp_i32(camera.coords.y - CAMERA_STEP) as i32, ..camera.coords },
                    ..camera
                },
                trigger_refresh: true,
                ..self
            },
            Input::Factions => Screen { factions: !self.factions, ..self },
            Input::News => Screen { news: !self.news, ..self },
            Input::Resized { width, height } => Screen {
                camera: Camera { render_distance_w: width, render_distance_h: height, ..camera },
                ..self
            },
            Input::Quit | Input::Other => self,
        }
    }

    /// Takes `input`: the view becomes `after(input)`, and the result says
    /// what the owner of the window has to do.
    pub fn react(&mut self, input: &Input) -> (r: Reaction)
        ensures
            *final(self) == old(self).after(*input),
            r == reaction_to(*input),
    {
        match input {
            Input::Quit => Reaction::Stop,
            Input::ZoomIn => {
                self.camera.zoom = saturate_i32(self.camera.zoom as i64 + 1);
                Reaction::Go
            },
            Input::ZoomOut => {
                self.camera.zoom = saturate_i32(self.camera.zoom as i64 - 1);
                Reaction::Go
            },
            Input::Left => {
                self.camera.coords.x = saturate_i32(self.camera.coords.x as i64 + CAMERA_STEP as i64);
                self.trigger_refresh = true;
                Reaction::Go
            },
            Input::Right => {
                self.camera.coords.x = saturate_i32(self.camera.coords.x as i64 - CAMERA_STEP as i64);
                self.trigger_refresh = true;
                Reaction::Go
            },
            Input::Up => {
                self.camera.coords.y = saturate_i32(self.camera.coords.y as i64 + CAMERA_STEP as i64);
                self.trigger_refresh = true;
                Reaction::Go
            },
            Input::Down => {
                self.camera.coords.y = saturate_i32(self.camera.coords.y as i64 - CAMERA_STEP as i64);
                self.trigger_refresh = true;
                Reaction::Go
            },
            Input::Factions => {
                self.factions = !self.factions;
                Reaction::Go
            },
            Input::News => {
                self.news = !self.news;
                Reaction::Clear
            },
            Input::Resized { width, height } => {
                self.camera.render_distance_w = *width;
                self.camera.render_distance_h = *height;
                Reaction::Resize { width: *width, height: *height }
            },
            Input::Other => Reaction::Go,
        }
    }

    /// Takes up a pending wipe of the canvas: says whether one was asked
    /// for, and none is pending afterwards.
    pub fn take_refresh(&mut self) -> (due: bool)
        ensures
            due == old(self).trigger_refresh,
            *final(self) == (Screen { trigger_refresh: false, ..*old(self) }),
    {
        let due = self.trigger_refresh;
        self.trigger_refresh = false;
        due
    }
}

/// The factions in the order in which a tie between them is settled: the
/// earlier one wins.
pub open spec fn faction_roll() -> Seq<Faction> {
    seq![
        Faction::Empty,
        Faction::Hiisi,
        Faction::Virumaa,
        Faction::Pohjola,
        Faction::Tapiola,
        Faction::Kalevala,
        Faction::Novgorod,
    ]
}

/// The place of `faction` in `faction_roll`.
pub open spec fn rank_of(faction: Faction) -> int {
    match faction {
        Faction::Empty => 0,
        Faction::Hiisi => 1,
        Faction::Virumaa => 2,
        Faction::Pohjola => 3,
        Faction::Tapiola => 4,
        Faction::Kalevala => 5,
        Faction::Novgorod => 6,
    }
}

/// The number of agents of `pop` that belong to `faction`.
pub open spec fn headcount(pop: Seq<Entity>, faction: Faction) -> nat
    decreases pop.len(),
{
    if pop.len() == 0 {
        0
    } else if pop.last().alignment.faction == faction {
        headcount(pop.drop_last(), faction) + 1
    } else {
        headcount(pop.drop_last(), faction)
    }
}

/// No faction has more members than there are agents.
pub proof fn lemma_headcount_bounded(pop: Seq<Entity>, faction: Faction)
    ensures
        headcount(pop, faction) <= pop.len(),
    decreases pop.len(),
{
    if pop.len() > 0 {
        lemma_headcount_bounded(pop.drop_last(), faction);
    }
}

/// Computes `rank_of`.
fn rank(faction: Faction) -> (r: usize)
    ensures
        r == rank_of(faction),
        r < 7,
{
    match faction {
        Faction::Empty => 0,
        Faction::Hiisi => 1,
        Faction::Virumaa => 2,
        Faction::Pohjola => 3,
        Faction::Tapiola => 4,
        Faction::Kalevala => 5,
        Faction::Novgorod => 6,
    }
}

/// The faction at place `r` of `faction_roll`.
fn faction_at(r: usize) -> (f: Faction)
    requires
        r < 7,
    ensures
        f == faction_roll()[r as int],
        rank_of(f) == r,
{
    if r == 0 {
        Faction::Empty
    } else if r == 1 {
        Faction::Hiisi
    } else if r == 2 {
        Faction::Virumaa
    } else if r == 3 {
        Faction::Pohjola
    } else if r == 4 {
        Faction::Tapiola
    } else if r == 5 {
        Faction::Kalevala
    } else {
        Faction::Novgorod
    }
}

impl Chunk {
    /// Whether `faction` leads in the chunk: no faction has more members
    /// among the chunk's agents, and none that has as many stands earlier in
    /// `faction_roll`.
    pub open spec fn led_by(&self, faction: Faction) -> bool {
        forall|other: Faction|
            #![trigger headcount(self.entities@, other)]
            headcount(self.entities@, other) < headcount(self.entities@, faction) || (headcount(
                self.entities@,
                other,
            ) == headcount(self.entities@, faction) && rank_of(faction) <= rank_of(other))
    }

    /// The faction that leads in the chunk. A chunk without agents is led by
    /// `Empty`.
    pub fn dominant_faction(&self) -> (f: Faction)
        ensures
            self.led_by(f),
            self.entities@.len() == 0 ==> f == Faction::Empty,
            self.entities@.len() > 0 ==> headcount(self.entities@, f) > 0,
    {
        let n = self.entities.len();
        let mut counts: Vec<usize> = Vec::new();
        let mut r: usize = 0;
        while r < 7
            invariant
                r <= 7,
                counts@.len() == r,
                forall|k: int| 0 <= k < r ==> counts@[k] == 0,
            decreases 7 - r,
        {
            counts.push(0);
            r += 1;
        }
        let mut i: usize = 0;
        while i < n
            invariant
                i <= n,
                n == self.entities@.len(),
                counts@.len() == 7,
                forall|k: int|
                    0 <= k < 7 ==> #[trigger] counts@[k] == headcount(self.entities@.take(i as int), faction_roll()[k]),
            decreases n - i,
        {
            let at = rank(self.entities[i].alignment.faction);
            proof {
                assert(self.entities@.take(i + 1).drop_last() == self.entities@.take(i as int));
                lemma_headcount_bounded(self.entities@.take(i as int), faction_roll()[at as int]);
            }
            let more = counts[at] + 1;
            counts.set(at, more);
            i += 1;
        }
        assert(self.entities@.take(n as int) == self.entities@);
        let mut best: usize = 0;
        let mut r: usize = 1;
        while r < 7
            invariant
                1 <= r <= 7,
                best < r,
                counts@.len() == 7,
                forall|k: int| 0 <= k < 7 ==> #[trigger] counts@[k] == headcount(self.entities@, faction_roll()[k]),
                forall|k: int| 0 <= k < r ==> #[trigger] counts@[k] < counts@[best as int] || (counts@[k] == counts@[best as int] && best <= k),
            decreases 7 - r,
        {
            if counts[r] > counts[best] {
                best = r;
            }
            r += 1;
        }
        let f = faction_at(best);
        proof {
            assert forall|other: Faction|
                #![trigger headcount(self.entities@, other)]
                headcount(self.entities@, other) < headcount(self.entities@, f) || (headcount(self.entities@, other)
                    == headcount(self.entities@, f) && rank_of(f) <= rank_of(other)) by {
                let k = rank_of(other);
                assert(faction_roll()[k] == other);
                assert(counts@[k] == headcount(self.entities@, other));
            }
            if n > 0 {
                let last = self.entities@[n - 1].alignment.faction;
                assert(headcount(self.entities@, last) > 0);
                assert(faction_roll()[rank_of(last)] == last);
                assert(counts@[rank_of(last)] > 0);
            } else {
                assert(counts@[0] == 0);
                assert forall|k: int| 0 <= k < 7 implies #[trigger] counts@[k] == 0 by {
                    lemma_headcount_bounded(self.entities@, faction_roll()[k]);
                }
            }
        }
        f
    }
}

} // verus!
