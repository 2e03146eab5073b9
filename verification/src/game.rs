//! The simulation: the live grid, a scratch grid for the transition, and
//! the recording of every generation that a run has left behind.

use vstd::prelude::*;
use crate::animation::{animation_bytes, encode_animation, frames_fit};
use crate::error::LifeError;
use crate::grid::{Grid, GridView, DEAD, MIN_SIDE};

verus! {

/// The largest side of an exported animation: the image format holds each
/// side in 16 bits.
pub const MAX_EXPORT_SIDE: i32 = 0xFFFF;

/// The mathematical content of a [`Game`]: the live generation and the
/// generations recorded so far, oldest first.
pub struct GameView {
    pub current: GridView,
    pub history: Seq<GridView>,
}

impl GameView {
    /// The live grid is valid, and every recorded generation is a valid
    /// grid of its shape.
    pub open spec fn wf(self) -> bool {
        &&& self.current.wf()
        &&& forall|i: int|
            0 <= i < self.history.len() ==> {
                &&& (#[trigger] self.history[i]).wf()
                &&& self.history[i].same_shape(self.current)
            }
    }

    /// One iteration of a run: the live generation is recorded, then
    /// replaced by its successor.
    pub open spec fn tick(self) -> GameView {
        GameView { current: self.current.next(), history: self.history.push(self.current) }
    }

    /// The simulation after `n` iterations.
    pub open spec fn run(self, n: nat) -> GameView
        decreases n,
    {
        if n == 0 {
            self
        } else {
            self.run((n - 1) as nat).tick()
        }
    }

    /// The live grid seeded from one outcome per cell; the recording is
    /// kept.
    pub open spec fn seeded(self, dead: Seq<bool>) -> GameView {
        GameView { current: self.current.seeded(dead), ..self }
    }

    /// The recording as frames of `h` rows of `w` pixels, oldest first.
    pub open spec fn frames(self, h: int, w: int) -> Seq<Seq<u8>> {
        Seq::new(self.history.len(), |i: int| self.history[i].resampled(h, w))
    }
}

/// A simulation of the game on one grid.
#[derive(Debug)]
pub struct Game {
    grid: Grid,
    buf_grid: Grid,
    history: Vec<Grid>,
    height: i32,
    width: i32,
}

impl View for Game {
    type V = GameView;

    closed spec fn view(&self) -> GameView {
        GameView {
            current: self.grid@,
            history: Seq::new(self.history@.len(), |i: int| self.history@[i]@),
        }
    }
}

/// How many iterations a run of the given count makes: none for a
/// negative count.
pub open spec fn iterations_of(count: i32) -> nat {
    if count < 0 {
        0
    } else {
        count as nat
    }
}

impl Game {
    /// The validity of a simulation: that of its content, a scratch grid
    /// of the live grid's shape, and the sides on record.
    pub closed spec fn wf(&self) -> bool {
        &&& self@.wf()
        &&& self.buf_grid.wf()
        &&& self.buf_grid@.same_shape(self.grid@)
        &&& self.height == self.grid@.height
        &&& self.width == self.grid@.width
    }

    /// The content of a valid simulation is valid.
    pub proof fn lemma_view_wf(&self)
        requires
            self.wf(),
        ensures
            self@.wf(),
    {
    }

    /// A simulation on an all-dead grid of `h` rows and `w` columns, with
    /// nothing recorded. It is refused when a side is below the minimum.
    pub fn new(h: i32, w: i32, wrap: bool) -> (r: Result<Game, LifeError>)
        requires
            h >= MIN_SIDE && w >= MIN_SIDE ==> h * w <= i32::MAX,
        ensures
            h < MIN_SIDE || w < MIN_SIDE <==> r is Err,
            r is Err ==> r == Err::<Game, LifeError>(LifeError::InvalidDimensions),
            r is Ok ==> {
                &&& r->Ok_0.wf()
                &&& r->Ok_0@.history == Seq::<GridView>::empty()
                &&& r->Ok_0@.current.height == h
                &&& r->Ok_0@.current.width == w
                &&& r->Ok_0@.current.wrap == wrap
                &&& r->Ok_0@.current.cells == Seq::new((h * w) as nat, |i: int| DEAD)
            },
    {
        let grid: Grid = match Grid::new(h, w, wrap) {
            Ok(grid) => grid,
            Err(e) => {
                return Err(e);
            },
        };
        let buf_grid: Grid = match Grid::new(h, w, wrap) {
            Ok(grid) => grid,
            Err(e) => {
                return Err(e);
            },
        };
        let game = Game { grid, buf_grid, history: Vec::new(), height: h, width: w };
        assert(game@.history =~= Seq::<GridView>::empty());
        Ok(game)
    }

    /// The live grid.
    pub fn grid(&self) -> (grid: &Grid)
        ensures
            grid@ == self@.current,
            self.wf() ==> grid.wf(),
    {
        &self.grid
    }

    /// Number of rows of the grid.
    pub fn height(&self) -> (h: i32)
        ensures
            self.wf() ==> h == self@.current.height,
    {
        self.height
    }

    /// Number of columns of the grid.
    pub fn width(&self) -> (w: i32)
        ensures
            self.wf() ==> w == self@.current.width,
    {
        self.width
    }

    /// How many generations have been recorded.
    pub fn recorded(&self) -> (n: usize)
        ensures
            n == self@.history.len(),
    {
        self.history.len()
    }

    /// The recorded generation `i`, counted from the oldest.
    pub fn frame(&self, i: usize) -> (grid: &Grid)
        requires
            i < self@.history.len(),
        ensures
            grid@ == self@.history[i as int],
            self.wf() ==> grid.wf(),
    {
        proof {
            if self.wf() {
                assert(self@.history[i as int].wf());
            }
        }
        &self.history[i]
    }

    /// Seeds the live grid from one outcome per cell, as
    /// [`Grid::randomize`] does.
    pub fn randomize(&mut self, dead: &Vec<bool>)
        requires
            old(self).wf(),
            dead@.len() == old(self)@.current.cells.len(),
        ensures
            final(self)@ == old(self)@.seeded(dead@),
            final(self).wf(),
    {
        self.grid.randomize(dead);
        proof {
            assert(self@.history =~= old(self)@.history);
        }
    }

    /// Advances the live grid by one generation. Nothing is recorded.
    pub fn step(&mut self)
        requires
            old(self).wf(),
        ensures
            final(self)@.current == old(self)@.current.next(),
            final(self)@.history == old(self)@.history,
            final(self).wf(),
    {
        self.grid.step(&mut self.buf_grid);
        std::mem::swap(&mut self.grid, &mut self.buf_grid);
        proof {
            assert(self@.history =~= old(self)@.history);
        }
    }

    /// Runs `iterations` iterations, none if the count is negative. Each
    /// records the live generation as it stands before the step, then
    /// advances it.
    pub fn run(&mut self, iterations: i32)
        requires
            old(self).wf(),
        ensures
            final(self)@ == old(self)@.run(iterations_of(iterations)),
            final(self).wf(),
    {
        let mut i: i32 = 0;
        while i < iterations
            invariant
                0 <= i,
                i as nat <= iterations_of(iterations),
                self.wf(),
                self@ == old(self)@.run(i as nat),
            decreases iterations - i,
        {
            let ghost before = self@;
            let snapshot: Grid = self.grid.clone();
            self.history.push(snapshot);
            proof {
                assert(self@.history =~= before.history.push(before.current));
            }
            self.step();
            proof {
                assert(self@ == before.tick());
            }
            i += 1;
        }
    }

    /// The recording as frames for an animation of `h` rows of `w`
    /// pixels. It is refused with [`LifeError::NoFramesToExport`] when
    /// nothing is recorded, and with [`LifeError::InvalidDimensions`] when
    /// something is recorded and a target side is not positive.
    pub fn frames(&self, h: i32, w: i32) -> (r: Result<Vec<Vec<u8>>, LifeError>)
        requires
            self.wf(),
            self@.history.len() > 0 && h > 0 && w > 0 ==> h <= MAX_EXPORT_SIDE && w
                <= MAX_EXPORT_SIDE,
        ensures
            r == Err::<Vec<Vec<u8>>, LifeError>(LifeError::NoFramesToExport)
                <==> self@.history.len() == 0,
            r == Err::<Vec<Vec<u8>>, LifeError>(LifeError::InvalidDimensions)
                <==> self@.history.len() > 0 && (h <= 0 || w <= 0),
            r is Ok <==> self@.history.len() > 0 && h > 0 && w > 0,
            r is Ok ==> r->Ok_0.deep_view() == self@.frames(h as int, w as int),
    {
        if self.history.len() == 0 {
            return Err(LifeError::NoFramesToExport);
        }
        if h <= 0 || w <= 0 {
            return Err(LifeError::InvalidDimensions);
        }
        let mut frames: Vec<Vec<u8>> = Vec::new();
        let mut i: usize = 0;
        while i < self.history.len()
            invariant
                self.wf(),
                0 < h <= MAX_EXPORT_SIDE,
                0 < w <= MAX_EXPORT_SIDE,
                0 <= i <= self.history@.len(),
                frames@.len() == i,
                forall|k: int|
                    0 <= k < i ==> (#[trigger] frames@[k])@ == self@.history[k].resampled(
                        h as int,
                        w as int,
                    ),
            decreases self.history@.len() - i,
        {
            assert(self@.history[i as int].wf());
            let pixels: Vec<u8> = self.history[i].resample(h as u16, w as u16);
            frames.push(pixels);
            i += 1;
        }
        proof {
            assert forall|k: int| 0 <= k < frames@.len() implies #[trigger] frames.deep_view()[k]
                == self@.frames(h as int, w as int)[k] by {
                assert(frames.deep_view()[k] == frames@[k]@);
            }
            assert(frames.deep_view() =~= self@.frames(h as int, w as int));
        }
        Ok(frames)
    }

    /// The recording as an endlessly looping animation of `h` rows of `w`
    /// pixels, dead cells black and live cells white, each recorded
    /// generation one frame. The simulation is only read.
    ///
    /// The refusals are those of [`Game::frames`]. With something recorded
    /// and both sides positive the export succeeds, and the stream is
    /// [`animation_bytes`] of the frames.
    pub fn export(&self, h: i32, w: i32) -> (r: Result<Vec<u8>, LifeError>)
        requires
            self.wf(),
            self@.history.len() > 0 && h > 0 && w > 0 ==> h <= MAX_EXPORT_SIDE && w
                <= MAX_EXPORT_SIDE,
        ensures
            r == Err::<Vec<u8>, LifeError>(LifeError::NoFramesToExport)
                <==> self@.history.len() == 0,
            r == Err::<Vec<u8>, LifeError>(LifeError::InvalidDimensions)
                <==> self@.history.len() > 0 && (h <= 0 || w <= 0),
            r is Ok <==> self@.history.len() > 0 && h > 0 && w > 0,
            r is Ok ==> r->Ok_0@ == animation_bytes(
                w as u16,
                h as u16,
                self@.frames(h as int, w as int),
            ),
    {
        let frames: Vec<Vec<u8>> = match self.frames(h, w) {
            Ok(frames) => frames,
            Err(e) => {
                return Err(e);
            },
        };
        proof {
            assert forall|i: int| 0 <= i < frames.deep_view().len() implies (
            #[trigger] frames.deep_view()[i]).len() >= (w as u16) * (h as u16) by {
                assert(frames.deep_view()[i] == self@.history[i].resampled(h as int, w as int));
                assert(h * w == w * h) by (nonlinear_arith);
                assert(0 < h * w) by (nonlinear_arith)
                    requires
                        0 < h,
                        0 < w,
                ;
            }
            assert(frames_fit(w as u16, h as u16, frames.deep_view()));
        }
        encode_animation(w as u16, h as u16, &frames)
    }
}

} // verus!
