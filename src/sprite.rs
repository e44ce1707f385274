use vstd::prelude::*;

verus! {

/// A frame of a sprite: one character cell.
pub type Fr = char;

/// An atomic visual asset: one or more frames cycled periodically.
#[derive(Debug)]
pub struct Sprite {
    pub frames: Vec<Fr>,
    pub period: usize,
    pub offset: usize,
}

impl Sprite {
    /// A sprite that can be drawn: it has a frame and a non-zero period.
    pub open spec fn wf(&self) -> bool {
        self.frames@.len() > 0 && self.period > 0
    }

    pub fn new(frames: Vec<Fr>, period: usize, offset: usize) -> (r: Sprite)
        ensures
            r.frames == frames,
            r.period == period,
            r.offset == offset,
    {
        Sprite { frames, period, offset }
    }

    /// A sprite with a single frame.
    pub fn new_solid(frame: Fr) -> (r: Sprite)
        ensures
            r.wf(),
            r.frames@ == seq![frame],
            r.period == 1,
            r.offset == 0,
    {
        Sprite { frames: vec![frame], period: 1, offset: 0 }
    }

    /// The frame shown at time `beat`.
    pub fn draw(&self, beat: usize) -> (r: Fr)
        requires
            self.wf(),
            self.offset + beat / self.period <= usize::MAX,
        ensures
            r == self.frames@[(self.offset + beat / self.period) % self.frames@.len() as int],
    {
        let i = (self.offset + beat / self.period) % self.frames.len();
        self.frames[i]
    }
}

} // verus!
