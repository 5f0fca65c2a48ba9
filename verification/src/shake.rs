use vstd::prelude::*;
use crate::rng::gen_range_i32;

verus! {

/// Largest distance, in pixels, that a shake at full intensity moves the
/// board along either axis.
pub const SHAKE_REACH: i32 = 40;

/// Largest intensity of a shake, in hundredths.
pub const FULL_INTENSITY: u8 = 100;

/// A timed jitter of the board. While it runs, every tick draws a fresh
/// offset; there is no decay from tick to tick.
///
/// The intensity is held in hundredths (0 to 100) and the offset in
/// hundredths of a pixel, so that the product of a whole-pixel sample and the
/// intensity is exact.
#[derive(Clone, Copy, Debug)]
pub struct Effect {
    offset: (i32, i32),
    elapsed: usize,
    length: usize,
    running: bool,
    intensity: u8,
}

/// What an `Effect` holds.
pub struct EffectView {
    /// Displacement in hundredths of a pixel.
    pub offset: (i32, i32),
    pub elapsed: usize,
    pub length: usize,
    pub running: bool,
    /// Intensity in hundredths.
    pub intensity: u8,
}

impl EffectView {
    /// The intensity is at most full, the offset is no farther than a sample
    /// within reach can give at full intensity, and an effect at rest has no
    /// offset.
    pub open spec fn wf(self) -> bool {
        &&& self.intensity <= FULL_INTENSITY
        &&& -SHAKE_REACH * FULL_INTENSITY <= self.offset.0 <= SHAKE_REACH * FULL_INTENSITY
        &&& -SHAKE_REACH * FULL_INTENSITY <= self.offset.1 <= SHAKE_REACH * FULL_INTENSITY
        &&& self.running ==> self.elapsed <= self.length
        &&& !self.running ==> self == Self::idle()
    }

    /// An effect at rest.
    pub open spec fn idle() -> EffectView {
        EffectView { offset: (0, 0), elapsed: 0, length: 0, running: false, intensity: 0 }
    }

    /// The intensity a shake runs at when `intensity` is asked for.
    pub open spec fn clamp_intensity(intensity: u8) -> u8 {
        if intensity <= FULL_INTENSITY {
            intensity
        } else {
            FULL_INTENSITY
        }
    }

    /// A shake of `length` ticks begins; the offset is left as it was until
    /// the first tick.
    pub open spec fn start_shake(self, length: usize, intensity: u8) -> EffectView {
        EffectView {
            offset: self.offset,
            elapsed: 0,
            length,
            running: true,
            intensity: Self::clamp_intensity(intensity),
        }
    }

    /// One tick with the samples `dx` and `dy`, in pixels. An effect at rest
    /// stays at rest. A running effect whose elapsed ticks have reached its
    /// length comes to rest; otherwise it takes the samples, scaled by its
    /// intensity, as its offset, and counts the tick.
    pub open spec fn run(self, dx: i32, dy: i32) -> EffectView {
        if !self.running {
            self
        } else if self.elapsed >= self.length {
            Self::idle()
        } else {
            EffectView {
                offset: ((dx * self.intensity) as i32, (dy * self.intensity) as i32),
                elapsed: (self.elapsed + 1) as usize,
                ..self
            }
        }
    }
}

/// A sample that a tick may be given: a whole number of pixels within reach.
pub open spec fn within_reach(d: i32) -> bool {
    -SHAKE_REACH <= d <= SHAKE_REACH
}

/// Starting a shake and every tick keep the effect well formed, and a tick
/// of a shake that has lasted its length brings it to rest with no offset.
pub proof fn lemma_shake_wf(e: EffectView, length: usize, intensity: u8, dx: i32, dy: i32)
    requires
        e.wf(),
        within_reach(dx),
        within_reach(dy),
    ensures
        e.start_shake(length, intensity).wf(),
        e.run(dx, dy).wf(),
        !e.run(dx, dy).running ==> e.run(dx, dy).offset == (0i32, 0i32),
{
    let i = e.intensity as int;
    assert(-4000 <= dx * i <= 4000 && -4000 <= dy * i <= 4000) by (nonlinear_arith)
        requires
            -40 <= dx <= 40,
            -40 <= dy <= 40,
            0 <= i <= 100,
    ;
}

impl View for Effect {
    type V = EffectView;

    closed spec fn view(&self) -> EffectView {
        EffectView {
            offset: self.offset,
            elapsed: self.elapsed,
            length: self.length,
            running: self.running,
            intensity: self.intensity,
        }
    }
}

impl Effect {
    /// An effect at rest.
    pub fn new() -> (e: Self)
        ensures
            e@ == EffectView::idle(),
            e@.wf(),
    {
        Self { offset: (0, 0), elapsed: 0, length: 0, running: false, intensity: 0 }
    }

    /// Begins a shake of `length` ticks at `intensity` hundredths; an
    /// intensity above one hundred counts as one hundred.
    pub fn start_shake(&mut self, length: usize, intensity: u8)
        ensures
            final(self)@ == old(self)@.start_shake(length, intensity),
            old(self)@.wf() ==> final(self)@.wf(),
    {
        let intensity = if intensity <= FULL_INTENSITY {
            intensity
        } else {
            FULL_INTENSITY
        };
        self.elapsed = 0;
        self.length = length;
        self.running = true;
        self.intensity = intensity;
    }

    /// Brings the effect to rest.
    pub fn reset(&mut self)
        ensures
            final(self)@ == EffectView::idle(),
            final(self)@.wf(),
    {
        self.elapsed = 0;
        self.length = 0;
        self.running = false;
        self.offset = (0, 0);
        self.intensity = 0;
    }

    /// One tick with the given samples.
    pub fn run_with(&mut self, dx: i32, dy: i32)
        requires
            old(self)@.wf(),
            within_reach(dx),
            within_reach(dy),
        ensures
            final(self)@ == old(self)@.run(dx, dy),
            final(self)@.wf(),
    {
        proof {
            lemma_shake_wf(self@, 0, 0, dx, dy);
        }
        if self.running {
            if self.elapsed >= self.length {
                self.reset();
            } else {
                let scale: i32 = self.intensity as i32;
                assert(-4000 <= dx * scale <= 4000 && -4000 <= dy * scale <= 4000)
                    by (nonlinear_arith)
                    requires
                        -40 <= dx <= 40,
                        -40 <= dy <= 40,
                        0 <= scale <= 100,
                ;
                self.offset = (dx * scale, dy * scale);
                self.elapsed = self.elapsed + 1;
            }
        }
    }

    /// The samples for the next tick. A running effect draws them from the
    /// shared generator, which gives whole pixels from `-SHAKE_REACH` up to,
    /// but not including, `SHAKE_REACH`; an effect at rest draws nothing and
    /// gets zeros.
    pub fn sample(&self) -> (samples: (i32, i32))
        ensures
            within_reach(samples.0),
            within_reach(samples.1),
            -SHAKE_REACH <= samples.0 < SHAKE_REACH,
            -SHAKE_REACH <= samples.1 < SHAKE_REACH,
            !self@.running ==> samples == (0i32, 0i32),
    {
        if self.running {
            let dx: i32 = gen_range_i32(-SHAKE_REACH, SHAKE_REACH);
            let dy: i32 = gen_range_i32(-SHAKE_REACH, SHAKE_REACH);
            (dx, dy)
        } else {
            (0, 0)
        }
    }

    /// One tick, with samples drawn as `sample` draws them.
    pub fn run(&mut self)
        requires
            old(self)@.wf(),
        ensures
            final(self)@.wf(),
            exists|dx: i32, dy: i32|
                within_reach(dx) && within_reach(dy) && final(self)@ == old(self)@.run(dx, dy),
    {
        let (dx, dy) = self.sample();
        self.run_with(dx, dy);
        assert(within_reach(dx) && within_reach(dy) && self@ == old(self)@.run(dx, dy));
    }

    /// The displacement of the board, in hundredths of a pixel.
    pub fn offset(&self) -> (offset: (i32, i32))
        ensures
            offset == self@.offset,
    {
        self.offset
    }

    /// Whether a shake is under way.
    pub fn running(&self) -> (running: bool)
        ensures
            running == self@.running,
    {
        self.running
    }

    /// Ticks that the shake under way has lasted.
    pub fn elapsed(&self) -> (elapsed: usize)
        ensures
            elapsed == self@.elapsed,
    {
        self.elapsed
    }

    /// The intensity of the shake under way, in hundredths.
    pub fn intensity(&self) -> (intensity: u8)
        ensures
            intensity == self@.intensity,
    {
        self.intensity
    }
}

} // verus!
