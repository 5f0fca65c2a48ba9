use vstd::prelude::*;
use crate::colour::{lerp, lemma_lerp_end, lemma_lerp_start, lerpColour, random_colour, Colour};

verus! {

/// A timed linear blend from one colour to another, advanced one tick at a
/// time. It is driven either as a one-shot (`update`), which settles on its
/// end colour, or as a continuous drift (`constant_update`), which starts a
/// new leg towards a freshly drawn colour whenever the current leg is over.
#[derive(Clone, Copy, Debug, PartialEq, Eq, Structural)]
pub struct GradientEffect {
    start: Colour,
    end: Colour,
    current: Colour,
    length: usize,
    ticks: usize,
}

/// What a `GradientEffect` holds.
pub struct GradientView {
    pub start: Colour,
    pub end: Colour,
    pub current: Colour,
    /// Ticks that one leg of the blend takes.
    pub length: usize,
    /// Ticks elapsed on the current leg.
    pub ticks: usize,
}

impl GradientView {
    /// The shown colour is the blend at the elapsed ticks.
    pub open spec fn wf(self) -> bool {
        self.current == lerp(self.start, self.end, self.ticks as nat, self.length as nat)
    }

    /// A blend that has not started.
    pub open spec fn fresh(start: Colour, end: Colour, length: usize) -> GradientView {
        GradientView { start, end, current: start, length, ticks: 0 }
    }

    /// One tick later, the counter stopping at the largest value it can hold.
    pub open spec fn next_ticks(self) -> usize {
        if self.ticks < usize::MAX {
            (self.ticks + 1) as usize
        } else {
            self.ticks
        }
    }

    /// One tick of a one-shot blend: while the elapsed ticks do not exceed
    /// the length they advance and the colour follows; after that nothing
    /// changes.
    pub open spec fn update(self) -> GradientView {
        if self.ticks <= self.length {
            GradientView {
                current: lerp(
                    self.start,
                    self.end,
                    self.next_ticks() as nat,
                    self.length as nat,
                ),
                ticks: self.next_ticks(),
                ..self
            }
        } else {
            self
        }
    }

    /// `n` ticks of a one-shot blend.
    pub open spec fn updates(self, n: nat) -> GradientView
        decreases n,
    {
        if n == 0 {
            self
        } else {
            self.updates((n - 1) as nat).update()
        }
    }

    /// One tick of a continuous blend. When the leg is over, the shown colour
    /// becomes the start of a new leg towards `next_end` and the elapsed
    /// ticks return to zero; otherwise the leg advances by one tick.
    pub open spec fn constant_update(self, next_end: Colour) -> GradientView {
        if self.ticks >= self.length {
            GradientView {
                start: self.current,
                end: next_end,
                current: self.current,
                length: self.length,
                ticks: 0,
            }
        } else {
            GradientView {
                current: lerp(
                    self.start,
                    self.end,
                    (self.ticks + 1) as nat,
                    self.length as nat,
                ),
                ticks: (self.ticks + 1) as usize,
                ..self
            }
        }
    }

    /// The ticks of a continuous blend that draws `ends[0]`, `ends[1]`, ...
    /// in turn, one colour per tick (a tick that starts no new leg ignores
    /// its colour).
    pub open spec fn constant_updates(self, ends: Seq<Colour>) -> GradientView
        decreases ends.len(),
    {
        if ends.len() == 0 {
            self
        } else {
            self.constant_updates(ends.drop_last()).constant_update(ends.last())
        }
    }
}

/// Every tick of either kind keeps the shown colour on the blend.
pub proof fn lemma_ticks_keep_wf(g: GradientView, next_end: Colour)
    requires
        g.wf(),
    ensures
        g.update().wf(),
        g.constant_update(next_end).wf(),
{
    lemma_lerp_start(g.current, next_end, g.length as nat);
}

/// During the first `length` ticks of a one-shot blend, the elapsed ticks
/// count the calls and the colour is the blend at that count.
pub proof fn lemma_one_shot_progress(g: GradientView, n: nat)
    requires
        g.ticks == 0,
        n <= g.length,
    ensures
        g.updates(n).ticks == n,
        g.updates(n).start == g.start,
        g.updates(n).end == g.end,
        g.updates(n).length == g.length,
        n > 0 ==> g.updates(n).current == lerp(g.start, g.end, n, g.length as nat),
    decreases n,
{
    if n > 0 {
        lemma_one_shot_progress(g, (n - 1) as nat);
    }
}

/// A one-shot blend of at least one tick that starts at zero shows its end
/// colour after exactly `length` ticks, and after any number of further
/// ticks.
pub proof fn lemma_one_shot_settles(g: GradientView, n: nat)
    requires
        g.ticks == 0,
        g.length >= 1,
        n >= g.length,
    ensures
        g.updates(n).current == g.end,
        g.updates(n).end == g.end,
        g.updates(n).ticks >= g.length,
    decreases n,
{
    if n == g.length {
        lemma_one_shot_progress(g, n);
        lemma_lerp_end(g.start, g.end, n, g.length as nat);
    } else {
        lemma_one_shot_settles(g, (n - 1) as nat);
        let before = g.updates((n - 1) as nat);
        lemma_one_shot_progress(g, g.length as nat);
        lemma_one_shot_frame(g, (n - 1) as nat);
        if before.ticks <= before.length {
            lemma_lerp_end(
                before.start,
                before.end,
                before.next_ticks() as nat,
                before.length as nat,
            );
        }
    }
}

/// One-shot ticks never touch the end points nor the length.
pub proof fn lemma_one_shot_frame(g: GradientView, n: nat)
    ensures
        g.updates(n).start == g.start,
        g.updates(n).end == g.end,
        g.updates(n).length == g.length,
    decreases n,
{
    if n > 0 {
        lemma_one_shot_frame(g, (n - 1) as nat);
    }
}

/// After a tick of a continuous blend the elapsed ticks never exceed the
/// length. A tick starts a new leg exactly when the elapsed ticks have
/// reached the length: the leg then begins at the colour shown, which for a
/// blend of at least one tick is the end colour of the leg that is over.
pub proof fn lemma_continuous_step(g: GradientView, next_end: Colour)
    ensures
        g.constant_update(next_end).ticks <= g.length,
        g.constant_update(next_end).length == g.length,
        g.ticks >= g.length ==> {
            &&& g.constant_update(next_end).ticks == 0
            &&& g.constant_update(next_end).start == g.current
            &&& g.constant_update(next_end).current == g.current
            &&& g.constant_update(next_end).end == next_end
        },
        g.ticks >= g.length && g.length >= 1 && g.wf() ==> g.constant_update(next_end).start
            == g.end,
        g.ticks < g.length ==> {
            &&& g.constant_update(next_end).ticks == g.ticks + 1
            &&& g.constant_update(next_end).start == g.start
            &&& g.constant_update(next_end).end == g.end
        },
{
    if g.ticks >= g.length && g.length >= 1 && g.wf() {
        lemma_lerp_end(g.start, g.end, g.ticks as nat, g.length as nat);
    }
}

/// However many ticks a continuous blend runs, and whatever colours it
/// draws, its elapsed ticks stay within its length and its colour stays on
/// the blend.
pub proof fn lemma_continuous_bounded(g: GradientView, ends: Seq<Colour>)
    requires
        g.wf(),
        g.ticks <= g.length,
    ensures
        g.constant_updates(ends).ticks <= g.length,
        g.constant_updates(ends).length == g.length,
        g.constant_updates(ends).wf(),
    decreases ends.len(),
{
    if ends.len() > 0 {
        lemma_continuous_bounded(g, ends.drop_last());
        let before = g.constant_updates(ends.drop_last());
        lemma_ticks_keep_wf(before, ends.last());
        lemma_continuous_step(before, ends.last());
    }
}

impl View for GradientEffect {
    type V = GradientView;

    closed spec fn view(&self) -> GradientView {
        GradientView {
            start: self.start,
            end: self.end,
            current: self.current,
            length: self.length,
            ticks: self.ticks,
        }
    }
}

impl GradientEffect {
    /// A blend from `start` to `end` over `length` ticks, not yet started.
    pub fn new(start: Colour, end: Colour, length: usize) -> (g: Self)
        ensures
            g@ == GradientView::fresh(start, end, length),
            g@.wf(),
    {
        proof {
            lemma_lerp_start(start, end, length as nat);
        }
        Self { start, current: start, end, length, ticks: 0 }
    }

    /// A continuous blend between two colours drawn from the shared
    /// generator, with legs of `interval` ticks.
    pub fn constant_random(interval: usize) -> (g: Self)
        ensures
            g@.length == interval,
            g@.ticks == 0,
            g@.current == g@.start,
            g@.start.r < 255 && g@.start.g < 255 && g@.start.b < 255,
            g@.end.r < 255 && g@.end.g < 255 && g@.end.b < 255,
            g@.wf(),
    {
        let start = random_colour();
        let end = random_colour();
        Self::new(start, end, interval)
    }

    /// One tick of a continuous blend whose next leg, if this tick starts
    /// one, heads for `next_end`.
    pub fn constant_update_with(&mut self, next_end: Colour)
        ensures
            final(self)@ == old(self)@.constant_update(next_end),
            final(self)@.ticks <= final(self)@.length,
            old(self)@.wf() ==> final(self)@.wf(),
    {
        proof {
            lemma_lerp_start(self.current, next_end, self.length as nat);
        }
        if self.ticks >= self.length {
            self.start = self.current;
            self.end = next_end;
            self.ticks = 0;
        } else {
            self.ticks = self.ticks + 1;
            self.current = lerpColour(self.start, self.end, self.ticks, self.length);
        }
    }

    /// One tick of a continuous blend. A new leg heads for a colour drawn
    /// from the shared generator; the generator is consulted only when a leg
    /// starts.
    pub fn constant_update(&mut self)
        ensures
            exists|next_end: Colour|
                next_end.r < 255 && next_end.g < 255 && next_end.b < 255 && final(self)@ == old(
                    self,
                )@.constant_update(next_end),
            final(self)@.ticks <= final(self)@.length,
            old(self)@.wf() ==> final(self)@.wf(),
    {
        if self.ticks >= self.length {
            let next_end = random_colour();
            self.constant_update_with(next_end);
            assert(next_end.r < 255 && next_end.g < 255 && next_end.b < 255 && self@ == old(
                self,
            )@.constant_update(next_end));
        } else {
            let unused = Colour::black();
            self.constant_update_with(unused);
            assert(unused.r < 255 && unused.g < 255 && unused.b < 255 && self@ == old(
                self,
            )@.constant_update(unused));
        }
    }

    /// One tick of a one-shot blend.
    pub fn update(&mut self)
        ensures
            final(self)@ == old(self)@.update(),
            old(self)@.wf() ==> final(self)@.wf(),
    {
        if self.ticks <= self.length {
            if self.ticks < usize::MAX {
                self.ticks = self.ticks + 1;
            }
            self.current = lerpColour(self.start, self.end, self.ticks, self.length);
        }
    }

    /// The colour shown now.
    pub fn current(&self) -> (c: Colour)
        ensures
            c == self@.current,
    {
        self.current
    }

    /// The colour the blend starts from.
    pub fn start(&self) -> (c: Colour)
        ensures
            c == self@.start,
    {
        self.start
    }

    /// The colour the blend heads for.
    pub fn end(&self) -> (c: Colour)
        ensures
            c == self@.end,
    {
        self.end
    }

    /// Ticks that one leg takes.
    pub fn length(&self) -> (n: usize)
        ensures
            n == self@.length,
    {
        self.length
    }

    /// Ticks elapsed on the current leg.
    pub fn ticks(&self) -> (n: usize)
        ensures
            n == self@.ticks,
    {
        self.ticks
    }
}

} // verus!
