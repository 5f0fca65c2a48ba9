use vstd::prelude::*;
use vstd::string::*;
use crate::colour::Colour;
use crate::gradient::{GradientEffect, GradientView};

verus! {

/// How one letter of a guess relates to the target word.
#[derive(Clone, Copy, Debug, PartialEq, Eq, Structural)]
pub enum Verdict {
    /// The letter does not occur in the target.
    Grey,
    /// The letter occurs in the target, at some place or other.
    Orange,
    /// The letter stands at this very place in the target.
    Green,
}

/// Ticks that a hint takes to fade from black into the colour of its verdict.
pub const HINT_FADE_TICKS: usize = 30;

impl Verdict {
    pub open spec fn spec_colour(self) -> Colour {
        match self {
            Verdict::Grey => Colour::grey(),
            Verdict::Orange => Colour::orange(),
            Verdict::Green => Colour::green(),
        }
    }

    /// The colour that shows this verdict.
    #[verifier::when_used_as_spec(spec_colour)]
    pub fn colour(self) -> (c: Colour)
        ensures
            c == self.spec_colour(),
    {
        match self {
            Verdict::Grey => Colour::grey(),
            Verdict::Orange => Colour::orange(),
            Verdict::Green => Colour::green(),
        }
    }
}

/// The verdict on the letter at place `i` of `guess`: green where the target
/// holds the same letter at the same place, else orange where the target
/// holds the letter anywhere, else grey. Letters are judged one by one: a
/// letter that the guess repeats is orange at every place where it is not
/// green, however often the target holds it.
pub open spec fn verdict_at(guess: Seq<char>, target: Seq<char>, i: int) -> Verdict {
    if i < target.len() && target[i] == guess[i] {
        Verdict::Green
    } else if target.contains(guess[i]) {
        Verdict::Orange
    } else {
        Verdict::Grey
    }
}

/// The verdicts on all the letters of `guess`, place by place.
pub open spec fn classify_spec(guess: Seq<char>, target: Seq<char>) -> Seq<Verdict> {
    Seq::new(guess.len(), |i: int| verdict_at(guess, target, i))
}

/// How many of the verdicts are green.
pub open spec fn green_count(verdicts: Seq<Verdict>) -> nat
    decreases verdicts.len(),
{
    if verdicts.len() == 0 {
        0
    } else {
        green_count(verdicts.drop_last()) + if verdicts.last() == Verdict::Green {
            1nat
        } else {
            0nat
        }
    }
}

/// Every verdict is green.
pub open spec fn all_green(verdicts: Seq<Verdict>) -> bool {
    forall|i: int| 0 <= i < verdicts.len() ==> verdicts[i] == Verdict::Green
}

/// There are never more greens than verdicts, and as many exactly when every
/// verdict is green.
pub proof fn lemma_green_count(verdicts: Seq<Verdict>)
    ensures
        green_count(verdicts) <= verdicts.len(),
        green_count(verdicts) == verdicts.len() <==> all_green(verdicts),
    decreases verdicts.len(),
{
    if verdicts.len() > 0 {
        let init = verdicts.drop_last();
        lemma_green_count(init);
        if all_green(verdicts) {
            assert forall|i: int| 0 <= i < init.len() implies init[i] == Verdict::Green by {
                assert(init[i] == verdicts[i]);
            }
            assert(verdicts.last() == Verdict::Green);
        }
        if green_count(verdicts) == verdicts.len() {
            assert forall|i: int| 0 <= i < verdicts.len() implies verdicts[i]
                == Verdict::Green by {
                if i < init.len() {
                    assert(init[i] == verdicts[i]);
                }
            }
        }
    }
}

/// A guess that equals the target is green at every place.
pub proof fn lemma_exact_guess_all_green(word: Seq<char>)
    ensures
        all_green(classify_spec(word, word)),
        green_count(classify_spec(word, word)) == word.len(),
{
    lemma_green_count(classify_spec(word, word));
}

/// A guess that shares no letter with the target is grey at every place.
pub proof fn lemma_disjoint_guess_all_grey(guess: Seq<char>, target: Seq<char>)
    requires
        forall|i: int| 0 <= i < guess.len() ==> !target.contains(#[trigger] guess[i]),
    ensures
        forall|i: int|
            0 <= i < guess.len() ==> #[trigger] classify_spec(guess, target)[i] == Verdict::Grey,
{
    assert forall|i: int| 0 <= i < guess.len() implies #[trigger] classify_spec(guess, target)[i]
        == Verdict::Grey by {
        assert(!target.contains(guess[i]));
        if i < target.len() && target[i] == guess[i] {
            assert(target.contains(target[i]));
        }
    }
}

/// Whether `target` holds the letter `c`.
fn holds_letter(target: &str, c: char) -> (found: bool)
    ensures
        found == target@.contains(c),
{
    let n = target.unicode_len();
    let mut i: usize = 0;
    while i < n
        invariant
            n == target@.len(),
            i <= n,
            forall|j: int| 0 <= j < i ==> target@[j] != c,
        decreases n - i,
    {
        if target.get_char(i) == c {
            return true;
        }
        i = i + 1;
    }
    false
}

/// Judges a guess against the target, letter by letter.
pub fn classify(guess: &str, target: &str) -> (verdicts: Vec<Verdict>)
    ensures
        verdicts@ == classify_spec(guess@, target@),
{
    let n = guess.unicode_len();
    let m = target.unicode_len();
    let mut verdicts: Vec<Verdict> = Vec::new();
    let mut i: usize = 0;
    while i < n
        invariant
            n == guess@.len(),
            m == target@.len(),
            i <= n,
            verdicts@.len() == i,
            forall|j: int| 0 <= j < i ==> verdicts@[j] == verdict_at(guess@, target@, j),
        decreases n - i,
    {
        let c = guess.get_char(i);
        let verdict = if i < m && target.get_char(i) == c {
            Verdict::Green
        } else if holds_letter(target, c) {
            Verdict::Orange
        } else {
            Verdict::Grey
        };
        verdicts.push(verdict);
        i = i + 1;
    }
    verdicts
}

/// Counts the green verdicts.
pub fn count_greens(verdicts: &Vec<Verdict>) -> (greens: usize)
    ensures
        greens == green_count(verdicts@),
{
    let mut greens: usize = 0;
    let mut i: usize = 0;
    while i < verdicts.len()
        invariant
            i <= verdicts.len(),
            greens == green_count(verdicts@.take(i as int)),
            greens <= i,
        decreases verdicts.len() - i,
    {
        proof {
            assert(verdicts@.take(i + 1).drop_last() == verdicts@.take(i as int));
            lemma_green_count(verdicts@.take(i as int));
        }
        match verdicts[i] {
            Verdict::Green => {
                greens = greens + 1;
            },
            _ => {},
        }
        i = i + 1;
    }
    proof {
        assert(verdicts@.take(i as int) == verdicts@);
    }
    greens
}

/// The verdict on a committed letter together with the fade that shows it.
#[derive(Clone, Copy, Debug)]
pub enum Hint {
    Grey(GradientEffect),
    Orange(GradientEffect),
    Green(GradientEffect),
}

/// What a `Hint` holds.
pub struct HintView {
    pub verdict: Verdict,
    pub effect: GradientView,
}

impl HintView {
    /// The fade runs from black to the colour of the verdict and shows the
    /// blend at its elapsed ticks.
    pub open spec fn wf(self) -> bool {
        &&& self.effect.start == Colour::black()
        &&& self.effect.end == self.verdict.colour()
        &&& self.effect.length == HINT_FADE_TICKS
        &&& self.effect.wf()
    }

    /// The hint for `verdict` at the moment of the commit.
    pub open spec fn fresh(verdict: Verdict) -> HintView {
        HintView {
            verdict,
            effect: GradientView::fresh(Colour::black(), verdict.colour(), HINT_FADE_TICKS),
        }
    }

    /// One tick of the fade.
    pub open spec fn update(self) -> HintView {
        HintView { verdict: self.verdict, effect: self.effect.update() }
    }
}

impl View for Hint {
    type V = HintView;

    open spec fn view(&self) -> HintView {
        match *self {
            Hint::Grey(effect) => HintView { verdict: Verdict::Grey, effect: effect@ },
            Hint::Orange(effect) => HintView { verdict: Verdict::Orange, effect: effect@ },
            Hint::Green(effect) => HintView { verdict: Verdict::Green, effect: effect@ },
        }
    }
}

impl Hint {
    /// The hint for `verdict`, its fade not yet started.
    pub fn new(verdict: Verdict) -> (hint: Hint)
        ensures
            hint@ == HintView::fresh(verdict),
            hint@.wf(),
    {
        let effect = GradientEffect::new(Colour::black(), verdict.colour(), HINT_FADE_TICKS);
        match verdict {
            Verdict::Grey => Hint::Grey(effect),
            Verdict::Orange => Hint::Orange(effect),
            Verdict::Green => Hint::Green(effect),
        }
    }

    /// The verdict that this hint shows.
    pub fn verdict(&self) -> (verdict: Verdict)
        ensures
            verdict == self@.verdict,
    {
        match self {
            Hint::Grey(_) => Verdict::Grey,
            Hint::Orange(_) => Verdict::Orange,
            Hint::Green(_) => Verdict::Green,
        }
    }

    /// The fade of this hint.
    pub fn effect(&self) -> (effect: GradientEffect)
        ensures
            effect@ == self@.effect,
    {
        match self {
            Hint::Grey(effect) => *effect,
            Hint::Orange(effect) => *effect,
            Hint::Green(effect) => *effect,
        }
    }

    /// The colour in which the hint is shown now.
    pub fn colour(&self) -> (c: Colour)
        ensures
            c == self@.effect.current,
    {
        self.effect().current()
    }

    /// One tick of the fade.
    pub fn update(&mut self)
        ensures
            final(self)@ == old(self)@.update(),
    {
        match self {
            Hint::Grey(effect) => effect.update(),
            Hint::Orange(effect) => effect.update(),
            Hint::Green(effect) => effect.update(),
        }
    }
}

/// A tick keeps a hint well formed.
pub proof fn lemma_hint_update_wf(hint: HintView)
    requires
        hint.wf(),
    ensures
        hint.update().wf(),
{
    crate::gradient::lemma_ticks_keep_wf(hint.effect, Colour::black());
}

} // verus!
