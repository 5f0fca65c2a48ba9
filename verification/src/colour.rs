use vstd::prelude::*;
use crate::rng::gen_range_i32;

verus! {

/// An opaque colour with 8-bit red, green and blue channels.
#[derive(Clone, Copy, Debug, PartialEq, Eq, Structural)]
pub struct Colour {
    pub r: u8,
    pub g: u8,
    pub b: u8,
}

impl Colour {
    pub open spec fn spec_black() -> Colour {
        Colour { r: 0, g: 0, b: 0 }
    }

    pub open spec fn spec_white() -> Colour {
        Colour { r: 255, g: 255, b: 255 }
    }

    pub open spec fn spec_red() -> Colour {
        Colour { r: 230, g: 41, b: 56 }
    }

    pub open spec fn spec_blue() -> Colour {
        Colour { r: 0, g: 120, b: 242 }
    }

    pub open spec fn spec_green() -> Colour {
        Colour { r: 83, g: 141, b: 78 }
    }

    pub open spec fn spec_orange() -> Colour {
        Colour { r: 181, g: 159, b: 59 }
    }

    pub open spec fn spec_grey() -> Colour {
        Colour { r: 58, g: 58, b: 60 }
    }

    /// The neutral colour every hint starts from.
    #[verifier::when_used_as_spec(spec_black)]
    pub fn black() -> (c: Colour)
        ensures
            c == Self::spec_black(),
    {
        Colour { r: 0, g: 0, b: 0 }
    }

    /// Default text colour of a message.
    #[verifier::when_used_as_spec(spec_white)]
    pub fn white() -> (c: Colour)
        ensures
            c == Self::spec_white(),
    {
        Colour { r: 255, g: 255, b: 255 }
    }

    /// Background of the messages that announce a loss.
    #[verifier::when_used_as_spec(spec_red)]
    pub fn red() -> (c: Colour)
        ensures
            c == Self::spec_red(),
    {
        Colour { r: 230, g: 41, b: 56 }
    }

    /// Background of the message that announces a rejected word.
    #[verifier::when_used_as_spec(spec_blue)]
    pub fn blue() -> (c: Colour)
        ensures
            c == Self::spec_blue(),
    {
        Colour { r: 0, g: 120, b: 242 }
    }

    /// Colour of a letter that sits at its place in the target.
    #[verifier::when_used_as_spec(spec_green)]
    pub fn green() -> (c: Colour)
        ensures
            c == Self::spec_green(),
    {
        Colour { r: 83, g: 141, b: 78 }
    }

    /// Colour of a letter that occurs elsewhere in the target.
    #[verifier::when_used_as_spec(spec_orange)]
    pub fn orange() -> (c: Colour)
        ensures
            c == Self::spec_orange(),
    {
        Colour { r: 181, g: 159, b: 59 }
    }

    /// Colour of a letter that the target does not hold.
    #[verifier::when_used_as_spec(spec_grey)]
    pub fn grey() -> (c: Colour)
        ensures
            c == Self::spec_grey(),
    {
        Colour { r: 58, g: 58, b: 60 }
    }
}

/// One channel of the blend of `a` and `b` after `elapsed` of `length` ticks:
/// the progress `elapsed / length` is clamped to `[0, 1]`, the blend is
/// linear in it and rounded down. A blend over zero ticks is `a` before the
/// first tick and `b` from then on.
pub open spec fn lerp_channel(a: u8, b: u8, elapsed: nat, length: nat) -> u8 {
    if length == 0 {
        if elapsed == 0 {
            a
        } else {
            b
        }
    } else if elapsed >= length {
        b
    } else {
        ((a * (length - elapsed) + b * elapsed) / (length as int)) as u8
    }
}

/// The channel-wise blend of two colours.
pub open spec fn lerp(c1: Colour, c2: Colour, elapsed: nat, length: nat) -> Colour {
    Colour {
        r: lerp_channel(c1.r, c2.r, elapsed, length),
        g: lerp_channel(c1.g, c2.g, elapsed, length),
        b: lerp_channel(c1.b, c2.b, elapsed, length),
    }
}

/// A blend never leaves the interval spanned by its two end points.
pub proof fn lemma_lerp_channel_between(a: u8, b: u8, elapsed: nat, length: nat)
    ensures
        a <= b ==> a <= lerp_channel(a, b, elapsed, length) <= b,
        b <= a ==> b <= lerp_channel(a, b, elapsed, length) <= a,
{
    if length != 0 && elapsed < length {
        let rest = length - elapsed;
        let sum = a * rest + b * elapsed;
        let len = length as int;
        if a <= b {
            assert(a * len <= sum <= b * len) by (nonlinear_arith)
                requires
                    sum == a * rest + b * elapsed,
                    len == rest + elapsed,
                    a <= b,
                    rest >= 0,
                    elapsed >= 0,
            ;
            lemma_quotient_between(sum, len, a as int, b as int);
        } else {
            assert(b * len <= sum <= a * len) by (nonlinear_arith)
                requires
                    sum == a * rest + b * elapsed,
                    len == rest + elapsed,
                    b <= a,
                    rest >= 0,
                    elapsed >= 0,
            ;
            lemma_quotient_between(sum, len, b as int, a as int);
        }
    }
}

proof fn lemma_quotient_between(sum: int, len: int, lo: int, hi: int)
    requires
        len > 0,
        lo * len <= sum <= hi * len,
    ensures
        lo <= sum / len <= hi,
{
    assert(lo <= sum / len <= hi) by (nonlinear_arith)
        requires
            len > 0,
            lo * len <= sum <= hi * len,
    ;
}

/// A blend starts at its first colour.
pub proof fn lemma_lerp_start(c1: Colour, c2: Colour, length: nat)
    ensures
        lerp(c1, c2, 0, length) == c1,
{
    if length > 0 {
        lemma_channel_start(c1.r, length);
        lemma_channel_start(c1.g, length);
        lemma_channel_start(c1.b, length);
    }
}

proof fn lemma_channel_start(a: u8, length: nat)
    requires
        length > 0,
    ensures
        (a * length) / (length as int) == a,
{
    assert((a * length) / (length as int) == a) by (nonlinear_arith)
        requires
            length > 0,
    ;
}

/// A blend has reached its second colour once the elapsed ticks are no fewer
/// than its length, the start of a blend over zero ticks excepted.
pub proof fn lemma_lerp_end(c1: Colour, c2: Colour, elapsed: nat, length: nat)
    requires
        elapsed >= length,
        elapsed > 0,
    ensures
        lerp(c1, c2, elapsed, length) == c2,
{
}

fn lerp_channel_exec(a: u8, b: u8, elapsed: usize, length: usize) -> (c: u8)
    ensures
        c == lerp_channel(a, b, elapsed as nat, length as nat),
{
    if length == 0 {
        if elapsed == 0 {
            a
        } else {
            b
        }
    } else if elapsed >= length {
        b
    } else {
        let rest: u128 = (length - elapsed) as u128;
        let done: u128 = elapsed as u128;
        let wa: u128 = a as u128;
        let wb: u128 = b as u128;
        assert(wa * rest <= 255 * rest && wb * done <= 255 * done) by (nonlinear_arith)
            requires
                wa <= 255,
                wb <= 255,
                rest >= 0,
                done >= 0,
        ;
        let sum: u128 = wa * rest + wb * done;
        let q: u128 = sum / (length as u128);
        proof {
            lemma_lerp_channel_between(a, b, elapsed as nat, length as nat);
        }
        q as u8
    }
}

/// Blends `c1` into `c2`: the colour reached after `elapsed` of `length`
/// ticks.
#[allow(non_snake_case)]
pub fn lerpColour(c1: Colour, c2: Colour, elapsed: usize, length: usize) -> (c: Colour)
    ensures
        c == lerp(c1, c2, elapsed as nat, length as nat),
{
    Colour {
        r: lerp_channel_exec(c1.r, c2.r, elapsed, length),
        g: lerp_channel_exec(c1.g, c2.g, elapsed, length),
        b: lerp_channel_exec(c1.b, c2.b, elapsed, length),
    }
}

/// A colour whose three channels are drawn independently from the shared
/// generator, each below 255.
pub fn random_colour() -> (c: Colour)
    ensures
        c.r < 255,
        c.g < 255,
        c.b < 255,
{
    let r: i32 = gen_range_i32(0, 255);
    let g: i32 = gen_range_i32(0, 255);
    let b: i32 = gen_range_i32(0, 255);
    Colour { r: r as u8, g: g as u8, b: b as u8 }
}

} // verus!
