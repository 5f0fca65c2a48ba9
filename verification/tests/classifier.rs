use wordle::hint::{classify, count_greens, Hint, Verdict};
use wordle::colour::Colour;

use wordle::hint::Verdict::{Green, Grey, Orange};

#[test]
fn crane_against_trace() {
    assert_eq!(classify("TRACE", "CRANE"), vec![Grey, Green, Green, Orange, Green]);
}

#[test]
fn repeated_letters_are_judged_one_by_one() {
    // Target ALLOW, guess LLAMA: the first L is orange although the target's
    // two Ls are both accounted for by places 1 and 2, and both As are orange
    // although the target holds a single A.
    assert_eq!(classify("LLAMA", "ALLOW"), vec![Orange, Green, Orange, Grey, Orange]);
}

#[test]
fn a_letter_repeated_in_the_guess_is_orange_each_time() {
    assert_eq!(classify("EERIE", "CRANE"), vec![Orange, Orange, Orange, Grey, Green]);
}

#[test]
fn exact_guess_is_green_throughout() {
    let verdicts = classify("APPLE", "APPLE");
    assert_eq!(verdicts, vec![Green; 5]);
    assert_eq!(count_greens(&verdicts), 5);
}

#[test]
fn guess_without_a_common_letter_is_grey_throughout() {
    let verdicts = classify("BUMPY", "CRANE");
    assert_eq!(verdicts, vec![Grey; 5]);
    assert_eq!(count_greens(&verdicts), 0);
}

#[test]
fn letters_are_compared_as_they_are_typed() {
    assert_eq!(classify("apple", "APPLE"), vec![Grey; 5]);
}

#[test]
fn empty_guess_has_no_verdicts() {
    assert_eq!(classify("", "CRANE"), Vec::<Verdict>::new());
    assert_eq!(count_greens(&Vec::new()), 0);
}

#[test]
fn guess_longer_than_the_target_is_never_green_past_its_end() {
    assert_eq!(classify("ABCA", "AB"), vec![Green, Green, Grey, Orange]);
}

#[test]
fn count_greens_counts_only_greens() {
    assert_eq!(count_greens(&vec![Grey, Green, Green, Orange, Green]), 3);
}

#[test]
fn verdict_colours() {
    assert_eq!(Grey.colour(), Colour { r: 58, g: 58, b: 60 });
    assert_eq!(Orange.colour(), Colour { r: 181, g: 159, b: 59 });
    assert_eq!(Green.colour(), Colour { r: 83, g: 141, b: 78 });
}

#[test]
fn a_new_hint_starts_black_and_heads_for_the_colour_of_its_verdict() {
    for verdict in [Grey, Orange, Green] {
        let hint = Hint::new(verdict);
        assert_eq!(hint.verdict(), verdict);
        assert_eq!(hint.colour(), Colour::black());
        assert_eq!(hint.effect().start(), Colour::black());
        assert_eq!(hint.effect().end(), verdict.colour());
        assert_eq!(hint.effect().length(), 30);
        assert_eq!(hint.effect().ticks(), 0);
    }
}

#[test]
fn a_hint_reaches_the_colour_of_its_verdict_in_thirty_ticks() {
    let mut hint = Hint::new(Orange);
    for _ in 0..29 {
        hint.update();
        assert_ne!(hint.colour(), Orange.colour());
    }
    hint.update();
    assert_eq!(hint.colour(), Orange.colour());
    assert_eq!(hint.verdict(), Orange);
    for _ in 0..10 {
        hint.update();
        assert_eq!(hint.colour(), Orange.colour());
    }
}
