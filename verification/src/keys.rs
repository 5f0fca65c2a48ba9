use vstd::prelude::*;

verus! {

/// What the keyboard reported for one tick.
#[derive(Clone, Copy, Debug)]
pub struct KeyInput {
    /// The character that was typed, if one was.
    pub typed: Option<char>,
    /// Whether Enter was pressed.
    pub enter: bool,
    /// Whether Backspace was pressed.
    pub backspace: bool,
}

impl KeyInput {
    /// The letter that was typed: the typed character, if it is alphabetic.
    pub open spec fn letter(self) -> Option<char> {
        match self.typed {
            Some(key) => if alphabetic(key) {
                Some(key)
            } else {
                None
            },
            None => None,
        }
    }

    /// The letter that was typed, if one was: a typed character that is not
    /// alphabetic does not count.
    pub fn typed_letter(&self) -> (letter: Option<char>)
        ensures
            letter == self.letter(),
    {
        match self.typed {
            Some(key) => if is_alphabetic(key) {
                Some(key)
            } else {
                None
            },
            None => None,
        }
    }

    /// A tick without any key.
    pub fn none() -> (input: KeyInput)
        ensures
            input == (KeyInput { typed: None, enter: false, backspace: false }),
    {
        KeyInput { typed: None, enter: false, backspace: false }
    }

    /// A tick on which `ch` was typed.
    pub fn typed(ch: char) -> (input: KeyInput)
        ensures
            input == (KeyInput { typed: Some(ch), enter: false, backspace: false }),
    {
        KeyInput { typed: Some(ch), enter: false, backspace: false }
    }

    /// A tick on which Enter was pressed.
    pub fn enter() -> (input: KeyInput)
        ensures
            input == (KeyInput { typed: None, enter: true, backspace: false }),
    {
        KeyInput { typed: None, enter: true, backspace: false }
    }

    /// A tick on which Backspace was pressed.
    pub fn backspace() -> (input: KeyInput)
        ensures
            input == (KeyInput { typed: None, enter: false, backspace: true }),
    {
        KeyInput { typed: None, enter: false, backspace: true }
    }
}

/// Whether `c` has the Unicode property `Alphabetic`, as `char::is_alphabetic`
/// tells.
pub uninterp spec fn alphabetic(c: char) -> bool;

/// Asks `char::is_alphabetic` whether `c` is a letter. The answer depends on
/// `c` alone.
#[verifier::external_body]
pub(crate) fn is_alphabetic(c: char) -> (letter: bool)
    ensures
        letter == alphabetic(c),
{
    c.is_alphabetic()
}

} // verus!
