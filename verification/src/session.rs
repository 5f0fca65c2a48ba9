use vstd::prelude::*;
use crate::colour::Colour;
use crate::hint::{
    all_green, classify_spec, green_count, lemma_exact_guess_all_green, lemma_green_count,
    lemma_hint_update_wf, verdict_at, HintView, Verdict,
};
use crate::keys::{alphabetic, KeyInput};
use crate::message::{tick_queue, MessageView, Style};
use crate::settings::{HEIGHT, MIN_SIDE, WIDTH};
use crate::shake::{lemma_shake_wf, within_reach, EffectView};
use crate::timer::TimerView;

verus! {

/// How a session stands.
#[derive(Debug, PartialEq, Eq, Structural, Copy, Clone)]
pub enum Finished {
    Won,
    Lost,
    /// The session is still in progress.
    No,
}

/// Ticks that the board shakes for after a rejected word.
pub const REJECT_SHAKE_TICKS: usize = 15;

/// Intensity, in hundredths, of the shake after a rejected word.
pub const REJECT_SHAKE_INTENSITY: u8 = 30;

/// Ticks that the notice of a rejected word stays for.
pub const REJECT_NOTICE_TICKS: usize = 30;

/// Font size of the smaller notices.
pub const SMALL_FONT: u16 = 30;

/// The letters of a row of cells, in order, the empty cells passed over.
pub open spec fn letters(cells: Seq<Option<char>>) -> Seq<char>
    decreases cells.len(),
{
    if cells.len() == 0 {
        Seq::empty()
    } else {
        let earlier = letters(cells.drop_last());
        match cells.last() {
            Some(ch) => earlier.push(ch),
            None => earlier,
        }
    }
}

/// The letters of a row without an empty cell are the contents of its cells.
pub proof fn lemma_letters_of_full_row(cells: Seq<Option<char>>)
    requires
        forall|c: int| 0 <= c < cells.len() ==> cells[c] is Some,
    ensures
        letters(cells).len() == cells.len(),
        forall|c: int| 0 <= c < cells.len() ==> cells[c] == Some(#[trigger] letters(cells)[c]),
    decreases cells.len(),
{
    if cells.len() > 0 {
        let init = cells.drop_last();
        assert forall|c: int| 0 <= c < init.len() implies init[c] is Some by {
            assert(init[c] == cells[c]);
        }
        lemma_letters_of_full_row(init);
        assert(cells.last() is Some);
        assert forall|c: int| 0 <= c < cells.len() implies cells[c] == Some(
            #[trigger] letters(cells)[c],
        ) by {
            if c < init.len() {
                assert(init[c] == cells[c]);
            }
        }
    }
}

/// The row of the commit record that shows `verdicts`, each fade at its start.
pub open spec fn fresh_hints(verdicts: Seq<Verdict>) -> Seq<Option<HintView>> {
    Seq::new(verdicts.len(), |c: int| Some(HintView::fresh(verdicts[c])))
}

/// A row of the commit record one tick later.
pub open spec fn updated_row(row: Seq<Option<HintView>>) -> Seq<Option<HintView>> {
    Seq::new(
        row.len(),
        |c: int|
            match row[c] {
                Some(hint) => Some(hint.update()),
                None => None,
            },
    )
}

/// The commit record one tick later.
pub open spec fn updated_record(record: Seq<Seq<Option<HintView>>>) -> Seq<Seq<Option<HintView>>> {
    Seq::new(record.len(), |r: int| updated_row(record[r]))
}

/// The state of a session: the board and what has been committed of it, the
/// cursor, the outcome, and the effects, countdown and notices that go with
/// them.
pub struct GameView {
    pub rows: usize,
    pub columns: usize,
    /// The cells, row by row; an empty cell is `None`.
    pub board: Seq<Seq<Option<char>>>,
    /// The commit record: one slot per cell, filled when the row of the cell
    /// is committed.
    pub commited: Seq<Seq<Option<HintView>>>,
    /// The cursor: the row being typed, and the column of the next letter.
    pub selected: (usize, usize),
    pub finished: Finished,
    /// The shake of the board.
    pub effector: EffectView,
    /// The countdown, for a session that has one.
    pub timer: Option<TimerView>,
    /// The notices on show, oldest first.
    pub messages: Seq<MessageView>,
    /// The target word.
    pub word: Seq<char>,
    /// Whether the session listens to the keyboard.
    pub control: bool,
    /// Width of the board, in pixels.
    pub width: usize,
    /// Height of the board, in pixels.
    pub height: usize,
    /// Top left corner of the board, in pixels.
    pub pos: (i32, i32),
}

impl GameView {
    /// The cell in row `r` and column `c` lies before the cursor.
    pub open spec fn typed(self, r: int, c: int) -> bool {
        r < self.selected.0 || (r == self.selected.0 && c < self.selected.1)
    }

    /// Row `r` has been committed: its record is filled.
    pub open spec fn is_commited(self, r: int) -> bool {
        self.commited[r][0] is Some
    }

    /// The cell in row `r` and column `c` is on the board.
    pub open spec fn on_board(self, r: int, c: int) -> bool {
        0 <= r < self.rows && 0 <= c < self.columns
    }

    /// The board and the record have the shape that the settings ask for,
    /// the size of the board is within its limits, and the cursor is on the
    /// board: on one of the rows, and at one of the columns or just past the
    /// last.
    pub open spec fn shaped(self) -> bool {
        &&& self.rows >= 1
        &&& self.columns >= 1
        &&& MIN_SIDE <= self.width <= WIDTH
        &&& MIN_SIDE <= self.height <= HEIGHT
        &&& self.board.len() == self.rows
        &&& self.commited.len() == self.rows
        &&& forall|r: int| 0 <= r < self.rows ==> (#[trigger] self.board[r]).len() == self.columns
        &&& forall|r: int|
            0 <= r < self.rows ==> (#[trigger] self.commited[r]).len() == self.columns
        &&& self.selected.0 < self.rows
        &&& self.selected.1 <= self.columns
    }

    /// The letters on the board are those before the cursor: every cell
    /// before it is filled and every cell from it on is empty.
    pub open spec fn lettered(self) -> bool {
        forall|r: int, c: int|
            self.on_board(r, c) ==> (#[trigger] self.board[r][c] is Some <==> self.typed(r, c))
    }

    /// The record of a row is filled wholly or not at all; it is filled for
    /// the rows above the cursor and empty for the rows below; the row of the
    /// cursor is committed only in a session that is over and only when fully
    /// typed, and it is committed in a session that was won.
    pub open spec fn recorded(self) -> bool {
        &&& forall|r: int, c: int|
            self.on_board(r, c) ==> (#[trigger] self.commited[r][c] is Some <==> self.is_commited(
                r,
            ))
        &&& forall|r: int|
            0 <= r < self.selected.0 ==> (#[trigger] self.commited[r])[0] is Some
        &&& forall|r: int|
            self.selected.0 < r < self.rows ==> (#[trigger] self.commited[r])[0] is None
        &&& self.is_commited(self.selected.0 as int) ==> self.finished != Finished::No
            && self.selected.1 == self.columns
        &&& self.finished == Finished::Won ==> self.is_commited(self.selected.0 as int)
    }

    /// Every hint in the record is well formed and shows the verdict on the
    /// letter of its cell; in a session that was won, the hints of the row of
    /// the cursor are all green.
    pub open spec fn judged(self) -> bool {
        &&& forall|r: int, c: int|
            self.on_board(r, c) ==> (#[trigger] self.commited[r][c] matches Some(hint) ==> hint.wf()
                && hint.verdict == verdict_at(letters(self.board[r]), self.word, c))
        &&& self.finished == Finished::Won ==> forall|c: int|
            0 <= c < self.columns ==> (#[trigger] self.commited[self.selected.0 as int][c]
                matches Some(hint) ==> hint.verdict == Verdict::Green)
    }

    /// What holds of every state that a session can reach.
    pub open spec fn inv(self) -> bool {
        &&& self.shaped()
        &&& self.lettered()
        &&& self.recorded()
        &&& self.judged()
        &&& self.effector.wf()
    }

    /// The session is not over.
    pub open spec fn in_progress(self) -> bool {
        self.finished == Finished::No
    }

    /// The board with the cell in row `r` and column `c` set to `cell`.
    pub open spec fn with_cell(self, r: int, c: int, cell: Option<char>) -> GameView {
        GameView { board: self.board.update(r, self.board[r].update(c, cell)), ..self }
    }

    /// The character `ch` goes onto the board. In a session in progress whose
    /// cursor is on a column, it goes into the cell under the cursor and the
    /// cursor moves one column on. Otherwise nothing happens.
    pub open spec fn put_letter(self, ch: char) -> GameView {
        if self.in_progress() && self.selected.1 < self.columns {
            GameView {
                selected: (self.selected.0, (self.selected.1 + 1) as usize),
                ..self.with_cell(self.selected.0 as int, self.selected.1 as int, Some(ch))
            }
        } else {
            self
        }
    }

    /// The character `ch` is submitted: a letter goes onto the board, any
    /// other character is passed over.
    pub open spec fn submit_letter(self, ch: char) -> GameView {
        if alphabetic(ch) {
            self.put_letter(ch)
        } else {
            self
        }
    }

    /// The last letter is taken back. In a session in progress whose cursor
    /// is past the first column, the cell before the cursor is emptied and
    /// the cursor moves back onto it. Otherwise nothing happens.
    pub open spec fn delete_last_letter(self) -> GameView {
        if self.in_progress() && self.selected.1 > 0 {
            GameView {
                selected: (self.selected.0, (self.selected.1 - 1) as usize),
                ..self.with_cell(self.selected.0 as int, self.selected.1 - 1, None)
            }
        } else {
            self
        }
    }

    /// The word typed in the row of the cursor.
    pub open spec fn candidate(self) -> Seq<char> {
        letters(self.board[self.selected.0 as int])
    }

    /// The row of the cursor can be committed: the session is in progress
    /// and the row is fully typed.
    pub open spec fn can_commit(self) -> bool {
        self.in_progress() && self.selected.1 == self.columns
    }

    /// Where the notices of the session are centred: half the width and half
    /// the height of the board away from its horizontal position, which
    /// serves for both coordinates.
    pub open spec fn centre(self) -> (i64, i64) {
        ((self.pos.0 + self.width / 2) as i64, (self.pos.0 + self.height / 2) as i64)
    }

    /// A boxed notice at the centre of the board with the default settings
    /// otherwise.
    pub open spec fn notice(self, text: Seq<char>, bg: Colour) -> MessageView {
        MessageView {
            message: text,
            pos: self.centre(),
            style: Style::Rectangle,
            bg,
            ..MessageView::blueprint()
        }
    }

    /// The notice of a win, which stays.
    pub open spec fn won_notice(self) -> MessageView {
        self.notice("You Won!"@, Colour::green())
    }

    /// The notice of a loss on the last row, which stays.
    pub open spec fn lost_notice(self) -> MessageView {
        self.notice("You Lost!"@, Colour::red())
    }

    /// The notice of a loss by the countdown, which stays.
    pub open spec fn timeout_notice(self) -> MessageView {
        MessageView {
            font_size: SMALL_FONT,
            ..self.notice("You Ran Out of Time!"@, Colour::red())
        }
    }

    /// The notice that `word` is not in the list, which leaves after
    /// `REJECT_NOTICE_TICKS` ticks.
    pub open spec fn rejected_notice(self, word: Seq<char>) -> MessageView {
        MessageView {
            font_size: SMALL_FONT,
            lifetime: Some(REJECT_NOTICE_TICKS),
            ..self.notice(word + " not in list!"@, Colour::blue())
        }
    }

    /// The verdicts on the word typed in the row of the cursor.
    pub open spec fn verdicts(self) -> Seq<Verdict> {
        classify_spec(self.candidate(), self.word)
    }

    /// The row of the cursor is committed against the word list `words`.
    ///
    /// Nothing happens unless the row can be committed. A word that the list
    /// does not hold is rejected: the board shakes and a notice is queued,
    /// and nothing else changes. A word of the list is judged and the
    /// verdicts fill the record of the row. If they are all green the session
    /// is won; else, on the last row, it is lost; either way a notice is
    /// queued and the cursor stays. Else the cursor moves to the start of the
    /// next row.
    pub open spec fn commit_row(self, words: Seq<Seq<char>>) -> GameView {
        if !self.can_commit() {
            self
        } else if !words.contains(self.candidate()) {
            GameView {
                effector: self.effector.start_shake(REJECT_SHAKE_TICKS, REJECT_SHAKE_INTENSITY),
                messages: self.messages.push(self.rejected_notice(self.candidate())),
                ..self
            }
        } else {
            let record = self.commited.update(
                self.selected.0 as int,
                fresh_hints(self.verdicts()),
            );
            if green_count(self.verdicts()) == self.columns {
                GameView {
                    commited: record,
                    finished: Finished::Won,
                    messages: self.messages.push(self.won_notice()),
                    ..self
                }
            } else if self.selected.0 == self.rows - 1 {
                GameView {
                    commited: record,
                    finished: Finished::Lost,
                    messages: self.messages.push(self.lost_notice()),
                    ..self
                }
            } else {
                GameView {
                    commited: record,
                    selected: ((self.selected.0 + 1) as usize, 0),
                    ..self
                }
            }
        }
    }

    /// What a commit against `words` reports: the rejected word; else whether
    /// the commit won the session. A commit that does nothing reports no
    /// win.
    pub open spec fn commit_result(self, words: Seq<Seq<char>>) -> Result<bool, Seq<char>> {
        if !self.can_commit() {
            Ok(false)
        } else if !words.contains(self.candidate()) {
            Err(self.candidate())
        } else {
            Ok(green_count(self.verdicts()) == self.columns)
        }
    }

    /// The keyboard is heeded. A session that is over heeds nothing. A typed
    /// letter is submitted; failing that, Enter commits a fully typed row;
    /// failing that, Backspace takes back the last letter.
    pub open spec fn control(self, input: KeyInput, words: Seq<Seq<char>>) -> GameView {
        if !self.in_progress() {
            self
        } else {
            match input.letter() {
                Some(key) => self.submit_letter(key),
                None => if input.enter && self.selected.1 >= self.columns {
                    self.commit_row(words)
                } else if input.backspace && self.selected.1 > 0 {
                    self.delete_last_letter()
                } else {
                    self
                },
            }
        }
    }

    /// The countdown is heeded: a session in progress whose countdown is
    /// over is lost, and a notice is queued.
    pub open spec fn timeout(self) -> GameView {
        if self.timer matches Some(timer) && timer.finished() && self.in_progress() {
            GameView {
                finished: Finished::Lost,
                messages: self.messages.push(self.timeout_notice()),
                ..self
            }
        } else {
            self
        }
    }

    /// The effects advance by one tick: the shake, with the samples `dx` and
    /// `dy`, and the fade of every hint.
    pub open spec fn animate(self, dx: i32, dy: i32) -> GameView {
        GameView {
            effector: self.effector.run(dx, dy),
            commited: updated_record(self.commited),
            ..self
        }
    }

    /// The countdown, if there is one, takes `reading` as the seconds that
    /// have passed.
    pub open spec fn read_clock(self, reading: u64) -> GameView {
        GameView {
            timer: match self.timer {
                Some(timer) => Some(timer.record(reading)),
                None => None,
            },
            ..self
        }
    }

    /// The keyboard is heeded if the session listens to it.
    pub open spec fn dispatch(self, input: KeyInput, words: Seq<Seq<char>>) -> GameView {
        if self.control {
            self.control(input, words)
        } else {
            self
        }
    }

    /// The notices age by one tick and those that have expired leave.
    pub open spec fn age_messages(self) -> GameView {
        GameView { messages: tick_queue(self.messages), ..self }
    }

    /// One tick of the session, in this order: the countdown is heeded, the
    /// effects advance, the countdown is read, the keyboard is heeded, the
    /// notices age.
    pub open spec fn update(
        self,
        input: KeyInput,
        words: Seq<Seq<char>>,
        dx: i32,
        dy: i32,
        reading: u64,
    ) -> GameView {
        self.timeout().animate(dx, dy).read_clock(reading).dispatch(input, words).age_messages()
    }
}

/// In every state that a session can reach the cursor is on the board: on
/// one of the rows, and at one of the columns or just past the last.
pub proof fn lemma_cursor_on_board(game: GameView)
    requires
        game.inv(),
    ensures
        0 <= game.selected.0 < game.rows,
        0 <= game.selected.1 <= game.columns,
{
}

/// Typing leads from a reachable state to a reachable state, whether or not
/// the character is a letter.
pub proof fn lemma_submit_letter_inv(game: GameView, ch: char)
    requires
        game.inv(),
    ensures
        game.put_letter(ch).inv(),
        game.submit_letter(ch).inv(),
{
    let next = game.put_letter(ch);
    if game.in_progress() && game.selected.1 < game.columns {
        let row = game.selected.0 as int;
        let col = game.selected.1 as int;
        assert(next.shaped());
        assert(next.lettered()) by {
            assert forall|r: int, c: int| next.on_board(r, c) implies (#[trigger] next.board[r][c]
                is Some <==> next.typed(r, c)) by {
                assert(game.board[r][c] is Some <==> game.typed(r, c));
            }
        }
        assert(game.commited[row][col] is Some <==> game.is_commited(row));
        assert(next.recorded());
        assert(next.judged()) by {
            assert forall|r: int, c: int| next.on_board(r, c) implies (
            #[trigger] next.commited[r][c] matches Some(hint) ==> hint.wf() && hint.verdict
                == verdict_at(letters(next.board[r]), next.word, c)) by {
                assert(game.commited[r][c] is Some <==> game.is_commited(r));
                if r != row {
                    assert(next.board[r] == game.board[r]);
                }
            }
        }
    }
}

/// Taking a letter back leads from a reachable state to a reachable state.
pub proof fn lemma_delete_last_letter_inv(game: GameView)
    requires
        game.inv(),
    ensures
        game.delete_last_letter().inv(),
{
    let next = game.delete_last_letter();
    if game.in_progress() && game.selected.1 > 0 {
        let row = game.selected.0 as int;
        let col = game.selected.1 - 1;
        assert(next.shaped());
        assert(next.lettered()) by {
            assert forall|r: int, c: int| next.on_board(r, c) implies (#[trigger] next.board[r][c]
                is Some <==> next.typed(r, c)) by {
                assert(game.board[r][c] is Some <==> game.typed(r, c));
            }
        }
        assert(game.commited[row][col] is Some <==> game.is_commited(row));
        assert(next.recorded());
        assert(next.judged()) by {
            assert forall|r: int, c: int| next.on_board(r, c) implies (
            #[trigger] next.commited[r][c] matches Some(hint) ==> hint.wf() && hint.verdict
                == verdict_at(letters(next.board[r]), next.word, c)) by {
                assert(game.commited[r][c] is Some <==> game.is_commited(r));
                if r != row {
                    assert(next.board[r] == game.board[r]);
                }
            }
        }
    }
}

/// The word typed in a row that can be committed has one letter for each
/// column: the letters of the cells of the row.
pub proof fn lemma_candidate(game: GameView)
    requires
        game.inv(),
        game.selected.1 == game.columns,
    ensures
        game.candidate().len() == game.columns,
        game.verdicts().len() == game.columns,
        forall|c: int|
            0 <= c < game.columns ==> game.board[game.selected.0 as int][c] == Some(
                #[trigger] game.candidate()[c],
            ),
{
    let row = game.selected.0 as int;
    let cells = game.board[row];
    assert forall|c: int| 0 <= c < cells.len() implies cells[c] is Some by {
        assert(game.board[row][c] is Some <==> game.typed(row, c));
    }
    lemma_letters_of_full_row(cells);
}

/// Committing a row leads from a reachable state to a reachable state.
pub proof fn lemma_commit_row_inv(game: GameView, words: Seq<Seq<char>>)
    requires
        game.inv(),
    ensures
        game.commit_row(words).inv(),
{
    let next = game.commit_row(words);
    if game.can_commit() {
        if !words.contains(game.candidate()) {
            lemma_shake_wf(
                game.effector,
                REJECT_SHAKE_TICKS,
                REJECT_SHAKE_INTENSITY,
                0,
                0,
            );
            assert(next.lettered()) by {
                assert forall|r: int, c: int| next.on_board(r, c) implies (
                #[trigger] next.board[r][c] is Some <==> next.typed(r, c)) by {
                    assert(game.board[r][c] is Some <==> game.typed(r, c));
                }
            }
            assert(next.recorded());
            assert(next.judged());
        } else {
            let row = game.selected.0 as int;
            let verdicts = game.verdicts();
            lemma_candidate(game);
            lemma_green_count(verdicts);
            assert(next.shaped());
            assert(next.lettered()) by {
                assert forall|r: int, c: int| next.on_board(r, c) implies (
                #[trigger] next.board[r][c] is Some <==> next.typed(r, c)) by {
                    assert(game.board[r][c] is Some <==> game.typed(r, c));
                }
            }
            assert(next.recorded()) by {
                assert forall|r: int, c: int| next.on_board(r, c) implies (
                #[trigger] next.commited[r][c] is Some <==> next.is_commited(r)) by {
                    assert(game.commited[r][c] is Some <==> game.is_commited(r));
                }
                assert forall|r: int| 0 <= r < next.selected.0 implies (
                #[trigger] next.commited[r])[0] is Some by {
                    if r != row {
                        assert(game.commited[r][0] is Some);
                    }
                }
                assert forall|r: int| next.selected.0 < r < next.rows implies (
                #[trigger] next.commited[r])[0] is None by {
                    assert(game.commited[r][0] is None);
                }
            }
            assert(next.judged()) by {
                assert forall|r: int, c: int| next.on_board(r, c) implies (
                #[trigger] next.commited[r][c] matches Some(hint) ==> hint.wf() && hint.verdict
                    == verdict_at(letters(next.board[r]), next.word, c)) by {
                    if r != row {
                        assert(game.commited[r][c] is Some <==> game.is_commited(r));
                    } else {
                        crate::colour::lemma_lerp_start(
                            Colour::black(),
                            verdicts[c].colour(),
                            crate::hint::HINT_FADE_TICKS as nat,
                        );
                    }
                }
                if next.finished == Finished::Won {
                    assert(all_green(verdicts));
                }
            }
        }
    }
}

/// Heeding the keyboard leads from a reachable state to a reachable state.
pub proof fn lemma_control_inv(game: GameView, input: KeyInput, words: Seq<Seq<char>>)
    requires
        game.inv(),
    ensures
        game.control(input, words).inv(),
        game.dispatch(input, words).inv(),
{
    match input.letter() {
        Some(key) => lemma_submit_letter_inv(game, key),
        None => {},
    }
    lemma_commit_row_inv(game, words);
    lemma_delete_last_letter_inv(game);
}

/// A tick leads from a reachable state to a reachable state, whatever the
/// keyboard, the samples of the shake and the clock give, and so does each
/// of its steps.
pub proof fn lemma_update_inv(
    game: GameView,
    input: KeyInput,
    words: Seq<Seq<char>>,
    dx: i32,
    dy: i32,
    reading: u64,
)
    requires
        game.inv(),
        within_reach(dx),
        within_reach(dy),
    ensures
        game.timeout().inv(),
        game.animate(dx, dy).inv(),
        game.read_clock(reading).inv(),
        game.age_messages().inv(),
        game.update(input, words, dx, dy, reading).inv(),
{
    lemma_timeout_inv(game);
    lemma_animate_inv(game, dx, dy);
    lemma_animate_inv(game.timeout(), dx, dy);
    lemma_frame_inv(game, game.read_clock(reading));
    lemma_frame_inv(game, game.age_messages());
    let animated = game.timeout().animate(dx, dy);
    let read = animated.read_clock(reading);
    lemma_frame_inv(animated, read);
    lemma_control_inv(read, input, words);
    let heeded = read.dispatch(input, words);
    lemma_frame_inv(heeded, heeded.age_messages());
}

/// A state that differs from a reachable state in nothing but its countdown
/// and its notices is reachable too.
proof fn lemma_frame_inv(game: GameView, next: GameView)
    requires
        game.inv(),
        next == (GameView { timer: next.timer, messages: next.messages, ..game }),
    ensures
        next.inv(),
{
    assert(next.lettered()) by {
        assert forall|r: int, c: int| next.on_board(r, c) implies (#[trigger] next.board[r][c]
            is Some <==> next.typed(r, c)) by {
            assert(game.board[r][c] is Some <==> game.typed(r, c));
        }
    }
    assert(next.recorded());
    assert(next.judged());
}

proof fn lemma_timeout_inv(game: GameView)
    requires
        game.inv(),
    ensures
        game.timeout().inv(),
{
    let next = game.timeout();
    assert(next.lettered()) by {
        assert forall|r: int, c: int| next.on_board(r, c) implies (#[trigger] next.board[r][c]
            is Some <==> next.typed(r, c)) by {
            assert(game.board[r][c] is Some <==> game.typed(r, c));
        }
    }
    assert(next.recorded());
    assert(next.judged());
}

proof fn lemma_animate_inv(game: GameView, dx: i32, dy: i32)
    requires
        game.inv(),
        within_reach(dx),
        within_reach(dy),
    ensures
        game.animate(dx, dy).inv(),
{
    let next = game.animate(dx, dy);
    lemma_shake_wf(game.effector, 0, 0, dx, dy);
    assert(next.shaped());
    assert(next.lettered()) by {
        assert forall|r: int, c: int| next.on_board(r, c) implies (#[trigger] next.board[r][c]
            is Some <==> next.typed(r, c)) by {
            assert(game.board[r][c] is Some <==> game.typed(r, c));
        }
    }
    assert forall|r: int, c: int| next.on_board(r, c) implies (#[trigger] next.commited[r][c]
        is Some <==> game.commited[r][c] is Some) by {
        assert(next.commited[r] == updated_row(game.commited[r]));
    }
    assert(next.recorded()) by {
        assert forall|r: int, c: int| next.on_board(r, c) implies (#[trigger] next.commited[r][c]
            is Some <==> next.is_commited(r)) by {
            assert(game.commited[r][c] is Some <==> game.is_commited(r));
            assert(next.commited[r][0] is Some <==> game.commited[r][0] is Some);
        }
        assert forall|r: int| 0 <= r < next.selected.0 implies (#[trigger] next.commited[r])[0]
            is Some by {
            assert(game.commited[r][0] is Some);
            assert(next.commited[r][0] is Some <==> game.commited[r][0] is Some);
        }
        assert forall|r: int| next.selected.0 < r < next.rows implies (
        #[trigger] next.commited[r])[0] is None by {
            assert(game.commited[r][0] is None);
            assert(next.commited[r][0] is Some <==> game.commited[r][0] is Some);
        }
        assert(next.commited[next.selected.0 as int][0] is Some
            <==> game.commited[game.selected.0 as int][0] is Some);
    }
    assert(next.judged()) by {
        assert forall|r: int, c: int| next.on_board(r, c) implies (#[trigger] next.commited[r][c]
            matches Some(hint) ==> hint.wf() && hint.verdict == verdict_at(
            letters(next.board[r]),
            next.word,
            c,
        )) by {
            assert(next.commited[r] == updated_row(game.commited[r]));
            match game.commited[r][c] {
                Some(hint) => lemma_hint_update_wf(hint),
                None => {},
            }
        }
        if next.finished == Finished::Won {
            assert forall|c: int| 0 <= c < next.columns implies (
            #[trigger] next.commited[next.selected.0 as int][c] matches Some(hint)
                ==> hint.verdict == Verdict::Green) by {
                assert(next.commited[next.selected.0 as int] == updated_row(
                    game.commited[game.selected.0 as int],
                ));
                assert(game.commited[game.selected.0 as int][c] matches Some(hint)
                    ==> hint.verdict == Verdict::Green);
            }
        }
    }
}

/// A commit of a word that the list does not hold reports the word and
/// leaves the board, the commit record, the cursor and the outcome as they
/// were.
pub proof fn lemma_rejected_commit_changes_nothing(game: GameView, words: Seq<Seq<char>>)
    requires
        game.can_commit(),
        !words.contains(game.candidate()),
    ensures
        game.commit_result(words) == Err::<bool, Seq<char>>(game.candidate()),
        game.commit_row(words).board == game.board,
        game.commit_row(words).commited == game.commited,
        game.commit_row(words).selected == game.selected,
        game.commit_row(words).finished == game.finished,
        game.commit_row(words).word == game.word,
{
}

/// A session that is over accepts no input: typing, taking back, committing
/// and the keyboard as a whole change nothing, and a tick keeps the outcome,
/// the board and the cursor.
pub proof fn lemma_over_is_final(
    game: GameView,
    ch: char,
    input: KeyInput,
    words: Seq<Seq<char>>,
    dx: i32,
    dy: i32,
    reading: u64,
)
    requires
        !game.in_progress(),
    ensures
        game.put_letter(ch) == game,
        game.submit_letter(ch) == game,
        game.delete_last_letter() == game,
        game.commit_row(words) == game,
        game.commit_result(words) == Ok::<bool, Seq<char>>(false),
        game.control(input, words) == game,
        game.update(input, words, dx, dy, reading).finished == game.finished,
        game.update(input, words, dx, dy, reading).board == game.board,
        game.update(input, words, dx, dy, reading).selected == game.selected,
{
}

/// Committing the target word wins the session on whichever row it is typed,
/// provided the word list holds it: every hint of the row is green, the
/// notice of the win is queued and the cursor stays.
pub proof fn lemma_target_wins(game: GameView, words: Seq<Seq<char>>)
    requires
        game.inv(),
        game.can_commit(),
        game.candidate() == game.word,
        words.contains(game.word),
    ensures
        game.commit_result(words) == Ok::<bool, Seq<char>>(true),
        game.commit_row(words).finished == Finished::Won,
        game.commit_row(words).messages == game.messages.push(game.won_notice()),
        game.commit_row(words).selected == game.selected,
        game.commit_row(words).commited[game.selected.0 as int] == fresh_hints(
            Seq::new(game.columns as nat, |c: int| Verdict::Green),
        ),
{
    lemma_candidate(game);
    lemma_exact_guess_all_green(game.word);
    assert(game.verdicts() == Seq::new(game.columns as nat, |c: int| Verdict::Green));
}

/// Committing a word of the list that is not green throughout moves the
/// cursor to the next row, and on the last row loses the session: the notice
/// of the loss is queued and the cursor stays.
pub proof fn lemma_miss_moves_on_or_loses(game: GameView, words: Seq<Seq<char>>)
    requires
        game.inv(),
        game.can_commit(),
        words.contains(game.candidate()),
        !all_green(game.verdicts()),
    ensures
        game.commit_result(words) == Ok::<bool, Seq<char>>(false),
        game.selected.0 < game.rows - 1 ==> game.commit_row(words).finished == Finished::No
            && game.commit_row(words).selected == ((game.selected.0 + 1) as usize, 0usize)
            && game.commit_row(words).messages == game.messages,
        game.selected.0 == game.rows - 1 ==> game.commit_row(words).finished == Finished::Lost
            && game.commit_row(words).selected == game.selected && game.commit_row(
            words,
        ).messages == game.messages.push(game.lost_notice()),
{
    lemma_candidate(game);
    lemma_green_count(game.verdicts());
}


/// The verdicts that a row of the commit record shows.
pub open spec fn verdicts_of(row: Seq<Option<HintView>>) -> Seq<Option<Verdict>> {
    Seq::new(
        row.len(),
        |c: int|
            match row[c] {
                Some(hint) => Some(hint.verdict),
                None => None,
            },
    )
}

/// A committed row is never changed again: a tick, whatever the keyboard,
/// the samples of the shake and the clock give, leaves it committed, with
/// the letters and the verdicts it had.
pub proof fn lemma_committed_rows_stay(
    game: GameView,
    input: KeyInput,
    words: Seq<Seq<char>>,
    dx: i32,
    dy: i32,
    reading: u64,
    r: int,
)
    requires
        game.inv(),
        within_reach(dx),
        within_reach(dy),
        0 <= r < game.rows,
        game.is_commited(r),
    ensures
        game.update(input, words, dx, dy, reading).is_commited(r),
        game.update(input, words, dx, dy, reading).board[r] == game.board[r],
        verdicts_of(game.update(input, words, dx, dy, reading).commited[r]) == verdicts_of(
            game.commited[r],
        ),
{
    lemma_update_inv(game, input, words, dx, dy, reading);
    lemma_update_inv(game.timeout(), input, words, dx, dy, reading);
    let animated = game.timeout().animate(dx, dy);
    assert(animated.commited[r] == updated_row(game.commited[r]));
    assert(verdicts_of(animated.commited[r]) == verdicts_of(game.commited[r]));
    assert(game.commited[r][0] is Some);
    assert(animated.is_commited(r));
    let read = animated.read_clock(reading);
    lemma_frame_inv(animated, read);
    let heeded = read.dispatch(input, words);
    if read.in_progress() {
        assert(r != read.selected.0);
    }
    assert(heeded.board[r] == read.board[r]);
    assert(heeded.commited[r] == read.commited[r]);
}

} // verus!
