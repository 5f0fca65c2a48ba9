use vstd::prelude::*;
use vstd::string::*;
use crate::colour::Colour;
use crate::hint::{classify, count_greens, Hint, HintView, Verdict};
use crate::keys::{is_alphabetic, KeyInput};
use crate::message::{MessageHandler, MessageSettings, Style};
use crate::rng::gen_range_usize;
use crate::session::{
    fresh_hints, lemma_candidate, lemma_commit_row_inv, lemma_control_inv,
    lemma_delete_last_letter_inv, lemma_submit_letter_inv, lemma_update_inv, letters,
    updated_record, updated_row, Finished, GameView, REJECT_NOTICE_TICKS, REJECT_SHAKE_INTENSITY,
    REJECT_SHAKE_TICKS, SMALL_FONT,
};
use crate::settings::{DEFAULT_COLUMNS, DEFAULT_ROWS, HEIGHT, MIN_SIDE, WIDTH};
use crate::shake::{within_reach, Effect, EffectView};
use crate::timer::{Timer, TimerView};
use crate::words::{contains_word, words_view};

verus! {

/// The cells of a board, row by row.
pub open spec fn grid_view(grid: Seq<Vec<Option<char>>>) -> Seq<Seq<Option<char>>> {
    Seq::new(grid.len(), |r: int| grid[r]@)
}

/// What a slot of the commit record holds.
pub open spec fn slot_view(slot: Option<Hint>) -> Option<HintView> {
    match slot {
        Some(hint) => Some(hint@),
        None => None,
    }
}

/// What a row of the commit record holds.
pub open spec fn row_view(row: Seq<Option<Hint>>) -> Seq<Option<HintView>> {
    Seq::new(row.len(), |c: int| slot_view(row[c]))
}

/// What the commit record holds, row by row.
pub open spec fn record_view(record: Seq<Vec<Option<Hint>>>) -> Seq<Seq<Option<HintView>>> {
    Seq::new(record.len(), |r: int| row_view(record[r]@))
}

/// What a session's countdown holds, if it has one.
pub open spec fn timer_view(timer: Option<Timer>) -> Option<TimerView> {
    match timer {
        Some(timer) => Some(timer@),
        None => None,
    }
}

/// The word that the filled cells of a row spell.
fn row_word(cells: &Vec<Option<char>>) -> (word: String)
    ensures
        word@ == letters(cells@),
{
    let mut word = String::new();
    let mut c: usize = 0;
    assert(cells@.take(0) == Seq::<Option<char>>::empty());
    while c < cells.len()
        invariant
            c <= cells.len(),
            word@ == letters(cells@.take(c as int)),
        decreases cells.len() - c,
    {
        proof {
            let next = cells@.take(c + 1);
            assert(next.drop_last() == cells@.take(c as int));
            assert(next.last() == cells@[c as int]);
        }
        match cells[c] {
            Some(ch) => {
                word.push(ch);
            },
            None => {},
        }
        c = c + 1;
    }
    assert(cells@.take(c as int) == cells@);
    word
}

/// The row of the commit record that shows `verdicts`.
fn hints_for(verdicts: &Vec<Verdict>) -> (row: Vec<Option<Hint>>)
    ensures
        row_view(row@) == fresh_hints(verdicts@),
{
    let mut row: Vec<Option<Hint>> = Vec::new();
    let mut c: usize = 0;
    while c < verdicts.len()
        invariant
            c <= verdicts.len(),
            row@.len() == c,
            forall|j: int| 0 <= j < c ==> slot_view(#[trigger] row@[j]) == Some(
                HintView::fresh(verdicts@[j]),
            ),
        decreases verdicts.len() - c,
    {
        row.push(Some(Hint::new(verdicts[c])));
        c = c + 1;
    }
    assert(row_view(row@) == fresh_hints(verdicts@));
    row
}

/// Advances the fade of every hint of a row by one tick.
fn update_row(row: &mut Vec<Option<Hint>>)
    ensures
        row_view(final(row)@) == updated_row(row_view(old(row)@)),
{
    let mut c: usize = 0;
    while c < row.len()
        invariant
            c <= row.len(),
            row@.len() == old(row)@.len(),
            forall|j: int|
                0 <= j < c ==> slot_view(#[trigger] row@[j]) == updated_row(
                    row_view(old(row)@),
                )[j],
            forall|j: int| c <= j < row.len() ==> #[trigger] row@[j] == old(row)@[j],
        decreases row.len() - c,
    {
        let slot = row[c];
        match slot {
            Some(hint) => {
                let mut hint = hint;
                hint.update();
                row[c] = Some(hint);
            },
            None => {},
        }
        c = c + 1;
    }
    assert(row_view(row@) == updated_row(row_view(old(row)@)));
}

/// Advances the fade of every hint of the commit record by one tick.
fn update_record(record: &mut Vec<Vec<Option<Hint>>>)
    ensures
        record_view(final(record)@) == updated_record(record_view(old(record)@)),
{
    let mut r: usize = 0;
    while r < record.len()
        invariant
            r <= record.len(),
            record@.len() == old(record)@.len(),
            forall|j: int|
                0 <= j < r ==> row_view((#[trigger] record@[j])@) == updated_row(
                    row_view(old(record)@[j]@),
                ),
            forall|j: int| r <= j < record.len() ==> #[trigger] record@[j] == old(record)@[j],
        decreases record.len() - r,
    {
        update_row(&mut record[r]);
        r = r + 1;
    }
    assert(record_view(record@) == updated_record(record_view(old(record)@)));
}

/// A board of `rows` rows and `columns` columns with every cell empty.
fn empty_grid(rows: usize, columns: usize) -> (grid: Vec<Vec<Option<char>>>)
    ensures
        grid_view(grid@) == Seq::new(
            rows as nat,
            |r: int| Seq::new(columns as nat, |c: int| None::<char>),
        ),
{
    let mut grid: Vec<Vec<Option<char>>> = Vec::new();
    let mut r: usize = 0;
    while r < rows
        invariant
            r <= rows,
            grid@.len() == r,
            forall|j: int|
                0 <= j < r ==> (#[trigger] grid@[j])@ == Seq::new(
                    columns as nat,
                    |c: int| None::<char>,
                ),
        decreases rows - r,
    {
        let mut row: Vec<Option<char>> = Vec::new();
        let mut c: usize = 0;
        while c < columns
            invariant
                c <= columns,
                row@.len() == c,
                forall|j: int| 0 <= j < c ==> #[trigger] row@[j] == None::<char>,
            decreases columns - c,
        {
            row.push(None);
            c = c + 1;
        }
        assert(row@ == Seq::new(columns as nat, |c: int| None::<char>));
        grid.push(row);
        r = r + 1;
    }
    assert(grid_view(grid@) == Seq::new(
        rows as nat,
        |r: int| Seq::new(columns as nat, |c: int| None::<char>),
    ));
    grid
}

/// A commit record of `rows` rows and `columns` columns with every slot
/// empty.
fn empty_record(rows: usize, columns: usize) -> (record: Vec<Vec<Option<Hint>>>)
    ensures
        record_view(record@) == Seq::new(
            rows as nat,
            |r: int| Seq::new(columns as nat, |c: int| None::<HintView>),
        ),
{
    let mut record: Vec<Vec<Option<Hint>>> = Vec::new();
    let mut r: usize = 0;
    while r < rows
        invariant
            r <= rows,
            record@.len() == r,
            forall|j: int|
                0 <= j < r ==> row_view((#[trigger] record@[j])@) == Seq::new(
                    columns as nat,
                    |c: int| None::<HintView>,
                ),
        decreases rows - r,
    {
        let mut row: Vec<Option<Hint>> = Vec::new();
        let mut c: usize = 0;
        while c < columns
            invariant
                c <= columns,
                row@.len() == c,
                forall|j: int| 0 <= j < c ==> #[trigger] row@[j] == None::<Hint>,
            decreases columns - c,
        {
            row.push(None);
            c = c + 1;
        }
        assert(row_view(row@) == Seq::new(columns as nat, |c: int| None::<HintView>));
        record.push(row);
        r = r + 1;
    }
    assert(record_view(record@) == Seq::new(
        rows as nat,
        |r: int| Seq::new(columns as nat, |c: int| None::<HintView>),
    ));
    record
}

/// A session of the word game: a board that takes a guess per row, judges
/// each committed guess against a hidden target word, and ends when a guess
/// is right, when the rows are used up, or when the countdown is over.
#[derive(Debug)]
pub struct Game {
    messages: MessageHandler,
    rows: usize,
    columns: usize,
    board: Vec<Vec<Option<char>>>,
    commited: Vec<Vec<Option<Hint>>>,
    effector: Effect,
    width: usize,
    height: usize,
    word: String,
    timer: Option<Timer>,
    pos: (i32, i32),
    control: bool,
    finished: Finished,
    selected: (usize, usize),
}

impl View for Game {
    type V = GameView;

    closed spec fn view(&self) -> GameView {
        GameView {
            rows: self.rows,
            columns: self.columns,
            board: grid_view(self.board@),
            commited: record_view(self.commited@),
            selected: self.selected,
            finished: self.finished,
            effector: self.effector@,
            timer: timer_view(self.timer),
            messages: self.messages@,
            word: self.word@,
            control: self.control,
            width: self.width,
            height: self.height,
            pos: self.pos,
        }
    }
}

impl Game {
    /// The session is in a state that a session can reach.
    pub open spec fn wf(&self) -> bool {
        self@.inv()
    }

    /// Whether row `row` has been committed.
    pub fn is_commited(&self, row: usize) -> (commited: bool)
        requires
            self.wf(),
            row < self@.rows,
        ensures
            commited == self@.is_commited(row as int),
    {
        assert(self@.commited[row as int].len() == self@.columns);
        self.commited[row][0].is_some()
    }

    /// How the session stands.
    pub fn finished(&self) -> (finished: Finished)
        ensures
            finished == self@.finished,
    {
        self.finished
    }

    /// A boxed notice at the centre of the board.
    fn notice(&self, text: &str, bg: Colour) -> (settings: MessageSettings)
        requires
            self@.width <= WIDTH,
            self@.height <= HEIGHT,
        ensures
            settings@ == self@.notice(text@, bg),
    {
        let x: i64 = self.pos.0 as i64 + (self.width / 2) as i64;
        let y: i64 = self.pos.0 as i64 + (self.height / 2) as i64;
        MessageSettings::blueprint().pos(x, y).message(text).style(Style::Rectangle).bg(bg)
    }

    /// Puts the character `ch` into the cell under the cursor.
    pub fn put_letter(&mut self, ch: char)
        requires
            old(self).wf(),
        ensures
            final(self)@ == old(self)@.put_letter(ch),
            final(self).wf(),
    {
        proof {
            lemma_submit_letter_inv(self@, ch);
        }
        if self.finished == Finished::No && self.selected.1 < self.columns {
            self.set(self.selected.1, self.selected.0, Some(ch));
            self.selected.1 = self.selected.1 + 1;
        }
    }

    /// Submits the character `ch`: a letter is put into the cell under the
    /// cursor, any other character is passed over.
    pub fn submit_letter(&mut self, ch: char)
        requires
            old(self).wf(),
        ensures
            final(self)@ == old(self)@.submit_letter(ch),
            final(self).wf(),
    {
        if is_alphabetic(ch) {
            self.put_letter(ch);
        }
    }

    /// Takes back the letter before the cursor.
    pub fn delete_last_letter(&mut self)
        requires
            old(self).wf(),
        ensures
            final(self)@ == old(self)@.delete_last_letter(),
            final(self).wf(),
    {
        proof {
            lemma_delete_last_letter_inv(self@);
        }
        if self.finished == Finished::No && self.selected.1 > 0 {
            self.set(self.selected.1 - 1, self.selected.0, None);
            self.selected.1 = self.selected.1 - 1;
        }
    }

    /// Heeds the keyboard.
    pub fn control(&mut self, input: KeyInput, words: &Vec<String>)
        requires
            old(self).wf(),
        ensures
            final(self)@ == old(self)@.control(input, words_view(words@)),
            final(self).wf(),
    {
        proof {
            lemma_control_inv(self@, input, words_view(words@));
        }
        if !(self.finished == Finished::No) {
            return ;
        }
        match input.typed_letter() {
            Some(key) => {
                self.put_letter(key);
            },
            None => {
                if input.enter && self.selected.1 >= self.columns {
                    let _ = self.commit_row(words);
                } else if input.backspace && self.selected.1 > 0 {
                    self.delete_last_letter();
                }
            },
        }
    }

    /// Commits the row of the cursor against the word list `words`. Reports
    /// the word if the list does not hold it, and else whether the commit
    /// won the session.
    pub fn commit_row(&mut self, words: &Vec<String>) -> (result: Result<bool, String>)
        requires
            old(self).wf(),
        ensures
            final(self)@ == old(self)@.commit_row(words_view(words@)),
            final(self).wf(),
            match result {
                Ok(won) => old(self)@.commit_result(words_view(words@)) == Ok::<bool, Seq<char>>(
                    won,
                ),
                Err(word) => old(self)@.commit_result(words_view(words@)) == Err::<
                    bool,
                    Seq<char>,
                >(word@),
            },
    {
        proof {
            lemma_commit_row_inv(self@, words_view(words@));
        }
        if !(self.finished == Finished::No && self.selected.1 == self.columns) {
            return Ok(false);
        }
        proof {
            lemma_candidate(self@);
        }
        let row = self.selected.0;
        let word = row_word(&self.board[row]);
        if !contains_word(words, &word) {
            let mut text = word.clone();
            text.append(" not in list!");
            let message = self.notice(text.as_str(), Colour::blue()).lifetime(
                REJECT_NOTICE_TICKS,
            ).font_size(SMALL_FONT).build();
            self.effector.start_shake(REJECT_SHAKE_TICKS, REJECT_SHAKE_INTENSITY);
            self.messages.add(message);
            return Err(word);
        }
        let verdicts = classify(word.as_str(), self.word.as_str());
        let greens = count_greens(&verdicts);
        let hints = hints_for(&verdicts);
        let ghost before = self.commited@;
        self.commited[row] = hints;
        assert(record_view(self.commited@) == record_view(before).update(
            row as int,
            fresh_hints(verdicts@),
        ));
        if greens == self.columns {
            let message = self.notice("You Won!", Colour::green()).build();
            self.finished = Finished::Won;
            self.messages.add(message);
            return Ok(true);
        }
        if row == self.rows - 1 {
            let message = self.notice("You Lost!", Colour::red()).build();
            self.finished = Finished::Lost;
            self.messages.add(message);
        } else {
            self.selected = (row + 1, 0);
        }
        Ok(false)
    }

    /// One tick of the session with what the keyboard gave, the samples of
    /// the shake and the reading of the clock.
    pub fn update_with(
        &mut self,
        input: KeyInput,
        words: &Vec<String>,
        dx: i32,
        dy: i32,
        reading: u64,
    )
        requires
            old(self).wf(),
            within_reach(dx),
            within_reach(dy),
        ensures
            final(self)@ == old(self)@.update(input, words_view(words@), dx, dy, reading),
            final(self).wf(),
    {
        let ghost start = self@;
        proof {
            lemma_update_inv(start, input, words_view(words@), dx, dy, reading);
        }
        let over = match &self.timer {
            Some(timer) => timer.finished(),
            None => false,
        };
        if over && self.finished == Finished::No {
            let message = self.notice("You Ran Out of Time!", Colour::red()).font_size(
                SMALL_FONT,
            ).build();
            self.finished = Finished::Lost;
            self.messages.add(message);
        }
        assert(self@ == start.timeout());
        self.effector.run_with(dx, dy);
        update_record(&mut self.commited);
        assert(self@ == start.timeout().animate(dx, dy));
        match &mut self.timer {
            Some(timer) => {
                timer.record(reading);
            },
            None => {},
        }
        assert(self@ == start.timeout().animate(dx, dy).read_clock(reading));
        if self.control {
            self.control(input, words);
        }
        self.messages.update();
    }

    /// One tick of the session. The samples of the shake come from the
    /// shared generator and the reading from the clock.
    pub fn update(&mut self, input: KeyInput, words: &Vec<String>)
        requires
            old(self).wf(),
        ensures
            final(self).wf(),
            exists|dx: i32, dy: i32, reading: u64|
                within_reach(dx) && within_reach(dy) && final(self)@ == old(self)@.update(
                    input,
                    words_view(words@),
                    dx,
                    dy,
                    reading,
                ),
    {
        let (dx, dy) = self.effector.sample();
        let reading = match &self.timer {
            Some(timer) => timer.read(),
            None => 0,
        };
        self.update_with(input, words, dx, dy, reading);
        assert(within_reach(dx) && within_reach(dy) && self@ == old(self)@.update(
            input,
            words_view(words@),
            dx,
            dy,
            reading,
        ));
    }

    /// The cell in column `x` of row `y`.
    pub fn at(&self, x: usize, y: usize) -> (cell: Option<char>)
        requires
            y < self@.board.len(),
            x < self@.board[y as int].len(),
        ensures
            cell == self@.board[y as int][x as int],
    {
        self.board[y][x]
    }

    /// Sets the cell in column `x` of row `y`, whatever the cursor and the
    /// commit record say.
    pub fn set(&mut self, x: usize, y: usize, val: Option<char>)
        requires
            y < old(self)@.board.len(),
            x < old(self)@.board[y as int].len(),
        ensures
            final(self)@ == old(self)@.with_cell(y as int, x as int, val),
    {
        self.board[y][x] = val;
        assert(grid_view(self.board@) == grid_view(old(self).board@).update(
            y as int,
            grid_view(old(self).board@)[y as int].update(x as int, val),
        ));
    }

    /// The cells of the board, row by row.
    pub fn board(&self) -> (board: &Vec<Vec<Option<char>>>)
        ensures
            grid_view(board@) == self@.board,
    {
        &self.board
    }

    /// The hint in column `x` of row `y`, if the row has been committed.
    pub fn hint(&self, x: usize, y: usize) -> (slot: Option<Hint>)
        requires
            y < self@.commited.len(),
            x < self@.commited[y as int].len(),
        ensures
            slot_view(slot) == self@.commited[y as int][x as int],
    {
        self.commited[y][x]
    }

    pub fn rows(&self) -> (rows: usize)
        ensures
            rows == self@.rows,
    {
        self.rows
    }

    pub fn columns(&self) -> (columns: usize)
        ensures
            columns == self@.columns,
    {
        self.columns
    }

    /// The cursor: the row being typed and the column of the next letter.
    pub fn selected(&self) -> (cursor: (usize, usize))
        ensures
            cursor == self@.selected,
    {
        self.selected
    }

    /// Width of the board, in pixels.
    pub fn width(&self) -> (width: usize)
        ensures
            width == self@.width,
    {
        self.width
    }

    /// Height of the board, in pixels.
    pub fn height(&self) -> (height: usize)
        ensures
            height == self@.height,
    {
        self.height
    }

    /// Top left corner of the board, in pixels.
    pub fn pos(&self) -> (pos: (i32, i32))
        ensures
            pos == self@.pos,
    {
        self.pos
    }

    /// The target word.
    pub fn word(&self) -> (word: &str)
        ensures
            word@ == self@.word,
    {
        self.word.as_str()
    }

    /// Whether the session listens to the keyboard.
    pub fn listens(&self) -> (listens: bool)
        ensures
            listens == self@.control,
    {
        self.control
    }

    /// The shake of the board.
    pub fn effector(&self) -> (effect: &Effect)
        ensures
            effect@ == self@.effector,
    {
        &self.effector
    }

    /// The notices on show.
    pub fn messages(&self) -> (queue: &MessageHandler)
        ensures
            queue@ == self@.messages,
    {
        &self.messages
    }

    /// Whether the session has a countdown and the countdown is over.
    pub fn out_of_time(&self) -> (over: bool)
        ensures
            over == (self@.timer matches Some(timer) && timer.finished()),
    {
        match &self.timer {
            Some(timer) => timer.finished(),
            None => false,
        }
    }
}

/// What the settings of a session hold.
pub struct SettingsView {
    pub width: usize,
    pub columns: usize,
    pub rows: usize,
    pub height: usize,
    pub word: Seq<char>,
    pub timer: Option<TimerView>,
    pub pos: (i32, i32),
    pub control: bool,
}

impl SettingsView {
    /// The default settings for the target `word`: a board of six rows and
    /// five columns that fills the window, at the origin, without a
    /// countdown, listening to the keyboard.
    pub open spec fn blueprint(word: Seq<char>) -> SettingsView {
        SettingsView {
            width: WIDTH,
            columns: DEFAULT_COLUMNS,
            rows: DEFAULT_ROWS,
            height: HEIGHT,
            word,
            timer: None,
            pos: (0, 0),
            control: true,
        }
    }

    /// A side of the board brought within its limits: no less than
    /// `MIN_SIDE` and no more than `most`.
    pub open spec fn clamp_side(side: usize, most: usize) -> usize {
        if side < MIN_SIDE {
            MIN_SIDE
        } else if side > most {
            most
        } else {
            side
        }
    }

    /// A count of rows or columns brought to at least one.
    pub open spec fn at_least_one(count: usize) -> usize {
        if count == 0 {
            1
        } else {
            count
        }
    }

    /// The state in which a session with these settings begins: an empty
    /// board with the cursor on its first cell, the countdown, if there is
    /// one, started, and no notice on show. Counts and sides beyond their
    /// limits are brought within them.
    pub open spec fn build(self) -> GameView {
        let rows = Self::at_least_one(self.rows);
        let columns = Self::at_least_one(self.columns);
        GameView {
            rows,
            columns,
            board: Seq::new(rows as nat, |r: int| Seq::new(columns as nat, |c: int| None::<char>)),
            commited: Seq::new(
                rows as nat,
                |r: int| Seq::new(columns as nat, |c: int| None::<HintView>),
            ),
            selected: (0, 0),
            finished: Finished::No,
            effector: EffectView::idle(),
            timer: match self.timer {
                Some(timer) => Some(timer.start()),
                None => None,
            },
            messages: Seq::empty(),
            word: self.word,
            control: self.control,
            width: Self::clamp_side(self.width, WIDTH),
            height: Self::clamp_side(self.height, HEIGHT),
            pos: self.pos,
        }
    }
}

/// Every session begins in a state that a session can reach.
pub proof fn lemma_build_inv(settings: SettingsView)
    ensures
        settings.build().inv(),
{
    let game = settings.build();
    assert(game.shaped());
    assert(game.lettered());
    assert(game.recorded());
    assert(game.judged());
}

/// Builder of a session.
#[derive(Debug)]
pub struct GameSettings {
    width: usize,
    columns: usize,
    rows: usize,
    height: usize,
    word: String,
    timer: Option<Timer>,
    pos: (i32, i32),
    control: bool,
}

impl View for GameSettings {
    type V = SettingsView;

    closed spec fn view(&self) -> SettingsView {
        SettingsView {
            width: self.width,
            columns: self.columns,
            rows: self.rows,
            height: self.height,
            word: self.word@,
            timer: timer_view(self.timer),
            pos: self.pos,
            control: self.control,
        }
    }
}

/// Brings a side of the board within its limits.
fn clamp_side(side: usize, most: usize) -> (clamped: usize)
    ensures
        clamped == SettingsView::clamp_side(side, most),
{
    if side < MIN_SIDE {
        MIN_SIDE
    } else if side > most {
        most
    } else {
        side
    }
}

impl GameSettings {
    /// The default settings, with a target drawn from `words`.
    pub fn blueprint(words: &Vec<String>) -> (settings: Self)
        requires
            words@.len() > 0,
        ensures
            words_view(words@).contains(settings@.word),
            settings@ == SettingsView::blueprint(settings@.word),
    {
        Self {
            width: WIDTH,
            columns: DEFAULT_COLUMNS,
            rows: DEFAULT_ROWS,
            height: HEIGHT,
            word: Self::_random(words),
            timer: None,
            pos: (0, 0),
            control: true,
        }
    }

    /// Sets the top left corner of the board, in pixels.
    pub fn pos(self, x: i32, y: i32) -> (settings: Self)
        ensures
            settings@ == (SettingsView { pos: (x, y), ..self@ }),
    {
        let mut settings = self;
        settings.pos = (x, y);
        settings
    }

    /// Sets whether the session listens to the keyboard.
    pub fn control(self, control: bool) -> (settings: Self)
        ensures
            settings@ == (SettingsView { control, ..self@ }),
    {
        let mut settings = self;
        settings.control = control;
        settings
    }

    /// Sets the target word.
    pub fn word(self, word: String) -> (settings: Self)
        ensures
            settings@ == (SettingsView { word: word@, ..self@ }),
    {
        let mut settings = self;
        settings.word = word;
        settings
    }

    /// Sets the width of the board, in pixels, brought within its limits.
    pub fn width(self, width: usize) -> (settings: Self)
        ensures
            settings@ == (SettingsView {
                width: SettingsView::clamp_side(width, WIDTH),
                ..self@
            }),
    {
        let mut settings = self;
        settings.width = clamp_side(width, WIDTH);
        settings
    }

    /// Sets the height of the board, in pixels, brought within its limits.
    pub fn height(self, height: usize) -> (settings: Self)
        ensures
            settings@ == (SettingsView {
                height: SettingsView::clamp_side(height, HEIGHT),
                ..self@
            }),
    {
        let mut settings = self;
        settings.height = clamp_side(height, HEIGHT);
        settings
    }

    /// Sets the number of rows.
    pub fn rows(self, rows: usize) -> (settings: Self)
        ensures
            settings@ == (SettingsView { rows, ..self@ }),
    {
        let mut settings = self;
        settings.rows = rows;
        settings
    }

    /// Sets the number of columns.
    pub fn columns(self, columns: usize) -> (settings: Self)
        ensures
            settings@ == (SettingsView { columns, ..self@ }),
    {
        let mut settings = self;
        settings.columns = columns;
        settings
    }

    /// Gives the session a countdown of `secs` seconds.
    pub fn timer(self, secs: usize) -> (settings: Self)
        ensures
            settings@ == (SettingsView { timer: Some(TimerView::fresh(secs)), ..self@ }),
    {
        let mut settings = self;
        settings.timer = Some(Timer::new(secs));
        settings
    }

    /// A word of the list, picked by the shared generator.
    fn _random(words: &Vec<String>) -> (word: String)
        requires
            words@.len() > 0,
        ensures
            words_view(words@).contains(word@),
    {
        let drawn = gen_range_usize(0, words.len());
        let picked = if drawn < words.len() {
            drawn
        } else {
            words.len() - 1
        };
        assert(words_view(words@)[picked as int] == words@[picked as int]@);
        words[picked].clone()
    }

    /// Begins the session that the settings describe.
    pub fn build(self) -> (game: Game)
        ensures
            game@ == self@.build(),
            game.wf(),
    {
        proof {
            lemma_build_inv(self@);
        }
        let mut timer = self.timer;
        match &mut timer {
            Some(timer) => {
                timer.start();
            },
            None => {},
        }
        let rows: usize = if self.rows == 0 {
            1
        } else {
            self.rows
        };
        let columns: usize = if self.columns == 0 {
            1
        } else {
            self.columns
        };
        Game {
            board: empty_grid(rows, columns),
            commited: empty_record(rows, columns),
            width: clamp_side(self.width, WIDTH),
            height: clamp_side(self.height, HEIGHT),
            word: self.word,
            timer,
            pos: self.pos,
            control: self.control,
            selected: (0, 0),
            effector: Effect::new(),
            finished: Finished::No,
            rows,
            columns,
            messages: MessageHandler::new(),
        }
    }
}

} // verus!
