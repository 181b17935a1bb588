//! The game: the words in play, the input box, the score, and how each key
//! press and each tick of the clock changes them.
use vstd::prelude::*;
use crate::input_box::{InputBox, typed, erased};
use crate::word::Word;
use crate::word_holder::{
    WordHolder, spawn_row, after_spawn, shifted, fits, zone_check_safe, TOP_INDENT, BOTTOM_INDENT,
};

verus! {

broadcast use vstd::slice::axiom_slice_get_usize;

/// The words in play, the words to come and the score, as the scan of a
/// typed word sees them.
pub type Board = (Seq<Word>, Seq<String>, int);

/// The scan of a typed word at index `i`: when the word in play at `i`
/// equals the typed text, it leaves play, the next word of the list enters
/// in row `row` (when there is room and a word left), and the score goes
/// up by 2.  Otherwise nothing changes.
pub open spec fn scan_step(b: Board, i: int, text: Seq<char>, row: u16, max_size: usize) -> Board {
    let (t, w, score) = b;
    if 0 <= i < t.len() && t[i].word@ == text {
        let t1 = t.remove(i);
        if t1.len() < max_size && w.len() > 0 {
            let (t2, w2) = after_spawn(t1, w, row);
            (t2, w2, score + 2)
        } else {
            (t1, w, score + 2)
        }
    } else {
        b
    }
}

/// The board after the scan has looked at indices `0..k`, where `rows[i]`
/// is the row of the word that enters when index `i` is a hit.  The indices
/// are fixed when the scan starts; a hit shifts later words down one place.
pub open spec fn scan(b: Board, text: Seq<char>, rows: Seq<u16>, max_size: usize, k: nat) -> Board
    decreases k,
{
    if k == 0 {
        b
    } else {
        scan_step(scan(b, text, rows, max_size, (k - 1) as nat), k - 1, text, rows[k - 1], max_size)
    }
}

/// The scan reads only the rows of the indices it has looked at.
pub proof fn lemma_scan_rows_prefix(
    b: Board,
    text: Seq<char>,
    r1: Seq<u16>,
    r2: Seq<u16>,
    max_size: usize,
    k: nat,
)
    requires
        k <= r1.len(),
        k <= r2.len(),
        forall|j: int| 0 <= j < k ==> r1[j] == r2[j],
    ensures
        scan(b, text, r1, max_size, k) == scan(b, text, r2, max_size, k),
    decreases k,
{
    if k > 0 {
        lemma_scan_rows_prefix(b, text, r1, r2, max_size, (k - 1) as nat);
    }
}

/// The score never goes down during a scan.
pub proof fn lemma_scan_score_grows(
    b: Board,
    text: Seq<char>,
    rows: Seq<u16>,
    max_size: usize,
    k1: nat,
    k2: nat,
)
    requires
        k1 <= k2,
    ensures
        scan(b, text, rows, max_size, k1).2 <= scan(b, text, rows, max_size, k2).2,
    decreases k2,
{
    if k1 < k2 {
        lemma_scan_score_grows(b, text, rows, max_size, k1, (k2 - 1) as nat);
    }
}

/// Submitting never puts more than `max_size` words in play.
pub proof fn lemma_scan_keeps_bound(
    b: Board,
    text: Seq<char>,
    rows: Seq<u16>,
    max_size: usize,
    k: nat,
)
    requires
        b.0.len() <= max_size,
    ensures
        scan(b, text, rows, max_size, k).0.len() <= max_size,
    decreases k,
{
    if k > 0 {
        lemma_scan_keeps_bound(b, text, rows, max_size, (k - 1) as nat);
    }
}

/// Each hit scores 2 and uses up exactly one word: the score gained is
/// twice the drop in the number of words in play and to come.
pub proof fn lemma_scan_score_counts_hits(
    b: Board,
    text: Seq<char>,
    rows: Seq<u16>,
    max_size: usize,
    k: nat,
)
    ensures
        ({
            let e = scan(b, text, rows, max_size, k);
            e.2 - b.2 == 2 * ((b.0.len() + b.1.len()) - (e.0.len() + e.1.len()))
        }),
    decreases k,
{
    if k > 0 {
        lemma_scan_score_counts_hits(b, text, rows, max_size, (k - 1) as nat);
    }
}

/// When no word in play equals the typed text, submitting changes nothing
/// on the board.
pub proof fn lemma_scan_miss(b: Board, text: Seq<char>, rows: Seq<u16>, max_size: usize, k: nat)
    requires
        forall|j: int| 0 <= j < b.0.len() ==> (#[trigger] b.0[j]).word@ != text,
    ensures
        scan(b, text, rows, max_size, k) == b,
    decreases k,
{
    if k > 0 {
        lemma_scan_miss(b, text, rows, max_size, (k - 1) as nat);
    }
}

/// A word in play that equals the typed text, whatever its length, is a
/// hit: it leaves play, the score goes up by exactly 2, and at most one
/// word, the last of the list, enters at the end, in the given row.
pub proof fn lemma_hit_removes_and_scores(
    t: Seq<Word>,
    w: Seq<String>,
    s: int,
    i: int,
    text: Seq<char>,
    row: u16,
    max_size: usize,
)
    requires
        0 <= i < t.len(),
        t[i].word@ == text,
    ensures
        ({
            let r = scan_step((t, w, s), i, text, row, max_size);
            &&& r.2 == s + 2
            &&& r.0.len() == t.len() - 1 || r.0.len() == t.len()
            &&& r.0.take(t.len() - 1) == t.remove(i)
            &&& r.0.len() == t.len() ==> r.0[t.len() - 1] == Word::fresh(w.last(), row)
                && r.1 == w.drop_last() && w.len() > 0
            &&& r.0.len() == t.len() - 1 ==> r.1 == w
        }),
{
    let r = scan_step((t, w, s), i, text, row, max_size);
    if r.0.len() == t.len() {
        assert(r.0.take(t.len() - 1) =~= t.remove(i));
    } else {
        assert(r.0.take(t.len() - 1) =~= t.remove(i));
    }
}

/// At an index where the word in play differs from the typed text, or
/// where there is no word, the scan changes nothing.
pub proof fn lemma_miss_keeps_board(
    b: Board,
    i: int,
    text: Seq<char>,
    row: u16,
    max_size: usize,
)
    requires
        !(0 <= i < b.0.len()) || b.0[i].word@ != text,
    ensures
        scan_step(b, i, text, row, max_size) == b,
{
}

proof fn lemma_scan_prefix_misses(
    b: Board,
    text: Seq<char>,
    rows: Seq<u16>,
    max_size: usize,
    k: nat,
)
    requires
        k <= b.0.len(),
        forall|j: int| 0 <= j < k ==> (#[trigger] b.0[j]).word@ != text,
    ensures
        scan(b, text, rows, max_size, k) == b,
    decreases k,
{
    if k > 0 {
        lemma_scan_prefix_misses(b, text, rows, max_size, (k - 1) as nat);
    }
}

/// Submitting a text equal to some word in play scores: the first such
/// word is reached before any hit can shift it, and is hit.
pub proof fn lemma_matching_text_scores(
    b: Board,
    text: Seq<char>,
    rows: Seq<u16>,
    max_size: usize,
    j: int,
)
    requires
        0 <= j < b.0.len(),
        b.0[j].word@ == text,
        rows.len() == b.0.len(),
    ensures
        scan(b, text, rows, max_size, b.0.len()).2 >= b.2 + 2,
{
    let first = choose|f: int|
        0 <= f < b.0.len() && b.0[f].word@ == text && forall|g: int|
            0 <= g < f ==> (#[trigger] b.0[g]).word@ != text;
    assert(exists|f: int|
        0 <= f < b.0.len() && b.0[f].word@ == text && forall|g: int|
            0 <= g < f ==> (#[trigger] b.0[g]).word@ != text) by {
        lemma_first_match(b.0, text, j);
    }
    lemma_scan_prefix_misses(b, text, rows, max_size, first as nat);
    lemma_hit_removes_and_scores(b.0, b.1, b.2, first, text, rows[first], max_size);
    assert(scan(b, text, rows, max_size, (first + 1) as nat).2 == b.2 + 2);
    lemma_scan_score_grows(b, text, rows, max_size, (first + 1) as nat, b.0.len());
}

proof fn lemma_first_match(t: Seq<Word>, text: Seq<char>, j: int)
    requires
        0 <= j < t.len(),
        t[j].word@ == text,
    ensures
        exists|f: int|
            0 <= f < t.len() && t[f].word@ == text && forall|g: int|
                0 <= g < f ==> (#[trigger] t[g]).word@ != text,
    decreases j,
{
    if exists|g: int| 0 <= g < j && t[g].word@ == text {
        let g = choose|g: int| 0 <= g < j && t[g].word@ == text;
        lemma_first_match(t, text, g);
    } else {
        assert(forall|g: int| 0 <= g < j ==> (#[trigger] t[g]).word@ != text);
    }
}

/// A scan over `k` indices scores at most `2 * k`.
pub proof fn lemma_scan_gain_bounded(
    b: Board,
    text: Seq<char>,
    rows: Seq<u16>,
    max_size: usize,
    k: nat,
)
    ensures
        b.2 <= scan(b, text, rows, max_size, k).2 <= b.2 + 2 * k,
    decreases k,
{
    if k > 0 {
        lemma_scan_gain_bounded(b, text, rows, max_size, (k - 1) as nat);
    }
}

/// What the player does at the keyboard.
#[derive(Clone, Copy, Debug, PartialEq, Eq, Structural)]
pub enum KeyPress {
    /// A printable character; a space submits the typed word.
    Char(char),
    Backspace,
    /// Ctrl-Q.
    Quit,
    /// Any other key.
    Other,
}

/// What the input loop does after a key press.
#[derive(Clone, Copy, Debug, PartialEq, Eq, Structural)]
pub enum KeyAction {
    /// Stop at once, without redrawing.
    Quit,
    /// Redraw the screen and wait for the next key.
    Redraw,
    /// Redraw the screen; the game is won and the input loop ends.
    Finish,
}

/// Where the frame of the screen is drawn.
#[derive(Clone, Copy, Debug, PartialEq, Eq, Structural)]
pub struct Layout {
    /// Column of the score.
    pub score_x: u16,
    /// Row of the score.
    pub score_y: u16,
    /// Row of the upper border.
    pub top_row: u16,
    /// Row of the lower border.
    pub bottom_row: u16,
    /// The borders fill the columns from 1 up to, not including, this one.
    pub border_end: u16,
}

pub struct Game {
    pub inputbox: InputBox,
    pub wordholder: WordHolder,
    /// Terminal width and height.
    pub termsize: (u16, u16),
    pub score: i32,
}

impl Game {
    /// A game can be played on a terminal at least 35 columns wide and 9 rows high.
    pub open spec fn wf(&self) -> bool {
        self.termsize.0 >= 35 && self.termsize.1 >= 9
    }

    pub open spec fn board(&self) -> Board {
        (self.wordholder.typables@, self.wordholder.word_list@, self.score as int)
    }

    pub fn add_score(&mut self, score: i32)
        requires
            old(self).score + score <= i32::MAX,
            old(self).score + score >= i32::MIN,
        ensures
            final(self).score == old(self).score + score,
            final(self).inputbox == old(self).inputbox,
            final(self).wordholder == old(self).wordholder,
            final(self).termsize == old(self).termsize,
    {
        self.score += score;
    }

    pub fn subtruct_score(&mut self, score: i32)
        requires
            old(self).score - score <= i32::MAX,
            old(self).score - score >= i32::MIN,
        ensures
            final(self).score == old(self).score - score,
            final(self).inputbox == old(self).inputbox,
            final(self).wordholder == old(self).wordholder,
            final(self).termsize == old(self).termsize,
    {
        self.score -= score;
    }

    /// Whether the score stays within `i32` whatever rows the words that
    /// enter during `compare_result` are given.
    pub open spec fn compare_fits(&self) -> bool {
        forall|rows: Seq<u16>|
            rows.len() == self.wordholder.typables@.len() ==> #[trigger] scan(
                self.board(),
                self.inputbox.inputs@,
                rows,
                self.wordholder.max_size,
                rows.len(),
            ).2 <= i32::MAX
    }

    /// `after` is `before` once the typed text was submitted with result
    /// `won`: the board is what the scan gives for some rows allowed for new
    /// words; the game is won when no word is left in play, and otherwise
    /// the input box is emptied.
    pub open spec fn submitted(before: Game, after: Game, won: bool) -> bool {
        &&& after.termsize == before.termsize
        &&& after.wordholder.max_size == before.wordholder.max_size
        &&& exists|rows: Seq<u16>|
            {
                &&& rows.len() == before.wordholder.typables@.len()
                &&& forall|j: int|
                    0 <= j < rows.len() ==> spawn_row(#[trigger] rows[j], before.termsize.1)
                &&& after.board() == scan(
                    before.board(),
                    before.inputbox.inputs@,
                    rows,
                    before.wordholder.max_size,
                    rows.len(),
                )
            }
        &&& won == (after.wordholder.typables@.len() == 0)
        &&& won ==> after.inputbox == before.inputbox
        &&& !won ==> after.inputbox.inputs@ == Seq::<char>::empty()
        &&& after.inputbox.box_shape == before.inputbox.box_shape
        &&& after.inputbox.x == before.inputbox.x
        &&& after.inputbox.y == before.inputbox.y
    }

    /// Submitting a text equal to a word in play scores at least 2 points,
    /// whatever the text's length.
    pub proof fn lemma_submit_match_scores(before: Game, after: Game, won: bool, j: int)
        requires
            Game::submitted(before, after, won),
            0 <= j < before.wordholder.typables@.len(),
            before.wordholder.typables@[j].word@ == before.inputbox.inputs@,
        ensures
            after.score >= before.score + 2,
    {
        let rows = choose|rows: Seq<u16>|
            {
                &&& rows.len() == before.wordholder.typables@.len()
                &&& forall|j: int|
                    0 <= j < rows.len() ==> spawn_row(#[trigger] rows[j], before.termsize.1)
                &&& after.board() == scan(
                    before.board(),
                    before.inputbox.inputs@,
                    rows,
                    before.wordholder.max_size,
                    rows.len(),
                )
            };
        lemma_matching_text_scores(
            before.board(),
            before.inputbox.inputs@,
            rows,
            before.wordholder.max_size,
            j,
        );
    }

    /// Room in the score for two points per word in play is enough for
    /// `compare_result`.
    pub proof fn lemma_compare_fits(self)
        requires
            self.score + 2 * self.wordholder.typables@.len() <= i32::MAX,
        ensures
            self.compare_fits(),
    {
        assert forall|rows: Seq<u16>| rows.len() == self.wordholder.typables@.len() implies #[trigger] scan(
            self.board(),
            self.inputbox.inputs@,
            rows,
            self.wordholder.max_size,
            rows.len(),
        ).2 <= i32::MAX by {
            lemma_scan_gain_bounded(
                self.board(),
                self.inputbox.inputs@,
                rows,
                self.wordholder.max_size,
                rows.len(),
            );
        }
    }

    /// Submits the typed text: every word in play that equals it is taken
    /// out, replaced from the list, and scores 2 (see `scan`).  Returns
    /// whether no word is left in play, which wins the game; otherwise the
    /// input box is emptied.
    pub fn compare_result(&mut self) -> (won: bool)
        requires
            old(self).termsize.1 >= 9,
            old(self).compare_fits(),
        ensures
            Game::submitted(*old(self), *final(self), won),
    {
        let n = self.wordholder.typables.len();
        let ghost b0 = old(self).board();
        let ghost text = old(self).inputbox.inputs@;
        let ghost max_size = old(self).wordholder.max_size;
        let ghost mut rows: Seq<u16> = Seq::empty();
        for i in 0..n
            invariant
                n == b0.0.len(),
                b0 == old(self).board(),
                text == old(self).inputbox.inputs@,
                max_size == old(self).wordholder.max_size,
                old(self).compare_fits(),
                self.termsize.1 >= 9,
                self.termsize == old(self).termsize,
                self.inputbox == old(self).inputbox,
                self.wordholder.max_size == max_size,
                rows.len() == i,
                forall|j: int| 0 <= j < rows.len() ==> spawn_row(#[trigger] rows[j], self.termsize.1),
                self.board() == scan(b0, text, rows, max_size, i as nat),
        {
            let ghost cur = self.board();
            let mut hit = false;
            let word = self.wordholder.typables.get(i);
            if word.is_some() {
                if self.inputbox.inputs == word.unwrap().word {
                    self.wordholder.pop_typable(i);
                    let ghost can = self.wordholder.can_spawn();
                    let ghost mid = self.wordholder;
                    self.wordholder.add_typable(self.termsize);
                    let ghost y: u16 = if can {
                        choose|y: u16|
                            spawn_row(y, self.termsize.1) && (
                            self.wordholder.typables@,
                            self.wordholder.word_list@,
                        ) == after_spawn(mid.typables@, mid.word_list@, y)
                    } else {
                        (TOP_INDENT + 1) as u16
                    };
                    proof {
                        let r2 = rows.push(y);
                        lemma_scan_rows_prefix(b0, text, rows, r2, max_size, i as nat);
                        assert(scan(b0, text, r2, max_size, (i + 1) as nat) == scan_step(cur, i as int, text, y, max_size));
                        let full = r2 + Seq::new((n - (i + 1)) as nat, |j: int| (TOP_INDENT + 1) as u16);
                        lemma_scan_rows_prefix(b0, text, r2, full, max_size, (i + 1) as nat);
                        lemma_scan_score_grows(b0, text, full, max_size, (i + 1) as nat, n as nat);
                        assert(full.len() == n);
                        assert(scan(b0, text, full, max_size, full.len()).2 <= i32::MAX);
                        rows = r2;
                    }
                    self.add_score(2);
                    hit = true;
                }
            }
            if !hit {
                proof {
                    let r2 = rows.push((TOP_INDENT + 1) as u16);
                    lemma_scan_rows_prefix(b0, text, rows, r2, max_size, i as nat);
                    rows = r2;
                }
            }
        }
        if self.wordholder.typables.len() == 0 {
            return true;
        }
        self.inputbox.reset();
        false
    }

    /// Whether typing a character goes without overflow: every word can move
    /// one column, and checking that the moved words fit is safe.
    pub open spec fn input_fits(&self) -> bool {
        &&& forall|j: int|
            0 <= j < self.wordholder.typables@.len() ==> #[trigger] self.wordholder.typables@[j].x
                < u16::MAX
        &&& zone_check_safe(shifted(self.wordholder.typables@), self.termsize.0)
    }

    /// `after` is `before` once the player typed `c`: the character is added
    /// to the input box and every word moves one column; when a moved word
    /// no longer fits on the screen, every word leaves play.
    pub open spec fn took_input(before: Game, after: Game, c: char) -> bool {
        let moved = shifted(before.wordholder.typables@);
        &&& after.inputbox.inputs@ == typed(before.inputbox.inputs@, c)
        &&& after.inputbox.box_shape == before.inputbox.box_shape
        &&& after.inputbox.x == before.inputbox.x
        &&& after.inputbox.y == before.inputbox.y
        &&& (forall|j: int| 0 <= j < moved.len() ==> fits(#[trigger] moved[j], before.termsize.0))
            ==> after.wordholder.typables@ == moved
        &&& !(forall|j: int| 0 <= j < moved.len() ==> fits(#[trigger] moved[j], before.termsize.0))
            ==> after.wordholder.typables@.len() == 0
        &&& after.wordholder.word_list@ == before.wordholder.word_list@
        &&& after.wordholder.max_size == before.wordholder.max_size
        &&& after.termsize == before.termsize
        &&& after.score == before.score
    }

    /// Takes a typed character.
    pub fn get_input(&mut self, c: char)
        requires
            old(self).input_fits(),
        ensures
            Game::took_input(*old(self), *final(self), c),
    {
        self.inputbox.get_char(c);
        self.wordholder.move_forward();
        if !self.wordholder.wordzone(self.termsize.0) {
            self.gameover();
        }
    }

    /// Takes every word out of play.
    pub fn gameover(&mut self)
        ensures
            final(self).wordholder.typables@.len() == 0,
            final(self).wordholder.word_list@ == old(self).wordholder.word_list@,
            final(self).wordholder.max_size == old(self).wordholder.max_size,
            final(self).inputbox == old(self).inputbox,
            final(self).termsize == old(self).termsize,
            final(self).score == old(self).score,
    {
        let n = self.wordholder.typables.len();
        for i in 0..n
            invariant
                n == old(self).wordholder.typables@.len(),
                self.wordholder.typables@.len() == n - i,
                self.wordholder.word_list@ == old(self).wordholder.word_list@,
                self.wordholder.max_size == old(self).wordholder.max_size,
                self.inputbox == old(self).inputbox,
                self.termsize == old(self).termsize,
                self.score == old(self).score,
        {
            self.wordholder.typables.pop().unwrap();
        }
    }

    /// Winning has no effect of its own.
    pub fn success(&mut self)
        ensures
            *final(self) == *old(self),
    {
    }

    /// Whether `on_key` can take `key` without overflow.
    pub open spec fn key_fits(&self, key: KeyPress) -> bool {
        match key {
            KeyPress::Char(c) => if c == ' ' {
                self.termsize.1 >= 9 && self.compare_fits()
            } else {
                self.input_fits()
            },
            _ => true,
        }
    }

    /// Handles one key press of the input loop: Ctrl-Q quits, a space
    /// submits the typed text, another character is typed, backspace erases
    /// the last typed character, and any other key only redraws.
    pub fn on_key(&mut self, key: KeyPress) -> (action: KeyAction)
        requires
            old(self).key_fits(key),
        ensures
            final(self).termsize == old(self).termsize,
            key == KeyPress::Quit ==> action == KeyAction::Quit && *final(self) == *old(self),
            key == KeyPress::Other ==> action == KeyAction::Redraw && *final(self) == *old(self),
            key == KeyPress::Char(' ') ==> Game::submitted(
                *old(self),
                *final(self),
                action == KeyAction::Finish,
            ) && action != KeyAction::Quit,
            key matches KeyPress::Char(c) ==> (c != ' ' ==> action == KeyAction::Redraw
                && Game::took_input(*old(self), *final(self), c)),
            key == KeyPress::Backspace ==> action == KeyAction::Redraw
                && final(self).inputbox.inputs@ == erased(old(self).inputbox.inputs@)
                && final(self).inputbox.box_shape == old(self).inputbox.box_shape
                && final(self).inputbox.x == old(self).inputbox.x
                && final(self).inputbox.y == old(self).inputbox.y
                && final(self).wordholder == old(self).wordholder
                && final(self).termsize == old(self).termsize
                && final(self).score == old(self).score,
    {
        match key {
            KeyPress::Quit => KeyAction::Quit,
            KeyPress::Char(' ') => {
                if self.compare_result() {
                    KeyAction::Finish
                } else {
                    KeyAction::Redraw
                }
            },
            KeyPress::Char(c) => {
                self.get_input(c);
                KeyAction::Redraw
            },
            KeyPress::Backspace => {
                self.inputbox.delete_char();
                KeyAction::Redraw
            },
            KeyPress::Other => KeyAction::Redraw,
        }
    }

    /// The first half of a clock tick, before the pause: on the ninth tick
    /// a new word enters play and the count starts again.
    pub fn timer_spawn(&mut self, counter: u32) -> (next: u32)
        requires
            counter == 9 && old(self).wordholder.can_spawn() ==> old(self).termsize.1 >= 9,
        ensures
            final(self).termsize == old(self).termsize,
            counter <= 9 ==> next <= 8,
            counter == 9 ==> next == 0 && WordHolder::added(
                old(self).wordholder,
                final(self).wordholder,
                old(self).termsize.1,
            ) && final(self).inputbox == old(self).inputbox && final(self).termsize
                == old(self).termsize && final(self).score == old(self).score,
            counter != 9 ==> next == counter && *final(self) == *old(self),
    {
        if counter == 9 {
            self.wordholder.add_typable(self.termsize);
            0
        } else {
            counter
        }
    }

    /// The second half of a clock tick, after the pause: every word moves
    /// one column and the count goes up.
    pub fn timer_advance(&mut self, counter: u32) -> (next: u32)
        requires
            counter < u32::MAX,
            forall|j: int|
                0 <= j < old(self).wordholder.typables@.len()
                    ==> #[trigger] old(self).wordholder.typables@[j].x < u16::MAX,
        ensures
            next == counter + 1,
            final(self).wordholder.typables@ == shifted(old(self).wordholder.typables@),
            final(self).wordholder.word_list@ == old(self).wordholder.word_list@,
            final(self).wordholder.max_size == old(self).wordholder.max_size,
            final(self).inputbox == old(self).inputbox,
            final(self).termsize == old(self).termsize,
            final(self).score == old(self).score,
    {
        self.wordholder.move_forward();
        counter + 1
    }

    /// Where the score and the borders go on the screen.
    pub fn layout(&self) -> (l: Layout)
        requires
            self.termsize.0 >= 1,
            self.termsize.1 >= BOTTOM_INDENT,
        ensures
            l.score_x == self.termsize.0 - 1,
            l.score_y == 2,
            l.top_row == TOP_INDENT,
            l.bottom_row == self.termsize.1 - BOTTOM_INDENT,
            l.border_end == self.termsize.0,
    {
        Layout {
            score_x: self.termsize.0 - 1,
            score_y: 2,
            top_row: TOP_INDENT,
            bottom_row: self.termsize.1 - BOTTOM_INDENT,
            border_end: self.termsize.0,
        }
    }

    /// A new game on a terminal of the given size, dealing the given words.
    pub fn new(termsize: (u16, u16), words: Vec<String>) -> (g: Game)
        requires
            termsize.0 >= 35,
            termsize.1 >= 9,
            words@.len() > 0,
        ensures
            g.wf(),
            g.termsize == termsize,
            g.score == 0,
            g.inputbox.is_new(termsize),
            g.wordholder.max_size == crate::word_holder::MAX_TYPABLES,
            g.wordholder.typables@.len() == 1,
            exists|y: u16|
                spawn_row(y, termsize.1) && g.wordholder.typables@[0] == Word::fresh(
                    g.wordholder.typables@[0].word,
                    y,
                ),
            g.wordholder.word_list@.push(g.wordholder.typables@[0].word).to_multiset()
                == words@.to_multiset(),
    {
        Game {
            inputbox: InputBox::new(termsize),
            wordholder: WordHolder::new(words, termsize),
            termsize,
            score: 0,
        }
    }
}

} // verus!
