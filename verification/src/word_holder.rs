//! The words in play and the words still to come.
use vstd::prelude::*;
use crate::word::{Word, drawn_len};
use crate::random::{random_in, shuffle_words};

verus! {

/// Rows above the play area: the score line and the upper border.
pub const TOP_INDENT: u16 = 3;

/// Rows below the play area: the lower border and the input box.
pub const BOTTOM_INDENT: u16 = 4;

/// The most words that are in play at once.
pub const MAX_TYPABLES: usize = 5;

/// Whether a new word may appear in row `y` of a terminal `height` rows high:
/// strictly below the upper border, above the lower one.
pub open spec fn spawn_row(y: u16, height: u16) -> bool {
    TOP_INDENT + 1 <= y < height - BOTTOM_INDENT
}

/// Draws a row for a new word at random.
fn draw_row(height: u16) -> (y: u16)
    requires
        height >= 9,
    ensures
        spawn_row(y, height),
{
    let r = random_in((TOP_INDENT + 1) as usize, (height - BOTTOM_INDENT) as usize);
    r as u16
}

/// The words in play after the next word of the list enters in row `y`:
/// the last word of the list leaves it and joins the words in play.
pub open spec fn after_spawn(t: Seq<Word>, w: Seq<String>, y: u16) -> (Seq<Word>, Seq<String>) {
    (t.push(Word::fresh(w.last(), y)), w.drop_last())
}

/// Every word moved one column to the right.
pub open spec fn shifted(t: Seq<Word>) -> Seq<Word> {
    Seq::new(t.len(), |j: int| Word { x: (t[j].x + 1) as u16, ..t[j] })
}

/// Whether word `w` ends within the first `max_x` columns.
pub open spec fn fits(w: Word, max_x: u16) -> bool {
    w.x + drawn_len(w.word@) <= max_x
}

/// Whether checking that every word fits in `max_x` columns goes without
/// an overflow of `u16`: each word's end is computed only while the words
/// before it fit.
pub open spec fn zone_check_safe(t: Seq<Word>, max_x: u16) -> bool {
    forall|j: int|
        0 <= j < t.len() && (forall|k: int| 0 <= k < j ==> fits(#[trigger] t[k], max_x)) ==> t[j].x
            + drawn_len(t[j].word@) <= u16::MAX
}

/// Moving forward moves each word exactly one column to the right and
/// changes nothing else about it.
pub proof fn lemma_shift_one_column(t: Seq<Word>)
    requires
        forall|j: int| 0 <= j < t.len() ==> #[trigger] t[j].x < u16::MAX,
    ensures
        shifted(t).len() == t.len(),
        forall|j: int|
            0 <= j < t.len() ==> {
                &&& #[trigger] shifted(t)[j].x == t[j].x + 1
                &&& shifted(t)[j].word == t[j].word
                &&& shifted(t)[j].y == t[j].y
                &&& shifted(t)[j].hitpoint == t[j].hitpoint
                &&& shifted(t)[j].deleted == t[j].deleted
            },
{
}

/// Bringing in a word never puts more than `max_size` words in play, and
/// moves a word from the list into play without losing or making one.
pub proof fn lemma_added_keeps_bound(before: WordHolder, after: WordHolder, height: u16)
    requires
        WordHolder::added(before, after, height),
        before.typables@.len() <= before.max_size,
    ensures
        after.typables@.len() <= after.max_size,
        after.typables@.len() + after.word_list@.len() == before.typables@.len()
            + before.word_list@.len(),
{
    if before.can_spawn() {
        let y = choose|y: u16|
            spawn_row(y, height) && (after.typables@, after.word_list@) == after_spawn(
                before.typables@,
                before.word_list@,
                y,
            );
    }
}

pub struct WordHolder {
    /// The words still to come; the next one is at the end.
    pub word_list: Vec<String>,
    /// The words in play.
    pub typables: Vec<Word>,
    /// The most words in play at once.
    pub max_size: usize,
}

impl WordHolder {
    /// Deals the given words in random order and puts the first of them in
    /// play, in a random row.
    pub fn new(words: Vec<String>, termsize: (u16, u16)) -> (h: WordHolder)
        requires
            words@.len() > 0,
            termsize.1 >= 9,
        ensures
            h.max_size == MAX_TYPABLES,
            h.typables@.len() == 1,
            exists|y: u16|
                spawn_row(y, termsize.1) && h.typables@[0] == Word::fresh(h.typables@[0].word, y),
            h.word_list@.push(h.typables@[0].word).to_multiset() == words@.to_multiset(),
    {
        let mut words = words;
        shuffle_words(&mut words);
        let y = draw_row(termsize.1);
        let h = WordHolder::from_shuffled(words, y);
        proof {
            assert(h.word_list@.push(h.typables@[0].word) =~= words@);
        }
        h
    }

    /// The holder once the words are dealt in the order given: the last one
    /// enters play in row `y`, the others wait.
    pub fn from_shuffled(words: Vec<String>, y: u16) -> (h: WordHolder)
        requires
            words@.len() > 0,
        ensures
            h.max_size == MAX_TYPABLES,
            h.typables@ == seq![Word::fresh(words@.last(), y)],
            h.word_list@ == words@.drop_last(),
    {
        let mut words = words;
        let max_size = MAX_TYPABLES;
        let mut typables: Vec<Word> = Vec::with_capacity(max_size);
        let first = words.pop().unwrap();
        let typable = Word::new(first, y);
        typables.push(typable);
        WordHolder { word_list: words, typables, max_size }
    }

    /// Whether `add_typable` brings a new word into play.
    pub open spec fn can_spawn(self) -> bool {
        self.typables@.len() < self.max_size && self.word_list@.len() != 0
    }

    /// `after` is `before` once `add_typable` has run on a terminal `height`
    /// rows high: when a word can enter, it entered in some row allowed for
    /// new words; otherwise nothing changed.
    pub open spec fn added(before: WordHolder, after: WordHolder, height: u16) -> bool {
        &&& after.max_size == before.max_size
        &&& before.can_spawn() ==> exists|y: u16|
            spawn_row(y, height) && (after.typables@, after.word_list@) == after_spawn(
                before.typables@,
                before.word_list@,
                y,
            )
        &&& !before.can_spawn() ==> after.typables@ == before.typables@ && after.word_list@
            == before.word_list@
    }

    /// Brings the next word of the list into play in a random row, when
    /// fewer than `max_size` words are in play and the list is not empty.
    pub fn add_typable(&mut self, termsize: (u16, u16))
        requires
            old(self).can_spawn() ==> termsize.1 >= 9,
        ensures
            WordHolder::added(*old(self), *final(self), termsize.1),
    {
        if self.typables.len() < self.max_size && self.word_list.len() != 0 {
            let y = draw_row(termsize.1);
            self.spawn_at(y);
        }
    }

    /// Brings the next word of the list into play in row `y`.
    pub fn spawn_at(&mut self, y: u16)
        requires
            old(self).word_list@.len() > 0,
        ensures
            final(self).max_size == old(self).max_size,
            (final(self).typables@, final(self).word_list@) == after_spawn(
                old(self).typables@,
                old(self).word_list@,
                y,
            ),
    {
        let w = self.word_list.pop().unwrap();
        self.typables.push(Word::new(w, y));
    }

    /// Takes the `i`-th word out of play.
    pub fn pop_typable(&mut self, i: usize)
        requires
            i < old(self).typables@.len(),
        ensures
            final(self).typables@ == old(self).typables@.remove(i as int),
            final(self).word_list@ == old(self).word_list@,
            final(self).max_size == old(self).max_size,
    {
        self.typables.remove(i);
    }

    /// Moves every word one column to the right.
    pub fn move_forward(&mut self)
        requires
            forall|j: int| 0 <= j < old(self).typables@.len() ==> #[trigger] old(self).typables@[j].x < u16::MAX,
        ensures
            final(self).typables@ == shifted(old(self).typables@),
            final(self).word_list@ == old(self).word_list@,
            final(self).max_size == old(self).max_size,
    {
        let n = self.typables.len();
        for i in 0..n
            invariant
                n == old(self).typables@.len(),
                self.typables@.len() == n,
                self.word_list@ == old(self).word_list@,
                self.max_size == old(self).max_size,
                forall|j: int| 0 <= j < i ==> self.typables@[j] == #[trigger] shifted(old(self).typables@)[j],
                forall|j: int| i <= j < n ==> self.typables@[j] == old(self).typables@[j],
                forall|j: int| 0 <= j < n ==> #[trigger] old(self).typables@[j].x < u16::MAX,
        {
            self.typables[i].x += 1;
        }
        assert(self.typables@ =~= shifted(old(self).typables@));
    }

    /// Whether every word ends within the first `max_x` columns.
    pub fn wordzone(&mut self, max_x: u16) -> (r: bool)
        requires
            zone_check_safe(old(self).typables@, max_x),
        ensures
            *final(self) == *old(self),
            r == forall|j: int| 0 <= j < old(self).typables@.len() ==> fits(#[trigger] old(self).typables@[j], max_x),
    {
        let n = self.typables.len();
        for i in 0..n
            invariant
                n == self.typables@.len(),
                zone_check_safe(self.typables@, max_x),
                forall|k: int| 0 <= k < i ==> fits(#[trigger] self.typables@[k], max_x),
        {
            if self.typables[i].x + self.typables[i].drawn_len() > max_x {
                return false;
            }
        }
        true
    }
}

} // verus!
