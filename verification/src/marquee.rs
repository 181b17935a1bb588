//! A simpler variant of the game: words enter at the right edge and
//! scroll to the left, moving from a queue of words to draw to a queue of
//! words to update.
use vstd::prelude::*;
use crate::text::{split_words, words_of};
use crate::word::drawn_len;
use crate::random::random_in;

verus! {

/// A word on the screen.
pub struct WordObj {
    pub word: String,
    pub x: u16,
    pub y: u16,
}

/// `o` after it was first drawn: it moved left by its own width.
pub open spec fn drawn(o: WordObj) -> WordObj {
    WordObj { x: (o.x - drawn_len(o.word@)) as u16, ..o }
}

/// `o` after it was redrawn: it moved left by one column.
pub open spec fn stepped(o: WordObj) -> WordObj {
    WordObj { x: (o.x - 1) as u16, ..o }
}

impl WordObj {
    pub fn new(word: String, x: u16, y: u16) -> (o: WordObj)
        ensures
            o == (WordObj { word, x, y }),
    {
        WordObj { word, x, y }
    }

    /// Moves the word left by its own width when it is first drawn.
    pub fn draw(&mut self)
        requires
            old(self).x >= drawn_len(old(self).word@),
        ensures
            *final(self) == drawn(*old(self)),
    {
        self.x -= self.word.as_str().len() as u16;
    }

    /// Moves the word left by one column after it was redrawn.
    pub fn update(&mut self)
        requires
            old(self).x >= 1,
        ensures
            *final(self) == stepped(*old(self)),
    {
        self.x -= 1;
    }
}

pub struct WordHolder {
    /// Words not yet drawn; the next one is at the end.
    pub draw_queue: Vec<WordObj>,
    /// Words already drawn, redrawn on every update.
    pub update_queue: Vec<WordObj>,
    /// How many words were made.
    pub obj_len: usize,
    pub max_size: u32,
    /// The words to choose from.
    pub words: Vec<String>,
}

impl WordHolder {
    /// Adds the words of `text` (the contents of the word file) to the words
    /// to choose from.
    pub fn get_word(&mut self, text: &str)
        ensures
            final(self).words@.len() == old(self).words@.len() + words_of(text@).len(),
            final(self).words@.take(old(self).words@.len() as int) == old(self).words@,
            final(self).words@.skip(old(self).words@.len() as int).map_values(|w: String| w@)
                == words_of(text@),
            final(self).draw_queue == old(self).draw_queue,
            final(self).update_queue == old(self).update_queue,
            final(self).obj_len == old(self).obj_len,
            final(self).max_size == old(self).max_size,
    {
        let mut found = split_words(text);
        let ghost before = self.words@;
        let ghost added = found@;
        self.words.append(&mut found);
        assert(self.words@.take(before.len() as int) == before);
        assert(self.words@.skip(before.len() as int) == added);
    }

    /// Puts a word to be drawn at `(x, y)`; the word is always the second
    /// of the word list, whatever `num` is.
    pub fn make_object(&mut self, num: usize, x: u16, y: u16)
        requires
            old(self).words@.len() > 1,
            old(self).obj_len < usize::MAX,
        ensures
            final(self).draw_queue@ == old(self).draw_queue@.push(
                WordObj { word: old(self).words@[1], x, y },
            ),
            final(self).obj_len == old(self).obj_len + 1,
            final(self).update_queue == old(self).update_queue,
            final(self).words == old(self).words,
            final(self).max_size == old(self).max_size,
    {
        self.draw_queue.push(WordObj { word: self.words[1].clone(), x, y });
        self.obj_len += 1;
    }

    /// Draws every queued word: each moves left by its width and goes,
    /// last queued first, to the words to update.
    pub fn draw_object(&mut self)
        requires
            forall|j: int|
                0 <= j < old(self).draw_queue@.len() ==> #[trigger] old(self).draw_queue@[j].x
                    >= drawn_len(old(self).draw_queue@[j].word@),
        ensures
            final(self).draw_queue@.len() == 0,
            final(self).update_queue@ == old(self).update_queue@ + old(
                self,
            ).draw_queue@.reverse().map_values(|o: WordObj| drawn(o)),
            final(self).obj_len == old(self).obj_len,
            final(self).words == old(self).words,
            final(self).max_size == old(self).max_size,
    {
        let n = self.draw_queue.len();
        let ghost q = old(self).draw_queue@;
        let ghost moved = q.reverse().map_values(|o: WordObj| drawn(o));
        for i in 0..n
            invariant
                n == q.len(),
                q == old(self).draw_queue@,
                moved == q.reverse().map_values(|o: WordObj| drawn(o)),
                self.draw_queue@ == q.take(n - i),
                self.update_queue@ == old(self).update_queue@ + moved.take(i as int),
                forall|j: int| 0 <= j < q.len() ==> #[trigger] q[j].x >= drawn_len(q[j].word@),
                self.obj_len == old(self).obj_len,
                self.words == old(self).words,
                self.max_size == old(self).max_size,
        {
            let mut obj: WordObj = self.draw_queue.pop().unwrap();
            assert(obj == q[n - i - 1]);
            obj.draw();
            self.update_queue.push(obj);
            assert(self.draw_queue@ =~= q.take(n - (i + 1)));
            assert(moved.take(i + 1) =~= moved.take(i as int).push(drawn(q[n - i - 1])));
        }
        assert(moved.take(n as int) =~= moved);
    }

    /// Moves every drawn word left by one column.
    pub fn update_object(&mut self)
        requires
            forall|j: int|
                0 <= j < old(self).update_queue@.len() ==> #[trigger] old(self).update_queue@[j].x >= 1,
        ensures
            final(self).update_queue@ == old(self).update_queue@.map_values(|o: WordObj| stepped(o)),
            final(self).draw_queue == old(self).draw_queue,
            final(self).obj_len == old(self).obj_len,
            final(self).words == old(self).words,
            final(self).max_size == old(self).max_size,
    {
        let n = self.update_queue.len();
        let ghost q = old(self).update_queue@;
        for index in 0..n
            invariant
                n == q.len(),
                q == old(self).update_queue@,
                self.update_queue@.len() == n,
                forall|j: int| 0 <= j < index ==> self.update_queue@[j] == #[trigger] stepped(q[j]),
                forall|j: int| index <= j < n ==> self.update_queue@[j] == q[j],
                forall|j: int| 0 <= j < n ==> #[trigger] q[j].x >= 1,
                self.draw_queue == old(self).draw_queue,
                self.obj_len == old(self).obj_len,
                self.words == old(self).words,
                self.max_size == old(self).max_size,
        {
            assert(q[index as int].x >= 1);
            assert(self.update_queue@[index as int] == q[index as int]);
            self.update_queue[index].x -= 1;
        }
        assert(self.update_queue@ =~= q.map_values(|o: WordObj| stepped(o)));
    }
}

pub struct Game {
    /// The play area's width and height.
    pub width: usize,
    pub height: usize,
    pub wordholder: WordHolder,
    pub speed: u64,
    pub score: i32,
}

/// A `usize` cut to 16 bits by `as u16`.
pub open spec fn as_row(r: usize) -> u16 {
    r as u16
}

/// Whether `y` is what `as u16` makes of some row inside a play area
/// `height` rows high, below its first row.
pub open spec fn play_row(y: u16, height: usize) -> bool {
    exists|r: usize| 1 <= r < height && y == #[trigger] as_row(r)
}

impl Game {
    /// A game on a play area of the given size, with no words yet.
    pub fn new(width: usize, height: usize) -> (g: Game)
        ensures
            g.width == width,
            g.height == height,
            g.wordholder.draw_queue@.len() == 0,
            g.wordholder.update_queue@.len() == 0,
            g.wordholder.obj_len == 0,
            g.wordholder.max_size == 10,
            g.wordholder.words@.len() == 0,
            g.speed == 1,
            g.score == 0,
    {
        let wordholder = WordHolder {
            draw_queue: vec![],
            update_queue: vec![],
            obj_len: 0,
            words: vec![],
            max_size: 10,
        };
        Game { width, height, wordholder, speed: 1, score: 0 }
    }

    /// Whether `make_word(num)` runs without a panic or an overflow.
    pub open spec fn can_make(&self, num: u16) -> bool {
        num > 0 ==> {
            &&& self.wordholder.words@.len() > 1
            &&& self.height > 1
            &&& self.wordholder.obj_len + num <= usize::MAX
        }
    }

    /// `after` is `before` once `num` words were queued: each is the second
    /// word of the list, at the right edge, in a random row of the play area.
    pub open spec fn made(before: Game, after: Game, num: u16) -> bool {
        let q0 = before.wordholder.draw_queue@;
        let q = after.wordholder.draw_queue@;
        &&& q.len() == q0.len() + num
        &&& q.take(q0.len() as int) == q0
        &&& forall|k: int|
            q0.len() <= k < q.len() ==> {
                &&& (#[trigger] q[k]).word == before.wordholder.words@[1]
                &&& q[k].x == before.width as u16
                &&& play_row(q[k].y, before.height)
            }
        &&& after.wordholder.obj_len == before.wordholder.obj_len + num
        &&& after.wordholder.update_queue == before.wordholder.update_queue
        &&& after.wordholder.words == before.wordholder.words
        &&& after.wordholder.max_size == before.wordholder.max_size
        &&& after.width == before.width
        &&& after.height == before.height
        &&& after.speed == before.speed
        &&& after.score == before.score
    }

    /// Queues `num` words to draw, each in a random row.
    pub fn make_word(&mut self, num: u16)
        requires
            old(self).can_make(num),
        ensures
            Game::made(*old(self), *final(self), num),
    {
        assert(self.wordholder.draw_queue@.take(self.wordholder.draw_queue@.len() as int)
            =~= self.wordholder.draw_queue@);
        for i in 0..num
            invariant
                old(self).can_make(num),
                Game::made(*old(self), *self, i),
        {
            let index = random_in(0, self.wordholder.words.len());
            let r = random_in(1, self.height);
            let ghost before = self.wordholder.draw_queue@;
            self.wordholder.make_object(index, self.width as u16, r as u16);
            proof {
                let q0 = old(self).wordholder.draw_queue@;
                let q = self.wordholder.draw_queue@;
                assert(q.take(q0.len() as int) =~= before.take(q0.len() as int));
                assert forall|k: int| q0.len() <= k < q.len() implies {
                    &&& (#[trigger] q[k]).word == old(self).wordholder.words@[1]
                    &&& q[k].x == old(self).width as u16
                    &&& play_row(q[k].y, old(self).height)
                } by {
                    if k < q.len() - 1 {
                        assert(q[k] == before[k]);
                    } else {
                        assert(q[k].y == as_row(r));
                    }
                }
            }
        }
    }

    /// Starts the game on the contents of the word file: reads its words
    /// and queues three of them.
    pub fn initgame(&mut self, text: &str)
        requires
            old(self).height > 1,
            old(self).wordholder.obj_len + 3 <= usize::MAX,
            old(self).wordholder.words@.len() + words_of(text@).len() > 1,
        ensures
            final(self).wordholder.words@.take(old(self).wordholder.words@.len() as int)
                == old(self).wordholder.words@,
            final(self).wordholder.words@.skip(old(self).wordholder.words@.len() as int).map_values(
                |w: String| w@,
            ) == words_of(text@),
            exists|mid: Game|
                mid.wordholder.words == final(self).wordholder.words && mid.wordholder.draw_queue
                    == old(self).wordholder.draw_queue && mid.wordholder.update_queue == old(
                    self,
                ).wordholder.update_queue && mid.wordholder.obj_len == old(self).wordholder.obj_len
                    && mid.wordholder.max_size == old(self).wordholder.max_size && mid.width == old(
                    self,
                ).width && mid.height == old(self).height && mid.speed == old(self).speed
                    && mid.score == old(self).score && Game::made(mid, *final(self), 3),
    {
        self.wordholder.get_word(text);
        let ghost mid = *self;
        self.make_word(3);
    }

    /// Draws the queued words.
    pub fn draw_object(&mut self)
        requires
            forall|j: int|
                0 <= j < old(self).wordholder.draw_queue@.len() ==> #[trigger] old(
                    self,
                ).wordholder.draw_queue@[j].x >= drawn_len(old(self).wordholder.draw_queue@[j].word@),
        ensures
            final(self).wordholder.draw_queue@.len() == 0,
            final(self).wordholder.update_queue@ == old(self).wordholder.update_queue@ + old(
                self,
            ).wordholder.draw_queue@.reverse().map_values(|o: WordObj| drawn(o)),
            final(self).wordholder.obj_len == old(self).wordholder.obj_len,
            final(self).wordholder.words == old(self).wordholder.words,
            final(self).wordholder.max_size == old(self).wordholder.max_size,
            final(self).width == old(self).width,
            final(self).height == old(self).height,
            final(self).speed == old(self).speed,
            final(self).score == old(self).score,
    {
        self.wordholder.draw_object();
    }

    /// Moves the drawn words on.
    pub fn update_object(&mut self)
        requires
            forall|j: int|
                0 <= j < old(self).wordholder.update_queue@.len() ==> #[trigger] old(
                    self,
                ).wordholder.update_queue@[j].x >= 1,
        ensures
            final(self).wordholder.update_queue@ == old(self).wordholder.update_queue@.map_values(
                |o: WordObj| stepped(o),
            ),
            final(self).wordholder.draw_queue == old(self).wordholder.draw_queue,
            final(self).wordholder.obj_len == old(self).wordholder.obj_len,
            final(self).wordholder.words == old(self).wordholder.words,
            final(self).wordholder.max_size == old(self).wordholder.max_size,
            final(self).width == old(self).width,
            final(self).height == old(self).height,
            final(self).speed == old(self).speed,
            final(self).score == old(self).score,
    {
        self.wordholder.update_object();
    }
}

} // verus!
