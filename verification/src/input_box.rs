//! The box at the bottom of the screen that shows what the player types.
use vstd::prelude::*;
use crate::text::push_char;

verus! {

/// Calls `String::pop`, which removes the last character and returns it,
/// or returns `None` and leaves the string as it was when it is empty.
#[verifier::external_body]
fn pop_char(s: &mut String) -> (r: Option<char>)
    ensures
        old(s)@.len() > 0 ==> final(s)@ == old(s)@.drop_last() && r == Some(old(s)@.last()),
        old(s)@.len() == 0 ==> final(s)@ == old(s)@ && r is None,
{
    s.pop()
}

/// The typed text after the player types `c`.
pub open spec fn typed(s: Seq<char>, c: char) -> Seq<char> {
    s.push(c)
}

/// The typed text after the player presses backspace.
pub open spec fn erased(s: Seq<char>) -> Seq<char> {
    if s.len() > 0 {
        s.drop_last()
    } else {
        s
    }
}

/// Typing appends exactly the character typed, unchanged, and keeps what
/// was typed before.
pub proof fn lemma_typed_appends(s: Seq<char>, c: char)
    ensures
        typed(s, c).len() == s.len() + 1,
        typed(s, c).last() == c,
        typed(s, c).take(s.len() as int) == s,
{
    assert(typed(s, c).take(s.len() as int) =~= s);
}

/// Backspace takes back the character just typed.
pub proof fn lemma_erase_undoes_type(s: Seq<char>, c: char)
    ensures
        erased(typed(s, c)) == s,
{
    assert(typed(s, c).drop_last() =~= s);
}

pub struct InputBox {
    /// The top and bottom edges of the box.
    pub box_shape: Vec<String>,
    /// What the player has typed since the last space.
    pub inputs: String,
    pub x: u16,
    pub y: u16,
}

impl InputBox {
    /// An empty box drawn in full, 35 columns from the right edge and 3 rows
    /// from the bottom of a terminal of size `termsize`.
    pub open spec fn is_new(self, termsize: (u16, u16)) -> bool {
        &&& self.box_shape@.len() == 2
        &&& self.box_shape@[0]@ == "╔══════════════════════════════════╗"@
        &&& self.box_shape@[1]@ == "╚══════════════════════════════════╝"@
        &&& self.inputs@ == Seq::<char>::empty()
        &&& self.x == termsize.0 - 35
        &&& self.y == termsize.1 - 3
    }

    /// A box 35 columns from the right edge, 3 rows from the bottom.
    pub fn new(termsize: (u16, u16)) -> (b: InputBox)
        requires
            termsize.0 >= 35,
            termsize.1 >= 3,
        ensures
            b.is_new(termsize),
    {
        let box1 = String::from_str("╔══════════════════════════════════╗");
        let input = String::from_str("");
        let box2 = String::from_str("╚══════════════════════════════════╝");
        proof {
            reveal_strlit("");
        }
        let x = termsize.0 - 35;
        let y = termsize.1 - 3;
        let b = InputBox { box_shape: vec![box1, box2], inputs: input, x, y };
        assert(b.box_shape@.len() == 2);
        assert(b.box_shape@[0]@ == "╔══════════════════════════════════╗"@);
        assert(b.inputs@ == Seq::<char>::empty());
        b
    }

    pub fn get_char(&mut self, c: char)
        ensures
            final(self).inputs@ == typed(old(self).inputs@, c),
            final(self).box_shape == old(self).box_shape,
            final(self).x == old(self).x,
            final(self).y == old(self).y,
    {
        push_char(&mut self.inputs, c);
    }

    pub fn delete_char(&mut self)
        ensures
            final(self).inputs@ == erased(old(self).inputs@),
            final(self).box_shape == old(self).box_shape,
            final(self).x == old(self).x,
            final(self).y == old(self).y,
    {
        pop_char(&mut self.inputs);
    }

    pub fn reset(&mut self)
        ensures
            final(self).inputs@ == Seq::<char>::empty(),
            final(self).box_shape == old(self).box_shape,
            final(self).x == old(self).x,
            final(self).y == old(self).y,
    {
        self.inputs = String::from_str("");
        proof {
            reveal_strlit("");
        }
    }
}

} // verus!
