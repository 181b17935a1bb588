//! Splitting a text into whitespace-separated words.
use vstd::prelude::*;

verus! {

broadcast use vstd::string::group_string_axioms;

/// Whether `c` has the Unicode `White_Space` property, as `char::is_whitespace` decides.
pub uninterp spec fn white_space(c: char) -> bool;

/// Calls `char::is_whitespace`; its result is named `white_space`.
#[verifier::external_body]
pub(crate) fn is_white(c: char) -> (r: bool)
    ensures
        r == white_space(c),
{
    c.is_whitespace()
}

/// Calls `String::push`, which appends one character at the end.
#[verifier::external_body]
pub(crate) fn push_char(s: &mut String, c: char)
    ensures
        final(s)@ == old(s)@.push(c),
{
    s.push(c)
}

/// Scanning `s` from the left: the words completed so far, and the
/// run of non-whitespace characters at the end of `s`.
pub open spec fn split_state(s: Seq<char>) -> (Seq<Seq<char>>, Seq<char>)
    decreases s.len(),
{
    if s.len() == 0 {
        (Seq::empty(), Seq::empty())
    } else {
        let (ws, cur) = split_state(s.drop_last());
        let c = s.last();
        if white_space(c) {
            if cur.len() > 0 {
                (ws.push(cur), Seq::empty())
            } else {
                (ws, Seq::empty())
            }
        } else {
            (ws, cur.push(c))
        }
    }
}

/// The maximal runs of non-whitespace characters of `s`, in order.
pub open spec fn words_of(s: Seq<char>) -> Seq<Seq<char>> {
    let (ws, cur) = split_state(s);
    if cur.len() > 0 {
        ws.push(cur)
    } else {
        ws
    }
}

/// The characters that may stand inside a word.
pub open spec fn word_char() -> spec_fn(char) -> bool {
    |c: char| !white_space(c)
}

proof fn lemma_split_state(s: Seq<char>)
    ensures
        ({
            let (ws, cur) = split_state(s);
            &&& forall|i: int| 0 <= i < ws.len() ==> #[trigger] ws[i].len() > 0
            &&& forall|i: int, j: int|
                0 <= i < ws.len() && 0 <= j < ws[i].len() ==> !white_space(#[trigger] ws[i][j])
            &&& forall|j: int| 0 <= j < cur.len() ==> !white_space(#[trigger] cur[j])
            &&& ws.flatten() + cur == s.filter(word_char())
        }),
    decreases s.len(),
{
    broadcast use vstd::seq_lib::group_seq_properties;
    if s.len() == 0 {
        reveal(Seq::filter);
        assert(s.filter(word_char()) =~= Seq::<char>::empty());
    } else {
        let p = s.drop_last();
        let c = s.last();
        lemma_split_state(p);
        let (ws, cur) = split_state(p);
        assert(p.push(c) == s);
        p.lemma_filter_push(c, word_char());
        if white_space(c) {
            if cur.len() > 0 {
                ws.lemma_flatten_push(cur);
                assert(ws.push(cur).flatten() + Seq::<char>::empty() == ws.flatten() + cur);
            } else {
                assert(ws.flatten() + Seq::<char>::empty() == ws.flatten() + cur);
            }
        } else {
            assert(ws.flatten() + cur.push(c) == (ws.flatten() + cur).push(c));
        }
    }
}

/// Every word that `words_of` finds is a nonempty run of non-whitespace
/// characters, and the words together hold exactly the text's
/// non-whitespace characters, in their order.
pub proof fn lemma_words_are_runs(s: Seq<char>)
    ensures
        forall|i: int| 0 <= i < words_of(s).len() ==> #[trigger] words_of(s)[i].len() > 0,
        forall|i: int, j: int|
            0 <= i < words_of(s).len() && 0 <= j < words_of(s)[i].len() ==> !white_space(
                #[trigger] words_of(s)[i][j],
            ),
        words_of(s).flatten() == s.filter(word_char()),
{
    broadcast use vstd::seq_lib::group_seq_properties;
    lemma_split_state(s);
    let (ws, cur) = split_state(s);
    if cur.len() > 0 {
        ws.lemma_flatten_push(cur);
    } else {
        assert(ws.flatten() + cur == ws.flatten());
    }
}

proof fn lemma_split_state_after_space(a: Seq<char>, c: char, b: Seq<char>)
    requires
        white_space(c),
    ensures
        split_state(a.push(c) + b) == (words_of(a) + split_state(b).0, split_state(b).1),
    decreases b.len(),
{
    if b.len() == 0 {
        assert(a.push(c) + b == a.push(c));
        assert(a.push(c).drop_last() == a);
        assert(words_of(a) + Seq::<Seq<char>>::empty() == words_of(a));
    } else {
        let p = b.drop_last();
        let d = b.last();
        lemma_split_state_after_space(a, c, p);
        assert(a.push(c) + b == (a.push(c) + p).push(d));
        assert((a.push(c) + b).drop_last() == a.push(c) + p);
        let (ws, cur) = split_state(p);
        assert((words_of(a) + ws).push(cur) == words_of(a) + ws.push(cur));
    }
}

/// Whitespace separates words: the words of a text with a whitespace
/// character in it are the words before it followed by the words after it.
pub proof fn lemma_words_split_at_space(a: Seq<char>, c: char, b: Seq<char>)
    requires
        white_space(c),
    ensures
        words_of(a.push(c) + b) == words_of(a) + words_of(b),
{
    lemma_split_state_after_space(a, c, b);
    let (ws, cur) = split_state(b);
    if cur.len() > 0 {
        assert((words_of(a) + ws).push(cur) == words_of(a) + ws.push(cur));
    }
}

proof fn lemma_split_state_no_space(s: Seq<char>)
    requires
        forall|j: int| 0 <= j < s.len() ==> !white_space(#[trigger] s[j]),
    ensures
        split_state(s) == (Seq::<Seq<char>>::empty(), s),
    decreases s.len(),
{
    if s.len() > 0 {
        let p = s.drop_last();
        assert forall|j: int| 0 <= j < p.len() implies !white_space(#[trigger] p[j]) by {
            assert(p[j] == s[j]);
        }
        lemma_split_state_no_space(p);
        assert(!white_space(s[s.len() - 1]));
        assert(p.push(s.last()) == s);
    }
}

/// A nonempty text without whitespace is one word, the whole text, however
/// long; the empty text has no words.
pub proof fn lemma_words_of_run(s: Seq<char>)
    requires
        forall|j: int| 0 <= j < s.len() ==> !white_space(#[trigger] s[j]),
    ensures
        s.len() > 0 ==> words_of(s) == seq![s],
        s.len() == 0 ==> words_of(s) == Seq::<Seq<char>>::empty(),
{
    lemma_split_state_no_space(s);
    if s.len() > 0 {
        assert(Seq::<Seq<char>>::empty().push(s) == seq![s]);
    }
}

/// Splits `text` at whitespace into its words, as `str::split_whitespace` does.
pub fn split_words(text: &str) -> (words: Vec<String>)
    ensures
        words@.map_values(|w: String| w@) == words_of(text@),
{
    let mut words: Vec<String> = Vec::new();
    let mut cur = String::new();
    for c in it: text.chars()
        invariant
            it.seq() == text@,
            0 <= it.index() <= text@.len(),
            (words@.map_values(|w: String| w@), cur@) == split_state(text@.take(it.index())),
    {
        let ghost done = text@.take(it.index());
        assert(text@.take(it.index() + 1).drop_last() == done);
        assert(text@.take(it.index() + 1).last() == c);
        if is_white(c) {
            if !cur.as_str().is_empty() {
                let ghost before = words@;
                words.push(cur);
                assert(words@.map_values(|w: String| w@) == before.map_values(|w: String| w@).push(cur@));
                cur = String::new();
            } else {
                cur = String::new();
            }
        } else {
            push_char(&mut cur, c);
        }
    }
    assert(text@.take(text@.len() as int) == text@);
    if !cur.as_str().is_empty() {
        let ghost before = words@;
        words.push(cur);
        assert(words@.map_values(|w: String| w@) == before.map_values(|w: String| w@).push(cur@));
    }
    words
}

} // verus!
