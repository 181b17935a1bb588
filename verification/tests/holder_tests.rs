use typing_game::word::Word;
use typing_game::word_holder::{WordHolder, MAX_TYPABLES};

fn words(list: &[&str]) -> Vec<String> {
    list.iter().map(|s| s.to_string()).collect()
}

fn texts(h: &WordHolder) -> Vec<String> {
    h.typables.iter().map(|w| w.word.clone()).collect()
}

#[test]
fn from_shuffled_deals_last_word() {
    let h = WordHolder::from_shuffled(words(&["a", "b", "c"]), 6);
    assert_eq!(h.max_size, 5);
    assert_eq!(h.word_list, words(&["a", "b"]));
    assert_eq!(texts(&h), words(&["c"]));
    assert_eq!((h.typables[0].x, h.typables[0].y, h.typables[0].hitpoint), (1, 6, 2));
}

#[test]
fn new_keeps_every_word_once() {
    let input = words(&["w1", "w2", "w3", "w4", "w5", "w6", "w7"]);
    for _ in 0..20 {
        let h = WordHolder::new(input.clone(), (80, 24));
        assert_eq!(h.max_size, MAX_TYPABLES);
        assert_eq!(h.typables.len(), 1);
        let w = &h.typables[0];
        assert!(w.y >= 4 && w.y < 20, "row {} out of range", w.y);
        assert_eq!(w.x, 1);
        let mut all = h.word_list.clone();
        all.push(w.word.clone());
        all.sort();
        assert_eq!(all, input);
    }
}

#[test]
fn new_on_smallest_terminal_uses_row_four() {
    let h = WordHolder::new(words(&["only"]), (35, 9));
    assert_eq!(h.typables[0].y, 4);
    assert!(h.word_list.is_empty());
}

#[test]
fn add_typable_takes_last_word() {
    let mut h = WordHolder::from_shuffled(words(&["a", "b", "c"]), 6);
    h.add_typable((80, 9));
    assert_eq!(texts(&h), words(&["c", "b"]));
    assert_eq!(h.word_list, words(&["a"]));
    assert_eq!(h.typables[1].y, 4);
}

#[test]
fn add_typable_stops_when_full_or_empty() {
    let mut h = WordHolder::from_shuffled(words(&["a"]), 6);
    h.add_typable((80, 24));
    assert_eq!(texts(&h), words(&["a"]));
    let mut h = WordHolder::from_shuffled(words(&["a", "b", "c", "d", "e", "f", "g"]), 6);
    for _ in 0..10 {
        h.add_typable((80, 24));
    }
    assert_eq!(h.typables.len(), 5);
    assert_eq!(h.word_list, words(&["a", "b"]));
}

#[test]
fn spawn_at_uses_given_row() {
    let mut h = WordHolder::from_shuffled(words(&["a", "b"]), 6);
    h.spawn_at(11);
    assert_eq!(texts(&h), words(&["b", "a"]));
    assert_eq!(h.typables[1].y, 11);
    assert!(h.word_list.is_empty());
}

#[test]
fn pop_typable_removes_index() {
    let mut h = WordHolder::from_shuffled(words(&["a", "b", "c"]), 6);
    h.spawn_at(7);
    h.spawn_at(8);
    h.pop_typable(1);
    assert_eq!(texts(&h), words(&["c", "a"]));
}

#[test]
fn move_forward_moves_each_word_one_column() {
    let mut h = WordHolder::from_shuffled(words(&["a", "b"]), 6);
    h.spawn_at(7);
    h.typables[1].x = 10;
    h.move_forward();
    assert_eq!(h.typables[0].x, 2);
    assert_eq!(h.typables[1].x, 11);
    assert_eq!(h.typables[1].y, 7);
}

#[test]
fn wordzone_checks_word_end() {
    let mut h = WordHolder::from_shuffled(words(&["abcd"]), 6);
    h.typables[0].x = 6;
    assert!(h.wordzone(10));
    assert!(!h.wordzone(9));
    h.typables[0] = Word::new(String::from("é"), 6);
    h.typables[0].x = 8;
    assert!(h.wordzone(10));
    assert!(!h.wordzone(9));
}

#[test]
fn wordzone_empty_is_true() {
    let mut h = WordHolder::from_shuffled(words(&["a"]), 6);
    h.pop_typable(0);
    assert!(h.wordzone(0));
}

#[test]
fn new_deals_in_random_order_and_rows() {
    let input = words(&["w1", "w2", "w3", "w4", "w5", "w6", "w7"]);
    let mut firsts = std::collections::BTreeSet::new();
    let mut rows = std::collections::BTreeSet::new();
    for _ in 0..60 {
        let h = WordHolder::new(input.clone(), (80, 24));
        firsts.insert(h.typables[0].word.clone());
        rows.insert(h.typables[0].y);
    }
    assert!(firsts.len() > 1);
    assert!(rows.len() > 1);
}
