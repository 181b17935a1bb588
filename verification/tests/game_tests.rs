use typing_game::game::{Game, KeyAction, KeyPress, Layout};
use typing_game::input_box::InputBox;
use typing_game::word_holder::WordHolder;

fn words(list: &[&str]) -> Vec<String> {
    list.iter().map(|s| s.to_string()).collect()
}

fn game_with(deck: &[&str], termsize: (u16, u16)) -> Game {
    Game {
        inputbox: InputBox::new(termsize),
        wordholder: WordHolder::from_shuffled(words(deck), 5),
        termsize,
        score: 0,
    }
}

fn type_word(g: &mut Game, w: &str) {
    for c in w.chars() {
        assert_eq!(g.on_key(KeyPress::Char(c)), KeyAction::Redraw);
    }
}

fn texts(g: &Game) -> Vec<String> {
    g.wordholder.typables.iter().map(|w| w.word.clone()).collect()
}

#[test]
fn new_game_starts_empty_handed() {
    let g = Game::new((80, 24), words(&["x", "y"]));
    assert_eq!(g.score, 0);
    assert_eq!(g.termsize, (80, 24));
    assert_eq!(g.inputbox.inputs, "");
    assert_eq!(g.wordholder.typables.len(), 1);
    assert_eq!(g.wordholder.word_list.len(), 1);
}

#[test]
fn typing_the_only_word_wins() {
    let mut g = game_with(&["hello"], (80, 24));
    type_word(&mut g, "hello");
    assert_eq!(g.inputbox.inputs, "hello");
    assert_eq!(g.on_key(KeyPress::Char(' ')), KeyAction::Finish);
    assert_eq!(g.score, 2);
    assert!(g.wordholder.typables.is_empty());
    // a won game keeps the typed text
    assert_eq!(g.inputbox.inputs, "hello");
}

#[test]
fn a_miss_only_clears_the_input() {
    let mut g = game_with(&["a", "hello"], (80, 24));
    type_word(&mut g, "help");
    assert_eq!(g.on_key(KeyPress::Char(' ')), KeyAction::Redraw);
    assert_eq!(g.score, 0);
    assert_eq!(g.inputbox.inputs, "");
    assert_eq!(texts(&g), words(&["hello"]));
    assert_eq!(g.wordholder.word_list, words(&["a"]));
    // the four typed characters moved the word four columns
    assert_eq!(g.wordholder.typables[0].x, 5);
}

#[test]
fn a_hit_is_replaced_from_the_list() {
    let mut g = game_with(&["next", "hit"], (80, 24));
    type_word(&mut g, "hit");
    assert!(!g.compare_result());
    assert_eq!(g.score, 2);
    assert_eq!(texts(&g), words(&["next"]));
    assert!(g.wordholder.word_list.is_empty());
    let w = &g.wordholder.typables[0];
    assert_eq!((w.x, w.hitpoint), (1, 2));
    assert!(w.y >= 4 && w.y < 20);
    assert_eq!(g.inputbox.inputs, "");
}

#[test]
fn a_replacement_equal_to_the_text_is_hit_too() {
    // in play: [a, b], to come: [a]; typing "a" takes the first a, the a
    // from the list enters at the end, where the scan reaches it too
    let mut g = game_with(&["b", "a"], (80, 24));
    g.wordholder.spawn_at(6);
    g.wordholder.word_list.push(String::from("a"));
    assert_eq!(texts(&g), words(&["a", "b"]));
    g.inputbox.get_char('a');
    assert!(!g.compare_result());
    assert_eq!(g.score, 4);
    assert_eq!(texts(&g), words(&["b"]));
    assert!(g.wordholder.word_list.is_empty());
}

#[test]
fn a_hit_shifts_the_next_word_past_the_scan() {
    // in play: [a, a]; the first a leaves, the second slides to index 0,
    // which the scan has passed, so it stays
    let mut g = game_with(&["a", "a"], (80, 24));
    g.wordholder.spawn_at(6);
    g.inputbox.get_char('a');
    assert!(!g.compare_result());
    assert_eq!(g.score, 2);
    assert_eq!(texts(&g), words(&["a"]));
}

#[test]
fn hits_score_twice_the_words_used_up() {
    let mut g = game_with(&["z", "y", "x", "x", "w"], (80, 24));
    g.wordholder.spawn_at(6);
    g.wordholder.spawn_at(7);
    // in play: [w, x, x]; to come: [z, y]
    let before = g.wordholder.typables.len() + g.wordholder.word_list.len();
    g.inputbox.get_char('x');
    assert!(!g.compare_result());
    let after = g.wordholder.typables.len() + g.wordholder.word_list.len();
    assert_eq!(g.score as usize, 2 * (before - after));
    assert!(g.wordholder.typables.len() <= g.wordholder.max_size);
}

#[test]
fn backspace_and_other_keys() {
    let mut g = game_with(&["abc"], (80, 24));
    type_word(&mut g, "ab");
    assert_eq!(g.on_key(KeyPress::Backspace), KeyAction::Redraw);
    assert_eq!(g.inputbox.inputs, "a");
    assert_eq!(g.on_key(KeyPress::Other), KeyAction::Redraw);
    assert_eq!(g.inputbox.inputs, "a");
    assert_eq!(g.on_key(KeyPress::Quit), KeyAction::Quit);
    assert_eq!(g.inputbox.inputs, "a");
}

#[test]
fn a_word_past_the_edge_ends_the_game() {
    let mut g = game_with(&["a", "long"], (40, 24));
    g.wordholder.typables[0].x = 35;
    type_word(&mut g, "q");
    assert_eq!(g.wordholder.typables[0].x, 36);
    type_word(&mut g, "q");
    assert!(g.wordholder.typables.is_empty());
    assert_eq!(g.wordholder.word_list, words(&["a"]));
    assert_eq!(g.inputbox.inputs, "qq");
}

#[test]
fn gameover_clears_words_in_play() {
    let mut g = game_with(&["a", "b", "c"], (80, 24));
    g.wordholder.spawn_at(6);
    g.gameover();
    assert!(g.wordholder.typables.is_empty());
    assert_eq!(g.wordholder.word_list, words(&["a"]));
}

#[test]
fn scores_add_and_subtract() {
    let mut g = game_with(&["a"], (80, 24));
    g.add_score(5);
    g.subtruct_score(7);
    assert_eq!(g.score, -2);
    g.success();
    assert_eq!(g.score, -2);
}

#[test]
fn timer_spawns_every_ninth_tick() {
    let mut g = game_with(&["a", "b", "c"], (80, 24));
    let mut counter = 0;
    let mut spawned_at = Vec::new();
    for tick in 0..20 {
        let before = g.wordholder.typables.len();
        counter = g.timer_spawn(counter);
        if g.wordholder.typables.len() > before {
            spawned_at.push(tick);
        }
        counter = g.timer_advance(counter);
    }
    assert_eq!(spawned_at, vec![9, 18]);
    assert_eq!(counter, 2);
    // the first word moved 20 columns, the others fewer
    assert_eq!(g.wordholder.typables[0].x, 21);
    assert_eq!(g.wordholder.typables[1].x, 12);
    assert_eq!(g.wordholder.typables[2].x, 3);
}

#[test]
fn layout_of_the_frame() {
    let g = game_with(&["a"], (80, 24));
    assert_eq!(
        g.layout(),
        Layout { score_x: 79, score_y: 2, top_row: 3, bottom_row: 20, border_end: 80 }
    );
}
