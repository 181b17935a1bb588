use typing_game::marquee::{Game, WordHolder, WordObj};

fn holder(list: &[&str]) -> WordHolder {
    WordHolder {
        draw_queue: vec![],
        update_queue: vec![],
        obj_len: 0,
        max_size: 10,
        words: list.iter().map(|s| s.to_string()).collect(),
    }
}

#[test]
fn word_obj_moves_left() {
    let mut o = WordObj::new(String::from("abc"), 10, 4);
    o.draw();
    assert_eq!(o.x, 7);
    o.update();
    assert_eq!((o.x, o.y), (6, 4));
}

#[test]
fn get_word_appends_words_of_text() {
    let mut h = holder(&["old"]);
    h.get_word("one two\nthree");
    assert_eq!(h.words, vec!["old", "one", "two", "three"]);
}

#[test]
fn make_object_always_uses_second_word() {
    let mut h = holder(&["first", "second", "third"]);
    h.make_object(2, 80, 5);
    h.make_object(0, 70, 6);
    assert_eq!(h.obj_len, 2);
    assert_eq!(h.draw_queue.len(), 2);
    assert_eq!(h.draw_queue[0].word, "second");
    assert_eq!(h.draw_queue[1].word, "second");
    assert_eq!((h.draw_queue[1].x, h.draw_queue[1].y), (70, 6));
}

#[test]
fn draw_object_moves_queue_in_reverse() {
    let mut h = holder(&["a", "bb"]);
    h.make_object(0, 80, 1);
    h.make_object(0, 70, 2);
    h.draw_object();
    assert!(h.draw_queue.is_empty());
    assert_eq!(h.update_queue.len(), 2);
    assert_eq!((h.update_queue[0].x, h.update_queue[0].y), (68, 2));
    assert_eq!((h.update_queue[1].x, h.update_queue[1].y), (78, 1));
    h.update_object();
    assert_eq!(h.update_queue[0].x, 67);
    assert_eq!(h.update_queue[1].x, 77);
}

#[test]
fn initgame_queues_three_words() {
    let mut g = Game::new(80, 40);
    assert_eq!((g.width, g.height, g.speed, g.score), (80, 40, 1, 0));
    assert_eq!(g.wordholder.max_size, 10);
    g.initgame("alpha beta gamma");
    assert_eq!(g.wordholder.words, vec!["alpha", "beta", "gamma"]);
    assert_eq!(g.wordholder.obj_len, 3);
    for o in &g.wordholder.draw_queue {
        assert_eq!(o.word, "beta");
        assert_eq!(o.x, 80);
        assert!(o.y >= 1 && o.y < 40);
    }
    g.draw_object();
    assert_eq!(g.wordholder.update_queue.len(), 3);
    assert!(g.wordholder.update_queue.iter().all(|o| o.x == 76));
    g.update_object();
    assert!(g.wordholder.update_queue.iter().all(|o| o.x == 75));
}

#[test]
fn make_word_zero_needs_nothing() {
    let mut g = Game::new(80, 0);
    g.make_word(0);
    assert!(g.wordholder.draw_queue.is_empty());
}
