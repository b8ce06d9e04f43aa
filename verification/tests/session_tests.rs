use typing_test::session::{InputEvent, TestMode, TypingTest};

fn one_word_corpus() -> Vec<Vec<char>> {
    vec![vec!['a']]
}

// With a one-word corpus every generated line is deterministic:
// ten words "a" joined with single spaces, 19 characters in all.
const LINE_CHARS: usize = 19;

#[test]
fn new_session_starts_running_with_defaults() {
    let t = TypingTest::new(one_word_corpus(), None, (80, 24));
    assert!(t.running);
    assert_eq!(t.test_mode, TestMode::WordCount(30));
    assert_eq!(t.word_count, 0);
    assert_eq!(t.previous_lines.len(), 0);
    assert_eq!(t.line.index, 0);
    assert_eq!(t.terminal_size, (80, 24));
    let expected: Vec<char> = "a a a a a a a a a a".chars().collect();
    assert_eq!(t.line.expected, expected);
    assert_eq!(t.next_line.expected, expected);
}

#[test]
fn every_space_counts_one_word_regardless_of_correctness() {
    let mut t = TypingTest::new(one_word_corpus(), Some(5), (80, 24));
    let redraw = t.handle_event(InputEvent::Character(' '));
    assert!(redraw);
    assert_eq!(t.word_count, 1);
    assert_eq!(t.previous_lines.len(), 0);
    assert_eq!(t.line.buffer, vec![' ']);
    t.handle_event(InputEvent::Character('x'));
    assert_eq!(t.word_count, 1);
    t.handle_event(InputEvent::Character(' '));
    assert_eq!(t.word_count, 2);
}

#[test]
fn space_on_a_done_line_rotates_and_still_counts() {
    let mut t = TypingTest::new(one_word_corpus(), Some(50), (80, 24));
    for _ in 0..LINE_CHARS {
        t.handle_event(InputEvent::Character('a'));
    }
    assert_eq!(t.previous_lines.len(), 0);
    t.handle_event(InputEvent::Character(' '));
    assert_eq!(t.previous_lines.len(), 1);
    assert_eq!(t.word_count, 1);
    // The rotated-away line carries what was typed into it.
    assert_eq!(t.previous_lines[0].buffer.len(), LINE_CHARS);
    // The new current line is the pre-generated one, still untyped.
    assert_eq!(t.line.buffer.len(), 0);
    assert_eq!(t.next_line.buffer.len(), 0);
}

#[test]
fn space_on_an_unfinished_line_does_not_rotate() {
    let mut t = TypingTest::new(one_word_corpus(), Some(50), (80, 24));
    t.handle_event(InputEvent::Character('a'));
    t.handle_event(InputEvent::Character(' '));
    assert_eq!(t.previous_lines.len(), 0);
    assert_eq!(t.line.buffer, vec!['a', ' ']);
    assert_eq!(t.word_count, 1);
}

#[test]
fn five_spaces_reach_a_target_of_five() {
    let mut t = TypingTest::new(one_word_corpus(), Some(5), (80, 24));
    for i in 0..4u32 {
        t.handle_event(InputEvent::Character(' '));
        assert_eq!(t.word_count, i + 1);
        assert!(!t.finished());
    }
    t.handle_event(InputEvent::Character(' '));
    assert_eq!(t.word_count, 5);
    assert!(t.finished());
}

#[test]
fn escape_finishes_at_once_and_keeps_the_count() {
    let mut t = TypingTest::new(one_word_corpus(), Some(5), (80, 24));
    t.handle_event(InputEvent::Character(' '));
    t.handle_event(InputEvent::Character(' '));
    assert!(!t.finished());
    let redraw = t.handle_event(InputEvent::Escape);
    assert!(!redraw);
    assert!(!t.running);
    assert!(t.finished());
    assert_eq!(t.word_count, 2);
}

#[test]
fn escape_with_nothing_typed_finishes_with_zero_words() {
    let mut t = TypingTest::new(one_word_corpus(), Some(5), (80, 24));
    t.handle_event(InputEvent::Escape);
    assert!(t.finished());
    assert_eq!(t.word_count, 0);
}

#[test]
fn backspace_cannot_cross_a_rotation() {
    let mut t = TypingTest::new(one_word_corpus(), Some(50), (80, 24));
    for _ in 0..LINE_CHARS {
        t.handle_event(InputEvent::Character('a'));
    }
    t.handle_event(InputEvent::Character(' '));
    assert_eq!(t.line.buffer.len(), 0);
    t.handle_event(InputEvent::Backspace);
    assert_eq!(t.line.buffer.len(), 0);
    assert_eq!(t.previous_lines[0].buffer.len(), LINE_CHARS);
}

#[test]
fn backspace_removes_the_last_typed_character() {
    let mut t = TypingTest::new(one_word_corpus(), Some(50), (80, 24));
    t.handle_event(InputEvent::Character('a'));
    t.handle_event(InputEvent::Character('b'));
    let redraw = t.handle_event(InputEvent::Backspace);
    assert!(redraw);
    assert_eq!(t.line.buffer, vec!['a']);
}

#[test]
fn resize_records_the_new_dimensions() {
    let mut t = TypingTest::new(one_word_corpus(), Some(5), (80, 24));
    let redraw = t.handle_event(InputEvent::Resize(100, 40));
    assert!(redraw);
    assert_eq!(t.terminal_size, (100, 40));
    assert_eq!(t.word_count, 0);
}

#[test]
fn other_events_change_nothing_and_need_no_redraw() {
    let mut t = TypingTest::new(one_word_corpus(), Some(5), (80, 24));
    let redraw = t.handle_event(InputEvent::Other);
    assert!(!redraw);
    assert!(t.running);
    assert_eq!(t.word_count, 0);
    assert_eq!(t.line.buffer.len(), 0);
}

#[test]
fn get_next_line_archives_the_current_line() {
    let mut t = TypingTest::new(one_word_corpus(), Some(5), (80, 24));
    t.handle_event(InputEvent::Character('q'));
    let old_next_expected = t.next_line.expected.clone();
    t.get_next_line();
    assert_eq!(t.previous_lines.len(), 1);
    assert_eq!(t.previous_lines[0].buffer, vec!['q']);
    assert_eq!(t.line.expected, old_next_expected);
    assert_eq!(t.line.buffer.len(), 0);
    assert_eq!(t.next_line.buffer.len(), 0);
}
