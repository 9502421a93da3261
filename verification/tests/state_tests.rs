use royal_api::api::{ChapterReference, Fiction};
use royal_api::input::{FictionInState, FictionInWidget};
use royal_api::list::{ListState, ListWidget, Listable};
use royal_api::reading::{ReadingWindow, ReadingWindowState};
use royal_api::session::{AppAction, AppState, Key, KeyInput};

fn fiction(id: usize, title: &str) -> Fiction {
    Fiction { title: String::from(title), id, chapters: Vec::new() }
}

fn reference(path: &str, title: &str, time: u64) -> ChapterReference {
    ChapterReference { path: String::from(path), title: String::from(title), time }
}

// ---------------------------------------------------------------------------
// The list model
// ---------------------------------------------------------------------------

#[test]
fn new_list_displays_most_recent_first() {
    let st = ListState::new(vec![fiction(1, "a")], 0, 0);
    assert!(st.reversed);
    assert_eq!(st.selected_line, 0);
    assert_eq!(st.top_line, 0);
    assert_eq!(st.items.len(), 1);
}

#[test]
fn selection_moves_are_clamped() {
    let mut st = ListState::new(vec![fiction(1, "a"), fiction(2, "b"), fiction(3, "c")], 0, 0);
    st.move_selection(1);
    assert_eq!(st.selected_line, 1);
    st.move_selection(10);
    assert_eq!(st.selected_line, 2);
    st.move_selection(-1);
    assert_eq!(st.selected_line, 1);
    st.move_selection(-10);
    assert_eq!(st.selected_line, 0);
}

#[test]
fn empty_list_ignores_moves() {
    let mut st: ListState<Fiction> = ListState::new(Vec::new(), 3, 1);
    st.move_selection(5);
    assert_eq!(st.selected_line, 3);
    st.remove_selected();
    assert_eq!(st.items.len(), 0);
    assert!(st.selected_item_index().is_none());
    assert_eq!(st.visible_slice(5).len(), 0);
}

#[test]
fn window_follows_the_selection_minimally() {
    let mut st = ListState::new(
        (0..10).map(|i| fiction(i, "f")).collect::<Vec<_>>(),
        0,
        0,
    );
    st.move_selection(6);
    st.recompute_window(4);
    // the selection becomes the last visible row
    assert_eq!(st.top_line, 3);
    assert_eq!(st.selected_line, 6);
    // moving back above the window scrolls just up to it
    st.move_selection(-5);
    st.recompute_window(4);
    assert_eq!(st.top_line, 1);
    // inside the window nothing changes
    st.move_selection(1);
    st.recompute_window(4);
    assert_eq!(st.top_line, 1);
}

#[test]
fn recompute_twice_changes_nothing_more() {
    let mut st = ListState::new((0..10).map(|i| fiction(i, "f")).collect::<Vec<_>>(), 9, 0);
    st.recompute_window(3);
    let once = st.top_line;
    st.recompute_window(3);
    assert_eq!(st.top_line, once);
}

#[test]
fn visible_slice_maps_rows_to_items() {
    let mut st = ListState::new((0..5).map(|i| fiction(i, "f")).collect::<Vec<_>>(), 0, 1);
    st.reversed = false;
    let rows = st.visible_slice(3);
    assert_eq!(rows, vec![(0, 1), (1, 2), (2, 3)]);
    st.reversed = true;
    let rows = st.visible_slice(3);
    assert_eq!(rows, vec![(0, 3), (1, 2), (2, 1)]);
    // a window reaching past the end is cut short
    st.top_line = 3;
    st.reversed = false;
    let rows = st.visible_slice(10);
    assert_eq!(rows, vec![(0, 3), (1, 4)]);
}

#[test]
fn selected_index_honors_display_order() {
    let mut st = ListState::new((0..4).map(|i| fiction(i, "f")).collect::<Vec<_>>(), 1, 0);
    st.reversed = false;
    assert_eq!(st.selected_item_index(), Some(1));
    st.reversed = true;
    assert_eq!(st.selected_item_index(), Some(2));
    // an out-of-range cursor clamps before mapping
    st.selected_line = 9;
    assert_eq!(st.selected_item_index(), Some(0));
}

#[test]
fn removing_reclamps_the_selection() {
    let mut st = ListState::new(vec![fiction(0, "a"), fiction(1, "b")], 1, 0);
    st.reversed = false;
    st.remove_selected();
    assert_eq!(st.items.len(), 1);
    assert_eq!(st.items[0].id, 0);
    assert_eq!(st.selected_line, 0);
    st.remove_selected();
    assert_eq!(st.items.len(), 0);
    assert_eq!(st.selected_line, 0);
}

#[test]
fn toggling_reversal_keeps_indices() {
    let mut st = ListState::new(vec![fiction(0, "a")], 0, 0);
    let sel = st.selected_line;
    st.toggle_reversed();
    assert!(!st.reversed);
    assert_eq!(st.selected_line, sel);
    st.toggle_reversed();
    assert!(st.reversed);
}

#[test]
fn widgets_keep_their_margins() {
    let w: ListWidget<Fiction> = ListWidget::new((1, 2));
    assert_eq!(w.margin, (1, 2));
    let r = ReadingWindow::new((3, 2));
    assert_eq!(r.margin, (3, 2));
    let f = FictionInWidget::new((4, 5));
    assert_eq!(f.margin, (4, 5));
    let s = FictionInState::new(String::from("41"));
    assert_eq!(s.text, "41");
}

// ---------------------------------------------------------------------------
// Display labels
// ---------------------------------------------------------------------------

#[test]
fn chapter_reference_display_line() {
    let c = reference("/c", "abc", 1000);
    // two minutes elapsed; width 20 leaves 8 columns of spacing
    let line = c.display_line(20, 0, 1000 + 120);
    assert_eq!(line, "abc        2 minutes");
    assert_eq!(line.chars().count(), 20);
}

#[test]
fn chapter_reference_display_line_truncates_title() {
    let c = reference("/c", "a very long chapter title", 0);
    let line = c.display_line(20, 0, 59);
    // the label takes 10 columns, minimal spacing 3, so 7 title columns stay
    assert_eq!(line, "a very    59 seconds");
    assert_eq!(line.chars().count(), 20);
}

#[test]
fn listable_line_is_produced_for_references() {
    let c = reference("/c", "abc", 0);
    let line = Listable::to_string(&c, 30, 1);
    assert!(line.chars().count() <= 30);
    assert!(line.ends_with("s"));
}

#[test]
fn fiction_title_line_fits_or_ends_in_ellipsis() {
    let f = fiction(1, "short");
    assert_eq!(f.title_line(20, 1), "short");
    let f = fiction(1, "a quite long fiction title");
    let line = f.title_line(12, 1);
    // the cap is 12 - 2 - 2 = 8 columns: five title characters and the dots
    assert_eq!(line, "a qui...");
    assert_eq!(Listable::to_string(&f, 12, 1), "a qui...");
}

// ---------------------------------------------------------------------------
// The reading pane
// ---------------------------------------------------------------------------

fn pane(paragraphs: Vec<&str>, line: u16) -> ReadingWindowState {
    ReadingWindowState::new(paragraphs.into_iter().map(String::from).collect(), line, true)
}

#[test]
fn wrap_packs_words_greedily() {
    let st = pane(vec!["hello world foo", "bar"], 0);
    let lines = st.wrap_lines(11, 10, &st.text, (0, 0));
    assert_eq!(lines, vec!["hello world", "foo", "", "bar"]);
}

#[test]
fn wrap_keeps_line_width_unless_single_long_word() {
    let st = pane(vec!["aaaaaaaaaa bb cc"], 0);
    let lines = st.wrap_lines(5, 10, &st.text, (0, 0));
    assert_eq!(lines, vec!["aaaaaaaaaa", "bb cc"]);
    for l in &lines {
        assert!(l.chars().count() <= 5 || !l.contains(' '));
    }
}

#[test]
fn wrap_stops_at_the_height() {
    let st = pane(vec!["a b c d e f"], 0);
    let lines = st.wrap_lines(3, 2, &st.text, (0, 0));
    assert_eq!(lines, vec!["a b", "c d"]);
}

#[test]
fn wrap_starts_at_the_cursor_paragraph() {
    let st = pane(vec!["first", "second", "third"], 1);
    let lines = st.wrap_lines(10, 10, &st.text, (0, 0));
    assert_eq!(lines, vec!["second", "", "third"]);
}

#[test]
fn wrap_applies_margins() {
    let st = pane(vec!["ab cd"], 0);
    let lines = st.wrap_lines(8, 3, &st.text, (2, 1));
    assert_eq!(lines, vec!["", "  ab", "  cd"]);
}

#[test]
fn scroll_is_clamped_to_the_paragraphs() {
    let mut st = pane(vec!["a", "b", "c"], 0);
    st.scroll(5);
    assert_eq!(st.line, 2);
    st.scroll(-1);
    assert_eq!(st.line, 1);
    st.scroll(-10);
    assert_eq!(st.line, 0);
    let mut empty = pane(vec![], 7);
    empty.scroll(3);
    assert_eq!(empty.line, 7);
}

// ---------------------------------------------------------------------------
// The session state machine
// ---------------------------------------------------------------------------

fn fresh_state() -> AppState {
    AppState {
        reading_state: ReadingWindowState::new(Vec::new(), 0, false),
        fiction_state: ListState::new(Vec::new(), 0, 0),
        chapter_state: ListState::new(Vec::new(), 0, 0),
        fictions_showing: true,
        fiction_in: None,
    }
}

fn press(code: Key) -> KeyInput {
    KeyInput { code, shift: false }
}

fn shifted(code: Key) -> KeyInput {
    KeyInput { code, shift: true }
}

#[test]
fn quit_key_asks_for_save() {
    let mut s = fresh_state();
    assert_eq!(s.handle_key(press(Key::Char('q'))), AppAction::SaveQuit);
}

#[test]
fn prompt_flow_fetches_a_fiction() {
    let mut s = fresh_state();
    assert_eq!(s.handle_key(press(Key::Char('o'))), AppAction::Idle);
    assert_eq!(s.fiction_in.as_deref(), Some("Enter New Fiction ID"));
    // the first digit replaces the prompt text
    s.handle_key(press(Key::Char('4')));
    assert_eq!(s.fiction_in.as_deref(), Some("4"));
    s.handle_key(press(Key::Char('2')));
    assert_eq!(s.fiction_in.as_deref(), Some("42"));
    // a letter changes nothing
    s.handle_key(press(Key::Char('x')));
    assert_eq!(s.fiction_in.as_deref(), Some("42"));
    s.handle_key(press(Key::Backspace));
    assert_eq!(s.fiction_in.as_deref(), Some("4"));
    s.handle_key(press(Key::Char('0')));
    assert_eq!(s.handle_key(press(Key::Enter)), AppAction::FetchFiction(40));
    s.apply_fiction_result(Some(fiction(40, "Fetched")));
    assert!(s.fiction_in.is_none());
    assert_eq!(s.fiction_state.items.len(), 1);
    assert_eq!(s.fiction_state.items[0].title, "Fetched");
}

#[test]
fn failed_fetch_shows_invalid_id() {
    let mut s = fresh_state();
    s.handle_key(press(Key::Char('o')));
    s.handle_key(press(Key::Char('9')));
    assert_eq!(s.handle_key(press(Key::Enter)), AppAction::FetchFiction(9));
    s.apply_fiction_result(None);
    assert_eq!(s.fiction_in.as_deref(), Some("Invalid ID"));
    // Enter on the failure prompt does not panic, it re-prompts
    assert_eq!(s.handle_key(press(Key::Enter)), AppAction::Idle);
    assert_eq!(s.fiction_in.as_deref(), Some("Invalid ID"));
    s.handle_key(press(Key::Esc));
    assert!(s.fiction_in.is_none());
}

#[test]
fn shifted_keys_move_the_visible_list() {
    let mut s = fresh_state();
    s.fiction_state.items = vec![fiction(1, "a"), fiction(2, "b")];
    s.handle_key(shifted(Key::Char('J')));
    assert_eq!(s.fiction_state.selected_line, 1);
    s.handle_key(shifted(Key::Char('K')));
    assert_eq!(s.fiction_state.selected_line, 0);
    s.fictions_showing = false;
    s.chapter_state.items = vec![reference("/c", "t", 0)];
    s.handle_key(shifted(Key::Char('J')));
    assert_eq!(s.chapter_state.selected_line, 0);
}

#[test]
fn descending_into_a_fiction_copies_its_chapters() {
    let mut s = fresh_state();
    let mut f = fiction(1, "a");
    f.chapters = vec![reference("/c1", "one", 5), reference("/c2", "two", 6)];
    s.fiction_state.items = vec![f];
    assert_eq!(s.handle_key(press(Key::Char('l'))), AppAction::Idle);
    assert!(!s.fictions_showing);
    assert_eq!(s.chapter_state.items.len(), 2);
    assert_eq!(s.chapter_state.items[0].path, "/c1");
    // a second 'l' on the chapter list asks to open the drawn-as-selected
    // chapter, honoring the reversed display order
    let a = s.handle_key(press(Key::Char('l')));
    assert_eq!(a, AppAction::OpenChapter(1));
    s.chapter_state.reversed = false;
    let a = s.handle_key(press(Key::Char('l')));
    assert_eq!(a, AppAction::OpenChapter(0));
    s.apply_chapter_result(Some(vec![String::from("P1"), String::from("P2")]));
    assert!(s.reading_state.is_reading);
    assert_eq!(s.reading_state.line, 0);
    assert_eq!(s.reading_state.text, vec!["P1", "P2"]);
}

#[test]
fn failed_chapter_fetch_leaves_state_untouched() {
    let mut s = fresh_state();
    s.apply_chapter_result(None);
    assert!(!s.reading_state.is_reading);
    assert_eq!(s.reading_state.text.len(), 0);
}

#[test]
fn back_delete_and_reverse_keys() {
    let mut s = fresh_state();
    s.fiction_state.items = vec![fiction(1, "a"), fiction(2, "b")];
    s.fictions_showing = false;
    s.handle_key(press(Key::Char('h')));
    assert!(s.fictions_showing);
    // delete the drawn-as-selected fiction (reversed order, cursor 0 -> last)
    s.handle_key(press(Key::Char('d')));
    assert_eq!(s.fiction_state.items.len(), 1);
    assert_eq!(s.fiction_state.items[0].id, 1);
    let was = s.fiction_state.reversed;
    s.handle_key(press(Key::Char('r')));
    assert_eq!(s.fiction_state.reversed, !was);
    // scrolling keys reach the reading pane
    s.reading_state = ReadingWindowState::new(vec![String::from("a"), String::from("b")], 0, true);
    s.handle_key(press(Key::Char('j')));
    assert_eq!(s.reading_state.line, 1);
    s.handle_key(press(Key::Char('k')));
    assert_eq!(s.reading_state.line, 0);
}
