use edit_core::bridge::FileMessage;
use edit_core::engine::{ArrowKey, Editor, InputEvent, Modifiers, ShellAction};
use edit_core::highlight::HighlightCache;
use edit_core::layout::LayoutParams;

fn chars(s: &str) -> Vec<char> {
    s.chars().collect()
}

fn cache() -> HighlightCache {
    HighlightCache::new(LayoutParams { wrap_cols: 80, char_width: 8, row_height: 16 })
}

fn editor(s: &str) -> (Editor, HighlightCache) {
    let mut ed = Editor::with_text(chars(s));
    let mut c = cache();
    ed.apply(&mut c, InputEvent::FocusGained);
    (ed, c)
}

/// A pointer press at character column `col` of row `row`.
fn click(col: usize, row: usize) -> InputEvent {
    InputEvent::PointerDown { x: (col as u64) * 8, y: (row as u64) * 16 }
}

fn text_of(ed: &Editor) -> String {
    ed.buffer().as_chars().iter().collect()
}

#[test]
fn backspace_deletes_char_before_caret() {
    // buffer "abc", caret at offset 3, Backspace
    let (mut ed, mut c) = editor("abc");
    ed.apply(&mut c, click(3, 0));
    assert_eq!(ed.selection().primary, 3);
    let out = ed.apply(&mut c, InputEvent::Backspace { mods: Modifiers::plain() });
    assert_eq!(text_of(&ed), "ab");
    assert_eq!(ed.selection().primary, 2);
    assert_eq!(ed.selection().secondary, 2);
    assert_eq!(out.cursor.unwrap().primary, 2);
}

#[test]
fn alt_backspace_deletes_word_before_caret() {
    // buffer "hello world", caret at offset 11, Alt+Backspace
    let (mut ed, mut c) = editor("hello world");
    ed.apply(&mut c, click(11, 0));
    let mods = Modifiers { shift: false, alt: true, command: false };
    ed.apply(&mut c, InputEvent::Backspace { mods });
    assert_eq!(text_of(&ed), "hello ");
    assert_eq!(ed.selection().primary, 6);
}

#[test]
fn command_backspace_deletes_line_prefix() {
    let (mut ed, mut c) = editor("hello\nworld");
    ed.apply(&mut c, click(2, 1)); // offset 8
    assert_eq!(ed.selection().primary, 8);
    let mods = Modifiers { shift: false, alt: false, command: true };
    ed.apply(&mut c, InputEvent::Backspace { mods });
    assert_eq!(text_of(&ed), "hello\nrld");
    assert_eq!(ed.selection().primary, 6);
}

#[test]
fn typing_replaces_selection() {
    // selection covering [0, 5) in "hello world", type "X"
    let (mut ed, mut c) = editor("hello world");
    ed.apply(&mut c, click(0, 0));
    ed.apply(&mut c, InputEvent::PointerDrag { x: 5 * 8, y: 0 });
    assert_eq!(ed.selection().primary, 5);
    assert_eq!(ed.selection().secondary, 0);
    ed.apply(&mut c, InputEvent::TextInput { chars: chars("X") });
    assert_eq!(text_of(&ed), "X world");
    assert_eq!(ed.selection().primary, 1);
    assert_eq!(ed.selection().secondary, 1);
}

#[test]
fn backspace_with_selection_deletes_it() {
    let (mut ed, mut c) = editor("hello world");
    ed.apply(&mut c, click(8, 0));
    ed.apply(&mut c, InputEvent::PointerDrag { x: 3 * 8, y: 0 });
    ed.apply(&mut c, InputEvent::Backspace { mods: Modifiers::plain() });
    assert_eq!(text_of(&ed), "helrld");
    assert_eq!(ed.selection().primary, 3);
}

#[test]
fn tab_inserts_tab_character() {
    // empty buffer, Tab key
    let (mut ed, mut c) = editor("");
    ed.apply(&mut c, InputEvent::Tab);
    assert_eq!(ed.buffer().as_chars(), &chars("\t"));
    assert_eq!(ed.selection().primary, 1);
}

#[test]
fn enter_inserts_newline() {
    let (mut ed, mut c) = editor("ab");
    ed.apply(&mut c, click(1, 0));
    ed.apply(&mut c, InputEvent::Enter);
    assert_eq!(text_of(&ed), "a\nb");
    assert_eq!(ed.selection().primary, 2);
}

#[test]
fn bare_newline_and_empty_text_events_are_ignored() {
    let (mut ed, mut c) = editor("ab");
    ed.apply(&mut c, click(1, 0));
    let out = ed.apply(&mut c, InputEvent::TextInput { chars: chars("") });
    assert!(out.cursor.is_none());
    let out = ed.apply(&mut c, InputEvent::TextInput { chars: chars("\n") });
    assert!(out.cursor.is_none());
    let out = ed.apply(&mut c, InputEvent::TextInput { chars: chars("\r") });
    assert!(out.cursor.is_none());
    assert_eq!(text_of(&ed), "ab");
}

#[test]
fn down_arrow_lands_on_nearest_pixel_column() {
    // two-row layout, caret at row 0 column 3 (x-pixel 24); Down lands
    // on the column of row 1 nearest pixel 24, which is its column 2
    let (mut ed, mut c) = editor("abcdef\nab");
    ed.apply(&mut c, click(3, 0));
    ed.apply(&mut c, InputEvent::Arrow { key: ArrowKey::Down, mods: Modifiers::plain() });
    assert_eq!(ed.selection().primary, 9);
}

#[test]
fn up_at_first_row_clamps_to_document_start() {
    let (mut ed, mut c) = editor("hello\nworld");
    ed.apply(&mut c, click(3, 0));
    ed.apply(&mut c, InputEvent::Arrow { key: ArrowKey::Up, mods: Modifiers::plain() });
    assert_eq!(ed.selection().primary, 0);
    ed.apply(&mut c, InputEvent::Arrow { key: ArrowKey::Up, mods: Modifiers::plain() });
    assert_eq!(ed.selection().primary, 0);
}

#[test]
fn plain_left_right_step_one_character() {
    let (mut ed, mut c) = editor("abc");
    ed.apply(&mut c, click(1, 0));
    ed.apply(&mut c, InputEvent::Arrow { key: ArrowKey::Right, mods: Modifiers::plain() });
    assert_eq!(ed.selection().primary, 2);
    ed.apply(&mut c, InputEvent::Arrow { key: ArrowKey::Left, mods: Modifiers::plain() });
    assert_eq!(ed.selection().primary, 1);
}

#[test]
fn left_right_clamp_at_document_edges() {
    let (mut ed, mut c) = editor("ab");
    ed.apply(&mut c, click(0, 0));
    ed.apply(&mut c, InputEvent::Arrow { key: ArrowKey::Left, mods: Modifiers::plain() });
    assert_eq!(ed.selection().primary, 0);
    ed.apply(&mut c, click(2, 0));
    ed.apply(&mut c, InputEvent::Arrow { key: ArrowKey::Right, mods: Modifiers::plain() });
    assert_eq!(ed.selection().primary, 2);
}

#[test]
fn shift_arrow_extends_selection() {
    let (mut ed, mut c) = editor("abc");
    ed.apply(&mut c, click(1, 0));
    let mods = Modifiers { shift: true, alt: false, command: false };
    ed.apply(&mut c, InputEvent::Arrow { key: ArrowKey::Right, mods });
    assert_eq!(ed.selection().primary, 2);
    assert_eq!(ed.selection().secondary, 1);
    // plain navigation collapses the selection again
    ed.apply(&mut c, InputEvent::Arrow { key: ArrowKey::Right, mods: Modifiers::plain() });
    assert_eq!(ed.selection().primary, 3);
    assert_eq!(ed.selection().secondary, 3);
}

#[test]
fn alt_left_right_step_by_words() {
    let (mut ed, mut c) = editor("one two");
    ed.apply(&mut c, click(7, 0));
    let mods = Modifiers { shift: false, alt: true, command: false };
    ed.apply(&mut c, InputEvent::Arrow { key: ArrowKey::Left, mods });
    assert_eq!(ed.selection().primary, 4);
    ed.apply(&mut c, InputEvent::Arrow { key: ArrowKey::Left, mods });
    assert_eq!(ed.selection().primary, 0);
    ed.apply(&mut c, InputEvent::Arrow { key: ArrowKey::Right, mods });
    assert_eq!(ed.selection().primary, 3);
}

#[test]
fn command_arrows_jump_to_row_and_document_edges() {
    let (mut ed, mut c) = editor("hello\nworld");
    ed.apply(&mut c, click(2, 1)); // offset 8
    let mods = Modifiers { shift: false, alt: false, command: true };
    ed.apply(&mut c, InputEvent::Arrow { key: ArrowKey::Left, mods });
    assert_eq!(ed.selection().primary, 6);
    ed.apply(&mut c, InputEvent::Arrow { key: ArrowKey::Right, mods });
    assert_eq!(ed.selection().primary, 11);
    ed.apply(&mut c, InputEvent::Arrow { key: ArrowKey::Up, mods });
    assert_eq!(ed.selection().primary, 0);
    ed.apply(&mut c, InputEvent::Arrow { key: ArrowKey::Down, mods });
    assert_eq!(ed.selection().primary, 11);
}

#[test]
fn unexpected_modifier_combinations_are_noops() {
    let (mut ed, mut c) = editor("one two");
    ed.apply(&mut c, click(7, 0));
    let mods = Modifiers { shift: true, alt: true, command: false };
    let out = ed.apply(&mut c, InputEvent::Arrow { key: ArrowKey::Left, mods });
    assert!(out.cursor.is_none());
    assert_eq!(ed.selection().primary, 7);
    // alt+up is not a defined step either
    let alt = Modifiers { shift: false, alt: true, command: false };
    let out = ed.apply(&mut c, InputEvent::Arrow { key: ArrowKey::Up, mods: alt });
    assert!(out.cursor.is_none());
}

#[test]
fn events_are_ignored_without_focus() {
    let mut ed = Editor::with_text(chars("abc"));
    let mut c = cache();
    let out = ed.apply(&mut c, InputEvent::TextInput { chars: chars("x") });
    assert!(out.cursor.is_none());
    let out = ed.apply(&mut c, InputEvent::Backspace { mods: Modifiers::plain() });
    assert!(out.cursor.is_none());
    let out = ed.apply(&mut c, InputEvent::Arrow { key: ArrowKey::Left, mods: Modifiers::plain() });
    assert!(out.cursor.is_none());
    assert_eq!(text_of(&ed), "abc");
}

#[test]
fn focus_lost_makes_navigation_inert_until_refocus() {
    let (mut ed, mut c) = editor("abc");
    ed.apply(&mut c, click(1, 0));
    ed.apply(&mut c, InputEvent::FocusLost);
    assert!(!ed.focused());
    let out = ed.apply(&mut c, InputEvent::Arrow { key: ArrowKey::Right, mods: Modifiers::plain() });
    assert!(out.cursor.is_none());
    assert_eq!(ed.selection().primary, 1);
    ed.apply(&mut c, InputEvent::FocusGained);
    ed.apply(&mut c, InputEvent::Arrow { key: ArrowKey::Right, mods: Modifiers::plain() });
    assert_eq!(ed.selection().primary, 2);
}

#[test]
fn pointer_down_grants_focus_and_places_caret() {
    let mut ed = Editor::with_text(chars("hello"));
    let mut c = cache();
    assert!(!ed.focused());
    let out = ed.apply(&mut c, click(2, 0));
    assert!(ed.focused());
    assert_eq!(ed.selection().primary, 2);
    assert_eq!(ed.selection().secondary, 2);
    assert_eq!(out.cursor.unwrap().primary, 2);
}

#[test]
fn drag_without_focus_is_ignored() {
    let mut ed = Editor::with_text(chars("hello"));
    let mut c = cache();
    let out = ed.apply(&mut c, InputEvent::PointerDrag { x: 16, y: 0 });
    assert!(out.cursor.is_none());
    assert_eq!(ed.selection().primary, 0);
}

#[test]
fn open_and_save_shortcuts_become_shell_actions() {
    let (mut ed, mut c) = editor("abc");
    let out = ed.apply(&mut c, InputEvent::OpenRequested);
    assert_eq!(out.action, Some(ShellAction::OpenDialog));
    assert!(out.cursor.is_none());
    let out = ed.apply(&mut c, InputEvent::SaveRequested);
    assert_eq!(out.action, Some(ShellAction::SaveFile));
    assert_eq!(text_of(&ed), "abc");
}

#[test]
fn loading_a_file_replaces_text_and_resets_caret() {
    let (mut ed, mut c) = editor("old text");
    ed.apply(&mut c, click(4, 0));
    ed.load_message(FileMessage { path: chars("a.txt"), text: chars("new content") });
    assert_eq!(text_of(&ed), "new content");
    assert_eq!(ed.selection().primary, 0);
    assert_eq!(ed.selection().secondary, 0);
    assert!(ed.focused());
}

#[test]
fn navigation_follows_wrapped_rows() {
    // a narrow wrap limit: "abcdef" lays out as "abcd" / "ef"
    let mut ed = Editor::with_text(chars("abcdef"));
    let mut c = HighlightCache::new(LayoutParams { wrap_cols: 4, char_width: 8, row_height: 16 });
    ed.apply(&mut c, InputEvent::PointerDown { x: 8, y: 16 }); // row 1 col 1 = offset 5
    assert_eq!(ed.selection().primary, 5);
    ed.apply(&mut c, InputEvent::Arrow { key: ArrowKey::Up, mods: Modifiers::plain() });
    assert_eq!(ed.selection().primary, 1);
    ed.apply(&mut c, InputEvent::Arrow { key: ArrowKey::Down, mods: Modifiers::plain() });
    assert_eq!(ed.selection().primary, 5);
    // command+right stops at the end of the wrapped row
    let cmd = Modifiers { shift: false, alt: false, command: true };
    ed.apply(&mut c, InputEvent::Arrow { key: ArrowKey::Right, mods: cmd });
    assert_eq!(ed.selection().primary, 6);
}

#[test]
fn a_whole_event_batch_runs_in_arrival_order() {
    let mut ed = Editor::with_text(chars("ab"));
    let mut c = cache();
    let outs = ed.apply_all(
        &mut c,
        vec![
            InputEvent::FocusGained,
            click(2, 0),
            InputEvent::TextInput { chars: chars("c") },
            InputEvent::Backspace { mods: Modifiers::plain() },
            InputEvent::TextInput { chars: chars("z") },
        ],
    );
    assert_eq!(outs.len(), 5);
    assert_eq!(text_of(&ed), "abz");
    assert_eq!(ed.selection().primary, 3);
}

#[test]
fn edits_collapse_the_selection_to_a_caret() {
    let (mut ed, mut c) = editor("hello world");
    ed.apply(&mut c, click(0, 0));
    ed.apply(&mut c, InputEvent::PointerDrag { x: 5 * 8, y: 0 });
    ed.apply(&mut c, InputEvent::Tab);
    assert_eq!(text_of(&ed), "\t world");
    assert_eq!(ed.selection().primary, 1);
    assert_eq!(ed.selection().secondary, 1);
}
