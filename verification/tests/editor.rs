use rs_script::editor::{
    cursor_label, editor_key, hard_tab_indent, path_label, search_box_accepts, search_key,
    search_title, slot_label, EditorCommand, EditorEvent, EditorKey, EditorState, Input, Key,
    MessageLine, SearchKey,
};
use rs_script::layout::{centered_rect, Rect};

fn key(k: Key) -> Input {
    Input { key: k, ctrl: false, alt: false, shift: false }
}

fn ctrl(c: char) -> EditorEvent {
    EditorEvent::Input(Input { key: Key::Char(c), ctrl: true, alt: false, shift: false })
}

fn press(k: Key) -> EditorEvent {
    EditorEvent::Input(key(k))
}

#[test]
fn an_editor_needs_a_buffer() {
    assert_eq!(
        EditorState::new(0).err(),
        Some("USAGE: cargo run --example editor FILE1 [FILE2...]".to_string())
    );
    let s = EditorState::new(2).unwrap();
    assert_eq!(s.current(), 0);
    assert_eq!(s.buffer_count(), 2);
    assert!(!s.is_modified(0) && !s.is_modified(1));
    assert!(s.output_modified());
    assert_eq!(s.search_height(), 0);
}

#[test]
fn switching_buffers_cycles() {
    let mut s = EditorState::new(3).unwrap();
    assert_eq!(s.step(ctrl('t')), EditorCommand::WriteOutput("Switched to buffer #2".to_string()));
    assert_eq!(s.current(), 1);
    assert_eq!(s.step(ctrl('t')), EditorCommand::WriteOutput("Switched to buffer #3".to_string()));
    assert_eq!(s.step(ctrl('t')), EditorCommand::WriteOutput("Switched to buffer #1".to_string()));
    assert_eq!(s.current(), 0);
}

#[test]
fn popup_toggles_and_quit() {
    let mut s = EditorState::new(1).unwrap();
    assert_eq!(s.step(ctrl('y')), EditorCommand::Nothing);
    assert!(s.show_popup());
    assert_eq!(s.step(ctrl('y')), EditorCommand::Nothing);
    assert!(!s.show_popup());
    assert_eq!(s.step(ctrl('q')), EditorCommand::Quit);
}

#[test]
fn editing_and_saving() {
    let mut s = EditorState::new(2).unwrap();
    assert_eq!(s.step(ctrl('s')), EditorCommand::WriteOutput("No changes to save".to_string()));
    assert_eq!(s.message_line(), MessageLine::Text("No changes to save".to_string()));
    assert_eq!(s.message_line(), MessageLine::EditorHelp);
    let typed = key(Key::Char('x'));
    assert_eq!(s.step(EditorEvent::Input(typed)), EditorCommand::BufferInput(typed));
    s.buffer_edited(true);
    assert!(s.is_modified(0));
    s.buffer_edited(false);
    assert!(s.is_modified(0));
    assert_eq!(s.step(ctrl('s')), EditorCommand::Save);
    assert_eq!(s.saved(), "Saved!");
    assert!(!s.is_modified(0));
    assert!(!s.is_modified(1));
    assert_eq!(s.message_line(), MessageLine::Text("Saved!".to_string()));
}

#[test]
fn pasting_inserts_lines() {
    let mut s = EditorState::new(1).unwrap();
    s.output_drawn();
    assert!(!s.output_modified());
    assert_eq!(
        s.step(EditorEvent::Paste("a\r\nb".to_string())),
        EditorCommand::Paste(vec!["a".to_string(), "b".to_string()])
    );
    assert!(s.is_modified(0));
    assert!(s.output_modified());
    let mut t = EditorState::new(1).unwrap();
    assert_eq!(t.step(EditorEvent::Paste(String::new())), EditorCommand::Paste(Vec::new()));
    assert!(!t.is_modified(0));
}

#[test]
fn searching() {
    let mut s = EditorState::new(1).unwrap();
    assert_eq!(s.step(ctrl('g')), EditorCommand::Nothing);
    assert_eq!(s.search_height(), 3);
    assert_eq!(s.message_line(), MessageLine::SearchHelp);
    let typed = key(Key::Char('f'));
    assert_eq!(s.step(EditorEvent::Input(typed)), EditorCommand::SearchInput(typed));
    s.search_pattern_set(Some("regex parse error".to_string()));
    assert_eq!(search_title(&s.search_error()), "Search: regex parse error");
    s.search_pattern_set(None);
    assert_eq!(search_title(&s.search_error()), "Search");
    assert_eq!(s.step(ctrl('n')), EditorCommand::SearchForward);
    s.search_moved(false);
    assert_eq!(s.search_error(), Some("Pattern not found".to_string()));
    assert_eq!(s.step(press(Key::Up)), EditorCommand::SearchBack);
    assert_eq!(s.step(ctrl('m')), EditorCommand::Nothing);
    assert_eq!(s.step(EditorEvent::Paste("x".to_string())), EditorCommand::SearchInput(Input::null()));
    assert_eq!(s.step(press(Key::Enter)), EditorCommand::SearchConfirm);
    s.search_confirmed(false);
    assert_eq!(s.search_height(), 0);
    assert_eq!(s.message_line(), MessageLine::Text("Pattern not found".to_string()));
    assert_eq!(s.step(ctrl('g')), EditorCommand::Nothing);
    assert_eq!(s.step(press(Key::Esc)), EditorCommand::SearchCancel);
    assert_eq!(s.search_height(), 0);
}

#[test]
fn key_bindings() {
    let alt_g = Input { key: Key::Char('g'), ctrl: false, alt: true, shift: false };
    let ctrl_alt_g = Input { key: Key::Char('g'), ctrl: true, alt: true, shift: false };
    assert_eq!(search_key(&alt_g), SearchKey::Back);
    assert_eq!(search_key(&ctrl_alt_g), SearchKey::Other);
    assert_eq!(search_key(&key(Key::Down)), SearchKey::Forward);
    assert_eq!(editor_key(&ctrl_alt_g), EditorKey::OpenSearch);
    assert_eq!(editor_key(&key(Key::Char('q'))), EditorKey::Other);
    assert!(!search_box_accepts(&key(Key::Enter)));
    assert!(search_box_accepts(&key(Key::Char('m'))));
}

#[test]
fn status_line_labels() {
    let mut s = EditorState::new(2).unwrap();
    s.step(ctrl('t'));
    assert_eq!(slot_label(&s), "[2/2]");
    assert_eq!(s.other_buffer_index(), 0);
    assert_eq!(cursor_label(0, 9), "(1,10)");
    assert_eq!(path_label("src/main.rs", true), " src/main.rs [modified] ");
    assert_eq!(path_label("src/main.rs", false), " src/main.rs ");
}

#[test]
fn tabs_choose_hard_tab_indent() {
    assert!(hard_tab_indent(&vec!["fn f() {".to_string(), "\tx".to_string()]));
    assert!(!hard_tab_indent(&vec!["    x".to_string()]));
    assert!(!hard_tab_indent(&Vec::new()));
}

#[test]
fn popup_is_centered() {
    let area = Rect { x: 0, y: 0, width: 100, height: 50 };
    assert_eq!(centered_rect(90, 30, area), Rect { x: 5, y: 10, width: 90, height: 30 });
    let small = Rect { x: 2, y: 1, width: 20, height: 10 };
    assert_eq!(centered_rect(90, 30, small), Rect { x: 2, y: 1, width: 20, height: 10 });
}
