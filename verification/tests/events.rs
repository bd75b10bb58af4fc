//! Handling events and configuration.
use kaolinite::event::Event;
use kaolinite::Loc;
use ox::config::{Config, DocumentConfig, GreetingMessage, Indentation, TabLine};
use ox::editor::Editor;
use ox::error::OxError;
use ox::input::{
    InputEvent, KeyCode, KeyModifiers, MouseButton, MouseEvent, MouseEventKind, Typing, Work,
    SHIFT,
};
use ox::ui::{Feedback, Size};

const PLAIN: KeyModifiers = KeyModifiers { bits: 0 };
const CONTROL: KeyModifiers = KeyModifiers { bits: 2 };

fn config() -> Config {
    Config {
        document: DocumentConfig { tab_width: 3, indentation: Indentation::Spaces, undo_period: 2 },
        greeting_message: GreetingMessage { enabled: false },
        tab_line: TabLine { enabled: true },
    }
}

/// An editor with a document that has an edit that is not committed.
fn editor() -> Editor {
    let mut editor = Editor::new(Ok(config()), 1_000_000_000).unwrap();
    editor.blank(Ok(Size { w: 80, h: 24 })).unwrap();
    editor.doc_mut().exe(Event::Insert(Loc { x: 0, y: 0 }, "a".to_string())).unwrap();
    editor
}

fn undo_len(editor: &Editor) -> usize {
    editor.doc().event_mgmt.undo.len()
}

fn typed(work: Option<Work>) -> (String, bool) {
    match work {
        Some(Work::Type(typing)) => {
            assert_eq!(typing.at, 0);
            (typing.text.iter().collect(), typing.commit)
        }
        other => panic!("{:?}", other),
    }
}

fn mouse(kind: MouseEventKind) -> InputEvent {
    InputEvent::Mouse(MouseEvent { kind, column: 4, row: 5, modifiers: PLAIN })
}

#[test]
fn keys() {
    let mut editor = editor();
    let shift = KeyModifiers { bits: SHIFT };
    let t = 1_000_000_000;
    let mut key = |modifiers, code| editor.handle_key_event(modifiers, code, t, t);
    assert_eq!(typed(key(PLAIN, KeyCode::Char('x'))), ("x".to_string(), false));
    assert_eq!(typed(key(shift, KeyCode::Char('X'))), ("X".to_string(), false));
    assert!(key(CONTROL, KeyCode::Char('x')).is_none());
    assert!(key(KeyModifiers { bits: 3 }, KeyCode::Char('x')).is_none());
    assert_eq!(typed(key(PLAIN, KeyCode::Tab)), ("   ".to_string(), false));
    assert!(key(shift, KeyCode::Tab).is_none());
    assert!(matches!(key(PLAIN, KeyCode::Backspace), Some(Work::Backspace)));
    assert!(key(shift, KeyCode::Backspace).is_none());
    assert!(matches!(key(PLAIN, KeyCode::Delete), Some(Work::Delete)));
    assert!(key(CONTROL, KeyCode::Delete).is_none());
    assert!(matches!(key(PLAIN, KeyCode::Enter), Some(Work::Enter)));
    assert!(key(CONTROL, KeyCode::Enter).is_none());
    assert!(key(PLAIN, KeyCode::Other).is_none());
}

#[test]
fn inactivity_commits() {
    let mut editor = editor();
    assert!(!editor.is_inactive(3_000_999_999));
    assert!(editor.is_inactive(3_001_000_000));
    // Two seconds and almost a millisecond are not more than two seconds
    editor.handle_key_event(PLAIN, KeyCode::Other, 3_000_999_999, 4_000_000_000);
    assert_eq!(undo_len(&editor), 0);
    assert_eq!(editor.last_active, 4_000_000_000);
    // Time that runs backwards is no inactivity
    editor.handle_key_event(PLAIN, KeyCode::Other, 0, 4_000_000_000);
    assert_eq!(undo_len(&editor), 0);
    editor.handle_key_event(PLAIN, KeyCode::Other, 6_001_000_000, 7_000_000_000);
    assert_eq!(undo_len(&editor), 1);
    assert!(editor.doc().event_mgmt.patch.is_empty());
    // There is nothing to commit now
    editor.handle_key_event(PLAIN, KeyCode::Other, 99_000_000_000, 99_000_000_000);
    assert_eq!(undo_len(&editor), 1);
}

#[test]
fn commit_keeps_the_rest_of_the_document() {
    let mut editor = editor();
    editor.doc_mut().cursor = Loc { x: 1, y: 0 };
    editor.doc_mut().offset = Loc { x: 0, y: 3 };
    let mut expected = editor.doc().clone();
    editor.handle_key_event(CONTROL, KeyCode::Other, 99_000_000_000, 99_000_000_000);
    expected.event_mgmt.undo.push(expected.event_mgmt.patch.clone());
    expected.event_mgmt.patch.clear();
    assert_eq!(*editor.doc(), expected);
}

#[test]
fn tab_key_with_tabs() {
    let mut editor = editor();
    editor.config.document.indentation = Indentation::Tabs;
    assert_eq!(editor.handle_tab().text, vec!['\t']);
    editor.config.document.indentation = Indentation::Spaces;
    assert_eq!(editor.handle_tab().text, vec![' ', ' ', ' ']);
    editor.config.document.tab_width = 0;
    assert!(editor.handle_tab().text.is_empty());
}

#[test]
fn paste_types_and_commits() {
    let mut editor = editor();
    let mut typing = editor.handle_paste("hé\n");
    assert_eq!(editor.type_next(&mut typing, Ok(())).unwrap(), Some('h'));
    assert_eq!(editor.type_next(&mut typing, Ok(())).unwrap(), Some('é'));
    assert_eq!(editor.type_next(&mut typing, Ok(())).unwrap(), Some('\n'));
    assert_eq!(undo_len(&editor), 0);
    assert_eq!(editor.type_next(&mut typing, Ok(())).unwrap(), None);
    assert_eq!(undo_len(&editor), 1);
}

#[test]
fn paste_of_nothing_commits() {
    let mut editor = editor();
    let mut typing = editor.handle_paste("");
    assert_eq!(editor.type_next(&mut typing, Ok(())).unwrap(), None);
    assert_eq!(undo_len(&editor), 1);
}

#[test]
fn typing_stops_at_a_failure() {
    let mut editor = editor();
    let mut typing = editor.handle_paste("ab");
    assert_eq!(editor.type_next(&mut typing, Ok(())).unwrap(), Some('a'));
    let failed = editor.type_next(&mut typing, Err(OxError::Interface("full".to_string())));
    assert!(matches!(failed, Err(OxError::Interface(text)) if text == "full"));
    assert_eq!(typing.at, 1);
    assert_eq!(undo_len(&editor), 0);
}

#[test]
fn typing_without_commit() {
    let mut editor = editor();
    let mut typing = Typing { text: vec!['a'], at: 0, commit: false };
    assert_eq!(editor.type_next(&mut typing, Ok(())).unwrap(), Some('a'));
    assert_eq!(editor.type_next(&mut typing, Ok(())).unwrap(), None);
    assert_eq!(undo_len(&editor), 0);
}

#[test]
fn events_call_for_work() {
    let mut editor = editor();
    let t = 1_000_000_000;
    let mut work = editor.handle_event(InputEvent::Key(PLAIN, KeyCode::Char('x')), t, t);
    assert_eq!(work.len(), 2);
    assert_eq!(typed(work.pop()), ("x".to_string(), false));
    assert!(matches!(work[0], Work::RegisterMacro));
    let work = editor.handle_event(InputEvent::Key(CONTROL, KeyCode::Other), t, t);
    assert_eq!(work.len(), 1);
    let mut work = editor.handle_event(InputEvent::Paste("hi".to_string()), t, t);
    assert_eq!(typed(work.pop()), ("hi".to_string(), true));
    assert_eq!(work.len(), 1);
    let work = editor.handle_event(InputEvent::Resize(10, 20), t, t);
    assert_eq!(work.len(), 2);
    assert!(matches!(work[0], Work::RegisterMacro));
    assert!(matches!(work[1], Work::Render));
    let work = editor.handle_event(mouse(MouseEventKind::Down(MouseButton::Left)), t, t);
    assert_eq!(work.len(), 2);
    assert!(matches!(work[1], Work::Mouse(m) if m.column == 4 && m.row == 5));
    assert_eq!(editor.handle_event(InputEvent::FocusGained, t, t).len(), 1);
    assert_eq!(editor.handle_event(InputEvent::FocusLost, t, t).len(), 1);
}

#[test]
fn mouse_movement_draws_nothing() {
    let mut editor = editor();
    editor.handle_event(mouse(MouseEventKind::Moved), 0, 0);
    assert!(!editor.needs_rerender);
    editor.handle_event(InputEvent::FocusLost, 0, 0);
    assert!(editor.needs_rerender);
    editor.handle_event(mouse(MouseEventKind::Moved), 0, 0);
    assert!(!editor.needs_rerender);
    editor.handle_event(mouse(MouseEventKind::ScrollUp), 0, 0);
    assert!(editor.needs_rerender);
    // Only keys count as activity
    assert_eq!(editor.last_active, 1_000_000_000);
}

#[test]
fn configuration_is_taken_over() {
    let mut editor = editor();
    let mut values = config();
    values.tab_line.enabled = false;
    values.document.tab_width = 9;
    assert!(editor.load_config("/home/.oxrc", Ok(()), values).is_none());
    assert_eq!(editor.config_path, "/home/.oxrc");
    assert_eq!(editor.push_down, 0);
    assert_eq!(editor.config.document.tab_width, 9);
    assert!(matches!(editor.feedback, Feedback::Silent));
    values.tab_line.enabled = true;
    assert!(editor.load_config("/home/.oxrc", Ok(()), values).is_none());
    assert_eq!(editor.push_down, 1);
}

#[test]
fn missing_configuration_is_a_warning() {
    let mut editor = editor();
    let mut values = config();
    values.tab_line.enabled = false;
    let missing = Err(OxError::Config { msg: "Not Found".to_string() });
    assert!(editor.load_config("x", missing, values).is_none());
    assert!(matches!(
        &editor.feedback,
        Feedback::Warning(text)
            if text == "No configuration file found, using default configuration"
    ));
    assert_eq!(editor.push_down, 0);
}

#[test]
fn other_configuration_errors_are_silent() {
    let mut editor = editor();
    let broken = Err(OxError::Config { msg: "not found".to_string() });
    assert!(editor.load_config("x", broken, config()).is_none());
    assert!(matches!(editor.feedback, Feedback::Silent));
}

#[test]
fn failing_script_is_handed_on() {
    let mut editor = editor();
    let mut values = config();
    values.tab_line.enabled = false;
    let failed = Err(OxError::Lua(mlua::Error::RuntimeError("oops".to_string())));
    let handed_on = editor.load_config("x", failed, values);
    assert!(matches!(handed_on, Some(mlua::Error::RuntimeError(text)) if text == "oops"));
    assert_eq!(editor.config_path, "x");
    // The row of the tab line stays as it was
    assert_eq!(editor.push_down, 1);
}

#[test]
fn resize_draws() {
    assert!(matches!(editor().handle_resize(), Work::Render));
}
