//! Saving and closing documents.
use kaolinite::event::Event;
use kaolinite::{Document, Loc};
use ox::config::{Config, DocumentConfig, GreetingMessage, Indentation, TabLine};
use ox::container::{FileContainer, FileType, Identified};
use ox::editor::Editor;
use ox::error::{DocumentError, OxError};
use ox::layout::{Direction, FileLayout};
use ox::saving::SaveAll;
use ox::ui::{Feedback, Size};
use synoptic::Highlighter;

fn editor() -> Editor {
    let config = Config {
        document: DocumentConfig { tab_width: 4, indentation: Indentation::Tabs, undo_period: 10 },
        greeting_message: GreetingMessage { enabled: false },
        tab_line: TabLine { enabled: false },
    };
    Editor::new(Ok(config), 0).unwrap()
}

/// A document with an edit that is not committed.
fn file(name: &str) -> FileContainer {
    let mut doc = Document::new(kaolinite::Size { w: 10, h: 10 });
    doc.exe(Event::Insert(Loc { x: 0, y: 0 }, "fn".to_string())).unwrap();
    doc.modified = false;
    if !name.is_empty() {
        doc.file_name = Some(name.to_string());
    }
    FileContainer { doc, highlighter: Highlighter::new(4), file_type: None, path: None }
}

fn with(names: &[&str], ptr: usize) -> Editor {
    let mut editor = editor();
    editor.files = FileLayout::Atom(names.iter().map(|n| file(n)).collect(), ptr);
    editor
}

fn rust() -> Option<Identified> {
    let mut highlighter = Highlighter::new(4);
    highlighter.keyword("keyword", "fn");
    Some(Identified { file_type: FileType { name: "Rust".to_string() }, highlighter })
}

fn names(editor: &Editor) -> Vec<String> {
    let (files, _) = editor.files.get_atom(&editor.ptr).unwrap();
    files.iter().map(|f| f.doc.file_name.clone().unwrap_or_default()).collect()
}

fn info(editor: &Editor) -> String {
    match &editor.feedback {
        Feedback::Info(text) => text.clone(),
        _ => panic!("no information"),
    }
}

fn failure() -> OxError {
    OxError::Kaolinite(DocumentError::NoFileName)
}

#[test]
fn save_reports() {
    let mut editor = with(&["/a", "/b"], 1);
    assert!(editor.save(Ok(Some("/x/b".to_string()))).is_ok());
    assert_eq!(info(&editor), "Document saved successfully");
    let (files, _) = editor.files.get_atom(&editor.ptr).unwrap();
    assert!(files[0].path.is_none());
    assert_eq!(files[1].path.as_deref(), Some("/x/b"));
    assert!(editor.save(Ok(None)).is_ok());
    assert_eq!(editor.already_open("/x/b"), Some((vec![], 1)));
}

#[test]
fn save_fails() {
    let mut editor = with(&[""], 0);
    let failed = editor.save(Err(failure()));
    assert!(matches!(failed, Err(OxError::Kaolinite(DocumentError::NoFileName))));
    assert!(matches!(editor.feedback, Feedback::Silent));
}

#[test]
fn save_as_names_the_document() {
    let mut editor = with(&["/a", ""], 1);
    editor.doc_mut().modified = true;
    assert!(editor.can_highlight_current(&rust()));
    editor.save_as("b.rs".to_string(), Ok(Some("/x/b.rs".to_string())), rust()).unwrap();
    assert_eq!(info(&editor), "Document saved as b.rs successfully");
    assert_eq!(names(&editor), vec!["/a", "b.rs"]);
    // Whether it counts as saved is for the document itself to say
    assert!(editor.quit_question().is_some());
    let file = editor.files.get(&editor.ptr).unwrap();
    assert_eq!(file.path.as_deref(), Some("/x/b.rs"));
    assert!(file.doc.modified);
    assert_eq!(file.highlighter.tokens.len(), 1);
    assert!(file.file_type.is_none());
    assert!(file.doc.event_mgmt.patch.is_empty());
    assert_eq!(file.doc.event_mgmt.undo.len(), 1);
}

#[test]
fn save_as_names_the_saved_document() {
    let mut editor = with(&["", "/b"], 0);
    editor.save_as("c".to_string(), Ok(Some("/x/c".to_string())), None).unwrap();
    assert_eq!(names(&editor), vec!["c", "/b"]);
    let (files, _) = editor.files.get_atom(&editor.ptr).unwrap();
    assert_eq!(files[0].path.as_deref(), Some("/x/c"));
    assert_eq!(files[0].doc.event_mgmt.undo.len(), 1);
    assert_eq!(files[0].doc.lines, vec!["fn".to_string(), "".to_string()]);
    assert_eq!(files[0].highlighter.line_ref, vec![Vec::<usize>::new(), vec![]]);
    assert!(files[1].doc.event_mgmt.undo.is_empty());
    assert!(files[1].path.is_none());
    assert!(files[1].highlighter.line_ref.is_empty());
}

#[test]
fn save_as_keeps_a_name() {
    let mut editor = with(&["/a", "/b"], 0);
    editor.save_as("c".to_string(), Ok(Some("/x/c".to_string())), rust()).unwrap();
    assert_eq!(names(&editor), vec!["/a", "/b"]);
    let (files, _) = editor.files.get_atom(&editor.ptr).unwrap();
    assert!(files[0].path.is_none() && files[1].path.is_none());
    assert!(files[0].highlighter.atom_def.is_empty());
    assert_eq!(files[0].doc.event_mgmt.undo.len(), 1);
    assert!(editor.save_as("d".to_string(), Err(failure()), None).is_err());
    assert_eq!(info(&editor), "Document saved as c successfully");
}

#[test]
fn save_all_documents() {
    let mut editor = with(&["/a", "/b"], 0);
    let mut run = SaveAll { next: 0 };
    assert_eq!(editor.save_all(&mut run, Ok(None)).unwrap(), Some(0));
    assert_eq!(editor.get_doc(0).event_mgmt.undo.len(), 0);
    assert_eq!(editor.save_all(&mut run, Ok(Some("/x/a".to_string()))).unwrap(), Some(1));
    assert_eq!(editor.get_doc(0).event_mgmt.undo.len(), 1);
    assert_eq!(editor.get_doc(1).event_mgmt.undo.len(), 0);
    assert_eq!(editor.save_all(&mut run, Ok(None)).unwrap(), None);
    assert_eq!(editor.get_doc(1).event_mgmt.undo.len(), 1);
    assert_eq!(info(&editor), "Saved all documents");
    assert_eq!(editor.already_open("/x/a"), Some((vec![], 0)));
}

#[test]
fn save_all_stops_at_a_failure() {
    let mut editor = with(&["/a", "/b"], 0);
    let mut run = SaveAll { next: 0 };
    assert_eq!(editor.save_all(&mut run, Ok(None)).unwrap(), Some(0));
    assert!(editor.save_all(&mut run, Err(failure())).is_err());
    assert_eq!(run.next, 1);
    assert_eq!(editor.get_doc(0).event_mgmt.undo.len(), 0);
    assert!(matches!(editor.feedback, Feedback::Silent));
}

/// Two atoms side by side, the second of which is being edited.
fn split() -> Editor {
    let mut editor = editor();
    editor.files = FileLayout::Split(
        Direction::SideBySide,
        vec![
            FileLayout::Atom(vec![file("/a"), file("/b")], 1),
            FileLayout::Atom(vec![file("/c")], 0),
        ],
    );
    editor.ptr = vec![1];
    editor
}

#[test]
fn save_all_in_a_split() {
    let mut editor = split();
    let mut run = SaveAll { next: 0 };
    let mut saved = vec![];
    let mut last = Ok(None);
    while let Some(number) = editor.save_all(&mut run, last).unwrap() {
        let doc = editor.open_doc(number).unwrap();
        doc.modified = false;
        let name = doc.file_name.clone().unwrap();
        last = Ok(Some(format!("/x{}", name)));
        saved.push(name);
    }
    assert_eq!(saved, vec!["/a", "/b", "/c"]);
    assert_eq!(info(&editor), "Saved all documents");
    for number in 0..3 {
        assert_eq!(editor.open_doc(number).unwrap().event_mgmt.undo.len(), 1);
    }
    assert!(editor.open_doc(3).is_none());
    assert_eq!(editor.already_open("/x/b"), Some((vec![0], 1)));
    assert_eq!(editor.already_open("/x/c"), Some((vec![1], 0)));
    assert_eq!(editor.doc().file_name.as_deref(), Some("/c"));
    assert_eq!(editor.files.get_atom(&vec![0]).unwrap().1, 1);
}

#[test]
fn documents_of_a_split_are_counted() {
    let mut editor = split();
    assert_eq!(editor.doc_len(), 3);
    editor.open_doc(1).unwrap().read_only = true;
    assert!(editor.files.get(&vec![0]).unwrap().doc.read_only);
    assert!(!editor.doc().read_only);
    editor.files = FileLayout::Empty;
    assert_eq!(editor.doc_len(), 0);
}

#[test]
fn save_all_of_nothing() {
    let mut editor = editor();
    editor.files = FileLayout::Empty;
    let mut run = SaveAll { next: 0 };
    assert_eq!(editor.save_all(&mut run, Ok(None)).unwrap(), None);
    assert_eq!(info(&editor), "Saved all documents");
}

#[test]
fn quit_saved_document() {
    let mut editor = with(&["/a", "/b", "/c"], 1);
    assert_eq!(editor.quit_question(), None);
    // Without a question the answer does not matter
    assert_eq!(editor.quit(Err(failure())).unwrap(), Some("/a".to_string()));
    assert_eq!(names(&editor), vec!["/a", "/c"]);
    assert_eq!(editor.doc().file_name.as_deref(), Some("/a"));
    assert_eq!(editor.quit(Ok(false)).unwrap(), None);
    assert_eq!(names(&editor), vec!["/c"]);
    assert!(editor.active);
    assert_eq!(editor.quit(Ok(false)).unwrap(), None);
    assert!(!editor.active);
    assert!(matches!(editor.files, FileLayout::Empty));
    assert!(editor.ptr.is_empty());
    assert_eq!(editor.quit(Ok(true)).unwrap(), None);
    assert!(!editor.active);
}

#[test]
fn quit_unsaved_document() {
    let mut editor = with(&["/a", "/b"], 1);
    editor.doc_mut().modified = true;
    assert_eq!(
        editor.quit_question().unwrap(),
        "This document isn't saved, press Ctrl + Q to force quit or Esc to cancel"
    );
    assert!(editor.quit(Err(OxError::Interface("cancelled".to_string()))).is_err());
    assert_eq!(names(&editor), vec!["/a", "/b"]);
    assert_eq!(editor.quit(Ok(false)).unwrap(), None);
    assert_eq!(names(&editor), vec!["/a", "/b"]);
    assert!(editor.active);
    assert_eq!(editor.quit(Ok(true)).unwrap(), Some("/a".to_string()));
    assert_eq!(names(&editor), vec!["/a"]);
}

#[test]
fn quit_closes_an_atom() {
    let mut editor = split();
    assert_eq!(editor.quit(Ok(false)).unwrap(), None);
    assert!(editor.active);
    assert!(editor.ptr.is_empty());
    assert_eq!(names(&editor), vec!["/a", "/b"]);
}

#[test]
fn quit_undoes_new_document() {
    let mut editor = with(&["/a", "/b", "/c"], 1);
    editor.new_document(Ok(Size { w: 80, h: 24 })).unwrap();
    assert_eq!(names(&editor), vec!["/a", "/b", "", "/c"]);
    assert!(editor.quit_question().is_some());
    assert_eq!(editor.quit(Ok(true)).unwrap(), Some("/b".to_string()));
    assert_eq!(names(&editor), vec!["/a", "/b", "/c"]);
    assert_eq!(editor.doc().file_name.as_deref(), Some("/b"));
    assert!(editor.active);
}
