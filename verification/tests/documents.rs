//! Creating and opening documents.
use kaolinite::Document;
use ox::config::{Config, DocumentConfig, GreetingMessage, Indentation, TabLine};
use ox::container::{FileType, Identified, Opened, Target};
use ox::directory::directory_of;
use ox::document::{cached_lines_fit, line_fits, lines_to_load_fit};
use ox::editor::Editor;
use ox::error::{DocumentError, IoError, OxError};
use ox::highlight::Rule;
use ox::layout::FileLayout;
use ox::ui::{Feedback, Size};
use synoptic::Highlighter;

fn config(tab_width: usize) -> Config {
    Config {
        document: DocumentConfig { tab_width, indentation: Indentation::Spaces, undo_period: 10 },
        greeting_message: GreetingMessage { enabled: true },
        tab_line: TabLine { enabled: true },
    }
}

fn editor(tab_width: usize) -> Editor {
    Editor::new(Ok(config(tab_width)), 7).unwrap()
}

fn size() -> Size {
    Size { w: 80, h: 24 }
}

/// A document as it is right after its file was read.
fn text(name: &str, contents: &str) -> Document {
    let mut doc = Document::new(kaolinite::Size { w: 80, h: 22 });
    doc.file.remove(0..1);
    doc.file.insert(0, contents);
    doc.lines = vec![];
    doc.loaded_to = 0;
    doc.file_name = Some(name.to_string());
    doc
}

fn opened(name: &str, contents: &str) -> Result<Opened, OxError> {
    Ok(Opened { size: size(), doc: text(name, contents), identified: None })
}

fn target(path: &str, label: &str) -> Target {
    Target { path: Some(path.to_string()), label: Some(label.to_string()) }
}

fn nowhere() -> Target {
    Target { path: None, label: None }
}

fn not_found() -> OxError {
    OxError::Kaolinite(DocumentError::Io(IoError::NotFound))
}

fn rust(tab_width: usize) -> Identified {
    let mut highlighter = Highlighter::new(tab_width);
    highlighter.keyword("keyword", "\\bfn\\b");
    Identified { file_type: FileType { name: "Rust".to_string() }, highlighter }
}

/// The names of the documents of the atom that is being edited, and the number of the one shown.
fn tabs(editor: &Editor) -> (Vec<Option<String>>, usize) {
    let (files, ptr) = editor.files.get_atom(&editor.ptr).unwrap();
    (files.iter().map(|f| f.doc.file_name.clone()).collect(), ptr)
}

fn named(names: &[&str]) -> Vec<Option<String>> {
    names.iter().map(|n| if n.is_empty() { None } else { Some(n.to_string()) }).collect()
}

#[test]
fn new_editor() {
    let editor = editor(4);
    assert!(editor.active);
    assert!(!editor.greet);
    assert!(editor.needs_rerender);
    assert!(matches!(editor.feedback, Feedback::Silent));
    assert!(editor.command.is_none());
    assert_eq!(editor.last_active, 7);
    assert_eq!(editor.push_down, 1);
    assert_eq!(editor.config_path, "~/.oxrc");
    assert!(!editor.plugin_active);
    assert!(editor.last_click.is_none());
    assert!(editor.alt_click_state.is_none());
    assert!(editor.ptr.is_empty());
    assert!(matches!(&editor.files, FileLayout::Atom(files, 0) if files.is_empty()));
    assert!(editor.try_doc().is_none());
    assert_eq!(editor.doc_len(), 0);
}

#[test]
fn new_editor_without_configuration() {
    let failed = Editor::new(Err(OxError::Config { msg: "broken".to_string() }), 0);
    assert!(matches!(failed, Err(OxError::Config { msg }) if msg == "broken"));
}

#[test]
fn viewport_leaves_room() {
    let mut editor = editor(4);
    assert_eq!(editor.viewport(size()), Size { w: 80, h: 22 });
    editor.push_down = 0;
    assert_eq!(editor.viewport(size()), Size { w: 80, h: 23 });
    assert_eq!(editor.viewport(Size { w: 3, h: 0 }), Size { w: 3, h: 0 });
}

#[test]
fn blank_document() {
    let mut editor = editor(8);
    assert!(editor.blank(Ok(size())).is_ok());
    assert_eq!(tabs(&editor), (named(&[""]), 0));
    let doc = editor.doc();
    assert_eq!(doc.tab_width, 8);
    assert_eq!(doc.size, kaolinite::Size { w: 80, h: 22 });
    assert!(doc.modified);
    assert_eq!(doc.lines, vec!["".to_string(), "".to_string()]);
    assert_eq!(doc.loaded_to, 2);
    let file = editor.files.get(&editor.ptr).unwrap();
    assert_eq!(file.highlighter.tab_width, 4);
    assert_eq!(file.highlighter.line_ref.len(), 2);
    assert!(file.highlighter.tokens.is_empty());
    assert_eq!(file.file_type.as_ref().unwrap().name, "Unknown");
    assert!(file.path.is_none());
}

#[test]
fn blank_document_on_a_tiny_terminal() {
    let mut editor = editor(4);
    assert!(editor.blank(Ok(Size { w: 80, h: 2 })).is_ok());
    assert_eq!(editor.doc().lines, vec!["".to_string()]);
    assert_eq!(editor.doc().loaded_to, 1);
}

#[test]
fn blank_document_without_a_terminal() {
    let mut editor = editor(4);
    let failed = editor.blank(Err(OxError::Interface("no terminal".to_string())));
    assert!(matches!(failed, Err(OxError::Interface(text)) if text == "no terminal"));
    assert_eq!(editor.doc_len(), 0);
}

#[test]
fn blank_does_not_move() {
    let mut editor = editor(4);
    editor.open(target("/a", "a"), opened("/a", "a\n")).unwrap();
    editor.open(target("/b", "b"), opened("/b", "b\n")).unwrap();
    assert!(editor.blank(Ok(size())).is_ok());
    assert_eq!(tabs(&editor), (named(&["/a", "", "/b"]), 0));
}

#[test]
fn blank_into_nothing() {
    let mut editor = editor(4);
    editor.files = FileLayout::Empty;
    assert!(editor.blank(Ok(size())).is_ok());
    assert_eq!(tabs(&editor), (named(&[""]), 0));
    assert!(editor.try_doc().is_some());
}

#[test]
fn new_document_into_nothing() {
    let mut editor = editor(4);
    editor.files = FileLayout::Empty;
    assert_eq!(editor.new_document(Ok(size())).unwrap(), None);
    assert_eq!(tabs(&editor), (named(&[""]), 0));
    assert!(editor.doc().file_name.is_none());
}

#[test]
fn new_if_empty_into_nothing() {
    let mut editor = editor(4);
    editor.files = FileLayout::Empty;
    assert!(editor.new_if_empty(Ok(size())).is_ok());
    assert_eq!(editor.doc_len(), 1);
    assert!(editor.try_doc().is_some());
    assert!(editor.greet);
}

#[test]
fn validity() {
    let mut editor = editor(4);
    assert!(editor.is_valid());
    editor.ptr = vec![0];
    assert!(!editor.is_valid());
    editor.files = FileLayout::Empty;
    assert!(!editor.is_valid());
    editor.ptr = vec![];
    assert!(editor.is_valid());
    editor.push_down = usize::MAX;
    assert!(!editor.is_valid());
    editor.push_down = 1;
    editor.files = FileLayout::Atom(vec![], 1);
    assert!(!editor.is_valid());
}

#[test]
fn new_document_moves() {
    let mut editor = editor(4);
    assert_eq!(editor.new_document(Ok(size())).unwrap(), None);
    assert_eq!(tabs(&editor), (named(&[""]), 0));
    editor.open(target("/a", "a"), opened("/a", "a\n")).unwrap();
    assert_eq!(editor.new_document(Ok(size())).unwrap(), Some(String::new()));
    assert_eq!(tabs(&editor), (named(&["", "", "/a"]), 1));
    assert!(editor.new_document(Err(not_found())).is_err());
    assert_eq!(editor.doc_len(), 3);
}

#[test]
fn new_if_empty_creates_once() {
    let mut editor = editor(4);
    assert!(editor.new_if_empty(Err(not_found())).is_err());
    assert!(!editor.greet);
    assert!(editor.new_if_empty(Ok(size())).is_ok());
    assert!(editor.greet);
    assert_eq!(editor.doc_len(), 1);
    editor.greet = false;
    assert!(editor.new_if_empty(Err(not_found())).is_ok());
    assert!(!editor.greet);
    assert_eq!(editor.doc_len(), 1);
}

#[test]
fn new_if_empty_without_greeting() {
    let mut editor = editor(4);
    editor.config.greeting_message.enabled = false;
    editor.greet = true;
    assert!(editor.new_if_empty(Ok(size())).is_ok());
    assert!(!editor.greet);
}

#[test]
fn open_reads_the_visible_lines() {
    let mut editor = editor(3);
    let mut read = opened("/a", "one\r\ntwo\nthree\nfour").unwrap_or_else(|_| unreachable!());
    read.size = Size { w: 80, h: 4 };
    editor.open(target("/a", "a"), Ok(read)).unwrap();
    let doc = editor.doc();
    assert_eq!(doc.lines, vec!["one".to_string(), "two".to_string()]);
    assert_eq!(doc.loaded_to, 2);
    assert_eq!(doc.tab_width, 3);
    assert!(!doc.modified);
    let file = editor.files.get(&editor.ptr).unwrap();
    assert_eq!(file.highlighter.tab_width, 3);
    assert_eq!(file.highlighter.atoms.len(), 2);
    assert!(file.file_type.is_none());
    assert_eq!(file.path.as_deref(), Some("/a"));
}

#[test]
fn open_notes_tabs_and_wide_characters() {
    let mut editor = editor(3);
    editor.open(target("/a", "a"), opened("/a", "\ta\tb\nplain\n\u{4f60}\t\n")).unwrap();
    let doc = editor.doc();
    assert_eq!(doc.tab_map.get(0), Some(&vec![(0, 0), (4, 2)]));
    assert_eq!(doc.tab_map.get(1), None);
    assert_eq!(doc.tab_map.get(2), Some(&vec![(2, 1)]));
    assert_eq!(doc.tab_map.get(3), None);
    assert_eq!(doc.dbl_map.get(0), None);
    assert_eq!(doc.dbl_map.get(2), Some(&vec![(0, 0)]));
}

#[test]
fn blank_documents_have_no_notes() {
    let mut editor = editor(3);
    editor.blank(Ok(size())).unwrap();
    assert!(editor.doc().tab_map.map.is_empty());
    assert!(editor.doc().dbl_map.map.is_empty());
}

#[test]
fn directories_of_files() {
    let directory = |path: &str| directory_of(Some(path.to_string()));
    assert_eq!(directory("/home/me/a.txt").as_deref(), Some("/home/me"));
    assert_eq!(directory("/a.txt").as_deref(), Some("/"));
    assert_eq!(directory("/home/.config/.oxrc").as_deref(), Some("/home/.config"));
    assert_eq!(directory("/a/..").as_deref(), Some("/a"));
    assert_eq!(directory("/"), None);
    assert_eq!(directory(""), None);
    assert_eq!(directory_of(None), None);
}

#[test]
fn what_was_read_does_not_matter_if_the_file_is_open() {
    let mut editor = editor(usize::MAX);
    editor.open(target("/a", "a"), opened("/a", "a\n")).unwrap();
    // The columns of this one would not fit
    let read = Opened { size: size(), doc: text("/a", "\t\ta\n"), identified: None };
    assert!(!editor.can_load(&read));
    let refused = editor.open(target("/a", "a"), Ok(read));
    assert!(matches!(refused, Err(OxError::AlreadyOpen { file }) if file == "a"));
}

#[test]
fn open_highlights() {
    let mut editor = editor(4);
    let read = Opened {
        size: size(),
        doc: text("/a.rs", "fn main() {}\n// fn\n\n"),
        identified: Some(rust(4)),
    };
    assert!(editor.can_load(&read));
    editor.open(target("/a.rs", "a.rs"), Ok(read)).unwrap();
    let file = editor.files.get(&editor.ptr).unwrap();
    assert_eq!(file.file_type.as_ref().unwrap().name, "Rust");
    assert_eq!(file.highlighter.tokens.len(), 2);
    assert_eq!(file.highlighter.line_ref, vec![vec![0], vec![1], vec![], vec![]]);
}

#[test]
fn open_comes_after_the_current_document() {
    let mut editor = editor(4);
    editor.open(target("/a", "a"), opened("/a", "a\n")).unwrap();
    editor.open(target("/b", "b"), opened("/b", "b\n")).unwrap();
    editor.open(target("/c", "c"), opened("/c", "c\n")).unwrap();
    assert_eq!(tabs(&editor), (named(&["/a", "/c", "/b"]), 0));
}

#[test]
fn open_into_nothing() {
    let mut editor = editor(4);
    editor.files = FileLayout::Empty;
    editor.open(target("/a", "a"), opened("/a", "a\n")).unwrap();
    assert_eq!(tabs(&editor), (named(&["/a"]), 0));
}

#[test]
fn open_what_cannot_be_read() {
    let mut editor = editor(4);
    let failed = editor.open(nowhere(), Err(OxError::Kaolinite(DocumentError::ReadOnlyFile)));
    assert!(matches!(failed, Err(OxError::Kaolinite(DocumentError::ReadOnlyFile))));
    assert_eq!(editor.doc_len(), 0);
}

#[test]
fn open_twice() {
    let mut editor = editor(4);
    editor.open(target("/x/a", "a"), opened("/x/a", "a\n")).unwrap();
    editor.open(target("/x/b", "b"), opened("/x/b", "b\n")).unwrap();
    assert_eq!(editor.already_open("/x/b"), Some((vec![], 1)));
    assert_eq!(editor.already_open("/x/c"), None);
    let refused = editor.open(target("/x/b", "b"), opened("/x/b", "b\n"));
    assert!(matches!(refused, Err(OxError::AlreadyOpen { file }) if file == "b"));
    assert_eq!(tabs(&editor), (named(&["/x/a", "/x/b"]), 1));
    // What reading the file has given does not matter then
    let refused = editor.open_fc(target("/x/a", "a"), Err(not_found()));
    assert!(matches!(refused, Err(OxError::AlreadyOpen { file }) if file == "a"));
    assert_eq!(tabs(&editor), (named(&["/x/a", "/x/b"]), 0));
    let refused = editor.open_or_new(
        "/x/b".to_string(),
        Target { path: Some("/x/b".to_string()), label: None },
        Err(not_found()),
        Ok(size()),
        None,
    );
    assert!(matches!(refused, Err(OxError::AlreadyOpen { file }) if file.is_empty()));
    assert_eq!(tabs(&editor), (named(&["/x/a", "/x/b"]), 1));
}

#[test]
fn open_document_moves() {
    let mut editor = editor(4);
    let moved = editor.open_document(target("/a", "a"), opened("/a", "a\n")).unwrap();
    assert_eq!(moved, (None, "/a".to_string()));
    let moved = editor.open_document(target("/b", "b"), opened("/b", "b\n")).unwrap();
    assert_eq!(moved, (Some("/b".to_string()), "/b".to_string()));
    assert_eq!(tabs(&editor), (named(&["/a", "/b"]), 1));
    assert!(editor.open_document(nowhere(), Err(not_found())).is_err());
    assert_eq!(tabs(&editor), (named(&["/a", "/b"]), 1));
}

#[test]
fn open_or_new_opens() {
    let mut editor = editor(4);
    editor
        .open_or_new(
            "/a".to_string(),
            target("/a", "a"),
            opened("/a", "a\n"),
            Err(not_found()),
            None,
        )
        .unwrap();
    assert_eq!(tabs(&editor), (named(&["/a"]), 0));
}

#[test]
fn open_or_new_creates() {
    let mut editor = editor(6);
    editor
        .open_or_new("new.rs".to_string(), nowhere(), Err(not_found()), Ok(size()), Some(rust(6)))
        .unwrap();
    assert_eq!(tabs(&editor), (named(&["new.rs"]), 0));
    let file = editor.files.get(&editor.ptr).unwrap();
    assert!(file.doc.modified);
    assert_eq!(file.doc.tab_width, 6);
    assert_eq!(file.file_type.as_ref().unwrap().name, "Rust");
    assert_eq!(file.highlighter.tab_width, 6);
    assert_eq!(file.highlighter.atoms.len(), 2);
    assert!(file.path.is_none());
}

#[test]
fn open_or_new_names_the_new_document() {
    let mut editor = editor(4);
    editor.open(target("/a", "a"), opened("/a", "fn\n")).unwrap();
    editor.open(target("/b", "b"), opened("/b", "fn\n")).unwrap();
    editor
        .open_or_new("new".to_string(), nowhere(), Err(not_found()), Ok(size()), Some(rust(4)))
        .unwrap();
    assert_eq!(tabs(&editor), (named(&["/a", "new", "/b"]), 0));
    let (files, _) = editor.files.get_atom(&editor.ptr).unwrap();
    assert_eq!(files[1].file_type.as_ref().unwrap().name, "Rust");
    assert_eq!(files[1].highlighter.atom_def.len(), 1);
    assert!(files[1].path.is_none());
    assert!(files[1].doc.modified);
    assert_eq!(files[2].path.as_deref(), Some("/b"));
    assert!(files[2].file_type.is_none());
    assert!(files[2].highlighter.atom_def.is_empty());
    assert_eq!(editor.already_open("/b"), Some((vec![], 2)));
}

#[test]
fn open_or_new_into_nothing() {
    let mut editor = editor(4);
    editor.files = FileLayout::Empty;
    editor
        .open_or_new("new".to_string(), nowhere(), Err(not_found()), Ok(size()), None)
        .unwrap();
    assert_eq!(tabs(&editor), (named(&["new"]), 0));
    assert_eq!(editor.doc_len(), 1);
    assert_eq!(editor.doc().file_name.as_deref(), Some("new"));
}

#[test]
fn open_or_new_without_a_type() {
    let mut editor = editor(4);
    editor
        .open_or_new("new".to_string(), nowhere(), Err(not_found()), Ok(size()), None)
        .unwrap();
    let file = editor.files.get(&editor.ptr).unwrap();
    assert!(file.file_type.is_none());
    assert!(file.highlighter.atom_def.is_empty());
}

#[test]
fn open_or_new_fails() {
    let mut editor = editor(4);
    let failed = editor.open_or_new(
        "new".to_string(),
        nowhere(),
        Err(not_found()),
        Err(OxError::Interface("no terminal".to_string())),
        None,
    );
    assert!(matches!(failed, Err(OxError::Interface(_))));
    let failed = editor.open_or_new(
        "new".to_string(),
        nowhere(),
        Err(OxError::Kaolinite(DocumentError::Io(IoError::Other("denied".to_string())))),
        Ok(size()),
        None,
    );
    assert!(matches!(
        failed,
        Err(OxError::Kaolinite(DocumentError::Io(IoError::Other(text)))) if text == "denied"
    ));
    assert_eq!(editor.doc_len(), 0);
}

#[test]
fn columns_that_do_not_fit() {
    assert!(line_fits("a\tb", 4));
    assert!(line_fits("", usize::MAX));
    assert!(line_fits("ab", usize::MAX));
    assert!(line_fits("\t", usize::MAX));
    assert!(!line_fits("\ta", usize::MAX));
    assert!(line_fits("\t\t", usize::MAX / 2));
    assert!(!line_fits("\t\t\t", usize::MAX / 2));
    let wide = text("/a", "one\n\ttwo\n");
    assert!(lines_to_load_fit(&wide, 1, usize::MAX));
    assert!(!lines_to_load_fit(&wide, 2, usize::MAX));
    assert!(!lines_to_load_fit(&wide, 99, usize::MAX));
    assert!(cached_lines_fit(&wide, usize::MAX));
    let mut loaded = wide.clone();
    loaded.load_to(9);
    assert!(lines_to_load_fit(&loaded, 9, usize::MAX));
    assert!(!cached_lines_fit(&loaded, usize::MAX));
    let mut editor = editor(usize::MAX);
    let read = Opened { size: size(), doc: wide.clone(), identified: None };
    assert!(!editor.can_load(&read));
    editor.config.document.tab_width = 4;
    assert!(editor.can_load(&read));
    let read = Opened { size: size(), doc: wide, identified: Some(rust(usize::MAX)) };
    assert!(!editor.can_load(&read));
    assert!(editor.can_highlight_current(&read.identified));
    editor.open(target("/a", "a"), opened("/a", "\tone\n")).unwrap();
    assert!(!editor.can_highlight_current(&read.identified));
    assert!(editor.can_highlight_current(&None));
}

#[test]
fn moving_between_documents() {
    let mut editor = editor(4);
    assert_eq!(editor.next(), None);
    assert_eq!(editor.prev(), None);
    editor.open(target("/a", "a"), opened("/a", "a\n")).unwrap();
    editor.open(target("/b", "b"), opened("/b", "b\n")).unwrap();
    assert_eq!(editor.update_cwd(), "/a");
    assert_eq!(editor.prev(), None);
    assert_eq!(editor.next(), Some("/b".to_string()));
    assert_eq!(editor.next(), None);
    assert_eq!(editor.doc().file_name.as_deref(), Some("/b"));
    assert_eq!(editor.try_doc().unwrap().file_name.as_deref(), Some("/b"));
    assert_eq!(editor.prev(), Some("/a".to_string()));
    assert_eq!(tabs(&editor), (named(&["/a", "/b"]), 0));
}

#[test]
fn changing_documents() {
    let mut editor = editor(4);
    assert!(editor.try_doc_mut().is_none());
    editor.open(target("/a", "a"), opened("/a", "a\n")).unwrap();
    editor.open(target("/b", "b"), opened("/b", "b\n")).unwrap();
    editor.doc_mut().read_only = true;
    editor.get_doc(1).tab_width = 2;
    editor.try_doc_mut().unwrap().file_name = Some("/c".to_string());
    let (files, _) = editor.files.get_atom(&editor.ptr).unwrap();
    assert!(files[0].doc.read_only);
    assert!(!files[1].doc.read_only);
    assert_eq!((files[0].doc.tab_width, files[1].doc.tab_width), (4, 2));
    assert_eq!(tabs(&editor).0, named(&["/c", "/b"]));
}

#[test]
fn highlighting_by_rules() {
    let file_type = || FileType { name: "Config".to_string() };
    let rules = vec![
        Rule::Keyword { name: "number".to_string(), pattern: "[0-9]+".to_string() },
        Rule::Bounded {
            name: "comment".to_string(),
            start: "<".to_string(),
            end: ">".to_string(),
            escapable: false,
        },
        Rule::Interpolated {
            name: "string".to_string(),
            start: "\"".to_string(),
            end: "\"".to_string(),
            pause: "\\{".to_string(),
            resume: "\\}".to_string(),
            escapable: true,
        },
    ];
    let identified = Identified::new(file_type(), &rules, 4);
    assert_eq!(identified.as_ref().unwrap().highlighter.tab_width, 4);
    assert_eq!(identified.as_ref().unwrap().highlighter.atom_def.len(), 6);
    assert_eq!(identified.as_ref().unwrap().highlighter.bounded_def.len(), 2);
    let mut editor = editor(4);
    let read = Opened { size: size(), doc: text("/a", "12 <a\nb> \"c {3} d\"\n"), identified };
    assert!(editor.can_load(&read));
    editor.open(target("/a", "a"), Ok(read)).unwrap();
    let file = editor.files.get(&editor.ptr).unwrap();
    assert_eq!(file.file_type.as_ref().unwrap().name, "Config");
    assert_eq!(file.highlighter.tokens.len(), 5);
    assert_eq!(file.highlighter.line_ref, vec![vec![0, 1], vec![1, 2, 3, 4], vec![]]);
}

#[test]
fn rules_that_are_refused() {
    let refused = |rule: Rule| {
        let mut highlighter = Highlighter::new(4);
        assert!(!rule.add_to(&mut highlighter));
        assert!(highlighter.atom_def.is_empty());
        let file_type = FileType { name: "Config".to_string() };
        assert!(Identified::new(file_type, &vec![rule], 4).is_none());
    };
    let text = |text: &str| text.to_string();
    refused(Rule::Keyword { name: text("a"), pattern: text("(") });
    refused(Rule::Bounded { name: text("a"), start: text("("), end: text("b"), escapable: true });
    refused(Rule::Bounded { name: text("a"), start: text("b"), end: text("["), escapable: true });
    let interpolated = |end: &str, pause: &str, resume: &str| Rule::Interpolated {
        name: text("a"),
        start: text("b"),
        end: text(end),
        pause: text(pause),
        resume: text(resume),
        escapable: false,
    };
    refused(interpolated("(", "c", "d"));
    refused(interpolated("b", "(", "d"));
    refused(interpolated("b", "c", "("));
    refused(interpolated("b", "c", "c"));
    assert!(interpolated("b", "c", "d").add_to(&mut Highlighter::new(4)));
}
