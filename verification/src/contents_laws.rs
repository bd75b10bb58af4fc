//! What documents hold, whatever was done to them.
use crate::container::{
    chars_of, chars_or_default, ContainerView, FileContainer, Identified, Opened, Target,
};
use crate::document::{
    columns_fit, document_view, line_notes, tab_count, without_break, DocumentView,
};
use crate::editor::Editor;
use crate::highlight::{
    highlighted, highlighter_view, is_regex, HighlighterView, Highlights, Rule, RuleView,
};
use crate::saving::newer_path;
use crate::ui::{Loc, Size};
use vstd::prelude::*;

verus! {

/// Of a line, what is cached is its start, up to the newlines and carriage returns that end it, and
/// none of those.
pub proof fn law_without_break(line: Seq<char>)
    ensures
        without_break(line).len() <= line.len(),
        without_break(line) == line.take(without_break(line).len() as int),
        forall|i: int|
            without_break(line).len() <= i < line.len() ==> #[trigger] line[i] == '\n' || line[i]
                == '\r',
        without_break(line).len() > 0 ==> without_break(line).last() != '\n' && without_break(
            line,
        ).last() != '\r',
    decreases line.len(),
{
    if line.len() > 0 && (line.last() == '\n' || line.last() == '\r') {
        let shorter = line.drop_last();
        law_without_break(shorter);
        assert(without_break(line) =~= line.take(without_break(line).len() as int));
        assert forall|i: int| without_break(line).len() <= i < line.len() implies #[trigger] line[i]
            == '\n' || line[i] == '\r' by {
            if i < line.len() - 1 {
                assert(shorter[i] == line[i]);
            }
        }
    } else {
        assert(line =~= line.take(line.len() as int));
    }
}

/// Loading lines changes nothing of a document but what is cached of it: the lines from the first
/// one that is not loaded on, as far as asked for and as far as there are any, come behind those
/// that are cached already, without what ends them.
pub proof fn law_loaded(doc: DocumentView, to: usize, y: int)
    ensures
        doc.loaded(to) == (DocumentView {
            lines: doc.loaded(to).lines,
            loaded_to: doc.loaded(to).loaded_to,
            tabs: doc.loaded(to).tabs,
            wide: doc.loaded(to).wide,
            ..doc
        }),
        to <= doc.loaded_to || doc.text.len() <= doc.loaded_to ==> doc.loaded(to) == doc,
        doc.loaded_to < to <= doc.text.len() ==> doc.loaded(to).loaded_to == to,
        doc.loaded_to < doc.text.len() <= to ==> doc.loaded(to).loaded_to == doc.text.len(),
        doc.loaded(to).lines.len() == doc.lines.len() + (doc.loaded(to).loaded_to - doc.loaded_to),
        doc.loaded(to).lines.take(doc.lines.len() as int) == doc.lines,
        doc.loaded_to <= y < to && y < doc.text.len() ==> {
            let line = doc.loaded(to).lines[doc.lines.len() + (y - doc.loaded_to)];
            &&& line.len() <= doc.text[y].len()
            &&& line == doc.text[y].take(line.len() as int)
            &&& forall|i: int|
                line.len() <= i < doc.text[y].len() ==> #[trigger] doc.text[y][i] == '\n'
                    || doc.text[y][i] == '\r'
            &&& line.len() > 0 ==> line.last() != '\n' && line.last() != '\r'
        },
{
    assert(doc.loaded(to).lines.take(doc.lines.len() as int) =~= doc.lines);
    if doc.loaded_to <= y < to && y < doc.text.len() {
        law_without_break(doc.text[y]);
    }
}

/// What is noted of the tabs and the wide characters of a line when it is loaded goes by the tab
/// width of the document, and what is noted of all other lines stays.
pub proof fn law_loaded_notes(doc: DocumentView, to: usize, y: usize)
    ensures
        doc.loaded_to <= y < to && y < doc.text.len() && doc.text[y as int].len() > 0 ==> {
            let notes = line_notes(doc.text[y as int], doc.tab_width);
            let now = doc.loaded(to);
            &&& notes.tabs.len() > 0 ==> now.tabs.dom().contains(y) && now.tabs[y] == notes.tabs
            &&& notes.wide.len() > 0 ==> now.wide.dom().contains(y) && now.wide[y] == notes.wide
            &&& notes.tabs.len() == 0 ==> (now.tabs.dom().contains(y)
                <==> doc.tabs.dom().contains(y))
            &&& notes.tabs.len() == 0 && doc.tabs.dom().contains(y) ==> now.tabs[y] == doc.tabs[y]
            &&& notes.wide.len() == 0 ==> (now.wide.dom().contains(y)
                <==> doc.wide.dom().contains(y))
            &&& notes.wide.len() == 0 && doc.wide.dom().contains(y) ==> now.wide[y] == doc.wide[y]
        },
        y < doc.loaded_to || y >= to || y >= doc.text.len() || doc.text[y as int].len() == 0 ==> {
            let now = doc.loaded(to);
            &&& now.tabs.dom().contains(y) <==> doc.tabs.dom().contains(y)
            &&& now.wide.dom().contains(y) <==> doc.wide.dom().contains(y)
            &&& doc.tabs.dom().contains(y) ==> now.tabs[y] == doc.tabs[y]
            &&& doc.wide.dom().contains(y) ==> now.wide[y] == doc.wide[y]
        },
{
}

/// A run of a highlighter changes nothing of it but what it has found. Without rules that is
/// nothing, line by line, and with rules what they find in these lines at its tab width.
pub proof fn law_after_run(highlighter: HighlighterView, lines: Seq<Seq<char>>)
    ensures
        highlighter.after_run(lines).rules == highlighter.rules,
        highlighter.after_run(lines).tab_width == highlighter.tab_width,
        highlighter.after_run(lines).intact == highlighter.intact,
        highlighter.rules.len() > 0 ==> highlighter.after_run(lines).found == highlighted(
            highlighter.rules,
            highlighter.tab_width,
            lines,
        ),
        highlighter.rules.len() == 0 ==> {
            let found = highlighter.after_run(lines).found;
            &&& found.tokens.len() == 0
            &&& found.atoms.len() == lines.len()
            &&& found.line_ref.len() == lines.len()
            &&& forall|i: int| 0 <= i < lines.len() ==> (#[trigger] found.atoms[i]).len() == 0
            &&& forall|i: int| 0 <= i < lines.len() ==> (#[trigger] found.line_ref[i]).len() == 0
        },
{
}

/// The highlighter of a document has the rules of the type that was recognised and its tab width,
/// or no rules and the given width if none was.
pub proof fn law_highlighter_of_type(identified: Option<Identified>, tab_width: usize)
    ensures
        ({
            let highlighter = Identified::highlighter_or_plain(identified, tab_width);
            match identified {
                Some(found) => highlighter == highlighter_view(found.highlighter),
                None => {
                    &&& highlighter.rules.len() == 0
                    &&& highlighter.tab_width == tab_width
                    &&& highlighter.intact
                },
            }
        }),
        match identified {
            Some(found) => Identified::name_of_type(identified) == Some(found.file_type.name@),
            None => Identified::name_of_type(identified) is None,
        },
{
}

/// A highlighter takes a rule exactly if all of its patterns are regular expressions, and if those
/// that interrupt a token and take it up again differ.
pub proof fn law_valid_rules(
    name: Seq<char>,
    start: Seq<char>,
    end: Seq<char>,
    pause: Seq<char>,
    resume: Seq<char>,
    escapable: bool,
)
    ensures
        (RuleView::Keyword { name, pattern: start }).valid() <==> is_regex(start),
        (RuleView::Bounded { name, start, end, escapable }).valid() <==> is_regex(start)
            && is_regex(end),
        (RuleView::Interpolated { name, start, end, pause, resume, escapable }).valid()
            <==> is_regex(start) && is_regex(end) && is_regex(pause) && is_regex(resume) && pause
            != resume,
{
}

/// A document has as many rows as the terminal has beyond the status line and the rows by which it
/// is pushed down, and all of its columns.
pub proof fn law_viewport(editor: Editor, size: Size)
    ensures
        editor.spec_viewport(size).w == size.w,
        size.h <= 1 + editor.push_down ==> editor.spec_viewport(size).h == 0,
        size.h > 1 + editor.push_down ==> editor.spec_viewport(size).h + 1 + editor.push_down
            == size.h,
{
}

/// A new document belongs to no file and counts as unsaved. It holds a single line break and
/// nothing was done to it yet: nothing to undo or redo, the cursor at the start. The empty line is
/// cached, and so is what follows the line break if it has the room.
pub proof fn law_blank_document(size: Size, tab_width: usize)
    ensures
        ({
            let file = ContainerView::blank(size, tab_width);
            let doc = file.doc;
            &&& doc.modified
            &&& doc.file_name is None
            &&& doc.text.len() == 2 && doc.text[0] == seq!['\n'] && doc.text[1].len() == 0
            &&& doc.lines.len() == (if size.h >= 2 { 2nat } else { 1nat })
            &&& forall|i: int| 0 <= i < doc.lines.len() ==> (#[trigger] doc.lines[i]).len() == 0
            &&& doc.loaded_to == doc.lines.len()
            &&& doc.size == size
            &&& doc.tab_width == tab_width
            &&& doc.patch.len() == 0 && doc.undo.len() == 0 && doc.redo.len() == 0
            &&& doc.cursor == (Loc { x: 0, y: 0 }) && doc.offset == (Loc { x: 0, y: 0 })
            &&& doc.char_ptr == 0 && doc.old_cursor == 0
            &&& !doc.read_only && !doc.in_redo
            &&& forall|y: usize| !(#[trigger] doc.tabs.dom().contains(y))
            &&& forall|y: usize| !(#[trigger] doc.wide.dom().contains(y))
            &&& file.highlighter.rules.len() == 0
            &&& file.highlighter.tab_width == 4
            &&& file.highlighter.found == Highlights::plain(doc.lines.len())
            &&& file.file_type == Some("Unknown"@)
            &&& file.path is None
        }),
{
    let start = DocumentView { tab_width, modified: true, ..DocumentView::fresh(size) };
    law_loaded(start, size.h, 1);
    assert forall|i: int|
        0 <= i < start.loaded(size.h).lines.len() implies (#[trigger] start.loaded(
        size.h,
    ).lines[i]).len() == 0 by {
        if i == 0 {
            assert(start.loaded(size.h).lines.take(1)[0] == start.lines[0]);
        }
    }
}

/// A document that comes in by being opened is the one that was read: it differs from the disk
/// exactly if that did, whatever its type, and text, name, cursor and history are the same. Only
/// its tab width is that of the configuration, and the lines that the terminal has rows for are
/// cached.
pub proof fn law_opened_document_is_what_was_read(
    editor: Editor,
    target: Target,
    opened: Opened,
    y: int,
)
    ensures
        ({
            let file = editor.container_of(target, opened);
            let read = document_view(opened.doc);
            &&& file.doc.modified == read.modified
            &&& file.doc == (DocumentView {
                lines: file.doc.lines,
                loaded_to: file.doc.loaded_to,
                tabs: file.doc.tabs,
                wide: file.doc.wide,
                tab_width: editor.config.document.tab_width,
                ..read
            })
            &&& file.doc.lines.len() == read.lines.len() + (file.doc.loaded_to - read.loaded_to)
            &&& file.doc.lines.take(read.lines.len() as int) == read.lines
            &&& read.loaded_to <= y < read.text.len() ==> (y < file.doc.loaded_to <==> y + 1
                + editor.push_down < opened.size.h)
            &&& read.loaded_to <= y < file.doc.loaded_to ==> file.doc.lines[read.lines.len() + (y
                - read.loaded_to)] == without_break(read.text[y])
        }),
{
    let width = editor.config.document.tab_width;
    let read = DocumentView { tab_width: width, ..document_view(opened.doc) };
    law_loaded(read, editor.spec_viewport(opened.size).h, y);
}

/// A document that comes in by being opened has the type that was recognised, if one was, and is
/// highlighted by its rules in all cached lines. It is known by the absolute path of its file.
pub proof fn law_opened_document_has_its_type(editor: Editor, target: Target, opened: Opened)
    ensures
        ({
            let file = editor.container_of(target, opened);
            &&& match opened.identified {
                Some(found) => {
                    let own = highlighter_view(found.highlighter);
                    &&& file.file_type == Some(found.file_type.name@)
                    &&& file.highlighter.rules == own.rules
                    &&& file.highlighter.tab_width == own.tab_width
                    &&& own.rules.len() > 0 ==> file.highlighter.found == highlighted(
                        own.rules,
                        own.tab_width,
                        file.doc.lines,
                    )
                },
                None => {
                    &&& file.file_type is None
                    &&& file.highlighter.rules.len() == 0
                    &&& file.highlighter.tab_width == editor.config.document.tab_width
                    &&& file.highlighter.found == Highlights::plain(file.doc.lines.len())
                },
            }
            &&& match target.path {
                Some(path) => file.path == Some(path@),
                None => file.path is None,
            }
        }),
{
}

/// A document that is created for a file that does not exist counts as unsaved and bears its name,
/// whatever its type. It is a new one otherwise, with the type that was recognised, if one was.
pub proof fn law_created_document(
    editor: Editor,
    name: Seq<char>,
    size: Size,
    identified: Option<Identified>,
)
    ensures
        ({
            let file = editor.container_to_create(name, size, identified);
            let doc = file.doc;
            &&& doc.modified
            &&& doc.file_name == Some(name)
            &&& doc.text.len() == 2 && doc.text[0] == seq!['\n'] && doc.text[1].len() == 0
            &&& doc.lines.len() == (if size.h >= 3 + editor.push_down { 2nat } else { 1nat })
            &&& forall|i: int| 0 <= i < doc.lines.len() ==> (#[trigger] doc.lines[i]).len() == 0
            &&& doc.loaded_to == doc.lines.len()
            &&& doc.size.w == size.w
            &&& doc.size.h == (if size.h >= 1 + editor.push_down {
                size.h - 1 - editor.push_down
            } else {
                0
            })
            &&& forall|y: usize| !(#[trigger] doc.tabs.dom().contains(y))
            &&& forall|y: usize| !(#[trigger] doc.wide.dom().contains(y))
            &&& doc.tab_width == editor.config.document.tab_width
            &&& doc.patch.len() == 0 && doc.undo.len() == 0 && doc.redo.len() == 0
            &&& doc.cursor == (Loc { x: 0, y: 0 }) && doc.offset == (Loc { x: 0, y: 0 })
            &&& doc.char_ptr == 0 && doc.old_cursor == 0
            &&& !doc.read_only && !doc.in_redo
            &&& file.path is None
            &&& match identified {
                Some(found) => {
                    let own = highlighter_view(found.highlighter);
                    &&& file.file_type == Some(found.file_type.name@)
                    &&& file.highlighter.rules == own.rules
                    &&& file.highlighter.tab_width == own.tab_width
                    &&& own.rules.len() > 0 ==> file.highlighter.found == highlighted(
                        own.rules,
                        own.tab_width,
                        doc.lines,
                    )
                },
                None => {
                    &&& file.file_type is None
                    &&& file.highlighter.rules.len() == 0
                    &&& file.highlighter.tab_width == editor.config.document.tab_width
                    &&& file.highlighter.found == Highlights::plain(doc.lines.len())
                },
            }
        }),
{
    law_blank_document(editor.spec_viewport(size), editor.config.document.tab_width);
}

/// A document that gets the name of the file it was written to keeps all else that it holds: its
/// text, its history, its type and whether it counts as saved. It is highlighted anew by the type
/// that was recognised.
pub proof fn law_filed_document(
    file: ContainerView,
    name: Seq<char>,
    path: Option<Seq<char>>,
    identified: Option<Identified>,
    tab_width: usize,
)
    ensures
        ({
            let filed = file.filed(name, path, identified, tab_width);
            &&& filed.doc == (DocumentView { file_name: Some(name), ..file.doc })
            &&& filed.file_type == file.file_type
            &&& path is Some ==> filed.path == path
            &&& path is None ==> filed.path == file.path
            &&& match identified {
                Some(found) => {
                    let own = highlighter_view(found.highlighter);
                    &&& filed.highlighter.rules == own.rules
                    &&& filed.highlighter.tab_width == own.tab_width
                    &&& own.rules.len() > 0 ==> filed.highlighter.found == highlighted(
                        own.rules,
                        own.tab_width,
                        file.doc.lines,
                    )
                },
                None => {
                    &&& filed.highlighter.rules.len() == 0
                    &&& filed.highlighter.tab_width == tab_width
                    &&& filed.highlighter.found == Highlights::plain(file.doc.lines.len())
                },
            }
        }),
{
}

/// Committing puts the uncommitted edits, if there are any, on top of the groups to undo as one
/// more group, and changes nothing else.
pub proof fn law_commit_adds_one_group(file: ContainerView)
    ensures
        file.committed() == (ContainerView { doc: file.committed().doc, ..file }),
        file.committed().doc == file.doc.committed(),
        file.doc.committed() == (DocumentView {
            patch: file.doc.committed().patch,
            undo: file.doc.committed().undo,
            ..file.doc
        }),
        file.doc.committed().patch.len() == 0,
        file.doc.patch.len() == 0 ==> file.doc.committed().undo == file.doc.undo,
        file.doc.patch.len() > 0 ==> {
            &&& file.doc.committed().undo.len() == file.doc.undo.len() + 1
            &&& file.doc.committed().undo.last() == file.doc.patch
            &&& file.doc.committed().undo.drop_last() == file.doc.undo
        },
{
    if file.doc.patch.len() > 0 {
        assert(file.doc.committed().undo.drop_last() =~= file.doc.undo);
    } else {
        assert(file.doc.patch =~= Seq::empty());
    }
}

/// The path of a file is the one found last, and stays where none was found.
pub proof fn law_newer_path(path: Option<String>, known: Option<String>)
    ensures
        path is Some ==> newer_path(path, known) == path,
        path is None ==> newer_path(path, known) == known,
{
}

/// A file is looked for by its absolute path, or by an empty one where it does not exist, and is
/// spoken of by the last component of its name, or by an empty one where it has none.
pub proof fn law_target(target: Target)
    ensures
        match target.path {
            Some(path) => Editor::sought(target) == path@ && chars_of(target.path) == Some(path@),
            None => Editor::sought(target).len() == 0 && chars_of(target.path) is None,
        },
        match target.label {
            Some(label) => chars_or_default(target.label) == label@,
            None => chars_or_default(target.label).len() == 0,
        },
{
}

/// What a container holds is what its parts hold.
pub proof fn law_container_view(file: FileContainer)
    ensures
        file@.doc == document_view(file.doc),
        file@.highlighter == highlighter_view(file.highlighter),
        match file.file_type {
            Some(file_type) => file@.file_type == Some(file_type.name@),
            None => file@.file_type is None,
        },
        match file.path {
            Some(path) => file@.path == Some(path@),
            None => file@.path is None,
        },
{
}

/// What is said of a rule is said of its own name and patterns, each in its own role.
pub proof fn law_rule_view(
    name: String,
    start: String,
    end: String,
    pause: String,
    resume: String,
    escapable: bool,
)
    ensures
        (Rule::Keyword { name, pattern: start })@ == (RuleView::Keyword {
            name: name@,
            pattern: start@,
        }),
        (Rule::Bounded { name, start, end, escapable })@ == (RuleView::Bounded {
            name: name@,
            start: start@,
            end: end@,
            escapable,
        }),
        (Rule::Interpolated { name, start, end, pause, resume, escapable })@ == (
        RuleView::Interpolated {
            name: name@,
            start: start@,
            end: end@,
            pause: pause@,
            resume: resume@,
            escapable,
        }),
{
}

/// Of a line that goes on with one more character, the columns fit if a tab width for each tab and
/// two columns for each other character do. Every tab counts once.
pub proof fn law_columns_fit(line: Seq<char>, ch: char, tab_width: usize)
    ensures
        tab_count(Seq::empty()) == 0,
        tab_count(line.push(ch)) == tab_count(line) + (if ch == '\t' {
            1int
        } else {
            0int
        }),
        tab_count(line) <= line.len(),
        columns_fit(line, tab_width) <==> tab_count(line) * tab_width + 2 * (line.len() - tab_count(
            line,
        )) <= usize::MAX,
    decreases line.len(),
{
    assert(line.push(ch).drop_last() =~= line);
    if line.len() > 0 {
        law_columns_fit(line.drop_last(), line.last(), tab_width);
        assert(line.drop_last().push(line.last()) =~= line);
    }
}

/// A file can be loaded exactly if the columns of every line that the terminal has a row for fit,
/// at the tab width of the configuration and at that of its highlighter, and if those of the lines
/// that are cached already fit at the latter.
pub proof fn law_loadable(editor: Editor, opened: Opened)
    ensures
        ({
            let read = document_view(opened.doc);
            editor.loadable(opened) <==> {
                &&& forall|y: int|
                    read.loaded_to <= y < read.text.len() && y + 1 + editor.push_down
                        < opened.size.h ==> columns_fit(
                        #[trigger] read.text[y],
                        editor.config.document.tab_width,
                    )
                &&& opened.identified matches Some(found) ==> {
                    let width = highlighter_view(found.highlighter).tab_width;
                    &&& forall|y: int|
                        read.loaded_to <= y < read.text.len() && y + 1 + editor.push_down
                            < opened.size.h ==> columns_fit(#[trigger] read.text[y], width)
                    &&& forall|i: int|
                        0 <= i < read.lines.len() ==> columns_fit(#[trigger] read.lines[i], width)
                }
            }
        }),
{
    let read = document_view(opened.doc);
    let rows = editor.spec_viewport(opened.size).h;
    assert forall|y: int| #![trigger read.text[y]]
        read.loaded_to <= y < read.load_end(rows) <==> read.loaded_to <= y < read.text.len() && y
            + 1 + editor.push_down < opened.size.h by {}
}

/// The current document can be highlighted by a type exactly if the columns of its cached lines fit
/// at the tab width of the highlighter.
pub proof fn law_current_fits(editor: Editor, identified: Option<Identified>)
    ensures
        match (editor.current(), identified) {
            (Some(file), Some(found)) => editor.current_fits(identified) <==> forall|i: int|
                0 <= i < document_view(file.doc).lines.len() ==> columns_fit(
                    #[trigger] document_view(file.doc).lines[i],
                    highlighter_view(found.highlighter).tab_width,
                ),
            _ => editor.current_fits(identified),
        },
{
}

} // verus!
