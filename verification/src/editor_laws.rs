//! What each operation of the editor is for, said of its documents one by one.
use crate::container::{ContainerView, FileContainer, Identified, Opened, Target};
use crate::contents_laws::{
    law_blank_document, law_commit_adds_one_group, law_created_document, law_filed_document,
    law_opened_document_is_what_was_read,
};
use crate::document::{document_view, DocumentView};
use crate::editor::Editor;
use crate::layout::{lemma_with_same_atom, LayoutView};
use crate::layout_laws::{
    law_atom_len, law_atom_shows_a_document, law_find, law_pruned_is_tidy, law_pruned_keeps_atoms,
    law_settled_follows, law_settled_keeps_atom, law_settled_leads_to_atom, law_shown_at,
    law_tidy_stays, law_with_atom, law_with_shown,
};
use crate::ui::{Feedback, Size};
use vstd::prelude::*;

verus! {

/// What differs in the open documents at most has every other part of the editor as it was.
pub proof fn law_same_but_files(editor: Editor, now: Editor)
    requires
        editor.same_but_files(now),
    ensures
        now.needs_rerender == editor.needs_rerender,
        now.config == editor.config,
        now.ptr == editor.ptr,
        now.active == editor.active,
        now.greet == editor.greet,
        now.feedback == editor.feedback,
        now.command == editor.command,
        now.last_active == editor.last_active,
        now.push_down == editor.push_down,
        now.config_path == editor.config_path,
        now.plugin_active == editor.plugin_active,
        now.last_click == editor.last_click,
        now.alt_click_state == editor.alt_click_state,
{
}

/// Saving all documents says so, and changes nothing else of the editor but the documents. Another
/// answer to whether to draw everything or to greet the user changes that answer alone.
pub proof fn law_single_answers(editor: Editor, now: Editor, answer: bool)
    ensures
        editor.all_saved(now) ==> {
            &&& now == (Editor { files: now.files, feedback: now.feedback, ..editor })
            &&& now.feedback matches Feedback::Info(text)
            &&& text@ == "Saved all documents"@
        },
        editor.rerendering(answer) == (Editor { needs_rerender: answer, ..editor }),
        editor.greeting(answer) == (Editor { greet: answer, ..editor }),
{
}

/// Once a new document was moved to, the working directory is to follow its file, unless it is the
/// first one of its atom, so that there was nothing to move from.
pub proof fn law_name_after_move(editor: Editor, now: Editor)
    ensures
        match editor.atom() {
            Some((files, _)) => {
                &&& files.len() > 0 ==> editor.name_after_move(now) == Some(now.current_name())
                &&& files.len() == 0 ==> editor.name_after_move(now) is None
            },
            None => editor.name_after_move(now) is None,
        },
{
}

/// The atom that is being edited is the one that the path of the editor leads to, and the current
/// document is the one that this atom points to. Its name is empty if it belongs to no file.
pub proof fn law_current(editor: Editor)
    ensures
        editor.atom() == editor.files@.atom_at(editor.ptr@),
        match editor.files@.atom_at(editor.ptr@) {
            Some((files, ptr)) => {
                &&& ptr < files.len() ==> editor.current() == Some(files[ptr as int])
                &&& ptr >= files.len() ==> editor.current() is None
            },
            None => editor.current() is None,
        },
        match editor.current() {
            Some(file) => match document_view(file.doc).file_name {
                Some(name) => editor.current_name() == name,
                None => editor.current_name().len() == 0,
            },
            None => editor.current_name().len() == 0,
        },
{
    law_shown_at(editor.files@, editor.ptr@);
}

/// The current document counts as unsaved exactly if it differs from the disk.
pub proof fn law_unsaved(editor: Editor)
    ensures
        match editor.current() {
            Some(file) => editor.unsaved() == document_view(file.doc).modified,
            None => !editor.unsaved(),
        },
{
}

/// A document that comes in stands right after the current one, or alone in an atom that held none.
/// All others stand before and after it as they did, the current one stays current, and no other
/// atom changes. Where nothing is open it is the only document, in one atom, and current.
pub proof fn law_new_document_stands_after_the_current(
    editor: Editor,
    now: Editor,
    file: ContainerView,
    other: Seq<usize>,
)
    requires
        editor.inv(),
        editor.has_opened(now, file),
    ensures
        now.ptr@ == editor.ptr@,
        match editor.atom() {
            Some((files, ptr)) => match now.atom() {
                Some((now_files, now_ptr)) => {
                    &&& now_ptr == ptr
                    &&& now_files.len() == files.len() + 1
                    &&& files.len() == 0 ==> now_files[0]@ == file
                    &&& files.len() > 0 ==> now_files[ptr + 1]@ == file
                    &&& forall|i: int|
                        0 <= i <= ptr && i < files.len() ==> #[trigger] files[i] == now_files[i]
                    &&& forall|i: int|
                        ptr < i < files.len() ==> #[trigger] files[i] == now_files[i + 1]
                    &&& files.len() > 0 ==> now.current() == Some(files[ptr as int])
                    &&& other != editor.ptr@ ==> now.files@.atom_at(other)
                        == editor.files@.atom_at(other)
                },
                None => false,
            },
            None => match now.files@ {
                LayoutView::Atom(now_files, now_ptr) => {
                    &&& now_files.len() == 1
                    &&& now_ptr == 0
                    &&& now_files[0]@ == file
                    &&& now.current() == Some(now_files[0])
                },
                _ => false,
            },
        },
{
    law_atom_shows_a_document(editor.files@, editor.ptr@);
    if let Some((files, ptr)) = editor.atom() {
        let (now_files, _) = now.atom().unwrap();
        law_with_atom(editor.files@, editor.ptr@, now_files, ptr, other);
        assert forall|i: int| ptr < i < files.len() implies #[trigger] files[i] == now_files[i
            + 1] by {}
    }
}

/// A document that comes in and is moved to stands right after the one that was current, and is
/// current. All others stand before and after it as they did, and no other atom changes.
pub proof fn law_new_document_is_moved_to(
    editor: Editor,
    now: Editor,
    file: ContainerView,
    other: Seq<usize>,
)
    requires
        editor.inv(),
        editor.has_moved_to_new(now, file),
    ensures
        now.ptr@ == editor.ptr@,
        now.current() matches Some(current) && current@ == file,
        match editor.atom() {
            Some((files, ptr)) => match now.atom() {
                Some((now_files, now_ptr)) => {
                    &&& now_files.len() == files.len() + 1
                    &&& now_ptr == (if files.len() == 0 {
                        0
                    } else {
                        ptr + 1
                    })
                    &&& forall|i: int|
                        0 <= i <= ptr && i < files.len() ==> #[trigger] files[i] == now_files[i]
                    &&& forall|i: int|
                        ptr < i < files.len() ==> #[trigger] files[i] == now_files[i + 1]
                    &&& other != editor.ptr@ ==> now.files@.atom_at(other)
                        == editor.files@.atom_at(other)
                },
                None => false,
            },
            None => now.files@.files().len() == 1,
        },
{
    law_atom_shows_a_document(editor.files@, editor.ptr@);
    if let Some((files, ptr)) = editor.atom() {
        let (now_files, now_ptr) = now.atom().unwrap();
        law_with_atom(editor.files@, editor.ptr@, now_files, now_ptr, other);
        assert forall|i: int| ptr < i < files.len() implies #[trigger] files[i] == now_files[i
            + 1] by {}
    }
}

/// Creating a document always gives one that is unsaved, belongs to no file and holds no more than
/// a line break, next to the current one.
pub proof fn law_blank_creates_an_unsaved_document(editor: Editor, now: Editor, size: Size)
    requires
        editor.inv(),
        editor.has_opened(
            now,
            ContainerView::blank(editor.spec_viewport(size), editor.config.document.tab_width),
        ),
    ensures
        ({
            let file = match (editor.atom(), now.atom()) {
                (Some((files, ptr)), Some((now_files, _))) => now_files[if files.len() == 0 {
                    0
                } else {
                    ptr + 1
                }],
                _ => now.files@.files()[0],
            };
            let doc = document_view(file.doc);
            &&& doc.modified
            &&& doc.file_name is None
            &&& doc.text.len() == 2 && doc.text[0] == seq!['\n'] && doc.text[1].len() == 0
            &&& doc.tab_width == editor.config.document.tab_width
            &&& doc.patch.len() == 0 && doc.undo.len() == 0 && doc.redo.len() == 0
            &&& file.path is None
        }),
{
    law_blank_document(editor.spec_viewport(size), editor.config.document.tab_width);
    law_new_document_stands_after_the_current(
        editor,
        now,
        ContainerView::blank(editor.spec_viewport(size), editor.config.document.tab_width),
        Seq::empty(),
    );
}

/// Right after a file was opened and moved to, it counts as unsaved exactly if what was read did,
/// whatever its type. So one that agrees with the disk is closed without a question.
pub proof fn law_opened_file_is_as_saved_as_it_was_read(
    editor: Editor,
    now: Editor,
    target: Target,
    opened: Opened,
)
    requires
        editor.inv(),
        editor.has_moved_to_new(now, editor.container_of(target, opened)),
    ensures
        now.unsaved() == document_view(opened.doc).modified,
        now.current() matches Some(file) && {
            let doc = document_view(file.doc);
            let read = document_view(opened.doc);
            &&& doc.text == read.text
            &&& doc.file_name == read.file_name
            &&& doc.cursor == read.cursor && doc.offset == read.offset
            &&& doc.patch == read.patch && doc.undo == read.undo && doc.redo == read.redo
            &&& doc.read_only == read.read_only
            &&& doc.size == read.size
        },
{
    law_opened_document_is_what_was_read(editor, target, opened, 0);
    law_new_document_is_moved_to(
        editor,
        now,
        editor.container_of(target, opened),
        Seq::empty(),
    );
}

/// The same of a file that was opened without being moved to: its document, next to the current
/// one, agrees with the disk exactly if what was read did.
pub proof fn law_opened_file_is_as_it_was_read(
    editor: Editor,
    now: Editor,
    target: Target,
    opened: Opened,
)
    requires
        editor.inv(),
        editor.has_opened(now, editor.container_of(target, opened)),
    ensures
        ({
            let file = match (editor.atom(), now.atom()) {
                (Some((files, ptr)), Some((now_files, _))) => now_files[if files.len() == 0 {
                    0
                } else {
                    ptr + 1
                }],
                _ => now.files@.files()[0],
            };
            let doc = document_view(file.doc);
            let read = document_view(opened.doc);
            &&& doc.modified == read.modified
            &&& doc.text == read.text
            &&& doc.file_name == read.file_name
            &&& doc.cursor == read.cursor && doc.offset == read.offset
            &&& doc.patch == read.patch && doc.undo == read.undo && doc.redo == read.redo
            &&& doc.read_only == read.read_only
            &&& doc.size == read.size
        }),
{
    law_opened_document_is_what_was_read(editor, target, opened, 0);
    law_new_document_stands_after_the_current(
        editor,
        now,
        editor.container_of(target, opened),
        Seq::empty(),
    );
}

/// A document that was created for a file that does not exist counts as unsaved and bears the name,
/// whatever its type, next to the current one. So closing it always asks first.
pub proof fn law_created_file_is_unsaved(
    editor: Editor,
    now: Editor,
    name: Seq<char>,
    size: Size,
    identified: Option<Identified>,
)
    requires
        editor.inv(),
        editor.has_opened(now, editor.container_to_create(name, size, identified)),
    ensures
        ({
            let file = match (editor.atom(), now.atom()) {
                (Some((files, ptr)), Some((now_files, _))) => now_files[if files.len() == 0 {
                    0
                } else {
                    ptr + 1
                }],
                _ => now.files@.files()[0],
            };
            let doc = document_view(file.doc);
            &&& doc.modified
            &&& doc.file_name == Some(name)
            &&& doc.text.len() == 2 && doc.text[0] == seq!['\n'] && doc.text[1].len() == 0
            &&& doc.patch.len() == 0 && doc.undo.len() == 0 && doc.redo.len() == 0
            &&& doc.tab_width == editor.config.document.tab_width
            &&& file.path is None
            &&& now.current() == Some(file) ==> now.unsaved()
        }),
{
    law_created_document(editor, name, size, identified);
    law_new_document_stands_after_the_current(
        editor,
        now,
        editor.container_to_create(name, size, identified),
        Seq::empty(),
    );
}

/// Asking for a file that is open makes its first document current, and leaves every document,
/// every other atom and all else of the editor as they were.
pub proof fn law_moving_to_an_open_file(
    editor: Editor,
    now: Editor,
    path: Seq<char>,
    other: Seq<usize>,
)
    requires
        editor.inv(),
        editor.files@.find(path) matches Some((at, i)) && editor.moved_to(now, at, i),
    ensures
        now.current() matches Some(file) && file@.path == Some(path),
        editor.files@.find(path) matches Some((at, i)) && {
            &&& now.ptr@ == at
            &&& match editor.files@.atom_at(at) {
                Some((files, _)) => {
                    &&& now.files@.atom_at(at) == Some((files, i as usize))
                    &&& now.current() == Some(files[i])
                },
                None => false,
            }
            &&& other != at ==> now.files@.atom_at(other) == editor.files@.atom_at(other)
        },
        now.config == editor.config,
        now.active == editor.active,
        now.greet == editor.greet,
        now.feedback == editor.feedback,
        now.last_active == editor.last_active,
        now.push_down == editor.push_down,
        now.needs_rerender == editor.needs_rerender,
{
    law_find(editor.files, path);
    let (at, i) = editor.files@.find(path).unwrap();
    let (files, _) = editor.files@.atom_at(at).unwrap();
    law_atom_len(editor.files, at);
    law_with_atom(editor.files@, at, files, i as usize, at);
    law_with_atom(editor.files@, at, files, i as usize, other);
}

/// Moving on leads to the document right after the current one in its atom, and moving back to the
/// one right before it. At the end and at the start nothing changes, and no other atom ever does.
pub proof fn law_moving(editor: Editor, other: Seq<usize>)
    requires
        editor.inv(),
    ensures
        match editor.atom() {
            Some((files, ptr)) => {
                let next = editor.after_next();
                let prev = editor.after_prev();
                &&& ptr + 1 < files.len() ==> {
                    &&& editor.has_next()
                    &&& next.atom_at(editor.ptr@) == Some((files, (ptr + 1) as usize))
                    &&& next.shown_at(editor.ptr@) == Some(files[ptr + 1])
                }
                &&& ptr + 1 >= files.len() ==> !editor.has_next() && next == editor.files@
                &&& ptr > 0 ==> {
                    &&& editor.has_prev()
                    &&& prev.atom_at(editor.ptr@) == Some((files, (ptr - 1) as usize))
                    &&& prev.shown_at(editor.ptr@) == Some(files[ptr - 1])
                }
                &&& ptr == 0 ==> !editor.has_prev() && prev == editor.files@
                &&& other != editor.ptr@ ==> next.atom_at(other) == editor.files@.atom_at(other)
                &&& other != editor.ptr@ ==> prev.atom_at(other) == editor.files@.atom_at(other)
            },
            None => {
                &&& editor.after_next() == editor.files@
                &&& editor.after_prev() == editor.files@
                &&& !editor.has_next()
                &&& !editor.has_prev()
            },
        },
{
    law_atom_shows_a_document(editor.files@, editor.ptr@);
    law_atom_len(editor.files, editor.ptr@);
    lemma_with_same_atom(editor.files@, editor.ptr@);
    if let Some((files, ptr)) = editor.atom() {
        let path = editor.ptr@;
        law_with_atom(editor.files@, path, files, (ptr + 1) as usize, path);
        law_with_atom(editor.files@, path, files, (ptr + 1) as usize, other);
        law_with_atom(editor.files@, path, files, (ptr - 1) as usize, path);
        law_with_atom(editor.files@, path, files, (ptr - 1) as usize, other);
    }
}

/// Closing a document takes it out of its atom, in which the document right before it is shown
/// then, or the one right after it if it was the first. All other documents of the atom keep their
/// order, and all other atoms that hold documents stay as they are, with what they show.
pub proof fn law_quit_takes_out_the_current(editor: Editor, now: Editor, other: Seq<usize>)
    requires
        editor.inv(),
        editor.current() is Some,
        editor.cleaned_up(now, editor.without_current()),
    ensures
        match editor.atom() {
            Some((files, ptr)) => {
                let left = editor.without_current();
                &&& left.atom_at(editor.ptr@) matches Some((rest, shown))
                &&& rest.len() == files.len() - 1
                &&& forall|i: int| 0 <= i < ptr ==> #[trigger] files[i] == rest[i]
                &&& forall|i: int| ptr < i < files.len() ==> #[trigger] files[i] == rest[i - 1]
                &&& ptr == 0 && files.len() > 1 ==> left.shown_at(editor.ptr@) == Some(files[1])
                &&& ptr > 0 ==> left.shown_at(editor.ptr@) == Some(files[ptr - 1])
                &&& ptr == 0 ==> shown == 0
                &&& ptr > 0 ==> shown == ptr - 1
                &&& other != editor.ptr@ ==> left.atom_at(other) == editor.files@.atom_at(other)
                &&& now.files@.atoms() == left.atoms()
            },
            None => false,
        },
{
    let (files, ptr) = editor.atom().unwrap();
    let rest = files.remove(ptr as int);
    law_atom_len(editor.files, editor.ptr@);
    law_with_atom(editor.files@, editor.ptr@, rest, 0, editor.ptr@);
    law_with_atom(editor.files@, editor.ptr@, rest, (ptr - 1) as usize, editor.ptr@);
    law_with_atom(editor.files@, editor.ptr@, rest, 0, other);
    law_with_atom(editor.files@, editor.ptr@, rest, (ptr - 1) as usize, other);
    law_pruned_keeps_atoms(editor.without_current());
    assert forall|i: int| ptr < i < files.len() implies #[trigger] files[i] == rest[i - 1] by {}
}

/// After closing the first document of an atom that holds others, the current document is the one
/// that stood right after it; after closing any other, it is the one that stood right before it.
/// The layout has no empty atom before, so that no path changes its meaning.
pub proof fn law_quit_shows_the_neighbour(editor: Editor, now: Editor)
    requires
        editor.inv(),
        editor.current() is Some,
        editor.files@.tidy(),
        editor.cleaned_up(now, editor.without_current()),
    ensures
        match editor.atom() {
            Some((files, ptr)) => {
                &&& ptr == 0 && files.len() > 1 ==> now.current() == Some(files[1])
                &&& ptr > 0 ==> now.current() == Some(files[ptr - 1])
                &&& files.len() > 1 ==> now.ptr@ == editor.ptr@ && now.active
                &&& files.len() > 1 ==> now.atom() == Some(
                    (
                        files.remove(ptr as int),
                        if ptr == 0 {
                            0
                        } else {
                            (ptr - 1) as usize
                        },
                    ),
                )
            },
            None => false,
        },
{
    let (files, ptr) = editor.atom().unwrap();
    law_quit_takes_out_the_current(editor, now, Seq::empty());
    if files.len() > 1 {
        let left = editor.without_current();
        let (rest, shown) = left.atom_at(editor.ptr@).unwrap();
        law_atom_len(editor.files, editor.ptr@);
        assert(rest =~= files.remove(ptr as int));
        lemma_with_atom_tidy(editor.files@, editor.ptr@, files.remove(ptr as int), shown);
        law_tidy_stays(left);
        law_settled_keeps_atom(left, editor.ptr@);
    }
}

/// A layout with nothing to prune stays so when an atom that holds documents comes into it.
pub proof fn lemma_with_atom_tidy(
    layout: LayoutView,
    path: Seq<usize>,
    files: Seq<FileContainer>,
    ptr: usize,
)
    requires
        layout.tidy(),
        files.len() > 0,
    ensures
        layout.with_atom(path, files, ptr).tidy(),
        layout is Empty <==> layout.with_atom(path, files, ptr) is Empty,
    decreases path.len(),
{
    if let LayoutView::Split(_, parts) = layout {
        if path.len() > 0 && path[0] < parts.len() {
            lemma_with_atom_tidy(parts[path[0] as int], path.drop_first(), files, ptr);
        }
    }
}

/// Closing a document changes nothing of the editor but the open documents, where it stands among
/// them, and whether it still runs.
pub proof fn law_quit_keeps_the_rest(editor: Editor, now: Editor, left: LayoutView)
    requires
        editor.cleaned_up(now, left),
    ensures
        now.needs_rerender == editor.needs_rerender,
        now.config == editor.config,
        now.greet == editor.greet,
        now.feedback == editor.feedback,
        now.command == editor.command,
        now.last_active == editor.last_active,
        now.push_down == editor.push_down,
        now.config_path == editor.config_path,
        now.plugin_active == editor.plugin_active,
        now.last_click == editor.last_click,
        now.alt_click_state == editor.alt_click_state,
        now.files@.atoms() == left.atoms(),
{
    law_pruned_keeps_atoms(left);
}

/// After cleaning up, the editor stands as close to where it stood as the layout allows: its path
/// follows the old one as far as that still leads somewhere, and takes the first branch from there
/// on. It leads to an atom unless nothing is left.
pub proof fn law_cleaned_up(editor: Editor, now: Editor, left: LayoutView, k: int)
    requires
        editor.cleaned_up(now, left),
        0 <= k,
    ensures
        now.files@ == left.pruned(),
        left.tidy() ==> now.files@ == left,
        now.files@.tidy(),
        now.active <==> !(now.files@ is Empty),
        now.active ==> now.atom() is Some,
        k <= editor.ptr@.len() && now.files@.part_at(editor.ptr@.take(k)) is Some ==> {
            &&& k <= now.ptr@.len()
            &&& now.ptr@.take(k) == editor.ptr@.take(k)
        },
        k >= editor.ptr@.len() || now.files@.part_at(editor.ptr@.take(k + 1)) is None
            ==> forall|j: int| k <= j < now.ptr@.len() ==> #[trigger] now.ptr@[j] == 0,
{
    law_pruned_is_tidy(left);
    if left.tidy() {
        law_tidy_stays(left);
    }
    law_settled_leads_to_atom(left.pruned(), editor.ptr@);
    law_settled_follows(left.pruned(), editor.ptr@, k);
}

/// The editor is valid exactly if every atom shows one of its documents, where it has any, if its
/// path leads to an atom, or nothing is open and the path is empty, and if the rows that a document
/// is pushed down can be counted with one more.
pub proof fn law_valid(editor: Editor)
    ensures
        editor.inv() <==> {
            &&& editor.files@.wf()
            &&& editor.files@ is Empty ==> editor.ptr@.len() == 0
            &&& !(editor.files@ is Empty) ==> editor.files@.atom_at(editor.ptr@) is Some
            &&& editor.push_down < usize::MAX
        },
{
    if editor.ptr@.len() == 0 {
        assert(editor.ptr@ =~= Seq::empty());
    }
}

/// Saving the current document under a name changes that document alone: its text, its cursor and
/// whether it counts as saved stay, its edits form a group to undo, and it gets the name, the path
/// and the highlighting if it had no name.
pub proof fn law_save_as_changes_the_current_alone(
    editor: Editor,
    now: Editor,
    name: Seq<char>,
    path: Option<Seq<char>>,
    identified: Option<Identified>,
    other: Seq<usize>,
)
    requires
        editor.inv(),
        now.ptr@ == editor.ptr@,
        editor.has_saved_as(now, name, path, identified),
    ensures
        match (editor.current(), now.current()) {
            (Some(file), Some(saved)) => {
                let before = document_view(file.doc);
                let doc = document_view(saved.doc);
                &&& doc == (DocumentView {
                    file_name: doc.file_name,
                    patch: doc.patch,
                    undo: doc.undo,
                    ..before
                })
                &&& before.file_name is None ==> doc.file_name == Some(name)
                &&& before.file_name is Some ==> doc.file_name == before.file_name
                &&& doc.patch.len() == 0
                &&& before.patch.len() == 0 ==> doc.undo == before.undo
                &&& before.patch.len() > 0 ==> doc.undo == before.undo.push(before.patch)
                &&& saved.file_type == file.file_type
                &&& before.file_name is Some ==> saved.path == file.path && saved.highlighter
                    == file.highlighter
                &&& before.file_name is None ==> saved@.path == (if path is Some {
                    path
                } else {
                    file@.path
                })
            },
            _ => false,
        },
        match (editor.atom(), now.atom()) {
            (Some((files, ptr)), Some((now_files, now_ptr))) => {
                &&& now_ptr == ptr
                &&& now_files.len() == files.len()
                &&& forall|i: int|
                    0 <= i < files.len() && i != ptr ==> #[trigger] now_files[i] == files[i]
            },
            _ => false,
        },
        other != editor.ptr@ ==> now.files@.atom_at(other) == editor.files@.atom_at(other),
{
    let file = editor.current().unwrap();
    let saved = now.current().unwrap();
    let width = editor.config.document.tab_width;
    law_with_shown(editor.files@, editor.ptr@, saved, other);
    law_filed_document(file@, name, path, identified, width);
    law_commit_adds_one_group(file@.filed(name, path, identified, width));
    law_commit_adds_one_group(file@);
}

/// Making the edits of the current document a group to undo changes its history alone, and no other
/// document.
pub proof fn law_commit_changes_the_current_alone(editor: Editor, now: Editor, other: Seq<usize>)
    requires
        editor.inv(),
        editor.has_committed(now),
    ensures
        match (editor.current(), now.current()) {
            (Some(file), Some(committed)) => {
                let before = document_view(file.doc);
                let doc = document_view(committed.doc);
                &&& doc == (DocumentView { patch: doc.patch, undo: doc.undo, ..before })
                &&& doc.patch.len() == 0
                &&& before.patch.len() == 0 ==> doc.undo == before.undo
                &&& before.patch.len() > 0 ==> doc.undo == before.undo.push(before.patch)
                &&& committed.highlighter == file.highlighter
                &&& committed.file_type == file.file_type
                &&& committed.path == file.path
            },
            _ => false,
        },
        match (editor.atom(), now.atom()) {
            (Some((files, ptr)), Some((now_files, now_ptr))) => {
                &&& now_ptr == ptr
                &&& now_files.len() == files.len()
                &&& forall|i: int|
                    0 <= i < files.len() && i != ptr ==> #[trigger] now_files[i] == files[i]
            },
            _ => false,
        },
        other != editor.ptr@ ==> now.files@.atom_at(other) == editor.files@.atom_at(other),
{
    let file = editor.current().unwrap();
    let committed = now.current().unwrap();
    law_with_shown(editor.files@, editor.ptr@, committed, other);
    law_commit_adds_one_group(file@);
}

} // verus!
