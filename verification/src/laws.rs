//! What holds of the editor across its operations.
use crate::container::{ContainerView, FileContainer, Identified, Opened, Target};
use crate::document::{document_view, DocumentView};
use crate::editor::{slot, Editor};
use crate::input::Typing;
use crate::layout::{lemma_with_same_atom, LayoutView};
use crate::layout_laws::{
    law_atom_len, law_atom_shows_a_document, law_files_around_atom, law_find, law_pruned_empty,
    law_pruned_keeps_files, law_settled_keeps_atom, law_tidy_stays, law_with_atom,
    law_with_atom_twice,
};
use crate::saving::{has_saved, newer_path, with_doc};
use crate::ui::Size;
use kaolinite::Document;
use vstd::prelude::*;

verus! {

/// Moving back after moving on leads to where one was.
pub proof fn law_prev_undoes_next(editor: Editor, next: Editor)
    requires
        editor.inv(),
        editor.has_next(),
        next.ptr@ == editor.ptr@,
        next.files@ == editor.after_next(),
    ensures
        next.after_prev() == editor.files@,
{
    let (files, ptr) = editor.atom().unwrap();
    law_atom_len(editor.files, editor.ptr@);
    let there = (ptr + 1) as usize;
    law_with_atom(editor.files@, editor.ptr@, files, there, editor.ptr@);
    law_with_atom_twice(editor.files@, editor.ptr@, (files, there), (files, ptr));
    lemma_with_same_atom(editor.files@, editor.ptr@);
}

/// Moving on after moving back leads to where one was.
pub proof fn law_next_undoes_prev(editor: Editor, prev: Editor)
    requires
        editor.inv(),
        editor.has_prev(),
        prev.ptr@ == editor.ptr@,
        prev.files@ == editor.after_prev(),
    ensures
        prev.after_next() == editor.files@,
{
    let (files, ptr) = editor.atom().unwrap();
    law_atom_shows_a_document(editor.files@, editor.ptr@);
    let there = (ptr - 1) as usize;
    law_with_atom(editor.files@, editor.ptr@, files, there, editor.ptr@);
    law_with_atom_twice(editor.files@, editor.ptr@, (files, there), (files, ptr));
    lemma_with_same_atom(editor.files@, editor.ptr@);
}

/// Moving between documents opens and closes none.
pub proof fn law_moving_keeps_files(editor: Editor)
    ensures
        editor.after_next().files() == editor.files@.files(),
        editor.after_prev().files() == editor.files@.files(),
{
    if let Some((files, ptr)) = editor.atom() {
        law_files_around_atom(editor.files@, editor.ptr@, files, (ptr + 1) as usize);
        law_files_around_atom(editor.files@, editor.ptr@, files, (ptr - 1) as usize);
    }
}

/// A document that comes in without being moved to leaves the current one current.
pub proof fn law_gaining_keeps_current(editor: Editor, now: Editor, file: ContainerView)
    requires
        editor.inv(),
        editor.gained(now, file),
        editor.current() is Some,
    ensures
        now.current() == editor.current(),
{
}

/// A document that comes in is one more: all others are open as before, in the same order.
pub proof fn law_gaining_adds_one(editor: Editor, now: Editor, file: ContainerView)
    requires
        editor.inv(),
        editor.gained(now, file),
        now.ptr@ == editor.ptr@,
    ensures
        ({
            let (files, ptr) = editor.atom().unwrap();
            let at = editor.files@.before(editor.ptr@).len() + slot(files.len(), ptr);
            let all = now.files@.files();
            &&& 0 <= at < all.len()
            &&& all[at]@ == file
            &&& all == editor.files@.files().insert(at, all[at])
        }),
{
    law_atom_shows_a_document(editor.files@, editor.ptr@);
    let (files, ptr) = editor.atom().unwrap();
    let (now_files, _) = now.atom().unwrap();
    law_files_around_atom(editor.files@, editor.ptr@, now_files, ptr);
    let before = editor.files@.before(editor.ptr@);
    let after = editor.files@.after(editor.ptr@);
    let at = before.len() + slot(files.len(), ptr);
    let all = now.files@.files();
    assert(all =~= before + now_files + after);
    assert(all[at] == now_files[slot(files.len(), ptr)]);
    assert(all =~= editor.files@.files().insert(at, all[at]));
}

/// A file that was opened is found open from then on.
pub proof fn law_opened_file_is_found(
    editor: Editor,
    now: Editor,
    target: Target,
    opened: Opened,
)
    requires
        editor.inv(),
        editor.has_opened(now, editor.container_of(target, opened)),
        target.path is Some,
    ensures
        now.files@.find(Editor::sought(target)) is Some,
{
    let path = Editor::sought(target);
    let file = editor.container_of(target, opened);
    law_find(now.files, path);
    let all = now.files@.files();
    if editor.atom() is Some {
        law_gaining_adds_one(editor, now, file);
        let (files, ptr) = editor.atom().unwrap();
        let at = editor.files@.before(editor.ptr@).len() + slot(files.len(), ptr);
        assert(all[at]@.path == Some(path));
    } else {
        assert(all[0]@.path == Some(path));
    }
}

/// Asking for a file that is open leads to a document of that file, and opens and closes none.
pub proof fn law_open_file_is_moved_to(editor: Editor, now: Editor, path: Seq<char>)
    requires
        editor.inv(),
        editor.files@.find(path) matches Some((at, i)) && editor.moved_to(now, at, i),
    ensures
        now.current() matches Some(file) && file@.path == Some(path),
        now.files@.files() == editor.files@.files(),
{
    law_find(editor.files, path);
    let (at, i) = editor.files@.find(path).unwrap();
    let (files, _) = editor.files@.atom_at(at).unwrap();
    law_atom_len(editor.files, at);
    law_with_atom(editor.files@, at, files, i as usize, at);
    law_files_around_atom(editor.files@, at, files, i as usize);
}

/// A file that does not exist gets a document with its name, next to the current one if there is
/// one, and no other document changes.
pub proof fn law_created_document_has_the_name(
    editor: Editor,
    now: Editor,
    name: Seq<char>,
    size: Size,
    identified: Option<Identified>,
)
    requires
        editor.inv(),
        editor.has_opened(now, editor.container_to_create(name, size, identified)),
    ensures
        match editor.atom() {
            Some((files, ptr)) => {
                let at = slot(files.len(), ptr);
                &&& now.atom() matches Some((now_files, _))
                &&& now_files[at]@.doc.file_name == Some(name)
                &&& now_files.remove(at) == files
            },
            None => now.files@.files().len() == 1 && now.current_name() == name,
        },
{
    if let Some((files, ptr)) = editor.atom() {
        law_atom_shows_a_document(editor.files@, editor.ptr@);
        let at = slot(files.len(), ptr);
        let (now_files, _) = now.atom().unwrap();
        assert(now_files.remove(at) =~= files);
    }
}

/// Closing a document closes that one alone: all others stay open, in the same order.
pub proof fn law_quit_closes_one(editor: Editor, now: Editor)
    requires
        editor.inv(),
        editor.current() is Some,
        editor.cleaned_up(now, editor.without_current()),
    ensures
        ({
            let (files, ptr) = editor.atom().unwrap();
            let at = editor.files@.before(editor.ptr@).len() + ptr;
            let all = editor.files@.files();
            &&& 0 <= at < all.len()
            &&& editor.current() == Some(all[at])
            &&& now.files@.files() == all.remove(at)
        }),
{
    let (files, ptr) = editor.atom().unwrap();
    let left = files.remove(ptr as int);
    let shown: usize = if ptr == 0 {
        0
    } else {
        (ptr - 1) as usize
    };
    law_files_around_atom(editor.files@, editor.ptr@, left, shown);
    law_pruned_keeps_files(editor.without_current());
    let before = editor.files@.before(editor.ptr@);
    let after = editor.files@.after(editor.ptr@);
    let all = editor.files@.files();
    let at = before.len() + ptr;
    assert(all =~= before + files + after);
    assert(now.files@.files() =~= all.remove(at));
}

/// Closing a new document right away undoes creating it, where another document is open in its
/// atom and there is nothing to clean up.
pub proof fn law_quit_undoes_new_document(
    editor: Editor,
    created: Editor,
    now: Editor,
    file: ContainerView,
)
    requires
        editor.inv(),
        editor.current() is Some,
        editor.files@.tidy(),
        editor.same_but_files(created),
        editor.gained_and_moved(created, file),
        created.cleaned_up(now, created.without_current()),
    ensures
        now.files@ == editor.files@,
        now.ptr@ == editor.ptr@,
        now.active,
{
    let (files, ptr) = editor.atom().unwrap();
    let (now_files, at) = created.atom().unwrap();
    assert(now_files.remove(at as int) =~= files);
    law_with_atom_twice(editor.files@, editor.ptr@, (now_files, at), (files, ptr));
    lemma_with_same_atom(editor.files@, editor.ptr@);
    law_tidy_stays(editor.files@);
    law_settled_keeps_atom(editor.files@, editor.ptr@);
}

/// A document without a name that was saved under one has it from then on, and all other documents
/// of its atom are as they were.
pub proof fn law_saved_document_has_the_name(
    editor: Editor,
    now: Editor,
    name: Seq<char>,
    path: Option<Seq<char>>,
    identified: Option<Identified>,
)
    requires
        editor.inv(),
        now.ptr@ == editor.ptr@,
        editor.current() matches Some(file) && file@.doc.file_name is None,
        editor.has_saved_as(now, name, path, identified),
    ensures
        now.current() matches Some(file) && file@.doc.file_name == Some(name),
        match (editor.atom(), now.atom()) {
            (Some((files, ptr)), Some((now_files, now_ptr))) => {
                &&& now_ptr == ptr
                &&& now_files.remove(ptr as int) == files.remove(ptr as int)
            },
            _ => false,
        },
{
    editor.lemma_inv_with_shown();
    let (files, ptr) = editor.atom().unwrap();
    let (now_files, _) = now.atom().unwrap();
    assert(now_files.remove(ptr as int) =~= files.remove(ptr as int));
}

/// A document that the user does not want to close stays open, as do all others. Where there was
/// nothing to clean up, nothing changes but that the editor goes on running.
pub proof fn law_declined_quit_closes_none(editor: Editor, now: Editor)
    requires
        editor.inv(),
        editor.current() is Some,
        editor.cleaned_up(now, editor.files@),
    ensures
        now.files@.files() == editor.files@.files(),
        now.active,
        editor.files@.tidy() ==> now.files@ == editor.files@ && now.ptr@ == editor.ptr@,
{
    law_pruned_keeps_files(editor.files@);
    law_pruned_empty(editor.files@);
    let (files, ptr) = editor.atom().unwrap();
    law_files_around_atom(editor.files@, editor.ptr@, files, ptr);
    if editor.files@.tidy() {
        law_tidy_stays(editor.files@);
        law_settled_keeps_atom(editor.files@, editor.ptr@);
    }
}

/// After closing a document the editor runs on as long as one is open.
pub proof fn law_active_while_documents_are_open(editor: Editor, now: Editor, left: LayoutView)
    requires
        editor.cleaned_up(now, left),
    ensures
        now.active <==> now.files@.files().len() > 0,
{
    law_pruned_empty(left);
    law_pruned_keeps_files(left);
}

/// Committing twice is committing once, and every edit is kept in order.
pub proof fn law_commit_once(doc: DocumentView)
    ensures
        doc.committed().committed() == doc.committed(),
        doc.committed().undo.flatten() + doc.committed().patch == doc.undo.flatten() + doc.patch,
{
    if doc.patch.len() > 0 {
        doc.undo.lemma_flatten_push(doc.patch);
        assert(doc.undo.push(doc.patch).flatten() + Seq::empty() =~= doc.undo.flatten()
            + doc.patch);
    }
}

/// The characters that are handed out one after the other are those of the text, in order and
/// from the first one that is due.
pub proof fn law_typing_hands_out_the_text(steps: Seq<Typing>, chars: Seq<char>)
    requires
        steps.len() == chars.len() + 1,
        steps[0].wf(),
        forall|i: int|
            0 <= i < chars.len() ==> (#[trigger] steps[i]).hands_out(steps[i + 1], chars[i]),
    ensures
        steps.last().text == steps[0].text,
        steps.last().commit == steps[0].commit,
        steps.last().at == steps[0].at + chars.len() <= steps[0].text.len(),
        chars == steps[0].text@.subrange(
            steps[0].at as int,
            steps[0].at + chars.len(),
        ),
    decreases chars.len(),
{
    if chars.len() > 0 {
        let n = chars.len() - 1;
        assert forall|i: int| 0 <= i < n implies (#[trigger] steps.drop_last()[i]).hands_out(
            steps.drop_last()[i + 1],
            chars.drop_last()[i],
        ) by {
            assert(steps[i].hands_out(steps[i + 1], chars[i]));
        }
        law_typing_hands_out_the_text(steps.drop_last(), chars.drop_last());
        assert(steps[n].hands_out(steps[n + 1], chars[n]));
        assert(chars =~= chars.drop_last().push(chars[n]));
    }
    assert(chars =~= steps[0].text@.subrange(steps[0].at as int, steps[0].at + chars.len()));
}

/// Once all open documents were saved one after the other, the edits of each form a group to undo,
/// as it was when it had been written: `written` are the documents after writing each to the disk,
/// which may have changed it. Nothing but that and the paths of the files has changed.
pub proof fn law_save_all_commits_all(
    steps: Seq<Seq<FileContainer>>,
    written: Seq<Document>,
    paths: Seq<Option<String>>,
)
    requires
        steps.len() == paths.len() + 1,
        written.len() == paths.len(),
        paths.len() <= steps[0].len(),
        forall|i: int|
            0 <= i < paths.len() ==> has_saved(
                with_doc(#[trigger] steps[i], i, written[i]),
                steps[i + 1],
                i,
                paths[i],
            ),
    ensures
        steps.last().len() == steps[0].len(),
        forall|i: int|
            0 <= i < paths.len() ==> {
                &&& document_view((#[trigger] steps.last()[i]).doc) == document_view(
                    written[i],
                ).committed()
                &&& steps.last()[i] == (FileContainer {
                    doc: steps.last()[i].doc,
                    path: newer_path(paths[i], steps[0][i].path),
                    ..steps[0][i]
                })
            },
        forall|i: int|
            paths.len() <= i < steps[0].len() ==> #[trigger] steps.last()[i] == steps[0][i],
    decreases paths.len(),
{
    if paths.len() > 0 {
        let n = paths.len() - 1;
        assert forall|i: int| 0 <= i < n implies has_saved(
            with_doc(#[trigger] steps.drop_last()[i], i, written.drop_last()[i]),
            steps.drop_last()[i + 1],
            i,
            paths.drop_last()[i],
        ) by {
            assert(has_saved(with_doc(steps[i], i, written[i]), steps[i + 1], i, paths[i]));
        }
        law_save_all_commits_all(steps.drop_last(), written.drop_last(), paths.drop_last());
        assert(has_saved(with_doc(steps[n], n, written[n]), steps[n + 1], n, paths[n]));
    }
}

} // verus!
