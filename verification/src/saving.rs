//! Saving and closing documents.
use crate::container::{chars_of, FileContainer, Identified};
use crate::document::{cached_lines, commit, document_view, file_name, is_modified, set_file_name};
use crate::editor::Editor;
use crate::editor_laws::law_quit_shows_the_neighbour;
use crate::error::OxError;
use crate::highlight::run;
use crate::layout::{FileLayout, LayoutView};
use crate::layout_laws::{
    law_atom_shows_a_document, law_pruned_is_tidy, law_pruned_wf, law_settled_leads_to_atom,
    law_with_atom, law_with_atom_twice, law_with_atom_wf,
};
use crate::opening::split_identified;
use crate::ui::Feedback;
use kaolinite::Document;
use vstd::prelude::*;
use vstd::string::*;

verus! {

/// How far saving all documents has come.
#[derive(Debug, Clone, Copy)]
pub struct SaveAll {
    /// The number of the next document to save.
    pub next: usize,
}

/// The path that is known of a file after another attempt to find it out.
pub open spec fn newer_path(path: Option<String>, known: Option<String>) -> Option<String> {
    if path is Some {
        path
    } else {
        known
    }
}

/// Whether `now` are the documents once the one with the number `i` was saved to a file with this
/// absolute path, as far as it could be found out, and its edits form a group to undo.
pub open spec fn has_saved(
    files: Seq<FileContainer>,
    now: Seq<FileContainer>,
    i: int,
    path: Option<String>,
) -> bool {
    &&& now == files.update(
        i,
        FileContainer {
            doc: now[i].doc,
            path: newer_path(path, files[i].path),
            ..files[i]
        },
    )
    &&& document_view(now[i].doc) == document_view(files[i].doc).committed()
}

/// The documents with another text in the one with the number `i`, as [`Editor::open_doc`] allows.
pub open spec fn with_doc(files: Seq<FileContainer>, i: int, doc: Document) -> Seq<FileContainer> {
    files.update(i, FileContainer { doc, ..files[i] })
}

/// What is asked before a document is closed that is not saved.
pub open spec fn unsaved_question() -> Seq<char> {
    "This document isn't saved, press Ctrl + Q to force quit or Esc to cancel"@
}

impl Editor {
    /// Takes the outcome of saving the current document: the absolute path of its file, as far as
    /// it can be found out.
    pub fn save(&mut self, saved: Result<Option<String>, OxError>) -> (done: Result<(), OxError>)
        requires
            old(self).inv(),
            old(self).current() is Some,
        ensures
            final(self).inv(),
            match saved {
                Ok(path) => {
                    &&& done is Ok
                    &&& *final(self) == Editor {
                        files: final(self).files,
                        feedback: final(self).feedback,
                        ..*old(self)
                    }
                    &&& final(self).feedback matches Feedback::Info(text)
                    &&& text@ == "Document saved successfully"@
                    &&& old(self).current() matches Some(file)
                    &&& final(self).files@ == old(self).files@.with_shown(
                        old(self).ptr@,
                        FileContainer { path: newer_path(path, file.path), ..file },
                    )
                },
                Err(error) => done == Err::<(), OxError>(error) && *final(self) == *old(self),
            },
    {
        let path: Option<String> = match saved {
            Ok(path) => path,
            Err(error) => {
                return Err(error);
            },
        };
        proof {
            self.lemma_inv_with_shown();
        }
        match self.files.get_mut(&self.ptr) {
            Some(file) => {
                if path.is_some() {
                    file.path = path;
                }
            },
            None => {},
        }
        self.feedback = Feedback::Info("Document saved successfully".to_owned());
        Ok(())
    }

    /// Whether `now` holds the documents of the editor once the current one was saved under a name:
    /// that one gets the name if it had none, its edits form a group to undo, and no other changes.
    pub open spec fn has_saved_as(
        self,
        now: Editor,
        name: Seq<char>,
        path: Option<Seq<char>>,
        identified: Option<Identified>,
    ) -> bool {
        match (self.current(), now.current()) {
            (Some(file), Some(saved)) => {
                &&& now.files@ == self.files@.with_shown(self.ptr@, saved)
                &&& if file@.doc.file_name is None {
                    let filed = file@.filed(name, path, identified, self.config.document.tab_width);
                    &&& saved@ == filed.committed()
                    &&& saved.file_type == file.file_type
                } else {
                    &&& saved == (FileContainer { doc: saved.doc, ..file })
                    &&& saved@ == file@.committed()
                }
            },
            _ => false,
        }
    }

    /// Takes the name that the user gave, and the outcome of saving the current document under it:
    /// the absolute path of the file, as far as it can be found out. If the document had no name,
    /// it gets this one, with the highlighting of the type that was recognised.
    pub fn save_as(
        &mut self,
        name: String,
        saved: Result<Option<String>, OxError>,
        identified: Option<Identified>,
    ) -> (done: Result<(), OxError>)
        requires
            old(self).inv(),
            old(self).current() is Some,
            old(self).current()->0@.doc.file_name is None ==> Identified::intact(identified),
            old(self).current()->0@.doc.file_name is None ==> old(self).current_fits(identified),
        ensures
            final(self).inv(),
            match saved {
                Ok(path) => {
                    &&& done is Ok
                    &&& *final(self) == Editor {
                        files: final(self).files,
                        feedback: final(self).feedback,
                        ..*old(self)
                    }
                    &&& final(self).feedback matches Feedback::Info(text)
                    &&& text@ == "Document saved as "@ + name@ + " successfully"@
                    &&& old(self).has_saved_as(*final(self), name@, chars_of(path), identified)
                },
                Err(error) => done == Err::<(), OxError>(error) && *final(self) == *old(self),
            },
    {
        let path: Option<String> = match saved {
            Ok(path) => path,
            Err(error) => {
                return Err(error);
            },
        };
        let unnamed: bool = file_name(self.doc()).is_none();
        let width: usize = self.config.document.tab_width;
        let text: String = "Document saved as ".to_owned().concat(name.as_str()).concat(
            " successfully",
        );
        proof {
            self.lemma_inv_with_shown();
        }
        match self.files.get_mut(&self.ptr) {
            Some(file) => {
                if unnamed {
                    let (highlighter, _) = split_identified(identified, width);
                    file.highlighter = highlighter;
                    run(&mut file.highlighter, cached_lines(&file.doc));
                    set_file_name(&mut file.doc, name);
                    if path.is_some() {
                        file.path = path;
                    }
                }
                // The edits so far form a group to undo
                commit(&mut file.doc);
            },
            None => {},
        }
        self.feedback = Feedback::Info(text);
        Ok(())
    }

    /// Goes one step further in saving all open documents, wherever they stand in the layout. Takes
    /// the outcome of the last document that was saved (a success without a path, to begin with),
    /// whose edits form a group to undo then. Gives back the number of the next document to save,
    /// which [`Editor::open_doc`] reaches, or none if all are saved.
    pub fn save_all(
        &mut self,
        run: &mut SaveAll,
        last: Result<Option<String>, OxError>,
    ) -> (step: Result<Option<usize>, OxError>)
        requires
            old(self).inv(),
            old(run).next <= old(self).files@.files().len(),
            old(run).next < usize::MAX,
        ensures
            final(self).inv(),
            match last {
                Ok(path) => {
                    let all = old(self).files@.files();
                    let now = final(self).files@.files();
                    let done = old(run).next;
                    &&& done == 0 ==> final(self).files@ == old(self).files@
                    &&& done > 0 ==> has_saved(all, now, done - 1, path)
                    &&& done > 0 ==> final(self).files@ == old(self).files@.with_file(
                        done - 1,
                        now[done - 1],
                    )
                    &&& if done < all.len() {
                        &&& step == Ok::<Option<usize>, OxError>(Some(done))
                        &&& final(run).next == done + 1
                        &&& old(self).same_but_files(*final(self))
                    } else {
                        &&& step == Ok::<Option<usize>, OxError>(None)
                        &&& *final(run) == *old(run)
                        &&& old(self).all_saved(*final(self))
                    }
                },
                Err(error) => {
                    &&& step == Err::<Option<usize>, OxError>(error)
                    &&& *final(self) == *old(self)
                    &&& *final(run) == *old(run)
                },
            },
    {
        let path: Option<String> = match last {
            Ok(path) => path,
            Err(error) => {
                return Err(error);
            },
        };
        let more: bool = run.next < self.files.len();
        if run.next > 0 {
            proof {
                self.lemma_inv_with_any_file(run.next - 1);
            }
            match self.files.get_nth_mut(run.next - 1) {
                Some(file) => {
                    if path.is_some() {
                        file.path = path;
                    }
                    // The edits so far form a group to undo
                    commit(&mut file.doc);
                },
                None => {},
            }
        }
        if more {
            run.next = run.next + 1;
            return Ok(Some(run.next - 1));
        }
        self.feedback = Feedback::Info("Saved all documents".to_owned());
        Ok(None)
    }

    /// Whether `now` differs in the open documents at most and says that all are saved.
    pub open spec fn all_saved(self, now: Editor) -> bool {
        &&& now == (Editor { files: now.files, feedback: now.feedback, ..self })
        &&& now.feedback matches Feedback::Info(text)
        &&& text@ == "Saved all documents"@
    }

    /// Whether the current document is not saved.
    pub open spec fn unsaved(self) -> bool {
        self.current() matches Some(file) && file@.doc.modified
    }

    /// What to ask the user before the current document is closed, if it is not saved.
    pub fn quit_question(&self) -> (question: Option<String>)
        ensures
            match question {
                Some(text) => self.unsaved() && text@ == unsaved_question(),
                None => !self.unsaved(),
            },
            match self.current() {
                Some(file) => question is Some <==> document_view(file.doc).modified,
                None => question is None,
            },
            question matches Some(text) ==> text@
                == "This document isn't saved, press Ctrl + Q to force quit or Esc to cancel"@,
    {
        match self.try_doc() {
            Some(doc) => if is_modified(doc) {
                let text: &str =
                    "This document isn't saved, press Ctrl + Q to force quit or Esc to cancel";
                Some(text.to_owned())
            } else {
                None
            },
            None => None,
        }
    }

    /// The layout once the current document is taken out and the one before it is shown.
    pub open spec fn without_current(self) -> LayoutView {
        match self.atom() {
            Some((files, ptr)) => self.files@.with_atom(
                self.ptr@,
                files.remove(ptr as int),
                if ptr == 0 {
                    0
                } else {
                    (ptr - 1) as usize
                },
            ),
            None => self.files@,
        }
    }

    /// Whether `now` is the state after the layout has become `left` and been cleaned up.
    pub open spec fn cleaned_up(self, now: Editor, left: LayoutView) -> bool {
        &&& now == (Editor { files: now.files, ptr: now.ptr, active: now.active, ..self })
        &&& now.files@ == left.pruned()
        &&& now.ptr@ == left.pruned().settled(self.ptr@)
        &&& now.active == !(left.pruned() is Empty)
    }

    /// Closes the current document if it is saved or the user confirms it, and the editor if no
    /// document is left. Takes the answer to [`Editor::quit_question`], which is not looked at if
    /// there is no question. Gives back the name of the file whose directory is to become the
    /// working directory, if another document came in its place.
    pub fn quit(&mut self, confirmed: Result<bool, OxError>) -> (moved: Result<
        Option<String>,
        OxError,
    >)
        requires
            old(self).inv(),
            old(self).atom() is Some ==> old(self).current() is Some,
        ensures
            final(self).inv(),
            match old(self).atom() {
                Some((files, ptr)) => match confirmed {
                    Err(error) if old(self).unsaved() => {
                        &&& moved == Err::<Option<String>, OxError>(error)
                        &&& *final(self) == *old(self)
                    },
                    _ => if !old(self).unsaved() || confirmed == Ok::<bool, OxError>(true) {
                        &&& old(self).cleaned_up(*final(self), old(self).without_current())
                        &&& old(self).files@.tidy() && files.len() > 1 ==> final(self).current()
                            == Some(
                            if ptr == 0 {
                                files[1]
                            } else {
                                files[ptr - 1]
                            },
                        )
                        &&& moved matches Ok(name)
                        &&& chars_of(name) == if ptr == 0 {
                            None
                        } else {
                            Some(
                                match files[ptr - 1]@.doc.file_name {
                                    Some(name) => name,
                                    None => Seq::empty(),
                                },
                            )
                        }
                    } else {
                        &&& old(self).cleaned_up(*final(self), old(self).files@)
                        &&& moved == Ok::<Option<String>, OxError>(None)
                    },
                },
                None => {
                    &&& moved == Ok::<Option<String>, OxError>(None)
                    &&& *final(self) == Editor { active: final(self).active, ..*old(self) }
                    &&& final(self).active == !(old(self).files@ is Empty)
                },
            },
    {
        let mut moved: Option<String> = None;
        if self.files.get_atom(&self.ptr).is_some() {
            let closes: bool = if is_modified(self.doc()) {
                match confirmed {
                    Ok(confirmed) => confirmed,
                    Err(error) => {
                        return Err(error);
                    },
                }
            } else {
                true
            };
            proof {
                law_atom_shows_a_document(self.files@, self.ptr@);
            }
            let ghost mut left = self.files@;
            if closes {
                match self.files.get_atom_mut(&self.ptr) {
                    Some((files, ptr)) => {
                        let at: usize = *ptr;
                        files.remove(at);
                        proof {
                            law_with_atom(
                                old(self).files@,
                                old(self).ptr@,
                                files@,
                                at,
                                old(self).ptr@,
                            );
                            law_with_atom_twice(
                                old(self).files@,
                                old(self).ptr@,
                                (files@, at),
                                (files@, (at - 1) as usize),
                            );
                            law_with_atom(
                                old(self).files@,
                                old(self).ptr@,
                                files@,
                                (at - 1) as usize,
                                old(self).ptr@,
                            );
                            left = old(self).without_current();
                            law_with_atom_wf(
                                old(self).files@,
                                old(self).ptr@,
                                files@,
                                if at == 0 {
                                    0
                                } else {
                                    (at - 1) as usize
                                },
                            );
                        }
                    },
                    None => {},
                }
                moved = self.prev();
            }
            proof {
                law_pruned_wf(left);
                law_pruned_is_tidy(left);
                law_settled_leads_to_atom(left.pruned(), self.ptr@);
            }
            // Clean up the layout, and find another place to edit in it
            self.files.clean_up();
            self.ptr = self.files.new_pointer_position(&self.ptr);
        }
        // Without any atom there is nothing left to edit
        self.active = match self.files {
            FileLayout::Empty => false,
            _ => true,
        };
        proof {
            if old(self).current() is Some && old(self).files@.tidy() && old(self).cleaned_up(
                *self,
                old(self).without_current(),
            ) {
                law_quit_shows_the_neighbour(*old(self), *self);
            }
        }
        Ok(moved)
    }
}

} // verus!
