//! Opening files.
use crate::container::{
    chars_of, chars_or_default, ContainerView, FileContainer, FileType, Identified, Opened, Target,
};
use crate::contents_laws::law_opened_document_is_what_was_read;
use crate::document::{
    all_columns_fit, cached_lines, cached_lines_fit, document_view, lemma_empty_line_fits,
    lemma_loaded_lines_fit, lines_to_load_fit, load_to, set_file_name, set_tab_width, DocumentView,
};
use crate::editor::Editor;
use crate::editor_laws::{
    law_created_file_is_unsaved, law_opened_file_is_as_saved_as_it_was_read,
};
use crate::error::{DocumentError, IoError, OxError};
use crate::highlight::{highlighter_view, new_highlighter, run, tab_width};
use crate::layout_laws::{law_find, law_with_atom, law_with_atom_wf};
use crate::ui::Size;
use kaolinite::Document;
use synoptic::Highlighter;
use vstd::prelude::*;

verus! {

/// The file name, or an empty one.
fn string_or_default(text: Option<String>) -> (string: String)
    ensures
        string@ == chars_or_default(text),
{
    match text {
        Some(text) => text,
        None => String::new(),
    }
}

/// The highlighter and the type that go with the outcome of recognising a type.
pub(crate) fn split_identified(identified: Option<Identified>, tab_width: usize) -> (parts: (
    Highlighter,
    Option<FileType>,
))
    ensures
        highlighter_view(parts.0) == Identified::highlighter_or_plain(identified, tab_width),
        match identified {
            Some(found) => parts.1 == Some(found.file_type),
            None => parts.1 is None,
        },
{
    match identified {
        Some(found) => (found.highlighter, Some(found.file_type)),
        None => (new_highlighter(tab_width), None),
    }
}

/// Whether reading the file has failed because there is no such file.
pub open spec fn is_not_found(opened: Result<Opened, OxError>) -> bool {
    opened matches Err(OxError::Kaolinite(DocumentError::Io(IoError::NotFound)))
}

/// The columns of the lines of a new document fit.
proof fn lemma_blank_lines_fit(size: Size, tab_width: usize, highlighter_width: usize)
    ensures
        all_columns_fit(ContainerView::blank(size, tab_width).doc.lines, highlighter_width),
{
    lemma_empty_line_fits(highlighter_width);
    lemma_loaded_lines_fit(
        DocumentView { tab_width, modified: true, ..DocumentView::fresh(size) },
        size.h,
        highlighter_width,
    );
}

impl Editor {
    /// The absolute path by which the file is looked for, which is empty if it does not exist.
    pub open spec fn sought(target: Target) -> Seq<char> {
        chars_or_default(target.path)
    }

    /// Whether all columns that loading and highlighting the file add up are machine integers.
    pub open spec fn loadable(self, opened: Opened) -> bool {
        let doc = document_view(opened.doc);
        let rows = self.spec_viewport(opened.size).h;
        &&& doc.loadable(rows, self.config.document.tab_width)
        &&& match opened.identified {
            Some(found) => {
                let width = highlighter_view(found.highlighter).tab_width;
                doc.loadable(rows, width) && all_columns_fit(doc.lines, width)
            },
            None => true,
        }
    }

    /// Whether the file that was read can come into the editor. Where it is open already, or could
    /// not be read, nothing is asked of it.
    pub open spec fn takes(self, target: Target, opened: Result<Opened, OxError>) -> bool {
        match (self.files@.find(Editor::sought(target)), opened) {
            (None, Ok(opened)) => Identified::intact(opened.identified) && self.loadable(opened),
            _ => true,
        }
    }

    /// What the document of the file holds when it comes into the editor.
    pub open spec fn container_of(self, target: Target, opened: Opened) -> ContainerView {
        ContainerView::read(
            opened,
            self.spec_viewport(opened.size).h,
            self.config.document.tab_width,
            chars_of(target.path),
        )
    }

    /// What the document of a file that does not exist holds when it is created.
    pub open spec fn container_to_create(
        self,
        name: Seq<char>,
        size: Size,
        identified: Option<Identified>,
    ) -> ContainerView {
        let width = self.config.document.tab_width;
        ContainerView::blank(self.spec_viewport(size), width).named(name, identified, width)
    }

    /// Whether `now` is the state after moving to the document with the number `i` in the atom
    /// at the path `at`.
    pub open spec fn moved_to(self, now: Editor, at: Seq<usize>, i: int) -> bool {
        &&& now == (Editor { files: now.files, ptr: now.ptr, ..self })
        &&& now.ptr@ == at
        &&& match self.files@.atom_at(at) {
            Some((files, _)) => now.files@ == self.files@.with_atom(at, files, i as usize),
            None => false,
        }
    }

    /// Whether all columns that loading and highlighting the file add up are machine integers.
    pub fn can_load(&self, opened: &Opened) -> (fits: bool)
        requires
            self.inv(),
        ensures
            fits == self.loadable(*opened),
    {
        let rows: usize = self.viewport(opened.size).h;
        if !lines_to_load_fit(&opened.doc, rows, self.config.document.tab_width) {
            return false;
        }
        match &opened.identified {
            Some(found) => {
                let width: usize = tab_width(&found.highlighter);
                lines_to_load_fit(&opened.doc, rows, width) && cached_lines_fit(&opened.doc, width)
            },
            None => true,
        }
    }

    /// Whether the columns of all cached lines of the current document, if there is one, are
    /// machine integers with the tab width of the highlighter, if there is one.
    pub open spec fn current_fits(self, identified: Option<Identified>) -> bool {
        match (self.current(), identified) {
            (Some(file), Some(found)) => all_columns_fit(
                file@.doc.lines,
                highlighter_view(found.highlighter).tab_width,
            ),
            _ => true,
        }
    }

    /// Whether the columns of all cached lines of the current document, if there is one, are
    /// machine integers with the tab width of the highlighter, if there is one.
    pub fn can_highlight_current(&self, identified: &Option<Identified>) -> (fits: bool)
        ensures
            fits == self.current_fits(*identified),
    {
        match (self.try_doc(), identified) {
            (Some(doc), Some(found)) => cached_lines_fit(doc, tab_width(&found.highlighter)),
            _ => true,
        }
    }

    /// Where the first document of the file with this absolute path stands, if it is open: the
    /// path of its atom, and its number there.
    pub fn already_open(&self, abs_path: &str) -> (found: Option<(Vec<usize>, usize)>)
        ensures
            match (found, self.files@.find(abs_path@)) {
                (Some((at, ptr)), Some((path, i))) => at@ == path && ptr == i,
                (None, None) => true,
                _ => false,
            },
    {
        let found: Option<(Vec<usize>, usize)> = self.files.find(Vec::new(), abs_path);
        proof {
            if let Some((path, _)) = self.files@.find(abs_path@) {
                assert(Seq::<usize>::empty() + path =~= path);
            }
        }
        found
    }

    /// Makes a container for a file, from what resolving its name and reading it have given. If
    /// the file is open already, moves to it instead and says so; what reading it has given is
    /// not looked at then.
    pub fn open_fc(
        &mut self,
        target: Target,
        opened: Result<Opened, OxError>,
    ) -> (container: Result<FileContainer, OxError>)
        requires
            old(self).inv(),
            old(self).takes(target, opened),
        ensures
            final(self).inv(),
            match old(self).files@.find(Editor::sought(target)) {
                Some((at, i)) => {
                    &&& container matches Err(OxError::AlreadyOpen { file })
                    &&& file@ == chars_or_default(target.label)
                    &&& old(self).moved_to(*final(self), at, i)
                },
                None => {
                    &&& *final(self) == *old(self)
                    &&& match (opened, container) {
                        (Ok(opened), Ok(container)) => {
                            let doc = document_view(container.doc);
                            let read = document_view(opened.doc);
                            &&& container@ == old(self).container_of(target, opened)
                            &&& doc.modified == read.modified
                            &&& doc.text == read.text
                            &&& doc.file_name == read.file_name
                            &&& doc.cursor == read.cursor && doc.offset == read.offset
                            &&& doc.patch == read.patch && doc.undo == read.undo
                            &&& doc.redo == read.redo && doc.read_only == read.read_only
                            &&& doc.tab_width == old(self).config.document.tab_width
                        },
                        (Err(error), Err(returned)) => returned == error,
                        _ => false,
                    }
                },
            },
    {
        let path: Option<String> = target.path;
        let sought: String = string_or_default(path.clone());
        match self.already_open(sought.as_str()) {
            Some((idx, ptr)) => {
                proof {
                    law_find(self.files, sought@);
                    let (files, _) = self.files@.atom_at(idx@).unwrap();
                    law_with_atom(self.files@, idx@, files, ptr, idx@);
                    law_with_atom_wf(self.files@, idx@, files, ptr);
                }
                // Move to the document that is open
                self.files.move_to(&idx, ptr);
                self.ptr = idx;
                return Err(OxError::AlreadyOpen { file: string_or_default(target.label) });
            },
            None => {},
        }
        let opened: Opened = match opened {
            Ok(opened) => opened,
            Err(error) => {
                return Err(error);
            },
        };
        let ghost read = opened;
        let size: Size = self.viewport(opened.size);
        let width: usize = self.config.document.tab_width;
        let mut doc: Document = opened.doc;
        set_tab_width(&mut doc, width);
        load_to(&mut doc, size.h);
        let (mut highlighter, file_type) = split_identified(opened.identified, width);
        proof {
            if let Some(found) = read.identified {
                lemma_loaded_lines_fit(
                    DocumentView { tab_width: width, ..document_view(read.doc) },
                    size.h,
                    highlighter_view(found.highlighter).tab_width,
                );
            }
        }
        run(&mut highlighter, cached_lines(&doc));
        proof {
            law_opened_document_is_what_was_read(*self, target, read, 0);
        }
        Ok(FileContainer { doc, highlighter, file_type, path })
    }

    /// Opens a file next to the current document, without moving to it, from what resolving its
    /// name and reading it have given. If the file is open already, moves to it instead and says
    /// so.
    pub fn open(&mut self, target: Target, opened: Result<Opened, OxError>) -> (done: Result<
        (),
        OxError,
    >)
        requires
            old(self).inv(),
            old(self).takes(target, opened),
        ensures
            final(self).inv(),
            match old(self).files@.find(Editor::sought(target)) {
                Some((at, i)) => {
                    &&& done matches Err(OxError::AlreadyOpen { file })
                    &&& file@ == chars_or_default(target.label)
                    &&& old(self).moved_to(*final(self), at, i)
                },
                None => match opened {
                    Ok(opened) => {
                        &&& done is Ok
                        &&& old(self).has_opened(
                            *final(self),
                            old(self).container_of(target, opened),
                        )
                    },
                    Err(error) => {
                        &&& done == Err::<(), OxError>(error)
                        &&& *final(self) == *old(self)
                    },
                },
            },
    {
        let file: FileContainer = match self.open_fc(target, opened) {
            Ok(file) => file,
            Err(error) => {
                return Err(error);
            },
        };
        self.take_in(file);
        Ok(())
    }

    /// Opens a file next to the current document and moves to it. Gives back the names of the
    /// files whose directories are to become the working directory, one after the other.
    pub fn open_document(
        &mut self,
        target: Target,
        opened: Result<Opened, OxError>,
    ) -> (moved: Result<(Option<String>, String), OxError>)
        requires
            old(self).inv(),
            old(self).takes(target, opened),
        ensures
            final(self).inv(),
            match old(self).files@.find(Editor::sought(target)) {
                Some((at, i)) => {
                    &&& moved matches Err(OxError::AlreadyOpen { file })
                    &&& file@ == chars_or_default(target.label)
                    &&& old(self).moved_to(*final(self), at, i)
                },
                None => match opened {
                    Ok(opened) => {
                        &&& old(self).has_moved_to_new(
                            *final(self),
                            old(self).container_of(target, opened),
                        )
                        &&& final(self).unsaved() == document_view(opened.doc).modified
                        &&& moved matches Ok(names)
                        &&& chars_of(names.0) == old(self).name_after_move(*final(self))
                        &&& names.1@ == final(self).current_name()
                    },
                    Err(error) => {
                        &&& moved == Err::<(Option<String>, String), OxError>(error)
                        &&& *final(self) == *old(self)
                    },
                },
            },
    {
        let ghost wanted = (target, opened);
        match self.open(target, opened) {
            Ok(()) => {
                let name: Option<String> = self.move_to_new(Ghost(*old(self)));
                proof {
                    law_opened_file_is_as_saved_as_it_was_read(
                        *old(self),
                        *self,
                        wanted.0,
                        wanted.1->Ok_0,
                    );
                }
                Ok((name, self.update_cwd()))
            },
            Err(error) => Err(error),
        }
    }

    /// Opens a file next to the current document, and creates a document with its name there if it
    /// does not exist. Takes what [`Editor::open`] takes and, for a file that does not exist, the
    /// outcome of asking for the size of the terminal and of recognising the type of an empty
    /// document with this name.
    pub fn open_or_new(
        &mut self,
        file_name: String,
        target: Target,
        opened: Result<Opened, OxError>,
        size: Result<Size, OxError>,
        identified: Option<Identified>,
    ) -> (done: Result<(), OxError>)
        requires
            old(self).inv(),
            old(self).takes(target, opened),
            old(self).files@.find(Editor::sought(target)) is None && is_not_found(opened)
                ==> Identified::intact(identified),
        ensures
            final(self).inv(),
            match old(self).files@.find(Editor::sought(target)) {
                Some((at, i)) => {
                    &&& done matches Err(OxError::AlreadyOpen { file })
                    &&& file@ == chars_or_default(target.label)
                    &&& old(self).moved_to(*final(self), at, i)
                },
                None => match opened {
                    Ok(opened) => {
                        &&& done is Ok
                        &&& old(self).has_opened(
                            *final(self),
                            old(self).container_of(target, opened),
                        )
                    },
                    Err(OxError::Kaolinite(DocumentError::Io(IoError::NotFound))) => match size {
                        Ok(size) => {
                            &&& done is Ok
                            &&& old(self).has_opened(
                                *final(self),
                                old(self).container_to_create(file_name@, size, identified),
                            )
                            &&& match (old(self).atom(), final(self).atom()) {
                                (Some((files, ptr)), Some((now, _))) => {
                                    let doc = now[if files.len() == 0 {
                                        0
                                    } else {
                                        ptr + 1
                                    }]@.doc;
                                    doc.modified && doc.file_name == Some(file_name@)
                                },
                                _ => {
                                    let doc = final(self).files@.files()[0]@.doc;
                                    doc.modified && doc.file_name == Some(file_name@)
                                },
                            }
                        },
                        Err(error) => {
                            &&& done == Err::<(), OxError>(error)
                            &&& *final(self) == *old(self)
                        },
                    },
                    Err(error) => {
                        &&& done == Err::<(), OxError>(error)
                        &&& *final(self) == *old(self)
                    },
                },
            },
    {
        match self.open(target, opened) {
            Err(OxError::Kaolinite(DocumentError::Io(IoError::NotFound))) => {},
            done => {
                return done;
            },
        }
        // Create a document, as there is no such file
        let size: Size = match size {
            Ok(size) => size,
            Err(error) => {
                return Err(error);
            },
        };
        let ghost name = file_name@;
        let ghost found = identified;
        let width: usize = self.config.document.tab_width;
        let mut file: FileContainer = self.make_blank(size);
        proof {
            if identified is Some {
                lemma_blank_lines_fit(
                    self.spec_viewport(size),
                    width,
                    highlighter_view(identified->0.highlighter).tab_width,
                );
            }
        }
        let (highlighter, file_type) = split_identified(identified, width);
        set_file_name(&mut file.doc, file_name);
        set_tab_width(&mut file.doc, width);
        file.highlighter = highlighter;
        run(&mut file.highlighter, cached_lines(&file.doc));
        file.file_type = file_type;
        self.take_in(file);
        proof {
            law_created_file_is_unsaved(*old(self), *self, name, size, found);
        }
        Ok(())
    }
}

} // verus!
