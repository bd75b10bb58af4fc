//! The editor: its state, and what is done to it.
use crate::config::Config;
use crate::container::{chars_of, ContainerView, FileContainer, FileType};
use crate::document::{
    cached_lines, file_name, lemma_empty_line_fits, load_to, new_document, set_modified,
    set_tab_width,
};
use crate::error::OxError;
use crate::highlight::{new_highlighter, run};
use crate::input::MouseEvent;
use crate::layout::{lemma_with_same_atom, FileLayout, LayoutView};
use crate::layout_laws::{
    law_atom_len, law_atom_shows_a_document, law_with_atom, law_with_atom_twice, law_with_atom_wf,
    law_with_file,
};
use crate::ui::{Feedback, Loc, Size};
use kaolinite::Document;
use vstd::prelude::*;

verus! {

/// The state of the editor.
pub struct Editor {
    /// Whether to draw everything again on the next cycle.
    pub needs_rerender: bool,
    /// The configuration.
    pub config: Config,
    /// The open documents.
    pub files: FileLayout,
    /// The path of the atom that is being edited.
    pub ptr: Vec<usize>,
    /// Whether the editor is still running.
    pub active: bool,
    /// Whether to show the greeting message the next time that everything is drawn.
    pub greet: bool,
    /// The message below the status line.
    pub feedback: Feedback,
    /// A command that is still to be run.
    pub command: Option<String>,
    /// When a key was last pressed, in nanoseconds.
    pub last_active: u128,
    /// The number of rows by which the document is pushed down.
    pub push_down: usize,
    /// Where the configuration file is.
    pub config_path: String,
    /// Whether a plug-in is in control.
    pub plugin_active: bool,
    /// The last click, and when it was made, in nanoseconds.
    pub last_click: Option<(u128, MouseEvent)>,
    /// The selection that a double click has made.
    pub alt_click_state: Option<(Loc, Loc)>,
}

/// The number that a new document gets next to the one that is shown.
pub open spec fn slot(len: nat, ptr: usize) -> int {
    if ptr + 1 >= len {
        len as int
    } else {
        ptr + 1
    }
}

/// Whether `now` is `files` with one more document next to the one that is shown.
pub open spec fn has_gained(
    files: Seq<FileContainer>,
    ptr: usize,
    now: Seq<FileContainer>,
    file: ContainerView,
) -> bool {
    let at = slot(files.len(), ptr);
    &&& now == files.insert(at, now[at])
    &&& now[at]@ == file
}

impl Editor {
    /// The atom that is being edited.
    pub open spec fn atom(self) -> Option<(Seq<FileContainer>, usize)> {
        self.files@.atom_at(self.ptr@)
    }

    /// The document that is being edited.
    pub open spec fn current(self) -> Option<FileContainer> {
        self.files@.shown_at(self.ptr@)
    }

    /// The name of the file of the document that is being edited, which is empty if it has none.
    pub open spec fn current_name(self) -> Seq<char> {
        match self.current() {
            Some(file) => match file@.doc.file_name {
                Some(name) => name,
                None => Seq::empty(),
            },
            None => Seq::empty(),
        }
    }

    /// What holds of the editor at any time: every atom shows one of its documents, and unless
    /// nothing is open, an atom is being edited.
    pub open spec fn inv(self) -> bool {
        &&& self.files@.wf()
        &&& self.files@ is Empty ==> self.ptr@ == Seq::<usize>::empty()
        &&& !(self.files@ is Empty) ==> self.atom() is Some
        &&& self.push_down < usize::MAX
    }

    /// The layout after moving to the next document of the atom, if there is one.
    pub open spec fn after_next(self) -> LayoutView {
        match self.atom() {
            Some((files, ptr)) => if ptr + 1 < files.len() {
                self.files@.with_atom(self.ptr@, files, (ptr + 1) as usize)
            } else {
                self.files@
            },
            None => self.files@,
        }
    }

    /// Whether there is a next document in the atom.
    pub open spec fn has_next(self) -> bool {
        self.atom() matches Some((files, ptr)) && ptr + 1 < files.len()
    }

    /// The layout after moving to the previous document of the atom, if there is one.
    pub open spec fn after_prev(self) -> LayoutView {
        match self.atom() {
            Some((files, ptr)) => if ptr != 0 {
                self.files@.with_atom(self.ptr@, files, (ptr - 1) as usize)
            } else {
                self.files@
            },
            None => self.files@,
        }
    }

    /// Whether there is a previous document in the atom.
    pub open spec fn has_prev(self) -> bool {
        self.atom() matches Some((files, ptr)) && ptr != 0
    }

    /// Whether the two differ in the open documents at most.
    pub open spec fn same_but_files(self, other: Editor) -> bool {
        other == (Editor { files: other.files, ..self })
    }

    /// The editor with another answer to whether the greeting message is shown.
    pub open spec fn greeting(self, greet: bool) -> Editor {
        Editor { greet, ..self }
    }

    /// The room that a document has on a terminal of this size.
    pub open spec fn spec_viewport(self, size: Size) -> Size {
        Size {
            w: size.w,
            h: if size.h >= 1 + self.push_down {
                (size.h - (1 + self.push_down)) as usize
            } else {
                0
            },
        }
    }

    /// Whether `now` is the state once a document has come next to the current one.
    pub open spec fn gained(self, now: Editor, file: ContainerView) -> bool {
        match (self.atom(), now.atom()) {
            (Some((files, ptr)), Some((now_files, now_ptr))) => {
                &&& now_ptr == ptr
                &&& has_gained(files, ptr, now_files, file)
                &&& now.files@ == self.files@.with_atom(self.ptr@, now_files, ptr)
            },
            _ => false,
        }
    }

    /// Whether `now` holds one document alone, in one atom, and it is current.
    pub open spec fn holds_only(now: Editor, file: ContainerView) -> bool {
        match now.files@ {
            LayoutView::Atom(files, ptr) => {
                &&& files.len() == 1
                &&& files[0]@ == file
                &&& ptr == 0
                &&& now.current() == Some(files[0])
            },
            _ => false,
        }
    }

    /// Whether `now` is the state once a document has come in: next to the current one or, where
    /// no atom is being edited, as the only one of a new atom.
    pub open spec fn has_opened(self, now: Editor, file: ContainerView) -> bool {
        &&& self.same_but_files(now)
        &&& self.atom() is Some ==> self.gained(now, file)
        &&& self.atom() is None ==> Editor::holds_only(now, file)
    }

    /// Whether `now` is the state once a document has come in and been moved to.
    pub open spec fn has_moved_to_new(self, now: Editor, file: ContainerView) -> bool {
        &&& self.same_but_files(now)
        &&& self.atom() is Some ==> self.gained_and_moved(now, file)
        &&& self.atom() is None ==> Editor::holds_only(now, file)
    }

    /// The name of the file whose directory is to become the working directory once a new document
    /// has been moved to. There is none if the editor has not moved, as the document was the first
    /// of its atom.
    pub open spec fn name_after_move(self, now: Editor) -> Option<Seq<char>> {
        match self.atom() {
            Some((files, _)) if files.len() > 0 => Some(now.current_name()),
            _ => None,
        }
    }

    /// Whether `now` is the state once a document has come next to the current one and been moved
    /// to.
    pub open spec fn gained_and_moved(self, now: Editor, file: ContainerView) -> bool {
        match (self.atom(), now.atom()) {
            (Some((files, ptr)), Some((now_files, now_ptr))) => {
                &&& now_ptr == slot(files.len(), ptr)
                &&& has_gained(files, ptr, now_files, file)
                &&& now.files@ == self.files@.with_atom(self.ptr@, now_files, now_ptr)
                &&& now.current() == Some(now_files[slot(files.len(), ptr)])
            },
            _ => false,
        }
    }
}

impl Editor {
    /// The invariant holds again once another atom stands in place of the one that is being
    /// edited.
    pub proof fn lemma_inv_with_atom(self, files: Seq<FileContainer>, ptr: usize)
        requires
            self.inv(),
            self.atom() is Some,
            ptr < files.len() || ptr == 0,
        ensures
            self.files@.with_atom(self.ptr@, files, ptr).wf(),
            !(self.files@.with_atom(self.ptr@, files, ptr) is Empty),
            self.files@.with_atom(self.ptr@, files, ptr).atom_at(self.ptr@) == Some((files, ptr)),
    {
        law_with_atom(self.files@, self.ptr@, files, ptr, self.ptr@);
        law_with_atom_wf(self.files@, self.ptr@, files, ptr);
    }

    /// The invariant holds again whatever becomes of one document of the atom that is being
    /// edited.
    pub proof fn lemma_inv_with_file(self, files: Seq<FileContainer>, ptr: usize, idx: int)
        requires
            self.inv(),
            self.atom() == Some((files, ptr)),
            0 <= idx < files.len(),
        ensures
            forall|file: FileContainer|
                #![trigger files.update(idx, file)]
                {
                    let now = self.files@.with_atom(self.ptr@, files.update(idx, file), ptr);
                    &&& now.wf()
                    &&& !(now is Empty)
                    &&& now.atom_at(self.ptr@) == Some((files.update(idx, file), ptr))
                },
    {
        law_atom_shows_a_document(self.files@, self.ptr@);
        assert forall|file: FileContainer|
            #![trigger files.update(idx, file)]
            {
                let now = self.files@.with_atom(self.ptr@, files.update(idx, file), ptr);
                &&& now.wf()
                &&& !(now is Empty)
                &&& now.atom_at(self.ptr@) == Some((files.update(idx, file), ptr))
            } by {
            self.lemma_inv_with_atom(files.update(idx, file), ptr);
        }
    }

    /// The invariant holds again whatever becomes of any one document.
    pub proof fn lemma_inv_with_any_file(self, n: int)
        requires
            self.inv(),
        ensures
            0 <= n < self.files@.files().len() ==> forall|file: FileContainer|
                {
                    let now = #[trigger] self.files@.with_file(n, file);
                    &&& now.wf()
                    &&& !(now is Empty)
                    &&& now.atom_at(self.ptr@) is Some
                    &&& now.files() == self.files@.files().update(n, file)
                },
    {
        if 0 <= n < self.files@.files().len() {
            assert forall|file: FileContainer|
                {
                    let now = #[trigger] self.files@.with_file(n, file);
                    &&& now.wf()
                    &&& !(now is Empty)
                    &&& now.atom_at(self.ptr@) is Some
                    &&& now.files() == self.files@.files().update(n, file)
                } by {
                law_with_file(self.files, n, file, self.ptr@);
            }
        }
    }

    /// The invariant holds again whatever becomes of the current document.
    pub proof fn lemma_inv_with_shown(self)
        requires
            self.inv(),
        ensures
            self.current() is Some ==> forall|file: FileContainer|
                {
                    let now = #[trigger] self.files@.with_shown(self.ptr@, file);
                    &&& now.wf()
                    &&& !(now is Empty)
                    &&& now.shown_at(self.ptr@) == Some(file)
                    &&& match (self.atom(), now.atom_at(self.ptr@)) {
                        (Some((files, ptr)), Some((now_files, now_ptr))) => {
                            now_files == files.update(ptr as int, file) && now_ptr == ptr
                        },
                        _ => false,
                    }
                },
    {
        if let Some(current) = self.current() {
            let (files, ptr) = self.atom().unwrap();
            self.lemma_inv_with_file(files, ptr, ptr as int);
            assert forall|file: FileContainer|
                {
                    let now = #[trigger] self.files@.with_shown(self.ptr@, file);
                    &&& now.wf()
                    &&& !(now is Empty)
                    &&& now.shown_at(self.ptr@) == Some(file)
                    &&& now.atom_at(self.ptr@) == Some((files.update(ptr as int, file), ptr))
                } by {
                let changed = files.update(ptr as int, file);
            }
        }
    }
}

/// Puts a document next to the one that is shown.
pub(crate) fn insert_next(files: &mut Vec<FileContainer>, ptr: usize, file: FileContainer)
    requires
        ptr < old(files).len() || ptr == 0,
    ensures
        final(files)@ == old(files)@.insert(slot(old(files)@.len(), ptr), file),
{
    if ptr + 1 >= files.len() {
        files.push(file);
        assert(files@ =~= old(files)@.insert(old(files)@.len() as int, file));
    } else {
        files.insert(ptr + 1, file);
    }
}

impl Editor {
    /// Makes an editor in which nothing is open yet, from the outcome of making a configuration,
    /// at the given time.
    pub fn new(config: Result<Config, OxError>, now: u128) -> (editor: Result<Self, OxError>)
        ensures
            match (config, editor) {
                (Ok(config), Ok(editor)) => {
                    &&& editor.inv()
                    &&& editor.files@ == LayoutView::Atom(Seq::empty(), 0)
                    &&& editor.ptr@ == Seq::<usize>::empty()
                    &&& editor.config == config
                    &&& editor.active
                    &&& !editor.greet
                    &&& editor.needs_rerender
                    &&& editor.feedback is Silent
                    &&& editor.command is None
                    &&& editor.last_active == now
                    &&& editor.push_down == 1
                    &&& editor.config_path@ == "~/.oxrc"@
                    &&& !editor.plugin_active
                    &&& editor.last_click is None
                    &&& editor.alt_click_state is None
                },
                (Err(error), Err(returned)) => returned == error,
                _ => false,
            },
    {
        match config {
            Ok(config) => Ok(
                Editor {
                    files: FileLayout::Atom(Vec::new(), 0),
                    ptr: Vec::new(),
                    config,
                    active: true,
                    greet: false,
                    needs_rerender: true,
                    feedback: Feedback::Silent,
                    command: None,
                    last_active: now,
                    push_down: 1,
                    config_path: "~/.oxrc".to_owned(),
                    plugin_active: false,
                    last_click: None,
                    alt_click_state: None,
                },
            ),
            Err(error) => Err(error),
        }
    }

    /// Whether the invariant holds.
    pub fn is_valid(&self) -> (valid: bool)
        ensures
            valid == self.inv(),
    {
        let leads_to_atom: bool = match self.files {
            FileLayout::Empty => self.ptr.len() == 0,
            _ => self.files.get_atom(&self.ptr).is_some(),
        };
        assert(self.ptr@.len() == 0 ==> self.ptr@ =~= Seq::empty());
        self.files.is_well_formed() && leads_to_atom && self.push_down < usize::MAX
    }

    /// The room that a document has on a terminal of this size.
    pub fn viewport(&self, size: Size) -> (viewport: Size)
        requires
            self.push_down < usize::MAX,
        ensures
            viewport == self.spec_viewport(size),
            viewport.w == size.w,
            size.h >= 1 + self.push_down ==> viewport.h + 1 + self.push_down == size.h,
            size.h < 1 + self.push_down ==> viewport.h == 0,
    {
        Size { w: size.w, h: size.h.saturating_sub(1 + self.push_down) }
    }

    /// Makes a document that belongs to no file, for a terminal of this size.
    pub(crate) fn make_blank(&self, size: Size) -> (file: FileContainer)
        requires
            self.push_down < usize::MAX,
        ensures
            file@ == ContainerView::blank(
                self.spec_viewport(size),
                self.config.document.tab_width,
            ),
    {
        let size: Size = self.viewport(size);
        let mut doc: Document = new_document(size);
        set_tab_width(&mut doc, self.config.document.tab_width);
        set_modified(&mut doc, true);
        // Load all the lines that the viewport can show
        proof {
            lemma_empty_line_fits(self.config.document.tab_width);
        }
        load_to(&mut doc, size.h);
        let mut highlighter = new_highlighter(4);
        run(&mut highlighter, cached_lines(&doc));
        FileContainer { doc, highlighter, file_type: Some(FileType::default()), path: None }
    }

    /// Puts a document next to the current one or, where no atom is being edited, into a new atom.
    pub(crate) fn take_in(&mut self, file: FileContainer)
        requires
            old(self).inv(),
        ensures
            final(self).inv(),
            old(self).has_opened(*final(self), file@),
    {
        proof {
            law_atom_shows_a_document(self.files@, self.ptr@);
        }
        let mut sole: Option<FileContainer> = None;
        match self.files.get_atom_mut(&self.ptr) {
            Some((files, ptr)) => {
                insert_next(files, *ptr, file);
                proof {
                    old(self).lemma_inv_with_atom(files@, *ptr);
                }
            },
            None => {
                sole = Some(file);
            },
        }
        match sole {
            Some(file) => {
                let mut files: Vec<FileContainer> = Vec::new();
                files.push(file);
                self.files = FileLayout::Atom(files, 0);
            },
            None => {},
        }
    }

    /// Creates a document next to the current one, without moving to it, or in a new atom if
    /// nothing is open. Takes the outcome of asking for the size of the terminal.
    pub fn blank(&mut self, size: Result<Size, OxError>) -> (done: Result<(), OxError>)
        requires
            old(self).inv(),
        ensures
            final(self).inv(),
            match size {
                Ok(size) => {
                    &&& done is Ok
                    &&& old(self).has_opened(
                        *final(self),
                        ContainerView::blank(
                            old(self).spec_viewport(size),
                            old(self).config.document.tab_width,
                        ),
                    )
                },
                Err(error) => done == Err::<(), OxError>(error) && *final(self) == *old(self),
            },
    {
        match size {
            Ok(size) => {
                let file: FileContainer = self.make_blank(size);
                self.take_in(file);
                Ok(())
            },
            Err(error) => Err(error),
        }
    }

    /// Creates a document next to the current one and moves to it. Takes the outcome of asking
    /// for the size of the terminal, and gives back the name of the file whose directory is to
    /// become the working directory, if it moved.
    pub fn new_document(&mut self, size: Result<Size, OxError>) -> (moved: Result<
        Option<String>,
        OxError,
    >)
        requires
            old(self).inv(),
        ensures
            final(self).inv(),
            match size {
                Ok(size) => {
                    &&& old(self).has_moved_to_new(
                        *final(self),
                        ContainerView::blank(
                            old(self).spec_viewport(size),
                            old(self).config.document.tab_width,
                        ),
                    )
                    &&& moved matches Ok(name)
                    &&& chars_of(name) == old(self).name_after_move(*final(self))
                },
                Err(error) => {
                    &&& moved == Err::<Option<String>, OxError>(error)
                    &&& *final(self) == *old(self)
                },
            },
    {
        match self.blank(size) {
            Ok(()) => Ok(self.move_to_new(Ghost(*old(self)))),
            Err(error) => Err(error),
        }
    }

    /// Creates a document if none is open, and shows the greeting message then if the
    /// configuration says so. Takes the outcome of asking for the size of the terminal.
    pub fn new_if_empty(&mut self, size: Result<Size, OxError>) -> (done: Result<(), OxError>)
        requires
            old(self).inv(),
        ensures
            final(self).inv(),
            old(self).files@.files().len() > 0 ==> done is Ok && *final(self) == *old(self),
            old(self).files@.files().len() == 0 ==> match size {
                Ok(size) => {
                    &&& done is Ok
                    &&& *final(self) == Editor {
                        files: final(self).files,
                        greet: old(self).config.greeting_message.enabled,
                        ..*old(self)
                    }
                    &&& old(self).has_opened(
                        final(self).greeting(old(self).greet),
                        ContainerView::blank(
                            old(self).spec_viewport(size),
                            old(self).config.document.tab_width,
                        ),
                    )
                },
                Err(error) => done == Err::<(), OxError>(error) && *final(self) == *old(self),
            },
    {
        if self.files.len() == 0 {
            match self.blank(size) {
                Ok(()) => {},
                Err(error) => {
                    return Err(error);
                },
            }
            self.greet = self.config.greeting_message.enabled;
        }
        Ok(())
    }

    /// Moves to the document that has just come in, if another one is current. Gives back the name
    /// of the file whose directory is to become the working directory, if it moved.
    pub(crate) fn move_to_new(&mut self, Ghost(before): Ghost<Editor>) -> (moved: Option<String>)
        requires
            before.inv(),
            old(self).inv(),
            exists|file: ContainerView| before.has_opened(*old(self), file),
        ensures
            final(self).inv(),
            forall|file: ContainerView| #[trigger]
                before.has_opened(*old(self), file) ==> before.has_moved_to_new(
                    *final(self),
                    file,
                ),
            chars_of(moved) == before.name_after_move(*final(self)),
    {
        let moved: Option<String> = self.next();
        proof {
            if let Some((files, ptr)) = before.atom() {
                let path = before.ptr@;
                let (now, _) = old(self).atom().unwrap();
                let at = slot(files.len(), ptr) as usize;
                law_atom_shows_a_document(before.files@, path);
                law_atom_len(old(self).files, path);
                law_with_atom_twice(before.files@, path, (now, ptr), (now, at));
                law_with_atom(before.files@, path, now, at, path);
            }
        }
        moved
    }

    /// Moves to the next document of the atom, if there is one. Gives back the name of the file
    /// whose directory is to become the working directory, if it moved.
    pub fn next(&mut self) -> (moved: Option<String>)
        requires
            old(self).inv(),
        ensures
            final(self).inv(),
            old(self).same_but_files(*final(self)),
            final(self).files@ == old(self).after_next(),
            match old(self).atom() {
                Some((files, ptr)) => if ptr + 1 < files.len() {
                    &&& final(self).atom() == Some((files, (ptr + 1) as usize))
                    &&& final(self).current() == Some(files[ptr + 1])
                    &&& moved is Some
                } else {
                    final(self).files@ == old(self).files@ && moved is None
                },
                None => final(self).files@ == old(self).files@ && moved is None,
            },
            chars_of(moved) == if old(self).has_next() {
                Some(final(self).current_name())
            } else {
                None
            },
    {
        proof {
            law_atom_shows_a_document(self.files@, self.ptr@);
            lemma_with_same_atom(self.files@, self.ptr@);
        }
        let mut moves: bool = false;
        match self.files.get_atom_mut(&self.ptr) {
            Some((files, ptr)) => {
                let len: usize = files.len();
                if *ptr + 1 < len {
                    *ptr = *ptr + 1;
                    moves = true;
                }
                proof {
                    old(self).lemma_inv_with_atom(files@, *ptr);
                }
            },
            None => {},
        }
        if moves {
            Some(self.update_cwd())
        } else {
            None
        }
    }

    /// Moves to the previous document of the atom, if there is one. Gives back the name of the
    /// file whose directory is to become the working directory, if it moved.
    pub fn prev(&mut self) -> (moved: Option<String>)
        requires
            old(self).atom() matches Some((files, ptr)) ==> ptr <= files.len() || ptr == 0,
        ensures
            old(self).inv() ==> final(self).inv(),
            old(self).same_but_files(*final(self)),
            final(self).files@ == old(self).after_prev(),
            match old(self).atom() {
                Some((files, ptr)) => if ptr > 0 {
                    &&& final(self).atom() == Some((files, (ptr - 1) as usize))
                    &&& final(self).current() == Some(files[ptr - 1])
                    &&& moved is Some
                } else {
                    final(self).files@ == old(self).files@ && moved is None
                },
                None => final(self).files@ == old(self).files@ && moved is None,
            },
            chars_of(moved) == if old(self).has_prev() {
                Some(final(self).current_name())
            } else {
                None
            },
    {
        proof {
            lemma_with_same_atom(self.files@, self.ptr@);
        }
        let mut moves: bool = false;
        match self.files.get_atom_mut(&self.ptr) {
            Some((files, ptr)) => {
                if *ptr != 0 {
                    *ptr = ptr.saturating_sub(1);
                    moves = true;
                }
                proof {
                    law_with_atom(old(self).files@, old(self).ptr@, files@, *ptr, old(self).ptr@);
                    if old(self).inv() {
                        law_atom_shows_a_document(old(self).files@, old(self).ptr@);
                        old(self).lemma_inv_with_atom(files@, *ptr);
                    }
                }
            },
            None => {},
        }
        if moves {
            Some(self.update_cwd())
        } else {
            None
        }
    }

    /// The name of the file whose directory is the working directory while the current document
    /// is being edited. It is empty if the document has no file. Once its absolute path is known,
    /// [`directory_of`](crate::directory::directory_of) tells the directory.
    pub fn update_cwd(&self) -> (name: String)
        requires
            self.current() is Some,
        ensures
            name@ == self.current_name(),
    {
        match file_name(self.doc()) {
            Some(name) => name.clone(),
            None => String::new(),
        }
    }

    /// The current document, if there is one.
    pub fn try_doc(&self) -> (doc: Option<&Document>)
        ensures
            match doc {
                Some(doc) => self.current() matches Some(file) && file.doc == *doc,
                None => self.current() is None,
            },
    {
        match self.files.get(&self.ptr) {
            Some(file) => Some(&file.doc),
            None => None,
        }
    }

    /// The current document, if there is one, to be changed.
    pub fn try_doc_mut(&mut self) -> (doc: Option<&mut Document>)
        requires
            old(self).inv(),
        ensures
            final(self).inv(),
            old(self).same_but_files(*final(self)),
            match doc {
                Some(doc) => match old(self).current() {
                    Some(file) => {
                        &&& file.doc == *doc
                        &&& final(self).files@ == old(self).files@.with_shown(
                            old(self).ptr@,
                            FileContainer { doc: *final(doc), ..file },
                        )
                    },
                    None => false,
                },
                None => old(self).current() is None && final(self).files@ == old(self).files@,
            },
    {
        proof {
            self.lemma_inv_with_shown();
        }
        match self.files.get_mut(&self.ptr) {
            Some(file) => Some(&mut file.doc),
            None => None,
        }
    }

    /// The document with this number in the atom that is being edited, to be changed.
    pub fn get_doc(&mut self, idx: usize) -> (doc: &mut Document)
        requires
            old(self).inv(),
            old(self).atom() matches Some((files, _)) && idx < files.len(),
        ensures
            final(self).inv(),
            old(self).same_but_files(*final(self)),
            match old(self).atom() {
                Some((files, ptr)) => {
                    &&& files[idx as int].doc == *doc
                    &&& final(self).files@ == old(self).files@.with_atom(
                        old(self).ptr@,
                        files.update(
                            idx as int,
                            FileContainer { doc: *final(doc), ..files[idx as int] },
                        ),
                        ptr,
                    )
                },
                None => false,
            },
    {
        proof {
            let (files, ptr) = self.atom().unwrap();
            self.lemma_inv_with_file(files, ptr, idx as int);
        }
        let (files, _) = self.files.get_atom_mut(&self.ptr).unwrap();
        &mut files[idx].doc
    }

    /// The current document.
    pub fn doc(&self) -> (doc: &Document)
        requires
            self.current() is Some,
        ensures
            self.current() matches Some(file) && file.doc == *doc,
    {
        &self.files.get(&self.ptr).unwrap().doc
    }

    /// The current document, to be changed.
    pub fn doc_mut(&mut self) -> (doc: &mut Document)
        requires
            old(self).inv(),
            old(self).current() is Some,
        ensures
            final(self).inv(),
            old(self).same_but_files(*final(self)),
            match old(self).current() {
                Some(file) => {
                    &&& file.doc == *doc
                    &&& final(self).files@ == old(self).files@.with_shown(
                        old(self).ptr@,
                        FileContainer { doc: *final(doc), ..file },
                    )
                },
                None => false,
            },
    {
        proof {
            self.lemma_inv_with_shown();
        }
        &mut self.files.get_mut(&self.ptr).unwrap().doc
    }

    /// The document with this number among all that are open, to be changed, if there are that
    /// many.
    pub fn open_doc(&mut self, number: usize) -> (doc: Option<&mut Document>)
        requires
            old(self).inv(),
        ensures
            final(self).inv(),
            old(self).same_but_files(*final(self)),
            match doc {
                Some(doc) => {
                    let all = old(self).files@.files();
                    let file = FileContainer { doc: *final(doc), ..all[number as int] };
                    &&& number < all.len()
                    &&& all[number as int].doc == *doc
                    &&& final(self).files@ == old(self).files@.with_file(number as int, file)
                    &&& final(self).files@.files() == all.update(number as int, file)
                },
                None => {
                    &&& number >= old(self).files@.files().len()
                    &&& final(self).files@ == old(self).files@
                },
            },
    {
        proof {
            self.lemma_inv_with_any_file(number as int);
        }
        match self.files.get_nth_mut(number) {
            Some(file) => Some(&mut file.doc),
            None => None,
        }
    }

    /// The number of documents that are open, or the largest machine integer if there are more.
    pub fn doc_len(&self) -> (len: usize)
        ensures
            self.files@.files().len() <= usize::MAX ==> len == self.files@.files().len(),
            self.files@.files().len() > usize::MAX ==> len == usize::MAX,
    {
        self.files.len()
    }
}

} // verus!
