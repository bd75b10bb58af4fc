//! An open document together with everything that belongs to it.
use crate::document::{document_view, DocumentView};
use crate::highlight::{highlighter_view, new_highlighter, HighlighterView, Rule};
use crate::ui::Size;
use kaolinite::Document;
use synoptic::Highlighter;
use vstd::prelude::*;

verus! {

/// A type of file, by which its highlighting and its presentation are chosen.
#[derive(Debug)]
pub struct FileType {
    /// The name of the type.
    pub name: String,
}

impl FileType {
    /// The name of the type of a file of which nothing is known.
    pub open spec fn unknown() -> Seq<char> {
        "Unknown"@
    }
}

impl Default for FileType {
    fn default() -> (file_type: Self)
        ensures
            file_type.name@ == FileType::unknown(),
            file_type.name@ == "Unknown"@,
    {
        FileType { name: "Unknown".to_owned() }
    }
}

/// What is known of a document whose type has been recognised: the type, and the highlighter
/// that the configuration has for it.
pub struct Identified {
    /// The type.
    pub file_type: FileType,
    /// The highlighter.
    pub highlighter: Highlighter,
}

/// A file that has been read.
pub struct Opened {
    /// The size of the terminal when it was read.
    pub size: Size,
    /// The document, with the lines that recognising its type has put in the cache.
    pub doc: Document,
    /// Its type, if it was recognised.
    pub identified: Option<Identified>,
}

/// What resolving a file name has given.
pub struct Target {
    /// The absolute path, where the file exists.
    pub path: Option<String>,
    /// The last component of the name, where it has one.
    pub label: Option<String>,
}

/// An open document.
pub struct FileContainer {
    /// The text.
    pub doc: Document,
    /// The highlighting of the text.
    pub highlighter: Highlighter,
    /// The type, if it is known.
    pub file_type: Option<FileType>,
    /// The absolute path of the file, once it is known to exist.
    pub path: Option<String>,
}

/// What an open document holds.
#[verifier::ext_equal]
pub struct ContainerView {
    /// The text.
    pub doc: DocumentView,
    /// The highlighting of the text.
    pub highlighter: HighlighterView,
    /// The name of the type, if it is known.
    pub file_type: Option<Seq<char>>,
    /// The absolute path of the file, once it is known to exist.
    pub path: Option<Seq<char>>,
}

/// The characters of a string, if there is one.
pub open spec fn chars_of(text: Option<String>) -> Option<Seq<char>> {
    match text {
        Some(text) => Some(text@),
        None => None,
    }
}

/// The characters of a string, or none if there is no string.
pub open spec fn chars_or_default(text: Option<String>) -> Seq<char> {
    match text {
        Some(text) => text@,
        None => Seq::empty(),
    }
}

impl Identified {
    /// Whether a highlighter, if there is one, has all that its rules refer to.
    pub open spec fn intact(identified: Option<Self>) -> bool {
        identified matches Some(found) ==> highlighter_view(found.highlighter).intact
    }

    /// The name of the type, if one was recognised.
    pub open spec fn name_of_type(identified: Option<Self>) -> Option<Seq<char>> {
        match identified {
            Some(found) => Some(found.file_type.name@),
            None => None,
        }
    }

    /// The highlighter that goes with the outcome of recognising a type: that of the type, or one
    /// without rules.
    pub open spec fn highlighter_or_plain(
        identified: Option<Self>,
        tab_width: usize,
    ) -> HighlighterView {
        match identified {
            Some(found) => highlighter_view(found.highlighter),
            None => HighlighterView::fresh(tab_width),
        }
    }
}

impl Identified {
    /// A type with a highlighter that has these rules, if a highlighter takes all of them.
    pub fn new(file_type: FileType, rules: &Vec<Rule>, tab_width: usize) -> (identified: Option<
        Self,
    >)
        ensures
            match identified {
                Some(found) => {
                    &&& forall|i: int| 0 <= i < rules.len() ==> (#[trigger] rules[i])@.valid()
                    &&& found.file_type == file_type
                    &&& highlighter_view(found.highlighter) == (HighlighterView {
                        rules: Seq::new(rules@.len(), |i: int| rules[i]@),
                        ..HighlighterView::fresh(tab_width)
                    })
                },
                None => exists|i: int| 0 <= i < rules.len() && !(#[trigger] rules[i])@.valid(),
            },
    {
        let mut highlighter: Highlighter = new_highlighter(tab_width);
        let mut i: usize = 0;
        while i < rules.len()
            invariant
                i <= rules.len(),
                forall|j: int| 0 <= j < i ==> (#[trigger] rules[j])@.valid(),
                highlighter_view(highlighter) == (HighlighterView {
                    rules: Seq::new(i as nat, |j: int| rules[j]@),
                    ..HighlighterView::fresh(tab_width)
                }),
            decreases rules.len() - i,
        {
            if !rules[i].add_to(&mut highlighter) {
                return None;
            }
            i = i + 1;
            assert(highlighter_view(highlighter).rules =~= Seq::new(
                i as nat,
                |j: int| rules[j]@,
            ));
        }
        Some(Identified { file_type, highlighter })
    }
}

impl FileContainer {
    /// What the container holds.
    pub open spec fn view(self) -> ContainerView {
        ContainerView {
            doc: document_view(self.doc),
            highlighter: highlighter_view(self.highlighter),
            file_type: match self.file_type {
                Some(file_type) => Some(file_type.name@),
                None => None,
            },
            path: chars_of(self.path),
        }
    }
}

impl ContainerView {
    /// A new document that belongs to no file and counts as unsaved.
    pub open spec fn blank(size: Size, tab_width: usize) -> Self {
        let doc = DocumentView { tab_width, modified: true, ..DocumentView::fresh(size) }.loaded(
            size.h,
        );
        ContainerView {
            doc,
            highlighter: HighlighterView::fresh(4).after_run(doc.lines),
            file_type: Some(FileType::unknown()),
            path: None,
        }
    }

    /// The document of a file that has been read, with the lines that the terminal can show in
    /// the cache.
    pub open spec fn read(
        opened: Opened,
        rows: usize,
        tab_width: usize,
        path: Option<Seq<char>>,
    ) -> Self {
        let doc = DocumentView { tab_width, ..document_view(opened.doc) }.loaded(rows);
        ContainerView {
            doc,
            highlighter: Identified::highlighter_or_plain(opened.identified, tab_width).after_run(
                doc.lines,
            ),
            file_type: Identified::name_of_type(opened.identified),
            path,
        }
    }

    /// The document once it belongs to a file with this name that is still to be written.
    pub open spec fn named(
        self,
        name: Seq<char>,
        identified: Option<Identified>,
        tab_width: usize,
    ) -> Self {
        ContainerView {
            doc: DocumentView { file_name: Some(name), tab_width, ..self.doc },
            highlighter: Identified::highlighter_or_plain(identified, tab_width).after_run(
                self.doc.lines,
            ),
            file_type: Identified::name_of_type(identified),
            path: self.path,
        }
    }

    /// The document once it belongs to the file with this name that it was written to.
    pub open spec fn filed(
        self,
        name: Seq<char>,
        path: Option<Seq<char>>,
        identified: Option<Identified>,
        tab_width: usize,
    ) -> Self {
        ContainerView {
            doc: DocumentView { file_name: Some(name), ..self.doc },
            highlighter: Identified::highlighter_or_plain(identified, tab_width).after_run(
                self.doc.lines,
            ),
            file_type: self.file_type,
            path: if path is Some {
                path
            } else {
                self.path
            },
        }
    }

    /// The document once its edits form a group to undo.
    pub open spec fn committed(self) -> Self {
        ContainerView { doc: self.doc.committed(), ..self }
    }
}

} // verus!
