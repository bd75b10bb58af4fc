//! The text buffers of the `kaolinite` crate, and what this library knows of them.
//!
//! A [`Document`] is opaque to the verifier. [`document_view`] names the part of one that the
//! editor depends on, and each function below says what one operation of `kaolinite` does to it.
use crate::ui::{Loc, Size};
use kaolinite::event::Event as Edit;
use kaolinite::Document;
use vstd::prelude::*;

verus! {

/// The document type of `kaolinite`.
#[verifier::external_type_specification]
#[verifier::external_body]
pub struct ExDocument(kaolinite::Document);

/// The type of one edit in the history of a document of `kaolinite`.
#[verifier::external_type_specification]
#[verifier::external_body]
pub struct ExEdit(kaolinite::event::Event);

/// What a document holds.
#[verifier::ext_equal]
pub struct DocumentView {
    /// The name of the file it belongs to.
    pub file_name: Option<Seq<char>>,
    /// Every line of the text, each with the line break that ends it.
    pub text: Seq<Seq<char>>,
    /// The lines that are cached, without the newlines and carriage returns at their ends.
    pub lines: Seq<Seq<char>>,
    /// How many lines of the text have been loaded into the cache.
    pub loaded_to: usize,
    /// Where tabs stand, by the line: the column and the number of the character.
    pub tabs: Map<usize, Seq<(usize, usize)>>,
    /// Where wide characters stand, by the line: the column and the number of the character.
    pub wide: Map<usize, Seq<(usize, usize)>>,
    /// The room that it has on the terminal.
    pub size: Size,
    /// The number of columns that a tab takes.
    pub tab_width: usize,
    /// Whether it differs from what is on the disk.
    pub modified: bool,
    /// The edits since the last commit.
    pub patch: Seq<Edit>,
    /// The committed groups of edits, the latest at the end.
    pub undo: Seq<Seq<Edit>>,
    /// The groups of edits that were undone, the latest at the end.
    pub redo: Seq<Seq<Edit>>,
    /// Where the cursor is on the terminal.
    pub cursor: Loc,
    /// How far the text is scrolled.
    pub offset: Loc,
    /// The character of its line that the cursor is on.
    pub char_ptr: usize,
    /// The column to which the cursor goes back on a line that is long enough.
    pub old_cursor: usize,
    /// Whether it may not be edited.
    pub read_only: bool,
    /// Whether it is in the middle of redoing edits.
    pub in_redo: bool,
}

/// The line without the newlines and carriage returns at its end.
pub open spec fn without_break(line: Seq<char>) -> Seq<char>
    decreases line.len(),
{
    if line.len() > 0 && (line.last() == '\n' || line.last() == '\r') {
        without_break(line.drop_last())
    } else {
        line
    }
}

/// What is noted of a line when it is loaded: where its wide characters and where its tabs stand.
/// Nothing is noted of an empty line.
pub open spec fn notes_of(line: Seq<char>, tab_width: usize) -> Notes {
    if line.len() == 0 {
        Notes { wide: Seq::empty(), tabs: Seq::empty() }
    } else {
        line_notes(line, tab_width)
    }
}

/// The notes with those of the lines from `from` on and before `to` in them. Where nothing is to be
/// noted of a line, what was noted of it stays.
pub open spec fn with_notes(
    notes: Map<usize, Seq<(usize, usize)>>,
    from: usize,
    to: int,
    found: spec_fn(usize) -> Seq<(usize, usize)>,
) -> Map<usize, Seq<(usize, usize)>> {
    Map::new(
        |y: usize| notes.dom().contains(y) || (from <= y < to && found(y).len() > 0),
        |y: usize|
            if from <= y < to && found(y).len() > 0 {
                found(y)
            } else {
                notes[y]
            },
    )
}

/// The number of tabs in the line.
pub open spec fn tab_count(line: Seq<char>) -> nat
    decreases line.len(),
{
    if line.len() == 0 {
        0
    } else {
        tab_count(line.drop_last()) + (if line.last() == '\t' { 1nat } else { 0nat })
    }
}

/// Whether a column in the line is still a machine integer when a tab takes `tab_width` columns
/// and any other character at most two.
pub open spec fn columns_fit(line: Seq<char>, tab_width: usize) -> bool {
    tab_count(line) * tab_width + 2 * (line.len() - tab_count(line)) <= usize::MAX
}

/// Whether [`columns_fit`] holds of every line.
pub open spec fn all_columns_fit(lines: Seq<Seq<char>>, tab_width: usize) -> bool {
    forall|i: int| 0 <= i < lines.len() ==> columns_fit(#[trigger] lines[i], tab_width)
}

impl DocumentView {
    /// A document without a file: one empty line, nothing edited.
    pub open spec fn fresh(size: Size) -> Self {
        DocumentView {
            file_name: None,
            text: seq![seq!['\n'], Seq::<char>::empty()],
            lines: seq![Seq::<char>::empty()],
            loaded_to: 1,
            tabs: Map::empty(),
            wide: Map::empty(),
            size,
            tab_width: 4,
            modified: false,
            patch: Seq::empty(),
            undo: Seq::empty(),
            redo: Seq::empty(),
            cursor: Loc { x: 0, y: 0 },
            offset: Loc { x: 0, y: 0 },
            char_ptr: 0,
            old_cursor: 0,
            read_only: false,
            in_redo: false,
        }
    }

    /// The line up to which [`DocumentView::loaded`] fills the cache.
    pub open spec fn load_end(self, to: usize) -> int {
        if to < self.text.len() {
            to as int
        } else {
            self.text.len() as int
        }
    }

    /// The document once the lines before `to` are in the cache.
    pub open spec fn loaded(self, to: usize) -> Self {
        let end = self.load_end(to);
        if end > self.loaded_to {
            DocumentView {
                lines: self.lines + Seq::new(
                    (end - self.loaded_to) as nat,
                    |i: int| without_break(self.text[self.loaded_to + i]),
                ),
                loaded_to: end as usize,
                tabs: with_notes(
                    self.tabs,
                    self.loaded_to,
                    end,
                    |y: usize| notes_of(self.text[y as int], self.tab_width).tabs,
                ),
                wide: with_notes(
                    self.wide,
                    self.loaded_to,
                    end,
                    |y: usize| notes_of(self.text[y as int], self.tab_width).wide,
                ),
                ..self
            }
        } else {
            self
        }
    }

    /// Whether these are the notes of the line `y`, as far as it holds tabs or wide characters.
    pub open spec fn has_noted(self, y: usize, notes: Notes) -> bool {
        self.text[y as int].len() > 0 ==> {
            &&& notes.tabs.len() > 0 ==> self.tabs.dom().contains(y) && self.tabs[y] == notes.tabs
            &&& notes.wide.len() > 0 ==> self.wide.dom().contains(y) && self.wide[y] == notes.wide
        }
    }

    /// Whether every column of the lines that [`DocumentView::loaded`] adds is a machine integer.
    pub open spec fn loadable(self, to: usize, tab_width: usize) -> bool {
        forall|i: int|
            self.loaded_to <= i < self.load_end(to) ==> columns_fit(
                #[trigger] self.text[i],
                tab_width,
            )
    }

    /// The document once its uncommitted edits form a group of their own.
    pub open spec fn committed(self) -> Self {
        if self.patch.len() == 0 {
            self
        } else {
            DocumentView { patch: Seq::empty(), undo: self.undo.push(self.patch), ..self }
        }
    }
}

/// Where the wide characters and the tabs of a line stand: the column and the number of each
/// character.
#[verifier::ext_equal]
pub struct Notes {
    /// The wide characters.
    pub wide: Seq<(usize, usize)>,
    /// The tabs.
    pub tabs: Seq<(usize, usize)>,
}

/// What is noted of a line that is not empty when it is loaded with this tab width.
pub uninterp spec fn line_notes(line: Seq<char>, tab_width: usize) -> Notes;

/// What the document holds.
pub uninterp spec fn document_view(doc: Document) -> DocumentView;

/// Calls `kaolinite::Document::new`. Trusted: the document has no file name, its text is a single
/// line break, the empty first line is cached, a tab takes four columns, nothing is edited or
/// undone, the cursor is at the start, it may be edited, and it has the size that was asked for.
#[verifier::external_body]
pub(crate) fn new_document(size: Size) -> (doc: Document)
    ensures
        document_view(doc) == DocumentView::fresh(size),
{
    Document::new(kaolinite::Size { w: size.w, h: size.h })
}

/// Calls `kaolinite::Document::set_tab_width`. Trusted: only the tab width changes.
#[verifier::external_body]
pub(crate) fn set_tab_width(doc: &mut Document, tab_width: usize)
    ensures
        document_view(*final(doc)) == (DocumentView { tab_width, ..document_view(*old(doc)) }),
{
    doc.set_tab_width(tab_width);
}

/// Calls `kaolinite::Document::load_to`. Trusted: the lines of the text that are before `to` and
/// not loaded yet join the cache in order, without the newlines and carriage returns at their ends.
/// What is noted of the tabs and the wide characters of each depends on the line and on the tab
/// width alone. It adds up the columns of each of these lines, so they have to fit.
#[verifier::external_body]
pub(crate) fn load_to(doc: &mut Document, to: usize)
    requires
        document_view(*old(doc)).loadable(to, document_view(*old(doc)).tab_width),
    ensures
        document_view(*final(doc)) == document_view(*old(doc)).loaded(to),
        forall|y: usize|
            document_view(*old(doc)).loaded_to <= y < document_view(*old(doc)).load_end(to)
                ==> #[trigger] document_view(*final(doc)).has_noted(
                y,
                line_notes(
                    document_view(*old(doc)).text[y as int],
                    document_view(*old(doc)).tab_width,
                ),
            ),
{
    doc.load_to(to);
}

/// Calls `kaolinite::event::EventMgmt::commit` on the history of the document. Trusted: the
/// uncommitted edits, where there are any, become the latest group to undo.
#[verifier::external_body]
pub(crate) fn commit(doc: &mut Document)
    ensures
        document_view(*final(doc)) == document_view(*old(doc)).committed(),
{
    doc.event_mgmt.commit();
}

/// Writes the field `modified` of the document. Trusted: nothing else changes.
#[verifier::external_body]
pub(crate) fn set_modified(doc: &mut Document, modified: bool)
    ensures
        document_view(*final(doc)) == (DocumentView { modified, ..document_view(*old(doc)) }),
{
    doc.modified = modified;
}

/// Reads the field `modified` of the document.
#[verifier::external_body]
pub(crate) fn is_modified(doc: &Document) -> (modified: bool)
    ensures
        modified == document_view(*doc).modified,
{
    doc.modified
}

/// Writes the field `file_name` of the document. Trusted: nothing else changes.
#[verifier::external_body]
pub(crate) fn set_file_name(doc: &mut Document, file_name: String)
    ensures
        document_view(*final(doc)) == (DocumentView {
            file_name: Some(file_name@),
            ..document_view(*old(doc))
        }),
{
    doc.file_name = Some(file_name);
}

/// Reads the field `file_name` of the document.
#[verifier::external_body]
pub(crate) fn file_name(doc: &Document) -> (name: Option<&String>)
    ensures
        match name {
            Some(name) => document_view(*doc).file_name == Some(name@),
            None => document_view(*doc).file_name is None,
        },
{
    doc.file_name.as_ref()
}

/// Reads the field `lines` of the document, the cache.
#[verifier::external_body]
pub(crate) fn cached_lines(doc: &Document) -> (lines: &Vec<String>)
    ensures
        lines.deep_view() == document_view(*doc).lines,
{
    &doc.lines
}

/// Reads the field `loaded_to` of the document.
#[verifier::external_body]
pub(crate) fn loaded_to(doc: &Document) -> (loaded_to: usize)
    ensures
        loaded_to == document_view(*doc).loaded_to,
{
    doc.loaded_to
}

/// Calls `len_lines` of the rope that holds the text. Trusted: it counts the lines of the text.
#[verifier::external_body]
pub(crate) fn text_len(doc: &Document) -> (len: usize)
    ensures
        len == document_view(*doc).text.len(),
{
    doc.file.len_lines()
}

/// Calls `line` of the rope that holds the text. Trusted: it is that line of the text, with the
/// line break that ends it.
#[verifier::external_body]
pub(crate) fn text_line(doc: &Document, y: usize) -> (line: String)
    requires
        y < document_view(*doc).text.len(),
    ensures
        line@ == document_view(*doc).text[y as int],
{
    doc.file.line(y).to_string()
}

/// Taking off the line breaks keeps a line from growing.
pub proof fn lemma_without_break_fits(line: Seq<char>, tab_width: usize)
    requires
        columns_fit(line, tab_width),
    ensures
        columns_fit(without_break(line), tab_width),
    decreases line.len(),
{
    if line.len() > 0 && (line.last() == '\n' || line.last() == '\r') {
        assert(tab_count(line) == tab_count(line.drop_last()));
        lemma_without_break_fits(line.drop_last(), tab_width);
    }
}

/// Where the columns of the lines in the cache and of those still to load fit, so do those of the
/// lines in the cache afterwards.
pub proof fn lemma_loaded_lines_fit(doc: DocumentView, to: usize, tab_width: usize)
    requires
        all_columns_fit(doc.lines, tab_width),
        doc.loadable(to, tab_width),
    ensures
        all_columns_fit(doc.loaded(to).lines, tab_width),
{
    let after = doc.loaded(to).lines;
    assert forall|i: int| 0 <= i < after.len() implies columns_fit(
        #[trigger] after[i],
        tab_width,
    ) by {
        if i < doc.lines.len() {
            assert(after[i] == doc.lines[i]);
        } else {
            let line = doc.text[doc.loaded_to + (i - doc.lines.len())];
            lemma_without_break_fits(line, tab_width);
            assert(after[i] == without_break(line));
        }
    }
}

/// An empty line has no columns.
pub proof fn lemma_empty_line_fits(tab_width: usize)
    ensures
        columns_fit(Seq::empty(), tab_width),
{
    assert(0 * tab_width == 0) by (nonlinear_arith);
}

/// Whether the columns of the line are machine integers with this tab width.
pub fn line_fits(line: &str, tab_width: usize) -> (fits: bool)
    ensures
        fits == columns_fit(line@, tab_width),
{
    let len: usize = line.unicode_len();
    let mut tabs: usize = 0;
    let mut i: usize = 0;
    for ch in chars: line.chars()
        invariant
            chars.seq() == line@,
            i == chars.index(),
            len == line@.len(),
            tabs <= i <= len,
            tabs == tab_count(line@.take(i as int)),
    {
        assert(i < len);
        proof {
            assert(line@.take(i + 1).drop_last() =~= line@.take(i as int));
            assert(line@.take(i + 1).last() == ch);
        }
        if ch == '\t' {
            tabs = tabs + 1;
        }
        i = i + 1;
    }
    assert(line@.take(i as int) =~= line@);
    match (tabs.checked_mul(tab_width), (len - tabs).checked_mul(2)) {
        (Some(tab_columns), Some(columns)) => tab_columns.checked_add(columns).is_some(),
        _ => false,
    }
}

/// Whether the columns of all lines in the cache are machine integers with this tab width.
pub fn cached_lines_fit(doc: &Document, tab_width: usize) -> (fits: bool)
    ensures
        fits == all_columns_fit(document_view(*doc).lines, tab_width),
{
    let lines: &Vec<String> = cached_lines(doc);
    let mut i: usize = 0;
    while i < lines.len()
        invariant
            i <= lines.len(),
            lines.deep_view() == document_view(*doc).lines,
            forall|j: int|
                0 <= j < i ==> columns_fit(#[trigger] document_view(*doc).lines[j], tab_width),
        decreases lines.len() - i,
    {
        assert(document_view(*doc).lines[i as int] == lines[i as int]@);
        if !line_fits(lines[i].as_str(), tab_width) {
            return false;
        }
        i = i + 1;
    }
    true
}

/// Whether the columns of all lines that [`DocumentView::loaded`] adds are machine integers with
/// this tab width.
pub fn lines_to_load_fit(doc: &Document, to: usize, tab_width: usize) -> (fits: bool)
    ensures
        fits == document_view(*doc).loadable(to, tab_width),
{
    let len: usize = text_len(doc);
    let end: usize = if to < len { to } else { len };
    let mut i: usize = loaded_to(doc);
    while i < end
        invariant
            document_view(*doc).loaded_to <= i,
            end == document_view(*doc).load_end(to),
            end <= document_view(*doc).text.len(),
            forall|j: int|
                document_view(*doc).loaded_to <= j < i && j < end ==> columns_fit(
                    #[trigger] document_view(*doc).text[j],
                    tab_width,
                ),
        decreases end - i,
    {
        let line: String = text_line(doc, i);
        if !line_fits(line.as_str(), tab_width) {
            return false;
        }
        i = i + 1;
    }
    true
}

} // verus!
