//! What keys and pauses between them call for.
use crate::config::{Config, Indentation};
use crate::document::document_view;
use crate::editor::Editor;
use crate::editor_laws::law_commit_changes_the_current_alone;
use crate::events::{indentation_text, millis_between};
use crate::input::{KeyCode, KeyModifiers, Typing, Work};
use vstd::prelude::*;

verus! {

/// Between two points in time lie as many milliseconds as there are whole millions of nanoseconds,
/// and none if the second is not the later one.
pub proof fn law_millis_between(from: u128, to: u128)
    requires
        to <= from || (to - from) / 1_000_000 <= usize::MAX,
    ensures
        to <= from ==> millis_between(from, to) == 0,
        to > from ==> millis_between(from, to) * 1_000_000 <= to - from < (millis_between(from, to)
            + 1) * 1_000_000,
{
}

/// For every configured period, the edits form a group to undo if and only if the last key was
/// pressed more than that many seconds and at least a millisecond more before. A clock that runs
/// backwards makes none.
pub proof fn law_inactivity(editor: Editor, end: u128)
    requires
        end <= editor.last_active || (end - editor.last_active) / 1_000_000 <= usize::MAX,
    ensures
        editor.inactive(end) <==> end - editor.last_active >= (
        editor.config.document.undo_period * 1000 + 1) * 1_000_000,
        end - editor.last_active <= editor.config.document.undo_period * 1_000_000_000
            ==> !editor.inactive(end),
{
}

/// A key within the configured period of the last one commits nothing: the time of the key is all
/// that is noted. One after it makes the edits so far a group to undo, and leaves text and cursor
/// alone.
pub proof fn law_key_after_a_pause(editor: Editor, now: Editor, end: u128, time: u128)
    requires
        editor.inv(),
        end <= editor.last_active || (end - editor.last_active) / 1_000_000 <= usize::MAX,
        editor.has_seen_key(now, end, time),
    ensures
        now.last_active == time,
        end - editor.last_active < (editor.config.document.undo_period * 1000 + 1) * 1_000_000
            ==> now == (Editor { last_active: time, ..editor }),
        end - editor.last_active >= (editor.config.document.undo_period * 1000 + 1) * 1_000_000
            ==> match (editor.current(), now.current()) {
            (Some(file), Some(seen)) => {
                let before = document_view(file.doc);
                let doc = document_view(seen.doc);
                &&& doc.patch.len() == 0
                &&& before.patch.len() == 0 ==> doc.undo == before.undo
                &&& before.patch.len() > 0 ==> doc.undo == before.undo.push(before.patch)
                &&& doc.text == before.text && doc.lines == before.lines
                &&& doc.cursor == before.cursor && doc.offset == before.offset
                &&& doc.modified == before.modified && doc.redo == before.redo
                &&& now == (Editor { last_active: time, files: now.files, ..editor })
            },
            _ => false,
        },
{
    law_inactivity(editor, end);
    if editor.inactive(end) {
        let between = Editor { last_active: editor.last_active, ..now };
        law_commit_changes_the_current_alone(editor, between, Seq::empty());
    }
}

/// With indentation by spaces the tab key types as many characters as a tab is wide, and each is a
/// space. With indentation by tabs it types one tab character.
pub proof fn law_indentation_text(config: Config)
    ensures
        config.document.indentation == Indentation::Spaces ==> {
            &&& indentation_text(config).len() == config.document.tab_width
            &&& forall|i: int|
                0 <= i < config.document.tab_width ==> #[trigger] indentation_text(config)[i]
                    == ' '
        },
        config.document.indentation == Indentation::Tabs ==> {
            &&& indentation_text(config).len() == 1
            &&& indentation_text(config)[0] == '\t'
        },
{
}

/// A character that is typed with no modifier key but shift is typed into the document, alone and
/// without a commit. The tab key types an indentation, and the other editing keys do their one
/// thing, with no modifier key at all. Every other key calls for nothing.
pub proof fn law_keys(
    editor: Editor,
    modifiers: KeyModifiers,
    code: KeyCode,
    work: Option<Work>,
)
    requires
        editor.key_calls_for(modifiers, code, work),
    ensures
        match code {
            KeyCode::Char(ch) => if modifiers.bits == 0 || modifiers.bits == 1 {
                &&& work matches Some(Work::Type(typing))
                &&& typing.text@ == seq![ch]
                &&& typing.at == 0
                &&& !typing.commit
            } else {
                work is None
            },
            KeyCode::Tab => if modifiers.bits == 0 {
                &&& work matches Some(Work::Type(typing))
                &&& typing.at == 0
                &&& !typing.commit
                &&& editor.config.document.indentation == Indentation::Tabs ==> typing.text@
                    == seq!['\t']
                &&& editor.config.document.indentation == Indentation::Spaces
                    ==> typing.text@.len() == editor.config.document.tab_width
                &&& editor.config.document.indentation == Indentation::Spaces ==> forall|i: int|
                    0 <= i < typing.text@.len() ==> #[trigger] typing.text@[i] == ' '
            } else {
                work is None
            },
            KeyCode::Backspace => if modifiers.bits == 0 {
                work == Some(Work::Backspace)
            } else {
                work is None
            },
            KeyCode::Delete => if modifiers.bits == 0 {
                work == Some(Work::Delete)
            } else {
                work is None
            },
            KeyCode::Enter => if modifiers.bits == 0 {
                work == Some(Work::Enter)
            } else {
                work is None
            },
            KeyCode::Other => work is None,
        },
{
    law_indentation_text(editor.config);
}

/// Typing a text starts with its first character and holds all of it, and each step hands out the
/// one character that is due and goes on behind it.
pub proof fn law_typing(typing: Typing, text: Seq<char>, commit: bool, now: Typing, ch: char)
    ensures
        typing.of(text, commit) <==> typing.text@ == text && typing.at == 0 && typing.commit
            == commit,
        typing.wf() && typing.hands_out(now, ch) ==> {
            &&& typing.at < typing.text@.len()
            &&& ch == typing.text@[typing.at as int]
            &&& now.at == typing.at + 1
            &&& now.text == typing.text
            &&& now.commit == typing.commit
        },
{
}

} // verus!
