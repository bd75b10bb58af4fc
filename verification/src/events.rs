//! Handling events and configuration.
use crate::config::{Config, Indentation};
use crate::container::FileContainer;
use crate::document::{commit, document_view};
use crate::editor::Editor;
use crate::error::OxError;
use crate::input::{InputEvent, KeyCode, KeyModifiers, MouseEventKind, Typing, Work, SHIFT};
use crate::ui::Feedback;
use vstd::prelude::*;

verus! {

/// The characters that the tab key types.
pub open spec fn indentation_text(config: Config) -> Seq<char> {
    match config.document.indentation {
        Indentation::Tabs => seq!['\t'],
        Indentation::Spaces => Seq::new(config.document.tab_width as nat, |i: int| ' '),
    }
}

/// The milliseconds between two points in time, none if the second is not the later one.
pub open spec fn millis_between(from: u128, to: u128) -> usize {
    if to >= from {
        ((to - from) as u128 / 1_000_000) as usize
    } else {
        0
    }
}

impl Editor {
    /// Whether the last key was pressed so long before the time `end` that the edits before form a
    /// group to undo.
    pub open spec fn inactive(self, end: u128) -> bool {
        millis_between(self.last_active, end) > self.config.document.undo_period * 1000
    }

    /// Whether `now` is the state once the edits of the current document form a group to undo.
    pub open spec fn has_committed(self, now: Editor) -> bool {
        &&& self.same_but_files(now)
        &&& match (self.current(), now.current()) {
            (Some(file), Some(now_file)) => {
                &&& now_file == (FileContainer { doc: now_file.doc, ..file })
                &&& document_view(now_file.doc) == document_view(file.doc).committed()
                &&& now.files@ == self.files@.with_shown(self.ptr@, now_file)
            },
            _ => false,
        }
    }

    /// The work that a key calls for.
    pub open spec fn key_calls_for(
        self,
        modifiers: KeyModifiers,
        code: KeyCode,
        work: Option<Work>,
    ) -> bool {
        match code {
            KeyCode::Char(ch) if modifiers.at_most_shift() => work matches Some(
                Work::Type(typing),
            ) && typing.of(seq![ch], false),
            KeyCode::Tab if modifiers.bits == 0 => work matches Some(Work::Type(typing))
                && typing.of(indentation_text(self.config), false),
            KeyCode::Backspace if modifiers.bits == 0 => work == Some(Work::Backspace),
            KeyCode::Delete if modifiers.bits == 0 => work == Some(Work::Delete),
            KeyCode::Enter if modifiers.bits == 0 => work == Some(Work::Enter),
            _ => work is None,
        }
    }

    /// Whether `now` is the state after a key was pressed, which was seen at the time `end` and
    /// dealt with at the time `time`.
    pub open spec fn has_seen_key(self, now: Editor, end: u128, time: u128) -> bool {
        &&& now.last_active == time
        &&& self.inactive(end) ==> self.has_committed(
            Editor { last_active: self.last_active, ..now },
        )
        &&& !self.inactive(end) ==> now == (Editor { last_active: time, ..self })
    }

    /// The editor with another answer to whether everything is to be drawn again.
    pub open spec fn rerendering(self, needs_rerender: bool) -> Editor {
        Editor { needs_rerender, ..self }
    }

    /// Makes the edits of the current document a group to undo.
    fn commit_current(&mut self)
        requires
            old(self).inv(),
            old(self).current() is Some,
        ensures
            final(self).inv(),
            old(self).has_committed(*final(self)),
    {
        proof {
            self.lemma_inv_with_shown();
        }
        commit(self.doc_mut());
    }

    /// Whether the last key was pressed so long before the time `end`, in nanoseconds, that the
    /// edits before form a group to undo.
    pub fn is_inactive(&self, end: u128) -> (inactive: bool)
        requires
            self.config.document.undo_period * 1000 <= usize::MAX,
        ensures
            inactive == self.inactive(end),
            end <= self.last_active ==> !inactive,
            end > self.last_active && (end - self.last_active) / 1_000_000 <= usize::MAX ==> (
            inactive <==> end - self.last_active >= (self.config.document.undo_period * 1000 + 1)
                * 1_000_000),
    {
        let inactivity: usize = (end.saturating_sub(self.last_active) / 1_000_000) as usize;
        inactivity > self.config.document.undo_period * 1000
    }

    /// Handles a key press that was seen at the time `end` and is dealt with at the time `time`,
    /// both in nanoseconds. Makes the edits so far a group to undo if the last key press was too
    /// long ago, and tells what the key calls for.
    pub fn handle_key_event(
        &mut self,
        modifiers: KeyModifiers,
        code: KeyCode,
        end: u128,
        time: u128,
    ) -> (work: Option<Work>)
        requires
            old(self).inv(),
            old(self).config.document.undo_period * 1000 <= usize::MAX,
            old(self).inactive(end) ==> old(self).current() is Some,
        ensures
            final(self).inv(),
            old(self).has_seen_key(*final(self), end, time),
            old(self).key_calls_for(modifiers, code, work),
    {
        if self.is_inactive(end) {
            self.commit_current();
        }
        self.last_active = time;
        match code {
            KeyCode::Char(ch) => if modifiers.bits == 0 || modifiers.bits == SHIFT {
                let mut text: Vec<char> = Vec::new();
                text.push(ch);
                Some(Work::Type(Typing { text, at: 0, commit: false }))
            } else {
                None
            },
            KeyCode::Tab => if modifiers.bits == 0 {
                Some(Work::Type(self.handle_tab()))
            } else {
                None
            },
            KeyCode::Backspace => if modifiers.bits == 0 {
                Some(Work::Backspace)
            } else {
                None
            },
            KeyCode::Delete => if modifiers.bits == 0 {
                Some(Work::Delete)
            } else {
                None
            },
            KeyCode::Enter => if modifiers.bits == 0 {
                Some(Work::Enter)
            } else {
                None
            },
            KeyCode::Other => None,
        }
    }

    /// A change of the terminal's size calls for drawing everything again.
    pub fn handle_resize(&self) -> (work: Work)
        ensures
            work is Render,
    {
        Work::Render
    }

    /// The typing that pasted text calls for: its characters, and then a commit.
    pub fn handle_paste(&self, text: &str) -> (typing: Typing)
        ensures
            typing.of(text@, true),
            typing.text@ == text@,
            typing.at == 0,
            typing.commit,
    {
        let mut chars: Vec<char> = Vec::new();
        for ch in rest: text.chars()
            invariant
                rest.seq() == text@,
                chars@ == text@.take(rest.index()),
        {
            chars.push(ch);
            assert(text@.take(rest.index() + 1) =~= text@.take(rest.index()).push(ch));
        }
        assert(text@.take(text@.len() as int) =~= text@);
        Typing { text: chars, at: 0, commit: true }
    }

    /// The typing that the tab key calls for.
    pub fn handle_tab(&self) -> (typing: Typing)
        ensures
            typing.of(indentation_text(self.config), false),
            typing.at == 0,
            !typing.commit,
            match self.config.document.indentation {
                Indentation::Tabs => typing.text@ == seq!['\t'],
                Indentation::Spaces => {
                    &&& typing.text@.len() == self.config.document.tab_width
                    &&& forall|i: int|
                        0 <= i < typing.text@.len() ==> #[trigger] typing.text@[i] == ' '
                },
            },
    {
        let mut text: Vec<char> = Vec::new();
        if self.config.document.indentation == Indentation::Tabs {
            text.push('\t');
            assert(text@ =~= seq!['\t']);
        } else {
            let width: usize = self.config.document.tab_width;
            let mut i: usize = 0;
            while i < width
                invariant
                    i <= width,
                    text@ == Seq::new(i as nat, |j: int| ' '),
                decreases width - i,
            {
                text.push(' ');
                i = i + 1;
                assert(text@ =~= Seq::new(i as nat, |j: int| ' '));
            }
        }
        Typing { text, at: 0, commit: false }
    }

    /// Goes one step further in typing characters into the current document. Takes the outcome of
    /// the last character (a success, to begin with). Gives back the next character to type, or
    /// none if all are typed; the edits form a group to undo then, if that was asked for.
    pub fn type_next(&mut self, typing: &mut Typing, last: Result<(), OxError>) -> (step: Result<
        Option<char>,
        OxError,
    >)
        requires
            old(self).inv(),
            old(typing).wf(),
            last is Ok && old(typing).at == old(typing).text.len() && old(typing).commit
                ==> old(self).current() is Some,
        ensures
            final(self).inv(),
            final(typing).wf(),
            match last {
                Ok(()) => if old(typing).at < old(typing).text.len() {
                    &&& step matches Ok(Some(ch))
                    &&& old(typing).hands_out(*final(typing), ch)
                    &&& *final(self) == *old(self)
                } else {
                    &&& step == Ok::<Option<char>, OxError>(None)
                    &&& *final(typing) == *old(typing)
                    &&& old(typing).commit ==> old(self).has_committed(*final(self))
                    &&& !old(typing).commit ==> *final(self) == *old(self)
                },
                Err(error) => {
                    &&& step == Err::<Option<char>, OxError>(error)
                    &&& *final(typing) == *old(typing)
                    &&& *final(self) == *old(self)
                },
            },
    {
        match last {
            Ok(()) => {},
            Err(error) => {
                return Err(error);
            },
        }
        if typing.at < typing.text.len() {
            let ch: char = typing.text[typing.at];
            typing.at = typing.at + 1;
            return Ok(Some(ch));
        }
        if typing.commit {
            self.commit_current();
        }
        Ok(None)
    }

    /// Handles an event that was seen at the time `end` and is dealt with at the time `time`, both
    /// in nanoseconds. Tells what it calls for, in order. Every event goes to the macro recorder
    /// first, and everything is drawn again after all events but a mere movement of the mouse.
    pub fn handle_event(&mut self, event: InputEvent, end: u128, time: u128) -> (work: Vec<Work>)
        requires
            old(self).inv(),
            event is Key ==> old(self).config.document.undo_period * 1000 <= usize::MAX,
            event is Key && old(self).inactive(end) ==> old(self).current() is Some,
        ensures
            final(self).inv(),
            final(self).needs_rerender == !(event matches InputEvent::Mouse(mouse) && mouse.kind
                is Moved),
            event is Key ==> old(self).rerendering(final(self).needs_rerender).has_seen_key(
                *final(self),
                end,
                time,
            ),
            !(event is Key) ==> *final(self) == old(self).rerendering(final(self).needs_rerender),
            1 <= work.len() <= 2,
            work[0] is RegisterMacro,
            match event {
                InputEvent::Key(modifiers, code) => old(self).key_calls_for(
                    modifiers,
                    code,
                    if work.len() == 2 {
                        Some(work[1])
                    } else {
                        None
                    },
                ),
                InputEvent::Resize(_, _) => work.len() == 2 && work[1] is Render,
                InputEvent::Mouse(mouse) => work.len() == 2 && work[1] == Work::Mouse(mouse),
                InputEvent::Paste(text) => work.len() == 2 && (work[1] matches Work::Type(typing)
                    && typing.of(text@, true)),
                InputEvent::FocusGained => work.len() == 1,
                InputEvent::FocusLost => work.len() == 1,
            },
    {
        let mut work: Vec<Work> = Vec::new();
        work.push(Work::RegisterMacro);
        self.needs_rerender = match &event {
            InputEvent::Mouse(mouse) => mouse.kind != MouseEventKind::Moved,
            _ => true,
        };
        match event {
            InputEvent::Key(modifiers, code) => match self.handle_key_event(
                modifiers,
                code,
                end,
                time,
            ) {
                Some(called_for) => work.push(called_for),
                None => {},
            },
            InputEvent::Resize(_, _) => work.push(self.handle_resize()),
            InputEvent::Mouse(mouse) => work.push(Work::Mouse(mouse)),
            InputEvent::Paste(text) => work.push(Work::Type(self.handle_paste(text.as_str()))),
            InputEvent::FocusGained => {},
            InputEvent::FocusLost => {},
        }
        work
    }

    /// Takes the outcome of reading the configuration file at this path, and the values that hold
    /// since. A failure of a script is handed on.
    pub fn load_config(
        &mut self,
        path: &str,
        read: Result<(), OxError>,
        config: Config,
    ) -> (failure: Option<mlua::Error>)
        requires
            old(self).inv(),
            read matches Err(error) ==> error is Config || error is Lua,
        ensures
            final(self).inv(),
            *final(self) == (Editor {
                config_path: final(self).config_path,
                config,
                feedback: final(self).feedback,
                push_down: final(self).push_down,
                ..*old(self)
            }),
            final(self).config_path@ == path@,
            match read {
                Err(OxError::Lua(error)) => {
                    &&& failure == Some(error)
                    &&& final(self).push_down == old(self).push_down
                    &&& final(self).feedback == old(self).feedback
                },
                _ => {
                    &&& failure is None
                    &&& final(self).push_down == if config.tab_line.enabled {
                        1int
                    } else {
                        0int
                    }
                    &&& if read matches Err(OxError::Config { msg }) && msg@ == "Not Found"@ {
                        &&& final(self).feedback matches Feedback::Warning(text)
                        &&& text@ == "No configuration file found, using default configuration"@
                    } else {
                        final(self).feedback == old(self).feedback
                    }
                },
            },
    {
        self.config_path = path.to_owned();
        self.config = config;
        // Warn the user if there is no configuration
        match read {
            Ok(()) => {},
            Err(OxError::Config { msg }) => {
                if msg == "Not Found".to_owned() {
                    let warning: String =
                        "No configuration file found, using default configuration".to_owned();
                    self.feedback = Feedback::Warning(warning);
                }
            },
            Err(OxError::Lua(error)) => {
                return Some(error);
            },
            _ => {},
        }
        // The tab line takes a row
        self.push_down = if self.config.tab_line.enabled {
            1
        } else {
            0
        };
        None
    }
}

} // verus!
