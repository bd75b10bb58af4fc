//! Events from the terminal, and the work that they call for.
use vstd::prelude::*;

verus! {

/// The bit of the shift key in [`KeyModifiers`].
pub const SHIFT: u8 = 1;

/// The modifier keys that are held down, one bit for each.
#[derive(Debug, Clone, Copy, PartialEq, Eq, Structural)]
pub struct KeyModifiers {
    /// The bits.
    pub bits: u8,
}

/// A key, as far as the editor treats it specially.
#[derive(Debug, Clone, Copy, PartialEq, Eq, Structural)]
pub enum KeyCode {
    /// A character.
    Char(char),
    /// The tab key.
    Tab,
    /// The backspace key.
    Backspace,
    /// The delete key.
    Delete,
    /// The enter key.
    Enter,
    /// Any other key.
    Other,
}

/// A mouse button.
#[derive(Debug, Clone, Copy, PartialEq, Eq, Structural)]
pub enum MouseButton {
    /// The left one.
    Left,
    /// The right one.
    Right,
    /// The one in the middle.
    Middle,
}

/// What the mouse did.
#[derive(Debug, Clone, Copy, PartialEq, Eq, Structural)]
pub enum MouseEventKind {
    /// A button went down.
    Down(MouseButton),
    /// A button went up.
    Up(MouseButton),
    /// It moved with a button down.
    Drag(MouseButton),
    /// It moved with no button down.
    Moved,
    /// The wheel turned towards the user.
    ScrollDown,
    /// The wheel turned away from the user.
    ScrollUp,
    /// The wheel turned to the left.
    ScrollLeft,
    /// The wheel turned to the right.
    ScrollRight,
}

/// A mouse event.
#[derive(Debug, Clone, Copy, PartialEq, Eq, Structural)]
pub struct MouseEvent {
    /// What the mouse did.
    pub kind: MouseEventKind,
    /// The column where it did it.
    pub column: u16,
    /// The row where it did it.
    pub row: u16,
    /// The modifier keys that were held down.
    pub modifiers: KeyModifiers,
}

/// An event from the terminal.
#[derive(Debug)]
pub enum InputEvent {
    /// The terminal has the focus now.
    FocusGained,
    /// The terminal no longer has the focus.
    FocusLost,
    /// A key was pressed.
    Key(KeyModifiers, KeyCode),
    /// The mouse did something.
    Mouse(MouseEvent),
    /// Text was pasted.
    Paste(String),
    /// The terminal has another size.
    Resize(u16, u16),
}

/// Characters that are to be typed into the current document, one after the other.
#[derive(Debug)]
pub struct Typing {
    /// The characters.
    pub text: Vec<char>,
    /// How many of them have been handed out.
    pub at: usize,
    /// Whether the edits form a group to undo once all of them are typed.
    pub commit: bool,
}

/// Work that an event calls for.
#[derive(Debug)]
pub enum Work {
    /// Hand the event to the macro recorder.
    RegisterMacro,
    /// Type characters.
    Type(Typing),
    /// Delete backwards.
    Backspace,
    /// Delete forwards.
    Delete,
    /// Break the line.
    Enter,
    /// Draw everything again.
    Render,
    /// Follow the mouse.
    Mouse(MouseEvent),
}

impl KeyModifiers {
    /// Whether no modifier key but shift is held down.
    pub open spec fn at_most_shift(self) -> bool {
        self.bits == 0 || self.bits == SHIFT
    }
}

impl Typing {
    /// Nothing was handed out that is not there.
    pub open spec fn wf(self) -> bool {
        self.at <= self.text.len()
    }

    /// Whether `now` is left after the next character, `ch`, was handed out.
    pub open spec fn hands_out(self, now: Typing, ch: char) -> bool {
        &&& self.at < self.text.len()
        &&& ch == self.text[self.at as int]
        &&& now == (Typing { at: (self.at + 1) as usize, ..self })
    }

    /// The characters, from the first on, followed by a commit or not.
    pub open spec fn of(self, text: Seq<char>, commit: bool) -> bool {
        self.text@ == text && self.at == 0 && self.commit == commit
    }
}

} // verus!
