//! The configuration values that the editor goes by.
use vstd::prelude::*;

verus! {

/// What the tab key inserts.
#[derive(Debug, Clone, Copy, PartialEq, Eq, Structural)]
pub enum Indentation {
    /// A tab character.
    Tabs,
    /// As many spaces as a tab is wide.
    Spaces,
}

/// Configuration of documents.
#[derive(Debug, Clone, Copy, PartialEq, Eq, Structural)]
pub struct DocumentConfig {
    /// The number of columns that a tab takes.
    pub tab_width: usize,
    /// What the tab key inserts.
    pub indentation: Indentation,
    /// The seconds without a key press after which the edits before form a group to undo.
    pub undo_period: usize,
}

/// Configuration of the greeting message.
#[derive(Debug, Clone, Copy, PartialEq, Eq, Structural)]
pub struct GreetingMessage {
    /// Whether it is shown.
    pub enabled: bool,
}

/// Configuration of the line with the tabs.
#[derive(Debug, Clone, Copy, PartialEq, Eq, Structural)]
pub struct TabLine {
    /// Whether it is shown.
    pub enabled: bool,
}

/// The configuration.
#[derive(Debug, Clone, Copy, PartialEq, Eq, Structural)]
pub struct Config {
    /// Documents.
    pub document: DocumentConfig,
    /// The greeting message.
    pub greeting_message: GreetingMessage,
    /// The line with the tabs.
    pub tab_line: TabLine,
}

} // verus!
