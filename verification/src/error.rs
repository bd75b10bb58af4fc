//! What can go wrong.
use vstd::prelude::*;

verus! {

/// The error type of the `mlua` crate. It is only handed on.
#[verifier::external_type_specification]
#[verifier::external_body]
pub struct ExLuaError(mlua::Error);

/// Why the disk did not do what was asked of it.
#[derive(Debug)]
pub enum IoError {
    /// There is no such file.
    NotFound,
    /// Anything else.
    Other(String),
}

/// Why an operation on a document failed.
#[derive(Debug)]
pub enum DocumentError {
    /// The disk refused.
    Io(IoError),
    /// The text could not be processed.
    Rope(String),
    /// The document has no file name.
    NoFileName,
    /// The location is outside the text.
    OutOfRange,
    /// The document may not be changed.
    ReadOnlyFile,
}

/// The errors of the editor.
#[derive(Debug)]
pub enum OxError {
    /// The file is open already.
    AlreadyOpen {
        /// The last component of its name.
        file: String,
    },
    /// An operation on a document failed.
    Kaolinite(DocumentError),
    /// The configuration could not be read.
    Config {
        /// What is wrong with it.
        msg: String,
    },
    /// A script failed.
    Lua(mlua::Error),
    /// The terminal failed, or the user broke off.
    Interface(String),
}

} // verus!
