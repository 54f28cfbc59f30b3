//! The errors of the library.
use vstd::prelude::*;

verus! {

/// What can go wrong in the manifest engine, in name derivation and in the
/// decisions of the commands.
#[derive(Debug, Clone, Copy, PartialEq, Eq, Structural)]
pub enum BinError {
    /// The manifest text is not a TOML document.
    ParseManifest,
    /// The `bin` key holds something other than an array of tables.
    BinNotArrayOfTables,
    /// A record name to add is empty.
    EmptyName,
    /// A record path to add, or a binary path given by the user, is empty.
    EmptyPath,
    /// A file lies outside the project root.
    OutOfTree,
    /// A source file is not syntactically valid Rust.
    ParseSource,
    /// The target of a new binary exists and is not a file.
    NotAFile,
    /// The target of a new binary exists and overwriting was not asked for.
    AlreadyExists,
}

} // verus!
