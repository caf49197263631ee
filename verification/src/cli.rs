//! The command-line surface as plain data: one value per subcommand, with the
//! interactive board as the default when none is given. Argument parsing
//! itself happens outside the core and hands one of these values in.

use vstd::prelude::*;

verus! {

/// A parsed invocation: the chosen subcommand, if any.
#[derive(Debug, Clone)]
pub struct Cli {
    pub command: Option<Command>,
}

/// One subcommand of the program.
#[derive(Debug, Clone)]
pub enum Command {
    /// Initialize a project board in the current directory.
    Init { name: Option<String> },
    /// List notes in the current board, optionally one column only.
    List { column: Option<String> },
    /// Add a new note.
    Add {
        title: String,
        body: Option<String>,
        tags: Vec<String>,
        column: Option<String>,
        due: Option<String>,
    },
    /// Move a note to a different column.
    Move { note_id: String, column_id: String },
    /// Edit an existing note.
    Edit {
        note_id: String,
        title: Option<String>,
        body: Option<String>,
        tags: Vec<String>,
        clear_tags: bool,
        column: Option<String>,
        due: Option<String>,
        clear_due: bool,
    },
    /// Launch the interactive board.
    Tui,
}

} // verus!
