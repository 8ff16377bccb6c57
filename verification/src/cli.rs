//! The full command-line arguments of the generator.

use vstd::prelude::*;

verus! {

/// What the generator is invoked with.
#[derive(Debug)]
pub struct ColorgenArgs {
    /// The filename for your colorscheme.
    pub filename: String,
    /// Write into a single file instead of writing a whole module.
    pub single_file: bool,
    /// File or directory to write the theme to.
    ///
    /// Together with `single_file` it is either the file written to or,
    /// when it names a directory, the theme is written into it under
    /// `<theme-name>.lua`.
    pub output: Option<String>,
}

} // verus!
