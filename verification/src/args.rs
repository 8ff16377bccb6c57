//! The minimal command-line arguments of the generator.

use vstd::prelude::*;

verus! {

/// What the generator is invoked with: the document to compile.
#[derive(Debug)]
pub struct ColorgenArgs {
    /// The filename for your colorscheme.
    pub filename: String,
}

} // verus!
