//! The document metadata: theme name, background kind and author.

use vstd::prelude::*;

verus! {

/// Whether the theme is made for a light or a dark background.
#[derive(Debug, Clone, Copy, PartialEq, Eq, Structural)]
pub enum Background {
    Light,
    Dark,
}

/// The metadata block of a document.
#[derive(Debug)]
pub struct Information {
    pub name: String,
    pub background: Background,
    pub author: String,
}

/// The rendering of a background kind, as `vim.o.background` expects it.
pub open spec fn spec_render_background(b: Background) -> Seq<char> {
    match b {
        Background::Light => "light"@,
        Background::Dark => "dark"@,
    }
}

impl Background {
    /// Renders the kind as `light` or `dark`.
    pub fn render(&self) -> (r: String)
        ensures
            r@ == spec_render_background(*self),
    {
        match self {
            Background::Light => String::from_str("light"),
            Background::Dark => String::from_str("dark"),
        }
    }
}

} // verus!
