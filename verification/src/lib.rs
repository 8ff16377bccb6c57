//! Compiles a declarative colorscheme description into Lua source text.
//!
//! The library covers the palette of named colors, the compact positional
//! mini-language for highlight-group specifications, the referential check
//! of palette names, and the rendering of palette and highlight tables as
//! Lua value expressions.  Reading the input document and writing the
//! generated files is left to the surrounding binary.

pub mod args;
pub mod cli;
pub mod formatters;
pub mod global;
pub mod information;
pub mod palette;
pub mod sections;

use formatters::spec_render_init_setup;
use formatters::InitLua;
use formatters::InitSetup;
use formatters::VimColorsFile;
use global::spec_render_global;
use global::Global;
use information::Background;
use information::Information;
use palette::color_map_entries;
use palette::spec_render_palette_inner;
use palette::InnerPalette;
use palette::Palette;
use palette::RgbColor;
use sections::spec_render_sections_body;
use sections::Section;
use sections::Sections;
use sections::SectionsFormatter;
use vstd::prelude::*;

verus! {

/// A whole theme document: its metadata, its palette, optional global
/// variables, and its highlight sections.
pub struct Template {
    pub information: Information,
    pub palette: Palette,
    pub global: Option<Global>,
    pub sections: Sections,
}

impl Template {
    /// The entry point of the generated theme module.
    pub fn generate_init(&self) -> (r: InitLua<'_>)
        ensures
            r.name@ == self.information.name@,
            r.background == self.information.background,
    {
        InitLua {
            name: self.information.name.as_str(),
            background: self.information.background,
        }
    }

    /// The loader file that activates the theme.
    pub fn generate_vim_colors_file(&self) -> (r: VimColorsFile<'_>)
        ensures
            r.name@ == self.information.name@,
    {
        VimColorsFile { name: self.information.name.as_str() }
    }

    /// The formatter of the theme file over all sections.
    pub fn generate_theme(&self) -> (r: SectionsFormatter<'_>)
        ensures
            r.theme_name@ == self.information.name@,
            *r.sections == self.sections,
    {
        SectionsFormatter {
            theme_name: self.information.name.as_str(),
            sections: &self.sections,
        }
    }

    /// Everything of the theme gathered for one self-contained file.
    pub fn generate_single_file(&self) -> (r: SingleFile<'_>)
        ensures
            r.init_setup.name@ == self.information.name@,
            r.init_setup.background == self.information.background,
            r.init_setup.indent@ == ""@,
            *r.palette.colors == self.palette.0,
            r.palette.indent@ == "  "@,
            r.theme.theme_name@ == self.information.name@,
            *r.theme.sections == self.sections,
            r.global is Some <==> self.global is Some,
            r.global is Some ==> *r.global->0 == self.global->0,
    {
        SingleFile {
            init_setup: InitSetup {
                name: self.information.name.as_str(),
                background: self.information.background,
                indent: "",
            },
            palette: InnerPalette { colors: &self.palette.0, indent: "  " },
            global: self.global.as_ref(),
            theme: SectionsFormatter {
                theme_name: self.information.name.as_str(),
                sections: &self.sections,
            },
        }
    }
}

/// A whole theme in one file: the optional globals, the setup block,
/// the palette as a local table, and the highlight calls wrapped the
/// same way the module theme file wraps them.
pub struct SingleFile<'a> {
    pub init_setup: InitSetup<'a>,
    pub palette: InnerPalette<'a>,
    pub theme: SectionsFormatter<'a>,
    pub global: Option<&'a Global>,
}

/// The text of a self-contained theme file built from the given parts.
pub open spec fn spec_render_single_file(
    global: Option<&Global>,
    name: Seq<char>,
    background: Background,
    setup_indent: Seq<char>,
    entries: Seq<(Seq<char>, RgbColor)>,
    palette_indent: Seq<char>,
    sections: Seq<(String, Section)>,
) -> Seq<char> {
    (match global {
        Option::Some(g) => spec_render_global(g.0@) + "\n"@,
        Option::None => Seq::<char>::empty(),
    }) + spec_render_init_setup(name, background, setup_indent) + "\n\n"@ + "local c = {"@
        + spec_render_palette_inner(entries, palette_indent) + "\n\n"@
        + "local hl = vim.api.nvim_set_hl"@
        + "\n\nlocal theme = {}\n\ntheme.set_highlights = function()"@
        + spec_render_sections_body(sections) + "\n\nend\n\ntheme.set_highlights()\n"@
}

impl SingleFile<'_> {
    /// Renders the one self-contained theme file.
    pub fn render(&self) -> (r: String)
        ensures
            r@ == spec_render_single_file(
                self.global,
                self.init_setup.name@,
                self.init_setup.background,
                self.init_setup.indent@,
                color_map_entries(*self.palette.colors),
                self.palette.indent@,
                self.theme.sections.0@,
            ),
    {
        let mut out = String::new();
        match self.global {
            Option::Some(g) => {
                out.append(g.render().as_str());
                out.append("\n");
            },
            Option::None => {},
        }
        out.append(self.init_setup.render().as_str());
        out.append("\n\n");
        out.append("local c = {");
        out.append(self.palette.render().as_str());
        out.append("\n\n");
        out.append("local hl = vim.api.nvim_set_hl");
        out.append("\n\nlocal theme = {}\n\ntheme.set_highlights = function()");
        out.append(self.theme.sections.render_body().as_str());
        out.append("\n\nend\n\ntheme.set_highlights()\n");
        proof {
            assert(out@ =~= spec_render_single_file(
                self.global,
                self.init_setup.name@,
                self.init_setup.background,
                self.init_setup.indent@,
                color_map_entries(*self.palette.colors),
                self.palette.indent@,
                self.theme.sections.0@,
            ));
        }
        out
    }
}

} // verus!
