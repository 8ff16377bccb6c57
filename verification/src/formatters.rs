//! The fixed surrounding files of a generated theme: the module entry
//! point, its setup block and the `colors/` loader file.

use crate::information::spec_render_background;
use crate::information::Background;
use vstd::prelude::*;

verus! {

/// The setup block: it clears old highlights, sets the background and
/// the terminal options, and names the colorscheme.
pub open spec fn spec_render_init_setup(
    name: Seq<char>,
    background: Background,
    indent: Seq<char>,
) -> Seq<char> {
    indent + "vim.cmd('hi clear')\n\n"@ + indent + "vim.o.background = '"@
        + spec_render_background(background) + "'\n"@ + indent
        + "if vim.fn.exists('syntax_on') then\n"@ + indent + "  vim.cmd('syntax reset')\n"@
        + indent + "end\n\n"@ + indent + "vim.o.termguicolors = true\n"@ + indent
        + "vim.g.colors_name = '"@ + name + "'"@
}

/// Renders the setup block with the given indent.
fn render_init_setup(name: &str, background: Background, indent: &str) -> (r: String)
    ensures
        r@ == spec_render_init_setup(name@, background, indent@),
{
    let mut out = String::from_str(indent);
    out.append("vim.cmd('hi clear')\n\n");
    out.append(indent);
    out.append("vim.o.background = '");
    out.append(background.render().as_str());
    out.append("'\n");
    out.append(indent);
    out.append("if vim.fn.exists('syntax_on') then\n");
    out.append(indent);
    out.append("  vim.cmd('syntax reset')\n");
    out.append(indent);
    out.append("end\n\n");
    out.append(indent);
    out.append("vim.o.termguicolors = true\n");
    out.append(indent);
    out.append("vim.g.colors_name = '");
    out.append(name);
    out.append("'");
    proof {
        assert(out@ =~= spec_render_init_setup(name@, background, indent@));
    }
    out
}

/// The setup block of a theme, indented for the spot it is pasted into.
pub struct InitSetup<'a> {
    pub name: &'a str,
    pub background: Background,
    pub indent: &'a str,
}

impl InitSetup<'_> {
    /// Renders the setup block.
    pub fn render(&self) -> (r: String)
        ensures
            r@ == spec_render_init_setup(self.name@, self.background, self.indent@),
    {
        render_init_setup(self.name, self.background, self.indent)
    }
}

/// The whole `init.lua` of a theme module: a table with a `setup`
/// function around the setup block, ending in one newline.
pub open spec fn spec_render_init_lua(name: Seq<char>, background: Background) -> Seq<char> {
    "local M = {}\nlocal theme = require('"@ + name + ".theme')\n\nM.setup = function()\n"@
        + spec_render_init_setup(name, background, "  "@)
        + "\n\n  theme.set_highlights()\nend\n\nreturn M\n"@
}

/// The `init.lua` of a theme module.
pub struct InitLua<'a> {
    pub name: &'a str,
    pub background: Background,
}

impl InitLua<'_> {
    /// Renders the module entry point.
    pub fn render(&self) -> (r: String)
        ensures
            r@ == spec_render_init_lua(self.name@, self.background),
    {
        let mut out = String::from_str("local M = {}\nlocal theme = require('");
        out.append(self.name);
        out.append(".theme')\n\nM.setup = function()\n");
        out.append(render_init_setup(self.name, self.background, "  ").as_str());
        out.append("\n\n  theme.set_highlights()\nend\n\nreturn M\n");
        proof {
            assert(out@ =~= spec_render_init_lua(self.name@, self.background));
        }
        out
    }
}

/// The loader file under `colors/`: one `setup` call, ending in one
/// newline.
pub open spec fn spec_render_vim_colors_file(name: Seq<char>) -> Seq<char> {
    "require(\""@ + name + "\").setup({})\n"@
}

/// The loader file that makes the theme available as a colorscheme.
pub struct VimColorsFile<'a> {
    pub name: &'a str,
}

impl VimColorsFile<'_> {
    /// Renders the loader file.
    pub fn render(&self) -> (r: String)
        ensures
            r@ == spec_render_vim_colors_file(self.name@),
    {
        let mut out = String::from_str("require(\"");
        out.append(self.name);
        out.append("\").setup({})\n");
        out
    }
}

} // verus!
