use colorgen_nvim::formatters::InitLua;
use colorgen_nvim::formatters::InitSetup;
use colorgen_nvim::formatters::VimColorsFile;
use colorgen_nvim::global::Global;
use colorgen_nvim::information::Background;
use colorgen_nvim::information::Information;
use colorgen_nvim::palette::Palette;
use colorgen_nvim::palette::RgbColor;
use colorgen_nvim::sections::color_spec::ColorSpec;
use colorgen_nvim::sections::Section;
use colorgen_nvim::sections::Sections;
use colorgen_nvim::sections::SectionsFormatter;
use colorgen_nvim::Template;

fn demo_palette() -> Palette {
    let mut palette = Palette::new();
    assert!(palette.insert("fg".to_string(), RgbColor::from_str("#abb2bf").unwrap()));
    assert!(palette.insert("bg".to_string(), RgbColor::from_str("#1e222a").unwrap()));
    palette
}

#[test]
fn format_renders_palette_references() {
    let spec = ColorSpec::from_str("fg bg").unwrap();
    assert_eq!(spec.render(), "{ fg = c.fg, bg = c.bg, }");
}

#[test]
fn format_renders_none_sentinel_and_style() {
    let spec = ColorSpec::from_str("- bg u").unwrap();
    assert_eq!(spec.render(), "{ fg = 'NONE', bg = c.bg, underline=true, }");
}

#[test]
fn format_renders_literal_special_and_blend() {
    let spec = ColorSpec::from_str("#abb2bf - - sp 42").unwrap();
    assert_eq!(spec.render(), "{ fg = '#abb2bf', bg = 'NONE', sp = c.sp, blend = 42, }");
}

#[test]
fn style_attributes_render_in_fixed_order() {
    let forward = ColorSpec::from_str("- - ub").unwrap();
    let backward = ColorSpec::from_str("- - bu").unwrap();
    assert_eq!(forward.render(), backward.render());
    assert_eq!(forward.render(), "{ fg = 'NONE', bg = 'NONE', underline=true, bold=true, }");
}

#[test]
fn all_style_attributes_render_in_declaration_order() {
    let spec = ColorSpec::from_str("- - nrbishtdcuo").unwrap();
    assert_eq!(
        spec.render(),
        "{ fg = 'NONE', bg = 'NONE', standout=true, underline=true, undercurl=true, \
         underdouble=true, underdotted=true, underdashed=true, strikethrough=true, \
         italic=true, bold=true, reverse=true, nocombine=true, }"
    );
}

#[test]
fn link_renders_as_link_table() {
    let spec = ColorSpec::from_str("link:Comment").unwrap();
    assert_eq!(spec.render(), "{ link = 'Comment' }");
}

#[test]
fn blend_renders_every_width() {
    assert_eq!(
        ColorSpec::from_str("- - - - 7").unwrap().render(),
        "{ fg = 'NONE', bg = 'NONE', blend = 7, }"
    );
    assert_eq!(
        ColorSpec::from_str("- - - - 42").unwrap().render(),
        "{ fg = 'NONE', bg = 'NONE', blend = 42, }"
    );
    assert_eq!(
        ColorSpec::from_str("- - - - 100").unwrap().render(),
        "{ fg = 'NONE', bg = 'NONE', blend = 100, }"
    );
}

#[test]
fn palette_renders_in_declaration_order() {
    let palette = demo_palette();
    assert_eq!(
        palette.render(),
        "local colors = {\n  fg = \"#abb2bf\",\n  bg = \"#1e222a\",\n}\n\nreturn colors"
    );
}

#[test]
fn empty_palette_renders_empty_table() {
    let palette = Palette::new();
    assert_eq!(palette.render(), "local colors = {\n}\n\nreturn colors");
}

#[test]
fn palette_inner_uses_the_given_indent() {
    let palette = demo_palette();
    assert_eq!(palette.render_inner(""), "\nfg = \"#abb2bf\",\nbg = \"#1e222a\",\n}");
}

#[test]
fn theme_file_renders_sections_and_groups() {
    let sections = Sections(vec![(
        "highlights".to_string(),
        Section(vec![
            ("Normal".to_string(), ColorSpec::from_str("fg bg").unwrap()),
            ("Comment".to_string(), ColorSpec::from_str("link:Normal").unwrap()),
        ]),
    )]);
    let formatter = SectionsFormatter { theme_name: "onedark", sections: &sections };
    assert_eq!(
        formatter.render(),
        "local c = require('onedark.palette')\n\nlocal hl = vim.api.nvim_set_hl\n\
         local theme = {}\n\ntheme.set_highlights = function()\n\n  -- highlights\n  \
         hl(0, \"Normal\", { fg = c.fg, bg = c.bg, })\n  \
         hl(0, \"Comment\", { link = 'Normal' })\n\nend\n\nreturn theme"
    );
}

#[test]
fn background_renders_lowercase() {
    assert_eq!(Background::Light.render(), "light");
    assert_eq!(Background::Dark.render(), "dark");
}

#[test]
fn init_setup_renders_with_indent() {
    let setup = InitSetup { name: "onedark", background: Background::Dark, indent: "  " };
    assert_eq!(
        setup.render(),
        "  vim.cmd('hi clear')\n\n  vim.o.background = 'dark'\n  \
         if vim.fn.exists('syntax_on') then\n    vim.cmd('syntax reset')\n  end\n\n  \
         vim.o.termguicolors = true\n  vim.g.colors_name = 'onedark'"
    );
}

#[test]
fn init_lua_renders_module_entry_point() {
    let init = InitLua { name: "onedark", background: Background::Light };
    assert_eq!(
        init.render(),
        "local M = {}\nlocal theme = require('onedark.theme')\n\nM.setup = function()\n  \
         vim.cmd('hi clear')\n\n  vim.o.background = 'light'\n  \
         if vim.fn.exists('syntax_on') then\n    vim.cmd('syntax reset')\n  end\n\n  \
         vim.o.termguicolors = true\n  vim.g.colors_name = 'onedark'\n\n  \
         theme.set_highlights()\nend\n\nreturn M\n"
    );
}

#[test]
fn vim_colors_file_renders_loader() {
    let file = VimColorsFile { name: "onedark" };
    assert_eq!(file.render(), "require(\"onedark\").setup({})\n");
}

#[test]
fn global_renders_assignments_in_order() {
    let global = Global(vec![
        ("bold".to_string(), "true".to_string()),
        ("italic_comments".to_string(), "false".to_string()),
    ]);
    assert_eq!(
        global.render(),
        "-- set global variables\nvim.g.bold = \"true\"\nvim.g.italic_comments = \"false\"\n"
    );
}

#[test]
fn template_builds_the_surrounding_formatters() {
    let template = Template {
        information: Information {
            name: "mytheme".to_string(),
            background: Background::Dark,
            author: "someone".to_string(),
        },
        palette: demo_palette(),
        global: None,
        sections: Sections(vec![(
            "highlights".to_string(),
            Section(vec![("Normal".to_string(), ColorSpec::from_str("fg bg").unwrap())]),
        )]),
    };
    assert!(template.sections.check_colors(&template.palette).is_ok());
    assert!(template.generate_init().render().contains("require('mytheme.theme')"));
    assert_eq!(
        template.generate_vim_colors_file().render(),
        "require(\"mytheme\").setup({})\n"
    );
    assert!(template.generate_theme().render().contains("require('mytheme.palette')"));
}

#[test]
fn single_file_gathers_globals_setup_palette_and_highlights() {
    let template = Template {
        information: Information {
            name: "mytheme".to_string(),
            background: Background::Dark,
            author: "someone".to_string(),
        },
        palette: demo_palette(),
        global: Some(Global(vec![("bold".to_string(), "true".to_string())])),
        sections: Sections(vec![(
            "highlights".to_string(),
            Section(vec![("Normal".to_string(), ColorSpec::from_str("fg bg").unwrap())]),
        )]),
    };
    let text = template.generate_single_file().render();
    assert!(text.starts_with(
        "-- set global variables\nvim.g.bold = \"true\"\n\nvim.cmd('hi clear')"
    ));
    assert!(text.contains("local c = {\n  fg = \"#abb2bf\",\n  bg = \"#1e222a\",\n}"));
    assert!(text.contains("local hl = vim.api.nvim_set_hl"));
    assert!(text.contains("\n  hl(0, \"Normal\", { fg = c.fg, bg = c.bg, })"));
    assert!(text.ends_with("\n\nend\n\ntheme.set_highlights()\n"));
}

#[test]
fn end_to_end_validated_document_renders() {
    let palette = demo_palette();
    let sections = Sections(vec![(
        "highlights".to_string(),
        Section(vec![("Normal".to_string(), ColorSpec::from_str("fg bg").unwrap())]),
    )]);
    assert!(sections.check_colors(&palette).is_ok());
    let theme = sections.render("mytheme");
    assert!(theme.contains("hl(0, \"Normal\", { fg = c.fg, bg = c.bg, })"));
    let palette_file = palette.render();
    assert!(palette_file.contains("fg = \"#abb2bf\","));
}
