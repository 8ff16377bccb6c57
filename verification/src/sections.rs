//! Highlight sections: named groups of highlight-group specifications,
//! their referential check against the palette, and their rendering as
//! the theme file.

pub mod color_spec;

use crate::palette::spec_palette_has;
use crate::palette::Palette;
use crate::palette::RgbColor;
use color_spec::parser::Color;
use color_spec::spec_render_color_spec;
use color_spec::ColorFormat;
use color_spec::ColorSpec;
use vstd::prelude::*;

verus! {

/// One section: highlight groups in declaration order, each with its
/// specification.
#[derive(Debug)]
pub struct Section(pub Vec<(String, ColorSpec)>);

/// All sections of a document, in declaration order.  The section names
/// only group the output; they carry no meaning of their own.
#[derive(Debug)]
pub struct Sections(pub Vec<(String, Section)>);

/// The error for a palette reference that no palette entry satisfies; it
/// names the section, the highlight group and the missing color.
#[derive(Debug)]
pub struct MissingPaletteColor {
    pub section_name: String,
    pub highlight_group: String,
    pub color_ref: String,
}

/// The palette name one color field asks for and the palette lacks, if
/// any; literals and absent fields ask for nothing.
pub open spec fn spec_missing_ref(
    c: Option<Color>,
    palette: Seq<(Seq<char>, RgbColor)>,
) -> Option<Seq<char>> {
    match c {
        Option::Some(Color::PaletteRef(n)) => if spec_palette_has(palette, n@) {
            Option::None
        } else {
            Option::Some(n@)
        },
        _ => Option::None,
    }
}

/// The first unresolved reference of one format: foreground, then
/// background, then special.
pub open spec fn spec_format_missing(
    f: ColorFormat,
    palette: Seq<(Seq<char>, RgbColor)>,
) -> Option<Seq<char>> {
    if spec_missing_ref(f.fg, palette) is Some {
        spec_missing_ref(f.fg, palette)
    } else if spec_missing_ref(f.bg, palette) is Some {
        spec_missing_ref(f.bg, palette)
    } else {
        spec_missing_ref(f.special, palette)
    }
}

/// The first unresolved reference of one highlight group; links name
/// other groups, not palette entries, and are exempt.
pub open spec fn spec_group_missing(
    cs: ColorSpec,
    palette: Seq<(Seq<char>, RgbColor)>,
) -> Option<Seq<char>> {
    match cs {
        ColorSpec::Link(_) => Option::None,
        ColorSpec::Color(f) => spec_format_missing(f, palette),
    }
}

/// The first unresolved reference of one section, as the offending
/// group's name and the missing color name.
pub open spec fn spec_section_missing(
    groups: Seq<(String, ColorSpec)>,
    palette: Seq<(Seq<char>, RgbColor)>,
) -> Option<(Seq<char>, Seq<char>)>
    decreases groups.len(),
{
    if groups.len() == 0 {
        Option::None
    } else {
        match spec_group_missing(groups[0].1, palette) {
            Option::Some(r) => Option::Some((groups[0].0@, r)),
            Option::None => spec_section_missing(groups.drop_first(), palette),
        }
    }
}

/// The first unresolved reference over all sections, as section name,
/// group name and missing color name.
pub open spec fn spec_sections_missing(
    sections: Seq<(String, Section)>,
    palette: Seq<(Seq<char>, RgbColor)>,
) -> Option<(Seq<char>, Seq<char>, Seq<char>)>
    decreases sections.len(),
{
    if sections.len() == 0 {
        Option::None
    } else {
        match spec_section_missing(sections[0].1.0@, palette) {
            Option::Some(gr) => Option::Some((sections[0].0@, gr.0, gr.1)),
            Option::None => spec_sections_missing(sections.drop_first(), palette),
        }
    }
}

/// Whether every color field of every group of one section resolves.
pub open spec fn spec_section_resolves(
    groups: Seq<(String, ColorSpec)>,
    palette: Seq<(Seq<char>, RgbColor)>,
) -> bool {
    forall|k: int|
        0 <= k < groups.len() ==> spec_group_missing((#[trigger] groups[k]).1, palette) is None
}

/// Whether every color field of every group of every section resolves.
pub open spec fn spec_all_resolve(
    sections: Seq<(String, Section)>,
    palette: Seq<(Seq<char>, RgbColor)>,
) -> bool {
    forall|i: int|
        0 <= i < sections.len() ==> spec_section_resolves(
            (#[trigger] sections[i]).1.0@,
            palette,
        )
}

/// One section reports no missing reference exactly when all its groups
/// resolve.
proof fn lemma_section_missing_iff(
    groups: Seq<(String, ColorSpec)>,
    palette: Seq<(Seq<char>, RgbColor)>,
)
    ensures
        spec_section_missing(groups, palette) is None <==> spec_section_resolves(
            groups,
            palette,
        ),
    decreases groups.len(),
{
    if groups.len() > 0 {
        lemma_section_missing_iff(groups.drop_first(), palette);
        if spec_group_missing(groups[0].1, palette) is None {
            if spec_section_resolves(groups.drop_first(), palette) {
                assert forall|k: int| 0 <= k < groups.len() implies spec_group_missing(
                    (#[trigger] groups[k]).1,
                    palette,
                ) is None by {
                    if k > 0 {
                        assert(groups.drop_first()[k - 1] == groups[k]);
                    }
                }
            }
            if spec_section_resolves(groups, palette) {
                assert forall|k: int|
                    0 <= k < groups.drop_first().len() implies spec_group_missing(
                    (#[trigger] groups.drop_first()[k]).1,
                    palette,
                ) is None by {
                    assert(groups.drop_first()[k] == groups[k + 1]);
                }
            }
        } else {
            assert(!spec_section_resolves(groups, palette));
        }
    }
}

/// Law: the validator reports nothing exactly when every palette
/// reference of every section resolves; the first unresolved reference,
/// in declaration order, is the one reported.
pub proof fn lemma_missing_iff_unresolved(
    sections: Seq<(String, Section)>,
    palette: Seq<(Seq<char>, RgbColor)>,
)
    ensures
        spec_sections_missing(sections, palette) is None <==> spec_all_resolve(
            sections,
            palette,
        ),
    decreases sections.len(),
{
    if sections.len() > 0 {
        lemma_missing_iff_unresolved(sections.drop_first(), palette);
        lemma_section_missing_iff(sections[0].1.0@, palette);
        if spec_section_missing(sections[0].1.0@, palette) is None {
            if spec_all_resolve(sections.drop_first(), palette) {
                assert forall|i: int| 0 <= i < sections.len() implies spec_section_resolves(
                    (#[trigger] sections[i]).1.0@,
                    palette,
                ) by {
                    if i > 0 {
                        assert(sections.drop_first()[i - 1] == sections[i]);
                    }
                }
            }
            if spec_all_resolve(sections, palette) {
                assert forall|i: int|
                    0 <= i < sections.drop_first().len() implies spec_section_resolves(
                    (#[trigger] sections.drop_first()[i]).1.0@,
                    palette,
                ) by {
                    assert(sections.drop_first()[i] == sections[i + 1]);
                }
            }
        } else {
            assert(!spec_section_resolves(sections[0].1.0@, palette));
            assert(!spec_all_resolve(sections, palette));
        }
    }
}

/// Checks one optional color field against the palette: a reference the
/// palette lacks fails with the full address of the offending field.
pub fn check_palette_ref(
    color: &Option<Color>,
    palette: &Palette,
    section_name: &str,
    hl_group: &str,
) -> (r: Result<(), MissingPaletteColor>)
    ensures
        r is Ok <==> spec_missing_ref(*color, palette@) is None,
        r is Err ==> (r->Err_0).section_name@ == section_name@ && (r->Err_0).highlight_group@
            == hl_group@ && Option::Some((r->Err_0).color_ref@) == spec_missing_ref(
            *color,
            palette@,
        ),
{
    match color {
        Option::Some(c) => match c {
            Color::PaletteRef(n) => match palette.resolve(n.as_str()) {
                Option::Some(_) => Ok(()),
                Option::None => Err(
                    MissingPaletteColor {
                        section_name: section_name.to_owned(),
                        highlight_group: hl_group.to_owned(),
                        color_ref: n.clone(),
                    },
                ),
            },
            Color::Color(_) => Ok(()),
        },
        Option::None => Ok(()),
    }
}

impl Sections {
    /// Walks every color field of every group of every section, in
    /// declaration order, and reports the first palette reference the
    /// palette cannot resolve; link groups are exempt.
    #[verifier::loop_isolation(false)]
    pub fn check_colors(&self, palette: &Palette) -> (r: Result<(), MissingPaletteColor>)
        ensures
            r is Ok <==> spec_sections_missing(self.0@, palette@) is None,
            r is Err ==> spec_sections_missing(self.0@, palette@) == Option::Some(
                (
                    (r->Err_0).section_name@,
                    (r->Err_0).highlight_group@,
                    (r->Err_0).color_ref@,
                ),
            ),
    {
        let mut i: usize = 0;
        proof {
            assert(self.0@.skip(0) =~= self.0@);
        }
        while i < self.0.len()
            invariant
                0 <= i <= self.0.len(),
                spec_sections_missing(self.0@, palette@) == spec_sections_missing(
                    self.0@.skip(i as int),
                    palette@,
                ),
            decreases self.0.len() - i,
        {
            let section = &self.0[i];
            let mut k: usize = 0;
            proof {
                assert(section.1.0@.skip(0) =~= section.1.0@);
            }
            while k < section.1.0.len()
                invariant
                    0 <= k <= section.1.0.len(),
                    spec_section_missing(section.1.0@, palette@) == spec_section_missing(
                        section.1.0@.skip(k as int),
                        palette@,
                    ),
                decreases section.1.0.len() - k,
            {
                let group = &section.1.0[k];
                match &group.1 {
                    ColorSpec::Color(f) => {
                        match check_palette_ref(
                            &f.fg,
                            palette,
                            section.0.as_str(),
                            group.0.as_str(),
                        ) {
                            Ok(_) => (),
                            Err(e) => {
                                return Err(e);
                            },
                        }
                        match check_palette_ref(
                            &f.bg,
                            palette,
                            section.0.as_str(),
                            group.0.as_str(),
                        ) {
                            Ok(_) => (),
                            Err(e) => {
                                return Err(e);
                            },
                        }
                        match check_palette_ref(
                            &f.special,
                            palette,
                            section.0.as_str(),
                            group.0.as_str(),
                        ) {
                            Ok(_) => (),
                            Err(e) => {
                                return Err(e);
                            },
                        }
                    },
                    ColorSpec::Link(_) => (),
                }
                proof {
                    assert(section.1.0@.skip(k as int).drop_first() =~= section.1.0@.skip(
                        k + 1,
                    ));
                    assert(section.1.0@.skip(k as int)[0] == section.1.0@[k as int]);
                }
                k += 1;
            }
            proof {
                assert(section.1.0@.skip(section.1.0@.len() as int) =~= Seq::<
                    (String, ColorSpec),
                >::empty());
                assert(self.0@.skip(i as int).drop_first() =~= self.0@.skip(i + 1));
                assert(self.0@.skip(i as int)[0] == self.0@[i as int]);
            }
            i += 1;
        }
        proof {
            assert(self.0@.skip(self.0@.len() as int) =~= Seq::<(String, Section)>::empty());
        }
        Ok(())
    }
}

impl MissingPaletteColor {
    /// The human-readable description of the error.
    pub fn message(&self) -> (r: String)
        ensures
            r@ == "In highlight group "@ + self.section_name@ + "."@ + self.highlight_group@
                + " the palette color "@ + self.color_ref@ + " could not be found"@,
    {
        let mut out = String::from_str("In highlight group ");
        out.append(self.section_name.as_str());
        out.append(".");
        out.append(self.highlight_group.as_str());
        out.append(" the palette color ");
        out.append(self.color_ref.as_str());
        out.append(" could not be found");
        out
    }
}

/// One rendered highlight call: the group name and its table handed to
/// `hl`.
pub open spec fn spec_render_group_line(name: Seq<char>, cs: ColorSpec) -> Seq<char> {
    "\n  hl(0, \""@ + name + "\", "@ + spec_render_color_spec(cs) + ")"@
}

/// The highlight calls of one section, in declaration order.
pub open spec fn spec_render_section_lines(groups: Seq<(String, ColorSpec)>) -> Seq<char>
    decreases groups.len(),
{
    if groups.len() == 0 {
        Seq::<char>::empty()
    } else {
        spec_render_section_lines(groups.drop_last()) + spec_render_group_line(
            groups.last().0@,
            groups.last().1,
        )
    }
}

/// One rendered section: a comment naming it, then its highlight calls.
pub open spec fn spec_render_section(name: Seq<char>, groups: Seq<(String, ColorSpec)>) -> Seq<
    char,
> {
    "\n\n  -- "@ + name + spec_render_section_lines(groups)
}

/// The rendered bodies of all sections, in declaration order.
pub open spec fn spec_render_sections_body(sections: Seq<(String, Section)>) -> Seq<char>
    decreases sections.len(),
{
    if sections.len() == 0 {
        Seq::<char>::empty()
    } else {
        spec_render_sections_body(sections.drop_last()) + spec_render_section(
            sections.last().0@,
            sections.last().1.0@,
        )
    }
}

/// The whole theme file: the palette import, the `set_highlights`
/// function over all sections, and the return of the theme table.
pub open spec fn spec_render_sections(
    theme_name: Seq<char>,
    sections: Seq<(String, Section)>,
) -> Seq<char> {
    "local c = require('"@ + theme_name
        + ".palette')\n\nlocal hl = vim.api.nvim_set_hl\nlocal theme = {}\n\ntheme.set_highlights = function()"@
        + spec_render_sections_body(sections) + "\n\nend\n\nreturn theme"@
}

impl Section {
    /// Renders the highlight calls of this section, one per group, in
    /// declaration order.
    #[verifier::loop_isolation(false)]
    pub fn render_lines(&self) -> (r: String)
        ensures
            r@ == spec_render_section_lines(self.0@),
    {
        let mut out = String::new();
        proof {
            assert(self.0@.take(0) =~= Seq::<(String, ColorSpec)>::empty());
        }
        let mut i: usize = 0;
        while i < self.0.len()
            invariant
                0 <= i <= self.0.len(),
                out@ == spec_render_section_lines(self.0@.take(i as int)),
            decreases self.0.len() - i,
        {
            let group = &self.0[i];
            out.append("\n  hl(0, \"");
            out.append(group.0.as_str());
            out.append("\", ");
            out.append(group.1.render().as_str());
            out.append(")");
            proof {
                assert(self.0@.take(i + 1).drop_last() =~= self.0@.take(i as int));
                assert(self.0@.take(i + 1).last() == self.0@[i as int]);
            }
            i += 1;
        }
        proof {
            assert(self.0@.take(self.0@.len() as int) =~= self.0@);
        }
        out
    }
}

impl Sections {
    /// Renders the bodies of all sections: a comment naming each, then
    /// its highlight calls, in declaration order.
    #[verifier::loop_isolation(false)]
    pub fn render_body(&self) -> (r: String)
        ensures
            r@ == spec_render_sections_body(self.0@),
    {
        let mut out = String::new();
        proof {
            assert(self.0@.take(0) =~= Seq::<(String, Section)>::empty());
        }
        let mut i: usize = 0;
        while i < self.0.len()
            invariant
                0 <= i <= self.0.len(),
                out@ == spec_render_sections_body(self.0@.take(i as int)),
            decreases self.0.len() - i,
        {
            let section = &self.0[i];
            out.append("\n\n  -- ");
            out.append(section.0.as_str());
            out.append(section.1.render_lines().as_str());
            proof {
                assert(self.0@.take(i + 1).drop_last() =~= self.0@.take(i as int));
                assert(self.0@.take(i + 1).last() == self.0@[i as int]);
            }
            i += 1;
        }
        proof {
            assert(self.0@.take(self.0@.len() as int) =~= self.0@);
        }
        out
    }

    /// Renders the whole theme file for a theme of this name.
    pub fn render(&self, theme_name: &str) -> (r: String)
        ensures
            r@ == spec_render_sections(theme_name@, self.0@),
    {
        let mut out = String::from_str("local c = require('");
        out.append(theme_name);
        out.append(
            ".palette')\n\nlocal hl = vim.api.nvim_set_hl\nlocal theme = {}\n\ntheme.set_highlights = function()",
        );
        out.append(self.render_body().as_str());
        out.append("\n\nend\n\nreturn theme");
        out
    }
}

/// Renders the theme file of named sections, as the file-assembly step
/// consumes it.
pub struct SectionsFormatter<'a> {
    pub theme_name: &'a str,
    pub sections: &'a Sections,
}

impl SectionsFormatter<'_> {
    /// Renders the whole theme file.
    pub fn render(&self) -> (r: String)
        ensures
            r@ == spec_render_sections(self.theme_name@, self.sections.0@),
    {
        self.sections.render(self.theme_name)
    }
}

} // verus!
