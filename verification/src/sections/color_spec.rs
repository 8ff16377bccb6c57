//! One highlight-group definition: a link to another group, or a color
//! format with optional foreground, background, style, special color and
//! blend, together with the style flag set and the Lua rendering.

pub mod parser;

use parser::Color;
use vstd::prelude::*;

verus! {

/// The set of style attributes of a highlight group, one flag per
/// attribute.
///
/// The flags are rendered in the fixed order of the fields below, no
/// matter in which order the corresponding characters were written.
#[derive(Debug, Clone, Copy, PartialEq, Eq, Structural)]
pub struct Style {
    pub standout: bool,
    pub underline: bool,
    pub undercurl: bool,
    pub underdouble: bool,
    pub underdotted: bool,
    pub underdashed: bool,
    pub strikethrough: bool,
    pub italic: bool,
    pub bold: bool,
    pub reverse: bool,
    pub nocombine: bool,
}

/// The style set with no attribute.
pub open spec fn spec_style_none() -> Style {
    Style {
        standout: false,
        underline: false,
        undercurl: false,
        underdouble: false,
        underdotted: false,
        underdashed: false,
        strikethrough: false,
        italic: false,
        bold: false,
        reverse: false,
        nocombine: false,
    }
}

/// Whether `c` stands for a style attribute.
pub open spec fn is_style_char(c: char) -> bool {
    c == 'o' || c == 'u' || c == 'c' || c == 'd' || c == 't' || c == 'h' || c == 's' || c == 'i'
        || c == 'b' || c == 'r' || c == 'n'
}

/// The style set encoded by a run of style characters: an attribute is
/// set exactly when its character occurs somewhere in the run.
pub open spec fn spec_style_of(tok: Seq<char>) -> Style {
    Style {
        standout: tok.contains('o'),
        underline: tok.contains('u'),
        undercurl: tok.contains('c'),
        underdouble: tok.contains('d'),
        underdotted: tok.contains('t'),
        underdashed: tok.contains('h'),
        strikethrough: tok.contains('s'),
        italic: tok.contains('i'),
        bold: tok.contains('b'),
        reverse: tok.contains('r'),
        nocombine: tok.contains('n'),
    }
}

/// The rendering of a style set: one ` name=true,` piece per set flag,
/// in the declaration order of the flags.
pub open spec fn spec_render_style(st: Style) -> Seq<char> {
    (if st.standout {
        " standout=true,"@
    } else {
        Seq::<char>::empty()
    }) + (if st.underline {
        " underline=true,"@
    } else {
        Seq::<char>::empty()
    }) + (if st.undercurl {
        " undercurl=true,"@
    } else {
        Seq::<char>::empty()
    }) + (if st.underdouble {
        " underdouble=true,"@
    } else {
        Seq::<char>::empty()
    }) + (if st.underdotted {
        " underdotted=true,"@
    } else {
        Seq::<char>::empty()
    }) + (if st.underdashed {
        " underdashed=true,"@
    } else {
        Seq::<char>::empty()
    }) + (if st.strikethrough {
        " strikethrough=true,"@
    } else {
        Seq::<char>::empty()
    }) + (if st.italic {
        " italic=true,"@
    } else {
        Seq::<char>::empty()
    }) + (if st.bold {
        " bold=true,"@
    } else {
        Seq::<char>::empty()
    }) + (if st.reverse {
        " reverse=true,"@
    } else {
        Seq::<char>::empty()
    }) + (if st.nocombine {
        " nocombine=true,"@
    } else {
        Seq::<char>::empty()
    })
}

impl Style {
    /// The style set with no attribute.
    pub fn empty() -> (r: Style)
        ensures
            r == spec_style_none(),
    {
        Style {
            standout: false,
            underline: false,
            undercurl: false,
            underdouble: false,
            underdotted: false,
            underdashed: false,
            strikethrough: false,
            italic: false,
            bold: false,
            reverse: false,
            nocombine: false,
        }
    }

    /// Renders the set flags in their fixed order, each as ` name=true,`.
    pub fn render(&self) -> (r: String)
        ensures
            r@ == spec_render_style(*self),
    {
        let mut out = String::new();
        if self.standout {
            out.append(" standout=true,");
        }
        if self.underline {
            out.append(" underline=true,");
        }
        if self.undercurl {
            out.append(" undercurl=true,");
        }
        if self.underdouble {
            out.append(" underdouble=true,");
        }
        if self.underdotted {
            out.append(" underdotted=true,");
        }
        if self.underdashed {
            out.append(" underdashed=true,");
        }
        if self.strikethrough {
            out.append(" strikethrough=true,");
        }
        if self.italic {
            out.append(" italic=true,");
        }
        if self.bold {
            out.append(" bold=true,");
        }
        if self.reverse {
            out.append(" reverse=true,");
        }
        if self.nocombine {
            out.append(" nocombine=true,");
        }
        proof {
            assert(out@ =~= spec_render_style(*self));
        }
        out
    }
}

/// Law: the style set of a run depends only on which characters occur in
/// it, so two runs with the same characters render identically, whatever
/// the order the user wrote them in.
pub proof fn lemma_style_order_independent(a: Seq<char>, b: Seq<char>)
    requires
        forall|c: char| a.contains(c) <==> b.contains(c),
    ensures
        spec_style_of(a) == spec_style_of(b),
        spec_render_style(spec_style_of(a)) == spec_render_style(spec_style_of(b)),
{
}

/// One highlight group: a link to another group, or a full color format.
#[derive(Debug)]
pub enum ColorSpec {
    Link(String),
    Color(ColorFormat),
}

/// One non-link highlight definition.  Every field is optional; a field
/// never written and a field written as `-` both stay `None`.
#[derive(Debug)]
pub struct ColorFormat {
    pub fg: Option<Color>,
    pub bg: Option<Color>,
    pub style: Option<Style>,
    pub special: Option<Color>,
    pub blend: Option<u8>,
}

/// The decimal rendering of a byte, without leading zeros.
pub open spec fn spec_dec_u8(b: u8) -> Seq<char> {
    if b < 10 {
        seq![crate::palette::rgb_color::hex_char_of(b as int)]
    } else if b < 100 {
        seq![
            crate::palette::rgb_color::hex_char_of(b as int / 10),
            crate::palette::rgb_color::hex_char_of(b as int % 10),
        ]
    } else {
        seq![
            crate::palette::rgb_color::hex_char_of(b as int / 100),
            crate::palette::rgb_color::hex_char_of(b as int / 10 % 10),
            crate::palette::rgb_color::hex_char_of(b as int % 10),
        ]
    }
}

/// The `fg` piece of a format rendering; an absent foreground renders as
/// the sentinel `'NONE'`.
pub open spec fn spec_fg_part(fg: Option<Color>) -> Seq<char> {
    match fg {
        Option::Some(c) => " fg = "@ + parser::spec_render_color(c) + ","@,
        Option::None => " fg = 'NONE',"@,
    }
}

/// The `bg` piece of a format rendering; an absent background renders as
/// the sentinel `'NONE'`.
pub open spec fn spec_bg_part(bg: Option<Color>) -> Seq<char> {
    match bg {
        Option::Some(c) => " bg = "@ + parser::spec_render_color(c) + ","@,
        Option::None => " bg = 'NONE',"@,
    }
}

/// The `sp` piece of a format rendering; absent special colors leave no
/// trace.
pub open spec fn spec_sp_part(sp: Option<Color>) -> Seq<char> {
    match sp {
        Option::Some(c) => " sp = "@ + parser::spec_render_color(c) + ","@,
        Option::None => Seq::<char>::empty(),
    }
}

/// The `blend` piece of a format rendering; an absent blend leaves no
/// trace.
pub open spec fn spec_blend_part(blend: Option<u8>) -> Seq<char> {
    match blend {
        Option::Some(b) => " blend = "@ + spec_dec_u8(b) + ","@,
        Option::None => Seq::<char>::empty(),
    }
}

/// The style piece of a format rendering; an absent style leaves no
/// trace.
pub open spec fn spec_style_part(style: Option<Style>) -> Seq<char> {
    match style {
        Option::Some(st) => spec_render_style(st),
        Option::None => Seq::<char>::empty(),
    }
}

/// The rendering of a color format: a Lua table literal with `fg` and
/// `bg` always present (`'NONE'` when absent), then `sp` and `blend`
/// when present, then the style attributes in their fixed order.
pub open spec fn spec_render_format(f: ColorFormat) -> Seq<char> {
    "{"@ + spec_fg_part(f.fg) + spec_bg_part(f.bg) + spec_sp_part(f.special) + spec_blend_part(
        f.blend,
    ) + spec_style_part(f.style) + " }"@
}

/// The rendering of a highlight group: a link table or a color format
/// table.
pub open spec fn spec_render_color_spec(cs: ColorSpec) -> Seq<char> {
    match cs {
        ColorSpec::Link(target) => "{ link = '"@ + target@ + "' }"@,
        ColorSpec::Color(f) => spec_render_format(f),
    }
}

/// The decimal rendering of a byte as a string.
fn dec_str(b: u8) -> (r: String)
    ensures
        r@ == spec_dec_u8(b),
{
    let mut out = String::new();
    if b < 10 {
        out.append(crate::palette::rgb_color::hex_digit_str(b));
    } else if b < 100 {
        out.append(crate::palette::rgb_color::hex_digit_str(b / 10));
        out.append(crate::palette::rgb_color::hex_digit_str(b % 10));
    } else {
        out.append(crate::palette::rgb_color::hex_digit_str(b / 100));
        out.append(crate::palette::rgb_color::hex_digit_str(b / 10 % 10));
        out.append(crate::palette::rgb_color::hex_digit_str(b % 10));
    }
    proof {
        assert(out@ =~= spec_dec_u8(b));
    }
    out
}

impl ColorFormat {
    /// Renders the format as a Lua table literal: `fg` and `bg` always,
    /// `sp` and `blend` when present, then the style attributes.
    pub fn render(&self) -> (r: String)
        ensures
            r@ == spec_render_format(*self),
    {
        let mut out = String::from_str("{");
        let ghost p0 = out@;
        match &self.fg {
            Option::Some(c) => {
                out.append(" fg = ");
                out.append(c.render().as_str());
                out.append(",");
            },
            Option::None => {
                out.append(" fg = 'NONE',");
            },
        }
        proof {
            assert(out@ =~= p0 + spec_fg_part(self.fg));
        }
        let ghost p1 = out@;
        match &self.bg {
            Option::Some(c) => {
                out.append(" bg = ");
                out.append(c.render().as_str());
                out.append(",");
            },
            Option::None => {
                out.append(" bg = 'NONE',");
            },
        }
        proof {
            assert(out@ =~= p1 + spec_bg_part(self.bg));
        }
        let ghost p2 = out@;
        match &self.special {
            Option::Some(c) => {
                out.append(" sp = ");
                out.append(c.render().as_str());
                out.append(",");
            },
            Option::None => {},
        }
        proof {
            assert(out@ =~= p2 + spec_sp_part(self.special));
        }
        let ghost p3 = out@;
        match &self.blend {
            Option::Some(b) => {
                out.append(" blend = ");
                out.append(dec_str(*b).as_str());
                out.append(",");
            },
            Option::None => {},
        }
        proof {
            assert(out@ =~= p3 + spec_blend_part(self.blend));
        }
        let ghost p4 = out@;
        match &self.style {
            Option::Some(st) => {
                out.append(st.render().as_str());
            },
            Option::None => {},
        }
        proof {
            assert(out@ =~= p4 + spec_style_part(self.style));
        }
        out.append(" }");
        proof {
            assert(out@ =~= spec_render_format(*self));
        }
        out
    }
}

impl ColorSpec {
    /// Renders the group as a Lua table literal.
    pub fn render(&self) -> (r: String)
        ensures
            r@ == spec_render_color_spec(*self),
    {
        match self {
            ColorSpec::Link(target) => {
                let mut out = String::from_str("{ link = '");
                out.append(target.as_str());
                out.append("' }");
                out
            },
            ColorSpec::Color(f) => f.render(),
        }
    }
}

} // verus!
